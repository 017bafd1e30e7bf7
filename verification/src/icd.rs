//! Protocol definitions that the host and the device share.
use vstd::prelude::*;

verus! {

/// Maximum Ethernet frame size (MTU 1500 plus headers).
pub const MAX_FRAME_SIZE: usize = 1514;

/// The fixed-capacity vector of the `heapless` crate that carries frame bytes.
#[verifier::external_type_specification]
#[verifier::external_body]
#[verifier::reject_recursive_types(T)]
pub struct ExHeaplessVec<T, const N: usize>(heapless::Vec<T, N>);

/// The bytes that a frame buffer holds, in order.
pub uninterp spec fn buffer_bytes(data: heapless::Vec<u8, MAX_FRAME_SIZE>) -> Seq<u8>;

/// `heapless::Vec::new` gives a buffer that holds nothing.
#[verifier::external_body]
fn buffer_new() -> (data: heapless::Vec<u8, MAX_FRAME_SIZE>)
    ensures
        buffer_bytes(data) == Seq::<u8>::empty(),
{
    heapless::Vec::new()
}

/// `heapless::Vec::extend_from_slice` appends all of `bytes` when they fit into
/// the capacity, and otherwise fails and leaves the buffer as it was.
#[verifier::external_body]
fn buffer_extend(data: &mut heapless::Vec<u8, MAX_FRAME_SIZE>, bytes: &[u8]) -> (r: Result<(), ()>)
    ensures
        r is Ok <==> buffer_bytes(*old(data)).len() + bytes@.len() <= MAX_FRAME_SIZE,
        r is Ok ==> buffer_bytes(*final(data)) == buffer_bytes(*old(data)) + bytes@,
        r is Err ==> buffer_bytes(*final(data)) == buffer_bytes(*old(data)),
{
    data.extend_from_slice(bytes)
}

/// `heapless::Vec::resize` cuts the buffer to `len` bytes or fills it up to `len`
/// with `value`; it fails and changes nothing when `len` is over the capacity.
#[verifier::external_body]
fn buffer_resize(data: &mut heapless::Vec<u8, MAX_FRAME_SIZE>, len: usize, value: u8) -> (r: Result<
    (),
    (),
>)
    ensures
        r is Ok <==> len <= MAX_FRAME_SIZE,
        r is Ok ==> buffer_bytes(*final(data)) == Seq::new(
            len as nat,
            |i: int|
                if i < buffer_bytes(*old(data)).len() {
                    buffer_bytes(*old(data))[i]
                } else {
                    value
                },
        ),
        r is Err ==> buffer_bytes(*final(data)) == buffer_bytes(*old(data)),
{
    data.resize(len, value)
}

/// `heapless::Vec::as_slice` shows all the bytes of the buffer; there are never
/// more than its capacity.
#[verifier::external_body]
fn buffer_as_slice(data: &heapless::Vec<u8, MAX_FRAME_SIZE>) -> (r: &[u8])
    ensures
        r@ == buffer_bytes(*data),
        r@.len() <= MAX_FRAME_SIZE,
{
    data.as_slice()
}

/// `heapless::Vec::clone` gives a buffer with the same bytes.
#[verifier::external_body]
fn buffer_clone(data: &heapless::Vec<u8, MAX_FRAME_SIZE>) -> (r: heapless::Vec<u8, MAX_FRAME_SIZE>)
    ensures
        buffer_bytes(r) == buffer_bytes(*data),
{
    data.clone()
}

/// One Ethernet frame.
#[derive(Debug)]
pub struct WifiFrame {
    pub data: heapless::Vec<u8, MAX_FRAME_SIZE>,
}

impl View for WifiFrame {
    type V = Seq<u8>;

    open spec fn view(&self) -> Seq<u8> {
        buffer_bytes(self.data)
    }
}

impl Clone for WifiFrame {
    fn clone(&self) -> (r: Self)
        ensures
            r@ == self@,
    {
        WifiFrame { data: buffer_clone(&self.data) }
    }
}

impl WifiFrame {
    /// Copies a radio or TAP buffer into a frame. A buffer over
    /// [`MAX_FRAME_SIZE`] bytes is no frame.
    pub fn from_slice(bytes: &[u8]) -> (r: Option<WifiFrame>)
        ensures
            r is Some <==> bytes@.len() <= MAX_FRAME_SIZE,
            r is Some ==> r->0@ == bytes@,
    {
        let mut data = buffer_new();
        match buffer_extend(&mut data, bytes) {
            Ok(()) => Some(WifiFrame { data }),
            Err(()) => None,
        }
    }

    /// A frame of `len` bytes that all have the value `value`, for throughput
    /// tests. A length over [`MAX_FRAME_SIZE`] leaves the frame empty.
    pub fn filled(len: usize, value: u8) -> (r: WifiFrame)
        ensures
            len <= MAX_FRAME_SIZE ==> r@ == Seq::new(len as nat, |i: int| value),
            len > MAX_FRAME_SIZE ==> r@ == Seq::<u8>::empty(),
    {
        let mut data = buffer_new();
        let _ = buffer_resize(&mut data, len, value);
        WifiFrame { data }
    }

    /// The bytes of the frame.
    pub fn as_slice(&self) -> (r: &[u8])
        ensures
            r@ == self@,
            r@.len() <= MAX_FRAME_SIZE,
    {
        buffer_as_slice(&self.data)
    }
}

/// Names one request: the session of the host that sent it and its number.
#[derive(Clone, Copy, Debug, PartialEq, Eq, Structural)]
pub struct WifiTransaction {
    pub session: u64,
    pub id: u32,
}

/// Hands one Ethernet frame to the WiFi driver of the device.
#[derive(Debug)]
pub struct WifiTxRequest {
    pub transaction: WifiTransaction,
    pub frame: WifiFrame,
}

/// Sent only after the WiFi driver has accepted the frame.
#[derive(Clone, Copy, Debug, PartialEq, Eq, Structural)]
pub struct WifiTxResponse {
    pub transaction: WifiTransaction,
}

/// Short-polls one frame that the WiFi driver of the device has received.
#[derive(Clone, Copy, Debug, PartialEq, Eq, Structural)]
pub struct WifiRxRequest {
    pub transaction: WifiTransaction,
}

/// The frame that a poll found, if there was one.
#[derive(Debug)]
pub struct WifiRxResponse {
    pub transaction: WifiTransaction,
    pub frame: Option<WifiFrame>,
}

/// What a poll response says, with the bytes of its frame.
pub struct RxResponseView {
    pub transaction: WifiTransaction,
    pub frame: Option<Seq<u8>>,
}

/// The bytes of an optional frame.
pub open spec fn frame_view(frame: Option<WifiFrame>) -> Option<Seq<u8>> {
    match frame {
        Some(f) => Some(f@),
        None => None,
    }
}

impl View for WifiRxResponse {
    type V = RxResponseView;

    open spec fn view(&self) -> RxResponseView {
        RxResponseView { transaction: self.transaction, frame: frame_view(self.frame) }
    }
}

impl Clone for WifiTxRequest {
    fn clone(&self) -> (r: Self)
        ensures
            r.transaction == self.transaction,
            r.frame@ == self.frame@,
    {
        WifiTxRequest { transaction: self.transaction, frame: self.frame.clone() }
    }
}

impl Clone for WifiRxResponse {
    fn clone(&self) -> (r: Self)
        ensures
            r@ == self@,
    {
        let frame = match &self.frame {
            Some(f) => Some(f.clone()),
            None => None,
        };
        WifiRxResponse { transaction: self.transaction, frame }
    }
}

/// The largest frame is that of Ethernet: a payload of 1500 bytes and a header of fourteen.
pub proof fn frames_are_those_of_ethernet()
    ensures
        MAX_FRAME_SIZE == 1500 + 14,
{
}

/// What a response says is its transaction and the bytes of its frame, when it has one.
pub proof fn a_response_says_what_it_holds(response: WifiRxResponse)
    ensures
        response@.transaction == response.transaction,
        response@.frame is Some <==> response.frame is Some,
        response.frame matches Some(frame) ==> response@.frame == Some(frame@),
{
}

} // verus!
