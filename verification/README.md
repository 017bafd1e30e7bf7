# lamella

Borrow the WiFi of an ESP32. The device forwards Ethernet frames between its radio
and a USB link; a Linux host turns the link into a TAP interface.

The link loses and repeats messages, so the two ends agree on transactions: a
request is repeated until its own response comes, and the device answers a repeated
request without repeating its effect. The library states and proves that no frame is
lost, repeated or reordered on the way, in either direction, as long as the copies of
requests arrive in the order in which they were sent, the device is idle when the host
starts, and no transaction number comes up again after a whole period.

## Layout

- `src/`: the verified library. The decisions of the host daemon, of its test tools
  and of the device firmware are functions and state machines on plain values with
  contracts.
  - `icd`, `exchange`, `device`, `link`: the messages, the host side and the device
    side of the exchange, and both together over a lossy link
  - `radio`: the device between its radio and the link
  - `bridge`, `serial_transport`, `nusb_transport`, `address`: the host and its two
    transports
  - `system_network`, `network_session`: the host as the internet connection of the
    system, through a temporary NetworkManager profile
  - `test_mode`, `download`, `download_run`, `frame_log`, `targets`, `throughput`: tests
  - `metrics`, `text`, `scan`: counters, and text as it is written and read
- `tests/`: the library on concrete values
- `app/`: the host program, and the tasks of the device for any radio driver. It
  performs what the library asks for and hands the outcomes back.

What the library takes on trust from other crates stands in `icd` (the frame buffer
of `heapless`), `device` (`cobs::max_encoding_length`) and `test_mode` (ICMP packets
of `smoltcp`), each with the facts that are used.
