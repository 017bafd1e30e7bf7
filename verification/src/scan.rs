//! Reading text: fields, words, numbers.
use vstd::prelude::*;
use vstd::string::StrSliceExecFns;

use crate::text::characters;

verus! {

/// The texts that a list of slices holds.
pub open spec fn texts(list: Seq<&str>) -> Seq<Seq<char>> {
    Seq::new(list.len(), |i: int| list[i]@)
}

proof fn texts_of_push(list: Seq<&str>, s: &str)
    ensures
        texts(list.push(s)) == texts(list).push(s@),
{
    assert(texts(list.push(s)) =~= texts(list).push(s@));
}

/// The fields of a text between separators: one more than there are separators.
pub open spec fn fields(s: Seq<char>, separator: char) -> Seq<Seq<char>>
    decreases s.len(),
{
    if s.len() == 0 {
        seq![Seq::empty()]
    } else {
        let before = fields(s.drop_last(), separator);
        if s.last() == separator {
            before.push(Seq::empty())
        } else {
            before.drop_last().push(before.last().push(s.last()))
        }
    }
}

/// Splits a text at every separator.
pub fn split<'a>(s: &'a str, separator: char) -> (r: Vec<&'a str>)
    ensures
        texts(r@) == fields(s@, separator),
{
    let chars = characters(s);
    let mut out: Vec<&'a str> = Vec::new();
    let mut start: usize = 0;
    let mut i: usize = 0;
    proof {
        assert(s@.subrange(0, 0) =~= Seq::<char>::empty());
        assert(texts(out@).push(s@.subrange(0, 0)) =~= seq![Seq::<char>::empty()]);
    }
    while i < chars.len()
        invariant
            chars@ == s@,
            start <= i <= chars.len(),
            texts(out@).push(s@.subrange(start as int, i as int)) == fields(s@.take(i as int), separator),
        decreases chars.len() - i,
    {
        let ghost open = s@.subrange(start as int, i as int);
        proof {
            assert(s@.take(i + 1).drop_last() =~= s@.take(i as int));
            assert(texts(out@).push(open).drop_last() =~= texts(out@));
        }
        if chars[i] == separator {
            let field = s.substring_char(start, i);
            proof {
                texts_of_push(out@, field);
                assert(s@.subrange(i + 1, i + 1) =~= Seq::<char>::empty());
            }
            out.push(field);
            start = i + 1;
        } else {
            assert(s@.subrange(start as int, i + 1) =~= open.push(s@[i as int]));
        }
        i = i + 1;
    }
    let field = s.substring_char(start, chars.len());
    proof {
        texts_of_push(out@, field);
        assert(s@.take(chars.len() as int) =~= s@);
    }
    out.push(field);
    out
}

/// Fields put together again with a separator between them.
pub open spec fn joined(parts: Seq<Seq<char>>, separator: char) -> Seq<char>
    decreases parts.len(),
{
    if parts.len() == 0 {
        Seq::empty()
    } else if parts.len() == 1 {
        parts[0]
    } else {
        joined(parts.drop_last(), separator).push(separator) + parts.last()
    }
}

/// Splitting loses nothing: no field holds a separator, and the fields with
/// separators between them are the text.
pub proof fn fields_join_to_the_text(s: Seq<char>, separator: char)
    ensures
        fields(s, separator).len() >= 1,
        forall|i: int|
            0 <= i < fields(s, separator).len() ==> !(#[trigger] fields(s, separator)[i]).contains(
                separator,
            ),
        joined(fields(s, separator), separator) == s,
    decreases s.len(),
{
    let all = fields(s, separator);
    if s.len() > 0 {
        let before = fields(s.drop_last(), separator);
        fields_join_to_the_text(s.drop_last(), separator);
        if s.last() == separator {
            assert(all.drop_last() =~= before);
            assert(joined(all, separator) =~= s);
        } else {
            assert(all.drop_last() =~= before.drop_last());
            assert(s =~= s.drop_last().push(s.last()));
            assert(joined(all, separator) =~= joined(before, separator).push(s.last()));
            assert forall|i: int| 0 <= i < all.len() implies !(#[trigger] all[i]).contains(
                separator,
            ) by {
                if i < all.len() - 1 {
                    assert(all[i] == before[i]);
                } else {
                    let last = before[before.len() - 1];
                    assert(all[i] == last.push(s.last()));
                    assert(!last.contains(separator));
                    assert forall|j: int| 0 <= j < all[i].len() implies all[i][j] != separator by {
                        if j < last.len() {
                            assert(last[j] == all[i][j]);
                        }
                    }
                }
            }
        }
    }
}

/// A text without separators is a single field.
pub proof fn fields_of_one(s: Seq<char>, separator: char)
    requires
        !s.contains(separator),
    ensures
        fields(s, separator) == seq![s],
    decreases s.len(),
{
    if s.len() > 0 {
        assert(s[s.len() - 1] != separator);
        assert forall|k: int| 0 <= k < s.len() - 1 implies s.drop_last()[k] != separator by {
            assert(s[k] != separator);
        }
        fields_of_one(s.drop_last(), separator);
        assert(s.drop_last().push(s.last()) =~= s);
        assert(fields(s, separator) =~= seq![s]);
    } else {
        assert(s =~= Seq::empty());
        assert(fields(s, separator) =~= seq![s]);
    }
}

/// The fields on both sides of a separator.
pub proof fn fields_of_both_sides(a: Seq<char>, separator: char, b: Seq<char>)
    ensures
        fields(a.push(separator) + b, separator) == fields(a, separator) + fields(b, separator),
    decreases b.len(),
{
    let s = a.push(separator) + b;
    if b.len() == 0 {
        assert(s =~= a.push(separator));
        assert(s.drop_last() =~= a);
        assert(fields(s, separator) =~= fields(a, separator) + fields(b, separator));
    } else {
        assert(s.drop_last() =~= a.push(separator) + b.drop_last());
        fields_of_both_sides(a, separator, b.drop_last());
        fields_join_to_the_text(b.drop_last(), separator);
        let left = fields(a, separator);
        let right = fields(b.drop_last(), separator);
        assert((left + right).drop_last() =~= left + right.drop_last());
        assert(fields(s, separator) =~= left + fields(b, separator));
    }
}

/// What one more part adds to parts that are joined.
pub proof fn joined_grows(parts: Seq<Seq<char>>, separator: char, last: Seq<char>)
    ensures
        joined(seq![last], separator) == last,
        parts.len() >= 1 ==> joined(parts.push(last), separator) == joined(parts, separator).push(
            separator,
        ) + last,
{
    assert(parts.push(last).drop_last() =~= parts);
}

/// Joining and splitting undo each other: parts without separators come back as they
/// were put together.
pub proof fn joined_parts_are_the_fields(parts: Seq<Seq<char>>, separator: char)
    requires
        parts.len() >= 1,
        forall|i: int| 0 <= i < parts.len() ==> !(#[trigger] parts[i]).contains(separator),
    ensures
        fields(joined(parts, separator), separator) == parts,
    decreases parts.len(),
{
    if parts.len() == 1 {
        assert(!parts[0].contains(separator));
        fields_of_one(parts[0], separator);
        assert(parts =~= seq![parts[0]]);
    } else {
        let before = parts.drop_last();
        assert forall|i: int| 0 <= i < before.len() implies !(#[trigger] before[i]).contains(
            separator,
        ) by {
            assert(before[i] == parts[i]);
        }
        joined_parts_are_the_fields(before, separator);
        assert(!parts[parts.len() - 1].contains(separator));
        fields_of_one(parts.last(), separator);
        fields_of_both_sides(joined(before, separator), separator, parts.last());
        assert(parts =~= before + seq![parts.last()]);
    }
}

/// Whether a character is white space.
pub open spec fn white(c: char) -> bool {
    ||| 9 <= c as u32 <= 13
    ||| c as u32 == 0x20
    ||| c as u32 == 0x85
    ||| c as u32 == 0xa0
    ||| c as u32 == 0x1680
    ||| 0x2000 <= c as u32 <= 0x200a
    ||| c as u32 == 0x2028
    ||| c as u32 == 0x2029
    ||| c as u32 == 0x202f
    ||| c as u32 == 0x205f
    ||| c as u32 == 0x3000
}

/// Whether a character is white space.
fn is_white(c: char) -> (r: bool)
    ensures
        r == white(c),
{
    let n: u32 = c as u32;
    (9 <= n && n <= 13) || n == 0x20 || n == 0x85 || n == 0xa0 || n == 0x1680 || (0x2000 <= n && n
        <= 0x200a) || n == 0x2028 || n == 0x2029 || n == 0x202f || n == 0x205f || n == 0x3000
}

/// The longest runs of characters that are not white space.
pub open spec fn words(s: Seq<char>) -> Seq<Seq<char>>
    decreases s.len(),
{
    if s.len() == 0 {
        Seq::empty()
    } else {
        let before = words(s.drop_last());
        if white(s.last()) {
            before
        } else if s.len() == 1 || white(s[s.len() - 2]) {
            before.push(seq![s.last()])
        } else {
            before.drop_last().push(before.last().push(s.last()))
        }
    }
}

/// Splits a text into its words.
pub fn split_words<'a>(s: &'a str) -> (r: Vec<&'a str>)
    ensures
        texts(r@) == words(s@),
{
    let chars = characters(s);
    let mut out: Vec<&'a str> = Vec::new();
    let mut start: usize = 0;
    let mut i: usize = 0;
    assert(texts(out@) =~= Seq::empty());
    while i < chars.len()
        invariant
            chars@ == s@,
            start <= i <= chars.len(),
            start < i ==> !white(s@[i - 1]),
            start == i ==> i == 0 || white(s@[i - 1]),
            (if start < i {
                texts(out@).push(s@.subrange(start as int, i as int))
            } else {
                texts(out@)
            }) == words(s@.take(i as int)),
        decreases chars.len() - i,
    {
        let ghost open = s@.subrange(start as int, i as int);
        let ghost more = s@.take(i + 1);
        proof {
            assert(more.drop_last() =~= s@.take(i as int));
            assert(texts(out@).push(open).drop_last() =~= texts(out@));
            assert(i > 0 ==> more[more.len() - 2] == s@[i - 1]);
            assert(s@.subrange(start as int, i + 1) =~= open.push(s@[i as int]));
            assert(start == i ==> open.push(s@[i as int]) =~= seq![s@[i as int]]);
        }
        if is_white(chars[i]) {
            if start < i {
                let word = s.substring_char(start, i);
                proof {
                    texts_of_push(out@, word);
                }
                out.push(word);
            }
            start = i + 1;
        }
        i = i + 1;
    }
    assert(s@.take(chars.len() as int) =~= s@);
    if start < chars.len() {
        let word = s.substring_char(start, chars.len());
        proof {
            texts_of_push(out@, word);
        }
        out.push(word);
    }
    out
}

/// A text without the white space at its ends.
pub open spec fn trimmed(s: Seq<char>) -> Seq<char>
    decreases s.len(),
{
    if s.len() == 0 {
        s
    } else if white(s[0]) {
        trimmed(s.drop_first())
    } else if white(s.last()) {
        trimmed(s.drop_last())
    } else {
        s
    }
}

/// Removes the white space at the ends of a text.
pub fn trim<'a>(s: &'a str) -> (r: &'a str)
    ensures
        r@ == trimmed(s@),
{
    let chars = characters(s);
    let mut start: usize = 0;
    let mut end: usize = chars.len();
    assert(s@.subrange(0, end as int) =~= s@);
    while start < end && is_white(chars[start])
        invariant
            chars@ == s@,
            start <= end == chars.len(),
            trimmed(s@.subrange(start as int, end as int)) == trimmed(s@),
        ensures
            start < end ==> !white(s@[start as int]),
        decreases end - start,
    {
        assert(s@.subrange(start as int, end as int).drop_first() =~= s@.subrange(
            start + 1,
            end as int,
        ));
        start = start + 1;
    }
    while start < end && is_white(chars[end - 1])
        invariant
            chars@ == s@,
            start <= end <= chars.len(),
            start < end ==> !white(s@[start as int]),
            trimmed(s@.subrange(start as int, end as int)) == trimmed(s@),
        ensures
            start < end ==> !white(s@[end - 1]),
        decreases end - start,
    {
        assert(s@.subrange(start as int, end as int).drop_last() =~= s@.subrange(
            start as int,
            end - 1,
        ));
        end = end - 1;
    }
    s.substring_char(start, end)
}

/// Whether a text occurs in another.
pub open spec fn occurs(needle: Seq<char>, hay: Seq<char>) -> bool {
    exists|i: int|
        0 <= i <= hay.len() - needle.len() && #[trigger] hay.subrange(i, i + needle.len()) == needle
}

/// Whether `needle` stands in `hay` at a position.
fn stands_at(needle: &Vec<char>, hay: &Vec<char>, at: usize) -> (r: bool)
    requires
        at + needle@.len() <= hay@.len(),
    ensures
        r == (hay@.subrange(at as int, at + needle@.len()) == needle@),
{
    let end: usize = hay.len();
    let mut j: usize = 0;
    while j < needle.len()
        invariant
            j <= needle.len(),
            hay@.len() == end,
            at + needle@.len() <= hay@.len(),
            forall|k: int| 0 <= k < j ==> hay@[at + k] == needle@[k],
        decreases needle.len() - j,
    {
        if hay[at + j] != needle[j] {
            assert(hay@.subrange(at as int, at + needle@.len())[j as int] != needle@[j as int]);
            return false;
        }
        j = j + 1;
    }
    assert(hay@.subrange(at as int, at + needle@.len()) =~= needle@);
    true
}

/// Whether a text occurs in another.
pub fn contains(hay: &str, needle: &str) -> (r: bool)
    ensures
        r == occurs(needle@, hay@),
{
    let h = characters(hay);
    let n = characters(needle);
    if n.len() > h.len() {
        return false;
    }
    let last: usize = h.len() - n.len();
    let mut i: usize = 0;
    while i <= last
        invariant
            h@ == hay@,
            n@ == needle@,
            last + n@.len() == h@.len(),
            0 <= i <= last + 1,
            forall|k: int|
                0 <= k < i ==> #[trigger] hay@.subrange(k, k + needle@.len()) != needle@,
        decreases last + 1 - i,
    {
        if stands_at(&n, &h, i) {
            return true;
        }
        if i == last {
            return false;
        }
        i = i + 1;
    }
    false
}

/// Whether two texts are the same.
pub fn same(a: &str, b: &str) -> (r: bool)
    ensures
        r == (a@ == b@),
{
    let x = characters(a);
    let y = characters(b);
    if x.len() != y.len() {
        return false;
    }
    let r = stands_at(&x, &y, 0);
    assert(y@.subrange(0, x@.len() as int) =~= y@);
    r
}

/// The number that a sequence of decimal digits writes.
pub open spec fn value(digits: Seq<char>) -> nat
    decreases digits.len(),
{
    if digits.len() == 0 {
        0
    } else {
        value(digits.drop_last()) * 10 + (digits.last() as nat - '0' as nat) as nat
    }
}

/// Whether a character is a decimal digit.
pub open spec fn is_digit(c: char) -> bool {
    '0' as int <= c as int <= '9' as int
}

/// Whether a text consists of decimal digits, at least one.
pub open spec fn all_digits(s: Seq<char>) -> bool {
    s.len() > 0 && forall|i: int| 0 <= i < s.len() ==> is_digit(#[trigger] s[i])
}

/// A text without a leading plus sign.
pub open spec fn unsigned(s: Seq<char>) -> Seq<char> {
    if s.len() > 0 && s[0] == '+' {
        s.drop_first()
    } else {
        s
    }
}

/// The unsigned number up to a maximum that a text writes: decimal digits, at
/// least one, after an optional plus sign.
pub open spec fn number(s: Seq<char>, max: nat) -> Option<nat> {
    if all_digits(unsigned(s)) && value(unsigned(s)) <= max {
        Some(value(unsigned(s)))
    } else {
        None
    }
}

proof fn value_grows(digits: Seq<char>, n: int)
    requires
        0 <= n <= digits.len(),
    ensures
        value(digits.take(n)) <= value(digits),
    decreases digits.len() - n,
{
    if n < digits.len() {
        value_grows(digits, n + 1);
        assert(digits.take(n + 1).drop_last() =~= digits.take(n));
    } else {
        assert(digits.take(n) =~= digits);
    }
}

/// A number in decimal reads back as the number, and is made of digits.
pub proof fn decimal_reads_back(n: nat)
    ensures
        all_digits(crate::text::decimal(n)),
        value(crate::text::decimal(n)) == n,
        unsigned(crate::text::decimal(n)) == crate::text::decimal(n),
        forall|c: char| !is_digit(c) ==> !crate::text::decimal(n).contains(c),
    decreases n,
{
    let s = crate::text::decimal(n);
    if n < 10 {
        assert(value(s.drop_last()) == 0);
    } else {
        decimal_reads_back(n / 10);
        assert(s.drop_last() =~= crate::text::decimal(n / 10));
    }
    assert(s.last() as int - '0' as int == n % 10);
    assert(is_digit(s[0]));
}

/// The number of a character is the same in both types.
proof fn character_number(c: char)
    ensures
        c as u32 == c as int,
{
}

/// Reads an unsigned number up to a maximum.
pub fn parse_number(s: &str, max: u32) -> (r: Option<u32>)
    ensures
        r is Some <==> number(s@, max as nat) is Some,
        r matches Some(n) ==> number(s@, max as nat) == Some(n as nat),
{
    let chars = characters(s);
    let start: usize = if chars.len() > 0 && chars[0] == '+' {
        1
    } else {
        0
    };
    let ghost digits = unsigned(s@);
    assert(digits =~= s@.skip(start as int));
    if chars.len() == start {
        return None;
    }
    let mut total: u64 = 0;
    let mut i: usize = start;
    assert(digits.take(0) =~= Seq::empty());
    while i < chars.len()
        invariant
            chars@ == s@,
            start <= i <= chars.len(),
            start < chars.len(),
            digits == unsigned(s@),
            digits == s@.skip(start as int),
            total == value(digits.take(i - start)),
            total <= max,
            forall|k: int| 0 <= k < i - start ==> is_digit(#[trigger] digits[k]),
        decreases chars.len() - i,
    {
        let character: char = chars[i];
        let c: u32 = character as u32;
        proof {
            character_number(character);
            assert(digits[i - start] == character);
        }
        if c < 48 || c > 57 {
            return None;
        }
        total = total * 10 + (c - 48) as u64;
        proof {
            assert(digits.take(i - start + 1).drop_last() =~= digits.take(i - start));
            value_grows(digits, i - start + 1);
        }
        if total > max as u64 {
            return None;
        }
        i = i + 1;
    }
    assert(digits.take(digits.len() as int) =~= digits);
    Some(total as u32)
}

/// The first position of a character, or the length of the text.
pub open spec fn position(s: Seq<char>, c: char) -> int
    decreases s.len(),
{
    if s.len() == 0 || s[0] == c {
        0
    } else {
        1 + position(s.drop_first(), c)
    }
}

/// The last position of a character, or minus one.
pub open spec fn last_position(s: Seq<char>, c: char) -> int
    decreases s.len(),
{
    if s.len() == 0 {
        -1
    } else if s.last() == c {
        s.len() - 1
    } else {
        last_position(s.drop_last(), c)
    }
}

/// The first position is the one with no other before it.
pub proof fn position_is_first(s: Seq<char>, c: char)
    ensures
        0 <= position(s, c) <= s.len(),
        position(s, c) < s.len() ==> s[position(s, c)] == c,
        forall|k: int| 0 <= k < position(s, c) ==> s[k] != c,
    decreases s.len(),
{
    if s.len() > 0 && s[0] != c {
        let rest = s.drop_first();
        position_is_first(rest, c);
        assert forall|k: int| 0 <= k < position(s, c) implies s[k] != c by {
            if k > 0 {
                assert(s[k] == rest[k - 1]);
            }
        }
    }
}

/// The last position is the one with no other after it.
pub proof fn last_position_is_last(s: Seq<char>, c: char)
    ensures
        -1 <= last_position(s, c) < s.len(),
        last_position(s, c) >= 0 ==> s[last_position(s, c)] == c,
        forall|k: int| last_position(s, c) < k < s.len() ==> s[k] != c,
    decreases s.len(),
{
    if s.len() > 0 && s.last() != c {
        last_position_is_last(s.drop_last(), c);
        assert forall|k: int| last_position(s, c) < k < s.len() implies s[k] != c by {
            if k < s.len() - 1 {
                assert(s[k] == s.drop_last()[k]);
            }
        }
    }
}

/// Finds the first position of a character.
pub fn find(s: &str, c: char) -> (r: Option<usize>)
    ensures
        match r {
            Some(i) => i == position(s@, c) && i < s@.len(),
            None => position(s@, c) == s@.len(),
        },
{
    let chars = characters(s);
    let mut i: usize = 0;
    proof {
        position_is_first(s@, c);
    }
    while i < chars.len()
        invariant
            chars@ == s@,
            i <= chars.len(),
            i <= position(s@, c) <= s@.len(),
            position(s@, c) < s@.len() ==> s@[position(s@, c)] == c,
            forall|k: int| 0 <= k < position(s@, c) ==> s@[k] != c,
        decreases chars.len() - i,
    {
        if chars[i] == c {
            return Some(i);
        }
        i = i + 1;
    }
    None
}

/// Finds the last position of a character.
pub fn find_last(s: &str, c: char) -> (r: Option<usize>)
    ensures
        match r {
            Some(i) => i == last_position(s@, c) && i < s@.len(),
            None => last_position(s@, c) == -1,
        },
{
    let chars = characters(s);
    let mut i: usize = chars.len();
    proof {
        last_position_is_last(s@, c);
    }
    while i > 0
        invariant
            chars@ == s@,
            i <= chars.len(),
            -1 <= last_position(s@, c) < i,
            last_position(s@, c) >= 0 ==> s@[last_position(s@, c)] == c,
            forall|k: int| last_position(s@, c) < k < s@.len() ==> s@[k] != c,
        decreases i,
    {
        i = i - 1;
        if chars[i] == c {
            return Some(i);
        }
    }
    None
}

/// What a text reads as, digit by digit: an empty text and one with anything but digits
/// after an optional plus sign is no number, a leading zero changes nothing, and a number
/// over the maximum is none.
#[verifier::rlimit(60)]
#[verifier::spinoff_prover]
pub proof fn numbers_are_read_by_their_digits(s: Seq<char>, n: nat, max: nat)
    ensures
        number(Seq::empty(), max) is None,
        number(seq!['+'], max) is None,
        number(crate::text::decimal(n), max) == if n <= max {
            Some(n)
        } else {
            None
        },
        all_digits(s) ==> number(seq!['0'] + s, max) == number(s, max),
        all_digits(s) ==> number(seq!['+'] + s, max) == number(s, max),
        (exists|i: int| 1 <= i < s.len() && !is_digit(#[trigger] s[i])) ==> number(s, max) is None,
        s.len() > 0 && s[0] != '+' && !is_digit(s[0]) ==> number(s, max) is None,
        number(s, max) matches Some(m) ==> m <= max,
{
    decimal_reads_back(n);
    assert(seq!['+'].drop_first() =~= Seq::<char>::empty());
    if all_digits(s) {
        assert(is_digit(s[0]));
        let zero = seq!['0'] + s;
        leading_zero(s);
        assert forall|i: int| 0 <= i < zero.len() implies is_digit(#[trigger] zero[i]) by {
            if i > 0 {
                assert(zero[i] == s[i - 1]);
            }
        }
        assert((seq!['+'] + s).drop_first() =~= s);
    }
    if exists|i: int| 1 <= i < s.len() && !is_digit(#[trigger] s[i]) {
        let i = choose|i: int| 1 <= i < s.len() && !is_digit(#[trigger] s[i]);
        if s[0] == '+' {
            assert(unsigned(s)[i - 1] == s[i]);
        }
        assert(!all_digits(unsigned(s)));
    }
}

proof fn leading_zero(s: Seq<char>)
    ensures
        value(seq!['0'] + s) == value(s),
    decreases s.len(),
{
    let zero = seq!['0'] + s;
    if s.len() == 0 {
        assert(zero =~= seq!['0']);
        assert(zero.drop_last() =~= Seq::<char>::empty());
        assert(value(zero.drop_last()) == 0);
    } else {
        leading_zero(s.drop_last());
        assert(zero.drop_last() =~= seq!['0'] + s.drop_last());
    }
}

/// Only spaces, tabs and line ends are white space among the characters of ASCII.
pub proof fn white_space_of_ascii(c: char)
    requires
        (c as u32) < 128,
    ensures
        white(c) <==> c == ' ' || c == '\t' || c == '\n' || c == '\r' || c as u32 == 11 || c as u32
            == 12,
{
}

/// The words of a text: none in an empty text, one in a text without white space, and
/// those on both sides of a white space.
#[verifier::rlimit(60)]
#[verifier::spinoff_prover]
pub proof fn words_on_both_sides(a: Seq<char>, space: char, b: Seq<char>)
    requires
        white(space),
    ensures
        words(Seq::empty()) == Seq::<Seq<char>>::empty(),
        words(a.push(space) + b) == words(a) + words(b),
        a.len() > 0 && (forall|i: int| 0 <= i < a.len() ==> !white(#[trigger] a[i])) ==> words(a)
            == seq![a],
    decreases b.len(),
{
    let s = a.push(space) + b;
    if a.len() > 0 && forall|i: int| 0 <= i < a.len() ==> !white(#[trigger] a[i]) {
        one_word(a);
    }
    if b.len() == 0 {
        assert(s =~= a.push(space));
        assert(s.drop_last() =~= a);
        assert(words(s) =~= words(a) + words(b));
    } else {
        words_on_both_sides(a, space, b.drop_last());
        assert(s.drop_last() =~= a.push(space) + b.drop_last());
        assert(s.last() == b.last());
        let left = words(a);
        let right = words(b.drop_last());
        if !white(b.last()) {
            if b.len() == 1 {
                assert(s[s.len() - 2] == space);
                assert(right =~= Seq::empty());
                assert(words(s) =~= left + words(b));
            } else {
                assert(s[s.len() - 2] == b[b.len() - 2]);
                if white(b[b.len() - 2]) {
                    assert(words(s) =~= left + words(b));
                } else {
                    open_word(b.drop_last());
                    assert((left + right).drop_last() =~= left + right.drop_last());
                    assert(words(s) =~= left + words(b));
                }
            }
        }
    }
}

/// A text that ends in a word has one.
proof fn open_word(s: Seq<char>)
    requires
        s.len() > 0,
        !white(s.last()),
    ensures
        words(s).len() > 0,
    decreases s.len(),
{
    if s.len() > 1 && !white(s[s.len() - 2]) {
        open_word(s.drop_last());
    }
}

proof fn one_word(s: Seq<char>)
    requires
        s.len() > 0,
        forall|i: int| 0 <= i < s.len() ==> !white(#[trigger] s[i]),
    ensures
        words(s) == seq![s],
    decreases s.len(),
{
    assert(!white(s[s.len() - 1]));
    if s.len() == 1 {
        assert(s.drop_last() =~= Seq::<char>::empty());
        assert(words(s.drop_last()) =~= Seq::<Seq<char>>::empty());
        assert(s =~= seq![s.last()]);
        assert(words(s) =~= seq![s]);
    } else {
        assert(!white(s[s.len() - 2]));
        assert forall|i: int| 0 <= i < s.len() - 1 implies !white(#[trigger] s.drop_last()[i]) by {
            assert(s.drop_last()[i] == s[i]);
        }
        one_word(s.drop_last());
        assert(s.drop_last().push(s.last()) =~= s);
        assert(words(s) =~= seq![s]);
    }
}

/// Whether a text is another one with white space before and after it.
pub open spec fn white_around(s: Seq<char>, before: Seq<char>, inner: Seq<char>, after: Seq<char>) -> bool {
    &&& s == before + inner + after
    &&& forall|i: int| 0 <= i < before.len() ==> white(#[trigger] before[i])
    &&& forall|i: int| 0 <= i < after.len() ==> white(#[trigger] after[i])
}

/// A trimmed text has no white space at its ends, and what was taken away is white space
/// around it.
#[verifier::rlimit(60)]
#[verifier::spinoff_prover]
pub proof fn trimming_takes_white_space_away(s: Seq<char>)
    ensures
        trimmed(s).len() > 0 ==> !white(trimmed(s)[0]) && !white(trimmed(s).last()),
        exists|before: Seq<char>, after: Seq<char>|
            #[trigger] white_around(s, before, trimmed(s), after),
    decreases s.len(),
{
    let none = Seq::<char>::empty();
    if s.len() > 0 && white(s[0]) {
        let rest = s.drop_first();
        trimming_takes_white_space_away(rest);
        let (before, after) = choose|before: Seq<char>, after: Seq<char>|
            #[trigger] white_around(rest, before, trimmed(rest), after);
        let more = seq![s[0]] + before;
        assert(s =~= seq![s[0]] + rest);
        assert(s =~= more + trimmed(s) + after);
        assert forall|i: int| 0 <= i < more.len() implies white(#[trigger] more[i]) by {
            if i > 0 {
                assert(more[i] == before[i - 1]);
            }
        }
        assert(white_around(s, more, trimmed(s), after));
    } else if s.len() > 0 && white(s.last()) {
        let rest = s.drop_last();
        trimming_takes_white_space_away(rest);
        let (before, after) = choose|before: Seq<char>, after: Seq<char>|
            #[trigger] white_around(rest, before, trimmed(rest), after);
        let more = after.push(s.last());
        assert(s =~= rest.push(s.last()));
        assert(s =~= before + trimmed(s) + more);
        assert forall|i: int| 0 <= i < more.len() implies white(#[trigger] more[i]) by {
            if i < after.len() {
                assert(more[i] == after[i]);
            }
        }
        assert(white_around(s, before, trimmed(s), more));
    } else {
        assert(s =~= none + trimmed(s) + none);
        assert(white_around(s, none, trimmed(s), none));
    }
}

/// A text occurs in another exactly when that is made of the text and what stands before
/// and after it.
pub proof fn a_text_occurs_between_others(needle: Seq<char>, hay: Seq<char>, before: Seq<char>, after: Seq<char>)
    ensures
        occurs(needle, before + needle + after),
        occurs(needle, hay) ==> exists|a: Seq<char>, b: Seq<char>|
            hay == #[trigger] (a + needle + b),
        needle.len() > hay.len() ==> !occurs(needle, hay),
{
    let all = before + needle + after;
    let n = before.len() as int;
    assert(all.subrange(n, n + needle.len()) =~= needle);
    if occurs(needle, hay) {
        let i = choose|i: int|
            0 <= i <= hay.len() - needle.len() && #[trigger] hay.subrange(i, i + needle.len())
                == needle;
        let a = hay.take(i);
        let b = hay.skip(i + needle.len());
        assert(hay =~= a + needle + b);
    }
}

/// The white space beyond ASCII: the next-line and the no-break space, the spaces of
/// typography, the separators of lines and paragraphs, and those of other scripts.
#[verifier::rlimit(60)]
#[verifier::spinoff_prover]
pub proof fn white_space_beyond_ascii(c: char)
    requires
        c as u32 >= 128,
    ensures
        white(c) <==> seq![
            0x85u32,
            0xa0,
            0x1680,
            0x2000,
            0x2001,
            0x2002,
            0x2003,
            0x2004,
            0x2005,
            0x2006,
            0x2007,
            0x2008,
            0x2009,
            0x200a,
            0x2028,
            0x2029,
            0x202f,
            0x205f,
            0x3000,
        ].contains(c as u32),
{
    let list = seq![
        0x85u32,
        0xa0,
        0x1680,
        0x2000,
        0x2001,
        0x2002,
        0x2003,
        0x2004,
        0x2005,
        0x2006,
        0x2007,
        0x2008,
        0x2009,
        0x200a,
        0x2028,
        0x2029,
        0x202f,
        0x205f,
        0x3000,
    ];
    let n = c as u32;
    if white(c) {
        let i: int = if n == 0x85 {
            0
        } else if n == 0xa0 {
            1
        } else if n == 0x1680 {
            2
        } else if 0x2000 <= n <= 0x200a {
            3 + (n - 0x2000)
        } else if n == 0x2028 {
            14
        } else if n == 0x2029 {
            15
        } else if n == 0x202f {
            16
        } else if n == 0x205f {
            17
        } else {
            18
        };
        assert(list[i] == n);
    }
}

/// A list of slices is seen as its texts, each in its place.
pub proof fn lists_are_seen_as_they_are(list: Seq<&str>)
    ensures
        texts(list).len() == list.len(),
        forall|i: int| 0 <= i < list.len() ==> #[trigger] texts(list)[i] == list[i]@,
{
}

} // verus!
