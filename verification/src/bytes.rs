//! Byte strings: hexadecimal, big-endian numbers, UTF-8, and searching.
use crate::text::string_of;
use vstd::prelude::*;
use vstd::utf8::*;

verus! {

// ───────────────────────── hexadecimal ─────────────────────────

/// The lower-case hexadecimal digit for `d`.
pub open spec fn hex_char(d: nat) -> char {
    if d < 10 {
        (48 + d) as u8 as char
    } else {
        (87 + d) as u8 as char
    }
}

/// The value of a hexadecimal digit of either case.
pub open spec fn hex_digit(c: char) -> Option<nat> {
    if '0' <= c && c <= '9' {
        Some((c as u32 - 48) as nat)
    } else if 'a' <= c && c <= 'f' {
        Some((c as u32 - 87) as nat)
    } else if 'A' <= c && c <= 'F' {
        Some((c as u32 - 55) as nat)
    } else {
        None
    }
}

/// Two lower-case hexadecimal digits for each byte.
pub open spec fn hex_text(b: Seq<u8>) -> Seq<char> {
    Seq::new(
        2 * b.len(),
        |i: int|
            if i % 2 == 0 {
                hex_char((b[i / 2] / 16) as nat)
            } else {
                hex_char((b[i / 2] % 16) as nat)
            },
    )
}

/// Whether a text has hexadecimal digits only.
pub open spec fn all_hex(s: Seq<char>) -> bool {
    forall|i: int| 0 <= i < s.len() ==> hex_digit(#[trigger] s[i]) is Some
}

/// The bytes that pairs of hexadecimal digits write.
pub open spec fn hex_bytes(s: Seq<char>) -> Seq<u8> {
    Seq::new(
        s.len() / 2,
        |i: int| (hex_digit(s[2 * i])->0 * 16 + hex_digit(s[2 * i + 1])->0) as u8,
    )
}

/// Reading written bytes gives them back.
pub proof fn hex_reads_back(b: Seq<u8>)
    ensures
        all_hex(hex_text(b)),
        hex_bytes(hex_text(b)) == b,
{
    let s = hex_text(b);
    assert forall|i: int| 0 <= i < s.len() implies hex_digit(#[trigger] s[i]) is Some by {
        assert(0 <= i / 2 < b.len());
    }
    assert forall|i: int| 0 <= i < b.len() implies hex_bytes(s)[i] == b[i] by {
        assert((2 * i) % 2 == 0 && (2 * i) / 2 == i);
        assert((2 * i + 1) % 2 == 1 && (2 * i + 1) / 2 == i);
        assert(hex_digit(s[2 * i])->0 == b[i] / 16);
        assert(hex_digit(s[2 * i + 1])->0 == b[i] % 16);
    }
    assert(hex_bytes(s) =~= b);
}

/// Writes a hexadecimal digit.
pub fn hex_digit_char(d: u8) -> (c: char)
    requires
        d < 16,
    ensures
        c == hex_char(d as nat),
{
    if d < 10 {
        (48 + d) as char
    } else {
        (87 + d) as char
    }
}

/// Reads a hexadecimal digit.
pub fn hex_digit_value(c: char) -> (r: Option<u8>)
    ensures
        match r {
            Some(d) => hex_digit(c) == Some(d as nat) && d < 16,
            None => hex_digit(c) is None,
        },
{
    if '0' <= c && c <= '9' {
        Some((c as u32 - 48) as u8)
    } else if 'a' <= c && c <= 'f' {
        Some((c as u32 - 87) as u8)
    } else if 'A' <= c && c <= 'F' {
        Some((c as u32 - 55) as u8)
    } else {
        None
    }
}

/// Writes bytes in hexadecimal, as characters.
pub fn hex_chars(b: &[u8]) -> (r: Vec<char>)
    ensures
        r@ == hex_text(b@),
{
    let mut out: Vec<char> = Vec::new();
    for i in 0..b.len()
        invariant
            out@.len() == 2 * i,
            forall|j: int| 0 <= j < 2 * i ==> out@[j] == hex_text(b@)[j],
    {
        proof {
            assert((2 * i) % 2 == 0 && (2 * i) / 2 == i);
            assert((2 * i + 1) % 2 == 1 && (2 * i + 1) / 2 == i);
        }
        out.push(hex_digit_char(b[i] / 16));
        out.push(hex_digit_char(b[i] % 16));
    }
    assert(out@ =~= hex_text(b@));
    out
}

/// Writes bytes in hexadecimal.
pub fn to_hex(b: &[u8]) -> (r: String)
    ensures
        r@ == hex_text(b@),
{
    string_of(hex_chars(b).as_slice())
}

/// Reads pairs of hexadecimal digits, if there are only digits and an even
/// number of them.
pub fn parse_hex(chars: &Vec<char>) -> (r: Option<Vec<u8>>)
    ensures
        match r {
            Some(b) => chars@.len() % 2 == 0 && all_hex(chars@) && b@ == hex_bytes(chars@),
            None => chars@.len() % 2 != 0 || !all_hex(chars@),
        },
{
    if chars.len() % 2 != 0 {
        return None;
    }
    let mut out: Vec<u8> = Vec::new();
    let half: usize = chars.len() / 2;
    for i in 0..half
        invariant
            half == chars.len() / 2,
            chars.len() % 2 == 0,
            out@.len() == i,
            forall|j: int| 0 <= j < 2 * i ==> hex_digit(#[trigger] chars@[j]) is Some,
            forall|j: int| 0 <= j < i ==> out@[j] == hex_bytes(chars@)[j],
    {
        match (hex_digit_value(chars[2 * i]), hex_digit_value(chars[2 * i + 1])) {
            (Some(high), Some(low)) => {
                out.push(high * 16 + low);
            },
            _ => {
                assert(hex_digit(chars@[2 * i as int]) is None || hex_digit(
                    chars@[2 * i as int + 1],
                ) is None);
                return None;
            },
        }
    }
    assert(out@ =~= hex_bytes(chars@));
    Some(out)
}

/// The shortest lower-case hexadecimal numeral of `n`.
pub open spec fn hex_numeral(n: nat) -> Seq<char>
    decreases n,
{
    if n < 16 {
        seq![hex_char(n)]
    } else {
        hex_numeral(n / 16).push(hex_char(n % 16))
    }
}

/// Writes a number in hexadecimal, without zeros in front.
pub fn hex_numeral_chars(n: u64) -> (r: Vec<char>)
    ensures
        r@ == hex_numeral(n as nat),
    decreases n,
{
    if n < 16 {
        let mut out: Vec<char> = Vec::new();
        out.push(hex_digit_char(n as u8));
        assert(out@ =~= hex_numeral(n as nat));
        out
    } else {
        let mut out = hex_numeral_chars(n / 16);
        out.push(hex_digit_char((n % 16) as u8));
        out
    }
}

// ───────────────────────── big-endian numbers ─────────────────────────

/// The number that bytes write, most significant first.
pub open spec fn be_value(s: Seq<u8>) -> nat
    decreases s.len(),
{
    if s.len() == 0 {
        0
    } else {
        be_value(s.drop_last()) * 256 + s.last() as nat
    }
}

/// The lowest `width` bytes of `n`, most significant first.
pub open spec fn be_bytes(n: nat, width: nat) -> Seq<u8>
    decreases width,
{
    if width == 0 {
        Seq::empty()
    } else {
        be_bytes(n / 256, (width - 1) as nat).push((n % 256) as u8)
    }
}

/// 256 to the power `width`.
pub open spec fn capacity(width: nat) -> nat
    decreases width,
{
    if width == 0 {
        1
    } else {
        256 * capacity((width - 1) as nat)
    }
}

/// How many numbers so many bytes write.
pub proof fn capacities()
    ensures
        capacity(4) == 0x1_0000_0000,
        capacity(8) == 0x1_0000_0000_0000_0000,
{
    reveal_with_fuel(capacity, 9);
}

/// Bytes read back the number that they were written for.
pub proof fn be_reads_back(n: nat, width: nat)
    requires
        n < capacity(width),
    ensures
        be_bytes(n, width).len() == width,
        be_value(be_bytes(n, width)) == n,
    decreases width,
{
    if width > 0 {
        be_reads_back(n / 256, (width - 1) as nat);
        assert(be_bytes(n, width).drop_last() =~= be_bytes(n / 256, (width - 1) as nat));
    }
}

/// Bytes write no more than their number allows.
pub proof fn be_value_bound(s: Seq<u8>)
    ensures
        be_value(s) < capacity(s.len()),
    decreases s.len(),
{
    if s.len() > 0 {
        be_value_bound(s.drop_last());
    }
}

/// A number is written in as many bytes as were asked for.
pub proof fn be_bytes_len(n: nat, width: nat)
    ensures
        be_bytes(n, width).len() == width,
    decreases width,
{
    if width > 0 {
        be_bytes_len(n / 256, (width - 1) as nat);
    }
}

fn be_vec(n: u64, width: usize) -> (r: Vec<u8>)
    ensures
        r@ == be_bytes(n as nat, width as nat),
    decreases width,
{
    if width == 0 {
        Vec::new()
    } else {
        let mut out = be_vec(n / 256, width - 1);
        out.push((n % 256) as u8);
        out
    }
}

/// Appends the lowest `width` bytes of `n`, most significant first.
pub fn push_be(out: &mut Vec<u8>, n: u64, width: usize)
    ensures
        final(out)@ == old(out)@ + be_bytes(n as nat, width as nat),
{
    let mut digits = be_vec(n, width);
    out.append(&mut digits);
}

/// Reads up to eight bytes as a number, most significant first.
pub fn read_be(b: &[u8], from: usize, to: usize) -> (r: u64)
    requires
        from <= to <= b@.len(),
        to - from <= 8,
    ensures
        r == be_value(b@.subrange(from as int, to as int)),
{
    let mut n: u64 = 0;
    let mut i: usize = from;
    assert(be_value(b@.subrange(from as int, from as int)) == 0);
    while i < to
        invariant
            from <= i <= to <= b@.len(),
            to - from <= 8,
            n == be_value(b@.subrange(from as int, i as int)),
        decreases to - i,
    {
        let ghost shorter = b@.subrange(from as int, i as int);
        let ghost longer = b@.subrange(from as int, i as int + 1);
        proof {
            assert(longer.drop_last() =~= shorter);
            assert(longer.last() == b@[i as int]);
            be_value_bound(longer);
            capacities();
            capacity_grows(longer.len(), 8);
        }
        n = n * 256 + b[i] as u64;
        i = i + 1;
    }
    n
}

proof fn capacity_grows(a: nat, b: nat)
    requires
        a <= b,
    ensures
        capacity(a) <= capacity(b),
    decreases b,
{
    if a < b {
        capacity_grows(a, (b - 1) as nat);
    }
}

// ───────────────────────── parts and searching ─────────────────────────

/// A copy of the bytes from `from` up to `to`.
pub fn copy_range(b: &[u8], from: usize, to: usize) -> (r: Vec<u8>)
    requires
        from <= to <= b@.len(),
    ensures
        r@ == b@.subrange(from as int, to as int),
{
    vstd::slice::slice_to_vec(vstd::slice::slice_subrange(b, from, to))
}

/// A copy of all the bytes.
pub fn copy_all(b: &[u8]) -> (r: Vec<u8>)
    ensures
        r@ == b@,
{
    vstd::slice::slice_to_vec(b)
}

/// Whether two byte strings are equal.
pub fn same_bytes(a: &[u8], b: &[u8]) -> (r: bool)
    ensures
        r == (a@ == b@),
{
    if a.len() != b.len() {
        return false;
    }
    for i in 0..a.len()
        invariant
            a@.len() == b@.len(),
            forall|j: int| 0 <= j < i ==> a@[j] == b@[j],
    {
        if a[i] != b[i] {
            assert(a@[i as int] != b@[i as int]);
            return false;
        }
    }
    assert(a@ =~= b@);
    true
}

/// `needle` stands in `hay` at `at`.
pub open spec fn occurs(hay: Seq<u8>, needle: Seq<u8>, at: int) -> bool {
    0 <= at && at + needle.len() <= hay.len() && hay.subrange(at, at + needle.len()) == needle
}

/// Where `needle` first stands in `hay`.
pub open spec fn first_occurrence(hay: Seq<u8>, needle: Seq<u8>, at: int) -> bool {
    occurs(hay, needle, at) && forall|j: int| 0 <= j < at ==> !occurs(hay, needle, j)
}

/// Finds the first place where `needle` stands in `hay`.
pub fn find_subslice(hay: &[u8], needle: &[u8]) -> (r: Option<usize>)
    ensures
        match r {
            Some(i) => first_occurrence(hay@, needle@, i as int),
            None => forall|j: int| !occurs(hay@, needle@, j),
        },
{
    if needle.len() > hay.len() {
        return None;
    }
    let last: usize = hay.len() - needle.len();
    let mut i: usize = 0;
    loop
        invariant
            last == hay.len() - needle.len(),
            i <= last,
            forall|j: int| 0 <= j < i ==> !occurs(hay@, needle@, j),
        decreases last - i,
    {
        if same_bytes(vstd::slice::slice_subrange(hay, i, i + needle.len()), needle) {
            return Some(i);
        }
        if i == last {
            return None;
        }
        i = i + 1;
    }
}

/// Where `c` first occurs in `s`, or the length of `s`.
pub open spec fn first_byte(s: Seq<u8>, c: u8) -> nat
    decreases s.len(),
{
    if s.len() == 0 || s[0] == c {
        0
    } else {
        1 + first_byte(s.drop_first(), c)
    }
}

/// The parts of `s` between occurrences of `c`: always one more than those.
pub open spec fn byte_parts(s: Seq<u8>, c: u8) -> Seq<Seq<u8>>
    decreases s.len(),
{
    let i = first_byte(s, c) as int;
    if i < s.len() {
        seq![s.take(i)] + byte_parts(s.skip(i + 1), c)
    } else {
        seq![s]
    }
}

proof fn lemma_first_byte(s: Seq<u8>, c: u8, i: int)
    requires
        0 <= i <= s.len(),
        forall|j: int| 0 <= j < i ==> s[j] != c,
        i < s.len() ==> s[i] == c,
    ensures
        first_byte(s, c) == i,
    decreases s.len(),
{
    if i > 0 {
        lemma_first_byte(s.drop_first(), c, i - 1);
    }
}

/// The views of a sequence of byte strings.
pub open spec fn byte_views(items: Seq<Vec<u8>>) -> Seq<Seq<u8>> {
    Seq::new(items.len(), |i: int| items[i]@)
}

/// Splits at every `c`.
pub fn split_bytes(b: &[u8], c: u8) -> (r: Vec<Vec<u8>>)
    ensures
        byte_views(r@) == byte_parts(b@, c),
{
    let mut out: Vec<Vec<u8>> = Vec::new();
    let mut from: usize = 0;
    let mut i: usize = 0;
    proof {
        assert(b@.skip(0) =~= b@);
        assert(byte_views(out@) + byte_parts(b@, c) =~= byte_parts(b@, c));
    }
    while i < b.len()
        invariant
            from <= i <= b@.len(),
            forall|j: int| from <= j < i ==> b@[j] != c,
            byte_views(out@) + byte_parts(b@.skip(from as int), c) == byte_parts(b@, c),
        decreases b@.len() - i,
    {
        if b[i] == c {
            let ghost rest = b@.skip(from as int);
            let ghost before = byte_views(out@);
            let part = copy_range(b, from, i);
            proof {
                lemma_first_byte(rest, c, i - from);
                assert(part@ =~= rest.take(i - from));
                assert(rest.skip(i - from + 1) =~= b@.skip(i + 1));
            }
            out.push(part);
            proof {
                assert(byte_views(out@) =~= before.push(part@));
                assert(byte_views(out@) + byte_parts(b@.skip(i + 1), c) =~= before + byte_parts(
                    rest,
                    c,
                ));
            }
            from = i + 1;
        }
        i = i + 1;
    }
    let ghost rest = b@.skip(from as int);
    let ghost before = byte_views(out@);
    let part = copy_range(b, from, b.len());
    proof {
        assert forall|j: int| 0 <= j < rest.len() implies rest[j] != c by {
            assert(rest[j] == b@[from + j]);
        }
        lemma_first_byte(rest, c, rest.len() as int);
        assert(part@ =~= rest);
    }
    out.push(part);
    assert(byte_views(out@) =~= before + byte_parts(rest, c));
    out
}

/// Whether a byte occurs.
pub fn contains_byte(b: &[u8], c: u8) -> (r: bool)
    ensures
        r == b@.contains(c),
{
    for i in 0..b.len()
        invariant
            forall|j: int| 0 <= j < i ==> b@[j] != c,
    {
        if b[i] == c {
            return true;
        }
    }
    false
}

// ───────────────────────── UTF-8 ─────────────────────────

/// `String::from_utf8`: a string when the bytes are UTF-8, with the characters
/// that they encode, and an error when they are not.
#[verifier::external_body]
pub(crate) fn utf8_string(b: Vec<u8>) -> (r: Option<String>)
    ensures
        match r {
            Some(s) => valid_utf8(b@) && s@ == decode_utf8(b@),
            None => !valid_utf8(b@),
        },
{
    String::from_utf8(b).ok()
}

/// What `String::from_utf8_lossy` makes of bytes that are not UTF-8: U+FFFD in
/// place of what cannot be read.
pub uninterp spec fn replaced(b: Seq<u8>) -> Seq<char>;

/// Bytes as text, as far as they are UTF-8.
pub open spec fn lossy(b: Seq<u8>) -> Seq<char> {
    if valid_utf8(b) {
        decode_utf8(b)
    } else {
        replaced(b)
    }
}

/// `String::from_utf8_lossy`: the characters of valid UTF-8, and U+FFFD in
/// place of what is not.
#[verifier::external_body]
pub(crate) fn lossy_string(b: &[u8]) -> (r: String)
    ensures
        valid_utf8(b@) ==> r@ == decode_utf8(b@),
        !valid_utf8(b@) ==> r@ == replaced(b@),
{
    String::from_utf8_lossy(b).into_owned()
}

} // verus!
