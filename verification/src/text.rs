//! Strings as sequences of characters: comparison, trimming, splitting, ASCII
//! case, and decimal and hexadecimal numerals.
use vstd::prelude::*;
use vstd::utf8::*;

verus! {

// ───────────────────────── characters and strings ─────────────────────────

/// The views of a sequence of strings.
pub open spec fn views(items: Seq<String>) -> Seq<Seq<char>> {
    Seq::new(items.len(), |i: int| items[i]@)
}

/// The view of an optional string.
pub open spec fn opt_view(s: Option<String>) -> Option<Seq<char>> {
    match s {
        Some(t) => Some(t@),
        None => None,
    }
}

/// The view of an optional string slice.
pub open spec fn opt_str_view(s: Option<&str>) -> Option<Seq<char>> {
    match s {
        Some(t) => Some(t@),
        None => None,
    }
}

/// Views follow a push.
pub proof fn views_push(items: Seq<String>, s: String)
    ensures
        views(items.push(s)) == views(items).push(s@),
{
    assert(views(items.push(s)) =~= views(items).push(s@));
}

/// The characters of a string, in order.
pub fn chars_of(s: &str) -> (r: Vec<char>)
    ensures
        r@ == s@,
{
    let mut r: Vec<char> = Vec::new();
    for c in it: s.chars()
        invariant
            it.seq() == s@,
            r@ == s@.take(it.index() as int),
    {
        r.push(c);
    }
    assert(s@.take(s@.len() as int) == s@);
    r
}

/// `String::from_iter` over characters: the result holds exactly these
/// characters, in this order.
#[verifier::external_body]
pub(crate) fn string_of(chars: &[char]) -> (r: String)
    ensures
        r@ == chars@,
{
    String::from_iter(chars)
}

/// Whether two strings hold the same characters.
pub fn same(a: &str, b: &str) -> (r: bool)
    ensures
        r == (a@ == b@),
{
    broadcast use encode_utf8_decode_utf8;

    let x = a.as_bytes();
    let y = b.as_bytes();
    assert(decode_utf8(x@) == a@);
    assert(decode_utf8(y@) == b@);
    if x.len() != y.len() {
        return false;
    }
    for i in 0..x.len()
        invariant
            x.len() == y.len(),
            x@ == encode_utf8(a@),
            y@ == encode_utf8(b@),
            forall|j: int| 0 <= j < i ==> x@[j] == y@[j],
    {
        if x[i] != y[i] {
            assert(x@[i as int] != y@[i as int]);
            return false;
        }
    }
    assert(x@ =~= y@);
    true
}

/// Whether an optional string holds exactly the characters of `b`.
pub fn opt_same(a: &Option<String>, b: &str) -> (r: bool)
    ensures
        r == (opt_view(*a) == Some(b@)),
{
    match a {
        Some(s) => same(s.as_str(), b),
        None => false,
    }
}

/// Whether two optional strings are equal.
pub fn opt_equal(a: &Option<String>, b: &Option<String>) -> (r: bool)
    ensures
        r == (opt_view(*a) == opt_view(*b)),
{
    match (a, b) {
        (Some(x), Some(y)) => same(x.as_str(), y.as_str()),
        (None, None) => true,
        _ => false,
    }
}

/// A copy of an optional string.
pub fn opt_copy(a: &Option<String>) -> (r: Option<String>)
    ensures
        opt_view(r) == opt_view(*a),
{
    match a {
        Some(x) => Some(x.clone()),
        None => None,
    }
}

/// The string with the characters of `a`, then those of `b`.
pub fn join(a: &str, b: &str) -> (r: String)
    ensures
        r@ == a@ + b@,
{
    a.to_owned().concat(b)
}

/// The string with the characters of `a`, `b` and `c`, in this order.
pub fn join3(a: &str, b: &str, c: &str) -> (r: String)
    ensures
        r@ == a@ + b@ + c@,
{
    a.to_owned().concat(b).concat(c)
}

/// The string with the characters of `a`, `b`, `c` and `d`, in this order.
pub fn join4(a: &str, b: &str, c: &str, d: &str) -> (r: String)
    ensures
        r@ == a@ + b@ + c@ + d@,
{
    a.to_owned().concat(b).concat(c).concat(d)
}

/// Whether `s` begins with `prefix`.
pub open spec fn begins(s: Seq<char>, prefix: Seq<char>) -> bool {
    prefix.len() <= s.len() && s.take(prefix.len() as int) == prefix
}

/// Whether a text begins with another.
pub fn starts_with(s: &str, prefix: &str) -> (r: bool)
    ensures
        r == begins(s@, prefix@),
{
    let a = chars_of(s);
    let b = chars_of(prefix);
    if a.len() < b.len() {
        return false;
    }
    for i in 0..b.len()
        invariant
            a@ == s@,
            b@ == prefix@,
            b.len() <= a.len(),
            forall|j: int| 0 <= j < i ==> a@[j] == b@[j],
    {
        if a[i] != b[i] {
            assert(s@.take(prefix@.len() as int)[i as int] != prefix@[i as int]);
            return false;
        }
    }
    assert(s@.take(prefix@.len() as int) =~= prefix@);
    true
}

/// Part of a string: its characters from `from` up to `to`.
pub fn slice(chars: &Vec<char>, from: usize, to: usize) -> (r: String)
    requires
        from <= to <= chars@.len(),
    ensures
        r@ == chars@.subrange(from as int, to as int),
{
    string_of(vstd::slice::slice_subrange(chars.as_slice(), from, to))
}

// ───────────────────────── ASCII case ─────────────────────────

/// `A` to `Z` become `a` to `z`; every other character stays.
pub open spec fn lower_char(c: char) -> char {
    if 'A' <= c && c <= 'Z' {
        (c as u32 + 32) as u8 as char
    } else {
        c
    }
}

/// [`lower_char`] on every character.
pub open spec fn lower(s: Seq<char>) -> Seq<char> {
    Seq::new(s.len(), |i: int| lower_char(s[i]))
}

/// Makes an ASCII letter small.
pub fn to_lower_char(c: char) -> (r: char)
    ensures
        r == lower_char(c),
{
    if 'A' <= c && c <= 'Z' {
        (c as u32 + 32) as u8 as char
    } else {
        c
    }
}

/// The string with its ASCII letters in lower case.
pub fn to_lower(s: &str) -> (r: String)
    ensures
        r@ == lower(s@),
{
    let chars = chars_of(s);
    let mut out: Vec<char> = Vec::new();
    for i in 0..chars.len()
        invariant
            chars@ == s@,
            out@ == lower(s@).take(i as int),
    {
        out.push(to_lower_char(chars[i]));
        assert(out@ =~= lower(s@).take(i as int + 1));
    }
    assert(lower(s@).take(s@.len() as int) =~= lower(s@));
    string_of(out.as_slice())
}

/// Whether two strings are equal but for the case of ASCII letters.
pub fn same_ignoring_case(a: &str, b: &str) -> (r: bool)
    ensures
        r == (lower(a@) == lower(b@)),
{
    let x = to_lower(a);
    let y = to_lower(b);
    same(x.as_str(), y.as_str())
}

// ───────────────────────── white space ─────────────────────────

/// The characters with the Unicode property White_Space.
pub open spec fn is_space(c: char) -> bool {
    let n = c as u32;
    ||| 0x9 <= n <= 0xd
    ||| n == 0x20
    ||| n == 0x85
    ||| n == 0xa0
    ||| n == 0x1680
    ||| 0x2000 <= n <= 0x200a
    ||| n == 0x2028
    ||| n == 0x2029
    ||| n == 0x202f
    ||| n == 0x205f
    ||| n == 0x3000
}

/// Whether a character is white space.
pub fn is_white(c: char) -> (r: bool)
    ensures
        r == is_space(c),
{
    let n: u32 = c as u32;
    (0x9 <= n && n <= 0xd) || n == 0x20 || n == 0x85 || n == 0xa0 || n == 0x1680 || (0x2000 <= n
        && n <= 0x200a) || n == 0x2028 || n == 0x2029 || n == 0x202f || n == 0x205f || n == 0x3000
}

/// `s` without the white space at its beginning.
pub open spec fn trim_start(s: Seq<char>) -> Seq<char>
    decreases s.len(),
{
    if s.len() > 0 && is_space(s[0]) {
        trim_start(s.drop_first())
    } else {
        s
    }
}

/// `s` without the white space at its end.
pub open spec fn trim_end(s: Seq<char>) -> Seq<char>
    decreases s.len(),
{
    if s.len() > 0 && is_space(s.last()) {
        trim_end(s.drop_last())
    } else {
        s
    }
}

/// `s` without the white space at both ends.
pub open spec fn trimmed(s: Seq<char>) -> Seq<char> {
    trim_end(trim_start(s))
}

/// The string without the white space at both ends.
pub fn trim(s: &str) -> (r: String)
    ensures
        r@ == trimmed(s@),
{
    let chars = chars_of(s);
    let mut from: usize = 0;
    assert(s@.subrange(0, s@.len() as int) =~= s@);
    while from < chars.len() && is_white(chars[from])
        invariant
            chars@ == s@,
            from <= chars.len(),
            trim_start(s@) == trim_start(s@.subrange(from as int, s@.len() as int)),
        decreases chars.len() - from,
    {
        assert(s@.subrange(from as int, s@.len() as int).drop_first() =~= s@.subrange(
            from as int + 1,
            s@.len() as int,
        ));
        from = from + 1;
    }
    let ghost mid = s@.subrange(from as int, s@.len() as int);
    assert(trim_start(s@) == mid);
    let mut to: usize = chars.len();
    while from < to && is_white(chars[to - 1])
        invariant
            chars@ == s@,
            from <= to <= chars.len(),
            mid == s@.subrange(from as int, s@.len() as int),
            trim_end(mid) == trim_end(s@.subrange(from as int, to as int)),
        decreases to,
    {
        assert(s@.subrange(from as int, to as int).drop_last() =~= s@.subrange(
            from as int,
            to as int - 1,
        ));
        to = to - 1;
    }
    slice(&chars, from, to)
}

// ───────────────────────── splitting ─────────────────────────

/// Where `c` first occurs in `s`, or the length of `s`.
pub open spec fn first_index(s: Seq<char>, c: char) -> nat
    decreases s.len(),
{
    if s.len() == 0 || s[0] == c {
        0
    } else {
        1 + first_index(s.drop_first(), c)
    }
}

/// How far the first occurrence of a character is, from another place on.
pub proof fn lemma_first_index(s: Seq<char>, c: char, i: int)
    requires
        0 <= i <= s.len(),
        forall|j: int| 0 <= j < i ==> s[j] != c,
        i < s.len() ==> s[i] == c,
    ensures
        first_index(s, c) == i,
    decreases s.len(),
{
    if i > 0 {
        lemma_first_index(s.drop_first(), c, i - 1);
    }
}

/// A first occurrence lies in the text.
pub proof fn lemma_first_index_bound(s: Seq<char>, c: char)
    ensures
        first_index(s, c) <= s.len(),
        forall|j: int| 0 <= j < first_index(s, c) ==> s[j] != c,
        first_index(s, c) < s.len() ==> s[first_index(s, c) as int] == c,
    decreases s.len(),
{
    if s.len() > 0 && s[0] != c {
        let t = s.drop_first();
        lemma_first_index_bound(t, c);
        assert forall|j: int| 0 <= j < first_index(s, c) implies s[j] != c by {
            if j > 0 {
                assert(s[j] == t[j - 1]);
            }
        }
    }
}

/// The parts of `s` before and after the first `c`.
pub open spec fn split_pair(s: Seq<char>, c: char) -> Option<(Seq<char>, Seq<char>)> {
    let i = first_index(s, c) as int;
    if i < s.len() {
        Some((s.take(i), s.skip(i + 1)))
    } else {
        None
    }
}

/// Where `c` first occurs among the characters from `from` on.
pub fn find_from(chars: &Vec<char>, c: char, from: usize) -> (r: usize)
    requires
        from <= chars@.len(),
    ensures
        r == from + first_index(chars@.skip(from as int), c),
        from <= r <= chars@.len(),
{
    let ghost s = chars@.skip(from as int);
    let mut i: usize = from;
    while i < chars.len() && chars[i] != c
        invariant
            from <= i <= chars.len(),
            s == chars@.skip(from as int),
            forall|j: int| 0 <= j < i - from ==> s[j] != c,
        decreases chars.len() - i,
    {
        assert(s[i - from] == chars@[i as int]);
        i = i + 1;
    }
    proof {
        if i < chars.len() {
            assert(s[i - from] == chars@[i as int]);
        }
        lemma_first_index(s, c, i - from);
    }
    i
}

/// Splits at the first `c`.
pub fn split_once(s: &str, c: char) -> (r: Option<(String, String)>)
    ensures
        match r {
            Some((a, b)) => split_pair(s@, c) == Some((a@, b@)),
            None => split_pair(s@, c) is None,
        },
{
    let chars = chars_of(s);
    assert(chars@.skip(0) =~= s@);
    let i = find_from(&chars, c, 0);
    if i < chars.len() {
        let a = slice(&chars, 0, i);
        let b = slice(&chars, i + 1, chars.len());
        assert(a@ =~= s@.take(i as int));
        assert(b@ =~= s@.skip(i + 1));
        Some((a, b))
    } else {
        None
    }
}

/// The parts of `s` between occurrences of `c`: always one more than those.
pub open spec fn split_all(s: Seq<char>, c: char) -> Seq<Seq<char>>
    decreases s.len(),
{
    let i = first_index(s, c) as int;
    if i < s.len() {
        seq![s.take(i)] + split_all(s.skip(i + 1), c)
    } else {
        seq![s]
    }
}

/// Splits at every `c`.
pub fn split(s: &str, c: char) -> (r: Vec<String>)
    ensures
        views(r@) == split_all(s@, c),
{
    let chars = chars_of(s);
    let mut out: Vec<String> = Vec::new();
    let mut from: usize = 0;
    assert(s@.skip(0) =~= s@);
    assert(views(out@) + split_all(s@, c) =~= split_all(s@, c));
    loop
        invariant
            chars@ == s@,
            from <= chars.len(),
            views(out@) + split_all(s@.skip(from as int), c) == split_all(s@, c),
        decreases chars.len() - from,
    {
        let ghost rest = s@.skip(from as int);
        let i = find_from(&chars, c, from);
        let ghost before = out@;
        let part = slice(&chars, from, i);
        if i < chars.len() {
            proof {
                assert(part@ =~= rest.take(i - from));
                assert(rest.skip(i - from + 1) =~= s@.skip(i + 1));
                views_push(before, part);
                assert(views(before) + split_all(rest, c) =~= views(before.push(part)) + split_all(
                    s@.skip(i + 1),
                    c,
                ));
            }
            out.push(part);
            from = i + 1;
        } else {
            proof {
                assert(part@ =~= rest);
                views_push(before, part);
                assert(views(before.push(part)) =~= views(before) + split_all(rest, c));
            }
            out.push(part);
            return out;
        }
    }
}

// ───────────────────────── searching ─────────────────────────

/// Where `t` stands in `s` at `from` or later for the first time, or `None`.
pub open spec fn find_at(s: Seq<char>, t: Seq<char>, from: int) -> Option<int>
    decreases s.len() + 1 - from,
{
    if from < 0 || from + t.len() > s.len() {
        None
    } else if s.subrange(from, from + t.len()) == t {
        Some(from)
    } else {
        find_at(s, t, from + 1)
    }
}

/// A text that was found lies in the other.
pub proof fn find_at_bound(s: Seq<char>, t: Seq<char>, from: int)
    ensures
        find_at(s, t, from) matches Some(i) ==> from <= i && i + t.len() <= s.len(),
    decreases s.len() + 1 - from,
{
    if !(from < 0 || from + t.len() > s.len()) && s.subrange(from, from + t.len()) != t {
        find_at_bound(s, t, from + 1);
    }
}

fn stands_at(s: &Vec<char>, t: &Vec<char>, at: usize) -> (r: bool)
    requires
        at + t@.len() <= s@.len(),
    ensures
        r == (s@.subrange(at as int, at + t@.len()) == t@),
{
    for i in 0..t.len()
        invariant
            at + t.len() <= s.len(),
            forall|j: int| 0 <= j < i ==> s@[at + j] == t@[j],
    {
        if s[at + i] != t[i] {
            assert(s@.subrange(at as int, at + t@.len())[i as int] != t@[i as int]);
            return false;
        }
    }
    assert(s@.subrange(at as int, at + t@.len()) =~= t@);
    true
}

/// Finds a text at `from` or later.
pub fn find_text(s: &Vec<char>, t: &Vec<char>, from: usize) -> (r: Option<usize>)
    ensures
        match r {
            Some(i) => find_at(s@, t@, from as int) == Some(i as int) && from <= i && i + t@.len()
                <= s@.len(),
            None => find_at(s@, t@, from as int) is None,
        },
{
    if t.len() > s.len() {
        return None;
    }
    let last: usize = s.len() - t.len();
    let mut i: usize = from;
    while i <= last
        invariant
            last == s.len() - t.len(),
            from <= i,
            find_at(s@, t@, from as int) == find_at(s@, t@, i as int),
        decreases last + 1 - i,
    {
        if stands_at(s, t, i) {
            return Some(i);
        }
        if i == last {
            assert(find_at(s@, t@, i + 1) is None);
            return None;
        }
        i = i + 1;
    }
    None
}

// ───────────────────────── decimal numerals ─────────────────────────

/// Whether a character is a decimal digit.
pub open spec fn is_digit(c: char) -> bool {
    '0' <= c && c <= '9'
}

/// Whether a text has decimal digits only.
pub open spec fn all_digits(s: Seq<char>) -> bool {
    forall|i: int| 0 <= i < s.len() ==> is_digit(#[trigger] s[i])
}

/// The number that a row of decimal digits writes.
pub open spec fn digits_value(s: Seq<char>) -> nat
    decreases s.len(),
{
    if s.len() == 0 {
        0
    } else {
        digits_value(s.drop_last()) * 10 + (s.last() as u32 - 48) as nat
    }
}

/// An unsigned decimal numeral up to `max`: one or more digits, after a `+` at
/// most.
pub open spec fn unsigned_numeral(s: Seq<char>, max: nat) -> Option<nat> {
    let body = if s.len() > 0 && s[0] == '+' {
        s.drop_first()
    } else {
        s
    };
    if body.len() > 0 && all_digits(body) && digits_value(body) <= max {
        Some(digits_value(body))
    } else {
        None
    }
}

/// A signed decimal numeral between `i64::MIN` and `i64::MAX`: one or more
/// digits, after one sign at most.
pub open spec fn signed_numeral(s: Seq<char>) -> Option<int> {
    let body = if s.len() > 0 && (s[0] == '+' || s[0] == '-') {
        s.drop_first()
    } else {
        s
    };
    let n = if s.len() > 0 && s[0] == '-' {
        -digits_value(body)
    } else {
        digits_value(body) as int
    };
    if body.len() > 0 && all_digits(body) && i64::MIN <= n <= i64::MAX {
        Some(n)
    } else {
        None
    }
}

proof fn digits_value_grows(s: Seq<char>, i: int)
    requires
        all_digits(s),
        0 <= i <= s.len(),
    ensures
        digits_value(s.take(i)) <= digits_value(s),
    decreases s.len(),
{
    if i == s.len() {
        assert(s.take(i) =~= s);
    } else {
        assert(all_digits(s.drop_last()));
        digits_value_grows(s.drop_last(), i);
        assert(s.drop_last().take(i) =~= s.take(i));
        assert(is_digit(s[s.len() - 1]));
    }
}

/// The value of the digits from `from` on, if they are all digits, there is at
/// least one, and the value is at most `max`.
fn digits_up_to(chars: &Vec<char>, from: usize, max: u64) -> (r: Option<u64>)
    requires
        from <= chars@.len(),
    ensures
        ({
            let body = chars@.skip(from as int);
            match r {
                Some(n) => body.len() > 0 && all_digits(body) && digits_value(body) == n && n
                    <= max,
                None => body.len() == 0 || !all_digits(body) || digits_value(body) > max,
            }
        }),
{
    let ghost body = chars@.skip(from as int);
    if from == chars.len() {
        return None;
    }
    let mut n: u64 = 0;
    let mut i: usize = from;
    assert(digits_value(body.take(0)) == 0);
    while i < chars.len()
        invariant
            from <= i <= chars.len(),
            from < chars.len(),
            body == chars@.skip(from as int),
            forall|j: int| 0 <= j < i - from ==> is_digit(body[j]),
            n == digits_value(body.take(i - from)),
            n <= max,
        decreases chars.len() - i,
    {
        let c = chars[i];
        assert(body[i - from] == c);
        if !('0' <= c && c <= '9') {
            assert(!all_digits(body));
            return None;
        }
        let d: u64 = (c as u32 - 48) as u64;
        let ghost longer = body.take(i - from + 1);
        proof {
            assert(longer.drop_last() =~= body.take(i - from));
            assert(longer.last() == c);
            if all_digits(body) {
                digits_value_grows(body, i - from + 1);
            }
        }
        if d > max || n > max / 10 || n * 10 > max - d {
            assert(digits_value(longer) > max);
            return None;
        }
        n = n * 10 + d;
        i = i + 1;
    }
    assert(body.take(i - from) =~= body);
    Some(n)
}

/// Reads an unsigned decimal numeral of at most `max`.
pub fn parse_unsigned(s: &str, max: u64) -> (r: Option<u64>)
    ensures
        match r {
            Some(n) => unsigned_numeral(s@, max as nat) == Some(n as nat),
            None => unsigned_numeral(s@, max as nat) is None,
        },
{
    let chars = chars_of(s);
    if chars.len() > 0 && chars[0] == '+' {
        assert(s@.drop_first() =~= chars@.skip(1));
        digits_up_to(&chars, 1, max)
    } else {
        assert(s@ =~= chars@.skip(0));
        digits_up_to(&chars, 0, max)
    }
}

/// Reads a signed decimal numeral.
pub fn parse_signed(s: &str) -> (r: Option<i64>)
    ensures
        match r {
            Some(n) => signed_numeral(s@) == Some(n as int),
            None => signed_numeral(s@) is None,
        },
{
    let chars = chars_of(s);
    if chars.len() > 0 && chars[0] == '-' {
        assert(s@.drop_first() =~= chars@.skip(1));
        match digits_up_to(&chars, 1, 0x8000_0000_0000_0000) {
            Some(n) => {
                if n == 0x8000_0000_0000_0000 {
                    Some(i64::MIN)
                } else {
                    Some(-(n as i64))
                }
            },
            None => None,
        }
    } else if chars.len() > 0 && chars[0] == '+' {
        assert(s@.drop_first() =~= chars@.skip(1));
        match digits_up_to(&chars, 1, 0x7fff_ffff_ffff_ffff) {
            Some(n) => Some(n as i64),
            None => None,
        }
    } else {
        assert(s@ =~= chars@.skip(0));
        match digits_up_to(&chars, 0, 0x7fff_ffff_ffff_ffff) {
            Some(n) => Some(n as i64),
            None => None,
        }
    }
}

/// The decimal digit for `d`.
pub open spec fn digit(d: nat) -> char {
    (48 + d) as u8 as char
}

/// The shortest decimal numeral of `n`.
pub open spec fn decimal(n: nat) -> Seq<char>
    decreases n,
{
    if n < 10 {
        seq![digit(n)]
    } else {
        decimal(n / 10).push(digit(n % 10))
    }
}

/// The decimal numeral of an integer, with a `-` where it is negative.
pub open spec fn signed_decimal(n: int) -> Seq<char> {
    if n < 0 {
        seq!['-'] + decimal((-n) as nat)
    } else {
        decimal(n as nat)
    }
}

fn decimal_chars(n: u64) -> (r: Vec<char>)
    ensures
        r@ == decimal(n as nat),
    decreases n,
{
    if n < 10 {
        let mut out: Vec<char> = Vec::new();
        out.push((48 + n) as u8 as char);
        assert(out@ =~= decimal(n as nat));
        out
    } else {
        let mut out = decimal_chars(n / 10);
        out.push((48 + n % 10) as u8 as char);
        out
    }
}

/// Writes a number in decimal.
pub fn to_decimal(n: u64) -> (r: String)
    ensures
        r@ == decimal(n as nat),
{
    string_of(decimal_chars(n).as_slice())
}

/// Writes an integer in decimal.
pub fn to_signed_decimal(n: i64) -> (r: String)
    ensures
        r@ == signed_decimal(n as int),
{
    if n < 0 {
        let m: u64 = if n == i64::MIN {
            0x8000_0000_0000_0000
        } else {
            (-n) as u64
        };
        let digits = to_decimal(m);
        proof {
            reveal_strlit("-");
            assert("-"@ =~= seq!['-']);
        }
        join("-", digits.as_str())
    } else {
        to_decimal(n as u64)
    }
}

/// Reading a written number gives it back.
pub proof fn decimal_reads_back(n: nat)
    ensures
        decimal(n).len() > 0,
        all_digits(decimal(n)),
        digits_value(decimal(n)) == n,
        unsigned_numeral(decimal(n), n) == Some(n),
    decreases n,
{
    let s = decimal(n);
    if n < 10 {
        assert(s.drop_last() =~= Seq::<char>::empty());
        assert(digits_value(s.drop_last()) == 0);
    } else {
        decimal_reads_back(n / 10);
        assert(s.drop_last() =~= decimal(n / 10));
    }
    assert(is_digit(s[0]));
}

} // verus!
