//! Laws of texts and numerals.
use crate::text::{
    all_digits, decimal, decimal_reads_back, digit, digits_value, find_at, first_index, is_digit,
    is_space, lemma_first_index_bound, lower, signed_decimal, signed_numeral, split_all, split_pair,
    trim_end, trim_start, trimmed, unsigned_numeral,
};
use vstd::prelude::*;

verus! {

/// What is found is the first occurrence, and where nothing is found there is
/// none.
pub proof fn finds_the_first(s: Seq<char>, t: Seq<char>, from: int)
    requires
        0 <= from,
    ensures
        match find_at(s, t, from) {
            Some(i) => from <= i && i + t.len() <= s.len() && s.subrange(i, i + t.len()) == t
                && forall|j: int|
                from <= j < i && j + t.len() <= s.len() ==> #[trigger] s.subrange(
                    j,
                    j + t.len(),
                ) != t,
            None => forall|j: int|
                from <= j && j + t.len() <= s.len() ==> #[trigger] s.subrange(j, j + t.len())
                    != t,
        },
    decreases s.len() + 1 - from,
{
    if from + t.len() <= s.len() && s.subrange(from, from + t.len()) != t {
        finds_the_first(s, t, from + 1);
    }
}

/// Trimming takes white space off both ends, and all of it.
pub proof fn trimming_takes_the_ends(s: Seq<char>)
    ensures
        exists|i: int, j: int|
            0 <= i <= j <= s.len() && trimmed(s) == #[trigger] s.subrange(i, j) && (forall|k: int|
                (0 <= k < i || j <= k < s.len()) ==> is_space(#[trigger] s[k])) && (i < j
                ==> !is_space(s[i]) && !is_space(s[j - 1])),
{
    let i = start_taken(s);
    let t = trim_start(s);
    let n = end_taken(t);
    let j = i + n;
    assert(t == s.skip(i));
    assert(trimmed(s) =~= s.subrange(i, j));
    assert forall|k: int| (0 <= k < i || j <= k < s.len()) implies is_space(#[trigger] s[k]) by {
        if k >= j {
            assert(t[k - i] == s[k]);
        }
    }
    if i < j {
        assert(t[0] == s[i]);
        assert(t[n - 1] == s[j - 1]);
    }
}

proof fn start_taken(s: Seq<char>) -> (i: int)
    ensures
        0 <= i <= s.len(),
        trim_start(s) == s.skip(i),
        forall|k: int| 0 <= k < i ==> is_space(#[trigger] s[k]),
        i < s.len() ==> !is_space(s[i]),
    decreases s.len(),
{
    if s.len() > 0 && is_space(s[0]) {
        let i = start_taken(s.drop_first());
        assert(s.drop_first().skip(i) =~= s.skip(i + 1));
        assert forall|k: int| 0 <= k < i + 1 implies is_space(#[trigger] s[k]) by {
            if k > 0 {
                assert(s.drop_first()[k - 1] == s[k]);
            }
        }
        i + 1
    } else {
        assert(s.skip(0) =~= s);
        0
    }
}

proof fn end_taken(s: Seq<char>) -> (n: int)
    ensures
        0 <= n <= s.len(),
        trim_end(s) == s.take(n),
        forall|k: int| n <= k < s.len() ==> is_space(#[trigger] s[k]),
        n > 0 ==> !is_space(s[n - 1]),
    decreases s.len(),
{
    if s.len() > 0 && is_space(s.last()) {
        let n = end_taken(s.drop_last());
        assert(s.drop_last().take(n) =~= s.take(n));
        assert forall|k: int| n <= k < s.len() implies is_space(#[trigger] s[k]) by {
            if k < s.len() - 1 {
                assert(s.drop_last()[k] == s[k]);
            }
        }
        n
    } else {
        assert(s.take(s.len() as int) =~= s);
        s.len() as int
    }
}

/// Lower case changes the letters from `A` to `Z`, each to the one 32 places on,
/// and nothing else.
pub proof fn lower_case_changes_capitals(s: Seq<char>, i: int)
    requires
        0 <= i < s.len(),
    ensures
        lower(s).len() == s.len(),
        65 <= s[i] as u32 <= 90 ==> lower(s)[i] as u32 == s[i] as u32 + 32,
        !(65 <= s[i] as u32 <= 90) ==> lower(s)[i] == s[i],
{
}

/// A text that is split at a character is what was before it, the character,
/// and what was after it; the part before it does not have the character.
pub proof fn split_pairs_join(s: Seq<char>, c: char)
    ensures
        match split_pair(s, c) {
            Some((a, b)) => s == a.push(c) + b && !a.contains(c),
            None => !s.contains(c),
        },
{
    lemma_first_index_bound(s, c);
    let i = first_index(s, c) as int;
    if i < s.len() {
        assert(s =~= s.take(i).push(c) + s.skip(i + 1));
        assert forall|k: int| 0 <= k < i implies s.take(i)[k] != c by {
            assert(s.take(i)[k] == s[k]);
        }
    }
}

/// The parts of a text, with a character between them.
pub open spec fn parts_joined(parts: Seq<Seq<char>>, c: char) -> Seq<char>
    decreases parts.len(),
{
    if parts.len() == 0 {
        Seq::empty()
    } else if parts.len() == 1 {
        parts[0]
    } else {
        parts[0].push(c) + parts_joined(parts.drop_first(), c)
    }
}

/// The parts of a text join to it, and no part has the character between them.
pub proof fn split_parts_join(s: Seq<char>, c: char)
    ensures
        split_all(s, c).len() > 0,
        parts_joined(split_all(s, c), c) == s,
        forall|k: int| 0 <= k < split_all(s, c).len() ==> !(#[trigger] split_all(s, c)[k]).contains(c),
    decreases s.len(),
{
    lemma_first_index_bound(s, c);
    let i = first_index(s, c) as int;
    let parts = split_all(s, c);
    if i < s.len() {
        let rest = split_all(s.skip(i + 1), c);
        split_parts_join(s.skip(i + 1), c);
        assert(parts.drop_first() =~= rest);
        assert(parts[0] == s.take(i));
        assert(s =~= s.take(i).push(c) + s.skip(i + 1));
        assert forall|k: int| 0 <= k < parts.len() implies !(#[trigger] parts[k]).contains(c) by {
            if k > 0 {
                assert(parts[k] == rest[k - 1]);
            } else {
                assert forall|m: int| 0 <= m < i implies s.take(i)[m] != c by {
                    assert(s.take(i)[m] == s[m]);
                }
            }
        }
    }
}

/// A numeral has no zero in front, but for zero itself.
pub proof fn numerals_have_no_zeros_in_front(n: nat)
    ensures
        decimal(n)[0] == '0' ==> n == 0 && decimal(n).len() == 1,
    decreases n,
{
    if n >= 10 {
        numerals_have_no_zeros_in_front(n / 10);
        decimal_reads_back(n / 10);
        assert(decimal(n)[0] == decimal(n / 10)[0]);
    } else {
        assert(decimal(n) == seq![digit(n)]);
    }
}

/// Every number of 64 bits is read back from its numeral.
pub proof fn signed_numerals_read_back(n: int)
    requires
        i64::MIN <= n <= i64::MAX,
    ensures
        signed_numeral(signed_decimal(n)) == Some(n),
        forall|k: int|
            0 <= k < signed_decimal(n).len() ==> #[trigger] signed_decimal(n)[k] != '_',
{
    let s = signed_decimal(n);
    if n < 0 {
        decimal_reads_back((-n) as nat);
        assert(s.drop_first() =~= decimal((-n) as nat));
        assert forall|k: int| 0 <= k < s.len() implies #[trigger] s[k] != '_' by {
            if k > 0 {
                assert(is_digit(decimal((-n) as nat)[k - 1]));
            }
        }
    } else {
        decimal_reads_back(n as nat);
        assert(is_digit(s[0]));
        assert forall|k: int| 0 <= k < s.len() implies #[trigger] s[k] != '_' by {
            assert(is_digit(decimal(n as nat)[k]));
        }
    }
}

/// A numeral is read by the value of its digits: a digit more is ten times the
/// number and the digit.
pub proof fn digits_count_by_ten(s: Seq<char>, c: char)
    requires
        s.len() > 0,
        all_digits(s),
        '0' <= c && c <= '9',
    ensures
        digits_value(s.push(c)) == digits_value(s) * 10 + (c as u32 - 48),
        digits_value(seq![c]) == c as u32 - 48,
{
    assert(s.push(c).drop_last() =~= s);
    assert(seq![c].drop_last() =~= Seq::<char>::empty());
    assert(digits_value(Seq::<char>::empty()) == 0);
}

/// Digits are read as a number up to the limit, with a plus sign or without,
/// and anything else is not.
pub proof fn unsigned_numerals_are_digits(s: Seq<char>, max: nat)
    ensures
        s.len() > 0 && all_digits(s) ==> unsigned_numeral(s, max) == (if digits_value(s) <= max {
            Some(digits_value(s))
        } else {
            None
        }),
        s.len() > 0 && all_digits(s) ==> unsigned_numeral(seq!['+'] + s, max) == unsigned_numeral(
            s,
            max,
        ),
        unsigned_numeral(s, max) is Some ==> s.len() > 0 && forall|k: int|
            1 <= k < s.len() ==> '0' <= #[trigger] s[k] && s[k] <= '9',
        unsigned_numeral(s, max) is Some ==> s[0] == '+' && s.len() > 1 || '0' <= s[0] && s[0]
            <= '9',
{
    if s.len() > 0 && all_digits(s) {
        assert(is_digit(s[0]));
        assert((seq!['+'] + s).drop_first() =~= s);
    }
    if unsigned_numeral(s, max) is Some {
        if s[0] == '+' {
            assert forall|k: int| 1 <= k < s.len() implies '0' <= #[trigger] s[k] && s[k] <= '9' by {
                assert(is_digit(s.drop_first()[k - 1]));
            }
        } else {
            assert forall|k: int| 0 <= k < s.len() implies '0' <= #[trigger] s[k] && s[k] <= '9' by {
                assert(is_digit(s[k]));
            }
        }
    }
}

} // verus!
