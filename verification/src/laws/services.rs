//! Laws of the services, of the calendar, and of results for Python.
use super::fields::{fields3, says, size};
use super::requests::is_word;
use super::transfers::written_field;
use crate::bytes::{hex_char, hex_digit, hex_text, lossy};
use crate::calendar::{clock_text, date_text, day_number, days_in_month, padded, valid_date};
use crate::filesystem::{fault_of, IoFault, IoKind};
use crate::fs::pair_value;
use crate::http::body::{hex_size, hex_value};
use crate::http::request::next_word;
use crate::json_text::{json_fields, json_string};
use crate::port::{address_of, four_words, line_port, ports_in, quad, PortModel};
use crate::process::{exec_text, FaultModel};
use crate::pyval::result_model;
use crate::text::{decimal, is_space, signed_decimal, trim_start};
use crate::value::Model;
use vstd::prelude::*;
use vstd::utf8::{encode_utf8, is_ascii_chars, is_ascii_chars_encode_utf8};

verus! {

// ───────────────────────── processes ─────────────────────────

/// The result of a command has its code, its output and its error output, each
/// under its own key.
pub proof fn results_tell(returncode: i32, stdout: Seq<char>, stderr: Seq<char>)
    ensures
        size(result_model(returncode, stdout, stderr)) == 3,
        says(
            result_model(returncode, stdout, stderr),
            "returncode"@,
            Model::Integer(returncode as int),
        ),
        says(result_model(returncode, stdout, stderr), "stdout"@, Model::Text(stdout)),
        says(result_model(returncode, stdout, stderr), "stderr"@, Model::Text(stderr)),
{
    reveal_strlit("returncode");
    reveal_strlit("stdout");
    reveal_strlit("stderr");
    assert("returncode"@.len() == 10);
    assert("stdout"@[3] == 'o');
    assert("stdout"@.len() == 6);
    assert("stderr"@[3] == 'e');
    assert("stderr"@.len() == 6);
    fields3(
        "returncode"@,
        Model::Integer(returncode as int),
        "stdout"@,
        Model::Text(stdout),
        "stderr"@,
        Model::Text(stderr),
    );
}

/// The same as JSON.
pub proof fn results_are_written(exit_code: i32, stdout: Seq<u8>, stderr: Seq<u8>)
    ensures
        exec_text(exit_code, stdout, stderr) == "{"@ + (written_field(
            "returncode"@,
            signed_decimal(exit_code as int),
        ) + ","@ + written_field("stderr"@, json_string(lossy(stderr))) + ","@ + written_field(
            "stdout"@,
            json_string(lossy(stdout)),
        )) + "}"@,
{
    reveal_with_fuel(json_fields, 5);
}

/// What cannot be found, or must not be touched, is told as such, and any other
/// failure as one of the service; each with its text.
pub proof fn faults_are_told(e: IoFault)
    ensures
        e.kind == IoKind::NotFound ==> fault_of(e) == FaultModel::NotFound(e.message@),
        e.kind == IoKind::PermissionDenied ==> fault_of(e) == FaultModel::PermissionDenied(
            e.message@,
        ),
        e.kind == IoKind::Other ==> fault_of(e) == FaultModel::Internal(e.message@),
{
}

// ───────────────────────── ports ─────────────────────────

/// An address of four bytes is written in hexadecimal digits with the last byte
/// first, and told in numerals with the first byte first.
pub proof fn addresses_are_told(a: u8, b: u8, c: u8, d: u8)
    ensures
        address_of(hex_text(seq![d, c, b, a]), false) == decimal(a as nat) + "."@ + decimal(
            b as nat,
        ) + "."@ + decimal(c as nat) + "."@ + decimal(d as nat),
{
    let bytes = seq![d, c, b, a];
    let text = hex_text(bytes);
    assert forall|i: int| 0 <= i < text.len() implies (#[trigger] text[i] as u32) < 128 by {
        assert(hex_char((bytes[i / 2] / 16) as nat) as u32 <= 102);
        assert(hex_char((bytes[i / 2] % 16) as nat) as u32 <= 102);
    }
    assert(is_ascii_chars(text));
    is_ascii_chars_encode_utf8(text);
    let s = encode_utf8(text);
    assert(s.len() == 8);
    pair_reads(s, bytes, 0);
    pair_reads(s, bytes, 1);
    pair_reads(s, bytes, 2);
    pair_reads(s, bytes, 3);
    assert(quad(s, 0)->0 =~= bytes);
}

proof fn pair_reads(s: Seq<u8>, bytes: Seq<u8>, i: int)
    requires
        0 <= i < bytes.len(),
        s.len() == 2 * bytes.len(),
        forall|j: int| 0 <= j < s.len() ==> #[trigger] s[j] == hex_text(bytes)[j] as u8,
    ensures
        pair_value(s[2 * i], s[2 * i + 1]) == Some(bytes[i]),
{
    let high = (bytes[i] / 16) as nat;
    let low = (bytes[i] % 16) as nat;
    assert(hex_text(bytes)[2 * i] == hex_char(high));
    assert(hex_text(bytes)[2 * i + 1] == hex_char(low));
    assert(hex_digit(s[2 * i] as char) == Some(high));
    assert(hex_digit(s[2 * i + 1] as char) == Some(low));
    assert(high * 16 + low == bytes[i]);
}

/// A socket listens where the fourth word of its line is `0A`; its port is the
/// hexadecimal number after the colon in the second word, and its address what
/// stands before it.
pub proof fn listening_sockets_are_found(
    number: Seq<char>,
    ip: Seq<char>,
    port: Seq<char>,
    remote: Seq<char>,
    more: Seq<char>,
    ipv6: bool,
)
    requires
        is_word(number),
        is_word(ip.push(':') + port),
        is_word(remote),
        !ip.contains(':'),
        hex_size(port) is Some,
        hex_size(port)->0 <= u32::MAX,
    ensures
        ({
            let line = number + (seq![' '] + ((ip.push(':') + port) + (seq![' '] + (remote + (
            seq![' '] + ("0A"@ + (seq![' '] + more)))))));
            line_port(line, ipv6) == Some(
                PortModel {
                    port: hex_size(port)->0 as u32,
                    address: address_of(ip, ipv6),
                    ipv6,
                },
            )
        }),
{
    reveal_strlit("0A");
    assert(is_word("0A"@)) by {
        assert("0A"@[0] == '0' && "0A"@[1] == 'A' && "0A"@.len() == 2);
    }
    let local = ip.push(':') + port;
    let e = seq![' '] + more;
    let d = seq![' '] + ("0A"@ + e);
    let c = seq![' '] + (remote + d);
    let b = seq![' '] + (local + c);
    word_next(number, b);
    spaced_word(local, c);
    spaced_word(remote, d);
    spaced_word("0A"@, e);
    assert(four_words(number + b) == Some((local, "0A"@)));
    assert forall|j: int| 0 <= j < ip.len() implies local[j] != ':' by {
        assert(local[j] == ip[j]);
        assert(ip.contains(ip[j]));
    }
    crate::text::lemma_first_index(local, ':', ip.len() as int);
    assert(local.take(ip.len() as int) =~= ip);
    assert(local.skip(ip.len() as int + 1) =~= port);
}

proof fn word_next(word: Seq<char>, rest: Seq<char>)
    requires
        is_word(word),
        rest.len() > 0,
        is_space(rest[0]),
    ensures
        next_word(word + rest) == (word, rest),
{
    let s = word + rest;
    assert(s[0] == word[0]);
    assert(trim_start(s) == s);
    length_of_word(word, rest);
    assert(s.take(word.len() as int) =~= word);
    assert(s.skip(word.len() as int) =~= rest);
}

proof fn spaced_word(word: Seq<char>, rest: Seq<char>)
    requires
        is_word(word),
        rest.len() > 0,
        is_space(rest[0]),
    ensures
        next_word(seq![' '] + (word + rest)) == (word, rest),
{
    let s = seq![' '] + (word + rest);
    assert(s.drop_first() =~= word + rest);
    assert(trim_start(s) == trim_start(word + rest));
    word_next(word, rest);
    assert(trim_start(word + rest) == word + rest) by {
        assert((word + rest)[0] == word[0]);
    }
}

proof fn length_of_word(word: Seq<char>, rest: Seq<char>)
    requires
        forall|i: int| 0 <= i < word.len() ==> !is_space(#[trigger] word[i]),
        rest.len() > 0,
        is_space(rest[0]),
    ensures
        crate::http::request::word_len(word + rest) == word.len(),
    decreases word.len(),
{
    let s = word + rest;
    if word.len() > 0 {
        assert(s[0] == word[0]);
        assert(s.drop_first() =~= word.drop_first() + rest);
        assert forall|i: int| 0 <= i < word.drop_first().len() implies !is_space(
            #[trigger] word.drop_first()[i],
        ) by {
            assert(word.drop_first()[i] == word[i + 1]);
        }
        length_of_word(word.drop_first(), rest);
    } else {
        assert(s =~= rest);
    }
}

/// The first line of a table is its head. Each other line that tells of a
/// listening socket gives one port, in order.
pub proof fn tables_are_read(all: Seq<Seq<char>>, ipv6: bool, n: int)
    requires
        1 <= n < all.len(),
    ensures
        ports_in(all, ipv6, 1).len() == 0,
        line_port(all[n], ipv6) is Some ==> ports_in(all, ipv6, n + 1) == ports_in(
            all,
            ipv6,
            n,
        ).push(line_port(all[n], ipv6)->0),
        line_port(all[n], ipv6) is None ==> ports_in(all, ipv6, n + 1) == ports_in(all, ipv6, n),
{
}

/// A hexadecimal numeral is read by the value of its digits: a digit more is
/// sixteen times the number and the digit.
pub proof fn hexadecimal_numerals_are_read(s: Seq<char>, c: char)
    requires
        hex_digit(c) is Some,
    ensures
        hex_value(s.push(c)) == hex_value(s) * 16 + hex_digit(c)->0,
        hex_value(Seq::<char>::empty()) == 0,
        hex_size(Seq::<char>::empty()) is None,
        hex_size(seq![c]) == Some(hex_digit(c)->0),
{
    assert(s.push(c).drop_last() =~= s);
    assert(seq![c].drop_last() =~= Seq::<char>::empty());
    assert(hex_value(seq![c]) == hex_value(Seq::<char>::empty()) * 16 + hex_digit(c)->0);
    assert(hex_value(Seq::<char>::empty()) == 0);
}

// ───────────────────────── the calendar ─────────────────────────

/// The first of January 1970 is the day 0, and the days are counted on from
/// there: each day of a month, the first of the next month after the last of a
/// month, and the first of January after the last of December.
pub proof fn days_follow_each_other(y: int, m: int, d: int)
    requires
        valid_date(y, m, d),
    ensures
        day_number(1970, 1, 1) == 0,
        valid_date(y, m, d + 1) ==> day_number(y, m, d + 1) == day_number(y, m, d) + 1,
        !valid_date(y, m, d + 1) && m < 12 ==> day_number(y, m + 1, 1) == day_number(y, m, d) + 1,
        m == 12 && d == 31 ==> day_number(y + 1, 1, 1) == day_number(y, m, d) + 1,
{
    crate::calendar::year_length(y);
}

/// Months have 31 days, but for four of 30 and for February, which has 28, and 29
/// in years that four divides, without those that 100 divides and 400 does not.
pub proof fn months_have_their_days(y: int)
    ensures
        days_in_month(y, 1) == 31 && days_in_month(y, 3) == 31 && days_in_month(y, 5) == 31
            && days_in_month(y, 7) == 31 && days_in_month(y, 8) == 31 && days_in_month(y, 10) == 31
            && days_in_month(y, 12) == 31,
        days_in_month(y, 4) == 30 && days_in_month(y, 6) == 30 && days_in_month(y, 9) == 30
            && days_in_month(y, 11) == 30,
        y % 4 != 0 ==> days_in_month(y, 2) == 28,
        y % 4 == 0 && y % 100 != 0 ==> days_in_month(y, 2) == 29,
        y % 100 == 0 && y % 400 != 0 ==> days_in_month(y, 2) == 28,
        y % 400 == 0 ==> days_in_month(y, 2) == 29,
{
    assert(y % 400 == 0 ==> y % 4 == 0);
    assert(y % 100 == 0 ==> y % 4 == 0);
}

/// A numeral is filled up with zeros in front, which leave its value alone.
pub proof fn numerals_are_filled_up(s: Seq<char>, width: nat)
    ensures
        s.len() >= width ==> padded(s, width) == s,
        s.len() < width ==> padded(s, width).len() == width,
        padded(s, width).len() >= s.len(),
        padded(s, width).skip(padded(s, width).len() - s.len()) == s,
        forall|i: int| 0 <= i < padded(s, width).len() - s.len() ==> #[trigger] padded(s, width)[i]
            == '0',
    decreases width - s.len(),
{
    if s.len() >= width {
        assert(s.skip(0) =~= s);
    } else {
        let t = seq!['0'] + s;
        numerals_are_filled_up(t, width);
        let r = padded(t, width);
        assert(padded(s, width) == r);
        assert(r.skip(r.len() - s.len()) =~= r.skip(r.len() - t.len()).skip(1));
        assert(t.skip(1) =~= s);
        assert forall|i: int| 0 <= i < r.len() - s.len() implies #[trigger] r[i] == '0' by {
            if i == r.len() - t.len() {
                assert(r.skip(r.len() - t.len())[0] == t[0]);
            }
        }
    }
}

/// A time of day is told in hours, minutes, seconds and milliseconds.
pub proof fn times_are_told(hours: nat, minutes: nat, seconds: nat, millis: nat)
    requires
        minutes < 60,
        seconds < 60,
    ensures
        clock_text(hours * 3600 + minutes * 60 + seconds, millis) == padded(decimal(hours), 2)
            + ":"@ + padded(decimal(minutes), 2) + ":"@ + padded(decimal(seconds), 2) + "."@
            + padded(decimal(millis), 3),
{
    let n = hours * 3600 + minutes * 60 + seconds;
    assert(n / 3600 == hours);
    assert(n % 3600 == minutes * 60 + seconds);
    assert(n % 3600 / 60 == minutes);
    assert(n % 60 == seconds);
}

/// A date is told as year, month and day.
pub proof fn dates_are_told(y: nat, m: nat, d: nat)
    ensures
        date_text(y, m, d) == padded(decimal(y), 4) + "-"@ + padded(decimal(m), 2) + "-"@ + padded(
            decimal(d),
            2,
        ),
{
}

/// A socket that does not listen, and a line with fewer than four words, give no
/// port.
pub proof fn other_sockets_are_passed_over(line: Seq<char>, ipv6: bool)
    ensures
        four_words(line) is None ==> line_port(line, ipv6) is None,
        four_words(line) is Some && (four_words(line)->0).1 != "0A"@ ==> line_port(line, ipv6)
            is None,
        next_word(next_word(next_word(next_word(line).1).1).1).0.len() == 0 ==> four_words(line)
            is None,
{
}

/// An address of sixteen bytes is written in four words with the last byte
/// first, and told in eight groups with the first byte of each word first.
pub proof fn long_addresses_are_told(b: Seq<u8>)
    requires
        b.len() == 16,
    ensures
        address_of(hex_text(b), true) == hex_text(seq![b[3], b[2]]) + ":"@ + hex_text(
            seq![b[1], b[0]],
        ) + ":"@ + (hex_text(seq![b[7], b[6]]) + ":"@ + hex_text(seq![b[5], b[4]]) + ":"@ + (
        hex_text(seq![b[11], b[10]]) + ":"@ + hex_text(seq![b[9], b[8]]) + ":"@ + (hex_text(
            seq![b[15], b[14]],
        ) + ":"@ + hex_text(seq![b[13], b[12]])))),
{
    let text = hex_text(b);
    assert forall|i: int| 0 <= i < text.len() implies (#[trigger] text[i] as u32) < 128 by {
        assert(hex_char((b[i / 2] / 16) as nat) as u32 <= 102);
        assert(hex_char((b[i / 2] % 16) as nat) as u32 <= 102);
    }
    assert(is_ascii_chars(text));
    is_ascii_chars_encode_utf8(text);
    let s = encode_utf8(text);
    assert(s.len() == 32);
    quad_reads(s, b, 0);
    quad_reads(s, b, 1);
    quad_reads(s, b, 2);
    quad_reads(s, b, 3);
    reveal_with_fuel(crate::port::groups, 6);
}

proof fn quad_reads(s: Seq<u8>, b: Seq<u8>, g: int)
    requires
        b.len() == 16,
        0 <= g < 4,
        s.len() == 32,
        forall|j: int| 0 <= j < s.len() ==> #[trigger] s[j] == hex_text(b)[j] as u8,
    ensures
        quad(s, g * 8) == Some(seq![b[4 * g], b[4 * g + 1], b[4 * g + 2], b[4 * g + 3]]),
        crate::port::grouped(quad(s, g * 8)->0) == hex_text(seq![b[4 * g + 3], b[4 * g + 2]])
            + ":"@ + hex_text(seq![b[4 * g + 1], b[4 * g]]),
        crate::port::grouped(quad(s, g * 8)->0).len() > 0,
{
    pair_reads(s, b, 4 * g);
    pair_reads(s, b, 4 * g + 1);
    pair_reads(s, b, 4 * g + 2);
    pair_reads(s, b, 4 * g + 3);
}

} // verus!
