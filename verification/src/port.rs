//! The port service: which ports are listened on.
use crate::bytes::{hex_text, to_hex};
use crate::fs::{pair_value, read_pair};
use crate::http::body::{hex_size, parse_hex_size};
use crate::http::request::{lines, next_word, take_word, text_lines};
use crate::text::{
    chars_of, decimal, join3, join4, same, slice, split_once, split_pair, to_decimal, views,
};
use vstd::prelude::*;
use vstd::utf8::encode_utf8;

verus! {

/// The port service.
#[derive(Debug, Clone, Copy, PartialEq, Eq)]
pub struct PortSvc;

impl Default for PortSvc {
    fn default() -> (r: PortSvc)
        ensures
            r == PortSvc,
    {
        PortSvc
    }
}

/// A port that is listened on.
#[derive(Debug, PartialEq, Eq)]
pub struct ListenPort {
    pub port: u32,
    pub address: String,
    pub ipv6: bool,
}

/// The model of a [`ListenPort`].
pub struct PortModel {
    pub port: u32,
    pub address: Seq<char>,
    pub ipv6: bool,
}

impl View for ListenPort {
    type V = PortModel;

    open spec fn view(&self) -> PortModel {
        PortModel { port: self.port, address: self.address@, ipv6: self.ipv6 }
    }
}

/// The models of a list of ports.
pub open spec fn port_models(ports: Seq<ListenPort>) -> Seq<PortModel> {
    Seq::new(ports.len(), |i: int| ports[i]@)
}

/// The state of a socket that is listened on.
pub const TCP_LISTEN: &'static str = "0A";

// ───────────────────────── addresses ─────────────────────────

/// The four bytes that stand at `from`, where all of them are written well.
pub open spec fn quad(s: Seq<u8>, from: int) -> Option<Seq<u8>> {
    match (
        pair_value(s[from], s[from + 1]),
        pair_value(s[from + 2], s[from + 3]),
        pair_value(s[from + 4], s[from + 5]),
        pair_value(s[from + 6], s[from + 7]),
    ) {
        (Some(a), Some(b), Some(c), Some(d)) => Some(seq![a, b, c, d]),
        _ => None,
    }
}

fn read_quad(s: &[u8], from: usize) -> (r: Option<(u8, u8, u8, u8)>)
    requires
        from + 8 <= s@.len(),
    ensures
        match r {
            Some((a, b, c, d)) => quad(s@, from as int) == Some(seq![a, b, c, d]),
            None => quad(s@, from as int) is None,
        },
{
    let total: usize = s.len();
    assert(from + 8 <= total);
    match (
        read_pair(s[from], s[from + 1]),
        read_pair(s[from + 2], s[from + 3]),
        read_pair(s[from + 4], s[from + 5]),
        read_pair(s[from + 6], s[from + 7]),
    ) {
        (Some(a), Some(b), Some(c), Some(d)) => Some((a, b, c, d)),
        _ => None,
    }
}

/// An address of four bytes. The table has the last byte first.
pub open spec fn dotted(b: Seq<u8>) -> Seq<char> {
    decimal(b[3] as nat) + "."@ + decimal(b[2] as nat) + "."@ + decimal(b[1] as nat) + "."@
        + decimal(b[0] as nat)
}

/// Two groups of an address of sixteen bytes. The table has the last byte of
/// four first.
pub open spec fn grouped(b: Seq<u8>) -> Seq<char> {
    hex_text(seq![b[3], b[2]]) + ":"@ + hex_text(seq![b[1], b[0]])
}

/// The groups of an address from the `g`th quad on. Quads that are not written
/// well are left out.
pub open spec fn groups(s: Seq<u8>, g: int) -> Seq<char>
    decreases 4 - g,
{
    if g >= 4 {
        Seq::empty()
    } else {
        let rest = groups(s, g + 1);
        match quad(s, g * 8) {
            None => rest,
            Some(b) => if rest.len() == 0 {
                grouped(b)
            } else {
                grouped(b) + ":"@ + rest
            },
        }
    }
}

/// The address that a table writes.
pub open spec fn address_of(text: Seq<char>, ipv6: bool) -> Seq<char> {
    let s = encode_utf8(text);
    if !ipv6 && s.len() == 8 && quad(s, 0) is Some {
        dotted(quad(s, 0)->0)
    } else if ipv6 && s.len() == 32 {
        groups(s, 0)
    } else {
        text
    }
}

/// Reads the address of a table: pairs of hexadecimal digits, the last byte of
/// each four first.
pub fn decode_hex_ip(hex: &str, ipv6: bool) -> (r: String)
    ensures
        r@ == address_of(hex@, ipv6),
{
    let s = hex.as_bytes();
    let ghost all = encode_utf8(hex@);
    assert(s@ == all);
    if !ipv6 && s.len() == 8 {
        if let Some((a, b, c, d)) = read_quad(s, 0) {
            let x = to_decimal(d as u64);
            let y = to_decimal(c as u64);
            let z = to_decimal(b as u64);
            let w = to_decimal(a as u64);
            let head = join4(x.as_str(), ".", y.as_str(), ".");
            return join4(head.as_str(), z.as_str(), ".", w.as_str());
        }
    }
    if ipv6 && s.len() == 32 {
        let mut out = String::new();
        assert(out@ =~= groups(all, 4));
        let mut g: usize = 4;
        while g > 0
            invariant
                g <= 4,
                s@ == all,
                s@.len() == 32,
                out@ == groups(all, g as int),
            decreases g,
        {
            g = g - 1;
            if let Some((a, b, c, d)) = read_quad(s, g * 8) {
                let high: Vec<u8> = vec![d, c];
                let low: Vec<u8> = vec![b, a];
                proof {
                    assert(high@ =~= seq![d, c]);
                    assert(low@ =~= seq![b, a]);
                }
                let x = to_hex(high.as_slice());
                let y = to_hex(low.as_slice());
                let both = join3(x.as_str(), ":", y.as_str());
                assert(both@ == grouped(seq![a, b, c, d]));
                out = if out.as_str().is_empty() {
                    both
                } else {
                    join3(both.as_str(), ":", out.as_str())
                };
            }
        }
        return out;
    }
    hex.to_owned()
}

// ───────────────────────── tables ─────────────────────────

/// The first four words of a line, where it has them.
pub open spec fn four_words(line: Seq<char>) -> Option<(Seq<char>, Seq<char>)> {
    let a = next_word(line);
    let b = next_word(a.1);
    let c = next_word(b.1);
    let d = next_word(c.1);
    if d.0.len() > 0 {
        Some((b.0, d.0))
    } else {
        None
    }
}

/// The address and the port of a line whose socket is listened on.
pub open spec fn listening(line: Seq<char>) -> Option<(Seq<char>, Seq<char>)> {
    match four_words(line) {
        Some((local, state)) => if state == TCP_LISTEN@ {
            split_pair(local, ':')
        } else {
            None
        },
        None => None,
    }
}

/// The port that a line of a table tells of.
pub open spec fn line_port(line: Seq<char>, ipv6: bool) -> Option<PortModel> {
    match listening(line) {
        Some((ip, port)) => match hex_size(port) {
            Some(n) => if n <= u32::MAX {
                Some(PortModel { port: n as u32, address: address_of(ip, ipv6), ipv6 })
            } else {
                None
            },
            None => None,
        },
        None => None,
    }
}

/// The ports that the first `n` lines tell of. The first line is a caption.
pub open spec fn ports_in(all: Seq<Seq<char>>, ipv6: bool, n: int) -> Seq<PortModel>
    decreases n,
{
    if n <= 1 {
        Seq::empty()
    } else {
        match line_port(all[n - 1], ipv6) {
            Some(p) => ports_in(all, ipv6, n - 1).push(p),
            None => ports_in(all, ipv6, n - 1),
        }
    }
}

fn listening_words(line: &str) -> (r: Option<(String, String)>)
    ensures
        match r {
            Some((ip, port)) => listening(line@) == Some((ip@, port@)),
            None => listening(line@) is None,
        },
{
    let chars = chars_of(line);
    assert(chars@.skip(0) =~= line@);
    let (_, a) = take_word(&chars, 0);
    let (from, b) = take_word(&chars, a);
    let (_, c) = take_word(&chars, b);
    let (last, d) = take_word(&chars, c);
    if last == d {
        return None;
    }
    let state = slice(&chars, last, d);
    if !same(state.as_str(), TCP_LISTEN) {
        return None;
    }
    let local = slice(&chars, from, b);
    split_once(local.as_str(), ':')
}

/// Reads a table of sockets, and adds the ports that are listened on.
pub fn parse_proc_net_tcp(content: &str, ipv6: bool, out: &mut Vec<ListenPort>)
    ensures
        port_models(final(out)@) == port_models(old(out)@) + ports_in(
            text_lines(content@),
            ipv6,
            text_lines(content@).len() as int,
        ),
{
    let all = lines(content);
    let ghost seen = text_lines(content@);
    let ghost start = port_models(out@);
    assert(start + ports_in(seen, ipv6, 1) =~= start);
    assert(views(all@).len() == all@.len());
    if all.len() == 0 {
        return;
    }
    let mut i: usize = 1;
    while i < all.len()
        invariant
            1 <= i <= all@.len(),
            views(all@) == seen,
            seen == text_lines(content@),
            seen.len() == all@.len(),
            port_models(out@) == start + ports_in(seen, ipv6, i as int),
        decreases all@.len() - i,
    {
        assert(seen[i as int] == all@[i as int]@);
        let ghost before = out@;
        if let Some((ip, port)) = listening_words(all[i].as_str()) {
            assert(listening(seen[i as int]) == Some((ip@, port@)));
            if let Some(n) = parse_hex_size(port.as_str()) {
                if n <= 0xffff_ffff {
                    let address = decode_hex_ip(ip.as_str(), ipv6);
                    let p = ListenPort { port: n as u32, address, ipv6 };
                    out.push(p);
                    assert(port_models(out@) =~= port_models(before).push(p@));
                    assert(port_models(out@) =~= start + ports_in(seen, ipv6, i + 1));
                }
            }
        }
        i = i + 1;
    }
}

} // verus!
