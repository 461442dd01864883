//! The command line of the Vibe player: its options, the audio systems it
//! offers, and how a `SERVER[:PORT]` argument splits into host and port.

use vstd::prelude::*;
use vstd::string::StringSliceAdditionalSpecFns;
use vstd::utf8::{encode_utf8, encode_utf8_valid_utf8, is_char_boundary, is_char_boundary_iff_not_is_continuation_byte, is_continuation_byte};
use crate::SLIM_PORT;
use crate::text::{all_ascii_digits, are_ascii_digits, decimal_u16, digits_value, parse_decimal_u16};
use crate::discovery::{
    decimal_bytes, dotted, ipv4_of, lemma_dotted_address, lemma_dotted_chars, lemma_port_text,
    parse_ipv4,
};

verus! {

/// The highest level of log messages that are shown.
#[derive(Debug, Clone, Copy, PartialEq, Eq, Structural)]
pub enum LogLevel {
    Off,
    Error,
    Warn,
    Info,
    Debug,
    Trace,
}

/// The options of the player's command line.
pub struct Cli {
    /// Connect to the specified server, otherwise use autodiscovery.
    pub server: Option<String>,
    /// Output device; the system default device if none.
    pub device: Option<String>,
    /// List output devices.
    pub list: bool,
    /// The player name.
    pub name: String,
    /// Which audio system to use.
    pub system: String,
    /// Do not use desktop notifications.
    pub quiet: bool,
    /// Create a systemd user service file.
    pub create_service: bool,
    /// Highest log level.
    pub loglevel: LogLevel,
}

/// The audio system used when none is asked for: the first of pulse,
/// pipewire and rodio that the player was built with.
pub fn default_system(has_pulse: bool, has_pipewire: bool) -> (r: String)
    ensures
        r@ == if has_pulse {
            "pulse"@
        } else if has_pipewire {
            "pipewire"@
        } else {
            "rodio"@
        },
{
    if has_pulse {
        String::from_str("pulse")
    } else if has_pipewire {
        String::from_str("pipewire")
    } else {
        String::from_str("rodio")
    }
}

/// The audio systems that may be asked for, when the player was built with
/// more than one; a single empty name otherwise.
pub fn system_list(has_pulse: bool, has_pipewire: bool, has_rodio: bool) -> (r: Vec<String>)
    ensures
        has_pulse && has_pipewire && has_rodio ==> r@.len() == 3 && r@[0]@ == "pulse"@ && r@[1]@
            == "pipewire"@ && r@[2]@ == "rodio"@,
        has_pulse && has_pipewire && !has_rodio ==> r@.len() == 2 && r@[0]@ == "pulse"@ && r@[1]@
            == "pipewire"@,
        has_pulse && !has_pipewire && has_rodio ==> r@.len() == 2 && r@[0]@ == "pulse"@ && r@[1]@
            == "rodio"@,
        !has_pulse && has_pipewire && has_rodio ==> r@.len() == 2 && r@[0]@ == "pipewire"@
            && r@[1]@ == "rodio"@,
        (has_pulse as int) + (has_pipewire as int) + (has_rodio as int) <= 1 ==> r@.len() == 1
            && r@[0]@ == ""@,
{
    let mut v: Vec<String> = Vec::new();
    if has_pulse && has_pipewire && has_rodio {
        v.push(String::from_str("pulse"));
        v.push(String::from_str("pipewire"));
        v.push(String::from_str("rodio"));
    } else if has_pulse && has_pipewire {
        v.push(String::from_str("pulse"));
        v.push(String::from_str("pipewire"));
    } else if has_pulse && has_rodio {
        v.push(String::from_str("pulse"));
        v.push(String::from_str("rodio"));
    } else if has_rodio && has_pipewire {
        v.push(String::from_str("pipewire"));
        v.push(String::from_str("rodio"));
    } else {
        v.push(String::from_str(""));
    }
    v
}

/// The index of the last `':'` in `b`, or -1.
pub open spec fn last_colon(b: Seq<u8>) -> int
    decreases b.len(),
{
    if b.len() == 0 {
        -1
    } else if b.last() == 58 {
        b.len() - 1
    } else {
        last_colon(b.drop_last())
    }
}

/// The port that the digits `d` name, or the Slim Protocol port where they
/// name none in range.
pub open spec fn port_of_digits(d: Seq<u8>) -> u16 {
    match decimal_u16(d) {
        Some(p) => p,
        None => SLIM_PORT,
    }
}

/// Host and port of the argument `b`: an all-digit part after the last
/// `':'` is the port, else the whole argument is the host and the port is
/// the Slim Protocol port.
pub open spec fn server_arg_split(b: Seq<u8>) -> (Seq<u8>, u16) {
    let i = last_colon(b);
    if i >= 0 && all_ascii_digits(b.skip(i + 1)) {
        (b.take(i), port_of_digits(b.skip(i + 1)))
    } else {
        (b, SLIM_PORT)
    }
}

proof fn lemma_last_colon(b: Seq<u8>)
    ensures
        -1 <= last_colon(b) < b.len(),
        last_colon(b) >= 0 ==> b[last_colon(b)] == 58,
        forall|j: int| last_colon(b) < j < b.len() ==> b[j] != 58,
    decreases b.len(),
{
    if b.len() > 0 && b.last() != 58 {
        let p = b.drop_last();
        lemma_last_colon(p);
        assert forall|j: int| last_colon(b) < j < b.len() implies b[j] != 58 by {
            if j < b.len() - 1 {
                assert(b[j] == p[j]);
            }
        }
    }
}

/// Splits a `SERVER[:PORT]` argument that is not an IPv4 address (with or
/// without port) into the host name to resolve and the port.
pub fn split_server_arg(value: &str) -> (r: (String, u16))
    ensures
        encode_utf8(r.0@) == server_arg_split(value.spec_bytes()).0,
        r.1 == server_arg_split(value.spec_bytes()).1,
{
    let b = value.as_bytes();
    let ghost s = b@;
    proof {
        lemma_last_colon(s);
    }
    // Find the last ':'.
    let mut k: usize = b.len();
    while k > 0 && b[k - 1] != 58
        invariant
            k <= s.len(),
            b@ == s,
            forall|j: int| k <= j < s.len() ==> s[j] != 58,
        decreases k,
    {
        k = k - 1;
    }
    if k == 0 {
        assert(last_colon(s) == -1);
        return (value.to_owned(), SLIM_PORT);
    }
    let colon = k - 1;
    assert(last_colon(s) == colon);
    let digits = &b[colon + 1..b.len()];
    assert(digits@ =~= s.skip(colon + 1));
    if !are_ascii_digits(digits) {
        return (value.to_owned(), SLIM_PORT);
    }
    let port = match parse_decimal_u16(digits) {
        Some(p) => p,
        None => SLIM_PORT,
    };
    proof {
        encode_utf8_valid_utf8(value@);
        is_char_boundary_iff_not_is_continuation_byte(s, colon as int);
        assert(!is_continuation_byte(s[colon as int]));
    }
    let (host, _) = value.split_at(colon);
    assert(host.spec_bytes() =~= s.take(colon as int));
    (host.to_owned(), port)
}

/// The server that a `--server` value names literally: `ADDRESS:PORT`,
/// with the address in dotted-decimal notation and the port in decimal
/// digits, or a bare `ADDRESS` on the Slim Protocol port. An address holds
/// no `:`, so the port follows the first one.
pub open spec fn server_literal(b: Seq<u8>) -> Option<(u32, u16)> {
    match b.index_of_first(58u8) {
        Some(i) => match (ipv4_of(b.take(i)), decimal_u16(b.skip(i + 1))) {
            (Some(ip), Some(port)) => Some((ip, port)),
            _ => None,
        },
        None => match ipv4_of(b) {
            Some(ip) => Some((ip, SLIM_PORT)),
            None => None,
        },
    }
}

/// Reads a `--server` value that names a server literally; `None` when it
/// names a host to be resolved.
pub fn parse_server_literal(value: &str) -> (r: Option<(u32, u16)>)
    ensures
        r == server_literal(value.spec_bytes()),
{
    let b = value.as_bytes();
    let mut i: usize = 0;
    while i < b.len()
        invariant
            b@ == value.spec_bytes(),
            i <= b@.len(),
            forall|j: int| 0 <= j < i ==> b@[j] != 58u8,
        decreases b@.len() - i,
    {
        if b[i] == 58 {
            proof {
                b@.index_of_first_ensures(58u8);
                assert(b@.contains(58u8));
                let f = b@.index_of_first(58u8).unwrap();
                assert(!(f < i));
                assert(!(i < f));
                assert(b@.index_of_first(58u8) == Some(i as int));
            }
            let ip = parse_ipv4(&b[0..i]);
            let port = parse_decimal_u16(&b[i + 1..b.len()]);
            assert(b@.subrange(0, i as int) =~= b@.take(i as int));
            assert(b@.subrange(i + 1, b@.len() as int) =~= b@.skip(i + 1));
            return match (ip, port) {
                (Some(ip), Some(port)) => Some((ip, port)),
                _ => None,
            };
        }
        i = i + 1;
    }
    proof {
        b@.index_of_first_ensures(58u8);
        if b@.contains(58u8) {
            let k = choose|k: int| 0 <= k < b@.len() && b@[k] == 58u8;
            assert(b@[k] != 58u8);
        }
    }
    match parse_ipv4(b) {
        Some(ip) => Some((ip, SLIM_PORT)),
        None => None,
    }
}

/// A server argument without `:` is all host, on the Slim Protocol port.
/// With a last `:` at `i`, what follows it is the port when it is all
/// decimal digits: their value where it is at most 65535 and they are at
/// least one, else the Slim Protocol port; the host is then what comes
/// before `i`. When something else follows the last `:`, the whole
/// argument is the host.
pub proof fn lemma_server_arg_split(b: Seq<u8>, i: int)
    ensures
        (forall|j: int| 0 <= j < b.len() ==> b[j] != 58) ==> server_arg_split(b) == (b, 3483u16),
        (0 <= i < b.len() && b[i] == 58 && forall|j: int| i < j < b.len() ==> b[j] != 58) ==> {
            let d = b.skip(i + 1);
            server_arg_split(b) == if forall|j: int| 0 <= j < d.len() ==> 48 <= #[trigger] d[j] <= 57 {
                (b.take(i), if d.len() > 0 && digits_value(d) <= 65535 {
                    digits_value(d) as u16
                } else {
                    3483u16
                })
            } else {
                (b, 3483u16)
            }
        },
{
    lemma_last_colon(b);
    if 0 <= i < b.len() && b[i] == 58 && forall|j: int| i < j < b.len() ==> b[j] != 58 {
        assert(last_colon(b) == i);
    }
    if forall|j: int| 0 <= j < b.len() ==> b[j] != 58 {
        if last_colon(b) >= 0 {
            assert(b[last_colon(b)] == 58);
        }
    }
}

/// A literal server names its address in dotted decimal, followed by `:`
/// and the port in decimal, or alone for the Slim Protocol port.
pub proof fn lemma_server_literals(a: u8, b: u8, c: u8, d: u8, port: u16)
    ensures
        ({
            let ip = (a as int * 0x100_0000 + b as int * 0x1_0000 + c as int * 0x100 + d as int) as u32;
            &&& server_literal(dotted(a, b, c, d)) == Some((ip, 3483u16))
            &&& server_literal(dotted(a, b, c, d) + seq![58u8] + decimal_bytes(port as nat)) == Some(
                (ip, port),
            )
        }),
{
    lemma_dotted_address(a, b, c, d);
    lemma_dotted_chars(a, b, c, d);
    lemma_port_text(port);
    let t = dotted(a, b, c, d);
    let u = t + seq![58u8] + decimal_bytes(port as nat);
    t.index_of_first_ensures(58u8);
    u.index_of_first_ensures(58u8);
    if t.contains(58u8) {
        let k = choose|k: int| 0 <= k < t.len() && t[k] == 58u8;
        assert(t[k] == 46 || 48 <= t[k] <= 57);
    }
    assert(u[t.len() as int] == 58u8);
    assert(u.contains(58u8));
    let f = u.index_of_first(58u8).unwrap();
    if f < t.len() {
        assert(u[f] == t[f]);
        assert(t[f] == 46 || 48 <= t[f] <= 57);
    }
    assert(f == t.len());
    assert(u.take(f) =~= t);
    assert(u.skip(f + 1) =~= decimal_bytes(port as nat));
}

} // verus!
