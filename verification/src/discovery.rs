//! Discovery replies: a server answers a broadcast probe with `E` followed
//! by Type-Length-Value records that name it and its addresses.

use vstd::prelude::*;
use vstd::utf8::{decode_utf8, valid_utf8};
use crate::messages::{has_chars, utf8_or_empty};
use crate::text::{
    decimal, digit_char, is_ascii_digit, lemma_decimal,
    all_ascii_digits, are_ascii_digits, decimal_u16, digits_value, parse_decimal_u16, utf8_to_string,
};

verus! {

/// The records of a discovery reply, one per token: `NAME`, `VERS`, `IPAD`,
/// `JSON`. A later record of a token replaces an earlier one.
#[derive(Debug)]
pub struct ServerTlvMap {
    pub name: Option<String>,
    pub version: Option<String>,
    pub address: Option<u32>,
    pub port: Option<u16>,
}

/// The records of a discovery reply, strings as character sequences.
pub struct TlvView {
    pub name: Option<Seq<char>>,
    pub version: Option<Seq<char>>,
    pub address: Option<u32>,
    pub port: Option<u16>,
}

impl View for ServerTlvMap {
    type V = TlvView;

    open spec fn view(&self) -> TlvView {
        TlvView {
            name: match self.name {
                Some(s) => Some(s@),
                None => None,
            },
            version: match self.version {
                Some(s) => Some(s@),
                None => None,
            },
            address: self.address,
            port: self.port,
        }
    }
}

/// The parts of `b` between `'.'` bytes, in order.
pub open spec fn split_dots(b: Seq<u8>) -> Seq<Seq<u8>>
    decreases b.len(),
{
    if b.len() == 0 {
        seq![seq![]]
    } else {
        let s = split_dots(b.drop_last());
        if b.last() == 46 {
            s.push(seq![])
        } else {
            s.update(s.len() - 1, s.last().push(b.last()))
        }
    }
}

/// An octet of a dotted-decimal address: one to three decimal digits, no
/// leading zero, at most 255.
pub open spec fn octet_of(g: Seq<u8>) -> Option<u8> {
    if 1 <= g.len() <= 3 && all_ascii_digits(g) && !(g.len() > 1 && g[0] == 48) && digits_value(g)
        <= 255 {
        Some(digits_value(g) as u8)
    } else {
        None
    }
}

/// The IPv4 address that `b` writes in dotted-decimal notation (four
/// decimal octets, no octal or hexadecimal forms), first octet most
/// significant.
pub open spec fn ipv4_of(b: Seq<u8>) -> Option<u32> {
    let g = split_dots(b);
    if g.len() == 4 && octet_of(g[0]) is Some && octet_of(g[1]) is Some && octet_of(g[2]) is Some
        && octet_of(g[3]) is Some {
        Some(
            (octet_of(g[0]).unwrap() * 0x100_0000 + octet_of(g[1]).unwrap() * 0x1_0000 + octet_of(
                g[2],
            ).unwrap() * 0x100 + octet_of(g[3]).unwrap()) as u32,
        )
    } else {
        None
    }
}

/// The port that `b` writes: an optional `'+'` and decimal digits, as
/// `str::parse::<u16>` reads it.
pub open spec fn port_of(b: Seq<u8>) -> Option<u16> {
    if b.len() > 0 && b[0] == 43 {
        decimal_u16(b.skip(1))
    } else {
        decimal_u16(b)
    }
}

/// The records decoded from `v`, added to `m`. Decoding stops at the end,
/// at a record that does not start with an ASCII byte or is cut short, at an
/// unknown token, and at an address or port that does not parse.
pub open spec fn decode_tlv_from(v: Seq<u8>, m: TlvView) -> TlvView
    decreases v.len(),
{
    if v.len() <= 4 || v[0] >= 128 {
        m
    } else {
        let valen = v[4] as int;
        let rest = v.skip(5);
        if rest.len() < valen {
            m
        } else {
            let value = rest.take(valen);
            let next = rest.skip(valen);
            if has_chars(v, 0, 'N', 'A', 'M', 'E') {
                decode_tlv_from(next, TlvView { name: Some(utf8_or_empty(value)), ..m })
            } else if has_chars(v, 0, 'V', 'E', 'R', 'S') {
                decode_tlv_from(next, TlvView { version: Some(utf8_or_empty(value)), ..m })
            } else if has_chars(v, 0, 'I', 'P', 'A', 'D') {
                match ipv4_of(value) {
                    Some(a) => decode_tlv_from(next, TlvView { address: Some(a), ..m }),
                    None => m,
                }
            } else if has_chars(v, 0, 'J', 'S', 'O', 'N') {
                match port_of(value) {
                    Some(p) => decode_tlv_from(next, TlvView { port: Some(p), ..m }),
                    None => m,
                }
            } else {
                m
            }
        }
    }
}

/// No record.
pub open spec fn no_tlv() -> TlvView {
    TlvView { name: None, version: None, address: None, port: None }
}

/// The records of the reply `r`, when it is one that carries records (its
/// first byte is `'E'`).
pub open spec fn reply_tlv(r: Seq<u8>) -> Option<TlvView> {
    if r.len() > 0 && r[0] == 69 {
        Some(decode_tlv_from(r.skip(1), no_tlv()))
    } else {
        None
    }
}

fn split_on_dots(b: &[u8]) -> (r: Vec<Vec<u8>>)
    ensures
        r@.map_values(|g: Vec<u8>| g@) == split_dots(b@),
{
    let mut groups: Vec<Vec<u8>> = Vec::new();
    let mut cur: Vec<u8> = Vec::new();
    let mut i: usize = 0;
    assert(b@.take(0) =~= Seq::<u8>::empty());
    while i < b.len()
        invariant
            i <= b@.len(),
            groups@.map_values(|g: Vec<u8>| g@).push(cur@) == split_dots(b@.take(i as int)),
        decreases b@.len() - i,
    {
        let ghost before = groups@.map_values(|g: Vec<u8>| g@).push(cur@);
        assert(b@.take(i + 1).drop_last() =~= b@.take(i as int));
        if b[i] == 46 {
            let done = cur;
            groups.push(done);
            cur = Vec::new();
            assert(groups@.map_values(|g: Vec<u8>| g@).push(cur@) =~= before.push(seq![]));
        } else {
            cur.push(b[i]);
            assert(groups@.map_values(|g: Vec<u8>| g@).push(cur@) =~= before.update(
                before.len() - 1,
                before.last().push(b@[i as int]),
            ));
        }
        i = i + 1;
    }
    assert(b@.take(i as int) =~= b@);
    groups.push(cur);
    groups
}

fn parse_octet(g: &[u8]) -> (r: Option<u8>)
    ensures
        r == octet_of(g@),
{
    if g.len() < 1 || g.len() > 3 || !are_ascii_digits(g) || (g.len() > 1 && g[0] == 48) {
        return None;
    }
    match parse_decimal_u16(g) {
        Some(v) => if v <= 255 {
            Some(v as u8)
        } else {
            None
        },
        None => None,
    }
}

/// The IPv4 address that `b` writes in dotted-decimal notation.
pub fn parse_ipv4(b: &[u8]) -> (r: Option<u32>)
    ensures
        r == ipv4_of(b@),
{
    let groups = split_on_dots(b);
    let ghost g = split_dots(b@);
    assert(groups@.len() == g.len());
    if groups.len() != 4 {
        return None;
    }
    assert(groups@[0]@ == g[0] && groups@[1]@ == g[1] && groups@[2]@ == g[2] && groups@[3]@ == g[3]);
    let o0 = match parse_octet(groups[0].as_slice()) {
        Some(o) => o,
        None => return None,
    };
    let o1 = match parse_octet(groups[1].as_slice()) {
        Some(o) => o,
        None => return None,
    };
    let o2 = match parse_octet(groups[2].as_slice()) {
        Some(o) => o,
        None => return None,
    };
    let o3 = match parse_octet(groups[3].as_slice()) {
        Some(o) => o,
        None => return None,
    };
    Some(o0 as u32 * 0x100_0000 + o1 as u32 * 0x1_0000 + o2 as u32 * 0x100 + o3 as u32)
}

/// The port that `b` writes: an optional `'+'` and decimal digits.
pub fn parse_port(b: &[u8]) -> (r: Option<u16>)
    ensures
        r == port_of(b@),
{
    if b.len() > 0 && b[0] == 43 {
        let digits = &b[1..b.len()];
        assert(digits@ =~= b@.skip(1));
        parse_decimal_u16(digits)
    } else {
        parse_decimal_u16(b)
    }
}

fn utf8_or_default(b: &[u8]) -> (r: String)
    ensures
        r@ == utf8_or_empty(b@),
{
    match utf8_to_string(b) {
        Some(s) => s,
        None => String::new(),
    }
}

/// The records of the TLV part of a discovery reply.
pub fn decode_tlv(buf: &[u8]) -> (r: ServerTlvMap)
    ensures
        r@ == decode_tlv_from(buf@, no_tlv()),
{
    let mut m = ServerTlvMap { name: None, version: None, address: None, port: None };
    let mut pos: usize = 0;
    assert(buf@.skip(0) =~= buf@);
    loop
        invariant
            pos <= buf@.len(),
            decode_tlv_from(buf@, no_tlv()) == decode_tlv_from(buf@.skip(pos as int), m@),
        decreases buf@.len() - pos,
    {
        let ghost v = buf@.skip(pos as int);
        let view = &buf[pos..buf.len()];
        assert(view@ =~= v);
        if view.len() <= 4 || view[0] >= 128 {
            return m;
        }
        let valen = view[4] as usize;
        if view.len() - 5 < valen {
            return m;
        }
        let value = &view[5..5 + valen];
        assert(value@ =~= v.skip(5).take(valen as int));
        assert(buf@.skip(pos + 5 + valen) =~= v.skip(5).skip(valen as int));
        if view[0] == 78 && view[1] == 65 && view[2] == 77 && view[3] == 69 {
            m.name = Some(utf8_or_default(value));
        } else if view[0] == 86 && view[1] == 69 && view[2] == 82 && view[3] == 83 {
            m.version = Some(utf8_or_default(value));
        } else if view[0] == 73 && view[1] == 80 && view[2] == 65 && view[3] == 68 {
            match parse_ipv4(value) {
                Some(a) => m.address = Some(a),
                None => return m,
            }
        } else if view[0] == 74 && view[1] == 83 && view[2] == 79 && view[3] == 78 {
            match parse_port(value) {
                Some(p) => m.port = Some(p),
                None => return m,
            }
        } else {
            return m;
        }
        pos = pos + 5 + valen;
    }
}

/// The records of a discovery reply, when its first byte is `'E'`.
pub fn reply_records(reply: &[u8]) -> (r: Option<ServerTlvMap>)
    ensures
        match r {
            Some(m) => reply_tlv(reply@) == Some(m@),
            None => reply_tlv(reply@) is None,
        },
{
    if reply.len() > 0 && reply[0] == 69 {
        let rest = &reply[1..reply.len()];
        assert(rest@ =~= reply@.skip(1));
        Some(decode_tlv(rest))
    } else {
        None
    }
}

/// The four tokens of discovery records.
pub open spec fn known_token(t: Seq<u8>) -> bool {
    t == seq!['N' as u8, 'A' as u8, 'M' as u8, 'E' as u8] || t == seq![
        'V' as u8,
        'E' as u8,
        'R' as u8,
        'S' as u8,
    ] || t == seq!['I' as u8, 'P' as u8, 'A' as u8, 'D' as u8] || t == seq![
        'J' as u8,
        'S' as u8,
        'O' as u8,
        'N' as u8,
    ]
}

/// A record is its four-byte token, the length of its value in one byte,
/// and the value. A complete record of a known token whose value is valid
/// (a dotted-decimal address for `IPAD`, a port for `JSON`) sets its field,
/// replacing what an earlier record set, and decoding goes on with what
/// follows it: the records of `record + rest` are those of `rest` applied
/// on top of those of `record`.
#[verifier::rlimit(40)]
pub proof fn lemma_record_then_rest(token: Seq<u8>, value: Seq<u8>, rest: Seq<u8>, m: TlvView)
    requires
        known_token(token),
        value.len() < 256,
        token == seq!['I' as u8, 'P' as u8, 'A' as u8, 'D' as u8] ==> ipv4_of(value) is Some,
        token == seq!['J' as u8, 'S' as u8, 'O' as u8, 'N' as u8] ==> port_of(value) is Some,
    ensures
        ({
            let record = token + seq![value.len() as u8] + value;
            let text = if valid_utf8(value) {
                decode_utf8(value)
            } else {
                seq![]
            };
            &&& decode_tlv_from(record + rest, m) == decode_tlv_from(rest, decode_tlv_from(record, m))
            &&& token == seq!['N' as u8, 'A' as u8, 'M' as u8, 'E' as u8] ==> decode_tlv_from(
                record,
                m,
            ) == TlvView { name: Some(text), ..m }
            &&& token == seq!['V' as u8, 'E' as u8, 'R' as u8, 'S' as u8] ==> decode_tlv_from(
                record,
                m,
            ) == TlvView { version: Some(text), ..m }
            &&& token == seq!['I' as u8, 'P' as u8, 'A' as u8, 'D' as u8] ==> decode_tlv_from(
                record,
                m,
            ) == TlvView { address: ipv4_of(value), ..m }
            &&& token == seq!['J' as u8, 'S' as u8, 'O' as u8, 'N' as u8] ==> decode_tlv_from(
                record,
                m,
            ) == TlvView { port: port_of(value), ..m }
        }),
{
    let record = token + seq![value.len() as u8] + value;
    let v = record + rest;
    let n = value.len() as int;
    assert(v.len() > 4 && record.len() > 4);
    assert(v[0] == token[0] && v[1] == token[1] && v[2] == token[2] && v[3] == token[3]);
    assert(record[0] == token[0] && record[1] == token[1] && record[2] == token[2] && record[3]
        == token[3]);
    assert(v[4] as int == n && record[4] as int == n);
    assert(v.skip(5).take(n) =~= value);
    assert(v.skip(5).skip(n) =~= rest);
    assert(record.skip(5).take(n) =~= value);
    assert(record.skip(5).skip(n) =~= Seq::<u8>::empty());
    assert(token[0] < 128);
    let e = Seq::<u8>::empty();
    assert(forall|x: TlvView| decode_tlv_from(e, x) == x);
    let text = utf8_or_empty(value);
    if token == seq!['N' as u8, 'A' as u8, 'M' as u8, 'E' as u8] {
        assert(has_chars(v, 0, 'N', 'A', 'M', 'E') && has_chars(record, 0, 'N', 'A', 'M', 'E'));
        let m2 = TlvView { name: Some(text), ..m };
        assert(decode_tlv_from(record, m) == decode_tlv_from(e, m2));
        assert(decode_tlv_from(v, m) == decode_tlv_from(rest, m2));
    } else if token == seq!['V' as u8, 'E' as u8, 'R' as u8, 'S' as u8] {
        assert(!has_chars(v, 0, 'N', 'A', 'M', 'E') && !has_chars(record, 0, 'N', 'A', 'M', 'E'));
        assert(has_chars(v, 0, 'V', 'E', 'R', 'S') && has_chars(record, 0, 'V', 'E', 'R', 'S'));
        let m2 = TlvView { version: Some(text), ..m };
        assert(decode_tlv_from(record, m) == decode_tlv_from(e, m2));
        assert(decode_tlv_from(v, m) == decode_tlv_from(rest, m2));
    } else if token == seq!['I' as u8, 'P' as u8, 'A' as u8, 'D' as u8] {
        assert(!has_chars(v, 0, 'N', 'A', 'M', 'E') && !has_chars(record, 0, 'N', 'A', 'M', 'E'));
        assert(!has_chars(v, 0, 'V', 'E', 'R', 'S') && !has_chars(record, 0, 'V', 'E', 'R', 'S'));
        assert(has_chars(v, 0, 'I', 'P', 'A', 'D') && has_chars(record, 0, 'I', 'P', 'A', 'D'));
        let m2 = TlvView { address: ipv4_of(value), ..m };
        assert(decode_tlv_from(record, m) == decode_tlv_from(e, m2));
        assert(decode_tlv_from(v, m) == decode_tlv_from(rest, m2));
    } else {
        assert(!has_chars(v, 0, 'N', 'A', 'M', 'E') && !has_chars(record, 0, 'N', 'A', 'M', 'E'));
        assert(!has_chars(v, 0, 'V', 'E', 'R', 'S') && !has_chars(record, 0, 'V', 'E', 'R', 'S'));
        assert(!has_chars(v, 0, 'I', 'P', 'A', 'D') && !has_chars(record, 0, 'I', 'P', 'A', 'D'));
        assert(has_chars(v, 0, 'J', 'S', 'O', 'N') && has_chars(record, 0, 'J', 'S', 'O', 'N'));
        let m2 = TlvView { port: port_of(value), ..m };
        assert(decode_tlv_from(record, m) == decode_tlv_from(e, m2));
        assert(decode_tlv_from(v, m) == decode_tlv_from(rest, m2));
    }
}

/// The ASCII bytes of the decimal rendering of `n`.
pub open spec fn decimal_bytes(n: nat) -> Seq<u8> {
    decimal(n).map_values(|c: char| c as u8)
}

/// The dotted-decimal text of the IPv4 address with octets `a`, `b`, `c`,
/// `d`.
pub open spec fn dotted(a: u8, b: u8, c: u8, d: u8) -> Seq<u8> {
    decimal_bytes(a as nat) + seq![46u8] + decimal_bytes(b as nat) + seq![46u8] + decimal_bytes(
        c as nat,
    ) + seq![46u8] + decimal_bytes(d as nat)
}

proof fn lemma_decimal_bytes(n: nat)
    ensures
        decimal_bytes(n).len() >= 1,
        all_ascii_digits(decimal_bytes(n)),
        decimal_bytes(n).len() > 1 ==> decimal_bytes(n)[0] != 48,
        digits_value(decimal_bytes(n)) == n,
        forall|i: int| 0 <= i < decimal_bytes(n).len() ==> #[trigger] decimal_bytes(n)[i] != 46,
        n < 10 ==> decimal_bytes(n).len() == 1,
        n < 100 ==> decimal_bytes(n).len() <= 2,
        n < 1000 ==> decimal_bytes(n).len() <= 3,
    decreases n,
{
    lemma_decimal(n);
    let d = decimal(n);
    let b = decimal_bytes(n);
    assert forall|i: int| 0 <= i < b.len() implies 48 <= #[trigger] b[i] <= 57 by {
        assert('0' <= d[i] <= '9');
        assert(b[i] == d[i] as u8);
    }
    if d.len() > 1 {
        assert(b[0] == d[0] as u8);
        assert(d[0] != '0');
    }
    if n >= 10 {
        lemma_decimal_bytes(n / 10);
    }
}

/// Decimal digits without a leading zero are the rendering of their value.
proof fn lemma_decimal_unique(g: Seq<u8>)
    requires
        g.len() >= 1,
        all_ascii_digits(g),
        g.len() > 1 ==> g[0] != 48,
    ensures
        decimal_bytes(digits_value(g)) == g,
    decreases g.len(),
{
    let n = digits_value(g);
    let k = (g.last() - 48) as nat;
    if g.len() == 1 {
        assert(g.drop_last() =~= Seq::<u8>::empty());
        assert(digits_value(g.drop_last()) == 0);
        assert(is_ascii_digit(g[0]));
        assert(n == digits_value(g.drop_last()) * 10 + (g.last() - 48) as nat);
        assert(n == k);
        assert((digit_char(k) as u8) as int == 48 + k);
        assert(decimal_bytes(n) =~= g);
    } else {
        let p = g.drop_last();
        assert(all_ascii_digits(p)) by {
            assert forall|i: int| 0 <= i < p.len() implies is_ascii_digit(#[trigger] p[i]) by {
                assert(p[i] == g[i]);
            }
        }
        assert(p[0] == g[0]);
        lemma_decimal_unique(p);
        lemma_decimal_bytes(digits_value(p));
        assert(digits_value(p) >= 1) by {
            if p.len() == 1 {
                assert(p[0] != 48);
                assert(p.drop_last() =~= Seq::<u8>::empty());
            } else {
                if digits_value(p) == 0 {
                    assert(decimal_bytes(0).len() == 1);
                }
            }
        }
        assert(n >= 10);
        assert(n / 10 == digits_value(p));
        assert(n % 10 == k);
        assert((digit_char(k) as u8) as int == 48 + k);
        assert(decimal_bytes(n) =~= decimal_bytes(n / 10).push(digit_char(k) as u8));
        assert(g =~= p.push(g.last()));
    }
}

/// An octet is written as the decimal rendering of a value up to 255, and
/// as nothing else: no leading zeros, no sign, at most three digits.
pub proof fn lemma_octet(g: Seq<u8>, o: u8)
    ensures
        (octet_of(g) == Some(o)) == (g == decimal_bytes(o as nat)),
{
    lemma_decimal_bytes(o as nat);
    if octet_of(g) == Some(o) {
        lemma_decimal_unique(g);
    }
}

proof fn lemma_split_no_dots(y: Seq<u8>)
    requires
        forall|i: int| 0 <= i < y.len() ==> #[trigger] y[i] != 46,
    ensures
        split_dots(y) == seq![y],
    decreases y.len(),
{
    if y.len() > 0 {
        lemma_split_no_dots(y.drop_last());
        assert(y.drop_last().push(y.last()) =~= y);
    } else {
        assert(y =~= Seq::<u8>::empty());
    }
}

proof fn lemma_split_dot_then(x: Seq<u8>, y: Seq<u8>)
    requires
        forall|i: int| 0 <= i < y.len() ==> #[trigger] y[i] != 46,
    ensures
        split_dots(x + seq![46u8] + y) == split_dots(x).push(y),
    decreases y.len(),
{
    let b = x + seq![46u8] + y;
    if y.len() == 0 {
        assert(b.drop_last() =~= x);
        assert(y =~= Seq::<u8>::empty());
    } else {
        lemma_split_dot_then(x, y.drop_last());
        assert(b.drop_last() =~= x + seq![46u8] + y.drop_last());
        assert(y.drop_last().push(y.last()) =~= y);
        assert(split_dots(x).push(y.drop_last()).update(split_dots(x).len() as int, y) =~= split_dots(
            x,
        ).push(y));
    }
}

/// The dotted-decimal text of any IPv4 address reads back as that address,
/// first octet most significant.
pub proof fn lemma_dotted_address(a: u8, b: u8, c: u8, d: u8)
    ensures
        ipv4_of(dotted(a, b, c, d)) == Some(
            (a as int * 0x100_0000 + b as int * 0x1_0000 + c as int * 0x100 + d as int) as u32,
        ),
{
    lemma_decimal_bytes(a as nat);
    lemma_decimal_bytes(b as nat);
    lemma_decimal_bytes(c as nat);
    lemma_decimal_bytes(d as nat);
    let (da, db, dc, dd) = (
        decimal_bytes(a as nat),
        decimal_bytes(b as nat),
        decimal_bytes(c as nat),
        decimal_bytes(d as nat),
    );
    lemma_split_no_dots(da);
    lemma_split_dot_then(da, db);
    lemma_split_dot_then(da + seq![46u8] + db, dc);
    lemma_split_dot_then(da + seq![46u8] + db + seq![46u8] + dc, dd);
    let g = split_dots(dotted(a, b, c, d));
    assert(g =~= seq![da, db, dc, dd]);
    lemma_octet(da, a);
    lemma_octet(db, b);
    lemma_octet(dc, c);
    lemma_octet(dd, d);
}

/// A port written in decimal reads back as that port, with or without a
/// leading `+`.
pub proof fn lemma_port_text(p: u16)
    ensures
        decimal_u16(decimal_bytes(p as nat)) == Some(p),
        port_of(decimal_bytes(p as nat)) == Some(p),
        port_of(seq![43u8] + decimal_bytes(p as nat)) == Some(p),
{
    lemma_decimal_bytes(p as nat);
    let d = decimal_bytes(p as nat);
    assert((seq![43u8] + d).skip(1) =~= d);
}

/// The text of an address holds only digits and dots.
pub proof fn lemma_dotted_chars(a: u8, b: u8, c: u8, d: u8)
    ensures
        forall|i: int| 0 <= i < dotted(a, b, c, d).len() ==> (#[trigger] dotted(a, b, c, d)[i] == 46
            || 48 <= dotted(a, b, c, d)[i] <= 57),
{
    lemma_decimal_bytes(a as nat);
    lemma_decimal_bytes(b as nat);
    lemma_decimal_bytes(c as nat);
    lemma_decimal_bytes(d as nat);
    let t = dotted(a, b, c, d);
    let (da, db, dc, dd) = (
        decimal_bytes(a as nat),
        decimal_bytes(b as nat),
        decimal_bytes(c as nat),
        decimal_bytes(d as nat),
    );
    assert forall|i: int| 0 <= i < t.len() implies (#[trigger] t[i] == 46 || 48 <= t[i] <= 57) by {
        let n1 = da.len() as int;
        let n2 = n1 + 1 + db.len();
        let n3 = n2 + 1 + dc.len();
        if i < n1 {
            assert(t[i] == da[i]);
            assert(is_ascii_digit(da[i]));
        } else if i == n1 {
        } else if i < n2 {
            assert(t[i] == db[i - n1 - 1]);
            assert(is_ascii_digit(db[i - n1 - 1]));
        } else if i == n2 {
        } else if i < n3 {
            assert(t[i] == dc[i - n2 - 1]);
            assert(is_ascii_digit(dc[i - n2 - 1]));
        } else if i == n3 {
        } else {
            assert(t[i] == dd[i - n3 - 1]);
            assert(is_ascii_digit(dd[i - n3 - 1]));
        }
    }
}

/// Decoding stops, keeping what it has, at a record cut short (fewer than
/// five bytes, or fewer value bytes than its length byte states), at one
/// that does not start with an ASCII byte, and at an unknown token. A reply
/// carries records only when it starts with `E`, and then it carries those
/// of what follows, starting from none.
pub proof fn lemma_decoding_stops(v: Seq<u8>, m: TlvView)
    ensures
        (v.len() < 5 || v[0] >= 128 || v.len() - 5 < v[4] || !known_token(v.take(4)))
            ==> decode_tlv_from(v, m) == m,
        (reply_tlv(v) is Some) == (v.len() > 0 && v[0] == 'E' as u8),
        (v.len() > 0 && v[0] == 'E' as u8) ==> reply_tlv(v) == Some(
            decode_tlv_from(v.skip(1), TlvView { name: None, version: None, address: None, port: None }),
        ),
{
    if v.len() >= 5 && !known_token(v.take(4)) {
        let t = v.take(4);
        assert(!has_chars(v, 0, 'N', 'A', 'M', 'E')) by {
            if has_chars(v, 0, 'N', 'A', 'M', 'E') {
                assert(t =~= seq!['N' as u8, 'A' as u8, 'M' as u8, 'E' as u8]);
            }
        }
        assert(!has_chars(v, 0, 'V', 'E', 'R', 'S')) by {
            if has_chars(v, 0, 'V', 'E', 'R', 'S') {
                assert(t =~= seq!['V' as u8, 'E' as u8, 'R' as u8, 'S' as u8]);
            }
        }
        assert(!has_chars(v, 0, 'I', 'P', 'A', 'D')) by {
            if has_chars(v, 0, 'I', 'P', 'A', 'D') {
                assert(t =~= seq!['I' as u8, 'P' as u8, 'A' as u8, 'D' as u8]);
            }
        }
        assert(!has_chars(v, 0, 'J', 'S', 'O', 'N')) by {
            if has_chars(v, 0, 'J', 'S', 'O', 'N') {
                assert(t =~= seq!['J' as u8, 'S' as u8, 'O' as u8, 'N' as u8]);
            }
        }
    }
}

} // verus!
