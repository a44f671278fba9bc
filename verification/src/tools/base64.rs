//! Decoding of the base64 payloads that MCP servers put in image content.

use vstd::prelude::*;
use vstd::utf8::{encode_scalar, encode_utf8};
use crate::text::{is_white_space, trim, trim_end, trim_start, trimmed};

verus! {

/// The 6-bit value of a character of the standard base64 alphabet.
pub open spec fn b64_value(c: u8) -> Option<u8> {
    if 0x41 <= c <= 0x5a {
        Some((c - 0x41) as u8)
    } else if 0x61 <= c <= 0x7a {
        Some((c - 0x61 + 26) as u8)
    } else if 0x30 <= c <= 0x39 {
        Some((c - 0x30 + 52) as u8)
    } else if c == 0x2b {
        Some(62u8)
    } else if c == 0x2f {
        Some(63u8)
    } else {
        None
    }
}

/// Bytes that the decoder skips: padding '=' and line feeds.
pub open spec fn b64_kept(b: u8) -> bool {
    b != 0x3d && b != 0x0a
}

/// The bytes the decoder works on: those of the trimmed input, less padding
/// and line feeds.
pub open spec fn b64_payload(s: Seq<char>) -> Seq<u8> {
    encode_utf8(trim(s)).filter(|b: u8| b64_kept(b))
}

/// The 6-bit values of a payload whose bytes are all in the alphabet.
pub open spec fn b64_values(p: Seq<u8>) -> Seq<u8> {
    p.map_values(|b: u8| b64_value(b)->0)
}

/// The value at `i` of a group, 0 past its end.
pub open spec fn group_at(g: Seq<u8>, i: int) -> u8 {
    if i < g.len() {
        g[i]
    } else {
        0u8
    }
}

/// The bytes that one group of one to four 6-bit values decodes to: one
/// byte, a second when the group has more than two values, a third when it
/// has four.
pub open spec fn decode_group(g: Seq<u8>) -> Seq<u8> {
    let v0 = group_at(g, 0);
    let v1 = group_at(g, 1);
    let v2 = group_at(g, 2);
    let v3 = group_at(g, 3);
    seq![(v0 << 2u8) | (v1 >> 4u8)] + (if g.len() > 2 {
        seq![(v1 << 4u8) | (v2 >> 2u8)]
    } else {
        Seq::empty()
    }) + (if g.len() > 3 {
        seq![(v2 << 6u8) | v3]
    } else {
        Seq::empty()
    })
}

/// The bytes that a sequence of 6-bit values decodes to, group by group of
/// four (the last group may be shorter).
pub open spec fn decode_values(v: Seq<u8>) -> Seq<u8>
    decreases v.len(),
{
    if v.len() == 0 {
        Seq::empty()
    } else if v.len() <= 4 {
        decode_group(v)
    } else {
        decode_group(v.take(4)) + decode_values(v.skip(4))
    }
}

/// What decoding `s` gives: `None` when a payload byte is outside the
/// alphabet.
pub open spec fn spec_base64_decode(s: Seq<char>) -> Option<Seq<u8>> {
    let p = b64_payload(s);
    if forall|i: int| 0 <= i < p.len() ==> (#[trigger] b64_value(p[i])) is Some {
        Some(decode_values(b64_values(p)))
    } else {
        None
    }
}

/// The 6-bit value of a base64 character.
pub fn b64_lookup(c: u8) -> (r: Option<u8>)
    ensures
        r == b64_value(c),
{
    if 0x41 <= c && c <= 0x5a {
        Some(c - 0x41)
    } else if 0x61 <= c && c <= 0x7a {
        Some(c - 0x61 + 26)
    } else if 0x30 <= c && c <= 0x39 {
        Some(c - 0x30 + 52)
    } else if c == 0x2b {
        Some(62)
    } else if c == 0x2f {
        Some(63)
    } else {
        None
    }
}

/// Decodes standard base64 text, tolerating surrounding white space, padding
/// and line feeds; `Err` when another byte is outside the alphabet.
pub fn base64_decode(input: &str) -> (res: Result<Vec<u8>, ()>)
    ensures
        match res {
            Ok(out) => spec_base64_decode(input@) == Some(out@),
            Err(_) => spec_base64_decode(input@) is None,
        },
{
    let t = trimmed(input);
    let bytes = t.as_str().as_bytes();
    let ghost all = encode_utf8(trim(input@));
    let ghost pred = |b: u8| b64_kept(b);
    let mut kept: Vec<u8> = Vec::new();
    let mut i: usize = 0;
    while i < bytes.len()
        invariant
            bytes@ == all,
            i <= bytes@.len(),
            pred == (|b: u8| b64_kept(b)),
            kept@ == all.take(i as int).filter(pred),
        decreases bytes@.len() - i,
    {
        proof {
            reveal_with_fuel(Seq::<_>::filter, 1);
            assert(all.take(i + 1).drop_last() =~= all.take(i as int));
        }
        let b = bytes[i];
        if b != 0x3d && b != 0x0a {
            kept.push(b);
        }
        i += 1;
    }
    assert(all.take(bytes@.len() as int) =~= all);
    let ghost p = kept@;
    assert(p == b64_payload(input@));
    let mut vals: Vec<u8> = Vec::new();
    let mut j: usize = 0;
    while j < kept.len()
        invariant
            kept@ == p,
            p == b64_payload(input@),
            j <= p.len(),
            vals@ == b64_values(p.take(j as int)),
            forall|k: int| 0 <= k < j ==> (#[trigger] b64_value(p[k])) is Some,
        decreases p.len() - j,
    {
        match b64_lookup(kept[j]) {
            Some(v) => {
                vals.push(v);
                assert(vals@ =~= b64_values(p.take(j + 1)));
            },
            None => {
                assert(b64_value(p[j as int]) is None);
                return Err(());
            },
        }
        j += 1;
    }
    assert(p.take(p.len() as int) =~= p);
    let ghost values = vals@;
    let mut out: Vec<u8> = Vec::new();
    let mut k: usize = 0;
    let n = vals.len();
    assert(values.skip(0) =~= values);
    while k < n
        invariant
            vals@ == values,
            n == values.len(),
            k <= n,
            out@ + decode_values(values.skip(k as int)) == decode_values(values),
        decreases n - k,
    {
        let m: usize = if n - k < 4 { n - k } else { 4 };
        let v0 = vals[k];
        let v1 = if m > 1 { vals[k + 1] } else { 0 };
        let v2 = if m > 2 { vals[k + 2] } else { 0 };
        let v3 = if m > 3 { vals[k + 3] } else { 0 };
        let ghost before = out@;
        let ghost rest = values.skip(k as int);
        let ghost g = if rest.len() <= 4 { rest } else { rest.take(4) };
        assert(g =~= values.subrange(k as int, k + m));
        out.push((v0 << 2) | (v1 >> 4));
        if m > 2 {
            out.push((v1 << 4) | (v2 >> 2));
        }
        if m > 3 {
            out.push((v2 << 6) | v3);
        }
        proof {
            assert(group_at(g, 0) == v0);
            assert(group_at(g, 1) == v1);
            assert(group_at(g, 2) == v2);
            assert(group_at(g, 3) == v3);
            assert(out@ =~= before + decode_group(g));
            if rest.len() > 4 {
                assert(rest.skip(4) =~= values.skip(k + 4));
            } else {
                assert(values.skip(k + m) =~= Seq::<u8>::empty());
            }
        }
        k += m;
    }
    assert(values.skip(n as int) =~= Seq::<u8>::empty());
    assert(out@ =~= decode_values(values));
    Ok(out)
}

/// The six-bit values that standard base64 writes for one group of one to
/// three bytes: two, three or four values.
pub open spec fn encode_group(g: Seq<u8>) -> Seq<u8> {
    let a = group_at(g, 0);
    let b = group_at(g, 1);
    let c = group_at(g, 2);
    seq![a >> 2u8, ((a & 3u8) << 4u8) | (b >> 4u8)] + (if g.len() > 1 {
        seq![((b & 15u8) << 2u8) | (c >> 6u8)]
    } else {
        Seq::empty()
    }) + (if g.len() > 2 {
        seq![c & 63u8]
    } else {
        Seq::empty()
    })
}

/// The six-bit values that standard base64 writes for `b`, group by group
/// of three bytes (the last group may be shorter).
pub open spec fn encode_values(b: Seq<u8>) -> Seq<u8>
    decreases b.len(),
{
    if b.len() == 0 {
        Seq::empty()
    } else if b.len() <= 3 {
        encode_group(b)
    } else {
        encode_group(b.take(3)) + encode_values(b.skip(3))
    }
}

/// The character of the standard base64 alphabet for a six-bit value.
pub open spec fn b64_char(v: u8) -> char {
    if v < 26 {
        (0x41 + v) as char
    } else if v < 52 {
        (0x61 + v - 26) as char
    } else if v < 62 {
        (0x30 + v - 52) as char
    } else if v == 62 {
        '+'
    } else {
        '/'
    }
}

/// The padding that fills the last group of base64 text of `n` bytes out
/// to four characters.
pub open spec fn b64_padding(n: nat) -> Seq<char> {
    if n % 3 == 1 {
        seq!['=', '=']
    } else if n % 3 == 2 {
        seq!['=']
    } else {
        Seq::empty()
    }
}

/// The standard base64 text of `b` (RFC 4648): its six-bit values as
/// characters of the alphabet, then the padding.
pub open spec fn spec_base64_encode(b: Seq<u8>) -> Seq<char> {
    encode_values(b).map_values(|v: u8| b64_char(v)) + b64_padding(b.len())
}

proof fn lemma_group_bits(a: u8, b: u8, c: u8)
    by (bit_vector)
    ensures
        a >> 2u8 < 64,
        ((a & 3u8) << 4u8) | (b >> 4u8) < 64,
        ((b & 15u8) << 2u8) | (c >> 6u8) < 64,
        c & 63u8 < 64,
        ((a >> 2u8) << 2u8) | ((((a & 3u8) << 4u8) | (b >> 4u8)) >> 4u8) == a,
        ((((a & 3u8) << 4u8) | (b >> 4u8)) << 4u8) | ((((b & 15u8) << 2u8) | (c >> 6u8)) >> 2u8)
            == b,
        ((((b & 15u8) << 2u8) | (c >> 6u8)) << 6u8) | (c & 63u8) == c,
        ((b & 15u8) << 2u8) | (0u8 >> 6u8) == (b & 15u8) << 2u8,
        ((((a & 3u8) << 4u8) | (b >> 4u8)) << 4u8) | (((b & 15u8) << 2u8) >> 2u8) == b,
        ((((a & 3u8) << 4u8) | (0u8 >> 4u8)) >> 4u8) == a & 3u8,
        ((a >> 2u8) << 2u8) | (a & 3u8) == a,
{
}

proof fn lemma_group_round_trip(g: Seq<u8>)
    requires
        1 <= g.len() <= 3,
    ensures
        decode_group(encode_group(g)) == g,
        encode_group(g).len() == g.len() + 1,
        forall|i: int| 0 <= i < encode_group(g).len() ==> #[trigger] encode_group(g)[i] < 64,
{
    let a = group_at(g, 0);
    let b = group_at(g, 1);
    let c = group_at(g, 2);
    lemma_group_bits(a, b, c);
    let e = encode_group(g);
    assert(group_at(e, 0) == a >> 2u8);
    assert(group_at(e, 1) == ((a & 3u8) << 4u8) | (b >> 4u8));
    if g.len() == 1 {
        assert(b == 0u8);
        assert(decode_group(e) =~= g);
    } else if g.len() == 2 {
        assert(c == 0u8);
        assert(group_at(e, 2) == ((b & 15u8) << 2u8) | (c >> 6u8));
        assert(decode_group(e) =~= g);
    } else {
        assert(group_at(e, 2) == ((b & 15u8) << 2u8) | (c >> 6u8));
        assert(group_at(e, 3) == c & 63u8);
        assert(decode_group(e) =~= g);
    }
}

/// Decoding the six-bit values that base64 writes for `b` gives back `b`;
/// every value is below 64.
proof fn lemma_values_round_trip(b: Seq<u8>)
    ensures
        decode_values(encode_values(b)) == b,
        forall|i: int| 0 <= i < encode_values(b).len() ==> #[trigger] encode_values(b)[i] < 64,
    decreases b.len(),
{
    if b.len() == 0 {
        assert(decode_values(encode_values(b)) =~= b);
    } else if b.len() <= 3 {
        lemma_group_round_trip(b);
    } else {
        let g = b.take(3);
        let rest = b.skip(3);
        lemma_group_round_trip(g);
        lemma_values_round_trip(rest);
        let e = encode_values(b);
        let eg = encode_group(g);
        let er = encode_values(rest);
        assert(e == eg + er);
        assert(er.len() > 0) by {
            if rest.len() <= 3 {
                lemma_group_round_trip(rest);
            } else {
                lemma_group_round_trip(rest.take(3));
            }
        }
        assert(e.take(4) =~= eg);
        assert(e.skip(4) =~= er);
        assert(decode_values(e) == decode_group(e.take(4)) + decode_values(e.skip(4)));
        assert(decode_values(e) =~= b);
        assert forall|i: int| 0 <= i < e.len() implies #[trigger] e[i] < 64 by {
            if i < 4 {
                assert(e[i] == eg[i]);
            } else {
                assert(e[i] == er[i - 4]);
            }
        }
    }
}

/// The byte of an ASCII character.
pub open spec fn char_byte(c: char) -> u8 {
    (c as u32) as u8
}

proof fn lemma_char_round_trip(v: u8)
    requires
        v < 64,
    ensures
        (b64_char(v) as u32) < 0x80,
        b64_value(char_byte(b64_char(v))) == Some(v),
        b64_kept(char_byte(b64_char(v))),
        !is_white_space(b64_char(v)),
{
}

proof fn lemma_ascii_byte(c: u32)
    by (bit_vector)
    requires
        c < 0x80,
    ensures
        (c & 0x7f) as u8 == c as u8,
{
}

/// The UTF-8 bytes of ASCII text are its characters' codes.
proof fn lemma_ascii_utf8(cs: Seq<char>)
    requires
        forall|i: int| 0 <= i < cs.len() ==> (#[trigger] cs[i] as u32) < 0x80,
    ensures
        encode_utf8(cs) == cs.map_values(|c: char| char_byte(c)),
    decreases cs.len(),
{
    if cs.len() > 0 {
        let rest = cs.drop_first();
        assert forall|i: int| 0 <= i < rest.len() implies (#[trigger] rest[i] as u32) < 0x80 by {
            assert(rest[i] == cs[i + 1]);
        }
        lemma_ascii_utf8(rest);
        lemma_ascii_byte(cs[0] as u32);
        assert(encode_scalar(cs[0] as u32) =~= seq![char_byte(cs[0])]);
        assert(encode_utf8(cs) =~= cs.map_values(|c: char| char_byte(c)));
    } else {
        assert(encode_utf8(cs) =~= cs.map_values(|c: char| char_byte(c)));
    }
}

/// Keeping the bytes that are not padding nor line feeds keeps all of a
/// sequence of kept bytes.
proof fn lemma_filter_keeps_all(bs: Seq<u8>)
    requires
        forall|i: int| 0 <= i < bs.len() ==> b64_kept(#[trigger] bs[i]),
    ensures
        bs.filter(|b: u8| b64_kept(b)) == bs,
    decreases bs.len(),
{
    reveal_with_fuel(Seq::<_>::filter, 1);
    if bs.len() > 0 {
        let init = bs.drop_last();
        assert forall|i: int| 0 <= i < init.len() implies b64_kept(#[trigger] init[i]) by {
            assert(init[i] == bs[i]);
        }
        lemma_filter_keeps_all(init);
        assert(init.push(bs.last()) =~= bs);
    }
}

/// The characters base64 writes for six-bit values.
pub open spec fn b64_chars(vals: Seq<u8>) -> Seq<char> {
    vals.map_values(|v: u8| b64_char(v))
}

/// Base64 text of values below 64 is ASCII without white space, and its
/// payload is the bytes of its characters before the padding.
proof fn lemma_encoded_payload(vals: Seq<u8>, n: nat)
    requires
        forall|i: int| 0 <= i < vals.len() ==> #[trigger] vals[i] < 64,
    ensures
        b64_payload(b64_chars(vals) + b64_padding(n)) == b64_chars(vals).map_values(
            |c: char| char_byte(c),
        ),
{
    let body = b64_chars(vals);
    let pad = b64_padding(n);
    let text = body + pad;
    assert forall|i: int| 0 <= i < body.len() implies {
        &&& (#[trigger] body[i] as u32) < 0x80
        &&& b64_kept(char_byte(body[i]))
        &&& !is_white_space(body[i])
    } by {
        lemma_char_round_trip(vals[i]);
    }
    assert(forall|i: int| 0 <= i < pad.len() ==> #[trigger] pad[i] == '=');
    assert forall|i: int| 0 <= i < text.len() implies (#[trigger] text[i] as u32) < 0x80
        && !is_white_space(text[i]) by {
        if i < body.len() {
            assert(text[i] == body[i]);
        } else {
            assert(text[i] == pad[i - body.len()]);
        }
    }
    assert(trim(text) == text) by {
        if text.len() > 0 {
            assert(!is_white_space(text[0]));
            assert(trim_start(text) == text);
            assert(!is_white_space(text.last()));
            assert(trim_end(text) == text);
        } else {
            assert(trim_start(text) == text);
        }
    }
    lemma_ascii_utf8(text);
    let body_bytes = body.map_values(|c: char| char_byte(c));
    let pad_bytes = pad.map_values(|c: char| char_byte(c));
    assert(text.map_values(|c: char| char_byte(c)) =~= body_bytes + pad_bytes);
    assert forall|i: int| 0 <= i < body_bytes.len() implies b64_kept(#[trigger] body_bytes[i]) by {
        assert(body_bytes[i] == char_byte(body[i]));
    }
    lemma_filter_keeps_all(body_bytes);
    assert(pad_bytes.filter(|x: u8| b64_kept(x)) =~= Seq::<u8>::empty()) by {
        reveal_with_fuel(Seq::<_>::filter, 3);
        if pad.len() == 2 {
            assert(pad_bytes.drop_last().drop_last() =~= Seq::<u8>::empty());
        } else if pad.len() == 1 {
            assert(pad_bytes.drop_last() =~= Seq::<u8>::empty());
        }
    }
    Seq::filter_distributes_over_add(body_bytes, pad_bytes, |x: u8| b64_kept(x));
}

/// Base64 decoding inverts base64 encoding: the standard base64 text of any
/// bytes decodes to those bytes.
pub proof fn law_decode_inverts_encode(b: Seq<u8>)
    ensures
        spec_base64_decode(spec_base64_encode(b)) == Some(b),
{
    lemma_values_round_trip(b);
    let vals = encode_values(b);
    let body = b64_chars(vals);
    assert(spec_base64_encode(b) == body + b64_padding(b.len()));
    lemma_encoded_payload(vals, b.len());
    let p = b64_payload(spec_base64_encode(b));
    assert forall|i: int| 0 <= i < p.len() implies (#[trigger] b64_value(p[i])) == Some(vals[i]) by {
        assert(p[i] == char_byte(body[i]));
        lemma_char_round_trip(vals[i]);
    }
    assert(b64_values(p) =~= vals);
}

} // verus!
