//! The binary framing that all signal messages share.
//!
//! A frame is a one-byte variant tag followed by the fields in order:
//! integers big-endian in their full width, a string as its UTF-8 length in
//! eight bytes followed by its UTF-8 bytes, a flag as one byte `0` or `1`, an
//! optional value as `0`, or `1` followed by the value.
use vstd::prelude::*;
use vstd::utf8::*;
use vstd::string::StringSliceAdditionalSpecFns;

verus! {

broadcast use vstd::utf8::group_utf8_lib;

pub open spec fn u16_bytes(v: u16) -> Seq<u8> {
    seq![(v >> 8u16) as u8, v as u8]
}

pub open spec fn u64_bytes(v: u64) -> Seq<u8> {
    seq![
        (v >> 56u64) as u8,
        (v >> 48u64) as u8,
        (v >> 40u64) as u8,
        (v >> 32u64) as u8,
        (v >> 24u64) as u8,
        (v >> 16u64) as u8,
        (v >> 8u64) as u8,
        v as u8,
    ]
}

pub open spec fn bool_bytes(b: bool) -> Seq<u8> {
    seq![if b { 1u8 } else { 0u8 }]
}

pub open spec fn str_bytes(s: Seq<char>) -> Seq<u8> {
    u64_bytes(encode_utf8(s).len() as u64) + encode_utf8(s)
}

pub open spec fn opt_str_bytes(o: Option<Seq<char>>) -> Seq<u8> {
    match o {
        Some(s) => seq![1u8] + str_bytes(s),
        None => seq![0u8],
    }
}

pub open spec fn opt_u16_bytes(o: Option<u16>) -> Seq<u8> {
    match o {
        Some(v) => seq![1u8] + u16_bytes(v),
        None => seq![0u8],
    }
}

/// A string whose UTF-8 length can be written in the length field.
pub open spec fn str_fits(s: Seq<char>) -> bool {
    encode_utf8(s).len() <= u64::MAX
}

pub open spec fn be_u16(b: Seq<u8>, p: int) -> u16 {
    ((b[p] as u16) << 8u16) | (b[p + 1] as u16)
}

pub open spec fn be_u64(b: Seq<u8>, p: int) -> u64 {
    ((b[p] as u64) << 56u64) | ((b[p + 1] as u64) << 48u64) | ((b[p + 2] as u64) << 40u64) | ((b[p
        + 3] as u64) << 32u64) | ((b[p + 4] as u64) << 24u64) | ((b[p + 5] as u64) << 16u64) | ((b[p
        + 6] as u64) << 8u64) | (b[p + 7] as u64)
}

pub open spec fn parse_u8(b: Seq<u8>, p: int) -> Option<(u8, int)> {
    if 0 <= p < b.len() {
        Some((b[p], p + 1))
    } else {
        None
    }
}

pub open spec fn parse_u16(b: Seq<u8>, p: int) -> Option<(u16, int)> {
    if 0 <= p && p + 2 <= b.len() {
        Some((be_u16(b, p), p + 2))
    } else {
        None
    }
}

pub open spec fn parse_u64(b: Seq<u8>, p: int) -> Option<(u64, int)> {
    if 0 <= p && p + 8 <= b.len() {
        Some((be_u64(b, p), p + 8))
    } else {
        None
    }
}

pub open spec fn parse_bool(b: Seq<u8>, p: int) -> Option<(bool, int)> {
    match parse_u8(b, p) {
        Some((t, q)) => if t == 0 {
            Some((false, q))
        } else if t == 1 {
            Some((true, q))
        } else {
            None
        },
        None => None,
    }
}

pub open spec fn parse_str(b: Seq<u8>, p: int) -> Option<(Seq<char>, int)> {
    match parse_u64(b, p) {
        Some((n, q)) => if q + n <= b.len() && valid_utf8(b.subrange(q, q + n)) {
            Some((decode_utf8(b.subrange(q, q + n)), q + n))
        } else {
            None
        },
        None => None,
    }
}

pub open spec fn parse_opt_str(b: Seq<u8>, p: int) -> Option<(Option<Seq<char>>, int)> {
    match parse_u8(b, p) {
        Some((t, q)) => if t == 0 {
            Some((None, q))
        } else if t == 1 {
            match parse_str(b, q) {
                Some((s, r)) => Some((Some(s), r)),
                None => None,
            }
        } else {
            None
        },
        None => None,
    }
}

pub open spec fn parse_opt_u16(b: Seq<u8>, p: int) -> Option<(Option<u16>, int)> {
    match parse_u8(b, p) {
        Some((t, q)) => if t == 0 {
            Some((None, q))
        } else if t == 1 {
            match parse_u16(b, q) {
                Some((v, r)) => Some((Some(v), r)),
                None => None,
            }
        } else {
            None
        },
        None => None,
    }
}

/// `b` holds `e` at position `p`.
pub open spec fn holds_at(b: Seq<u8>, p: int, e: Seq<u8>) -> bool {
    0 <= p && p + e.len() <= b.len() && b.subrange(p, p + e.len()) == e
}

pub proof fn lemma_holds_concat(b: Seq<u8>, p: int, e1: Seq<u8>, e2: Seq<u8>)
    requires
        holds_at(b, p, e1 + e2),
    ensures
        holds_at(b, p, e1),
        holds_at(b, p + e1.len(), e2),
{
    let whole = b.subrange(p, p + e1.len() + e2.len());
    assert(whole == e1 + e2);
    assert(b.subrange(p, p + e1.len()) =~= whole.subrange(0, e1.len() as int));
    assert(whole.subrange(0, e1.len() as int) =~= e1);
    assert(b.subrange(p + e1.len(), p + e1.len() + e2.len()) =~= whole.subrange(
        e1.len() as int,
        (e1.len() + e2.len()) as int,
    ));
    assert(whole.subrange(e1.len() as int, (e1.len() + e2.len()) as int) =~= e2);
}

/// Where each part of a frame of three parts stands.
pub proof fn lemma_split3(b: Seq<u8>, e0: Seq<u8>, e1: Seq<u8>, e2: Seq<u8>)
    requires
        b == e0 + e1 + e2,
    ensures
        b.len() == e0.len() + e1.len() + e2.len(),
        holds_at(b, 0, e0),
        holds_at(b, e0.len() as int, e1),
        holds_at(b, (e0.len() + e1.len()) as int, e2),
{
    assert(b.subrange(0, b.len() as int) =~= b);
    lemma_holds_concat(b, 0, e0 + e1, e2);
    lemma_holds_concat(b, 0, e0, e1);
}

/// Where each part of a frame of four parts stands.
pub proof fn lemma_split4(b: Seq<u8>, e0: Seq<u8>, e1: Seq<u8>, e2: Seq<u8>, e3: Seq<u8>)
    requires
        b == e0 + e1 + e2 + e3,
    ensures
        b.len() == e0.len() + e1.len() + e2.len() + e3.len(),
        holds_at(b, 0, e0),
        holds_at(b, e0.len() as int, e1),
        holds_at(b, (e0.len() + e1.len()) as int, e2),
        holds_at(b, (e0.len() + e1.len() + e2.len()) as int, e3),
{
    assert(b.subrange(0, b.len() as int) =~= b);
    lemma_holds_concat(b, 0, e0 + e1 + e2, e3);
    lemma_holds_concat(b, 0, e0 + e1, e2);
    lemma_holds_concat(b, 0, e0, e1);
}

/// Where each part of a frame of two parts stands.
pub proof fn lemma_split2(b: Seq<u8>, e0: Seq<u8>, e1: Seq<u8>)
    requires
        b == e0 + e1,
    ensures
        b.len() == e0.len() + e1.len(),
        holds_at(b, 0, e0),
        holds_at(b, e0.len() as int, e1),
{
    assert(b.subrange(0, b.len() as int) =~= b);
    lemma_holds_concat(b, 0, e0, e1);
}

pub proof fn lemma_parse_u8(b: Seq<u8>, p: int, v: u8)
    requires
        holds_at(b, p, seq![v]),
    ensures
        parse_u8(b, p) == Some((v, p + 1)),
{
    assert(b[p] == b.subrange(p, p + 1)[0]);
}

pub proof fn lemma_parse_u16(b: Seq<u8>, p: int, v: u16)
    requires
        holds_at(b, p, u16_bytes(v)),
    ensures
        parse_u16(b, p) == Some((v, p + 2)),
{
    let e = u16_bytes(v);
    assert(b[p] == b.subrange(p, p + 2)[0]);
    assert(b[p + 1] == b.subrange(p, p + 2)[1]);
    let b0 = (v >> 8u16) as u8;
    let b1 = v as u8;
    assert(((b0 as u16) << 8u16) | (b1 as u16) == v) by (bit_vector)
        requires
            b0 == (v >> 8u16) as u8,
            b1 == v as u8,
    ;
}

pub proof fn lemma_parse_u64(b: Seq<u8>, p: int, v: u64)
    requires
        holds_at(b, p, u64_bytes(v)),
    ensures
        parse_u64(b, p) == Some((v, p + 8)),
{
    let s = b.subrange(p, p + 8);
    assert(b[p] == s[0]);
    assert(b[p + 1] == s[1]);
    assert(b[p + 2] == s[2]);
    assert(b[p + 3] == s[3]);
    assert(b[p + 4] == s[4]);
    assert(b[p + 5] == s[5]);
    assert(b[p + 6] == s[6]);
    assert(b[p + 7] == s[7]);
    let b0 = (v >> 56u64) as u8;
    let b1 = (v >> 48u64) as u8;
    let b2 = (v >> 40u64) as u8;
    let b3 = (v >> 32u64) as u8;
    let b4 = (v >> 24u64) as u8;
    let b5 = (v >> 16u64) as u8;
    let b6 = (v >> 8u64) as u8;
    let b7 = v as u8;
    assert(((b0 as u64) << 56u64) | ((b1 as u64) << 48u64) | ((b2 as u64) << 40u64) | ((b3 as u64)
        << 32u64) | ((b4 as u64) << 24u64) | ((b5 as u64) << 16u64) | ((b6 as u64) << 8u64) | (b7 as u64)
        == v) by (bit_vector)
        requires
            b0 == (v >> 56u64) as u8,
            b1 == (v >> 48u64) as u8,
            b2 == (v >> 40u64) as u8,
            b3 == (v >> 32u64) as u8,
            b4 == (v >> 24u64) as u8,
            b5 == (v >> 16u64) as u8,
            b6 == (v >> 8u64) as u8,
            b7 == v as u8,
    ;
}

pub proof fn lemma_parse_bool(b: Seq<u8>, p: int, v: bool)
    requires
        holds_at(b, p, bool_bytes(v)),
    ensures
        parse_bool(b, p) == Some((v, p + 1)),
{
    lemma_parse_u8(b, p, if v { 1u8 } else { 0u8 });
}

pub proof fn lemma_parse_str(b: Seq<u8>, p: int, s: Seq<char>)
    requires
        str_fits(s),
        holds_at(b, p, str_bytes(s)),
    ensures
        parse_str(b, p) == Some((s, p + str_bytes(s).len())),
{
    let u = encode_utf8(s);
    lemma_holds_concat(b, p, u64_bytes(u.len() as u64), u);
    lemma_parse_u64(b, p, u.len() as u64);
    assert(b.subrange(p + 8, p + 8 + u.len()) == u);
}

pub proof fn lemma_parse_opt_str(b: Seq<u8>, p: int, o: Option<Seq<char>>)
    requires
        o matches Some(s) ==> str_fits(s),
        holds_at(b, p, opt_str_bytes(o)),
    ensures
        parse_opt_str(b, p) == Some((o, p + opt_str_bytes(o).len())),
{
    match o {
        Some(s) => {
            lemma_holds_concat(b, p, seq![1u8], str_bytes(s));
            lemma_parse_u8(b, p, 1u8);
            lemma_parse_str(b, p + 1, s);
        },
        None => {
            lemma_parse_u8(b, p, 0u8);
        },
    }
}

pub proof fn lemma_parse_opt_u16(b: Seq<u8>, p: int, o: Option<u16>)
    requires
        holds_at(b, p, opt_u16_bytes(o)),
    ensures
        parse_opt_u16(b, p) == Some((o, p + opt_u16_bytes(o).len())),
{
    match o {
        Some(v) => {
            lemma_holds_concat(b, p, seq![1u8], u16_bytes(v));
            lemma_parse_u8(b, p, 1u8);
            lemma_parse_u16(b, p + 1, v);
        },
        None => {
            lemma_parse_u8(b, p, 0u8);
        },
    }
}

pub fn put_u8(out: &mut Vec<u8>, v: u8)
    ensures
        final(out)@ == old(out)@ + seq![v],
{
    out.push(v);
    assert(out@ =~= old(out)@ + seq![v]);
}

pub fn put_u16(out: &mut Vec<u8>, v: u16)
    ensures
        final(out)@ == old(out)@ + u16_bytes(v),
{
    out.push((v >> 8u16) as u8);
    out.push(v as u8);
    assert(out@ =~= old(out)@ + u16_bytes(v));
}

pub fn put_u64(out: &mut Vec<u8>, v: u64)
    ensures
        final(out)@ == old(out)@ + u64_bytes(v),
{
    out.push((v >> 56u64) as u8);
    out.push((v >> 48u64) as u8);
    out.push((v >> 40u64) as u8);
    out.push((v >> 32u64) as u8);
    out.push((v >> 24u64) as u8);
    out.push((v >> 16u64) as u8);
    out.push((v >> 8u64) as u8);
    out.push(v as u8);
    assert(out@ =~= old(out)@ + u64_bytes(v));
}

pub fn put_bool(out: &mut Vec<u8>, v: bool)
    ensures
        final(out)@ == old(out)@ + bool_bytes(v),
{
    put_u8(out, if v { 1u8 } else { 0u8 });
}

pub fn put_str(out: &mut Vec<u8>, s: &str)
    ensures
        final(out)@ == old(out)@ + str_bytes(s@),
{
    let bytes = s.as_bytes();
    put_u64(out, bytes.len() as u64);
    let ghost start = out@;
    let mut i: usize = 0;
    while i < bytes.len()
        invariant
            i <= bytes@.len(),
            bytes@ == encode_utf8(s@),
            out@ == start + bytes@.subrange(0, i as int),
        decreases bytes@.len() - i,
    {
        out.push(bytes[i]);
        i = i + 1;
        assert(out@ =~= start + bytes@.subrange(0, i as int));
    }
    assert(bytes@.subrange(0, i as int) =~= bytes@);
    assert(out@ =~= old(out)@ + str_bytes(s@));
}

pub fn put_opt_str(out: &mut Vec<u8>, o: &Option<String>)
    ensures
        final(out)@ == old(out)@ + opt_str_bytes(crate::ids::opt_str_view(*o)),
{
    match o {
        Some(s) => {
            put_u8(out, 1u8);
            put_str(out, s.as_str());
            assert(out@ =~= old(out)@ + opt_str_bytes(crate::ids::opt_str_view(*o)));
        },
        None => {
            put_u8(out, 0u8);
        },
    }
}

pub fn put_opt_u16(out: &mut Vec<u8>, o: Option<u16>)
    ensures
        final(out)@ == old(out)@ + opt_u16_bytes(o),
{
    match o {
        Some(v) => {
            put_u8(out, 1u8);
            put_u16(out, v);
            assert(out@ =~= old(out)@ + opt_u16_bytes(o));
        },
        None => {
            put_u8(out, 0u8);
        },
    }
}

/// Relies on `std::str::from_utf8`: it succeeds exactly on valid UTF-8, and
/// the text it returns is made of those bytes.
#[verifier::external_body]
fn utf8_text(b: &[u8]) -> (r: Option<&str>)
    ensures
        r.is_some() <==> valid_utf8(b@),
        r matches Some(s) ==> s.spec_bytes() == b@,
{
    std::str::from_utf8(b).ok()
}

pub fn read_u8(b: &[u8], p: usize) -> (r: Option<(u8, usize)>)
    ensures
        match r {
            Some((v, q)) => parse_u8(b@, p as int) == Some((v, q as int)),
            None => parse_u8(b@, p as int) is None,
        },
{
    if p < b.len() {
        Some((b[p], p + 1))
    } else {
        None
    }
}

pub fn read_u16(b: &[u8], p: usize) -> (r: Option<(u16, usize)>)
    ensures
        match r {
            Some((v, q)) => parse_u16(b@, p as int) == Some((v, q as int)),
            None => parse_u16(b@, p as int) is None,
        },
{
    if p <= b.len() && b.len() - p >= 2 {
        let v = ((b[p] as u16) << 8u16) | (b[p + 1] as u16);
        Some((v, p + 2))
    } else {
        None
    }
}

pub fn read_u64(b: &[u8], p: usize) -> (r: Option<(u64, usize)>)
    ensures
        match r {
            Some((v, q)) => parse_u64(b@, p as int) == Some((v, q as int)),
            None => parse_u64(b@, p as int) is None,
        },
{
    if p <= b.len() && b.len() - p >= 8 {
        let v = ((b[p] as u64) << 56u64) | ((b[p + 1] as u64) << 48u64) | ((b[p + 2] as u64)
            << 40u64) | ((b[p + 3] as u64) << 32u64) | ((b[p + 4] as u64) << 24u64) | ((b[p
            + 5] as u64) << 16u64) | ((b[p + 6] as u64) << 8u64) | (b[p + 7] as u64);
        Some((v, p + 8))
    } else {
        None
    }
}

pub fn read_bool(b: &[u8], p: usize) -> (r: Option<(bool, usize)>)
    ensures
        match r {
            Some((v, q)) => parse_bool(b@, p as int) == Some((v, q as int)),
            None => parse_bool(b@, p as int) is None,
        },
{
    match read_u8(b, p) {
        Some((t, q)) => if t == 0 {
            Some((false, q))
        } else if t == 1 {
            Some((true, q))
        } else {
            None
        },
        None => None,
    }
}

pub fn read_str(b: &[u8], p: usize) -> (r: Option<(String, usize)>)
    ensures
        match r {
            Some((s, q)) => parse_str(b@, p as int) == Some((s@, q as int)),
            None => parse_str(b@, p as int) is None,
        },
{
    match read_u64(b, p) {
        Some((n, q)) => {
            if n > (b.len() - q) as u64 {
                return None;
            }
            let end = q + n as usize;
            let part = vstd::slice::slice_subrange(b, q, end);
            match utf8_text(part) {
                Some(t) => {
                    let s = t.to_owned();
                    proof {
                        encode_utf8_decode_utf8(t@);
                    }
                    Some((s, end))
                },
                None => None,
            }
        },
        None => None,
    }
}

pub fn read_opt_str(b: &[u8], p: usize) -> (r: Option<(Option<String>, usize)>)
    ensures
        match r {
            Some((o, q)) => parse_opt_str(b@, p as int) == Some((crate::ids::opt_str_view(o), q as int)),
            None => parse_opt_str(b@, p as int) is None,
        },
{
    match read_u8(b, p) {
        Some((t, q)) => if t == 0 {
            Some((None, q))
        } else if t == 1 {
            match read_str(b, q) {
                Some((s, r)) => Some((Some(s), r)),
                None => None,
            }
        } else {
            None
        },
        None => None,
    }
}

pub fn read_opt_u16(b: &[u8], p: usize) -> (r: Option<(Option<u16>, usize)>)
    ensures
        match r {
            Some((o, q)) => parse_opt_u16(b@, p as int) == Some((o, q as int)),
            None => parse_opt_u16(b@, p as int) is None,
        },
{
    match read_u8(b, p) {
        Some((t, q)) => if t == 0 {
            Some((None, q))
        } else if t == 1 {
            match read_u16(b, q) {
                Some((v, r)) => Some((Some(v), r)),
                None => None,
            }
        } else {
            None
        },
        None => None,
    }
}

} // verus!
