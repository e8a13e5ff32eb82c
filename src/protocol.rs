//! The signal messages of each topology, and the framing of ICE candidates
//! that they share.
use vstd::prelude::*;

use crate::ids::{IceCandidate, IceCandidateView};
use crate::wire::{
    holds_at, lemma_holds_concat, lemma_parse_opt_str, lemma_parse_opt_u16, lemma_parse_str,
    opt_str_bytes, opt_u16_bytes, parse_opt_str, parse_opt_u16, parse_str, put_opt_str, put_opt_u16,
    put_str, read_opt_str, read_opt_u16, read_str, str_bytes, str_fits,
};

pub mod many_to_many;
pub mod one_to_many;
pub mod one_to_one;

verus! {

pub open spec fn candidate_bytes(c: IceCandidateView) -> Seq<u8> {
    str_bytes(c.candidate) + opt_str_bytes(c.sdp_mid) + opt_u16_bytes(c.sdp_m_line_index)
}

pub open spec fn candidate_fits(c: IceCandidateView) -> bool {
    str_fits(c.candidate) && (c.sdp_mid matches Some(s) ==> str_fits(s))
}

pub open spec fn parse_candidate(b: Seq<u8>, p: int) -> Option<(IceCandidateView, int)> {
    match parse_str(b, p) {
        Some((c, q)) => match parse_opt_str(b, q) {
            Some((mid, r)) => match parse_opt_u16(b, r) {
                Some((idx, t)) => Some(
                    (IceCandidateView { candidate: c, sdp_mid: mid, sdp_m_line_index: idx }, t),
                ),
                None => None,
            },
            None => None,
        },
        None => None,
    }
}

pub proof fn lemma_parse_candidate(b: Seq<u8>, p: int, c: IceCandidateView)
    requires
        candidate_fits(c),
        holds_at(b, p, candidate_bytes(c)),
    ensures
        parse_candidate(b, p) == Some((c, p + candidate_bytes(c).len())),
{
    let e0 = str_bytes(c.candidate);
    let e1 = opt_str_bytes(c.sdp_mid);
    let e2 = opt_u16_bytes(c.sdp_m_line_index);
    lemma_holds_concat(b, p, e0 + e1, e2);
    lemma_holds_concat(b, p, e0, e1);
    lemma_parse_str(b, p, c.candidate);
    lemma_parse_opt_str(b, p + e0.len(), c.sdp_mid);
    lemma_parse_opt_u16(b, p + e0.len() + e1.len(), c.sdp_m_line_index);
}

pub fn put_candidate(out: &mut Vec<u8>, c: &IceCandidate)
    ensures
        final(out)@ == old(out)@ + candidate_bytes(c@),
{
    put_str(out, c.candidate.as_str());
    put_opt_str(out, &c.sdp_mid);
    put_opt_u16(out, c.sdp_m_line_index);
    assert(out@ =~= old(out)@ + candidate_bytes(c@));
}

pub fn read_candidate(b: &[u8], p: usize) -> (r: Option<(IceCandidate, usize)>)
    ensures
        match r {
            Some((c, q)) => parse_candidate(b@, p as int) == Some((c@, q as int)),
            None => parse_candidate(b@, p as int) is None,
        },
{
    let (candidate, q) = match read_str(b, p) {
        Some(x) => x,
        None => return None,
    };
    let (sdp_mid, r) = match read_opt_str(b, q) {
        Some(x) => x,
        None => return None,
    };
    let (sdp_m_line_index, t) = match read_opt_u16(b, r) {
        Some(x) => x,
        None => return None,
    };
    Some((IceCandidate { candidate, sdp_mid, sdp_m_line_index }, t))
}

} // verus!
