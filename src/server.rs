//! The signaling server's decisions, one module per topology.
//!
//! Each server holds the connection registry and the session table of its
//! topology. For every message that a user sends it decides how the sessions
//! change and which messages go out to whom; the caller delivers them
//! through the sinks of the registry.
use vstd::prelude::*;

use crate::ids::UserId;

pub mod many_to_many;
pub mod one_to_many;
pub mod one_to_one;

verus! {

/// Why a message was dropped without an answer; the caller logs it.
#[derive(Debug, Clone, Copy, PartialEq, Eq, Structural)]
pub enum Dropped {
    /// The frame holds no message.
    Malformed,
    /// The message is to be relayed within a session that does not exist.
    UnknownSession,
}

/// Sent to a user that joins a session it is already in.
pub const ALREADY_JOINED: &'static str = "already a member of this session";

/// Sent to a third user that joins a one-to-one session.
pub const SESSION_FULL: &'static str = "session is full";

/// Sent to a user that claims the host role of a session that has a host.
pub const HOST_PRESENT: &'static str = "host already present";

/// Sent to a user that writes to a one-to-one session it is not in.
pub const NOT_MEMBER: &'static str = "sender is not a member of this session";

/// Sent to a user that writes to someone who is not in the session.
pub const RECIPIENT_NOT_MEMBER: &'static str = "recipient is not a member of this session";

/// Whether `u` is among `users`.
pub fn has_user(users: &Vec<UserId>, u: UserId) -> (r: bool)
    ensures
        r == users@.contains(u),
{
    let mut i: usize = 0;
    while i < users.len()
        invariant
            i <= users@.len(),
            forall|j: int| 0 <= j < i ==> users@[j] != u,
        decreases users@.len() - i,
    {
        if users[i].0 == u.0 {
            assert(users@[i as int] == u);
            return true;
        }
        i = i + 1;
    }
    false
}

/// Holds of every user but `u`.
pub open spec fn not_user(u: UserId) -> spec_fn(UserId) -> bool {
    |x: UserId| x.0 != u.0
}

/// `users` without `u`, in the same order.
pub fn without_user(users: &Vec<UserId>, u: UserId) -> (r: Vec<UserId>)
    ensures
        r@ == users@.filter(not_user(u)),
{
    let mut r: Vec<UserId> = Vec::new();
    let mut i: usize = 0;
    proof {
        reveal(Seq::filter);
        assert(users@.subrange(0, 0).filter(not_user(u)) =~= Seq::<UserId>::empty());
    }
    while i < users.len()
        invariant
            i <= users@.len(),
            r@ == users@.subrange(0, i as int).filter(not_user(u)),
        decreases users@.len() - i,
    {
        let x = users[i];
        let ghost prev = users@.subrange(0, i as int);
        let ghost next = users@.subrange(0, i + 1);
        let ghost r0 = r@;
        proof {
            reveal(Seq::filter);
            assert(next.drop_last() =~= prev);
            assert(next.last() == x);
            assert(not_user(u)(x) == (x.0 != u.0));
            assert(next.filter(not_user(u)) == if not_user(u)(x) {
                prev.filter(not_user(u)).push(x)
            } else {
                prev.filter(not_user(u))
            });
        }
        if x.0 != u.0 {
            r.push(x);
            assert(r@ == r0.push(x));
        }
        assert(r@ == next.filter(not_user(u)));
        i = i + 1;
    }
    assert(users@.subrange(0, users@.len() as int) =~= users@);
    r
}

/// Filtering keeps a sequence free of repeats.
pub proof fn lemma_filter_no_duplicates(s: Seq<UserId>, pred: spec_fn(UserId) -> bool)
    requires
        s.no_duplicates(),
    ensures
        s.filter(pred).no_duplicates(),
        forall|x: UserId| #[trigger] s.filter(pred).contains(x) <==> s.contains(x) && pred(x),
    decreases s.len(),
{
    reveal(Seq::filter);
    if s.len() > 0 {
        let d = s.drop_last();
        assert(d.no_duplicates());
        lemma_filter_no_duplicates(d, pred);
        let f = d.filter(pred);
        assert forall|x: UserId| s.contains(x) implies d.contains(x) || x == s.last() by {
            let i = choose|i: int| 0 <= i < s.len() && s[i] == x;
            if i < s.len() - 1 {
                assert(d[i] == x);
            }
        }
        assert forall|x: UserId| d.contains(x) implies s.contains(x) by {
            let i = choose|i: int| 0 <= i < d.len() && d[i] == x;
            assert(s[i] == x);
        }
        assert(!d.contains(s.last())) by {
            if d.contains(s.last()) {
                let i = choose|i: int| 0 <= i < d.len() && d[i] == s.last();
                assert(s[i] == s[s.len() - 1]);
            }
        }
        if pred(s.last()) {
            let g = f.push(s.last());
            assert forall|x: UserId| g.contains(x) <==> f.contains(x) || x == s.last() by {
                if g.contains(x) && x != s.last() {
                    let i = choose|i: int| 0 <= i < g.len() && g[i] == x;
                    assert(f[i] == x);
                }
                if f.contains(x) {
                    let i = choose|i: int| 0 <= i < f.len() && f[i] == x;
                    assert(g[i] == x);
                }
                if x == s.last() {
                    assert(g[g.len() - 1] == x);
                }
            }
            assert forall|i: int, j: int| 0 <= i < g.len() && 0 <= j < g.len() && i != j implies g[i] != g[j] by {
                if i < f.len() && j < f.len() {
                    assert(g[i] == f[i] && g[j] == f[j]);
                } else if i < f.len() {
                    assert(f.contains(g[i]));
                } else {
                    assert(f.contains(g[j]));
                }
            }
        }
    }
}

} // verus!
