//! The service's guarantees, stated across whole operations: what one
//! submission does to the board, and what a pair of submissions from one
//! address can and cannot do.

use vstd::prelude::*;
use crate::service::{
    submit_transition, Rejection, ServiceView, SubmitRequestModel,
};
use crate::store::{owner_matches, ranked_output_ok};

verus! {

/// A valid submission for a name with no existing record claims it: the
/// outcome carries the fresh token, the board gains the record, and any
/// ranked listing of the new board lists the name with its score.
pub proof fn lemma_claim_then_listed(
    pre: ServiceView,
    post: ServiceView,
    addr: Seq<char>,
    now: u64,
    q: SubmitRequestModel,
    token: Seq<char>,
    out: Result<Seq<char>, Rejection>,
    listing: Seq<(String, u32)>,
)
    requires
        submit_transition(pre, post, addr, now, Some(q), token, out),
        pre.gates_pass(addr, now),
        q.score < pre.threshold,
        !pre.board.contains_key(q.name),
        ranked_output_ok(post.board, listing),
    ensures
        out == Ok::<Seq<char>, Rejection>(token),
        post.board.contains_key(q.name),
        post.board[q.name].score == q.score,
        post.board[q.name].owner_key == token,
        exists|i: int|
            0 <= i < listing.len() && #[trigger] listing[i].0@ == q.name && listing[i].1
                == q.score,
{
    assert(post.board.contains_key(q.name));
    let i = choose|i: int| 0 <= i < listing.len() && #[trigger] listing[i].0@ == q.name;
    assert(listing[i].1 == post.board[q.name].score);
}

/// A submission whose supplied key matches the stored owner key updates the
/// score in place and hands the same token back.
pub proof fn lemma_owner_update(
    pre: ServiceView,
    post: ServiceView,
    addr: Seq<char>,
    now: u64,
    q: SubmitRequestModel,
    token: Seq<char>,
    out: Result<Seq<char>, Rejection>,
)
    requires
        submit_transition(pre, post, addr, now, Some(q), token, out),
        pre.gates_pass(addr, now),
        q.score < pre.threshold,
        owner_matches(pre.board, q.name, q.key),
    ensures
        out == Ok::<Seq<char>, Rejection>(pre.board[q.name].owner_key),
        post.board[q.name].score == q.score,
        post.board[q.name].owner_key == pre.board[q.name].owner_key,
        post.board.dom() == pre.board.dom(),
{
    assert(post.board.dom() =~= pre.board.dom());
}

/// A submission for a taken name without the owner key is rejected as
/// `NameTaken`, and the stored record is untouched.
pub proof fn lemma_intruder_rejected(
    pre: ServiceView,
    post: ServiceView,
    addr: Seq<char>,
    now: u64,
    q: SubmitRequestModel,
    token: Seq<char>,
    out: Result<Seq<char>, Rejection>,
)
    requires
        submit_transition(pre, post, addr, now, Some(q), token, out),
        pre.gates_pass(addr, now),
        q.score < pre.threshold,
        pre.board.contains_key(q.name),
        !owner_matches(pre.board, q.name, q.key),
    ensures
        out == Err::<Seq<char>, Rejection>(Rejection::NameTaken),
        post.board == pre.board,
{
}

/// A score at or above the threshold bans the sender, and every later
/// submission from that address is refused as banned — whatever name, key or
/// timing it carries — leaving the service untouched.
pub proof fn lemma_anti_cheat_bans(
    pre: ServiceView,
    mid: ServiceView,
    post: ServiceView,
    addr: Seq<char>,
    now1: u64,
    q1: SubmitRequestModel,
    token1: Seq<char>,
    out1: Result<Seq<char>, Rejection>,
    now2: u64,
    req2: Option<SubmitRequestModel>,
    token2: Seq<char>,
    out2: Result<Seq<char>, Rejection>,
)
    requires
        submit_transition(pre, mid, addr, now1, Some(q1), token1, out1),
        pre.gates_pass(addr, now1),
        q1.score >= pre.threshold,
        submit_transition(mid, post, addr, now2, req2, token2, out2),
    ensures
        out1 == Err::<Seq<char>, Rejection>(Rejection::AntiCheat),
        out2 == Err::<Seq<char>, Rejection>(Rejection::Banned),
        post == mid,
{
}

/// Two submissions from one address within the window: when the first passes
/// the gates and does not itself ban the address, the second is refused as
/// rate-limited and changes nothing.
pub proof fn lemma_rate_limit_window(
    pre: ServiceView,
    mid: ServiceView,
    post: ServiceView,
    addr: Seq<char>,
    now1: u64,
    req1: Option<SubmitRequestModel>,
    token1: Seq<char>,
    out1: Result<Seq<char>, Rejection>,
    now2: u64,
    req2: Option<SubmitRequestModel>,
    token2: Seq<char>,
    out2: Result<Seq<char>, Rejection>,
)
    requires
        submit_transition(pre, mid, addr, now1, req1, token1, out1),
        pre.gates_pass(addr, now1),
        !mid.bans.contains(addr),
        submit_transition(mid, post, addr, now2, req2, token2, out2),
        now2 - now1 < pre.window,
    ensures
        out2 == Err::<Seq<char>, Rejection>(Rejection::RateLimited),
        post == mid,
{
    assert(mid.stamps[addr] == now1);
}

} // verus!
