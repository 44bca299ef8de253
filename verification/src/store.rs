//! The leaderboard store: a mapping from player name to score record that
//! enforces the ownership-key protocol, and a ranked listing of its records
//! sorted by score descending.

use vstd::prelude::*;
use vstd::seq_lib::group_to_multiset_ensures;
use crate::kvlist::KvList;

verus! {

/// A stored record: the score, the bearer token that alone authorizes
/// overwriting the record, and the address it was last submitted from.
pub struct ScoreRecord {
    pub score: u32,
    pub owner_key: String,
    pub submitter_address: String,
}

/// The mathematical image of a `ScoreRecord`.
pub struct RecordModel {
    pub score: u32,
    pub owner_key: Seq<char>,
    pub submitter_address: Seq<char>,
}

impl View for ScoreRecord {
    type V = RecordModel;

    open spec fn view(&self) -> RecordModel {
        RecordModel {
            score: self.score,
            owner_key: self.owner_key@,
            submitter_address: self.submitter_address@,
        }
    }
}

#[derive(Clone, Copy, Debug, PartialEq, Eq, Structural)]
pub enum SubmitError {
    NameTaken,
}

/// The supplied key, if any, equals the stored owner key for `name`.
pub open spec fn owner_matches(
    board: Map<Seq<char>, RecordModel>,
    name: Seq<char>,
    supplied: Option<Seq<char>>,
) -> bool {
    board.contains_key(name) && supplied == Some(board[name].owner_key)
}

/// How one submission takes the board from `pre` to `post`: a free name is
/// claimed under `fresh`, a matching key updates the record in place and is
/// returned unchanged, and anything else is rejected without a change.
pub open spec fn store_transition(
    pre: Map<Seq<char>, RecordModel>,
    post: Map<Seq<char>, RecordModel>,
    name: Seq<char>,
    score: u32,
    supplied: Option<Seq<char>>,
    addr: Seq<char>,
    fresh: Seq<char>,
    out: Result<Seq<char>, SubmitError>,
) -> bool {
    if !pre.contains_key(name) {
        &&& out == Ok::<Seq<char>, SubmitError>(fresh)
        &&& post == pre.insert(
            name,
            RecordModel { score, owner_key: fresh, submitter_address: addr },
        )
    } else if supplied == Some(pre[name].owner_key) {
        &&& out == Ok::<Seq<char>, SubmitError>(pre[name].owner_key)
        &&& post == pre.insert(
            name,
            RecordModel { score, owner_key: pre[name].owner_key, submitter_address: addr },
        )
    } else {
        &&& out == Err::<Seq<char>, SubmitError>(SubmitError::NameTaken)
        &&& post == pre
    }
}

/// The view of an optional key.
pub open spec fn key_opt_view(o: Option<String>) -> Option<Seq<char>> {
    match o {
        Some(s) => Some(s@),
        None => None,
    }
}

/// The view of a submission result.
pub open spec fn submit_result_view(r: Result<String, SubmitError>) -> Result<
    Seq<char>,
    SubmitError,
> {
    match r {
        Ok(s) => Ok(s@),
        Err(e) => Err(e),
    }
}

/// `r` ranks the board `m`: sorted by score descending, every listed pair is
/// a record of `m`, no name is listed twice, and every name of `m` is listed.
pub open spec fn ranked_output_ok(m: Map<Seq<char>, RecordModel>, r: Seq<(String, u32)>) -> bool {
    &&& forall|i: int, j: int| 0 <= i < j < r.len() ==> #[trigger] r[i].1 >= #[trigger] r[j].1
    &&& forall|i: int|
        0 <= i < r.len() ==> m.contains_key(#[trigger] r[i].0@) && m[r[i].0@].score == r[i].1
    &&& forall|i: int, j: int|
        0 <= i < r.len() && 0 <= j < r.len() && i != j ==> #[trigger] r[i].0@ != #[trigger] r[j].0@
    &&& forall|n: Seq<char>|
        #[trigger] m.contains_key(n) ==> exists|i: int| 0 <= i < r.len() && #[trigger] r[i].0@ == n
}

pub struct LeaderboardStore {
    records: KvList<ScoreRecord>,
}

impl LeaderboardStore {
    pub closed spec fn inv(&self) -> bool {
        self.records.wf()
    }

    pub fn new() -> (r: Self)
        ensures
            r.inv(),
            r@ == Map::<Seq<char>, RecordModel>::empty(),
    {
        LeaderboardStore { records: KvList::new() }
    }

    /// Puts a record in place, overwriting any prior record for the name.
    pub fn load_record(&mut self, name: String, record: ScoreRecord)
        requires
            old(self).inv(),
        ensures
            final(self).inv(),
            final(self)@ == old(self)@.insert(name@, record@),
    {
        self.records.insert(name, record);
    }

    /// The submit protocol: claim a free name under `fresh_key`, update an
    /// owned record in place, or reject the submission without a change.
    pub fn submit(
        &mut self,
        name: String,
        score: u32,
        supplied_key: Option<String>,
        addr: String,
        fresh_key: String,
    ) -> (r: Result<String, SubmitError>)
        requires
            old(self).inv(),
        ensures
            final(self).inv(),
            store_transition(
                old(self)@,
                final(self)@,
                name@,
                score,
                key_opt_view(supplied_key),
                addr@,
                fresh_key@,
                submit_result_view(r),
            ),
    {
        let existing_key: Option<String> = match self.records.get(&name) {
            Some(rec) => Some(rec.owner_key.clone()),
            None => None,
        };
        match existing_key {
            None => {
                let record = ScoreRecord {
                    score,
                    owner_key: fresh_key.clone(),
                    submitter_address: addr,
                };
                self.records.insert(name, record);
                Ok(fresh_key)
            },
            Some(owner) => {
                let key_matches = match &supplied_key {
                    Some(k) => *k == owner,
                    None => false,
                };
                if key_matches {
                    let record = ScoreRecord {
                        score,
                        owner_key: owner.clone(),
                        submitter_address: addr,
                    };
                    self.records.insert(name, record);
                    Ok(owner)
                } else {
                    Err(SubmitError::NameTaken)
                }
            },
        }
    }

    /// Every record, as `(name, score)` pairs sorted by score descending;
    /// records with equal scores may come in either order.
    pub fn ranked(&self) -> (r: Vec<(String, u32)>)
        requires
            self.inv(),
        ensures
            ranked_output_ok(self@, r@),
    {
        let n = self.records.len();
        let mut src: Vec<(String, u32)> = Vec::new();
        let mut i: usize = 0;
        while i < n
            invariant
                n == self.records.entries().len(),
                src@.len() == i,
                i <= n,
                forall|j: int|
                    0 <= j < i ==> #[trigger] src@[j].0 == self.records.entries()[j].0
                        && src@[j].1 == self.records.entries()[j].1.score,
            decreases n - i,
        {
            let name = self.records.key_ref(i).clone();
            let score = self.records.value_ref(i).score;
            src.push((name, score));
            i += 1;
        }
        let ghost orig = src@;
        proof {
            self.lemma_pairs_describe_board(orig);
        }
        let mut out: Vec<(String, u32)> = Vec::new();
        proof {
            broadcast use group_to_multiset_ensures;
            broadcast use vstd::multiset::group_multiset_axioms;

            assert(out@.to_multiset().len() == 0);
            assert(out@.to_multiset().add(src@.to_multiset()) =~= orig.to_multiset());
        }
        while src.len() > 0
            invariant
                out@.to_multiset().add(src@.to_multiset()) == orig.to_multiset(),
                forall|a: int, b: int|
                    0 <= a < b < out@.len() ==> #[trigger] out@[a].1 >= #[trigger] out@[b].1,
                forall|a: int, b: int|
                    0 <= a < out@.len() && 0 <= b < src@.len() ==> #[trigger] out@[a].1
                        >= #[trigger] src@[b].1,
            decreases src.len(),
        {
            let mut best: usize = 0;
            let mut m: usize = 1;
            while m < src.len()
                invariant
                    src@.len() > 0,
                    best < m,
                    m <= src@.len(),
                    forall|t: int| 0 <= t < m ==> src@[best as int].1 >= #[trigger] src@[t].1,
                decreases src.len() - m,
            {
                if src[m].1 > src[best].1 {
                    best = m;
                }
                m += 1;
            }
            let ghost pre_src = src@;
            let ghost pre_out = out@;
            let x = src.remove(best);
            out.push(x);
            proof {
                broadcast use group_to_multiset_ensures;
                broadcast use vstd::multiset::group_multiset_axioms;

                assert(pre_src.contains(pre_src[best as int]));
                assert(pre_src.to_multiset().count(x) > 0);
                assert(out@ == pre_out.push(x));
                assert(pre_out.push(x).to_multiset() =~= pre_out.to_multiset().insert(x));
                assert(src@ == pre_src.remove(best as int));
                assert(pre_src.remove(best as int).to_multiset() =~= pre_src.to_multiset().remove(
                    x,
                ));
                assert(out@.to_multiset().add(src@.to_multiset()) =~= orig.to_multiset());
                assert forall|a: int, b: int|
                    0 <= a < out@.len() && 0 <= b < src@.len() implies #[trigger] out@[a].1
                    >= #[trigger] src@[b].1 by {
                    if b < best {
                        assert(src@[b] == pre_src[b]);
                    } else {
                        assert(src@[b] == pre_src[b + 1]);
                    }
                    if a < pre_out.len() {
                        assert(out@[a] == pre_out[a]);
                    } else {
                        assert(out@[a] == x);
                    }
                }
            }
        }
        proof {
            broadcast use group_to_multiset_ensures;
            broadcast use vstd::multiset::group_multiset_axioms;

            assert(src@.to_multiset().len() == 0);
            assert(out@.to_multiset() =~= orig.to_multiset());
            self.lemma_sorted_pairs_rank(orig, out@);
        }
        out
    }

    /// The extracted pairs describe the board: pair `j` carries the name and
    /// score of entry `j`.
    proof fn lemma_pairs_describe_board(&self, pairs: Seq<(String, u32)>)
        requires
            self.inv(),
            pairs.len() == self.records.entries().len(),
            forall|j: int|
                0 <= j < pairs.len() ==> #[trigger] pairs[j].0 == self.records.entries()[j].0
                    && pairs[j].1 == self.records.entries()[j].1.score,
        ensures
            pairs.no_duplicates(),
            forall|j: int|
                0 <= j < pairs.len() ==> self@.contains_key(#[trigger] pairs[j].0@)
                    && self@[pairs[j].0@].score == pairs[j].1,
            forall|nm: Seq<char>|
                #[trigger] self@.contains_key(nm) ==> exists|j: int|
                    0 <= j < pairs.len() && #[trigger] pairs[j].0@ == nm,
            forall|a: int, b: int|
                0 <= a < pairs.len() && 0 <= b < pairs.len() && a != b
                    ==> #[trigger] pairs[a].0@ != #[trigger] pairs[b].0@,
    {
        assert forall|a: int, b: int|
            0 <= a < pairs.len() && 0 <= b < pairs.len() && a != b implies #[trigger] pairs[a].0@
            != #[trigger] pairs[b].0@ by {
            assert(self.records.key_at(a) != self.records.key_at(b));
        }
        assert forall|a: int, b: int|
            0 <= a < pairs.len() && 0 <= b < pairs.len() && a != b implies pairs[a] != pairs[b] by {
            assert(pairs[a].0@ != pairs[b].0@);
        }
        assert(pairs.no_duplicates());
        assert forall|j: int|
            0 <= j < pairs.len() implies self@.contains_key(#[trigger] pairs[j].0@)
            && self@[pairs[j].0@].score == pairs[j].1 by {
            self.records.lemma_entry_in_view(j);
        }
        assert forall|nm: Seq<char>| #[trigger] self@.contains_key(nm) implies exists|j: int|
            0 <= j < pairs.len() && #[trigger] pairs[j].0@ == nm by {
            self.records.lemma_view_dom(nm);
            let j = choose|j: int|
                0 <= j < self.records.entries().len() && self.records.key_at(j) == nm;
            assert(pairs[j].0@ == nm);
        }
    }

    /// A sorted permutation of pairs that describe the board ranks the board.
    proof fn lemma_sorted_pairs_rank(&self, pairs: Seq<(String, u32)>, out: Seq<(String, u32)>)
        requires
            self.inv(),
            pairs.no_duplicates(),
            forall|j: int|
                0 <= j < pairs.len() ==> self@.contains_key(#[trigger] pairs[j].0@)
                    && self@[pairs[j].0@].score == pairs[j].1,
            forall|nm: Seq<char>|
                #[trigger] self@.contains_key(nm) ==> exists|j: int|
                    0 <= j < pairs.len() && #[trigger] pairs[j].0@ == nm,
            forall|a: int, b: int|
                0 <= a < pairs.len() && 0 <= b < pairs.len() && a != b
                    ==> #[trigger] pairs[a].0@ != #[trigger] pairs[b].0@,
            out.to_multiset() == pairs.to_multiset(),
            forall|a: int, b: int| 0 <= a < b < out.len() ==> #[trigger] out[a].1 >= #[trigger] out[b].1,
        ensures
            ranked_output_ok(self@, out),
    {
        broadcast use group_to_multiset_ensures;

        pairs.lemma_multiset_has_no_duplicates();
        out.lemma_multiset_has_no_duplicates_conv();
        assert forall|i: int|
            0 <= i < out.len() implies self@.contains_key(#[trigger] out[i].0@)
            && self@[out[i].0@].score == out[i].1 by {
            assert(out.contains(out[i]));
            assert(pairs.to_multiset().count(out[i]) > 0);
            assert(pairs.contains(out[i]));
            let j = choose|j: int| 0 <= j < pairs.len() && pairs[j] == out[i];
            assert(pairs[j].0@ == out[i].0@);
        }
        assert forall|nm: Seq<char>| #[trigger] self@.contains_key(nm) implies exists|i: int|
            0 <= i < out.len() && #[trigger] out[i].0@ == nm by {
            let j = choose|j: int| 0 <= j < pairs.len() && #[trigger] pairs[j].0@ == nm;
            assert(pairs.contains(pairs[j]));
            assert(out.to_multiset().count(pairs[j]) > 0);
            assert(out.contains(pairs[j]));
            let i = choose|i: int| 0 <= i < out.len() && out[i] == pairs[j];
            assert(out[i].0@ == nm);
        }
        assert forall|i: int, j: int|
            0 <= i < out.len() && 0 <= j < out.len() && i != j implies #[trigger] out[i].0@
            != #[trigger] out[j].0@ by {
            if out[i].0@ == out[j].0@ {
                assert(out.contains(out[i]));
                assert(out.contains(out[j]));
                assert(pairs.to_multiset().count(out[i]) > 0);
                assert(pairs.to_multiset().count(out[j]) > 0);
                assert(pairs.contains(out[i]));
                assert(pairs.contains(out[j]));
                let a = choose|a: int| 0 <= a < pairs.len() && pairs[a] == out[i];
                let b = choose|b: int| 0 <= b < pairs.len() && pairs[b] == out[j];
                assert(pairs[a].0@ == pairs[b].0@);
                assert(a == b);
                assert(out[i] == out[j]);
                assert(out.no_duplicates());
            }
        }
    }
}

impl View for LeaderboardStore {
    type V = Map<Seq<char>, RecordModel>;

    closed spec fn view(&self) -> Map<Seq<char>, RecordModel> {
        self.records@
    }
}

} // verus!
