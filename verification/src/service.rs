//! The leaderboard service: orchestrates the ban registry, the rate limiter
//! and the leaderboard store. Every write passes the gates in a fixed order
//! (ban check, then rate limit, then shape, then anti-cheat, then ownership)
//! and short-circuits on the first rejection; reads bypass every gate.

use vstd::prelude::*;
use crate::bans::BanRegistry;
use crate::limiter::{RateLimiter, DEFAULT_RATE_LIMIT_WINDOW_SECS};
use crate::store::{
    key_opt_view, ranked_output_ok, store_transition, LeaderboardStore, RecordModel, ScoreRecord,
    SubmitError,
};
use crate::token::fresh_token;

verus! {

/// The default score at or above which a submission is treated as certainly
/// fraudulent and the submitter banned.
pub const DEFAULT_ANTI_CHEAT_THRESHOLD: u32 = 5000;

/// Why a request was rejected; each cause has its own reason string.
#[derive(Clone, Copy, Debug, PartialEq, Eq, Structural)]
pub enum Rejection {
    Banned,
    RateLimited,
    Malformed,
    AntiCheat,
    NameTaken,
    BadAdminKey,
}

impl Rejection {
    /// The HTTP status this rejection is reported with: bad shape is the
    /// client's mistake, everything else is a policy refusal.
    pub open spec fn spec_status_code(&self) -> u16 {
        match self {
            Rejection::Malformed => 400,
            _ => 403,
        }
    }

    pub fn status_code(&self) -> (r: u16)
        ensures
            r == self.spec_status_code(),
    {
        match self {
            Rejection::Malformed => 400,
            _ => 403,
        }
    }

    /// The structured reason for this rejection.
    pub open spec fn spec_reason(&self) -> Seq<char> {
        match self {
            Rejection::Banned => "banned"@,
            Rejection::RateLimited => "rate-limited"@,
            Rejection::Malformed => "malformed"@,
            Rejection::AntiCheat => "anti-cheat"@,
            Rejection::NameTaken => "name-taken"@,
            Rejection::BadAdminKey => "bad-admin-key"@,
        }
    }

    pub fn reason(&self) -> (r: &'static str)
        ensures
            r@ == self.spec_reason(),
    {
        match self {
            Rejection::Banned => "banned",
            Rejection::RateLimited => "rate-limited",
            Rejection::Malformed => "malformed",
            Rejection::AntiCheat => "anti-cheat",
            Rejection::NameTaken => "name-taken",
            Rejection::BadAdminKey => "bad-admin-key",
        }
    }
}

/// Distinct rejection causes carry distinct reason strings, so a client can
/// branch on the cause without parsing prose.
pub proof fn lemma_reasons_distinct(a: Rejection, b: Rejection)
    requires
        a != b,
    ensures
        a.spec_reason() != b.spec_reason(),
{
    reveal_strlit("banned");
    reveal_strlit("rate-limited");
    reveal_strlit("malformed");
    reveal_strlit("anti-cheat");
    reveal_strlit("name-taken");
    reveal_strlit("bad-admin-key");
    assert("banned"@.len() == 6);
    assert("rate-limited"@.len() == 12);
    assert("malformed"@.len() == 9);
    assert("anti-cheat"@.len() == 10);
    assert("name-taken"@.len() == 10);
    assert("bad-admin-key"@.len() == 13);
    assert("anti-cheat"@[0] == 'a');
    assert("name-taken"@[0] == 'n');
}

/// A submission as the client states it: a player name, a score, and the
/// ownership key when the client claims to own the name already.
pub struct SubmitRequest {
    pub name: String,
    pub score: u32,
    pub key: Option<String>,
}

/// The mathematical image of a `SubmitRequest`.
pub struct SubmitRequestModel {
    pub name: Seq<char>,
    pub score: u32,
    pub key: Option<Seq<char>>,
}

impl View for SubmitRequest {
    type V = SubmitRequestModel;

    open spec fn view(&self) -> SubmitRequestModel {
        SubmitRequestModel { name: self.name@, score: self.score, key: key_opt_view(self.key) }
    }
}

/// The view of a parsed request body; `None` stands for a body that did not
/// parse into the expected shape.
pub open spec fn req_opt_view(r: Option<SubmitRequest>) -> Option<SubmitRequestModel> {
    match r {
        Some(q) => Some(q@),
        None => None,
    }
}

/// An administrative ban request: the address to ban and the admin key.
pub struct BanRequest {
    pub ip: String,
    pub key: String,
}

/// The mathematical image of a `BanRequest`.
pub struct BanRequestModel {
    pub ip: Seq<char>,
    pub key: Seq<char>,
}

impl View for BanRequest {
    type V = BanRequestModel;

    open spec fn view(&self) -> BanRequestModel {
        BanRequestModel { ip: self.ip@, key: self.key@ }
    }
}

pub open spec fn ban_opt_view(r: Option<BanRequest>) -> Option<BanRequestModel> {
    match r {
        Some(q) => Some(q@),
        None => None,
    }
}

/// The view of a submission outcome.
pub open spec fn submit_outcome_view(r: Result<String, Rejection>) -> Result<Seq<char>, Rejection> {
    match r {
        Ok(s) => Ok(s@),
        Err(e) => Err(e),
    }
}

/// The token a successful claim handed out, read off the outcome; on any
/// other outcome the token is never spoken of.
pub open spec fn claimed_token(r: Result<String, Rejection>) -> Seq<char> {
    match r {
        Ok(k) => k@,
        Err(_) => Seq::empty(),
    }
}

/// The whole service state, mathematically.
pub struct ServiceView {
    pub board: Map<Seq<char>, RecordModel>,
    pub bans: Set<Seq<char>>,
    pub stamps: Map<Seq<char>, u64>,
    pub admin_key: Seq<char>,
    pub threshold: u32,
    pub window: u64,
}

impl ServiceView {
    /// An attempt from `addr` at `now` comes too soon after its last one.
    pub open spec fn limited(&self, addr: Seq<char>, now: u64) -> bool {
        self.stamps.contains_key(addr) && now - self.stamps[addr] < self.window
    }

    /// Neither the ban check nor the rate limit rejects this write.
    pub open spec fn gates_pass(&self, addr: Seq<char>, now: u64) -> bool {
        !self.bans.contains(addr) && !self.limited(addr, now)
    }
}

/// How one submission takes the service from `pre` to `post`. The gates fire
/// in order: a banned address is refused as it stands; a rate-limited one is
/// refused without resetting its timer; past the gates the attempt is
/// stamped, so the rejections below still count against the window; a
/// malformed body is refused; an implausible score bans the sender; and only
/// then does the store's ownership protocol decide.
pub open spec fn submit_transition(
    pre: ServiceView,
    post: ServiceView,
    addr: Seq<char>,
    now: u64,
    req: Option<SubmitRequestModel>,
    token: Seq<char>,
    out: Result<Seq<char>, Rejection>,
) -> bool {
    &&& post.admin_key == pre.admin_key
    &&& post.threshold == pre.threshold
    &&& post.window == pre.window
    &&& if pre.bans.contains(addr) {
        &&& out == Err::<Seq<char>, Rejection>(Rejection::Banned)
        &&& post == pre
    } else if pre.limited(addr, now) {
        &&& out == Err::<Seq<char>, Rejection>(Rejection::RateLimited)
        &&& post == pre
    } else {
        &&& post.stamps == pre.stamps.insert(addr, now)
        &&& match req {
            None => {
                &&& out == Err::<Seq<char>, Rejection>(Rejection::Malformed)
                &&& post.board == pre.board
                &&& post.bans == pre.bans
            },
            Some(q) => {
                if q.score >= pre.threshold {
                    &&& out == Err::<Seq<char>, Rejection>(Rejection::AntiCheat)
                    &&& post.bans == pre.bans.insert(addr)
                    &&& post.board == pre.board
                } else {
                    &&& post.bans == pre.bans
                    &&& match out {
                        Ok(k) => store_transition(
                            pre.board,
                            post.board,
                            q.name,
                            q.score,
                            q.key,
                            addr,
                            token,
                            Ok(k),
                        ),
                        Err(e) => {
                            &&& e == Rejection::NameTaken
                            &&& store_transition(
                                pre.board,
                                post.board,
                                q.name,
                                q.score,
                                q.key,
                                addr,
                                token,
                                Err(SubmitError::NameTaken),
                            )
                        },
                    }
                }
            },
        }
    }
}

/// How an administrative ban takes the service from `pre` to `post`: only an
/// exact admin key registers the address, and nothing else ever changes.
pub open spec fn admin_ban_transition(
    pre: ServiceView,
    post: ServiceView,
    req: Option<BanRequestModel>,
    out: Result<(), Rejection>,
) -> bool {
    &&& post.board == pre.board
    &&& post.stamps == pre.stamps
    &&& post.admin_key == pre.admin_key
    &&& post.threshold == pre.threshold
    &&& post.window == pre.window
    &&& match req {
        None => {
            &&& out == Err::<(), Rejection>(Rejection::Malformed)
            &&& post.bans == pre.bans
        },
        Some(q) => {
            if q.key == pre.admin_key {
                &&& out == Ok::<(), Rejection>(())
                &&& post.bans == pre.bans.insert(q.ip)
            } else {
                &&& out == Err::<(), Rejection>(Rejection::BadAdminKey)
                &&& post.bans == pre.bans
            }
        },
    }
}

/// A fresh admin key for a process start: random, 36 characters of text.
pub fn generate_admin_key() -> (r: String)
    ensures
        r@.len() == 36,
{
    fresh_token()
}

pub struct LeaderboardService {
    board: LeaderboardStore,
    bans: BanRegistry,
    limiter: RateLimiter,
    admin_key: String,
    threshold: u32,
}

impl LeaderboardService {
    pub closed spec fn inv(&self) -> bool {
        self.board.inv() && self.limiter.inv()
    }

    /// A service with the given policy: scores at or above `threshold` ban
    /// the sender, and writes from one address must be `window` seconds apart.
    pub fn with_policy(admin_key: String, threshold: u32, window: u64) -> (r: Self)
        ensures
            r.inv(),
            r@ == (ServiceView {
                board: Map::<Seq<char>, RecordModel>::empty(),
                bans: Set::<Seq<char>>::empty(),
                stamps: Map::<Seq<char>, u64>::empty(),
                admin_key: admin_key@,
                threshold,
                window,
            }),
    {
        LeaderboardService {
            board: LeaderboardStore::new(),
            bans: BanRegistry::new(),
            limiter: RateLimiter::new(window),
            admin_key,
            threshold,
        }
    }

    /// A service with the default policy.
    pub fn new(admin_key: String) -> (r: Self)
        ensures
            r.inv(),
            r@ == (ServiceView {
                board: Map::<Seq<char>, RecordModel>::empty(),
                bans: Set::<Seq<char>>::empty(),
                stamps: Map::<Seq<char>, u64>::empty(),
                admin_key: admin_key@,
                threshold: DEFAULT_ANTI_CHEAT_THRESHOLD,
                window: DEFAULT_RATE_LIMIT_WINDOW_SECS,
            }),
    {
        Self::with_policy(admin_key, DEFAULT_ANTI_CHEAT_THRESHOLD, DEFAULT_RATE_LIMIT_WINDOW_SECS)
    }

    /// Puts a stored record back in place, as when reloading persisted state
    /// at process start.
    pub fn load_record(&mut self, name: String, score: u32, owner_key: String, addr: String)
        requires
            old(self).inv(),
        ensures
            final(self).inv(),
            final(self)@ == (ServiceView {
                board: old(self)@.board.insert(
                    name@,
                    RecordModel {
                        score,
                        owner_key: owner_key@,
                        submitter_address: addr@,
                    },
                ),
                ..old(self)@
            }),
    {
        self.board.load_record(
            name,
            ScoreRecord { score, owner_key, submitter_address: addr },
        );
    }

    /// Puts a persisted ban back in place, as when reloading at process start.
    pub fn load_ban(&mut self, addr: String)
        requires
            old(self).inv(),
        ensures
            final(self).inv(),
            final(self)@ == (ServiceView { bans: old(self)@.bans.insert(addr@), ..old(self)@ }),
    {
        self.bans.ban(addr);
    }

    /// Every record as `(name, score)`, sorted by score descending. Reads
    /// pass no gate and never fail.
    pub fn list_ranked(&self) -> (r: Vec<(String, u32)>)
        requires
            self.inv(),
        ensures
            ranked_output_ok(self@.board, r@),
    {
        self.board.ranked()
    }

    /// One submission, with the claiming token supplied by the caller; every
    /// gate and the ownership protocol are decided here.
    pub fn submit_with_token(
        &mut self,
        addr: String,
        now: u64,
        req: Option<SubmitRequest>,
        token: String,
    ) -> (r: Result<String, Rejection>)
        requires
            old(self).inv(),
        ensures
            final(self).inv(),
            submit_transition(
                old(self)@,
                final(self)@,
                addr@,
                now,
                req_opt_view(req),
                token@,
                submit_outcome_view(r),
            ),
    {
        if self.bans.is_banned(&addr) {
            return Err(Rejection::Banned);
        }
        if !self.limiter.allow(addr.clone(), now) {
            return Err(Rejection::RateLimited);
        }
        let q = match req {
            Some(q) => q,
            None => {
                return Err(Rejection::Malformed);
            },
        };
        if q.score >= self.threshold {
            self.bans.ban(addr);
            return Err(Rejection::AntiCheat);
        }
        match self.board.submit(q.name, q.score, q.key, addr, token) {
            Ok(k) => Ok(k),
            Err(SubmitError::NameTaken) => Err(Rejection::NameTaken),
        }
    }

    /// One submission; a claim of a free name hands out a freshly generated
    /// token, which the outcome carries.
    pub fn submit(&mut self, addr: String, now: u64, req: Option<SubmitRequest>) -> (r: Result<
        String,
        Rejection,
    >)
        requires
            old(self).inv(),
        ensures
            final(self).inv(),
            submit_transition(
                old(self)@,
                final(self)@,
                addr@,
                now,
                req_opt_view(req),
                claimed_token(r),
                submit_outcome_view(r),
            ),
    {
        let token = fresh_token();
        self.submit_with_token(addr, now, req, token)
    }

    /// An administrative ban: registers the address only under the exact
    /// admin key.
    pub fn admin_ban(&mut self, req: Option<BanRequest>) -> (r: Result<(), Rejection>)
        requires
            old(self).inv(),
        ensures
            final(self).inv(),
            admin_ban_transition(old(self)@, final(self)@, ban_opt_view(req), r),
    {
        let q = match req {
            Some(q) => q,
            None => {
                return Err(Rejection::Malformed);
            },
        };
        if q.key == self.admin_key {
            self.bans.ban(q.ip);
            Ok(())
        } else {
            Err(Rejection::BadAdminKey)
        }
    }
}

impl View for LeaderboardService {
    type V = ServiceView;

    closed spec fn view(&self) -> ServiceView {
        ServiceView {
            board: self.board@,
            bans: self.bans@,
            stamps: self.limiter@,
            admin_key: self.admin_key@,
            threshold: self.threshold,
            window: self.limiter.spec_window(),
        }
    }
}

} // verus!
