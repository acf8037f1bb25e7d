use crate::account_map::AccountMap;
use crate::encoding::{identity_tag, identity_tag_bytes};
use crate::worker::bytes_eq;
use vstd::prelude::*;

verus! {

/// Identifier of a gist, as submitted with a request.
pub type GistId = [u8; 32];

/// Priority given to every admitted response.
pub const RESPONSE_PRIORITY: u64 = 1048576;

/// Number of rounds for which an admitted response stays in the pool.
pub const RESPONSE_LONGEVITY: u64 = 5;

/// A pending verification request.
#[derive(Clone, Copy, Debug, PartialEq, Eq)]
pub struct Request {
    pub account: u64,
    pub gist_id: GistId,
}

/// Proof that the admission gate accepted a response for an account with
/// this username. Only `validate_unsigned` makes one, and applying the
/// response consumes it, so no response is applied without admission.
#[derive(Debug, PartialEq, Eq)]
pub struct Admission {
    account: u64,
    username: Vec<u8>,
}

impl View for Admission {
    type V = (u64, Seq<u8>);

    closed spec fn view(&self) -> (u64, Seq<u8>) {
        (self.account, self.username@)
    }
}

impl Admission {
    pub fn account(&self) -> (r: u64)
        ensures
            r == self@.0,
    {
        self.account
    }
}

/// Who sent a call: a signed account, or nobody, for a transaction that
/// the admission gate let into the pool.
#[derive(Debug, PartialEq, Eq)]
pub enum Origin {
    Signed(u64),
    Unsigned(Admission),
}

/// The calls that the oracle dispatches.
#[derive(Debug, PartialEq, Eq)]
pub enum Call {
    /// A signed account claims the gist with this id.
    RequestVerification(GistId),
    /// The verdict on an account's request: the owner's login.
    RespondVerification(u64, Vec<u8>),
}

/// Why a dispatched call failed; the state is left as it was.
#[derive(Clone, Copy, Debug, PartialEq, Eq, Structural)]
pub enum DispatchError {
    /// The call came from the wrong kind of origin.
    BadOrigin,
    /// A response names an account that has no pending request.
    NoMatchingRequest,
}

/// Why the admission gate turned a transaction away.
#[derive(Clone, Copy, Debug, PartialEq, Eq, Structural)]
pub enum InvalidTransaction {
    /// The call is not a response.
    Call,
    /// The response names an account that has no pending request.
    Stale,
}

/// What the admission gate grants an accepted response.
#[derive(Debug, PartialEq, Eq)]
pub struct ValidTransaction {
    pub priority: u64,
    pub requires: Vec<Vec<u8>>,
    pub provides: Vec<Vec<u8>>,
    pub longevity: u64,
    pub propagate: bool,
    /// What lets the response be applied.
    pub admission: Admission,
}

/// The username that a response carries.
pub open spec fn response_username(call: Call) -> Seq<u8> {
    match call {
        Call::RespondVerification(_, u) => u@,
        _ => Seq::empty(),
    }
}

/// The state of the oracle: pending gist ids and verified usernames, each
/// by account.
pub ghost struct OracleState {
    pub requests: Map<u64, Seq<u8>>,
    pub usernames: Map<u64, Seq<u8>>,
}

impl OracleState {
    /// Inserts or overwrites the request of `a`.
    pub open spec fn submit(self, a: u64, gist: Seq<u8>) -> OracleState {
        OracleState { requests: self.requests.insert(a, gist), usernames: self.usernames }
    }

    /// Drops the request of `a`, if any.
    pub open spec fn remove_request(self, a: u64) -> OracleState {
        OracleState { requests: self.requests.remove(a), usernames: self.usernames }
    }

    /// Consumes the request of `a` and binds `a` to `username`, in one step.
    pub open spec fn apply(self, a: u64, username: Seq<u8>) -> Result<OracleState, DispatchError> {
        if self.requests.contains_key(a) {
            Ok(OracleState { requests: self.requests.remove(a), usernames: self.usernames.insert(a, username) })
        } else {
            Err(DispatchError::NoMatchingRequest)
        }
    }

    /// A signed account's claim of a gist.
    pub open spec fn request_verification(self, origin: Origin, gist: Seq<u8>) -> Result<
        OracleState,
        DispatchError,
    > {
        match origin {
            Origin::Signed(who) => Ok(self.submit(who, gist)),
            Origin::Unsigned(_) => Err(DispatchError::BadOrigin),
        }
    }

    /// An unsigned response for `a`; it needs the admission of this very
    /// response.
    pub open spec fn respond_verification(self, origin: Origin, a: u64, username: Seq<u8>) -> Result<
        OracleState,
        DispatchError,
    > {
        match origin {
            Origin::Unsigned(adm) => if adm@ == (a, username) {
                self.apply(a, username)
            } else {
                Err(DispatchError::BadOrigin)
            },
            Origin::Signed(_) => Err(DispatchError::BadOrigin),
        }
    }

    /// The effect of dispatching `call` from `origin`.
    pub open spec fn dispatch(self, origin: Origin, call: Call) -> Result<OracleState, DispatchError> {
        match call {
            Call::RequestVerification(gist) => self.request_verification(origin, gist@),
            Call::RespondVerification(a, username) => self.respond_verification(
                origin,
                a,
                username@,
            ),
        }
    }

    /// What the admission gate decides for a call: the account that an
    /// admitted response answers for, or why it is turned away.
    pub open spec fn admits(self, call: Call) -> Result<u64, InvalidTransaction> {
        match call {
            Call::RespondVerification(a, _) => if self.requests.contains_key(a) {
                Ok(a)
            } else {
                Err(InvalidTransaction::Stale)
            },
            _ => Err(InvalidTransaction::Call),
        }
    }
}

/// The oracle's consensus state: the request registry and the identity
/// bindings.
pub struct Oracle {
    requests: AccountMap<GistId>,
    usernames: AccountMap<Vec<u8>>,
}

impl View for Oracle {
    type V = OracleState;

    closed spec fn view(&self) -> OracleState {
        OracleState { requests: self.requests@, usernames: self.usernames@ }
    }
}

impl Oracle {
    pub closed spec fn wf(&self) -> bool {
        self.requests.wf() && self.usernames.wf()
    }

    pub fn new() -> (r: Oracle)
        ensures
            r.wf(),
            r@.requests == Map::<u64, Seq<u8>>::empty(),
            r@.usernames == Map::<u64, Seq<u8>>::empty(),
    {
        Oracle { requests: AccountMap::new(), usernames: AccountMap::new() }
    }

    /// Records that `who` claims the gist `gist_id`; a later claim replaces
    /// an earlier one.
    pub fn submit(&mut self, who: u64, gist_id: GistId)
        requires
            old(self).wf(),
        ensures
            final(self).wf(),
            final(self)@ == old(self)@.submit(who, gist_id@),
    {
        self.requests.insert(who, gist_id);
    }

    pub fn contains(&self, who: u64) -> (r: bool)
        requires
            self.wf(),
        ensures
            r == self@.requests.contains_key(who),
    {
        self.requests.contains(who)
    }

    /// Drops the pending request of `who`; nothing happens where there is none.
    pub fn remove(&mut self, who: u64)
        requires
            old(self).wf(),
        ensures
            final(self).wf(),
            final(self)@ == old(self)@.remove_request(who),
    {
        self.requests.remove(who);
    }

    /// The pending request of `who`.
    pub fn request(&self, who: u64) -> (r: Option<Request>)
        requires
            self.wf(),
        ensures
            match r {
                Some(q) => self@.requests.contains_key(who) && q.account == who
                    && q.gist_id@ == self@.requests[who],
                None => !self@.requests.contains_key(who),
            },
    {
        match self.requests.get(who) {
            Some(g) => Some(Request { account: who, gist_id: *g }),
            None => None,
        }
    }

    /// The verified username of `who`.
    pub fn lookup(&self, who: u64) -> (r: Option<Vec<u8>>)
        requires
            self.wf(),
        ensures
            match r {
                Some(u) => self@.usernames.contains_key(who) && u@ == self@.usernames[who],
                None => !self@.usernames.contains_key(who),
            },
    {
        match self.usernames.get(who) {
            Some(u) => Some(u.clone()),
            None => None,
        }
    }

    /// Consumes the request of `who` and binds `who` to `username`.
    fn apply(&mut self, who: u64, username: Vec<u8>) -> (r: Result<(), DispatchError>)
        requires
            old(self).wf(),
        ensures
            final(self).wf(),
            match old(self)@.apply(who, username@) {
                Ok(s) => r is Ok && final(self)@ == s,
                Err(e) => r == Err::<(), DispatchError>(e) && final(self)@ == old(self)@,
            },
    {
        if !self.requests.contains(who) {
            return Err(DispatchError::NoMatchingRequest);
        }
        self.requests.remove(who);
        self.usernames.insert(who, username);
        Ok(())
    }

    /// Handles a signed claim: `who` asks for the gist `gist_id` to be checked.
    pub fn request_verification(&mut self, origin: Origin, gist_id: GistId) -> (r: Result<
        (),
        DispatchError,
    >)
        requires
            old(self).wf(),
        ensures
            final(self).wf(),
            match old(self)@.request_verification(origin, gist_id@) {
                Ok(s) => r is Ok && final(self)@ == s,
                Err(e) => r == Err::<(), DispatchError>(e) && final(self)@ == old(self)@,
            },
    {
        match origin {
            Origin::Signed(who) => {
                self.submit(who, gist_id);
                Ok(())
            },
            Origin::Unsigned(_) => Err(DispatchError::BadOrigin),
        }
    }

    /// Handles an unsigned response: `account_id` is verified as `username`.
    pub fn respond_verification(&mut self, origin: Origin, account_id: u64, username: Vec<u8>) -> (r:
        Result<(), DispatchError>)
        requires
            old(self).wf(),
        ensures
            final(self).wf(),
            match old(self)@.respond_verification(origin, account_id, username@) {
                Ok(s) => r is Ok && final(self)@ == s,
                Err(e) => r == Err::<(), DispatchError>(e) && final(self)@ == old(self)@,
            },
    {
        match origin {
            Origin::Unsigned(adm) => {
                if adm.account == account_id && bytes_eq(&adm.username, &username) {
                    self.apply(account_id, username)
                } else {
                    Err(DispatchError::BadOrigin)
                }
            },
            Origin::Signed(_) => Err(DispatchError::BadOrigin),
        }
    }

    /// Runs a call from an origin.
    pub fn dispatch(&mut self, origin: Origin, call: Call) -> (r: Result<(), DispatchError>)
        requires
            old(self).wf(),
        ensures
            final(self).wf(),
            match old(self)@.dispatch(origin, call) {
                Ok(s) => r is Ok && final(self)@ == s,
                Err(e) => r == Err::<(), DispatchError>(e) && final(self)@ == old(self)@,
            },
    {
        match call {
            Call::RequestVerification(gist_id) => self.request_verification(origin, gist_id),
            Call::RespondVerification(account_id, username) => self.respond_verification(
                origin,
                account_id,
                username,
            ),
        }
    }

    /// The admission gate: decides whether an unsigned call may enter the
    /// transaction pool. Only a response for an account with a pending
    /// request is admitted, tagged so that one response per account can be
    /// pooled at a time, and with the `Admission` that applying it takes.
    pub fn validate_unsigned(&self, call: &Call) -> (r: Result<ValidTransaction, InvalidTransaction>)
        requires
            self.wf(),
        ensures
            match self@.admits(*call) {
                Ok(a) => r is Ok && r->Ok_0.priority == RESPONSE_PRIORITY
                    && r->Ok_0.requires@.len() == 0 && r->Ok_0.provides@.len() == 1
                    && r->Ok_0.provides@[0]@ == identity_tag_bytes(a) && r->Ok_0.longevity
                    == RESPONSE_LONGEVITY && r->Ok_0.propagate && r->Ok_0.admission@ == (
                    a,
                    response_username(*call),
                ),
                Err(e) => r is Err && r->Err_0 == e,
            },
    {
        match call {
            Call::RespondVerification(account_id, username) => {
                if !self.requests.contains(*account_id) {
                    return Err(InvalidTransaction::Stale);
                }
                let mut provides: Vec<Vec<u8>> = Vec::new();
                provides.push(identity_tag(*account_id));
                Ok(
                    ValidTransaction {
                        priority: RESPONSE_PRIORITY,
                        requires: Vec::new(),
                        provides,
                        longevity: RESPONSE_LONGEVITY,
                        propagate: true,
                        admission: Admission { account: *account_id, username: username.clone() },
                    },
                )
            },
            _ => Err(InvalidTransaction::Call),
        }
    }

    /// A snapshot of the pending requests, each account once.
    pub fn pending(&self) -> (r: Vec<Request>)
        requires
            self.wf(),
        ensures
            r@.len() == self@.requests.len(),
            forall|i: int|
                0 <= i < r@.len() ==> self@.requests.contains_key(#[trigger] r@[i].account)
                    && self@.requests[r@[i].account] == r@[i].gist_id@,
            forall|a: u64| #[trigger]
                self@.requests.contains_key(a) ==> exists|i: int|
                    0 <= i < r@.len() && #[trigger] r@[i].account == a,
            forall|i: int, j: int|
                0 <= i < r@.len() && 0 <= j < r@.len() && i != j ==> #[trigger] r@[i].account
                    != #[trigger] r@[j].account,
    {
        proof {
            self.requests.lemma_entries();
        }
        let ghost es = self.requests.entries();
        let mut out: Vec<Request> = Vec::new();
        let n = self.requests.len();
        let mut i: usize = 0;
        while i < n
            invariant
                n == es.len(),
                es == self.requests.entries(),
                i <= n,
                out@.len() == i,
                forall|j: int|
                    0 <= j < i ==> #[trigger] out@[j].account == es[j].0 && out@[j].gist_id
                        == es[j].1,
            decreases n - i,
        {
            let (a, g) = self.requests.entry(i);
            out.push(Request { account: a, gist_id: *g });
            i += 1;
        }
        proof {
            assert forall|a: u64| #[trigger] self@.requests.contains_key(a) implies exists|i: int|
                0 <= i < out@.len() && #[trigger] out@[i].account == a by {
                let k = choose|k: int| 0 <= k < es.len() && #[trigger] es[k].0 == a;
                assert(out@[k].account == a);
            }
            assert forall|i: int| 0 <= i < out@.len() implies #[trigger] self@.requests.contains_key(out@[i].account)
                && self@.requests[out@[i].account] == out@[i].gist_id@ by {
                assert(out@[i].account == es[i].0);
            }
            assert forall|i: int, j: int|
                0 <= i < out@.len() && 0 <= j < out@.len() && i != j implies #[trigger] out@[i].account
                    != #[trigger] out@[j].account by {
                assert(out@[i].account == es[i].0 && out@[j].account == es[j].0);
            }
        }
        out
    }
}

/// A response consumes its request: once applied, the request is gone, the
/// binding holds the username, and a second response for the same account
/// is neither admitted to the pool nor applied.
pub proof fn lemma_apply_consumes_request(s: OracleState, a: u64, username: Seq<u8>, again: Vec<u8>)
    requires
        s.requests.contains_key(a),
    ensures
        s.apply(a, username) is Ok,
        !s.apply(a, username)->Ok_0.requests.contains_key(a),
        s.apply(a, username)->Ok_0.usernames.contains_key(a),
        s.apply(a, username)->Ok_0.usernames[a] == username,
        s.apply(a, username)->Ok_0.apply(a, again@) == Err::<OracleState, DispatchError>(
            DispatchError::NoMatchingRequest,
        ),
        s.apply(a, username)->Ok_0.admits(Call::RespondVerification(a, again)) == Err::<
            u64,
            InvalidTransaction,
        >(InvalidTransaction::Stale),
{
}

/// Removing a request twice has the effect of removing it once.
pub proof fn lemma_remove_idempotent(s: OracleState, a: u64)
    ensures
        s.remove_request(a).remove_request(a) == s.remove_request(a),
{
    assert(s.remove_request(a).remove_request(a).requests =~= s.remove_request(a).requests);
}

/// Without a pending request, every response for the account is refused
/// admission as stale, and cannot be applied, whatever username it carries.
pub proof fn lemma_replay_rejected(s: OracleState, a: u64, username: Vec<u8>)
    requires
        !s.requests.contains_key(a),
    ensures
        s.admits(Call::RespondVerification(a, username)) == Err::<u64, InvalidTransaction>(
            InvalidTransaction::Stale,
        ),
        s.apply(a, username@) == Err::<OracleState, DispatchError>(DispatchError::NoMatchingRequest),
{
}

/// Two claims by one account leave one pending request, holding the second
/// gist id.
pub proof fn lemma_submit_overwrites(s: OracleState, a: u64, first: Seq<u8>, second: Seq<u8>)
    ensures
        s.submit(a, first).submit(a, second) == s.submit(a, second),
        s.submit(a, first).submit(a, second).requests[a] == second,
        s.submit(a, first).submit(a, second).requests.dom() == s.requests.dom().insert(a),
{
    assert(s.submit(a, first).submit(a, second).requests =~= s.submit(a, second).requests);
}

} // verus!
