//! The decisions of single-flight re-authorization.
//!
//! Callers that find their credential rejected ask for a refresh, naming the
//! generation of the credential they used. Only the first such caller logs in;
//! callers that arrive while that login runs wait for it, and callers whose
//! generation is already stale reuse the newer credential. The locking and the
//! login call itself belong to the caller; this type holds the state they guard.

use vstd::prelude::*;

verus! {

/// What a caller asking for a refresh must do.
#[derive(Copy, Clone, Debug, PartialEq, Eq, Structural)]
pub enum RefreshStep {
    /// Log in, then hand the outcome to [`AuthorizationManager::finish_refresh`].
    Login,
    /// Another caller is logging in: wait until it is done, then re-read.
    Wait,
    /// A refresh finished after this caller read its credential: re-read.
    Reuse,
}

/// Abstract state: the credential's generation, whether a login is running,
/// and whether the last login that ended failed.
pub struct AuthState {
    pub generation: int,
    pub in_flight: bool,
    pub failed: bool,
}

/// What happens on a refresh request from a caller that used generation `observed`.
pub open spec fn begin_step(s: AuthState, observed: int) -> (RefreshStep, AuthState) {
    if s.in_flight {
        (RefreshStep::Wait, s)
    } else if s.generation != observed {
        (RefreshStep::Reuse, s)
    } else {
        (RefreshStep::Login, AuthState { in_flight: true, ..s })
    }
}

/// The end of a running login starts a new generation, successful (`ok`) or
/// not, and records whether it failed.
pub open spec fn finish_step(s: AuthState, ok: bool) -> AuthState {
    if s.in_flight {
        AuthState { generation: s.generation + 1, in_flight: false, failed: !ok }
    } else {
        s
    }
}

/// An event seen by the manager: a refresh request naming the generation that
/// its caller used, or the end of the running login with its outcome.
pub enum AuthEvent {
    Begin { observed: int },
    Finish { ok: bool },
}

/// The state after `events`, and how many callers were told to log in.
pub open spec fn run(s: AuthState, events: Seq<AuthEvent>) -> (AuthState, nat)
    decreases events.len(),
{
    if events.len() == 0 {
        (s, 0)
    } else {
        let (t, n) = run(s, events.drop_last());
        match events.last() {
            AuthEvent::Begin { observed } => {
                let (step, u) = begin_step(t, observed);
                (u, if step == RefreshStep::Login {
                    n + 1
                } else {
                    n
                })
            },
            AuthEvent::Finish { ok } => (finish_step(t, ok), n),
        }
    }
}

pub open spec fn has_begin(events: Seq<AuthEvent>) -> bool {
    exists|i: int| 0 <= i < events.len() && #[trigger] events[i] is Begin
}

/// Holds the credential, its generation, whether a login is running, and
/// whether the last login failed.
pub struct AuthorizationManager {
    credential: Option<String>,
    generation: u64,
    in_flight: bool,
    failed: bool,
}

impl AuthorizationManager {
    pub closed spec fn state(&self) -> AuthState {
        AuthState {
            generation: self.generation as int,
            in_flight: self.in_flight,
            failed: self.failed,
        }
    }

    pub closed spec fn spec_credential(&self) -> Option<Seq<char>> {
        match &self.credential {
            Some(c) => Some(c@),
            None => None,
        }
    }

    pub fn new(credential: Option<String>) -> (r: AuthorizationManager)
        ensures
            r.state() == (AuthState { generation: 0, in_flight: false, failed: false }),
            r.spec_credential() == (match credential {
                Some(c) => Some(c@),
                None => None,
            }),
    {
        AuthorizationManager { credential, generation: 0, in_flight: false, failed: false }
    }

    /// The generation of the current credential.
    pub fn generation(&self) -> (r: u64)
        ensures
            r == self.state().generation,
    {
        self.generation
    }

    /// Whether a login is running.
    pub fn is_refreshing(&self) -> (r: bool)
        ensures
            r == self.state().in_flight,
    {
        self.in_flight
    }

    /// Whether the last login that ended failed; callers that waited for it,
    /// or reuse its generation, report that failure.
    pub fn last_login_failed(&self) -> (r: bool)
        ensures
            r == self.state().failed,
    {
        self.failed
    }

    /// A copy of the current credential, for one request's header.
    pub fn credential(&self) -> (r: Option<String>)
        ensures
            match r {
                Some(c) => self.spec_credential() == Some(c@),
                None => self.spec_credential() is None,
            },
    {
        match &self.credential {
            Some(c) => Some(c.clone()),
            None => None,
        }
    }

    /// Decides what a caller that used generation `observed` does about a
    /// rejected credential; a `Login` marks the login as running.
    pub fn begin_refresh(&mut self, observed: u64) -> (r: RefreshStep)
        ensures
            call_post(*old(self), Call::Begin { observed: observed as int, step: r }, *final(self)),
    {
        if self.in_flight {
            RefreshStep::Wait
        } else if self.generation != observed {
            RefreshStep::Reuse
        } else {
            self.in_flight = true;
            RefreshStep::Login
        }
    }

    /// Records the end of the running login: the new credential when it
    /// succeeded (`Some`), the old one kept when it failed (`None`).
    pub fn finish_refresh(&mut self, fresh: Option<String>)
        requires
            old(self).state().generation < u64::MAX,
        ensures
            call_post(
                *old(self),
                Call::Finish {
                    fresh: match fresh {
                        Some(c) => Some(c@),
                        None => None,
                    },
                },
                *final(self),
            ),
    {
        if self.in_flight {
            self.in_flight = false;
            self.failed = fresh.is_none();
            self.generation = self.generation + 1;
            match fresh {
                Some(c) => {
                    self.credential = Some(c);
                },
                None => {},
            }
        }
    }
}

/// Of any number of callers that all used generation `g` and ask for a refresh
/// while no login runs, with the one login ending at any point among them with
/// outcome `ok`, exactly one is told to log in. Once that login has ended,
/// every such caller, whether it waited or comes later, is told to reuse the
/// new generation and sees the same outcome; none logs in again.
pub proof fn lemma_single_flight(g: int, failed: bool, ok: bool, events: Seq<AuthEvent>)
    requires
        forall|i: int| 0 <= i < events.len() ==> (#[trigger] events[i] matches AuthEvent::Begin {
            observed,
        } ==> observed == g),
        forall|i: int| 0 <= i < events.len() ==> (#[trigger] events[i] matches AuthEvent::Finish {
            ok: o,
        } ==> o == ok),
    ensures
        ({
            let (t, n) = run(AuthState { generation: g, in_flight: false, failed }, events);
            &&& n == (if has_begin(events) { 1nat } else { 0nat })
            &&& has_begin(events) && !t.in_flight ==> {
                &&& t.generation == g + 1
                &&& t.failed == !ok
                &&& begin_step(t, g) == (RefreshStep::Reuse, t)
            }
        }),
{
    lemma_single_flight_state(g, failed, ok, events);
}

proof fn lemma_single_flight_state(g: int, failed: bool, ok: bool, events: Seq<AuthEvent>)
    requires
        forall|i: int| 0 <= i < events.len() ==> (#[trigger] events[i] matches AuthEvent::Begin {
            observed,
        } ==> observed == g),
        forall|i: int| 0 <= i < events.len() ==> (#[trigger] events[i] matches AuthEvent::Finish {
            ok: o,
        } ==> o == ok),
    ensures
        ({
            let (t, n) = run(AuthState { generation: g, in_flight: false, failed }, events);
            &&& n == (if has_begin(events) { 1nat } else { 0nat })
            &&& n == 0 ==> t == AuthState { generation: g, in_flight: false, failed }
            &&& n == 1 ==> (t.in_flight && t.generation == g) || (!t.in_flight && t.generation == g
                + 1 && t.failed == !ok)
        }),
    decreases events.len(),
{
    if events.len() > 0 {
        let front = events.drop_last();
        assert forall|i: int| 0 <= i < front.len() implies (#[trigger] front[i] matches AuthEvent::Begin {
            observed,
        } ==> observed == g) by {
            assert(front[i] == events[i]);
        }
        assert forall|i: int| 0 <= i < front.len() implies (#[trigger] front[i] matches AuthEvent::Finish {
            ok: o,
        } ==> o == ok) by {
            assert(front[i] == events[i]);
        }
        lemma_single_flight_state(g, failed, ok, front);
        let last = events.last();
        assert(events[events.len() - 1] == last);
        if has_begin(front) {
            let i = choose|i: int| 0 <= i < front.len() && #[trigger] front[i] is Begin;
            assert(events[i] is Begin);
        }
        if has_begin(events) && !has_begin(front) {
            let i = choose|i: int| 0 <= i < events.len() && #[trigger] events[i] is Begin;
            if i < front.len() {
                assert(front[i] is Begin);
            }
        }
    } else {
        assert(!has_begin(events));
    }
}

/// A call on an [`AuthorizationManager`]: a refresh request naming the
/// generation its caller used, with the step it was told; or the end of the
/// running login, with the new credential when it succeeded.
pub enum Call {
    Begin { observed: int, step: RefreshStep },
    Finish { fresh: Option<Seq<char>> },
}

/// What one call does, as [`AuthorizationManager::begin_refresh`] and
/// [`AuthorizationManager::finish_refresh`] state it.
pub open spec fn call_post(before: AuthorizationManager, call: Call, after: AuthorizationManager) -> bool {
    match call {
        Call::Begin { observed, step } => {
            &&& (step, after.state()) == begin_step(before.state(), observed)
            &&& after.spec_credential() == before.spec_credential()
        },
        Call::Finish { fresh } => {
            &&& after.state() == finish_step(before.state(), fresh is Some)
            &&& after.spec_credential() == if before.state().in_flight && fresh is Some {
                fresh
            } else {
                before.spec_credential()
            }
        },
    }
}

/// How many of `calls` were told to log in.
pub open spec fn logins(calls: Seq<Call>) -> nat
    decreases calls.len(),
{
    if calls.len() == 0 {
        0
    } else {
        logins(calls.drop_last()) + if calls.last() matches Call::Begin {
            step: RefreshStep::Login,
            ..
        } {
            1nat
        } else {
            0nat
        }
    }
}

pub open spec fn has_request(calls: Seq<Call>) -> bool {
    exists|i: int| 0 <= i < calls.len() && #[trigger] calls[i] is Begin
}

/// Any run of calls on one manager, `ms[i]` before call `i` and `ms[i + 1]`
/// after it, that starts with no login running, in which every refresh request
/// names the generation `g` of the start and the login ends with outcome
/// `fresh`: exactly one request is told to log in. Once the login has ended,
/// the new generation is `g + 1`, a failure is recorded exactly when `fresh` is
/// `None`, the credential is `fresh` when the login succeeded and unchanged
/// when it failed, and every request naming `g` is told to reuse it.
pub proof fn lemma_single_flight_calls(
    ms: Seq<AuthorizationManager>,
    calls: Seq<Call>,
    g: int,
    fresh: Option<Seq<char>>,
)
    requires
        ms.len() == calls.len() + 1,
        forall|i: int| 0 <= i < calls.len() ==> call_post(#[trigger] ms[i], calls[i], ms[i + 1]),
        ms[0].state().generation == g,
        !ms[0].state().in_flight,
        forall|i: int| 0 <= i < calls.len() ==> (#[trigger] calls[i] matches Call::Begin {
            observed,
            ..
        } ==> observed == g),
        forall|i: int| 0 <= i < calls.len() ==> (#[trigger] calls[i] matches Call::Finish {
            fresh: f,
        } ==> f == fresh),
    ensures
        logins(calls) == if has_request(calls) {
            1nat
        } else {
            0nat
        },
        ({
            let t = ms.last().state();
            has_request(calls) && !t.in_flight ==> {
                &&& t.generation == g + 1
                &&& t.failed == fresh is None
                &&& begin_step(t, g) == (RefreshStep::Reuse, t)
                &&& ms.last().spec_credential() == if fresh is Some {
                    fresh
                } else {
                    ms[0].spec_credential()
                }
            }
        }),
{
    lemma_calls_prefix(ms, calls, g, fresh, calls.len() as int);
    assert(calls.take(calls.len() as int) =~= calls);
}

proof fn lemma_calls_prefix(
    ms: Seq<AuthorizationManager>,
    calls: Seq<Call>,
    g: int,
    fresh: Option<Seq<char>>,
    k: int,
)
    requires
        ms.len() == calls.len() + 1,
        forall|i: int| 0 <= i < calls.len() ==> call_post(#[trigger] ms[i], calls[i], ms[i + 1]),
        ms[0].state().generation == g,
        !ms[0].state().in_flight,
        forall|i: int| 0 <= i < calls.len() ==> (#[trigger] calls[i] matches Call::Begin {
            observed,
            ..
        } ==> observed == g),
        forall|i: int| 0 <= i < calls.len() ==> (#[trigger] calls[i] matches Call::Finish {
            fresh: f,
        } ==> f == fresh),
        0 <= k <= calls.len(),
    ensures
        ({
            let n = logins(calls.take(k));
            let t = ms[k].state();
            let c0 = ms[0].spec_credential();
            &&& n == (if has_request(calls.take(k)) { 1nat } else { 0nat })
            &&& n == 0 ==> t == ms[0].state() && ms[k].spec_credential() == c0
            &&& n == 1 ==> (t.in_flight && t.generation == g && ms[k].spec_credential() == c0) || (
            !t.in_flight && t.generation == g + 1 && t.failed == fresh is None
                && ms[k].spec_credential() == if fresh is Some {
                fresh
            } else {
                c0
            })
        }),
    decreases k,
{
    if k == 0 {
        assert(calls.take(0) =~= Seq::<Call>::empty());
        assert(!has_request(calls.take(0)));
    } else {
        lemma_calls_prefix(ms, calls, g, fresh, k - 1);
        let front = calls.take(k - 1);
        let cur = calls.take(k);
        assert(cur.drop_last() =~= front);
        assert(cur.last() == calls[k - 1]);
        assert(call_post(ms[k - 1], calls[k - 1], ms[k]));
        if has_request(front) {
            let i = choose|i: int| 0 <= i < front.len() && #[trigger] front[i] is Begin;
            assert(cur[i] is Begin);
        }
        if has_request(cur) && !has_request(front) {
            let i = choose|i: int| 0 <= i < cur.len() && #[trigger] cur[i] is Begin;
            if i < front.len() {
                assert(front[i] is Begin);
            }
        }
        if calls[k - 1] is Begin {
            assert(cur[k - 1] is Begin);
        }
    }
}

} // verus!
