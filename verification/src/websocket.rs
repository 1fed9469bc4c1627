//! Session layer: expiring opaque tokens and the decision how an incoming
//! remote connection is handled.
//!
//! A workload is announced with [`WebSocketManager::register_task`], which
//! binds a freshly generated unguessable token to the workload id and the
//! creation time. Lookups are non-consuming; a periodic sweep removes every
//! session whose age has reached the configured time-to-live. Time enters
//! every operation as an argument, so the expiry logic is independent of any
//! real clock.
//!
//! [`accept`] classifies a presented token against the session map and the
//! task registry: a malformed token is a request-format problem (status
//! 400), an unknown or expired one is not found (status 404), a resolved
//! token whose workload has disappeared from the registry yields a session
//! that is accepted and closed without data exchange, and otherwise the
//! connection is bridged to the workload's channel pair. The byte relays
//! themselves are transport work and stay with the caller;
//! [`upstream_forward`] fixes what of a peer's traffic reaches the workload:
//! text payloads verbatim, anything else silently dropped.

use crate::assoc::keep;
use crate::assoc::lemma_keep_map;
use crate::assoc::lemma_map_of_contains;
use crate::assoc::lemma_map_of_lookup;
use crate::assoc::lemma_map_of_update;
use crate::assoc::map_of;
use crate::assoc::unique_keys;
use crate::task_manager::TaskManager;
use vstd::prelude::*;
use vstd::string::*;

verus! {

/// Transport status of a rejected connection attempt whose token is
/// malformed: a request-format problem.
pub const STATUS_BAD_REQUEST: u16 = 400;

/// Transport status of a rejected connection attempt whose token is unknown
/// or expired.
pub const STATUS_NOT_FOUND: u16 = 404;

/// What a session token is bound to: a workload id and its creation time.
#[derive(Clone, Copy, Debug, PartialEq, Eq, Structural)]
pub struct SessionEntry {
    /// The workload this session grants access to.
    pub task_id: usize,
    /// Creation time of the session, in caller-supplied milliseconds.
    pub created_ms: u64,
}

/// Whether a session created at `created_ms` is still live at `now_ms` for
/// time-to-live `ttl_ms`: its age has not reached the time-to-live.
pub open spec fn session_live(e: SessionEntry, ttl_ms: u64, now_ms: u64) -> bool {
    e.created_ms + ttl_ms > now_ms
}

/// [`session_live`] as a value, for filtering.
pub open spec fn live_pred(ttl_ms: u64, now_ms: u64) -> spec_fn(SessionEntry) -> bool {
    |e: SessionEntry| session_live(e, ttl_ms, now_ms)
}

/// The token map of the session layer.
pub struct WebSocketManager {
    sessions: Vec<(u128, SessionEntry)>,
}

impl WebSocketManager {
    /// The sessions this manager holds, by token.
    pub closed spec fn view(&self) -> Map<u128, SessionEntry> {
        map_of(self.sessions@)
    }

    /// Well-formedness: one session per token.
    pub closed spec fn wf(&self) -> bool {
        unique_keys(self.sessions@)
    }

    /// A manager with no sessions.
    pub fn new() -> (r: WebSocketManager)
        ensures
            r.wf(),
            r@ == Map::<u128, SessionEntry>::empty(),
    {
        WebSocketManager { sessions: Vec::new() }
    }

    /// Stores `entry` under `token`, overwriting a colliding token.
    fn insert_session(&mut self, token: u128, entry: SessionEntry)
        requires
            old(self).wf(),
        ensures
            final(self).wf(),
            final(self)@ == old(self)@.insert(token, entry),
    {
        let mut i: usize = 0;
        while i < self.sessions.len()
            invariant
                0 <= i <= self.sessions@.len(),
                forall|j: int| 0 <= j < i ==> self.sessions@[j].0 != token,
                unique_keys(self.sessions@),
                self.sessions@ == old(self).sessions@,
            decreases self.sessions@.len() - i,
        {
            if self.sessions[i].0 == token {
                proof {
                    lemma_map_of_update(self.sessions@, i as int, (token, entry));
                }
                self.sessions[i] = (token, entry);
                proof {
                    assert forall|a: int, b: int|
                        0 <= a < b < self.sessions@.len() implies self.sessions@[a].0
                        != self.sessions@[b].0 by {
                        assert(old(self).sessions@[a].0 != old(self).sessions@[b].0);
                    }
                }
                return ;
            }
            i = i + 1;
        }
        proof {
            lemma_map_of_contains(self.sessions@, token);
        }
        self.sessions.push((token, entry));
        proof {
            assert(self.sessions@.drop_last() =~= old(self).sessions@);
            assert forall|a: int, b: int|
                0 <= a < b < self.sessions@.len() implies self.sessions@[a].0
                != self.sessions@[b].0 by {
                if b < self.sessions@.len() - 1 {
                    assert(old(self).sessions@[a].0 != old(self).sessions@[b].0);
                } else {
                    assert(old(self).sessions@[a].0 != token);
                }
            }
        }
    }

    /// Issues a session for `task_id` created at `now_ms`: generates a fresh
    /// unguessable token, binds it, and returns it. Whatever token the
    /// generator came back with is the one under which the session is
    /// stored.
    pub fn register_task(&mut self, task_id: usize, now_ms: u64) -> (token: u128)
        requires
            old(self).wf(),
        ensures
            final(self).wf(),
            final(self)@ == old(self)@.insert(token, SessionEntry { task_id, created_ms: now_ms }),
    {
        let token = fresh_token();
        self.insert_session(token, SessionEntry { task_id, created_ms: now_ms });
        token
    }

    /// The workload id bound to `token`, present exactly when the token has
    /// a session; the lookup does not consume the session.
    pub fn get_task_id(&self, token: u128) -> (r: Option<usize>)
        requires
            self.wf(),
        ensures
            match r {
                Some(id) => self@.contains_key(token) && self@[token].task_id == id,
                None => !self@.contains_key(token),
            },
    {
        let mut i: usize = 0;
        while i < self.sessions.len()
            invariant
                0 <= i <= self.sessions@.len(),
                forall|j: int| 0 <= j < i ==> self.sessions@[j].0 != token,
                self.wf(),
            decreases self.sessions@.len() - i,
        {
            if self.sessions[i].0 == token {
                proof {
                    lemma_map_of_lookup(self.sessions@, i as int);
                }
                return Some(self.sessions[i].1.task_id);
            }
            i = i + 1;
        }
        proof {
            lemma_map_of_contains(self.sessions@, token);
        }
        None
    }

    /// Removes every session whose age at `now_ms` has reached `ttl_ms`;
    /// the sessions still live keep their bindings unchanged.
    pub fn sweep(&mut self, ttl_ms: u64, now_ms: u64)
        requires
            old(self).wf(),
        ensures
            final(self).wf(),
            final(self)@ == Map::new(
                |t: u128| old(self)@.contains_key(t) && session_live(old(self)@[t], ttl_ms, now_ms),
                |t: u128| old(self)@[t],
            ),
    {
        let mut kept: Vec<(u128, SessionEntry)> = Vec::new();
        let mut i: usize = 0;
        while i < self.sessions.len()
            invariant
                0 <= i <= self.sessions@.len(),
                self.sessions@ == old(self).sessions@,
                kept@ == keep(self.sessions@.subrange(0, i as int), live_pred(ttl_ms, now_ms)),
            decreases self.sessions@.len() - i,
        {
            let ghost done = self.sessions@.subrange(0, i as int);
            let entry = self.sessions[i].1;
            let live = match entry.created_ms.checked_add(ttl_ms) {
                None => true,
                Some(expiry) => expiry > now_ms,
            };
            if live {
                kept.push((self.sessions[i].0, entry));
            }
            proof {
                let next = self.sessions@.subrange(0, i + 1int);
                assert(next.drop_last() =~= done);
                assert(next.last() == self.sessions@[i as int]);
                assert(live_pred(ttl_ms, now_ms)(entry) == session_live(entry, ttl_ms, now_ms));
                assert(live == session_live(entry, ttl_ms, now_ms));
                assert(kept@ == keep(next, live_pred(ttl_ms, now_ms)));
            }
            i = i + 1;
        }
        proof {
            assert(self.sessions@.subrange(0, self.sessions@.len() as int) =~= self.sessions@);
            lemma_keep_map(self.sessions@, live_pred(ttl_ms, now_ms));
        }
        self.sessions = kept;
        proof {
            let expected = Map::new(
                |t: u128| old(self)@.contains_key(t) && session_live(old(self)@[t], ttl_ms, now_ms),
                |t: u128| old(self)@[t],
            );
            assert forall|t: u128| #[trigger] expected.contains_key(t) == self@.contains_key(t)
                && (expected.contains_key(t) ==> expected[t] == self@[t]) by {
                assert(live_pred(ttl_ms, now_ms)(old(self)@[t]) == session_live(
                    old(self)@[t],
                    ttl_ms,
                    now_ms,
                ));
            }
            assert(self@ =~= expected);
        }
    }
}

/// Client-facing error payload of a rejected connection attempt.
#[derive(Clone, Debug)]
pub struct ErrorResponse {
    /// Always false in an error payload.
    pub success: bool,
    /// Human-readable description of what was wrong.
    pub error: String,
}

/// How an incoming connection presenting a token is handled.
#[derive(Debug)]
pub enum AcceptOutcome {
    /// The token text does not parse: rejected as a request-format problem.
    MalformedToken { status: u16, body: ErrorResponse },
    /// The token parses but no session is bound to it (never issued, or
    /// swept): rejected as not found.
    UnknownToken { status: u16, body: ErrorResponse },
    /// The session resolves to a workload that is no longer registered: the
    /// connection is accepted and closed at once, exchanging no data.
    EmptySession { task_id: usize },
    /// The connection is bridged to the workload's channel pair.
    Bridge { task_id: usize },
}

/// Classifies a connection attempt presenting `token_text` against the
/// session map and the task registry.
pub fn accept<S, R>(
    token_text: &str,
    manager: &WebSocketManager,
    registry: &TaskManager<S, R>,
) -> (r: AcceptOutcome)
    requires
        manager.wf(),
        registry.wf(),
    ensures
        (match token_of(token_text@) {
            None => r matches AcceptOutcome::MalformedToken { status, body }
                && status == STATUS_BAD_REQUEST && body.success == false,
            Some(t) => {
                if !manager@.contains_key(t) {
                    r matches AcceptOutcome::UnknownToken { status, body }
                        && status == STATUS_NOT_FOUND && body.success == false && body.error@
                        == "The connection cannot be found"@
                } else if !registry@.contains_key(manager@[t].task_id) {
                    r matches AcceptOutcome::EmptySession { task_id } && task_id
                        == manager@[t].task_id
                } else {
                    r matches AcceptOutcome::Bridge { task_id } && task_id == manager@[t].task_id
                }
            },
        }),
{
    let token = match parse_token(token_text) {
        Ok(t) => t,
        Err(message) => {
            return AcceptOutcome::MalformedToken {
                status: STATUS_BAD_REQUEST,
                body: ErrorResponse { success: false, error: message },
            };
        },
    };
    let task_id = match manager.get_task_id(token) {
        Some(id) => id,
        None => {
            return AcceptOutcome::UnknownToken {
                status: STATUS_NOT_FOUND,
                body: ErrorResponse {
                    success: false,
                    error: String::from_str("The connection cannot be found"),
                },
            };
        },
    };
    let sender_present = registry.get_sender(task_id).is_some();
    let receiver_present = registry.get_receiver(task_id).is_some();
    if sender_present && receiver_present {
        AcceptOutcome::Bridge { task_id }
    } else {
        AcceptOutcome::EmptySession { task_id }
    }
}

/// One message arriving from the remote peer, as far as the relay is
/// concerned: a text payload, or anything else.
#[derive(Clone, Debug)]
pub enum PeerMessage {
    /// A text message; its payload is forwarded to the workload verbatim.
    Text(String),
    /// Any non-text message; silently dropped, neither forwarded nor an
    /// error.
    NonText,
}

/// What of one peer message reaches the workload's command channel: a text
/// payload verbatim, anything else nothing.
pub fn upstream_forward(msg: PeerMessage) -> (r: Option<String>)
    ensures
        match msg {
            PeerMessage::Text(payload) => r == Some(payload),
            PeerMessage::NonText => r is None,
        },
{
    match msg {
        PeerMessage::Text(payload) => Some(payload),
        PeerMessage::NonText => None,
    }
}

/// What a token text denotes: the 128-bit token, or nothing when it is not
/// well-formed. Left uninterpreted; parsing is delegated to the token
/// library.
pub uninterp spec fn token_of(s: Seq<char>) -> Option<u128>;

/// Relies on uuid::Uuid::new_v4: a freshly generated random 128-bit token.
/// Nothing is promised of the value; callers state what holds whatever came
/// back.
#[verifier::external_body]
fn fresh_token() -> (r: u128) {
    uuid::Uuid::new_v4().as_u128()
}

/// Relies on uuid::Uuid::parse_str: whether a text is a well-formed token,
/// and which one, depends on its characters alone.
#[verifier::external_body]
fn parse_token(s: &str) -> (r: Result<u128, String>)
    ensures
        r matches Ok(t) ==> token_of(s@) == Some(t),
        r is Ok <==> token_of(s@) is Some,
{
    match uuid::Uuid::parse_str(s) {
        Ok(u) => Ok(u.as_u128()),
        Err(e) => Err(e.to_string()),
    }
}

} // verus!
