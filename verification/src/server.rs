//! The decisions of the key-value server: how its worker answers each
//! command, and how a client retries a request that failed or timed out.
use crate::string_map::{text_read, StringMap};
use vstd::arithmetic::power2::pow2;
use vstd::prelude::*;

verus! {

/// A request to the worker.
pub enum Command {
    Put { key: String, value: String },
    Get { key: String },
    Delete { key: String },
    Shutdown,
}

/// The worker's answer to a command.
pub enum Reply {
    /// The value was stored.
    Stored,
    /// The value read, if the key was bound.
    Found(Option<String>),
    /// Whether the key was bound before the deletion.
    Deleted(bool),
    /// The worker stops and answers nothing more.
    Stopped,
}

/// The worker's state after `cmd`.
pub open spec fn state_after(m: Map<Seq<char>, Seq<char>>, cmd: Command) -> Map<
    Seq<char>,
    Seq<char>,
> {
    match cmd {
        Command::Put { key, value } => m.insert(key@, value@),
        Command::Get { .. } => m,
        Command::Delete { key } => m.remove(key@),
        Command::Shutdown => m,
    }
}

/// `r` is the worker's answer to `cmd` in state `m`.
pub open spec fn answers(m: Map<Seq<char>, Seq<char>>, cmd: Command, r: Reply) -> bool {
    match cmd {
        Command::Put { .. } => r is Stored,
        Command::Get { key } => match r {
            Reply::Found(Some(v)) => text_read(m, key@) == Some(v@),
            Reply::Found(None) => text_read(m, key@) is None,
            _ => false,
        },
        Command::Delete { key } => r == Reply::Deleted(m.contains_key(key@)),
        Command::Shutdown => r is Stopped,
    }
}

/// Applies one command to the worker's state and gives its answer.
pub fn apply_command(state: &mut StringMap, cmd: Command) -> (r: Reply)
    ensures
        final(state).view() == state_after(old(state).view(), cmd),
        answers(old(state).view(), cmd, r),
{
    match cmd {
        Command::Put { key, value } => {
            let _ = state.insert(key, value);
            Reply::Stored
        },
        Command::Get { key } => {
            match state.get(key.as_str()) {
                Some(res) => Reply::Found(Some(res.clone())),
                None => Reply::Found(None),
            }
        },
        Command::Delete { key } => {
            let exist = state.remove(key.as_str()).is_some();
            Reply::Deleted(exist)
        },
        Command::Shutdown => Reply::Stopped,
    }
}

/// A read of a key answers with the value last set for it, and `None` after
/// it was deleted.
pub proof fn lemma_get_sees_last_write(
    m: Map<Seq<char>, Seq<char>>,
    key: String,
    value: String,
    probe: String,
    r: Reply,
)
    requires
        probe@ == key@,
    ensures
        answers(state_after(m, Command::Put { key, value }), Command::Get { key: probe }, r)
            ==> (r matches Reply::Found(Some(v)) && v@ == value@),
        answers(state_after(m, Command::Delete { key }), Command::Get { key: probe }, r) ==> r
            == Reply::Found(None),
{
}

/// A deletion reports `true` exactly when the key was bound, and a second
/// deletion of the same key reports `false`.
pub proof fn lemma_delete_reports_presence(m: Map<Seq<char>, Seq<char>>, key: String, probe: String)
    requires
        probe@ == key@,
    ensures
        answers(m, Command::Delete { key }, Reply::Deleted(m.contains_key(key@))),
        answers(
            state_after(m, Command::Delete { key }),
            Command::Delete { key: probe },
            Reply::Deleted(false),
        ),
{
}

/// Two answers to reads agree: both found the same value, or both found
/// nothing.
pub open spec fn same_read(r1: Reply, r2: Reply) -> bool {
    match (r1, r2) {
        (Reply::Found(Some(a)), Reply::Found(Some(b))) => a@ == b@,
        (Reply::Found(None), Reply::Found(None)) => true,
        _ => false,
    }
}

/// A read changes nothing: the state after a `Get` is the state before, so
/// two reads of a key in a row answer alike.
pub proof fn lemma_get_changes_nothing(
    m: Map<Seq<char>, Seq<char>>,
    key: String,
    probe: String,
    r1: Reply,
    r2: Reply,
)
    requires
        probe@ == key@,
    ensures
        state_after(m, Command::Get { key }) == m,
        answers(m, Command::Get { key }, r1) && answers(
            state_after(m, Command::Get { key }),
            Command::Get { key: probe },
            r2,
        ) ==> same_read(r1, r2),
{
}

/// A write touches only its own key: after a `Put` the key reads as the value
/// written, after a `Delete` it reads as nothing, and every other key reads
/// as before either way.
pub proof fn lemma_writes_touch_only_their_key(
    m: Map<Seq<char>, Seq<char>>,
    key: String,
    value: String,
    other: Seq<char>,
)
    requires
        other != key@,
    ensures
        text_read(state_after(m, Command::Put { key, value }), key@) == Some(value@),
        text_read(state_after(m, Command::Put { key, value }), other) == text_read(m, other),
        text_read(state_after(m, Command::Delete { key }), key@) is None,
        text_read(state_after(m, Command::Delete { key }), other) == text_read(m, other),
        state_after(m, Command::Shutdown) == m,
{
}

/// How many times a request is tried.
pub const MAX_ATTEMPTS: u64 = 3;

/// The wait after the first failed attempt, in milliseconds; it doubles after
/// each further failure.
pub const INITIAL_BACKOFF_MS: u64 = 100;

/// How long each attempt may take, in milliseconds.
pub const ATTEMPT_TIMEOUT_MS: u64 = 85;

/// Which failures are retried.
#[derive(Clone, Copy, PartialEq, Eq, Structural)]
pub enum RetryPolicy {
    /// Every failure is retried while attempts are left.
    EveryFailure,
    /// Only timeouts are retried; an error or a dropped reply ends at once.
    TimeoutsOnly,
}

/// How one attempt ended.
pub enum AttemptOutcome<T> {
    /// The request succeeded with this value.
    Success(T),
    /// The server answered with this error.
    Failed(String),
    /// The reply channel was dropped before an answer came.
    Dropped,
    /// No answer came in time.
    TimedOut,
}

/// What to do after an attempt.
pub enum RetryStep<T> {
    /// Stop with this result.
    Finish(Result<T, String>),
    /// Wait this many milliseconds, then try again.
    RetryAfter(u64),
}

/// The error message for a dropped reply channel.
pub open spec fn dropped_message() -> Seq<char> {
    "response channel dropped"@
}

/// The error message for an attempt that timed out.
pub open spec fn timeout_message() -> Seq<char> {
    "timeout"@
}

/// The state of one retried request: which attempt is running and how long
/// to wait if it fails.
pub struct Retry {
    policy: RetryPolicy,
    attempt: u64,
    backoff_ms: u64,
}

impl Retry {
    pub closed spec fn policy(&self) -> RetryPolicy {
        self.policy
    }

    /// The number of the attempt now running, from 1.
    pub closed spec fn attempt(&self) -> nat {
        self.attempt as nat
    }

    /// The wait after the running attempt, should it fail.
    pub closed spec fn backoff(&self) -> nat {
        self.backoff_ms as nat
    }

    /// At most `MAX_ATTEMPTS` attempts, and the wait after attempt `n` is
    /// `INITIAL_BACKOFF_MS * 2^(n-1)`.
    pub closed spec fn wf(&self) -> bool {
        &&& 1 <= self.attempt <= MAX_ATTEMPTS
        &&& self.backoff_ms == INITIAL_BACKOFF_MS * pow2((self.attempt - 1) as nat)
    }

    /// The state before the first attempt.
    pub fn new(policy: RetryPolicy) -> (r: Self)
        ensures
            r.wf(),
            r.policy() == policy,
            r.attempt() == 1,
            r.backoff() == INITIAL_BACKOFF_MS,
    {
        proof {
            vstd::arithmetic::power2::lemma2_to64();
        }
        Retry { policy, attempt: 1, backoff_ms: INITIAL_BACKOFF_MS }
    }

    /// The number of the attempt now running.
    pub fn current_attempt(&self) -> (r: u64)
        ensures
            r == self.attempt(),
    {
        self.attempt
    }

    /// Decides what follows the outcome of the running attempt: a success
    /// finishes with its value; a failure on the last attempt, or one that
    /// the policy does not retry, finishes with its error; any other failure
    /// waits the current backoff and moves to the next attempt with the
    /// backoff doubled.
    pub fn next_step<T>(&mut self, outcome: AttemptOutcome<T>) -> (r: RetryStep<T>)
        requires
            old(self).wf(),
        ensures
            final(self).wf(),
            final(self).policy() == old(self).policy(),
            ({
                let last = old(self).attempt() == MAX_ATTEMPTS;
                let fast = old(self).policy() == RetryPolicy::TimeoutsOnly;
                match outcome {
                    AttemptOutcome::Success(v) => r == RetryStep::<T>::Finish(Ok(v)),
                    AttemptOutcome::Failed(e) => if last || fast {
                        r == RetryStep::<T>::Finish(Err(e))
                    } else {
                        r == RetryStep::<T>::RetryAfter(old(self).backoff() as u64)
                    },
                    AttemptOutcome::Dropped => if last || fast {
                        (r matches RetryStep::Finish(Err(e)) && e@ == dropped_message())
                    } else {
                        r == RetryStep::<T>::RetryAfter(old(self).backoff() as u64)
                    },
                    AttemptOutcome::TimedOut => if last {
                        (r matches RetryStep::Finish(Err(e)) && e@ == timeout_message())
                    } else {
                        r == RetryStep::<T>::RetryAfter(old(self).backoff() as u64)
                    },
                }
            }),
            r is RetryAfter ==> final(self).attempt() == old(self).attempt() + 1
                && final(self).backoff() == 2 * old(self).backoff(),
            r is Finish ==> final(self).attempt() == old(self).attempt() && final(self).backoff()
                == old(self).backoff(),
    {
        let last = self.attempt == MAX_ATTEMPTS;
        let fast = match self.policy {
            RetryPolicy::TimeoutsOnly => true,
            RetryPolicy::EveryFailure => false,
        };
        let retry = match outcome {
            AttemptOutcome::Success(v) => {
                return RetryStep::Finish(Ok(v));
            },
            AttemptOutcome::Failed(e) => {
                if last || fast {
                    return RetryStep::Finish(Err(e));
                }
                true
            },
            AttemptOutcome::Dropped => {
                if last || fast {
                    return RetryStep::Finish(Err("response channel dropped".to_string()));
                }
                true
            },
            AttemptOutcome::TimedOut => {
                if last {
                    return RetryStep::Finish(Err("timeout".to_string()));
                }
                true
            },
        };
        let wait = self.backoff_ms;
        proof {
            vstd::arithmetic::power2::lemma2_to64();
            vstd::arithmetic::power2::lemma_pow2_unfold(self.attempt as nat);
        }
        self.attempt = self.attempt + 1;
        self.backoff_ms = self.backoff_ms * 2;
        RetryStep::RetryAfter(wait)
    }
}

/// A retried request ends by its third attempt: no state allows more, and
/// the waits before the second and third attempts are 100 and 200 ms.
pub proof fn lemma_retry_schedule(r: Retry)
    requires
        r.wf(),
    ensures
        1 <= r.attempt() <= 3,
        r.attempt() == 1 ==> r.backoff() == 100,
        r.attempt() == 2 ==> r.backoff() == 200,
        r.attempt() == 3 ==> r.backoff() == 400,
{
    vstd::arithmetic::power2::lemma2_to64();
}

} // verus!
