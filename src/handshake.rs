//! The handshake that brings an engine from launch to ready:
//! `usi`, wait for `usiok`, one `setoption` per option, `isready`, wait for
//! `readyok`. A driver performs each action and reports what happened.
use vstd::prelude::*;
use crate::option_map::OptionMap;
use crate::text::{str_eq, trim, trimmed};

verus! {

/// The reply that a waiting handshake expects.
#[derive(Debug, Clone, Copy, PartialEq, Eq, Structural)]
pub enum HandshakeStage {
    UsiOk,
    ReadyOk,
}

/// Why a handshake failed.
#[derive(Debug, Clone, Copy, PartialEq, Eq, Structural)]
pub enum HandshakeError {
    /// The expected reply did not come within the bound.
    Timeout(HandshakeStage),
    /// `usi` or `isready` could not be written.
    SendFailed,
    /// The engine went away (its session is gone or its output closed).
    EngineLost,
    /// An event came that the handshake was not waiting for.
    OutOfOrder,
}

/// Where a handshake stands.
#[derive(Debug, Clone, Copy, PartialEq, Eq, Structural)]
pub enum HandshakePhase {
    Idle,
    SentUsi,
    AwaitingUsiOk,
    /// The option line with this index was handed out.
    SentOption(usize),
    SentIsReady,
    AwaitingReadyOk,
    Done,
    Failed(HandshakeError),
}

/// What the driver reports.
#[derive(Debug, Clone, Copy, PartialEq, Eq, Structural)]
pub enum HandshakeEvent {
    /// Begin the handshake.
    Start,
    /// The line last handed out was written (`true`) or not.
    Sent(bool),
    /// A look at the engine: whether the awaited reply has come, and how long
    /// the wait has lasted.
    Polled { ready: bool, elapsed_ms: u64 },
    /// The engine is gone.
    Lost,
}

/// What the driver does next.
#[derive(Debug, Clone)]
pub enum HandshakeAction {
    /// Write `line`; when `await_reply` holds, its answer is awaited next.
    Send { line: String, await_reply: bool },
    /// Wait a little, then look at the engine.
    Poll,
    /// The engine is ready.
    Complete,
    /// The handshake failed; the caller stops the engine.
    Abort(HandshakeError),
}

/// The phase after the handshake reply: the first option, or `isready`.
pub open spec fn after_usiok(n: nat) -> HandshakePhase {
    if n > 0 {
        HandshakePhase::SentOption(0)
    } else {
        HandshakePhase::SentIsReady
    }
}

/// The phase that follows `p` on event `ev`, with `n` option lines and a wait
/// bound of `bound` milliseconds.
pub open spec fn next_phase(p: HandshakePhase, n: nat, bound: nat, ev: HandshakeEvent) -> HandshakePhase {
    match p {
        HandshakePhase::Done => HandshakePhase::Done,
        HandshakePhase::Failed(e) => HandshakePhase::Failed(e),
        _ => match ev {
            HandshakeEvent::Lost => HandshakePhase::Failed(HandshakeError::EngineLost),
            HandshakeEvent::Start => if p == HandshakePhase::Idle {
                HandshakePhase::SentUsi
            } else {
                HandshakePhase::Failed(HandshakeError::OutOfOrder)
            },
            HandshakeEvent::Sent(ok) => match p {
                HandshakePhase::SentUsi => if ok {
                    HandshakePhase::AwaitingUsiOk
                } else {
                    HandshakePhase::Failed(HandshakeError::SendFailed)
                },
                HandshakePhase::SentOption(i) => if i + 1 < n {
                    HandshakePhase::SentOption((i + 1) as usize)
                } else {
                    HandshakePhase::SentIsReady
                },
                HandshakePhase::SentIsReady => if ok {
                    HandshakePhase::AwaitingReadyOk
                } else {
                    HandshakePhase::Failed(HandshakeError::SendFailed)
                },
                _ => HandshakePhase::Failed(HandshakeError::OutOfOrder),
            },
            HandshakeEvent::Polled { ready, elapsed_ms } => match p {
                HandshakePhase::AwaitingUsiOk => if elapsed_ms > bound {
                    HandshakePhase::Failed(HandshakeError::Timeout(HandshakeStage::UsiOk))
                } else if ready {
                    after_usiok(n)
                } else {
                    HandshakePhase::AwaitingUsiOk
                },
                HandshakePhase::AwaitingReadyOk => if elapsed_ms > bound {
                    HandshakePhase::Failed(HandshakeError::Timeout(HandshakeStage::ReadyOk))
                } else if ready {
                    HandshakePhase::Done
                } else {
                    HandshakePhase::AwaitingReadyOk
                },
                _ => HandshakePhase::Failed(HandshakeError::OutOfOrder),
            },
        },
    }
}

/// The action that goes with entering or staying in phase `p`.
pub open spec fn action_for(p: HandshakePhase, lines: Seq<Seq<char>>, a: HandshakeAction) -> bool {
    match p {
        HandshakePhase::SentUsi => a matches HandshakeAction::Send { line, await_reply }
            && line@ == "usi"@ && await_reply,
        HandshakePhase::SentOption(i) => a matches HandshakeAction::Send { line, await_reply }
            && line@ == lines[i as int] && !await_reply,
        HandshakePhase::SentIsReady => a matches HandshakeAction::Send { line, await_reply }
            && line@ == "isready"@ && await_reply,
        HandshakePhase::Done => a is Complete,
        HandshakePhase::Failed(e) => a == HandshakeAction::Abort(e),
        _ => a is Poll,
    }
}

/// The command that sets option `name` to `value`.
pub open spec fn setoption_line(name: Seq<char>, value: Seq<char>) -> Seq<char> {
    "setoption name "@ + name + " value "@ + value
}

/// Executable form of `setoption_line`.
pub fn setoption_command(name: &str, value: &str) -> (r: String)
    ensures
        r@ == setoption_line(name@, value@),
{
    let mut r = String::from_str("setoption name ");
    r.append(name);
    r.append(" value ");
    r.append(value);
    r
}

/// The wait bound of the handshake of a supervised engine, in milliseconds.
pub const SESSION_HANDSHAKE_BOUND_MS: u64 = 10000;

/// The wait bound of the handshake of a match engine, in milliseconds.
pub const MATCH_HANDSHAKE_BOUND_MS: u64 = 5000;

/// A handshake in progress.
pub struct Handshake {
    pub phase: HandshakePhase,
    pub option_lines: Vec<String>,
    pub bound_ms: u64,
}

pub open spec fn line_views(v: Seq<String>) -> Seq<Seq<char>> {
    v.map_values(|s: String| s@)
}

impl Handshake {
    pub open spec fn wf(&self) -> bool {
        self.phase matches HandshakePhase::SentOption(i) ==> i < self.option_lines@.len()
    }

    /// A handshake that will set `options` (none when absent), in their
    /// order, and wait up to `bound_ms` for each reply.
    pub fn new(options: Option<&OptionMap>, bound_ms: u64) -> (r: Handshake)
        ensures
            r.wf(),
            r.phase == HandshakePhase::Idle,
            r.bound_ms == bound_ms,
            match options {
                Some(m) => r.option_lines@.len() == m@.len() && forall|i: int|
                    0 <= i < m@.len() ==> #[trigger] r.option_lines@[i]@ == setoption_line(
                        m@[i].0,
                        m@[i].1,
                    ),
                None => r.option_lines@.len() == 0,
            },
    {
        let mut lines: Vec<String> = Vec::new();
        match options {
            Some(m) => {
                let mut i: usize = 0;
                while i < m.len()
                    invariant
                        i <= m@.len(),
                        lines@.len() == i,
                        forall|j: int|
                            0 <= j < i ==> #[trigger] lines@[j]@ == setoption_line(
                                m@[j].0,
                                m@[j].1,
                            ),
                    decreases m@.len() - i,
                {
                    let (name, value) = m.entry(i);
                    lines.push(setoption_command(name.as_str(), value.as_str()));
                    i = i + 1;
                }
            },
            None => {},
        }
        Handshake { phase: HandshakePhase::Idle, option_lines: lines, bound_ms }
    }

    /// Whether `line` is the reply that the handshake waits for (`usiok` or
    /// `readyok`, with surrounding whitespace ignored).
    pub fn answers(&self, line: &str) -> (r: bool)
        ensures
            r == (match self.phase {
                HandshakePhase::AwaitingUsiOk => trim(line@) == "usiok"@,
                HandshakePhase::AwaitingReadyOk => trim(line@) == "readyok"@,
                _ => false,
            }),
    {
        let t = trimmed(line);
        match self.phase {
            HandshakePhase::AwaitingUsiOk => str_eq(t.as_str(), "usiok"),
            HandshakePhase::AwaitingReadyOk => str_eq(t.as_str(), "readyok"),
            _ => false,
        }
    }

    /// Advances the handshake by one event; returns what to do next.
    pub fn step(&mut self, ev: HandshakeEvent) -> (a: HandshakeAction)
        requires
            old(self).wf(),
        ensures
            final(self).wf(),
            final(self).option_lines == old(self).option_lines,
            final(self).bound_ms == old(self).bound_ms,
            final(self).phase == next_phase(
                old(self).phase,
                old(self).option_lines@.len(),
                old(self).bound_ms as nat,
                ev,
            ),
            action_for(final(self).phase, line_views(old(self).option_lines@), a),
    {
        let n = self.option_lines.len();
        let next = match self.phase {
            HandshakePhase::Done => HandshakePhase::Done,
            HandshakePhase::Failed(e) => HandshakePhase::Failed(e),
            p => match ev {
                HandshakeEvent::Lost => HandshakePhase::Failed(HandshakeError::EngineLost),
                HandshakeEvent::Start => if p == HandshakePhase::Idle {
                    HandshakePhase::SentUsi
                } else {
                    HandshakePhase::Failed(HandshakeError::OutOfOrder)
                },
                HandshakeEvent::Sent(ok) => match p {
                    HandshakePhase::SentUsi => if ok {
                        HandshakePhase::AwaitingUsiOk
                    } else {
                        HandshakePhase::Failed(HandshakeError::SendFailed)
                    },
                    HandshakePhase::SentOption(i) => if i + 1 < n {
                        HandshakePhase::SentOption(i + 1)
                    } else {
                        HandshakePhase::SentIsReady
                    },
                    HandshakePhase::SentIsReady => if ok {
                        HandshakePhase::AwaitingReadyOk
                    } else {
                        HandshakePhase::Failed(HandshakeError::SendFailed)
                    },
                    _ => HandshakePhase::Failed(HandshakeError::OutOfOrder),
                },
                HandshakeEvent::Polled { ready, elapsed_ms } => match p {
                    HandshakePhase::AwaitingUsiOk => if elapsed_ms > self.bound_ms {
                        HandshakePhase::Failed(HandshakeError::Timeout(HandshakeStage::UsiOk))
                    } else if ready {
                        if n > 0 {
                            HandshakePhase::SentOption(0)
                        } else {
                            HandshakePhase::SentIsReady
                        }
                    } else {
                        HandshakePhase::AwaitingUsiOk
                    },
                    HandshakePhase::AwaitingReadyOk => if elapsed_ms > self.bound_ms {
                        HandshakePhase::Failed(HandshakeError::Timeout(HandshakeStage::ReadyOk))
                    } else if ready {
                        HandshakePhase::Done
                    } else {
                        HandshakePhase::AwaitingReadyOk
                    },
                    _ => HandshakePhase::Failed(HandshakeError::OutOfOrder),
                },
            },
        };
        self.phase = next;
        match next {
            HandshakePhase::SentUsi => HandshakeAction::Send {
                line: String::from_str("usi"),
                await_reply: true,
            },
            HandshakePhase::SentOption(i) => {
                assert(line_views(self.option_lines@)[i as int] == self.option_lines@[i as int]@);
                HandshakeAction::Send { line: self.option_lines[i].clone(), await_reply: false }
            },
            HandshakePhase::SentIsReady => HandshakeAction::Send {
                line: String::from_str("isready"),
                await_reply: true,
            },
            HandshakePhase::Done => HandshakeAction::Complete,
            HandshakePhase::Failed(e) => HandshakeAction::Abort(e),
            _ => HandshakeAction::Poll,
        }
    }
}

/// An engine that never gives the awaited reply makes the handshake fail
/// with a timeout for that reply as soon as the wait exceeds the bound, and
/// until then keeps it waiting: it never completes.
pub proof fn lemma_silent_engine_times_out(p: HandshakePhase, n: nat, bound: nat, elapsed_ms: u64)
    requires
        p == HandshakePhase::AwaitingUsiOk || p == HandshakePhase::AwaitingReadyOk,
    ensures
        ({
            let q = next_phase(p, n, bound, HandshakeEvent::Polled { ready: false, elapsed_ms });
            let stage = if p == HandshakePhase::AwaitingUsiOk {
                HandshakeStage::UsiOk
            } else {
                HandshakeStage::ReadyOk
            };
            &&& elapsed_ms > bound ==> q == HandshakePhase::Failed(HandshakeError::Timeout(stage))
            &&& elapsed_ms <= bound ==> q == p
            &&& q != HandshakePhase::Done
        }),
{
}

} // verus!
