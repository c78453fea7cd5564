//! How log events drive capture sessions: the squad size is tracked from
//! the network log, a reward screen starts a session, and collecting the
//! rewards cancels it.

use vstd::prelude::*;

use crate::catalog::Item;
use crate::log_entry::LogEntry;
use crate::session::{merged, pending_of, session_over, CaptureSession, MAX_ATTEMPTS};
use crate::text::same_text;

verus! {

/// What the capture task is told after a log event.
#[derive(Debug, Clone, Copy, PartialEq, Eq, Structural)]
pub enum ControlAction {
    /// Nothing changes for the capture task.
    Nothing,
    /// A reward screen opened: start a session with this many slots.
    StartSession(usize),
    /// The rewards were collected: drop the running session.
    CancelSession,
}

/// The squad size that sessions are started with.
#[derive(Debug, Clone, Copy, PartialEq, Eq, Structural)]
pub struct CaptureController {
    pub squad_size: usize,
}

/// The script whose events open and close the reward screen.
pub open spec fn reward_script() -> Seq<char> {
    "ProjectionRewardChoice"@
}

/// The squad size that a network log text announces, if it is one of
/// "Num session players: 1" to "Num session players: 4".
pub open spec fn announced_squad(text: Seq<char>) -> Option<usize> {
    if text == "Num session players: 1"@ {
        Some(1)
    } else if text == "Num session players: 2"@ {
        Some(2)
    } else if text == "Num session players: 3"@ {
        Some(3)
    } else if text == "Num session players: 4"@ {
        Some(4)
    } else {
        None
    }
}

/// The new squad size and the action that an event leads to.
pub open spec fn reaction(squad_size: usize, e: LogEntry) -> (usize, ControlAction) {
    match e {
        LogEntry::ScriptInfo { script, content } => if script@ == reward_script() && content@
            == "Relic rewards initialized"@ {
            (squad_size, ControlAction::StartSession(squad_size))
        } else if script@ == reward_script() && content@ == "Got rewards"@ {
            (squad_size, ControlAction::CancelSession)
        } else {
            (squad_size, ControlAction::Nothing)
        },
        LogEntry::NetInfo(text) => match announced_squad(text@) {
            Some(n) => (n, ControlAction::Nothing),
            None => (squad_size, ControlAction::Nothing),
        },
        _ => (squad_size, ControlAction::Nothing),
    }
}

impl CaptureController {
    /// The squad size is a number of players, 1 to 4.
    pub open spec fn wf(&self) -> bool {
        1 <= self.squad_size <= 4
    }

    /// A controller that assumes a full squad of four until told otherwise.
    pub fn new() -> (r: CaptureController)
        ensures
            r.wf(),
            r.squad_size == 4,
    {
        CaptureController { squad_size: 4 }
    }

    /// Reacts to one log event.
    pub fn handle(&mut self, entry: &LogEntry) -> (r: ControlAction)
        requires
            old(self).wf(),
        ensures
            final(self).wf(),
            (final(self).squad_size, r) == reaction(old(self).squad_size, *entry),
    {
        match entry {
            LogEntry::ScriptInfo { script, content } => {
                if same_text(script.as_str(), "ProjectionRewardChoice") {
                    if same_text(content.as_str(), "Relic rewards initialized") {
                        return ControlAction::StartSession(self.squad_size);
                    } else if same_text(content.as_str(), "Got rewards") {
                        return ControlAction::CancelSession;
                    }
                }
                ControlAction::Nothing
            },
            LogEntry::NetInfo(text) => {
                if same_text(text.as_str(), "Num session players: 1") {
                    self.squad_size = 1;
                } else if same_text(text.as_str(), "Num session players: 2") {
                    self.squad_size = 2;
                } else if same_text(text.as_str(), "Num session players: 3") {
                    self.squad_size = 3;
                } else if same_text(text.as_str(), "Num session players: 4") {
                    self.squad_size = 4;
                }
                ControlAction::Nothing
            },
            _ => ControlAction::Nothing,
        }
    }
}

/// A squad-size announcement never starts or stops a session; it only sets
/// the size of the sessions started after it.
pub proof fn lemma_squad_change_leaves_session(squad_size: usize, e: LogEntry)
    requires
        e is NetInfo,
    ensures
        reaction(squad_size, e).1 == ControlAction::Nothing,
{
}

/// Whether the capture task is reading a reward screen, and which.
#[derive(Debug)]
pub enum Lifecycle {
    /// No session is running.
    Idle,
    /// A session is running, or has just ended and is yet to be settled.
    Active(CaptureSession),
}

/// A session as it starts: `squad_size` unresolved slots, no attempt made.
pub open spec fn fresh_session(s: CaptureSession, squad_size: usize) -> bool {
    &&& s.wf()
    &&& s.squad_size == squad_size
    &&& s.slots@ == Seq::new(squad_size as nat, |i: int| None::<Item>)
    &&& s.attempt == 0
}

impl Lifecycle {
    /// An active session is well formed.
    pub open spec fn wf(&self) -> bool {
        match self {
            Lifecycle::Idle => true,
            Lifecycle::Active(s) => s.wf(),
        }
    }

    /// A session is running and not over.
    pub open spec fn capturing(&self) -> bool {
        match self {
            Lifecycle::Idle => false,
            Lifecycle::Active(s) => !session_over(s.slots@, s.attempt),
        }
    }

    /// No session yet.
    pub fn new() -> (r: Lifecycle)
        ensures
            r == Lifecycle::Idle,
    {
        Lifecycle::Idle
    }

    /// Whether a session is running and not over.
    pub fn is_capturing(&self) -> (r: bool)
        ensures
            r == self.capturing(),
    {
        match self {
            Lifecycle::Idle => false,
            Lifecycle::Active(s) => !s.is_finished(),
        }
    }

    /// The running session, if any.
    pub fn session(&self) -> (r: Option<&CaptureSession>)
        ensures
            match *self {
                Lifecycle::Idle => r is None,
                Lifecycle::Active(s) => r is Some && *r->0 == s,
            },
    {
        match self {
            Lifecycle::Idle => None,
            Lifecycle::Active(s) => Some(s),
        }
    }

    /// Reacts to a control message: a start opens a session when none is
    /// running (for a squad of 1 to 4), a cancel drops the running one, and
    /// nothing else changes anything.
    pub fn on_control(&mut self, action: ControlAction)
        requires
            old(self).wf(),
        ensures
            final(self).wf(),
            match action {
                ControlAction::StartSession(n) => if *old(self) is Idle && 1 <= n <= 4 {
                    *final(self) is Active && fresh_session((*final(self))->0, n)
                } else {
                    *final(self) == *old(self)
                },
                ControlAction::CancelSession => *final(self) == Lifecycle::Idle,
                ControlAction::Nothing => *final(self) == *old(self),
            },
    {
        match action {
            ControlAction::StartSession(n) => {
                if let Lifecycle::Idle = self {
                    if 1 <= n && n <= 4 {
                        *self = Lifecycle::Active(CaptureSession::new(n));
                    }
                }
            },
            ControlAction::CancelSession => {
                *self = Lifecycle::Idle;
            },
            ControlAction::Nothing => {},
        }
    }

    /// Records one attempt's results, by slot, into the running session.
    pub fn record_attempt(&mut self, results: Vec<Option<Item>>)
        requires
            old(self).wf(),
            old(self).capturing(),
            results@.len() == (*old(self))->0.squad_size,
        ensures
            final(self).wf(),
            *final(self) is Active,
            (*final(self))->0.squad_size == (*old(self))->0.squad_size,
            (*final(self))->0.slots@ == merged((*old(self))->0.slots@, results@),
            (*final(self))->0.attempt == (*old(self))->0.attempt + 1,
    {
        match self {
            Lifecycle::Active(s) => {
                s.record_attempt(results);
            },
            Lifecycle::Idle => {},
        }
    }

    /// Ends a session that is over: every slot resolved or attempts spent.
    pub fn settle(&mut self)
        requires
            old(self).wf(),
        ensures
            final(self).wf(),
            match *old(self) {
                Lifecycle::Active(s) => if session_over(s.slots@, s.attempt) {
                    *final(self) == Lifecycle::Idle
                } else {
                    *final(self) == *old(self)
                },
                Lifecycle::Idle => *final(self) == Lifecycle::Idle,
            },
    {
        let over = match self {
            Lifecycle::Active(s) => s.is_finished(),
            Lifecycle::Idle => false,
        };
        if over {
            *self = Lifecycle::Idle;
        }
    }
}

/// A running session makes at most `MAX_ATTEMPTS` attempts: once it has made
/// them it is over, and settling it makes the lifecycle idle.
pub proof fn lemma_session_attempts_bounded(l: Lifecycle)
    requires
        l is Active,
        l->0.attempt >= MAX_ATTEMPTS,
    ensures
        !l.capturing(),
{
}

/// A single player's session reads one region per attempt, the slot-0
/// region, for as long as it runs; an attempt ends it exactly when it
/// recognizes the item or is the tenth attempt.
pub proof fn lemma_single_player_session(l: Lifecycle, results: Seq<Option<Item>>)
    requires
        l.wf(),
        l.capturing(),
        l->0.squad_size == 1,
        results.len() == 1,
    ensures
        pending_of(l->0.slots@) == seq![0usize],
        session_over(merged(l->0.slots@, results), (l->0.attempt + 1) as u32) <==> (results[0] is Some
            || l->0.attempt + 1 >= MAX_ATTEMPTS),
{
    let s = l->0.slots@;
    assert(s.drop_last().len() == 0);
    assert(pending_of(s.drop_last()) == Seq::<usize>::empty());
    assert(!(s[0] is Some));
    assert(pending_of(s) =~= seq![0usize]);
    let m = merged(s, results);
    assert(m[0] == results[0]);
}

} // verus!
