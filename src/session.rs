use vstd::prelude::*;

use crate::auth::{pass_check, verdict_on, Auth};
use crate::buffer::{popped, pushed, CredentialBuffer, DecodeError, MAX_BUF_SIZE};
use crate::feedback::Feedback;
use crate::keys::Key;
use crate::setup::{after_teardown, Setup, SetupState, Stage, STAGE_COUNT};

verus! {

/// What the event loop does after the session has handled an event.
#[derive(Debug, Clone, Copy, PartialEq, Eq, Structural)]
pub enum Command {
    /// Wait for the next key event.
    Wait,
    /// The attempt failed: show the failure, then `settle` and wait again.
    Reject,
    /// The credential was accepted: show the success, then release the lock.
    Unlock,
}

/// The observable state of a lock session.
pub struct SessionState {
    /// The credential typed so far.
    pub typed: Seq<char>,
    /// What the overlay shows.
    pub feedback: Feedback,
}

/// A consistent session state: within capacity, and showing "typing"
/// exactly when something has been typed.
pub open spec fn state_ok(s: SessionState) -> bool {
    s.typed.len() <= MAX_BUF_SIZE && (s.feedback == Feedback::Typing <==> s.typed.len() > 0)
}

/// The state every attempt starts from.
pub open spec fn idle_state() -> SessionState {
    SessionState { typed: Seq::empty(), feedback: Feedback::Idle }
}

/// The feedback that goes with a credential that stays in the buffer.
pub open spec fn typing_or_idle(typed: Seq<char>) -> Feedback {
    if typed.len() == 0 {
        Feedback::Idle
    } else {
        Feedback::Typing
    }
}

/// Handling a verdict. Either way the credential is dropped; an accepted one
/// ends the session, which then stays unlocked.
pub open spec fn after_verdict(s: SessionState, v: Auth) -> (SessionState, Command) {
    if s.feedback == Feedback::Success {
        (s, Command::Unlock)
    } else {
        match v {
            Auth::Correct => (
                SessionState { typed: Seq::empty(), feedback: Feedback::Success },
                Command::Unlock,
            ),
            Auth::Incorrect => (
                SessionState { typed: Seq::empty(), feedback: Feedback::Failure },
                Command::Reject,
            ),
        }
    }
}

/// Handling a key press, with `hash` the stored password hash. Submitting an
/// empty credential does nothing; an unresolvable key fails the attempt.
pub open spec fn after_key(s: SessionState, key: Key, hash: Seq<char>) -> (SessionState, Command) {
    if s.feedback == Feedback::Success {
        (s, Command::Unlock)
    } else {
        match key {
            Key::Submit => if s.typed.len() == 0 {
                (s, Command::Wait)
            } else {
                after_verdict(s, verdict_on(s.typed, hash))
            },
            Key::Cancel => (idle_state(), Command::Wait),
            Key::Erase => (
                SessionState { typed: popped(s.typed), feedback: typing_or_idle(popped(s.typed)) },
                Command::Wait,
            ),
            Key::Modifier => (s, Command::Wait),
            Key::Text(c) => (
                SessionState { typed: pushed(s.typed, c), feedback: Feedback::Typing },
                Command::Wait,
            ),
            Key::Unresolved => (
                SessionState { typed: Seq::empty(), feedback: Feedback::Failure },
                Command::Reject,
            ),
        }
    }
}

/// Ending the display of a failure.
pub open spec fn after_settle(s: SessionState) -> SessionState {
    if s.feedback == Feedback::Failure {
        SessionState { typed: s.typed, feedback: typing_or_idle(s.typed) }
    } else {
        s
    }
}

/// Releasing the lock: the credential does not outlive it.
pub open spec fn after_release(s: SessionState) -> SessionState {
    SessionState {
        typed: Seq::empty(),
        feedback: if s.feedback == Feedback::Typing {
            Feedback::Idle
        } else {
            s.feedback
        },
    }
}

/// A lock session: the credential being typed, the feedback shown, and the
/// display resources the lock holds.
pub struct Session {
    buf: CredentialBuffer,
    feedback: Feedback,
    setup: Setup,
}

impl View for Session {
    type V = SessionState;

    closed spec fn view(&self) -> SessionState {
        SessionState { typed: self.buf@, feedback: self.feedback }
    }
}

impl Session {
    /// The resources the session's lock holds.
    pub closed spec fn resources(&self) -> SetupState {
        self.setup@
    }

    /// A consistent session over a setup that never goes past its last stage.
    pub open spec fn wf(&self) -> bool {
        state_ok(self@) && self.resources().done <= STAGE_COUNT
    }

    /// Starts a session on a complete lock; an incomplete setup is handed back.
    pub fn start(setup: Setup) -> (r: Result<Session, Setup>)
        requires
            setup.wf(),
        ensures
            r is Ok <==> (setup@.done == STAGE_COUNT && !setup@.released),
            r is Ok ==> r->Ok_0.wf() && r->Ok_0@ == idle_state() && r->Ok_0.resources()
                == setup@,
            r is Err ==> r->Err_0@ == setup@ && r->Err_0.wf(),
    {
        if setup.is_locked() {
            Ok(Session { buf: CredentialBuffer::new(), feedback: Feedback::Idle, setup })
        } else {
            Err(setup)
        }
    }

    /// What the overlay should show.
    pub fn feedback(&self) -> (r: Feedback)
        ensures
            r == self@.feedback,
    {
        self.feedback
    }

    /// Number of characters typed.
    pub fn typed_len(&self) -> (r: usize)
        ensures
            r == self@.typed.len(),
    {
        self.buf.len()
    }

    /// Whether the lock still holds all its resources.
    pub fn is_locked(&self) -> (r: bool)
        ensures
            r == (self.resources().done == STAGE_COUNT && !self.resources().released),
    {
        self.setup.is_locked()
    }

    /// Drops the credential and fails the attempt.
    fn fail(&mut self)
        requires
            old(self).wf(),
        ensures
            final(self).wf(),
            final(self)@ == (SessionState { typed: Seq::empty(), feedback: Feedback::Failure }),
            final(self).resources() == old(self).resources(),
    {
        self.buf.clear();
        self.feedback = Feedback::Failure;
    }

    /// Applies the credential backend's verdict on the submitted credential.
    pub fn on_verdict(&mut self, v: Auth) -> (r: Command)
        requires
            old(self).wf(),
        ensures
            final(self).wf(),
            (final(self)@, r) == after_verdict(old(self)@, v),
            final(self).resources() == old(self).resources(),
    {
        if self.feedback == Feedback::Success {
            return Command::Unlock;
        }
        match v {
            Auth::Correct => {
                self.buf.clear();
                self.feedback = Feedback::Success;
                Command::Unlock
            },
            Auth::Incorrect => {
                self.fail();
                Command::Reject
            },
        }
    }

    /// Handles one key press; `hash` is the account's stored password hash.
    pub fn on_key(&mut self, key: Key, hash: &str) -> (r: Command)
        requires
            old(self).wf(),
        ensures
            final(self).wf(),
            (final(self)@, r) == after_key(old(self)@, key, hash@),
            final(self).resources() == old(self).resources(),
    {
        if self.feedback == Feedback::Success {
            return Command::Unlock;
        }
        match key {
            Key::Submit => {
                if self.buf.is_empty() {
                    return Command::Wait;
                }
                match self.buf.build_str() {
                    Ok(text) => {
                        let v = pass_check(text.as_str(), hash);
                        self.on_verdict(v)
                    },
                    Err(DecodeError::InvalidUtf8) => {
                        self.fail();
                        Command::Reject
                    },
                }
            },
            Key::Cancel => {
                self.buf.clear();
                self.feedback = Feedback::Idle;
                Command::Wait
            },
            Key::Erase => {
                self.buf.pop_char();
                self.feedback =
                    if self.buf.is_empty() {
                        Feedback::Idle
                    } else {
                        Feedback::Typing
                    };
                Command::Wait
            },
            Key::Modifier => Command::Wait,
            Key::Text(c) => {
                self.buf.push_char(c);
                self.feedback = Feedback::Typing;
                Command::Wait
            },
            Key::Unresolved => {
                self.fail();
                Command::Reject
            },
        }
    }

    /// Ends the display of a failure.
    pub fn settle(&mut self)
        requires
            old(self).wf(),
        ensures
            final(self).wf(),
            final(self)@ == after_settle(old(self)@),
            final(self).resources() == old(self).resources(),
    {
        if self.feedback == Feedback::Failure {
            self.feedback =
                if self.buf.is_empty() {
                    Feedback::Idle
                } else {
                    Feedback::Typing
                };
        }
    }

    /// Releases the lock: the stages to undo, last acquired first, on the first
    /// call, and nothing on any later one. The credential is dropped.
    pub fn release(&mut self) -> (r: Vec<Stage>)
        requires
            old(self).wf(),
        ensures
            final(self).wf(),
            final(self)@ == after_release(old(self)@),
            (final(self).resources(), r@) == after_teardown(old(self).resources()),
    {
        self.buf.clear();
        if self.feedback == Feedback::Typing {
            self.feedback = Feedback::Idle;
        }
        self.setup.teardown()
    }
}

/// The state after typing the characters `cs`, one key press each.
pub open spec fn after_typing(s: SessionState, cs: Seq<char>, hash: Seq<char>) -> SessionState
    decreases cs.len(),
{
    if cs.len() == 0 {
        s
    } else {
        after_typing(after_key(s, Key::Text(cs[0]), hash).0, cs.drop_first(), hash)
    }
}

/// Typing within capacity, short of success, appends what is typed.
proof fn lemma_typing_appends(s: SessionState, cs: Seq<char>, hash: Seq<char>)
    requires
        s.feedback != Feedback::Success,
        s.typed.len() + cs.len() <= MAX_BUF_SIZE,
        cs.len() > 0,
    ensures
        after_typing(s, cs, hash) == (SessionState { typed: s.typed + cs, feedback: Feedback::Typing }),
    decreases cs.len(),
{
    let next = after_key(s, Key::Text(cs[0]), hash).0;
    assert(next.typed == s.typed.push(cs[0]));
    if cs.len() == 1 {
        assert(cs.drop_first().len() == 0);
        assert(s.typed.push(cs[0]) =~= s.typed + cs);
    } else {
        lemma_typing_appends(next, cs.drop_first(), hash);
        assert(s.typed.push(cs[0]) + cs.drop_first() =~= s.typed + cs);
    }
}

/// Failed attempts do not add up: a wrong credential, typed and submitted,
/// is rejected and leaves the same state however often it is tried, and a
/// rejection leads to the same state from every state short of success.
pub proof fn lemma_failure_does_not_escalate(
    s1: SessionState,
    s2: SessionState,
    text: Seq<char>,
    hash: Seq<char>,
)
    requires
        s1.feedback != Feedback::Success,
        s2.feedback != Feedback::Success,
        0 < text.len() <= MAX_BUF_SIZE,
        verdict_on(text, hash) == Auth::Incorrect,
    ensures
        after_verdict(s1, Auth::Incorrect) == after_verdict(s2, Auth::Incorrect),
        after_verdict(s1, Auth::Incorrect).1 == Command::Reject,
        ({
            let (first, c1) = after_key(after_typing(idle_state(), text, hash), Key::Submit, hash);
            let (second, c2) = after_key(
                after_typing(after_settle(first), text, hash),
                Key::Submit,
                hash,
            );
            &&& c1 == Command::Reject
            &&& c2 == Command::Reject
            &&& first == second
            &&& first.typed.len() == 0
        }),
{
    lemma_typing_appends(idle_state(), text, hash);
    assert(Seq::<char>::empty() + text =~= text);
    let (first, c1) = after_key(after_typing(idle_state(), text, hash), Key::Submit, hash);
    assert(after_settle(first) == idle_state());
}

/// Escape, in any state short of success, drops the credential and goes
/// back to idle without ending the session.
pub proof fn lemma_cancel_returns_to_idle(s: SessionState, hash: Seq<char>)
    requires
        s.feedback != Feedback::Success,
    ensures
        after_key(s, Key::Cancel, hash) == (idle_state(), Command::Wait),
{
}

/// Submitting an empty credential changes nothing and keeps waiting; the
/// stored hash is not consulted.
pub proof fn lemma_empty_submit_waits(s: SessionState, hash: Seq<char>, other: Seq<char>)
    requires
        s.feedback != Feedback::Success,
        s.typed.len() == 0,
    ensures
        after_key(s, Key::Submit, hash) == (s, Command::Wait),
        after_key(s, Key::Submit, hash) == after_key(s, Key::Submit, other),
{
}

/// A wrong credential, typed from idle and submitted, is rejected and
/// leaves the buffer empty with the failure shown; settling returns to idle.
pub proof fn lemma_wrong_secret_rejected(text: Seq<char>, hash: Seq<char>)
    requires
        0 < text.len() <= MAX_BUF_SIZE,
        verdict_on(text, hash) == Auth::Incorrect,
    ensures
        after_key(after_typing(idle_state(), text, hash), Key::Submit, hash) == (
        SessionState { typed: Seq::empty(), feedback: Feedback::Failure },
        Command::Reject,
        ),
        after_settle(after_key(after_typing(idle_state(), text, hash), Key::Submit, hash).0)
            == idle_state(),
{
    lemma_typing_appends(idle_state(), text, hash);
    assert(Seq::<char>::empty() + text =~= text);
}

/// One more character typed into a full credential leaves that character
/// alone in the buffer.
pub proof fn lemma_overflow_keeps_newest(s: SessionState, c: char, hash: Seq<char>)
    requires
        s.feedback != Feedback::Success,
        s.typed.len() == MAX_BUF_SIZE,
    ensures
        after_key(s, Key::Text(c), hash) == (
        SessionState { typed: seq![c], feedback: Feedback::Typing },
        Command::Wait,
        ),
{
}

/// The secret, typed from idle and submitted, unlocks the session with the
/// credential dropped, and every later key leaves it unlocked and unchanged.
pub proof fn lemma_secret_unlocks(secret: Seq<char>, hash: Seq<char>, later: Key)
    requires
        0 < secret.len() <= MAX_BUF_SIZE,
        verdict_on(secret, hash) == Auth::Correct,
    ensures
        ({
            let (done, c) = after_key(after_typing(idle_state(), secret, hash), Key::Submit, hash);
            &&& c == Command::Unlock
            &&& done == (SessionState { typed: Seq::empty(), feedback: Feedback::Success })
            &&& after_key(done, later, hash) == (done, Command::Unlock)
            &&& after_verdict(done, Auth::Incorrect) == (done, Command::Unlock)
        }),
{
    lemma_typing_appends(idle_state(), secret, hash);
    assert(Seq::<char>::empty() + secret =~= secret);
}

} // verus!
