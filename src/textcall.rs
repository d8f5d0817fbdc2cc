use vstd::prelude::*;

verus! {

/// What the loop is to do next for a text call.
#[derive(Clone, Copy, Debug, PartialEq, Eq, Structural)]
pub enum TextStep {
    /// Write the argument string into the target.
    WriteArgument,
    /// Call the entry point with this foreign address (zero: no argument).
    Call(usize),
    /// Release the argument buffer.
    ReleaseArgument,
    /// Read the string the call returned at this foreign address.
    ReadResult(usize),
    /// The call is over.
    Done,
}

/// What came of the last step.
#[derive(Clone, Copy, Debug, PartialEq, Eq, Structural)]
pub enum TextOutcome {
    Written(usize),
    WriteFailed,
    Returned(usize),
    CallFailed,
    Released,
    ResultRead,
    ReadFailed,
}

#[derive(Clone, Copy, Debug, PartialEq, Eq, Structural)]
pub enum TextPhase {
    Writing,
    Calling,
    Releasing,
    Reading,
    Done,
}

/// The state of a text call: its phase, whether an argument buffer is held,
/// and the address the call returned.
pub type TextState = (TextPhase, bool, usize);

/// After the argument is gone: read a non-null result, else finish.
pub open spec fn after_release(result: usize) -> (TextState, TextStep) {
    if result != 0 {
        ((TextPhase::Reading, false, result), TextStep::ReadResult(result))
    } else {
        ((TextPhase::Done, false, 0), TextStep::Done)
    }
}

/// Whether `o` can come of the step that `s` is waiting on.
pub open spec fn expects_spec(s: TextState, o: TextOutcome) -> bool {
    match s.0 {
        TextPhase::Writing => o is Written || o is WriteFailed,
        TextPhase::Calling => o is Returned || o is CallFailed,
        TextPhase::Releasing => o is Released,
        TextPhase::Reading => o is ResultRead || o is ReadFailed,
        TextPhase::Done => false,
    }
}

/// One transition of a text call.
pub open spec fn text_step_spec(s: TextState, o: TextOutcome) -> (TextState, TextStep) {
    match (s.0, o) {
        (TextPhase::Writing, TextOutcome::Written(a)) => (
            (TextPhase::Calling, true, 0),
            TextStep::Call(a),
        ),
        (TextPhase::Calling, TextOutcome::Returned(r)) => if s.1 {
            ((TextPhase::Releasing, true, r), TextStep::ReleaseArgument)
        } else {
            after_release(r)
        },
        (TextPhase::Calling, TextOutcome::CallFailed) => if s.1 {
            ((TextPhase::Releasing, true, 0), TextStep::ReleaseArgument)
        } else {
            ((TextPhase::Done, false, 0), TextStep::Done)
        },
        (TextPhase::Releasing, TextOutcome::Released) => after_release(s.2),
        _ => ((TextPhase::Done, false, 0), TextStep::Done),
    }
}

/// A held argument buffer belongs to a call that is running or being released from.
pub open spec fn text_inv(s: TextState) -> bool {
    s.1 ==> (s.0 == TextPhase::Calling || s.0 == TextPhase::Releasing)
}

/// The sequence of one call of a `Text` entry point: the argument is written
/// first, if there is one, and released once the call has returned or
/// failed, before the result is read.
pub struct TextCall {
    phase: TextPhase,
    held: bool,
    result: usize,
}

impl TextCall {
    pub closed spec fn view(&self) -> TextState {
        (self.phase, self.held, self.result)
    }

    /// Starts a call; with an argument the first step writes it, without one
    /// the call is made with a null address.
    pub fn start(has_argument: bool) -> (r: (TextCall, TextStep))
        ensures
            text_inv(r.0@),
            has_argument ==> r.0@ == (TextPhase::Writing, false, 0usize) && r.1
                == TextStep::WriteArgument,
            !has_argument ==> r.0@ == (TextPhase::Calling, false, 0usize) && r.1 == TextStep::Call(
                0,
            ),
    {
        if has_argument {
            (TextCall { phase: TextPhase::Writing, held: false, result: 0 }, TextStep::WriteArgument)
        } else {
            (TextCall { phase: TextPhase::Calling, held: false, result: 0 }, TextStep::Call(0))
        }
    }

    /// Whether `o` can come of the step this call waits on.
    pub fn expects(&self, o: TextOutcome) -> (r: bool)
        ensures
            r == expects_spec(self@, o),
    {
        match self.phase {
            TextPhase::Writing => matches!(o, TextOutcome::Written(_) | TextOutcome::WriteFailed),
            TextPhase::Calling => matches!(o, TextOutcome::Returned(_) | TextOutcome::CallFailed),
            TextPhase::Releasing => matches!(o, TextOutcome::Released),
            TextPhase::Reading => matches!(o, TextOutcome::ResultRead | TextOutcome::ReadFailed),
            TextPhase::Done => false,
        }
    }

    /// Takes the outcome of the last step and gives the next one. A failed
    /// write ends the call without calling; a held argument is released
    /// right after the call, whether it returned or failed; a call never
    /// finishes with the argument still held.
    pub fn step(&mut self, o: TextOutcome) -> (s: TextStep)
        requires
            text_inv(old(self)@),
            expects_spec(old(self)@, o),
        ensures
            (final(self)@, s) == text_step_spec(old(self)@, o),
            text_inv(final(self)@),
            s == TextStep::ReleaseArgument <==> old(self)@.0 == TextPhase::Calling && old(self)@.1,
            s == TextStep::Done ==> !final(self)@.1,
    {
        match (self.phase, o) {
            (TextPhase::Writing, TextOutcome::Written(a)) => {
                self.phase = TextPhase::Calling;
                self.held = true;
                self.result = 0;
                TextStep::Call(a)
            },
            (TextPhase::Calling, TextOutcome::Returned(r)) => {
                if self.held {
                    self.phase = TextPhase::Releasing;
                    self.result = r;
                    TextStep::ReleaseArgument
                } else {
                    self.finish_with(r)
                }
            },
            (TextPhase::Calling, TextOutcome::CallFailed) => {
                if self.held {
                    self.phase = TextPhase::Releasing;
                    self.result = 0;
                    TextStep::ReleaseArgument
                } else {
                    self.phase = TextPhase::Done;
                    self.result = 0;
                    TextStep::Done
                }
            },
            (TextPhase::Releasing, TextOutcome::Released) => {
                let r = self.result;
                self.finish_with(r)
            },
            _ => {
                self.phase = TextPhase::Done;
                self.held = false;
                self.result = 0;
                TextStep::Done
            },
        }
    }

    fn finish_with(&mut self, r: usize) -> (s: TextStep)
        ensures
            (final(self)@, s) == after_release(r),
    {
        self.held = false;
        if r != 0 {
            self.phase = TextPhase::Reading;
            self.result = r;
            TextStep::ReadResult(r)
        } else {
            self.phase = TextPhase::Done;
            self.result = 0;
            TextStep::Done
        }
    }
}

} // verus!
