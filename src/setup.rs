use vstd::prelude::*;

verus! {

/// A display resource that a lock acquires, in the order it is acquired.
#[derive(Debug, Clone, Copy, PartialEq, Eq, Structural)]
pub enum Stage {
    /// The full-screen overlay window, created and mapped.
    Surface,
    /// The drawing context that fills the overlay with the feedback colour.
    Context,
    /// The invisible pointer glyph shown over the overlay.
    Cursor,
    /// The exclusive pointer grab, confined to the overlay.
    PointerGrab,
    /// The exclusive keyboard grab on the overlay.
    KeyboardGrab,
}

/// Number of stages a complete lock goes through.
pub const STAGE_COUNT: usize = 5;

/// The order in which a lock acquires its resources: no grab is requested
/// before the overlay it is bound to exists.
pub open spec fn lock_order() -> Seq<Stage> {
    seq![Stage::Surface, Stage::Context, Stage::Cursor, Stage::PointerGrab, Stage::KeyboardGrab]
}

/// How far a lock's setup has come, and whether its resources were released.
pub struct SetupState {
    pub done: nat,
    pub released: bool,
}

/// The resources held in a given state of the setup.
pub open spec fn held(st: SetupState) -> Seq<Stage> {
    if st.released {
        Seq::empty()
    } else {
        lock_order().take(st.done as int)
    }
}

/// The first `done` stages, last acquired first.
pub open spec fn release_order(done: nat) -> Seq<Stage> {
    Seq::new(done, |i: int| lock_order()[done - 1 - i])
}

/// A teardown: everything still held is released, last acquired first, and
/// the setup is marked released so nothing is released twice.
pub open spec fn after_teardown(st: SetupState) -> (SetupState, Seq<Stage>) {
    if st.released {
        (st, Seq::empty())
    } else {
        (SetupState { done: st.done, released: true }, release_order(st.done))
    }
}

/// Records which resources a lock holds. Stages complete only in
/// `lock_order`, and teardown releases exactly the completed ones, once.
pub struct Setup {
    done: usize,
    released: bool,
}

impl View for Setup {
    type V = SetupState;

    closed spec fn view(&self) -> SetupState {
        SetupState { done: self.done as nat, released: self.released }
    }
}

/// The stage at position `i` of `lock_order`.
fn stage_at(i: usize) -> (r: Stage)
    requires
        i < STAGE_COUNT,
    ensures
        r == lock_order()[i as int],
{
    if i == 0 {
        Stage::Surface
    } else if i == 1 {
        Stage::Context
    } else if i == 2 {
        Stage::Cursor
    } else if i == 3 {
        Stage::PointerGrab
    } else {
        Stage::KeyboardGrab
    }
}

impl Setup {
    /// No setup ever goes past the last stage.
    pub open spec fn wf(&self) -> bool {
        self@.done <= STAGE_COUNT
    }

    /// A setup that holds nothing yet.
    pub fn new() -> (r: Self)
        ensures
            r.wf(),
            r@ == (SetupState { done: 0, released: false }),
    {
        Setup { done: 0, released: false }
    }

    /// The stage to acquire next, if the setup is neither complete nor released.
    pub fn next_stage(&self) -> (r: Option<Stage>)
        requires
            self.wf(),
        ensures
            r == (if !self@.released && self@.done < STAGE_COUNT {
                Some(lock_order()[self@.done as int])
            } else {
                None
            }),
    {
        if !self.released && self.done < STAGE_COUNT {
            Some(stage_at(self.done))
        } else {
            None
        }
    }

    /// Records that `s` was acquired. Refused, with nothing changed, unless `s`
    /// is the next stage of a setup that was not released.
    pub fn complete(&mut self, s: Stage) -> (r: bool)
        requires
            old(self).wf(),
        ensures
            final(self).wf(),
            r == (!old(self)@.released && old(self)@.done < STAGE_COUNT && s == lock_order()[old(
                self,
            )@.done as int]),
            final(self)@ == (if r {
                SetupState { done: old(self)@.done + 1, released: false }
            } else {
                old(self)@
            }),
    {
        if !self.released && self.done < STAGE_COUNT && s == stage_at(self.done) {
            self.done = self.done + 1;
            true
        } else {
            false
        }
    }

    /// Whether every resource is held: the screen is locked.
    pub fn is_locked(&self) -> (r: bool)
        ensures
            r == (self@.done == STAGE_COUNT && !self@.released),
    {
        self.done == STAGE_COUNT && !self.released
    }

    /// Whether the resources were released.
    pub fn is_released(&self) -> (r: bool)
        ensures
            r == self@.released,
    {
        self.released
    }

    /// The stages to undo, last acquired first; empty once released.
    pub fn teardown(&mut self) -> (r: Vec<Stage>)
        requires
            old(self).wf(),
        ensures
            final(self).wf(),
            (final(self)@, r@) == after_teardown(old(self)@),
    {
        if self.released {
            return Vec::new();
        }
        let mut steps: Vec<Stage> = Vec::new();
        let mut i: usize = self.done;
        while i > 0
            invariant
                i <= self.done <= STAGE_COUNT,
                !self.released,
                steps@ =~= release_order(self.done as nat).take(self.done - i),
            decreases i,
        {
            i = i - 1;
            steps.push(stage_at(i));
        }
        self.released = true;
        steps
    }
}

/// Whatever point a setup has reached, tearing it down releases each resource
/// that it holds exactly once, last acquired first, and a second teardown
/// releases nothing.
pub proof fn lemma_teardown_exactly_once(st: SetupState)
    requires
        st.done <= STAGE_COUNT,
    ensures
        ({
            let (mid, first) = after_teardown(st);
            let (end, second) = after_teardown(mid);
            &&& second.len() == 0
            &&& held(end).len() == 0
            &&& (first + second).no_duplicates()
            &&& (first + second).len() == held(st).len()
            &&& forall|s: Stage| (first + second).contains(s) <==> held(st).contains(s)
        }),
{
    let (mid, first) = after_teardown(st);
    let (end, second) = after_teardown(mid);
    assert(second =~= Seq::<Stage>::empty());
    assert(first + second =~= first);
    let order = lock_order();
    assert forall|i: int, j: int| 0 <= i < j < STAGE_COUNT implies order[i] != order[j] by {}
    if !st.released {
        let n = st.done as int;
        assert forall|i: int, j: int| 0 <= i < first.len() && 0 <= j < first.len() && i != j implies first[i]
            != first[j] by {}
        assert forall|s: Stage| first.contains(s) <==> held(st).contains(s) by {
            if first.contains(s) {
                let i = choose|i: int| 0 <= i < first.len() && first[i] == s;
                assert(held(st)[n - 1 - i] == s);
            }
            if held(st).contains(s) {
                let j = choose|j: int| 0 <= j < held(st).len() && held(st)[j] == s;
                assert(first[n - 1 - j] == s);
            }
        }
    }
}

} // verus!
