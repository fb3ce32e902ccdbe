//! Pieces of the map viewer's state that are independent of drawing.

use vstd::prelude::*;

verus! {

/// A value that remembers whether it changed since it was last saved.
pub struct Dirty<T> {
    inner: T,
    dirty: bool,
}

impl<T> Dirty<T> {
    /// The wrapped value.
    pub closed spec fn value(&self) -> T {
        self.inner
    }

    /// Whether the value changed since it was last saved.
    pub closed spec fn dirty(&self) -> bool {
        self.dirty
    }

    /// A new value, not yet saved.
    pub fn new(inner: T) -> (d: Self)
        ensures
            d.value() == inner,
            d.dirty(),
    {
        Dirty { inner, dirty: true }
    }

    /// A value just loaded from storage.
    pub fn new_clean(inner: T) -> (d: Self)
        ensures
            d.value() == inner,
            !d.dirty(),
    {
        Dirty { inner, dirty: false }
    }

    pub fn is_dirty(&self) -> (dirty: bool)
        ensures
            dirty == self.dirty(),
    {
        self.dirty
    }

    /// Marks the value as saved.
    pub fn set_clean(&mut self)
        ensures
            final(self).value() == old(self).value(),
            !final(self).dirty(),
    {
        self.dirty = false;
    }

    pub fn into_inner(self) -> (inner: T)
        ensures
            inner == self.value(),
    {
        self.inner
    }

    /// Reads the value; reading leaves the mark alone.
    pub fn get(&self) -> (inner: &T)
        ensures
            *inner == self.value(),
    {
        &self.inner
    }

    /// Borrows the value for change, which marks it as changed.
    pub fn get_mut(&mut self) -> (inner: &mut T)
        ensures
            *inner == old(self).value(),
            final(self).value() == *final(inner),
            final(self).dirty(),
    {
        self.dirty = true;
        &mut self.inner
    }
}

impl<T: Default> Default for Dirty<T> {
    fn default() -> (d: Self)
        ensures
            d.dirty(),
    {
        Dirty { inner: T::default(), dirty: true }
    }
}

/// A call on a [`Dirty`] value, as far as its mark is concerned.
#[derive(Clone, Copy, Debug, PartialEq, Eq, Structural)]
pub enum DirtyCall {
    SetClean,
    GetMut,
    Get,
    IsDirty,
}

/// What the contract of a call says of the value before and after it:
/// `set_clean` keeps the value and clears the mark, `get_mut` sets the mark,
/// and `get` and `is_dirty` change nothing.
pub open spec fn dirty_step<T>(before: Dirty<T>, call: DirtyCall, after: Dirty<T>) -> bool {
    match call {
        DirtyCall::SetClean => after.value() == before.value() && !after.dirty(),
        DirtyCall::GetMut => after.dirty(),
        DirtyCall::Get | DirtyCall::IsDirty => after == before,
    }
}

/// No call marks the value clean.
pub open spec fn never_cleaned(calls: Seq<DirtyCall>) -> bool {
    forall|i: int| 0 <= i < calls.len() ==> #[trigger] calls[i] != DirtyCall::SetClean
}

/// Some call borrows the value for change and no later call marks it clean.
pub open spec fn changed_since_cleaned(calls: Seq<DirtyCall>) -> bool {
    exists|i: int|
        0 <= i < calls.len() && #[trigger] calls[i] == DirtyCall::GetMut && forall|j: int|
            i < j < calls.len() ==> #[trigger] calls[j] != DirtyCall::SetClean
}

proof fn lemma_never_cleaned_step(calls: Seq<DirtyCall>)
    requires
        calls.len() > 0,
    ensures
        never_cleaned(calls) == (never_cleaned(calls.drop_last()) && calls.last()
            != DirtyCall::SetClean),
{
    let pc = calls.drop_last();
    if never_cleaned(pc) && calls.last() != DirtyCall::SetClean {
        assert forall|i: int| 0 <= i < calls.len() implies #[trigger] calls[i] != DirtyCall::SetClean by {
            if i < pc.len() {
                assert(pc[i] == calls[i]);
            }
        }
    }
    if never_cleaned(calls) {
        assert forall|i: int| 0 <= i < pc.len() implies #[trigger] pc[i] != DirtyCall::SetClean by {
            assert(pc[i] == calls[i]);
        }
    }
}

proof fn lemma_changed_since_cleaned_step(calls: Seq<DirtyCall>)
    requires
        calls.len() > 0,
    ensures
        changed_since_cleaned(calls) == match calls.last() {
            DirtyCall::SetClean => false,
            DirtyCall::GetMut => true,
            _ => changed_since_cleaned(calls.drop_last()),
        },
{
    let n = calls.len() - 1;
    let pc = calls.drop_last();
    match calls.last() {
        DirtyCall::SetClean => {
            if changed_since_cleaned(calls) {
                let i = choose|i: int|
                    0 <= i < calls.len() && #[trigger] calls[i] == DirtyCall::GetMut && forall|j: int|
                        i < j < calls.len() ==> #[trigger] calls[j] != DirtyCall::SetClean;
                assert(calls[n] == DirtyCall::SetClean);
            }
        },
        DirtyCall::GetMut => {
            assert(calls[n] == DirtyCall::GetMut);
            assert(forall|j: int| n < j < calls.len() ==> #[trigger] calls[j] != DirtyCall::SetClean);
        },
        _ => {
            if changed_since_cleaned(pc) {
                let i = choose|i: int|
                    0 <= i < pc.len() && #[trigger] pc[i] == DirtyCall::GetMut && forall|j: int|
                        i < j < pc.len() ==> #[trigger] pc[j] != DirtyCall::SetClean;
                assert(calls[i] == DirtyCall::GetMut);
                assert forall|j: int| i < j < calls.len() implies #[trigger] calls[j]
                    != DirtyCall::SetClean by {
                    if j < n {
                        assert(pc[j] == calls[j]);
                    }
                }
            }
            if changed_since_cleaned(calls) {
                let i = choose|i: int|
                    0 <= i < calls.len() && #[trigger] calls[i] == DirtyCall::GetMut && forall|j: int|
                        i < j < calls.len() ==> #[trigger] calls[j] != DirtyCall::SetClean;
                assert(i < n);
                assert(pc[i] == DirtyCall::GetMut);
                assert forall|j: int| i < j < pc.len() implies #[trigger] pc[j] != DirtyCall::SetClean by {
                    assert(pc[j] == calls[j]);
                }
            }
        },
    }
}

/// After any sequence of calls, a value is marked exactly when it started
/// marked (made by `new` or `default`) and was never marked clean, or when
/// it was borrowed for change after the last time it was marked clean.
pub proof fn law_dirty_mark<T>(states: Seq<Dirty<T>>, calls: Seq<DirtyCall>)
    requires
        states.len() == calls.len() + 1,
        forall|i: int| 0 <= i < calls.len() ==> dirty_step(states[i], #[trigger] calls[i], states[i + 1]),
    ensures
        states.last().dirty() <==> ((states[0].dirty() && never_cleaned(calls))
            || changed_since_cleaned(calls)),
    decreases calls.len(),
{
    if calls.len() > 0 {
        let n = calls.len() - 1;
        let ps = states.drop_last();
        let pc = calls.drop_last();
        assert forall|i: int| 0 <= i < pc.len() implies dirty_step(ps[i], #[trigger] pc[i], ps[i + 1]) by {
            assert(calls[i] == pc[i]);
        }
        law_dirty_mark(ps, pc);
        lemma_never_cleaned_step(calls);
        lemma_changed_since_cleaned_step(calls);
        assert(dirty_step(states[n], calls[n], states[n + 1]));
        assert(ps.last() == states[n]);
        assert(ps[0] == states[0]);
    }
}

/// Picks the start and then the end of a route by clicks on the map.  With
/// neither chosen, a click chooses the start; with only the start chosen, a
/// click chooses the end; otherwise nothing changes and no click is taken.
/// `click` takes the pending click and finds the node at it.
pub fn get_start_end_pos<P, F: FnOnce() -> Option<P>>(pos: (Option<P>, Option<P>), click: F) -> (next: (
    Option<P>,
    Option<P>,
))
    requires
        click.requires(()),
    ensures
        match pos {
            (None, None) => next.1 is None && click.ensures((), next.0),
            (Some(start), None) => next.0 == Some(start) && click.ensures((), next.1),
            _ => next == pos,
        },
{
    match pos {
        (None, None) => (click(), None),
        (Some(start), None) => (Some(start), click()),
        pos => pos,
    }
}

/// An error shown to the user in a dialog.
#[derive(Debug)]
pub struct ErrorMsg(pub String);

impl ErrorMsg {
    /// What the dialog shows: the message itself.
    pub fn message(&self) -> (message: &str)
        ensures
            message@ == self.0@,
    {
        self.0.as_str()
    }
}

/// The error of an event channel whose senders are all gone.
#[derive(Debug)]
pub struct EventHandlerError;

impl EventHandlerError {
    pub fn message(&self) -> (message: &'static str)
        ensures
            message@ == "Event channel closed"@,
    {
        "Event channel closed"
    }
}

} // verus!
