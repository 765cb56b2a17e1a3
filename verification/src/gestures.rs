//! Parameter edits made in the editor, gathered per gesture for undo. Only
//! explicit editor gestures are recorded, never host or audio-thread
//! updates. The tracker decides which host notifications an edit needs; the
//! caller sends them.
use vstd::prelude::*;
use vstd::std_specs::cmp::PartialEqSpec;

verus! {

/// One parameter's value before and after a gesture. `id` is the
/// parameter's position in the plugin's parameter list.
#[derive(Clone, Copy, Debug, PartialEq)]
pub struct ParameterChange<V> {
    pub id: usize,
    pub before: V,
    pub after: V,
}

impl<V: Copy> ParameterChange<V> {
    /// Swaps the values, so that restoring `before` redoes or undoes the
    /// gesture.
    pub fn reverse(&mut self)
        ensures
            final(self).id == old(self).id,
            final(self).before == old(self).after,
            final(self).after == old(self).before,
    {
        let before = self.before;
        self.before = self.after;
        self.after = before;
    }
}

/// Every change with its values swapped.
pub open spec fn reversed_spec<V>(changes: Seq<ParameterChange<V>>) -> Seq<ParameterChange<V>> {
    Seq::new(
        changes.len(),
        |i: int| ParameterChange { id: changes[i].id, before: changes[i].after, after: changes[i].before },
    )
}

/// The inverse of a parameter history entry: the same changes, reversed,
/// so that the requested values are undone even before the host echoes the
/// edit.
pub fn reversed_changes<V: Copy>(changes: &Vec<ParameterChange<V>>) -> (r: Vec<ParameterChange<V>>)
    ensures
        r@ == reversed_spec(changes@),
{
    let mut r: Vec<ParameterChange<V>> = Vec::new();
    let mut i: usize = 0;
    while i < changes.len()
        invariant
            i <= changes.len(),
            r@ == reversed_spec(changes@).subrange(0, i as int),
        decreases changes.len() - i,
    {
        let mut change = changes[i];
        change.reverse();
        r.push(change);
        i = i + 1;
        assert(r@ =~= reversed_spec(changes@).subrange(0, i as int));
    }
    assert(r@ =~= reversed_spec(changes@));
    r
}

/// A gesture in progress or finished but not yet taken: whether the
/// control is still held, and whether the host was told of its start.
#[derive(Clone, Copy)]
pub struct PendingChange<V> {
    pub change: ParameterChange<V>,
    pub active: bool,
    pub notified: bool,
}

/// What `set_parameter` asks the caller to send to the host.
#[derive(Clone, Copy, Debug, PartialEq, Eq, Structural)]
pub enum SetNotification {
    /// The value repeats the last requested one: send nothing.
    Nothing,
    /// Send the new value.
    SetValue,
    /// Begin the host gesture, then send the new value.
    BeginAndSet,
}

/// The index of the pending change for `id`, if any.
pub open spec fn find_pending<V>(pending: Seq<PendingChange<V>>, id: usize) -> Option<int> {
    if exists|i: int| 0 <= i < pending.len() && #[trigger] pending[i].change.id == id {
        Some(choose|i: int| 0 <= i < pending.len() && #[trigger] pending[i].change.id == id)
    } else {
        None
    }
}

/// Every parameter has at most one pending change.
pub open spec fn distinct_ids<V>(pending: Seq<PendingChange<V>>) -> bool {
    forall|i: int, j: int|
        0 <= i < j < pending.len() ==> #[trigger] pending[i].change.id != #[trigger] pending[j].change.id
}

/// Whether any control is still held.
pub open spec fn any_active<V>(pending: Seq<PendingChange<V>>) -> bool {
    exists|i: int| 0 <= i < pending.len() && #[trigger] pending[i].active
}

/// The changes that a finished set of gestures leaves, in order: those whose
/// value moved. `moved` says whether an entry's values differ.
pub open spec fn completed<V>(pending: Seq<PendingChange<V>>, moved: spec_fn(ParameterChange<V>) -> bool) -> Seq<ParameterChange<V>>
    decreases pending.len(),
{
    if pending.len() == 0 {
        Seq::empty()
    } else {
        let rest = completed(pending.drop_last(), moved);
        if moved(pending.last().change) {
            rest.push(pending.last().change)
        } else {
            rest
        }
    }
}

/// The changes of the pending entries, in order.
pub open spec fn changes_of<V>(pending: Seq<PendingChange<V>>) -> Seq<ParameterChange<V>> {
    pending.map_values(|p: PendingChange<V>| p.change)
}

/// The values of a change differ by `V`'s own equality.
pub open spec fn value_moved<V: PartialEq>() -> spec_fn(ParameterChange<V>) -> bool {
    |c: ParameterChange<V>| !c.before.eq_spec(&c.after)
}

/// The parameters of the pending entries whose host gesture was begun, in
/// order.
pub open spec fn notified_ids<V>(pending: Seq<PendingChange<V>>) -> Seq<usize> {
    pending.filter(|p: PendingChange<V>| p.notified).map_values(|p: PendingChange<V>| p.change.id)
}

/// The editor's parameter gestures that are not yet in the undo history.
pub struct ParameterGestures<V> {
    pending: Vec<PendingChange<V>>,
}

impl<V> View for ParameterGestures<V> {
    type V = Seq<PendingChange<V>>;

    closed spec fn view(&self) -> Seq<PendingChange<V>> {
        self.pending@
    }
}

impl<V: Copy + PartialEq> ParameterGestures<V> {
    /// One pending change per parameter.
    pub open spec fn wf(&self) -> bool {
        distinct_ids(self@)
    }

    /// No gestures.
    pub fn new() -> (r: Self)
        ensures
            r@ == Seq::<PendingChange<V>>::empty(),
            r.wf(),
    {
        ParameterGestures { pending: Vec::new() }
    }

    /// Whether any control is still held.
    pub fn is_active(&self) -> (r: bool)
        ensures
            r == any_active(self@),
    {
        let mut i: usize = 0;
        while i < self.pending.len()
            invariant
                i <= self.pending@.len(),
                forall|k: int| 0 <= k < i ==> !#[trigger] self.pending@[k].active,
            decreases self.pending@.len() - i,
        {
            if self.pending[i].active {
                return true;
            }
            i = i + 1;
        }
        false
    }

    fn position(&self, id: usize) -> (r: Option<usize>)
        requires
            self.wf(),
        ensures
            match r {
                Some(i) => i < self@.len() && self@[i as int].change.id == id && find_pending(self@, id)
                    == Some(i as int),
                None => find_pending(self@, id) is None,
            },
    {
        let mut i: usize = 0;
        while i < self.pending.len()
            invariant
                i <= self.pending@.len(),
                distinct_ids(self@),
                forall|k: int| 0 <= k < i ==> self.pending@[k].change.id != id,
            decreases self.pending@.len() - i,
        {
            if self.pending[i].change.id == id {
                proof {
                    assert(self@[i as int].change.id == id);
                    let c = choose|k: int| 0 <= k < self@.len() && #[trigger] self@[k].change.id == id;
                    assert(0 <= c < self@.len() && self@[c].change.id == id);
                    if c < i {
                        assert(self.pending@[c].change.id != id);
                    } else if c > i {
                        assert(self@[i as int].change.id != self@[c].change.id);
                    }
                }
                return Some(i);
            }
            i = i + 1;
        }
        None
    }

    /// Called after all controls are drawn. While a control is held nothing
    /// is taken, so a compound action lands in one history entry. Otherwise
    /// every pending change is taken, and those whose value moved are
    /// returned in order. Where `V` keeps vstd's equality laws "moved" is
    /// `!eq_spec`.
    pub fn take_completed(&mut self) -> (r: Vec<ParameterChange<V>>)
        requires
            old(self).wf(),
        ensures
            final(self).wf(),
            any_active(old(self)@) ==> r@.len() == 0 && final(self)@ == old(self)@,
            !any_active(old(self)@) ==> final(self)@ == Seq::<PendingChange<V>>::empty(),
            !any_active(old(self)@) && V::obeys_eq_spec() ==> r@ == completed(
                old(self)@,
                value_moved::<V>(),
            ),
            forall|i: int| 0 <= i < r@.len() ==> changes_of(old(self)@).contains(#[trigger] r@[i]),
    {
        if self.is_active() {
            return Vec::new();
        }
        let mut taken: Vec<PendingChange<V>> = Vec::new();
        std::mem::swap(&mut taken, &mut self.pending);
        let mut r: Vec<ParameterChange<V>> = Vec::new();
        let mut i: usize = 0;
        while i < taken.len()
            invariant
                i <= taken@.len(),
                taken@ == old(self)@,
                V::obeys_eq_spec() ==> r@ == completed(taken@.subrange(0, i as int), value_moved::<V>()),
                forall|j: int| 0 <= j < r@.len() ==> changes_of(taken@).contains(#[trigger] r@[j]),
            decreases taken@.len() - i,
        {
            let change = taken[i].change;
            let same = change.before.eq(&change.after);
            proof {
                assert(taken@.subrange(0, i + 1).drop_last() =~= taken@.subrange(0, i as int));
            }
            if !same {
                r.push(change);
                assert(changes_of(taken@)[i as int] == r@[r@.len() - 1]);
            }
            i = i + 1;
        }
        proof {
            assert(taken@.subrange(0, taken@.len() as int) =~= taken@);
        }
        r
    }

    /// The editor closed: every gesture ends. Returns, in order, the
    /// parameters whose host gesture was begun and must now end.
    pub fn finish(&mut self) -> (r: Vec<usize>)
        requires
            old(self).wf(),
        ensures
            final(self).wf(),
            final(self)@ == Seq::new(
                old(self)@.len(),
                |i: int| PendingChange { active: false, notified: false, ..old(self)@[i] },
            ),
            r@ == notified_ids(old(self)@),
    {
        let mut r: Vec<usize> = Vec::new();
        let mut i: usize = 0;
        while i < self.pending.len()
            invariant
                i <= self.pending@.len(),
                self.pending@.len() == old(self)@.len(),
                forall|k: int|
                    0 <= k < i ==> #[trigger] self.pending@[k] == (PendingChange {
                        active: false,
                        notified: false,
                        ..old(self)@[k]
                    }),
                forall|k: int| i <= k < self.pending@.len() ==> #[trigger] self.pending@[k] == old(self)@[k],
                r@ == notified_ids(old(self)@.subrange(0, i as int)),
            decreases self.pending@.len() - i,
        {
            let p = self.pending[i];
            proof {
                assert(old(self)@.subrange(0, i + 1).drop_last() =~= old(self)@.subrange(0, i as int));
                reveal_with_fuel(Seq::filter, 1);
            }
            if p.notified {
                r.push(p.change.id);
            }
            proof {
                let sub = old(self)@.subrange(0, i + 1);
                assert(sub.last() == p);
                assert(r@ =~= notified_ids(sub));
            }
            self.pending.set(i, PendingChange { active: false, notified: false, ..p });
            i = i + 1;
        }
        assert(self@ =~= Seq::new(
            old(self)@.len(),
            |i: int| PendingChange { active: false, notified: false, ..old(self)@[i] },
        ));
        assert(old(self)@.subrange(0, old(self)@.len() as int) =~= old(self)@);
        r
    }

    /// A control is grabbed. A parameter already pending becomes active
    /// again; otherwise its value `current` starts a new change.
    pub fn begin_set_parameter(&mut self, id: usize, current: V)
        requires
            old(self).wf(),
        ensures
            final(self).wf(),
            match find_pending(old(self)@, id) {
                Some(i) => final(self)@ == old(self)@.update(i, PendingChange { active: true, ..old(self)@[i] }),
                None => final(self)@ == old(self)@.push(
                    PendingChange {
                        change: ParameterChange { id, before: current, after: current },
                        active: true,
                        notified: false,
                    },
                ),
            },
    {
        match self.position(id) {
            Some(i) => {
                let p = self.pending[i];
                self.pending.set(i, PendingChange { active: true, ..p });
            },
            None => {
                self.pending.push(
                    PendingChange {
                        change: ParameterChange { id, before: current, after: current },
                        active: true,
                        notified: false,
                    },
                );
                proof {
                    assert forall|a: int, b: int|
                        0 <= a < b < self@.len() implies #[trigger] self@[a].change.id
                        != #[trigger] self@[b].change.id by {
                        if b == self@.len() - 1 {
                            assert(self@[a] == old(self)@[a]);
                            if old(self)@[a].change.id == id {
                                assert(exists|k: int|
                                    0 <= k < old(self)@.len() && #[trigger] old(self)@[k].change.id == id);
                            }
                        }
                    }
                }
            },
        }
    }

    /// The control requests `next`. A repeat of the last requested value
    /// needs nothing; otherwise the change records `next`, and the host
    /// gesture begins first if it has not yet.
    pub fn set_parameter(&mut self, id: usize, next: V) -> (r: SetNotification)
        requires
            old(self).wf(),
            find_pending(old(self)@, id) is Some,
        ensures
            final(self).wf(),
            ({
                let i = find_pending(old(self)@, id)->Some_0;
                let p = old(self)@[i];
                &&& r is Nothing ==> final(self)@ == old(self)@
                &&& !(r is Nothing) ==> final(self)@ == old(self)@.update(
                    i,
                    PendingChange {
                        change: ParameterChange { after: next, ..p.change },
                        notified: true,
                        ..p
                    },
                )
                &&& (r is BeginAndSet <==> (!(r is Nothing) && !p.notified))
                &&& V::obeys_eq_spec() ==> ((r is Nothing) <==> p.change.after.eq_spec(&next))
            }),
    {
        let i = self.position(id).unwrap();
        let p = self.pending[i];
        if p.change.after.eq(&next) {
            return SetNotification::Nothing;
        }
        let notification = if p.notified {
            SetNotification::SetValue
        } else {
            SetNotification::BeginAndSet
        };
        self.pending.set(
            i,
            PendingChange {
                change: ParameterChange { after: next, ..p.change },
                notified: true,
                ..p
            },
        );
        notification
    }

    /// The control is released. Returns whether the host gesture must end
    /// (it was begun); the change stays pending, no longer active.
    pub fn end_set_parameter(&mut self, id: usize) -> (r: bool)
        requires
            old(self).wf(),
        ensures
            final(self).wf(),
            match find_pending(old(self)@, id) {
                Some(i) => r == old(self)@[i].notified && final(self)@ == old(self)@.update(
                    i,
                    PendingChange { active: false, notified: false, ..old(self)@[i] },
                ),
                None => !r && final(self)@ == old(self)@,
            },
    {
        match self.position(id) {
            Some(i) => {
                let p = self.pending[i];
                self.pending.set(i, PendingChange { active: false, notified: false, ..p });
                p.notified
            },
            None => false,
        }
    }
}

/// Reversing a parameter entry twice gives it back: undoing and redoing a
/// parameter edit requests the original values again.
pub proof fn lemma_reverse_twice<V>(changes: Seq<ParameterChange<V>>)
    ensures
        reversed_spec(reversed_spec(changes)) == changes,
{
    assert(reversed_spec(reversed_spec(changes)) =~= changes);
}

/// A gesture whose value never moved leaves no history entry, and a
/// gesture never enters the history while its control is held.
pub proof fn lemma_unmoved_gesture_leaves_no_entry<V>(change: ParameterChange<V>, moved: spec_fn(ParameterChange<V>) -> bool)
    requires
        !moved(change),
    ensures
        completed(seq![PendingChange { change, active: false, notified: false }], moved).len() == 0,
{
    let s = seq![PendingChange { change, active: false, notified: false }];
    assert(s.drop_last() =~= Seq::<PendingChange<V>>::empty());
    assert(completed(s.drop_last(), moved) == Seq::<ParameterChange<V>>::empty());
}

} // verus!
