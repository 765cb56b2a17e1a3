//! Local undo and redo for editor gestures: a bounded undo stack and a redo
//! stack. Undoing an entry stores its inverse for redo and vice versa; the
//! caller says how to invert an entry against the current state.
use vstd::prelude::*;
use vstd::std_specs::cmp::PartialEqSpec;

verus! {

/// At most this many steps can be undone.
pub const CURVE_HISTORY_LIMIT: usize = 24;

/// Both stacks, oldest entry first.
pub struct HistoryView<E> {
    pub undo: Seq<E>,
    pub redo: Seq<E>,
}

impl<E> HistoryView<E> {
    /// Together the stacks never hold more than the limit.
    pub open spec fn wf(self) -> bool {
        self.undo.len() + self.redo.len() <= CURVE_HISTORY_LIMIT
    }
}

/// Pushes onto the undo stack, dropping the oldest entry when it is full.
pub open spec fn bounded_push<E>(stack: Seq<E>, entry: E) -> Seq<E> {
    if stack.len() >= CURVE_HISTORY_LIMIT {
        stack.subrange(1, stack.len() as int).push(entry)
    } else {
        stack.push(entry)
    }
}

/// The stacks after a new gesture is recorded: the entry goes on the undo
/// stack unless it repeats the newest entry, and redo is forgotten.
pub open spec fn recorded<E>(h: HistoryView<E>, entry: E, repeats_last: bool) -> HistoryView<E> {
    HistoryView {
        undo: if repeats_last { h.undo } else { bounded_push(h.undo, entry) },
        redo: Seq::empty(),
    }
}

/// The stacks after an undo: the newest undo entry leaves, and its inverse
/// goes onto the redo stack.
pub open spec fn undone<E>(h: HistoryView<E>, inverse: E) -> HistoryView<E> {
    HistoryView { undo: h.undo.drop_last(), redo: h.redo.push(inverse) }
}

/// The stacks after a redo: the newest redo entry leaves, and its inverse
/// goes onto the undo stack.
pub open spec fn redone<E>(h: HistoryView<E>, inverse: E) -> HistoryView<E> {
    HistoryView { undo: bounded_push(h.undo, inverse), redo: h.redo.drop_last() }
}

/// Undo and redo stacks of editor gestures.
pub struct CurveHistory<E> {
    undo: Vec<E>,
    redo: Vec<E>,
}

impl<E> View for CurveHistory<E> {
    type V = HistoryView<E>;

    closed spec fn view(&self) -> HistoryView<E> {
        HistoryView { undo: self.undo@, redo: self.redo@ }
    }
}

impl<E: PartialEq> CurveHistory<E> {
    /// Empty stacks.
    pub fn new() -> (r: Self)
        ensures
            r@.undo == Seq::<E>::empty(),
            r@.redo == Seq::<E>::empty(),
    {
        CurveHistory { undo: Vec::new(), redo: Vec::new() }
    }

    /// Whether anything can be undone or redone.
    pub fn is_active(&self) -> (r: bool)
        ensures
            r == (self@.undo.len() > 0 || self@.redo.len() > 0),
    {
        self.can_undo() || self.can_redo()
    }

    /// Whether anything can be undone.
    pub fn can_undo(&self) -> (r: bool)
        ensures
            r == (self@.undo.len() > 0),
    {
        self.undo.len() > 0
    }

    /// Whether anything can be redone.
    pub fn can_redo(&self) -> (r: bool)
        ensures
            r == (self@.redo.len() > 0),
    {
        self.redo.len() > 0
    }

    /// Records the state before a gesture. An entry equal to the newest undo
    /// entry is not stored twice; in every case the redo stack is forgotten.
    /// Equality is `E`'s own: where `E` keeps vstd's equality laws the
    /// comparison is `eq_spec`; for any other `E` the entry is either stored
    /// or found to repeat the newest entry.
    pub fn record_before(&mut self, entry: E)
        requires
            old(self)@.wf(),
        ensures
            final(self)@.wf(),
            final(self)@ == recorded(old(self)@, entry, false) || (old(self)@.undo.len() > 0
                && final(self)@ == recorded(old(self)@, entry, true)),
            E::obeys_eq_spec() ==> final(self)@ == recorded(
                old(self)@,
                entry,
                old(self)@.undo.len() > 0 && old(self)@.undo.last().eq_spec(&entry),
            ),
    {
        let n = self.undo.len();
        if n > 0 && self.undo[n - 1].eq(&entry) {
            self.redo.clear();
            return ;
        }
        if n == CURVE_HISTORY_LIMIT {
            self.undo.remove(0);
            assert(self.undo@ =~= old(self).undo@.subrange(1, n as int));
        }
        self.undo.push(entry);
        self.redo.clear();
        proof {
            assert(self.redo@ =~= Seq::<E>::empty());
            assert(self@ == recorded(old(self)@, entry, false));
        }
    }

    /// Undoes the newest entry and returns it, storing `inverse(entry)` for
    /// redo. With nothing to undo, returns `None` and changes nothing.
    pub fn undo<F: FnOnce(&E) -> E>(&mut self, inverse: F) -> (r: Option<E>)
        requires
            old(self)@.wf(),
            forall|e: E| #[trigger] inverse.requires((&e,)),
        ensures
            final(self)@.wf(),
            old(self)@.undo.len() == 0 ==> r is None && final(self)@ == old(self)@,
            old(self)@.undo.len() > 0 ==> {
                &&& r == Some(old(self)@.undo.last())
                &&& final(self)@ == undone(old(self)@, final(self)@.redo.last())
                &&& inverse.ensures((&old(self)@.undo.last(),), final(self)@.redo.last())
            },
    {
        if self.undo.len() > 0 {
            let previous = self.undo.pop().unwrap();
            let inverted = inverse(&previous);
            self.redo.push(inverted);
            proof {
                assert(self@.undo =~= old(self)@.undo.drop_last());
                assert(self@.redo =~= old(self)@.redo.push(inverted));
            }
            Some(previous)
        } else {
            None
        }
    }

    /// Redoes the newest redo entry and returns it, storing `inverse(entry)`
    /// for undo. With nothing to redo, returns `None` and changes nothing.
    pub fn redo<F: FnOnce(&E) -> E>(&mut self, inverse: F) -> (r: Option<E>)
        requires
            old(self)@.wf(),
            forall|e: E| #[trigger] inverse.requires((&e,)),
        ensures
            final(self)@.wf(),
            old(self)@.redo.len() == 0 ==> r is None && final(self)@ == old(self)@,
            old(self)@.redo.len() > 0 ==> {
                &&& r == Some(old(self)@.redo.last())
                &&& final(self)@ == redone(old(self)@, final(self)@.undo.last())
                &&& inverse.ensures((&old(self)@.redo.last(),), final(self)@.undo.last())
            },
    {
        if self.redo.len() > 0 {
            let next = self.redo.pop().unwrap();
            let n = self.undo.len();
            if n == CURVE_HISTORY_LIMIT {
                self.undo.remove(0);
                assert(self.undo@ =~= old(self).undo@.subrange(1, n as int));
            }
            let inverted = inverse(&next);
            self.undo.push(inverted);
            proof {
                assert(self@.redo =~= old(self)@.redo.drop_last());
                assert(self@.undo =~= bounded_push(old(self)@.undo, inverted));
            }
            Some(next)
        } else {
            None
        }
    }
}

impl<E: PartialEq> Default for CurveHistory<E> {
    fn default() -> (r: Self)
        ensures
            r@.undo == Seq::<E>::empty(),
            r@.redo == Seq::<E>::empty(),
    {
        CurveHistory::new()
    }
}

/// Undo then redo puts the newest undo entry back, as the inverse of its
/// inverse, and leaves the redo stack as it was. Nothing is evicted: a
/// well-formed history has room for the returning entry.
pub proof fn lemma_undo_then_redo<E>(h: HistoryView<E>, inverted: E, reinverted: E)
    requires
        h.wf(),
        h.undo.len() > 0,
    ensures
        redone(undone(h, inverted), reinverted) == (HistoryView {
            undo: h.undo.drop_last().push(reinverted),
            redo: h.redo,
        }),
{
    assert(undone(h, inverted).redo.drop_last() =~= h.redo);
}

/// Redo then undo puts the newest redo entry back, as the inverse of its
/// inverse, and leaves the undo stack as it was.
pub proof fn lemma_redo_then_undo<E>(h: HistoryView<E>, inverted: E, reinverted: E)
    requires
        h.wf(),
        h.redo.len() > 0,
    ensures
        undone(redone(h, inverted), reinverted) == (HistoryView {
            undo: h.undo,
            redo: h.redo.drop_last().push(reinverted),
        }),
{
    assert(redone(h, inverted).undo.drop_last() =~= h.undo);
}

/// A newly recorded entry that does not repeat the last one is the next
/// entry to undo, and recording always leaves nothing to redo.
pub proof fn lemma_record_then_undo_returns_entry<E>(h: HistoryView<E>, entry: E)
    requires
        h.wf(),
    ensures
        recorded(h, entry, false).undo.last() == entry,
        recorded(h, entry, false).redo.len() == 0,
        recorded(h, entry, true).redo.len() == 0,
        recorded(h, entry, false).wf(),
{
}

/// Every operation keeps the two stacks within the limit together.
pub proof fn lemma_operations_keep_bound<E>(h: HistoryView<E>, entry: E, repeats: bool)
    requires
        h.wf(),
    ensures
        recorded(h, entry, repeats).wf(),
        h.undo.len() > 0 ==> undone(h, entry).wf(),
        h.redo.len() > 0 ==> redone(h, entry).wf(),
{
}

} // verus!
