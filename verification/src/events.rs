//! Per-voice expression events wait until all note events of the same
//! sample are handled. The queue keeps only the latest value for each
//! address and kind, in arrival order, and drops the oldest entry when full.
use vstd::prelude::*;
use crate::voices::{Channel, Key, VoiceID, MAX_EXPRESSION_EVENTS};

verus! {

/// The per-voice expression dimensions.
#[derive(Clone, Copy, Debug, PartialEq, Eq, Structural)]
pub enum ExpressionKind {
    Tuning,
    Volume,
    Pan,
    Pressure,
    Brightness,
    Expression,
    Vibrato,
}

/// What an expression event changes and which voices it addresses.
#[derive(Clone, Copy, Debug, PartialEq, Eq, Structural)]
pub struct ExpressionKey {
    pub kind: ExpressionKind,
    pub voice_id: VoiceID,
    pub channel: Channel,
    pub key: Key,
}

/// No key occurs twice.
pub open spec fn distinct_keys<T>(entries: Seq<(ExpressionKey, T)>) -> bool {
    forall|i: int, j: int|
        0 <= i < j < entries.len() ==> #[trigger] entries[i].0 != #[trigger] entries[j].0
}

/// The queue after an event arrives: an earlier entry with the same key
/// leaves; otherwise, when the queue is full, the oldest entry leaves; the
/// new event goes last.
pub open spec fn queued<T>(entries: Seq<(ExpressionKey, T)>, key: ExpressionKey, value: T) -> Seq<(ExpressionKey, T)> {
    if exists|i: int| 0 <= i < entries.len() && #[trigger] entries[i].0 == key {
        let i = choose|i: int| 0 <= i < entries.len() && #[trigger] entries[i].0 == key;
        entries.remove(i).push((key, value))
    } else if entries.len() >= MAX_EXPRESSION_EVENTS {
        entries.remove(0).push((key, value))
    } else {
        entries.push((key, value))
    }
}

/// The waiting expression events, oldest first.
pub struct ExpressionQueue<T> {
    entries: Vec<(ExpressionKey, T)>,
}

impl<T> View for ExpressionQueue<T> {
    type V = Seq<(ExpressionKey, T)>;

    closed spec fn view(&self) -> Seq<(ExpressionKey, T)> {
        self.entries@
    }
}

impl<T> ExpressionQueue<T> {
    /// At most the capacity, each key once.
    pub open spec fn wf(&self) -> bool {
        self@.len() <= MAX_EXPRESSION_EVENTS && distinct_keys(self@)
    }

    /// An empty queue.
    pub fn new() -> (r: Self)
        ensures
            r@ == Seq::<(ExpressionKey, T)>::empty(),
            r.wf(),
    {
        ExpressionQueue { entries: Vec::new() }
    }

    /// How many events wait.
    pub fn len(&self) -> (r: usize)
        ensures
            r == self@.len(),
    {
        self.entries.len()
    }

    /// Queues an event, replacing an earlier one with the same key.
    pub fn push(&mut self, key: ExpressionKey, value: T)
        requires
            old(self).wf(),
        ensures
            final(self).wf(),
            final(self)@ == queued(old(self)@, key, value),
    {
        let n = self.entries.len();
        let mut i: usize = 0;
        let mut found = false;
        while i < n && !found
            invariant
                n == self.entries@.len(),
                self.entries@ == old(self).entries@,
                i <= n,
                found ==> i < n && self.entries@[i as int].0 == key,
                forall|j: int| 0 <= j < i ==> self.entries@[j].0 != key,
            decreases n - i + (if found { 0int } else { 1int }),
        {
            if self.entries[i].0 == key {
                found = true;
            } else {
                i = i + 1;
            }
        }
        let ghost es = old(self)@;
        if found {
            proof {
                let c = choose|k: int| 0 <= k < es.len() && #[trigger] es[k].0 == key;
                if c != i {
                    if c < i {
                        assert(es[c].0 != key);
                    } else {
                        assert(es[i as int].0 == es[c].0);
                        assert(false);
                    }
                }
            }
            self.entries.remove(i);
        } else if n >= MAX_EXPRESSION_EVENTS {
            self.entries.remove(0);
        }
        self.entries.push((key, value));
        proof {
            let r = self@;
            assert forall|a: int, b: int| 0 <= a < b < r.len() implies #[trigger] r[a].0 != #[trigger] r[b].0 by {
                if b == r.len() - 1 {
                    if found {
                        let base = es.remove(i as int);
                        assert(r[a] == base[a]);
                        if a < i {
                            assert(base[a] == es[a]);
                        } else {
                            assert(base[a] == es[a + 1]);
                            if es[a + 1].0 == key {
                                assert(es[i as int].0 == es[a + 1].0);
                            }
                        }
                    } else {
                        assert(forall|j: int| 0 <= j < es.len() ==> es[j].0 != key);
                        if n >= MAX_EXPRESSION_EVENTS {
                            assert(r[a] == es.remove(0)[a]);
                            assert(es.remove(0)[a] == es[a + 1]);
                        } else {
                            assert(r[a] == es[a]);
                        }
                    }
                } else {
                    if found {
                        let base = es.remove(i as int);
                        assert(r[a] == base[a] && r[b] == base[b]);
                        let a0 = if a < i { a } else { a + 1 };
                        let b0 = if b < i { b } else { b + 1 };
                        assert(base[a] == es[a0]);
                        assert(base[b] == es[b0]);
                    } else if n >= MAX_EXPRESSION_EVENTS {
                        assert(r[a] == es[a + 1] && r[b] == es[b + 1]);
                    } else {
                        assert(r[a] == es[a] && r[b] == es[b]);
                    }
                }
            }
        }
    }

    /// Hands out every waiting event, oldest first, and empties the queue.
    pub fn take_all(&mut self) -> (r: Vec<(ExpressionKey, T)>)
        ensures
            r@ == old(self)@,
            final(self)@ == Seq::<(ExpressionKey, T)>::empty(),
            final(self).wf(),
    {
        let mut taken: Vec<(ExpressionKey, T)> = Vec::new();
        std::mem::swap(&mut taken, &mut self.entries);
        taken
    }

    /// Forgets every waiting event.
    pub fn clear(&mut self)
        ensures
            final(self)@ == Seq::<(ExpressionKey, T)>::empty(),
            final(self).wf(),
    {
        self.entries.clear();
    }
}

/// The queue keeps one entry per key, the newest value of each, never more
/// than its capacity, and the arriving event always goes last.
pub proof fn lemma_queue_keeps_latest_per_key<T>(entries: Seq<(ExpressionKey, T)>, key: ExpressionKey, value: T)
    requires
        entries.len() <= MAX_EXPRESSION_EVENTS,
        distinct_keys(entries),
    ensures
        queued(entries, key, value).last() == (key, value),
        queued(entries, key, value).len() <= MAX_EXPRESSION_EVENTS,
        forall|i: int|
            0 <= i < queued(entries, key, value).len() - 1 ==> #[trigger] queued(
                entries,
                key,
                value,
            )[i].0 != key,
        (exists|i: int| 0 <= i < entries.len() && #[trigger] entries[i].0 == key)
            ==> queued(entries, key, value).len() == entries.len(),
{
    if exists|i: int| 0 <= i < entries.len() && #[trigger] entries[i].0 == key {
        let c = choose|i: int| 0 <= i < entries.len() && #[trigger] entries[i].0 == key;
        let base = entries.remove(c);
        assert forall|i: int| 0 <= i < base.len() implies #[trigger] base[i].0 != key by {
            if i < c {
                assert(base[i] == entries[i]);
            } else {
                assert(base[i] == entries[i + 1]);
            }
        }
    } else {
        if entries.len() >= MAX_EXPRESSION_EVENTS {
            let base = entries.remove(0);
            assert forall|i: int| 0 <= i < base.len() implies #[trigger] base[i].0 != key by {
                assert(base[i] == entries[i + 1]);
            }
        }
    }
}

} // verus!
