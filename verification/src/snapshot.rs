//! Lock-free publication of the tuning: one audio-thread writer, any number
//! of editor readers. A writer bumps the generation before and after writing
//! the words; a reader accepts only a copy taken while the generation stood
//! still at an even value, and otherwise keeps what it had.
use std::sync::atomic::{AtomicU32, Ordering};
use vstd::prelude::*;
use crate::tuning::{
    decode_name, decode_tuning, decoded_name_bytes, decoded_tuning, encode_words, is_name_of,
    seqlock_stable, Tuning, NAME_BYTES, SNAPSHOT_WORDS,
};

verus! {

/// The published tuning words and their generation counter.
pub struct Snapshot {
    pub generation: AtomicU32,
    pub words: Vec<AtomicU32>,
}

impl Snapshot {
    /// Room for every published word.
    pub open spec fn wf(&self) -> bool {
        self.words@.len() == SNAPSHOT_WORDS
    }

    /// A snapshot that already holds `initial` and `name`.
    pub fn new(initial: &Tuning, name: &[u8]) -> (r: Self)
        requires
            initial@.wf(),
            name@.len() == NAME_BYTES,
        ensures
            r.wf(),
    {
        let mut words: Vec<AtomicU32> = Vec::new();
        let mut i: usize = 0;
        while i < SNAPSHOT_WORDS
            invariant
                i <= SNAPSHOT_WORDS,
                words@.len() == i,
            decreases SNAPSHOT_WORDS - i,
        {
            words.push(AtomicU32::new(0));
            i = i + 1;
        }
        let snapshot = Snapshot { generation: AtomicU32::new(0), words };
        snapshot.publish(initial, name);
        snapshot
    }

    /// Publishes a tuning and its scale name: the generation is odd while
    /// the words are written, without waiting for readers.
    pub fn publish(&self, tuning: &Tuning, name: &[u8])
        requires
            self.wf(),
            tuning@.wf(),
            name@.len() == NAME_BYTES,
    {
        let words = encode_words(tuning, name);
        self.generation.fetch_add(1, Ordering::SeqCst);
        let mut i: usize = 0;
        while i < SNAPSHOT_WORDS
            invariant
                i <= SNAPSHOT_WORDS,
                self.wf(),
                words@.len() == SNAPSHOT_WORDS,
            decreases SNAPSHOT_WORDS - i,
        {
            self.words[i].store(words[i], Ordering::SeqCst);
            i = i + 1;
        }
        self.generation.fetch_add(1, Ordering::SeqCst);
    }

    /// Reads the tuning and the scale name (the name bytes before the first
    /// zero). Returns `None` when a publication was under way or happened
    /// during the read. What the words hold depends on other threads, so a
    /// returned value is stated as the decoding of some 197 words.
    pub fn read(&self) -> (r: Option<(Tuning, Vec<u8>)>)
        requires
            self.wf(),
        ensures
            r matches Some((t, name)) ==> exists|w: Seq<u32>|
                #![trigger decoded_tuning(w)]
                w.len() == SNAPSHOT_WORDS && t@ == decoded_tuning(w) && is_name_of(
                    name@,
                    decoded_name_bytes(w),
                ),
    {
        let before = self.generation.load(Ordering::SeqCst);
        if before % 2 != 0 {
            return None;
        }
        let mut words: Vec<u32> = Vec::new();
        let mut i: usize = 0;
        while i < SNAPSHOT_WORDS
            invariant
                i <= SNAPSHOT_WORDS,
                self.wf(),
                words@.len() == i,
            decreases SNAPSHOT_WORDS - i,
        {
            words.push(self.words[i].load(Ordering::SeqCst));
            i = i + 1;
        }
        let after = self.generation.load(Ordering::SeqCst);
        if !seqlock_stable(before, after) {
            return None;
        }
        let tuning = decode_tuning(words.as_slice());
        let name = decode_name(words.as_slice());
        Some((tuning, name))
    }
}

} // verus!
