//! The tuning shared between the audio thread and the editor: the frequency
//! of each MIDI note (as the bit pattern of its `f32`), which notes are
//! mapped, the keyboard map's period and start key, and the scale name. The
//! audio thread publishes it as 197 words; the editor reads the words back
//! and keeps its previous copy when a publication overlaps its read.
use vstd::prelude::*;

verus! {

/// Words in a published tuning: 128 frequencies, 4 words of mapped-note
/// bits, 1 word of flags, 64 words of name bytes.
pub const SNAPSHOT_WORDS: usize = 197;
/// Bytes in a scale name, including room for its terminating zero.
pub const NAME_BYTES: usize = 256;
/// Word that holds the active flag, map size and map start.
pub const FLAGS_WORD: usize = 132;
/// First word of the name.
pub const NAME_WORD: usize = 133;

/// A tuning as plain values.
pub struct TuningView {
    pub active: bool,
    pub frequency_bits: Seq<u32>,
    pub mapped: Seq<bool>,
    pub map_size: Option<usize>,
    pub map_start: usize,
}

/// The tuning of the 128 MIDI notes: whether a tuning source is active, each
/// note's frequency as `f32` bits, whether each note is mapped, and the
/// keyboard map's size (its period in keys) and start key.
pub struct Tuning {
    pub active: bool,
    pub frequency_bits: Vec<u32>,
    pub mapped: Vec<bool>,
    pub map_size: Option<usize>,
    pub map_start: usize,
}

impl View for Tuning {
    type V = TuningView;

    open spec fn view(&self) -> TuningView {
        TuningView {
            active: self.active,
            frequency_bits: self.frequency_bits@,
            mapped: self.mapped@,
            map_size: self.map_size,
            map_start: self.map_start,
        }
    }
}

impl TuningView {
    /// A table entry for every MIDI note.
    pub open spec fn wf(self) -> bool {
        self.frequency_bits.len() == 128 && self.mapped.len() == 128
    }

    /// Whether the tuning can be published and read back unchanged: the map
    /// size fits in a byte and is not zero, and the start key fits in 16 bits.
    pub open spec fn publishable(self) -> bool {
        &&& self.wf()
        &&& (self.map_size matches Some(size) ==> 1 <= size <= 255)
        &&& self.map_start < 65536
    }
}

/// Whether the `bit`-th bit of `word` is set.
pub open spec fn bit_set(word: u32, bit: int) -> bool {
    (word >> (bit as u32)) & 1 == 1
}

/// The flags word: bit 0 the active flag, bits 8 and up the map size (0 for
/// none), bits 16 and up the start key.
pub open spec fn flags_word(active: bool, map_size: Option<usize>, map_start: usize) -> u32 {
    let size: usize = match map_size {
        Some(s) => s,
        None => 0,
    };
    ((if active { 1u32 } else { 0u32 }) | ((size as u32) << 8u32)) | ((map_start as u32) << 16u32)
}

/// Four name bytes as a little-endian word.
pub open spec fn le_word(b0: u8, b1: u8, b2: u8, b3: u8) -> u32 {
    (((b0 as u32) | ((b1 as u32) << 8u32)) | ((b2 as u32) << 16u32)) | ((b3 as u32) << 24u32)
}

/// What the published words hold: note frequencies in words 0 to 127, a
/// mapped note's bit `n % 32` set in word `128 + n / 32`, the flags word, and
/// the name's bytes four to a word, little-endian.
pub open spec fn encodes(words: Seq<u32>, t: TuningView, name: Seq<u8>) -> bool {
    &&& words.len() == SNAPSHOT_WORDS
    &&& forall|n: int| 0 <= n < 128 ==> #[trigger] words[n] == t.frequency_bits[n]
    &&& forall|n: int|
        0 <= n < 128 ==> (bit_set(#[trigger] words[128 + n / 32], n % 32) <==> t.mapped[n])
    &&& words[FLAGS_WORD as int] == flags_word(t.active, t.map_size, t.map_start)
    &&& forall|j: int|
        0 <= j < 64 ==> #[trigger] words[NAME_WORD + j] == le_word(
            name[4 * j],
            name[4 * j + 1],
            name[4 * j + 2],
            name[4 * j + 3],
        )
}

/// The tuning read back from published words.
pub open spec fn decoded_tuning(words: Seq<u32>) -> TuningView {
    let flags = words[FLAGS_WORD as int];
    let size = ((flags >> 8u32) & 255u32) as usize;
    TuningView {
        active: flags & 1 != 0,
        frequency_bits: words.subrange(0, 128),
        mapped: Seq::new(128, |n: int| bit_set(words[128 + n / 32], n % 32)),
        map_size: if size != 0 { Some(size) } else { None },
        map_start: (flags >> 16u32) as usize,
    }
}

/// The 256 name bytes read back from published words.
pub open spec fn decoded_name_bytes(words: Seq<u32>) -> Seq<u8> {
    Seq::new(
        256,
        |i: int| ((words[NAME_WORD + i / 4] >> (8 * (i % 4)) as u32) & 255u32) as u8,
    )
}

/// The name proper: the bytes before the first zero, or all 256.
pub open spec fn is_name_of(name: Seq<u8>, bytes: Seq<u8>) -> bool {
    &&& name.len() <= bytes.len()
    &&& name == bytes.subrange(0, name.len() as int)
    &&& forall|i: int| 0 <= i < name.len() ==> #[trigger] name[i] != 0
    &&& name.len() < bytes.len() ==> bytes[name.len() as int] == 0
}

proof fn lemma_set_bit(w: u32, b: u32, c: u32)
    by (bit_vector)
    requires
        b < 32,
        c < 32,
    ensures
        c == b ==> ((w | (1u32 << b)) >> c) & 1 == 1,
        c != b ==> ((w | (1u32 << b)) >> c) & 1 == (w >> c) & 1,
{
}

proof fn lemma_bit_test(w: u32, b: u32)
    by (bit_vector)
    requires
        b < 32,
    ensures
        (w & (1u32 << b) != 0) == ((w >> b) & 1 == 1),
{
}

proof fn lemma_zero_bits(b: u32)
    by (bit_vector)
    requires
        b < 32,
    ensures
        (0u32 >> b) & 1 == 0,
{
}

proof fn lemma_le_word_bytes(b0: u8, b1: u8, b2: u8, b3: u8)
    by (bit_vector)
    ensures
        ((((((b0 as u32) | ((b1 as u32) << 8u32)) | ((b2 as u32) << 16u32)) | ((b3 as u32) << 24u32))
            >> 0u32) & 255u32) as u8 == b0,
        ((((((b0 as u32) | ((b1 as u32) << 8u32)) | ((b2 as u32) << 16u32)) | ((b3 as u32) << 24u32))
            >> 8u32) & 255u32) as u8 == b1,
        ((((((b0 as u32) | ((b1 as u32) << 8u32)) | ((b2 as u32) << 16u32)) | ((b3 as u32) << 24u32))
            >> 16u32) & 255u32) as u8 == b2,
        ((((((b0 as u32) | ((b1 as u32) << 8u32)) | ((b2 as u32) << 16u32)) | ((b3 as u32) << 24u32))
            >> 24u32) & 255u32) as u8 == b3,
{
}

proof fn lemma_flags_fields(a: u32, size: u32, start: u32)
    by (bit_vector)
    requires
        a <= 1,
        size <= 255,
        start < 65536,
    ensures
        ((a | (size << 8u32)) | (start << 16u32)) & 1 == a,
        (((a | (size << 8u32)) | (start << 16u32)) >> 8u32) & 255u32 == size,
        ((a | (size << 8u32)) | (start << 16u32)) >> 16u32 == start,
{
}

fn mask_word(mapped: &Vec<bool>, base: usize) -> (w: u32)
    requires
        base + 32 <= mapped.len(),
    ensures
        forall|b: int| 0 <= b < 32 ==> (bit_set(w, b) <==> mapped@[base + b]),
{
    let mut w: u32 = 0;
    let mut b: u32 = 0;
    assert forall|c: int| 0 <= c < 32 implies !bit_set(0u32, c) by {
        lemma_zero_bits(c as u32);
    }
    while b < 32
        invariant
            b <= 32,
            base + 32 <= mapped.len(),
            forall|c: int| 0 <= c < b ==> (bit_set(w, c) <==> mapped@[base + c]),
            forall|c: int| b <= c < 32 ==> !bit_set(w, c),
        decreases 32 - b,
    {
        let old_w = w;
        if mapped[base + b as usize] {
            w = w | (1u32 << b);
            proof {
                assert forall|c: int| 0 <= c < 32 implies (bit_set(w, c) <==> (if c == b {
                    true
                } else {
                    bit_set(old_w, c)
                })) by {
                    lemma_set_bit(old_w, b, c as u32);
                }
            }
        }
        b = b + 1;
    }
    w
}

/// Packs a tuning and a scale name into the published words.
pub fn encode_words(tuning: &Tuning, name: &[u8]) -> (words: Vec<u32>)
    requires
        tuning@.wf(),
        name@.len() == NAME_BYTES,
    ensures
        encodes(words@, tuning@, name@),
{
    let mut words: Vec<u32> = Vec::new();
    let mut n: usize = 0;
    while n < 128
        invariant
            n <= 128,
            tuning@.wf(),
            words@ == tuning@.frequency_bits.subrange(0, n as int),
        decreases 128 - n,
    {
        words.push(tuning.frequency_bits[n]);
        n = n + 1;
        assert(words@ =~= tuning@.frequency_bits.subrange(0, n as int));
    }
    let mut j: usize = 0;
    while j < 4
        invariant
            j <= 4,
            tuning@.wf(),
            words@.len() == 128 + j,
            forall|k: int| 0 <= k < 128 ==> #[trigger] words@[k] == tuning@.frequency_bits[k],
            forall|k: int|
                0 <= k < 32 * j ==> (bit_set(#[trigger] words@[128 + k / 32], k % 32)
                    <==> tuning@.mapped[k]),
        decreases 4 - j,
    {
        assert(tuning.mapped.len() == 128);
        let w = mask_word(&tuning.mapped, 32 * j);
        let ghost before = words@;
        words.push(w);
        proof {
            assert forall|k: int| 0 <= k < 32 * (j + 1) implies (bit_set(
                #[trigger] words@[128 + k / 32],
                k % 32,
            ) <==> tuning@.mapped[k]) by {
                if k < 32 * j {
                    assert(words@[128 + k / 32] == before[128 + k / 32]);
                } else {
                    assert(k / 32 == j);
                    assert(k == 32 * j + k % 32);
                }
            }
        }
        j = j + 1;
    }
    words.push(flags(tuning.active, tuning.map_size, tuning.map_start));
    let mut i: usize = 0;
    while i < 64
        invariant
            i <= 64,
            tuning@.wf(),
            name@.len() == NAME_BYTES,
            words@.len() == 133 + i,
            forall|k: int| 0 <= k < 128 ==> #[trigger] words@[k] == tuning@.frequency_bits[k],
            forall|k: int|
                0 <= k < 128 ==> (bit_set(#[trigger] words@[128 + k / 32], k % 32)
                    <==> tuning@.mapped[k]),
            words@[FLAGS_WORD as int] == flags_word(tuning.active, tuning.map_size, tuning.map_start),
            forall|k: int|
                0 <= k < i ==> #[trigger] words@[NAME_WORD + k] == le_word(
                    name@[4 * k],
                    name@[4 * k + 1],
                    name@[4 * k + 2],
                    name@[4 * k + 3],
                ),
        decreases 64 - i,
    {
        let w = pack_le(name[4 * i], name[4 * i + 1], name[4 * i + 2], name[4 * i + 3]);
        words.push(w);
        i = i + 1;
    }
    words
}

fn flags(active: bool, map_size: Option<usize>, map_start: usize) -> (w: u32)
    ensures
        w == flags_word(active, map_size, map_start),
{
    let size: usize = match map_size {
        Some(s) => s,
        None => 0,
    };
    let a: u32 = if active {
        1
    } else {
        0
    };
    (a | ((size as u32) << 8u32)) | ((map_start as u32) << 16u32)
}

fn pack_le(b0: u8, b1: u8, b2: u8, b3: u8) -> (w: u32)
    ensures
        w == le_word(b0, b1, b2, b3),
{
    (((b0 as u32) | ((b1 as u32) << 8u32)) | ((b2 as u32) << 16u32)) | ((b3 as u32) << 24u32)
}

/// Unpacks the tuning from published words.
pub fn decode_tuning(words: &[u32]) -> (t: Tuning)
    requires
        words@.len() == SNAPSHOT_WORDS,
    ensures
        t@ == decoded_tuning(words@),
        t@.wf(),
{
    let mut frequency_bits: Vec<u32> = Vec::new();
    let mut mapped: Vec<bool> = Vec::new();
    let mut n: usize = 0;
    while n < 128
        invariant
            n <= 128,
            words@.len() == SNAPSHOT_WORDS,
            frequency_bits@ == words@.subrange(0, n as int),
            mapped@ == Seq::new(n as nat, |k: int| bit_set(words@[128 + k / 32], k % 32)),
        decreases 128 - n,
    {
        frequency_bits.push(words[n]);
        let w = words[128 + n / 32];
        let b = (n % 32) as u32;
        proof {
            lemma_bit_test(w, b);
        }
        mapped.push(w & (1u32 << b) != 0);
        n = n + 1;
        assert(frequency_bits@ =~= words@.subrange(0, n as int));
        assert(mapped@ =~= Seq::new(n as nat, |k: int| bit_set(words@[128 + k / 32], k % 32)));
    }
    let flags = words[FLAGS_WORD];
    let size = ((flags >> 8u32) & 255u32) as usize;
    Tuning {
        active: flags & 1 != 0,
        frequency_bits,
        mapped,
        map_size: if size != 0 {
            Some(size)
        } else {
            None
        },
        map_start: (flags >> 16u32) as usize,
    }
}

fn byte_of(word: u32, index: usize) -> (b: u8)
    requires
        index < 4,
    ensures
        b == ((word >> (8 * index) as u32) & 255u32) as u8,
{
    ((word >> (8 * index) as u32) & 255u32) as u8
}

/// Unpacks the scale name: the name bytes before the first zero.
pub fn decode_name(words: &[u32]) -> (name: Vec<u8>)
    requires
        words@.len() == SNAPSHOT_WORDS,
    ensures
        is_name_of(name@, decoded_name_bytes(words@)),
{
    let ghost bytes = decoded_name_bytes(words@);
    let mut name: Vec<u8> = Vec::new();
    let mut i: usize = 0;
    while i < NAME_BYTES
        invariant
            i <= NAME_BYTES,
            words@.len() == SNAPSHOT_WORDS,
            bytes == decoded_name_bytes(words@),
            name@ == bytes.subrange(0, i as int),
            forall|k: int| 0 <= k < i ==> #[trigger] bytes[k] != 0,
        decreases NAME_BYTES - i,
    {
        let b = byte_of(words[NAME_WORD + i / 4], i % 4);
        assert(b == bytes[i as int]);
        if b == 0 {
            return name;
        }
        name.push(b);
        i = i + 1;
        assert(name@ =~= bytes.subrange(0, i as int));
    }
    name
}

/// Whether a reader's copy is coherent: no publication was under way when it
/// began (an even generation) and none happened while it read (the same
/// generation after).
pub fn seqlock_stable(before: u32, after: u32) -> (r: bool)
    ensures
        r == (before % 2 == 0 && before == after),
{
    before % 2 == 0 && before == after
}

impl Tuning {
    /// Whether `note` starts a period of the keyboard map: the map has a
    /// size, and the note lies a whole number of periods from the start key.
    pub fn boundary(&self, note: usize) -> (r: bool)
        requires
            self.map_size != Some(0usize),
        ensures
            r == match self.map_size {
                Some(size) => (note as int - self.map_start as int) % (size as int) == 0,
                None => false,
            },
    {
        match self.map_size {
            Some(size) => {
                if note >= self.map_start {
                    (note - self.map_start) % size == 0
                } else {
                    let d = self.map_start - note;
                    proof {
                        vstd::arithmetic::div_mod::lemma_mod_self_0(size as int);
                        lemma_neg_mod_zero(d as int, size as int);
                    }
                    d % size == 0
                }
            },
            None => false,
        }
    }
}

proof fn lemma_neg_mod_zero(d: int, s: int)
    requires
        s > 0,
        d >= 0,
    ensures
        ((-d) % s == 0) == (d % s == 0),
{
    vstd::arithmetic::div_mod::lemma_fundamental_div_mod(d, s);
    vstd::arithmetic::div_mod::lemma_fundamental_div_mod(-d, s);
    if d % s == 0 {
        let q = d / s;
        assert(-d == (-q) * s) by (nonlinear_arith)
            requires
                d == s * q + 0,
        ;
        vstd::arithmetic::div_mod::lemma_mod_multiples_basic(-q, s);
    }
    if (-d) % s == 0 {
        let q = (-d) / s;
        assert(d == (-q) * s) by (nonlinear_arith)
            requires
                -d == s * q + 0,
        ;
        vstd::arithmetic::div_mod::lemma_mod_multiples_basic(-q, s);
    }
}

/// Reading back published words gives the published tuning, for every
/// tuning whose map size fits in a byte and whose start key fits in 16
/// bits, and the name up to its first zero byte.
pub proof fn lemma_publish_read_roundtrip(words: Seq<u32>, t: TuningView, name: Seq<u8>)
    requires
        t.publishable(),
        name.len() == NAME_BYTES,
        encodes(words, t, name),
    ensures
        decoded_tuning(words) == t,
        decoded_name_bytes(words) == name,
{
    let size: usize = match t.map_size {
        Some(s) => s,
        None => 0,
    };
    let a: u32 = if t.active { 1 } else { 0 };
    lemma_flags_fields(a, size as u32, t.map_start as u32);
    let d = decoded_tuning(words);
    assert(d.frequency_bits =~= t.frequency_bits);
    assert(d.mapped =~= t.mapped);
    assert forall|i: int| 0 <= i < 256 implies #[trigger] decoded_name_bytes(words)[i] == name[i] by {
        let j = i / 4;
        assert(words[NAME_WORD + j] == le_word(name[4 * j], name[4 * j + 1], name[4 * j + 2], name[4 * j + 3]));
        lemma_le_word_bytes(name[4 * j], name[4 * j + 1], name[4 * j + 2], name[4 * j + 3]);
    }
    assert(decoded_name_bytes(words) =~= name);
}

} // verus!
