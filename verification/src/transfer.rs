//! The text form of a curve on the clipboard: the tag `OIKO_WEFT_CURVE`,
//! the format version `1` and the sample rate, then one level per point of
//! the master mask, separated by white space. Numbers are written and read
//! by the caller; this module writes the layout, splits a text into its
//! fields, checks the header, and decides which error a malformed text gets.
use vstd::prelude::*;
use crate::editor::MANUAL_MASK_POINTS;

verus! {

/// The largest text accepted, in bytes.
pub const MAX_CURVE_TEXT_BYTES: usize = 1_000_000;

/// Why a text is not a curve.
#[derive(Clone, Copy, Debug, PartialEq, Eq, Structural)]
pub enum CurveTextError {
    /// More than `MAX_CURVE_TEXT_BYTES` bytes.
    TooLarge,
    /// The text does not begin with the tag and the version.
    NotACurve,
    /// No sample rate follows the header, or it is not a number.
    MissingSampleRate,
    /// The sample rate is not finite or lies outside 8 to 768 kHz.
    InvalidSampleRate,
    /// A level is missing or is not a number.
    IncompleteData,
    /// A level is not finite or lies beyond the storage limit.
    InvalidValue,
    /// More fields follow the last level.
    UnexpectedData,
}

/// Whether `c` has the Unicode White_Space property.
pub open spec fn is_white_space(c: char) -> bool {
    let u = c as u32;
    (0x9 <= u <= 0xD) || u == 0x20 || u == 0x85 || u == 0xA0 || u == 0x1680 || (0x2000 <= u
        <= 0x200A) || u == 0x2028 || u == 0x2029 || u == 0x202F || u == 0x205F || u == 0x3000
}

/// Whether `c` has the Unicode White_Space property.
pub fn white_space(c: char) -> (r: bool)
    ensures
        r == is_white_space(c),
{
    let u = c as u32;
    (0x9 <= u && u <= 0xD) || u == 0x20 || u == 0x85 || u == 0xA0 || u == 0x1680 || (0x2000 <= u
        && u <= 0x200A) || u == 0x2028 || u == 0x2029 || u == 0x202F || u == 0x205F || u == 0x3000
}

/// The fields of `s`: its maximal runs of characters other than white
/// space, in order. A character other than white space extends the field
/// of the character before it, or starts a new field after white space or
/// at the start.
pub open spec fn fields(s: Seq<char>) -> Seq<Seq<char>>
    decreases s.len(),
{
    if s.len() == 0 {
        Seq::empty()
    } else if is_white_space(s.last()) {
        fields(s.drop_last())
    } else {
        let f = fields(s.drop_last());
        if s.len() >= 2 && !is_white_space(s[s.len() - 2]) {
            f.update(f.len() - 1, f.last().push(s.last()))
        } else {
            f.push(seq![s.last()])
        }
    }
}

/// The characters of each vector.
pub open spec fn views(v: Seq<Vec<char>>) -> Seq<Seq<char>> {
    v.map_values(|x: Vec<char>| x@)
}

/// Splits `text` into its fields.
pub fn split_fields(text: &str) -> (r: Vec<Vec<char>>)
    ensures
        views(r@) == fields(text@),
{
    let mut done: Vec<Vec<char>> = Vec::new();
    let mut current: Vec<char> = Vec::new();
    for c in it: text.chars()
        invariant
            it.seq() == text@,
            0 <= it.index() <= text@.len(),
            (if current@.len() > 0 {
                views(done@).push(current@)
            } else {
                views(done@)
            }) == fields(text@.take(it.index())),
            current@.len() > 0 <==> (it.index() > 0 && !is_white_space(text@[it.index() - 1])),
    {
        let ghost i = it.index();
        proof {
            assert(text@.take(i + 1).drop_last() =~= text@.take(i));
            assert(text@.take(i + 1).last() == c);
            if i >= 1 {
                assert(text@.take(i + 1)[i - 1] == text@[i - 1]);
            }
        }
        if white_space(c) {
            if current.len() > 0 {
                let finished = current;
                current = Vec::new();
                done.push(finished);
                proof {
                    assert(views(done@) =~= views(done@.drop_last()).push(finished@));
                }
            }
        } else {
            let ghost before = current@;
            current.push(c);
            proof {
                if before.len() > 0 {
                    let f = views(done@).push(before);
                    assert(f.update(f.len() - 1, f.last().push(c)) =~= views(done@).push(current@));
                } else {
                    assert(current@ =~= seq![c]);
                }
            }
        }
    }
    proof {
        assert(text@.take(text@.len() as int) =~= text@);
    }
    if current.len() > 0 {
        let ghost d = done@;
        done.push(current);
        proof {
            assert(views(done@) =~= views(d).push(done@.last()@));
        }
    }
    done
}

/// The tag that opens a curve text.
pub open spec fn curve_tag() -> Seq<char> {
    seq!['O', 'I', 'K', 'O', '_', 'W', 'E', 'F', 'T', '_', 'C', 'U', 'R', 'V', 'E']
}

/// The format version.
pub open spec fn curve_version() -> Seq<char> {
    seq!['1']
}

/// Whether the fields begin with the tag and the version.
pub open spec fn has_header(f: Seq<Seq<char>>) -> bool {
    f.len() >= 2 && f[0] == curve_tag() && f[1] == curve_version()
}

fn tag() -> (r: Vec<char>)
    ensures
        r@ == curve_tag(),
{
    let r = vec!['O', 'I', 'K', 'O', '_', 'W', 'E', 'F', 'T', '_', 'C', 'U', 'R', 'V', 'E'];
    assert(r@ =~= curve_tag());
    r
}

fn version() -> (r: Vec<char>)
    ensures
        r@ == curve_version(),
{
    let r = vec!['1'];
    assert(r@ =~= curve_version());
    r
}

/// Whether two character sequences are equal.
fn same_chars(a: &Vec<char>, b: &Vec<char>) -> (r: bool)
    ensures
        r == (a@ == b@),
{
    if a.len() != b.len() {
        return false;
    }
    let mut i: usize = 0;
    while i < a.len()
        invariant
            i <= a@.len(),
            a@.len() == b@.len(),
            forall|k: int| 0 <= k < i ==> a@[k] == b@[k],
        decreases a@.len() - i,
    {
        if a[i] != b[i] {
            return false;
        }
        i = i + 1;
    }
    assert(a@ =~= b@);
    true
}

/// The fields of a curve text after its header: the sample rate, then the
/// levels and whatever follows them. A text of more than
/// `MAX_CURVE_TEXT_BYTES` bytes is too large; one whose fields do not begin
/// with the tag and the version is not a curve.
pub fn curve_fields(text: &str) -> (r: Result<Vec<Vec<char>>, CurveTextError>)
    ensures
        (r == Err::<Vec<Vec<char>>, CurveTextError>(CurveTextError::TooLarge)) <==> text.len()
            > MAX_CURVE_TEXT_BYTES,
        (r == Err::<Vec<Vec<char>>, CurveTextError>(CurveTextError::NotACurve)) <==> (text.len()
            <= MAX_CURVE_TEXT_BYTES && !has_header(fields(text@))),
        r is Ok <==> (text.len() <= MAX_CURVE_TEXT_BYTES && has_header(fields(text@))),
        r matches Ok(rest) ==> views(rest@) == fields(text@).skip(2),
{
    if text.len() > MAX_CURVE_TEXT_BYTES {
        return Err(CurveTextError::TooLarge);
    }
    let all = split_fields(text);
    if all.len() < 2 || !same_chars(&all[0], &tag()) || !same_chars(&all[1], &version()) {
        return Err(CurveTextError::NotACurve);
    }
    let mut rest: Vec<Vec<char>> = Vec::new();
    let mut i: usize = 2;
    while i < all.len()
        invariant
            2 <= i <= all@.len(),
            views(all@) == fields(text@),
            views(rest@) == fields(text@).subrange(2, i as int),
        decreases all@.len() - i,
    {
        let field = all[i].clone();
        let ghost before = rest@;
        rest.push(field);
        proof {
            assert(views(rest@) =~= views(before).push(all@[i as int]@));
            assert(fields(text@).subrange(2, i + 1) =~= fields(text@).subrange(2, i as int).push(
                fields(text@)[i as int],
            ));
        }
        i = i + 1;
    }
    assert(fields(text@).subrange(2, all@.len() as int) =~= fields(text@).skip(2));
    Ok(rest)
}

/// What the caller found in one field after the header.
#[derive(Clone, Copy, Debug, PartialEq, Eq, Structural)]
pub enum FieldCheck {
    /// The field is not a number.
    Unparsable,
    /// A number outside what the field may hold.
    OutOfRange,
    /// A number the field may hold.
    Valid,
}

/// The verdict on the levels: `expected` more levels must follow, each a
/// number the field may hold, and nothing after them. The first field at
/// fault decides: a missing or unparsable level makes the data incomplete,
/// a level out of range is invalid.
pub open spec fn levels_verdict(levels: Seq<FieldCheck>, expected: nat) -> Result<(), CurveTextError>
    decreases expected,
{
    if expected == 0 {
        if levels.len() > 0 {
            Err(CurveTextError::UnexpectedData)
        } else {
            Ok(())
        }
    } else if levels.len() == 0 {
        Err(CurveTextError::IncompleteData)
    } else {
        match levels[0] {
            FieldCheck::Unparsable => Err(CurveTextError::IncompleteData),
            FieldCheck::OutOfRange => Err(CurveTextError::InvalidValue),
            FieldCheck::Valid => levels_verdict(levels.drop_first(), (expected - 1) as nat),
        }
    }
}

/// The verdict on the fields after the header, given what the caller found
/// in each: first the sample rate, which must be present and a number and
/// then within range; then one level per point of the master mask.
pub open spec fn curve_verdict(checks: Seq<FieldCheck>) -> Result<(), CurveTextError> {
    if checks.len() == 0 || checks[0] == FieldCheck::Unparsable {
        Err(CurveTextError::MissingSampleRate)
    } else if checks[0] == FieldCheck::OutOfRange {
        Err(CurveTextError::InvalidSampleRate)
    } else {
        levels_verdict(checks.drop_first(), MANUAL_MASK_POINTS as nat)
    }
}

/// Decides whether the fields after the header form a curve, given what
/// the caller found in each, in order.
pub fn check_curve_fields(checks: &[FieldCheck]) -> (r: Result<(), CurveTextError>)
    ensures
        r == curve_verdict(checks@),
{
    if checks.len() == 0 || checks[0] == FieldCheck::Unparsable {
        return Err(CurveTextError::MissingSampleRate);
    }
    if checks[0] == FieldCheck::OutOfRange {
        return Err(CurveTextError::InvalidSampleRate);
    }
    assert(checks@.drop_first() =~= checks@.skip(1));
    let mut i: usize = 1;
    while i <= MANUAL_MASK_POINTS
        invariant
            1 <= i <= MANUAL_MASK_POINTS + 1,
            i <= checks@.len(),
            checks@[0] == FieldCheck::Valid,
            levels_verdict(checks@.drop_first(), MANUAL_MASK_POINTS as nat) == levels_verdict(
                checks@.skip(i as int),
                (MANUAL_MASK_POINTS + 1 - i) as nat,
            ),
        decreases MANUAL_MASK_POINTS + 1 - i,
    {
        let ghost rest = checks@.skip(i as int);
        let ghost expected = (MANUAL_MASK_POINTS + 1 - i) as nat;
        if i >= checks.len() {
            assert(rest.len() == 0);
            assert(levels_verdict(rest, expected) == Err::<(), CurveTextError>(CurveTextError::IncompleteData));
            return Err(CurveTextError::IncompleteData);
        }
        proof {
            assert(rest.drop_first() =~= checks@.skip(i + 1));
            assert(rest[0] == checks@[i as int]);
        }
        match checks[i] {
            FieldCheck::Unparsable => {
                return Err(CurveTextError::IncompleteData);
            },
            FieldCheck::OutOfRange => {
                return Err(CurveTextError::InvalidValue);
            },
            FieldCheck::Valid => {},
        }
        i = i + 1;
    }
    proof {
        assert(checks@.drop_first() =~= checks@.skip(1));
    }
    if checks.len() > MANUAL_MASK_POINTS + 1 {
        return Err(CurveTextError::UnexpectedData);
    }
    Ok(())
}

/// The level lines of a curve text: each level followed by a line break.
pub open spec fn curve_lines(levels: Seq<Seq<char>>) -> Seq<char>
    decreases levels.len(),
{
    if levels.len() == 0 {
        Seq::empty()
    } else {
        curve_lines(levels.drop_last()) + levels.last() + seq!['\n']
    }
}

/// The header line: the tag, the version and the sample rate, separated by
/// spaces.
pub open spec fn curve_header(rate: Seq<char>) -> Seq<char> {
    curve_tag() + seq![' '] + curve_version() + seq![' '] + rate + seq!['\n']
}

/// The text of a curve with the written sample rate `rate` and the written
/// levels `levels`.
pub open spec fn curve_text_of(rate: Seq<char>, levels: Seq<Seq<char>>) -> Seq<char> {
    curve_header(rate) + curve_lines(levels)
}

/// Appends `s` to `out`.
fn append(out: &mut Vec<char>, s: &Vec<char>)
    ensures
        final(out)@ == old(out)@ + s@,
{
    let mut i: usize = 0;
    while i < s.len()
        invariant
            i <= s@.len(),
            out@ == old(out)@ + s@.take(i as int),
        decreases s@.len() - i,
    {
        out.push(s[i]);
        i = i + 1;
        assert(out@ =~= old(out)@ + s@.take(i as int));
    }
    assert(s@.take(s@.len() as int) =~= s@);
}

/// Writes a curve: the header with the written sample rate `rate`, then
/// one line per written level.
pub fn curve_text(rate: &Vec<char>, levels: &Vec<Vec<char>>) -> (r: Vec<char>)
    ensures
        r@ == curve_text_of(rate@, views(levels@)),
{
    let mut out = tag();
    out.push(' ');
    append(&mut out, &version());
    out.push(' ');
    append(&mut out, rate);
    out.push('\n');
    assert(out@ =~= curve_header(rate@));
    let mut k: usize = 0;
    while k < levels.len()
        invariant
            k <= levels@.len(),
            out@ == curve_header(rate@) + curve_lines(views(levels@).take(k as int)),
        decreases levels@.len() - k,
    {
        let ghost before = out@;
        append(&mut out, &levels[k]);
        out.push('\n');
        proof {
            let t = views(levels@).take(k + 1);
            assert(t.drop_last() =~= views(levels@).take(k as int));
            assert(t.last() == levels@[k as int]@);
            assert(out@ =~= curve_header(rate@) + curve_lines(t));
        }
        k = k + 1;
    }
    assert(views(levels@).take(levels@.len() as int) =~= views(levels@));
    out
}

/// A field as written: not empty and free of white space.
pub open spec fn is_field(s: Seq<char>) -> bool {
    s.len() > 0 && forall|i: int| 0 <= i < s.len() ==> !is_white_space(#[trigger] s[i])
}

proof fn lemma_fields_after_space(s: Seq<char>, c: char)
    requires
        is_white_space(c),
    ensures
        fields(s.push(c)) == fields(s),
{
    assert(s.push(c).drop_last() =~= s);
}

proof fn lemma_fields_append_field(s: Seq<char>, t: Seq<char>)
    requires
        s.len() == 0 || is_white_space(s.last()),
        is_field(t),
    ensures
        fields(s + t) == fields(s).push(t),
    decreases t.len(),
{
    let x = s + t;
    if t.len() == 1 {
        assert(x.drop_last() =~= s);
        assert(x.last() == t[0]);
        if x.len() >= 2 {
            assert(x[x.len() - 2] == s.last());
        }
        assert(t =~= seq![t[0]]);
    } else {
        let u = t.drop_last();
        assert(is_field(u)) by {
            assert forall|i: int| 0 <= i < u.len() implies !is_white_space(#[trigger] u[i]) by {
                assert(u[i] == t[i]);
            }
        }
        lemma_fields_append_field(s, u);
        assert(x.drop_last() =~= s + u);
        assert(x.last() == t[t.len() - 1]);
        assert(x[x.len() - 2] == t[t.len() - 2]);
        assert(!is_white_space(t[t.len() - 1]));
        assert(!is_white_space(t[t.len() - 2]));
        let f = fields(s).push(u);
        assert(f.update(f.len() - 1, f.last().push(x.last())) =~= fields(s).push(t)) by {
            assert(u.push(t[t.len() - 1]) =~= t);
        }
    }
}

proof fn lemma_lines_end_with_break(levels: Seq<Seq<char>>)
    requires
        levels.len() > 0,
    ensures
        curve_lines(levels).len() > 0,
        curve_lines(levels).last() == '\n',
{
}

proof fn lemma_fields_of_lines(prefix: Seq<char>, levels: Seq<Seq<char>>)
    requires
        prefix.len() == 0 || is_white_space(prefix.last()),
        forall|k: int| 0 <= k < levels.len() ==> is_field(#[trigger] levels[k]),
    ensures
        fields(prefix + curve_lines(levels)) == fields(prefix) + levels,
    decreases levels.len(),
{
    if levels.len() == 0 {
        assert(prefix + curve_lines(levels) =~= prefix);
        assert(fields(prefix) + levels =~= fields(prefix));
    } else {
        let rest = levels.drop_last();
        let v = levels.last();
        assert(is_field(v)) by {
            assert(v == levels[levels.len() - 1]);
        }
        assert forall|k: int| 0 <= k < rest.len() implies is_field(#[trigger] rest[k]) by {
            assert(rest[k] == levels[k]);
        }
        lemma_fields_of_lines(prefix, rest);
        let y = prefix + curve_lines(rest);
        if rest.len() > 0 {
            lemma_lines_end_with_break(rest);
            assert(y.last() == curve_lines(rest).last());
        } else {
            assert(y =~= prefix);
        }
        lemma_fields_append_field(y, v);
        lemma_fields_after_space(y + v, '\n');
        assert(prefix + curve_lines(levels) =~= (y + v).push('\n'));
        assert((fields(prefix) + rest).push(v) =~= fields(prefix) + levels);
    }
}

/// A written curve reads back: when the sample rate and every level are
/// written as fields (not empty, free of white space), the fields of the
/// curve's text are the tag, the version, the sample rate and the levels,
/// so the text has the header and what follows it is exactly the rate and
/// the levels.
pub proof fn lemma_written_curve_reads_back(rate: Seq<char>, levels: Seq<Seq<char>>)
    requires
        is_field(rate),
        forall|k: int| 0 <= k < levels.len() ==> is_field(#[trigger] levels[k]),
    ensures
        fields(curve_text_of(rate, levels)) == seq![curve_tag(), curve_version(), rate] + levels,
        has_header(fields(curve_text_of(rate, levels))),
        fields(curve_text_of(rate, levels)).skip(2) == seq![rate] + levels,
{
    let tag = curve_tag();
    let version = curve_version();
    assert(is_field(tag)) by {
        assert forall|i: int| 0 <= i < tag.len() implies !is_white_space(#[trigger] tag[i]) by {
            assert(tag[i] == 'O' || tag[i] == 'I' || tag[i] == 'K' || tag[i] == '_' || tag[i] == 'W'
                || tag[i] == 'E' || tag[i] == 'F' || tag[i] == 'T' || tag[i] == 'C' || tag[i] == 'U'
                || tag[i] == 'R' || tag[i] == 'V');
        }
    }
    assert(is_field(version)) by {
        assert(version[0] == '1');
    }
    let empty = Seq::<char>::empty();
    lemma_fields_append_field(empty, tag);
    assert(empty + tag =~= tag);
    let h1 = tag.push(' ');
    lemma_fields_after_space(tag, ' ');
    lemma_fields_append_field(h1, version);
    let h2 = (h1 + version).push(' ');
    lemma_fields_after_space(h1 + version, ' ');
    lemma_fields_append_field(h2, rate);
    let header = (h2 + rate).push('\n');
    lemma_fields_after_space(h2 + rate, '\n');
    assert(header =~= curve_header(rate));
    lemma_fields_of_lines(header, levels);
    assert(fields(header) =~= seq![tag, version, rate]);
    assert(seq![tag, version, rate] + levels == fields(curve_text_of(rate, levels)));
    assert(fields(curve_text_of(rate, levels)).skip(2) =~= seq![rate] + levels);
}

} // verus!
