use lib::editor::MANUAL_MASK_POINTS;
use lib::transfer::{
    check_curve_fields, curve_fields, curve_text, split_fields, white_space, CurveTextError,
    FieldCheck, MAX_CURVE_TEXT_BYTES,
};
use lib::transfer::FieldCheck::{OutOfRange, Unparsable, Valid};

fn chars(s: &str) -> Vec<char> {
    s.chars().collect()
}

fn text(fields: &[Vec<char>]) -> Vec<String> {
    fields.iter().map(|f| f.iter().collect()).collect()
}

#[test]
fn fields_are_the_runs_between_unicode_white_space() {
    assert_eq!(text(&split_fields("  a bb\tc\u{3000}d\u{85}e\n")), vec!["a", "bb", "c", "d", "e"]);
    assert!(split_fields(" \n\t ").is_empty());
    assert_eq!(text(&split_fields("x\u{200b}y")), vec!["x\u{200b}y"]);
    assert_eq!(text(&split_fields("x\u{2007}y")), vec!["x", "y"]);
    assert!(white_space('\u{a0}') && white_space('\u{2029}') && !white_space('_'));
}

#[test]
fn a_written_curve_reads_back_its_fields() {
    let levels: Vec<Vec<char>> = vec![chars("-80"), chars("0.5"), chars("NaN")];
    let written: String = curve_text(&chars("48000"), &levels).into_iter().collect();
    assert_eq!(written, "OIKO_WEFT_CURVE 1 48000\n-80\n0.5\nNaN\n");
    let rest = curve_fields(&written).unwrap();
    assert_eq!(text(&rest), vec!["48000", "-80", "0.5", "NaN"]);
}

#[test]
fn the_header_and_size_are_checked_first() {
    assert_eq!(curve_fields("not a curve").err(), Some(CurveTextError::NotACurve));
    assert_eq!(curve_fields("OIKO_WEFT_CURVE 2 48000").err(), Some(CurveTextError::NotACurve));
    assert_eq!(curve_fields("").err(), Some(CurveTextError::NotACurve));
    assert!(curve_fields("\n OIKO_WEFT_CURVE\t1").unwrap().is_empty());
    let huge = " ".repeat(MAX_CURVE_TEXT_BYTES + 1);
    assert_eq!(curve_fields(&huge).err(), Some(CurveTextError::TooLarge));
}

#[test]
fn the_first_field_at_fault_decides_the_error() {
    let mut checks = vec![Valid; MANUAL_MASK_POINTS + 1];
    assert_eq!(check_curve_fields(&checks), Ok(()));
    assert_eq!(check_curve_fields(&[]), Err(CurveTextError::MissingSampleRate));
    checks[0] = Unparsable;
    assert_eq!(check_curve_fields(&checks), Err(CurveTextError::MissingSampleRate));
    checks[0] = OutOfRange;
    assert_eq!(check_curve_fields(&checks), Err(CurveTextError::InvalidSampleRate));
    checks[0] = Valid;
    checks[10] = OutOfRange;
    checks[20] = Unparsable;
    assert_eq!(check_curve_fields(&checks), Err(CurveTextError::InvalidValue));
    checks[10] = Valid;
    assert_eq!(check_curve_fields(&checks), Err(CurveTextError::IncompleteData));
    checks[20] = Valid;
    checks.pop();
    assert_eq!(check_curve_fields(&checks), Err(CurveTextError::IncompleteData));
    checks.push(Valid);
    checks.push(Unparsable);
    assert_eq!(check_curve_fields(&checks), Err(CurveTextError::UnexpectedData));
}

#[test]
fn white_space_is_the_unicode_property() {
    for c in (0..=0x10FFFF_u32).filter_map(char::from_u32) {
        assert_eq!(white_space(c), c.is_whitespace(), "{:?}", c);
    }
}
