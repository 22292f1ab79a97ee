use fastfastqvalidation::{validate_bytes, ErrorKind, FormatRule, ValidationError};

fn check(data: &[u8]) -> Result<(), ValidationError> {
    validate_bytes(String::from("reads.fastq"), data)
}

#[test]
fn single_record_passes() {
    assert_eq!(check(b"@r1\nACGT\n+\n!!!!\n"), Ok(()));
}

#[test]
fn repeated_header_is_duplicate_at_line_five() {
    let e = check(b"@r1\nACGT\n+\n!!!!\n@r1\nACGT\n+\n!!!!\n").unwrap_err();
    assert_eq!(e.kind, ErrorKind::Duplicate);
    assert_eq!(e.line, Some(5));
    assert_eq!(e.content, b"@r1".to_vec());
    assert_eq!(e.file_name, "reads.fastq");
}

#[test]
fn invalid_base_reported_at_line_two() {
    let e = check(b"@r1\nACXT\n+\n!!!!\n").unwrap_err();
    assert_eq!(e.kind, ErrorKind::Format(FormatRule::InvalidBase));
    assert_eq!(e.line, Some(2));
    assert_eq!(e.content, b"ACXT".to_vec());
}

#[test]
fn short_quality_reported_at_line_four() {
    let e = check(b"@r1\nACGT\n+\n!!\n").unwrap_err();
    assert_eq!(e.kind, ErrorKind::Format(FormatRule::QualityLength));
    assert_eq!(e.line, Some(4));
    assert!(e.content.is_empty());
}

#[test]
fn empty_file_is_rejected() {
    let e = check(b"").unwrap_err();
    assert_eq!(e.kind, ErrorKind::Empty);
    assert_eq!(e.line, None);
}

#[test]
fn three_lines_are_truncated() {
    let e = check(b"@r1\nACGT\n+\n").unwrap_err();
    assert_eq!(e.kind, ErrorKind::Truncated);
    assert_eq!(e.line, Some(3));
}

#[test]
fn valid_multi_record_file_passes() {
    let data = b"@r1\nACGTN\n+\n!!!!!\n@r2\nacgtn\n+r2\nIIIII\n@r3\n\n+\n\n";
    assert_eq!(check(data), Ok(()));
}

#[test]
fn crlf_terminators_are_stripped() {
    assert_eq!(check(b"@r1\r\nACGT\r\n+\r\n!!!!\r\n"), Ok(()));
}

#[test]
fn last_line_without_newline_counts() {
    assert_eq!(check(b"@r1\nACGT\n+\n!!!!"), Ok(()));
    let e = check(b"@r1\nACGT\n+\n!!!").unwrap_err();
    assert_eq!(e.kind, ErrorKind::Format(FormatRule::QualityLength));
    assert_eq!(e.line, Some(4));
}

#[test]
fn truncation_after_whole_records() {
    let e = check(b"@r1\nACGT\n+\n!!!!\n@r2\n").unwrap_err();
    assert_eq!(e.kind, ErrorKind::Truncated);
    assert_eq!(e.line, Some(5));
}

#[test]
fn truncated_file_of_one_line() {
    let e = check(b"@r1\n").unwrap_err();
    assert_eq!(e.kind, ErrorKind::Truncated);
    assert_eq!(e.line, Some(1));
}

#[test]
fn missing_header_marker() {
    let e = check(b"r1\nACGT\n+\n!!!!\n").unwrap_err();
    assert_eq!(e.kind, ErrorKind::Format(FormatRule::HeaderMarker));
    assert_eq!(e.line, Some(1));
    assert_eq!(e.content, b"r1".to_vec());
}

#[test]
fn blank_line_where_header_expected() {
    let e = check(b"\n").unwrap_err();
    assert_eq!(e.kind, ErrorKind::Format(FormatRule::HeaderMarker));
    assert_eq!(e.line, Some(1));
    assert!(e.content.is_empty());
}

#[test]
fn missing_separator_marker() {
    let e = check(b"@r1\nACGT\n-\n!!!!\n").unwrap_err();
    assert_eq!(e.kind, ErrorKind::Format(FormatRule::SeparatorMarker));
    assert_eq!(e.line, Some(3));
    assert_eq!(e.content, b"-".to_vec());
}

#[test]
fn first_violation_wins() {
    let e = check(b"@r1\nACXT\n-\n!!\n").unwrap_err();
    assert_eq!(e.kind, ErrorKind::Format(FormatRule::InvalidBase));
    assert_eq!(e.line, Some(2));
}

#[test]
fn line_fault_comes_before_truncation() {
    let e = check(b"@r1\nACXT\n+\n").unwrap_err();
    assert_eq!(e.kind, ErrorKind::Format(FormatRule::InvalidBase));
    assert_eq!(e.line, Some(2));
}

#[test]
fn duplicate_in_third_record() {
    let data = b"@a\nA\n+\n!\n@b\nC\n+\n!\n@a\nG\n+\n!\n";
    let e = check(data).unwrap_err();
    assert_eq!(e.kind, ErrorKind::Duplicate);
    assert_eq!(e.line, Some(9));
    assert_eq!(e.content, b"@a".to_vec());
}

#[test]
fn headers_differing_in_one_byte_are_distinct() {
    assert_eq!(check(b"@r1\nA\n+\n!\n@r2\nA\n+\n!\n@R1\nA\n+\n!\n"), Ok(()));
}

#[test]
fn header_terminators_do_not_distinguish() {
    let e = check(b"@r1\r\nA\n+\n!\n@r1\nA\n+\n!\n").unwrap_err();
    assert_eq!(e.kind, ErrorKind::Duplicate);
    assert_eq!(e.line, Some(5));
}

#[test]
fn carriage_return_inside_sequence_is_invalid() {
    let e = check(b"@r1\nAC\rGT\n+\n!!!!!\n").unwrap_err();
    assert_eq!(e.kind, ErrorKind::Format(FormatRule::InvalidBase));
    assert_eq!(e.line, Some(2));
}

#[test]
fn validating_twice_gives_the_same_verdict() {
    let ok = b"@r1\nACGT\n+\n!!!!\n";
    assert_eq!(check(ok), check(ok));
    let bad = b"@r1\nACGT\n+\n!!!!\n@r1\nACGT\n+\n!!!!\n";
    assert_eq!(check(bad), check(bad));
}
