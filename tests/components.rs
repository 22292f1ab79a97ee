use fastfastqvalidation::alphabet::{create_alphabet, is_base, line_is_bases};
use fastfastqvalidation::validator::strip_line_end;
use fastfastqvalidation::{ErrorKind, FormatRule, Validator};

#[test]
fn alphabet_holds_exactly_the_bases() {
    let t = create_alphabet();
    let bases = b"ATGCNatgcn";
    for b in 0..=255u8 {
        assert_eq!(t[b as usize], bases.contains(&b), "byte {}", b);
        assert_eq!(is_base(&t, b), bases.contains(&b));
    }
}

#[test]
fn line_of_bases() {
    let t = create_alphabet();
    assert!(line_is_bases(&t, b"ACGTNacgtn"));
    assert!(line_is_bases(&t, b""));
    assert!(!line_is_bases(&t, b"ACGU"));
    assert!(!line_is_bases(&t, b"ACGT\n"));
}

#[test]
fn strips_every_trailing_terminator() {
    let mut b = b"ACGT\r\n".to_vec();
    strip_line_end(&mut b);
    assert_eq!(b, b"ACGT".to_vec());
    let mut b = b"AC\rGT\n\r\n".to_vec();
    strip_line_end(&mut b);
    assert_eq!(b, b"AC\rGT".to_vec());
    let mut b = b"\r\n".to_vec();
    strip_line_end(&mut b);
    assert!(b.is_empty());
}

#[test]
fn streaming_pass_over_one_record() {
    let mut v = Validator::new(String::from("x.fq"));
    let mut buf = Vec::new();
    for line in [&b"@r1\n"[..], b"ACGT\n", b"+\n", b"!!!!\n"] {
        buf.extend_from_slice(line);
        assert_eq!(v.push_line(&mut buf), Ok(()));
        assert!(buf.is_empty());
    }
    assert_eq!(v.line_count(), 4);
    assert_eq!(v.finish(), Ok(()));
}

#[test]
fn streaming_pass_stops_at_duplicate() {
    let mut v = Validator::new(String::from("x.fq"));
    let mut buf = Vec::new();
    for line in [&b"@r1\n"[..], b"ACGT\n", b"+\n", b"!!!!\n"] {
        buf.extend_from_slice(line);
        assert_eq!(v.push_line(&mut buf), Ok(()));
    }
    buf.extend_from_slice(b"@r1\r\n");
    let e = v.push_line(&mut buf).unwrap_err();
    assert_eq!(e.kind, ErrorKind::Duplicate);
    assert_eq!(e.line, Some(5));
    assert_eq!(e.file_name, "x.fq");
    assert_eq!(e.content, b"@r1".to_vec());
}

#[test]
fn streaming_pass_without_lines_is_empty() {
    let v = Validator::new(String::from("none.fq"));
    let e = v.finish().unwrap_err();
    assert_eq!(e.kind, ErrorKind::Empty);
    assert_eq!(e.line, None);
    assert_eq!(e.file_name, "none.fq");
}

#[test]
fn streaming_quality_mismatch() {
    let mut v = Validator::new(String::from("x.fq"));
    let mut buf = Vec::new();
    for line in [&b"@r1\n"[..], b"ACG\n", b"+\n"] {
        buf.extend_from_slice(line);
        assert_eq!(v.push_line(&mut buf), Ok(()));
    }
    buf.extend_from_slice(b"!!!!\n");
    let e = v.push_line(&mut buf).unwrap_err();
    assert_eq!(e.kind, ErrorKind::Format(FormatRule::QualityLength));
    assert_eq!(e.line, Some(4));
}
