use window_buttons::ancestry::{ProcessError, ProcessInfo};

#[test]
fn parses_parent_pid_from_record() {
    let r = ProcessInfo::parse_record(1234, "1234 (comm) S 400 1 0 0");
    match r {
        Ok(info) => assert_eq!(info.parent_id, Some(400)),
        Err(_) => panic!("expected a parent id"),
    }
}

#[test]
fn zero_parent_means_no_parent() {
    let r = ProcessInfo::parse_record(1, "1 (init) S 0 1 1 0");
    match r {
        Ok(info) => assert_eq!(info.parent_id, None),
        Err(_) => panic!("expected a parsed record"),
    }
}

#[test]
fn negative_parent_id_parses() {
    let r = ProcessInfo::parse_record(9, "9 (x) S -5 0");
    match r {
        Ok(info) => assert_eq!(info.parent_id, Some(-5)),
        Err(_) => panic!("expected a parsed record"),
    }
}

#[test]
fn too_few_fields_is_malformed() {
    let r = ProcessInfo::parse_record(77, "77 (short) S");
    assert!(matches!(r, Err(ProcessError::MalformedRecord { pid: 77 })));
}

#[test]
fn empty_record_is_malformed() {
    let r = ProcessInfo::parse_record(5, "");
    assert!(matches!(r, Err(ProcessError::MalformedRecord { pid: 5 })));
}

#[test]
fn non_numeric_field_is_invalid() {
    let r = ProcessInfo::parse_record(8, "8 (x) S x9 1");
    match r {
        Err(ProcessError::InvalidParentId { pid, value }) => {
            assert_eq!(pid, 8);
            assert_eq!(value, "x9");
        }
        _ => panic!("expected an invalid parent id"),
    }
}

#[test]
fn runs_of_whitespace_are_one_separator() {
    let r = ProcessInfo::parse_record(3, "3 (x) S  1");
    match r {
        Ok(info) => assert_eq!(info.parent_id, Some(1)),
        Err(_) => panic!("expected a parsed record"),
    }
    let r = ProcessInfo::parse_record(3, "3\t(x)\tS\t400 extra");
    match r {
        Ok(info) => assert_eq!(info.parent_id, Some(400)),
        Err(_) => panic!("expected a parsed record"),
    }
    let r = ProcessInfo::parse_record(3, "  3 (x) S 7");
    match r {
        Ok(info) => assert_eq!(info.parent_id, Some(7)),
        Err(_) => panic!("expected a parsed record"),
    }
}

#[test]
fn all_whitespace_record_is_malformed() {
    let r = ProcessInfo::parse_record(4, "   \t ");
    assert!(matches!(r, Err(ProcessError::MalformedRecord { pid: 4 })));
}

#[test]
fn extreme_values_parse_like_std() {
    let ok = ProcessInfo::parse_record(1, "1 (x) S -9223372036854775808 1");
    match ok {
        Ok(info) => assert_eq!(info.parent_id, Some(i64::MIN)),
        Err(_) => panic!("expected the minimum to parse"),
    }
    let over = ProcessInfo::parse_record(1, "1 (x) S 9223372036854775808 1");
    assert!(matches!(over, Err(ProcessError::InvalidParentId { .. })));
    let way_over = ProcessInfo::parse_record(1, "1 (x) S 99999999999999999999999 1");
    assert!(matches!(way_over, Err(ProcessError::InvalidParentId { .. })));
}

#[test]
fn sign_without_digits_is_invalid() {
    let r = ProcessInfo::parse_record(1, "1 (x) S - 1");
    assert!(matches!(r, Err(ProcessError::InvalidParentId { .. })));
}

#[test]
fn explicit_plus_sign_parses() {
    let r = ProcessInfo::parse_record(1, "1 (x) S +400 1");
    match r {
        Ok(info) => assert_eq!(info.parent_id, Some(400)),
        Err(_) => panic!("expected a parsed record"),
    }
}
