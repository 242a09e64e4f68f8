use package_file_verify::result::{CheckResult, VerificationResult};

fn columns(r: &VerificationResult) -> [CheckResult; 8] {
    [
        r.size(),
        r.mode(),
        r.checksum(),
        r.major_minor(),
        r.symbolic_link(),
        r.owner(),
        r.group(),
        r.modification_time(),
    ]
}

#[test]
fn unknown_is_all_unsupported() {
    let r = VerificationResult::unknown();
    assert_eq!(columns(&r), [CheckResult::Unsupported; 8]);
    assert!(!r.is_configuration());
}

#[test]
fn unknown_serializes_to_question_marks() {
    assert_eq!(VerificationResult::unknown().to_string(), "????????");
}

#[test]
fn parse_rpm_example() {
    let result = VerificationResult::from_string(".?5????T c");
    assert_eq!(result.is_configuration(), true);
    assert_eq!(result.checksum(), CheckResult::Failed);
    assert_eq!(result.modification_time(), CheckResult::Failed);
    assert_eq!(result.size(), CheckResult::Passed);
    assert_eq!(result.mode(), CheckResult::Unsupported);
}

#[test]
fn parse_all_passed() {
    let result = VerificationResult::from_string("........");
    assert!(!result.is_configuration());
    assert_eq!(columns(&result), [CheckResult::Passed; 8]);
}

#[test]
fn config_token_round_trips() {
    let result = VerificationResult::from_string("??5????? c");
    assert_eq!(result.to_string(), "??5????? c");
}

#[test]
fn canonical_tokens_round_trip() {
    for token in ["SM5DLUGT", "SM5DLUGT c", "........", "????????", ".M.D?U.T", "S?5.L?G. c"] {
        let r = VerificationResult::from_string(token);
        assert_eq!(r.to_string(), token);
        assert_eq!(VerificationResult::from_string(&r.to_string()), r);
    }
}

#[test]
fn failed_columns_use_their_letters() {
    let r = VerificationResult::from_string("XXXXXXXX");
    assert_eq!(columns(&r), [CheckResult::Failed; 8]);
    assert_eq!(r.to_string(), "SM5DLUGT");
}

#[test]
fn unsupported_char_counts_as_failed() {
    let r = VerificationResult::from_string("X???????");
    assert_eq!(r.size(), CheckResult::Failed);
    assert_eq!(r.to_string(), "S???????");
}

#[test]
fn changing_one_column_changes_only_that_field() {
    let base = VerificationResult::from_string("........ c");
    let changed = VerificationResult::from_string("...?.... c");
    let (a, b) = (columns(&base), columns(&changed));
    for i in 0..8 {
        if i == 3 {
            assert_eq!(b[i], CheckResult::Unsupported);
        } else {
            assert_eq!(a[i], b[i]);
        }
    }
    assert_eq!(base.is_configuration(), changed.is_configuration());
}

#[test]
fn short_token_leaves_rest_unsupported() {
    let r = VerificationResult::from_string(".S");
    assert_eq!(r.size(), CheckResult::Passed);
    assert_eq!(r.mode(), CheckResult::Failed);
    assert_eq!(r.checksum(), CheckResult::Unsupported);
    assert_eq!(r.modification_time(), CheckResult::Unsupported);
    assert!(!r.is_configuration());
    assert_eq!(r.to_string(), ".M??????");
}

#[test]
fn empty_token_is_unknown() {
    assert_eq!(VerificationResult::from_string(""), VerificationResult::unknown());
}

#[test]
fn trailing_c_without_space_marks_configuration() {
    assert!(VerificationResult::from_string("........c").is_configuration());
    assert!(!VerificationResult::from_string(".........").is_configuration());
    assert!(!VerificationResult::from_string("....c").is_configuration());
    assert!(!VerificationResult::from_string("???????c").is_configuration());
}

#[test]
fn configuration_flag_serializes_with_space() {
    let r = VerificationResult::from_string("........c");
    assert_eq!(r.to_string(), "........ c");
}
