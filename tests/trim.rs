use effy::trim::{may_type, time_value_exec, trim_from_fields, valid_time_exec, validate_trim, TrimError};

#[test]
fn time_grammar() {
    for s in ["0", "12", "12.5", "1:00", "01:02:03", "99:59:59.999", "5:7", "59:59"] {
        assert!(valid_time_exec(s), "{}", s);
    }
    for s in ["", ".5", "5.", "1:60", "1:2:3:4", "123:00:00", "a", "1::2", "1234567890123", "1:2.3:4"] {
        assert!(!valid_time_exec(s), "{}", s);
    }
}

#[test]
fn times_compare_exactly() {
    assert_eq!(time_value_exec("1:00"), time_value_exec("60"));
    assert_eq!(time_value_exec("1:01:01.5"), time_value_exec("3661.50"));
    assert!(time_value_exec("10.0001") < time_value_exec("10.0002"));
    assert_eq!(time_value_exec("0.5"), 50_000_000_000);
}

#[test]
fn trim_fields_are_checked_in_order() {
    assert_eq!(validate_trim("", "", false), None);
    assert_eq!(validate_trim("x", "y", true), Some(TrimError::StartFormat));
    assert_eq!(validate_trim("10", "y", true), Some(TrimError::EndFormat));
    assert_eq!(validate_trim("1:00", "60", true), Some(TrimError::EndBeforeStart));
    assert_eq!(validate_trim("1:00", "30", false), None);
    assert_eq!(validate_trim("", "0.000", false), Some(TrimError::EndNotPositive));
    assert_eq!(validate_trim("5", "00:10", true), None);
    assert_eq!(TrimError::EndFormat.message(), "Incorrect duration/to format");
}

#[test]
fn typing_is_limited() {
    assert!(may_type('1', "12:34"));
    assert!(!may_type('.', "1.5"));
    assert!(!may_type(':', "1:2:3"));
    assert!(!may_type('1', "123456789012"));
    let t = trim_from_fields("", "20", true, false);
    assert!(t.ss.is_none());
    assert_eq!(t.to.as_deref(), Some("20"));
    assert!(t.precise && !t.use_to);
}
