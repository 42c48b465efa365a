use track_classification::misc_helpers::{convert_to_parsable_date, NO_DATE_SENTINEL};

#[test]
fn full_date_is_midnight_utc() {
    // 2020-06-15T00:00:00Z
    assert_eq!(convert_to_parsable_date("2020-06-15".to_string()), 1592179200);
}

#[test]
fn epoch_date_is_zero() {
    assert_eq!(convert_to_parsable_date("1970-01-01".to_string()), 0);
}

#[test]
fn year_completes_to_mid_year() {
    assert_eq!(
        convert_to_parsable_date("2020".to_string()),
        convert_to_parsable_date("2020-06-15".to_string())
    );
}

#[test]
fn year_month_completes_to_mid_month() {
    assert_eq!(
        convert_to_parsable_date("2020-06".to_string()),
        convert_to_parsable_date("2020-06-15".to_string())
    );
}

#[test]
fn normalization_is_deterministic() {
    let a = convert_to_parsable_date("1999".to_string());
    let b = convert_to_parsable_date("1999".to_string());
    assert_eq!(a, b);
    assert_eq!(a, convert_to_parsable_date("1999-06-15".to_string()));
}

#[test]
fn empty_input_is_sentinel() {
    assert_eq!(convert_to_parsable_date(String::new()), NO_DATE_SENTINEL);
}

#[test]
fn malformed_inputs_are_sentinel() {
    for s in ["----", "banana", "20-1-1", "2020-6-15", "2020-06-15x", "2020/06/15", "197"] {
        assert_eq!(convert_to_parsable_date(s.to_string()), NO_DATE_SENTINEL, "input {:?}", s);
    }
}

#[test]
fn out_of_range_date_is_sentinel() {
    assert_eq!(convert_to_parsable_date("2020-99-99".to_string()), NO_DATE_SENTINEL);
    assert_eq!(convert_to_parsable_date("2021-02-29".to_string()), NO_DATE_SENTINEL);
}
