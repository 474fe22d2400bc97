use stock_report::dates::{epoch_to_date_string, MAX_EPOCH_SECS};

#[test]
fn known_epoch_renders_in_utc() {
    assert_eq!(epoch_to_date_string(1700000000).unwrap(), "2023-11-14");
}

#[test]
fn epoch_zero_is_the_epoch_day() {
    assert_eq!(epoch_to_date_string(0).unwrap(), "1970-01-01");
}

#[test]
fn leap_day_is_rendered() {
    assert_eq!(epoch_to_date_string(951782400).unwrap(), "2000-02-29");
}

#[test]
fn last_second_of_a_day_stays_on_that_day() {
    assert_eq!(epoch_to_date_string(1700086399).unwrap(), "2023-11-15");
}

#[test]
fn range_edges() {
    assert_eq!(epoch_to_date_string(MAX_EPOCH_SECS - 1).unwrap(), "9999-12-31");
    assert_eq!(epoch_to_date_string(MAX_EPOCH_SECS), None);
    assert_eq!(epoch_to_date_string(-1), None);
}

#[test]
fn mapping_is_deterministic() {
    let a = epoch_to_date_string(1700000000).unwrap();
    let b = epoch_to_date_string(1700000000).unwrap();
    assert_eq!(a, b);
}
