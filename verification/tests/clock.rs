use gitara::clock::date_or_now;

#[test]
fn dates_in_range_come_from_the_timestamp() {
    assert_eq!(date_or_now(Some(86_400)).unix_timestamp(), 86_400);
    assert_eq!(date_or_now(Some(-377_705_116_800)).year(), -9999);
    assert_eq!(date_or_now(Some(253_402_300_799)).year(), 9999);
}

#[test]
fn missing_or_out_of_range_dates_fall_back_to_now() {
    let before = time::OffsetDateTime::now_utc().unix_timestamp();
    let d = date_or_now(None).unix_timestamp();
    let far = date_or_now(Some(i64::MAX)).unix_timestamp();
    let after = time::OffsetDateTime::now_utc().unix_timestamp();
    assert!(before <= d && d <= after);
    assert!(before <= far && far <= after);
}
