use ar_settings::{
    create_shop_template, create_special_allocation_from_str, SpecialAllocationError, parse_duration_string, parse_numeric_list, parse_numeric_list_to_str,
    parse_shop_template, DurationError, LuaKVConstraints, Owner, PollTaskOptions, Unit,
};

#[test]
fn durations_parse_with_or_without_space() {
    assert_eq!(parse_duration_string("10 minutes"), Ok((10, Unit::Minutes)));
    assert_eq!(parse_duration_string("3d"), Ok((3, Unit::Days)));
    assert_eq!(parse_duration_string("1 2 h"), Ok((12, Unit::Hours)));
    assert_eq!(parse_duration_string("5 fortnights"), Err(DurationError::InvalidUnit));
    assert_eq!(parse_duration_string("\u{0663} s"), Err(DurationError::NotADigit));
    assert_eq!(parse_duration_string("99999999999999999999 s"), Err(DurationError::TooLarge));
}

#[test]
fn units_convert_to_seconds() {
    assert_eq!(Unit::Weeks.to_seconds(), 604800);
    assert_eq!(Unit::Hours.to_seconds_i64(), 3600);
    assert_eq!(Unit::try_from_name("secs"), Ok(Unit::Seconds));
    assert_eq!(Unit::try_from_name("hrs"), Ok(Unit::Hours));
    assert_eq!(Unit::try_from_name("years"), Err(DurationError::InvalidUnit));
}

#[test]
fn shop_templates_round_trip() {
    let t = create_shop_template("mod", "1.2");
    assert_eq!(t, "$shop/mod#1.2");
    assert_eq!(parse_shop_template(&t), Ok(("mod".to_string(), "1.2".to_string())));
    assert_eq!(parse_shop_template("$shop/$shop/a#b#c"), Ok(("a".to_string(), "b#c".to_string())));
    assert!(parse_shop_template("$shop/nohash").is_err());
}

#[test]
fn owners_split_at_first_slash() {
    let o = Owner::from_str("guild/123/4").unwrap();
    assert_eq!(o.target_type, "guild");
    assert_eq!(o.id, "123/4");
    assert!(Owner::from_str("guild").is_err());
}

#[test]
fn defaults_hold_documented_limits() {
    let c = LuaKVConstraints::default();
    assert_eq!(c.max_keys, 10000);
    assert_eq!(c.max_value_bytes, 262144);
    assert_eq!(c.max_object_storage_bytes, 524288);
    let p = PollTaskOptions::default();
    assert_eq!((p.interval, p.timeout_nostatuschange), (1, 300));
}

#[test]
fn numeric_lists_ignore_separators() {
    let replace: &[(&str, &str)] = &[("<#", ""), (">", "")];
    assert_eq!(parse_numeric_list("<#12>, 34 ,56", replace), Ok(vec![12, 34, 56]));
    assert_eq!(parse_numeric_list("", replace), Ok(vec![]));
    assert!(parse_numeric_list("99999999999999999999 1", replace).is_err());
    let replace: &[(&str, &str)] = &[("1", "7")];
    assert_eq!(parse_numeric_list("11 21", replace), Ok(vec![77, 21]));
    assert_eq!(parse_numeric_list_to_str("5;6", &[]), Ok(vec!["5".to_string(), "6".to_string()]));
}

#[test]
fn special_allocations_read_channel_numbers() {
    assert_eq!(
        create_special_allocation_from_str("a=1,,b=2,a=3"),
        Ok(vec![("a".to_string(), 3), ("b".to_string(), 2)])
    );
    assert_eq!(create_special_allocation_from_str(""), Ok(vec![]));
    assert_eq!(create_special_allocation_from_str("a=1=2"), Err(SpecialAllocationError::InvalidFormat));
    assert_eq!(create_special_allocation_from_str("a"), Err(SpecialAllocationError::InvalidFormat));
    assert_eq!(create_special_allocation_from_str("a=x"), Err(SpecialAllocationError::InvalidNumber));
    assert_eq!(create_special_allocation_from_str("a=4294967296"), Err(SpecialAllocationError::InvalidNumber));
}
