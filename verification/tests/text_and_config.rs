use pico_weather_clock::config::{env_u16, env_u8};
use pico_weather_clock::text::{format_date, format_time, push_decimal, push_pad2, push_signed2};

fn s(v: &[char]) -> String {
    v.iter().collect()
}

#[test]
fn time_is_zero_padded() {
    assert_eq!(s(&format_time(7, 5)), "07:05");
    assert_eq!(s(&format_time(23, 59)), "23:59");
    assert_eq!(s(&format_time(0, 0)), "00:00");
}

#[test]
fn date_pads_day_and_month_only() {
    assert_eq!(s(&format_date(3, 11, 2024)), "03.11.2024");
    assert_eq!(s(&format_date(31, 1, 999)), "31.01.999");
}

#[test]
fn signed_two_digit_format_matches_std() {
    for n in [-1000, -15, -10, -9, -5, -1, 0, 1, 9, 10, 42, 123, i32::MAX, i32::MIN] {
        let mut v = Vec::new();
        push_signed2(&mut v, n);
        assert_eq!(s(&v), format!("{:02}", n));
    }
}

#[test]
fn pad2_and_decimal_match_std() {
    for n in [0u32, 5, 9, 10, 99, 100, 255, 65535, u32::MAX] {
        let mut v = Vec::new();
        push_pad2(&mut v, n);
        assert_eq!(s(&v), format!("{:0>2}", n));
        let mut w = vec!['x'];
        push_decimal(&mut w, n);
        assert_eq!(s(&w), format!("x{}", n));
    }
}

#[test]
fn env_settings_parse_decimal() {
    assert_eq!(env_u16("0"), 0);
    assert_eq!(env_u16("80"), 80);
    assert_eq!(env_u16("65535"), 65535);
    assert_eq!(env_u16(""), 0);
    assert_eq!(env_u8("23"), 23);
    assert_eq!(env_u8("300"), 44);
    // bytes above '9' count as their distance from '0'
    assert_eq!(env_u16("1a"), 59);
}

#[test]
fn decimal_round_trips_through_settings_parser() {
    for n in [0u32, 7, 10, 100, 4321, 65535] {
        let mut v = Vec::new();
        push_decimal(&mut v, n);
        let text = s(&v);
        assert_eq!(env_u16(&text) as u32, n);
    }
}
