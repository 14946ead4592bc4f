use pico_weather_clock::model::DateTime;
use pico_weather_clock::schedule::{display_step, Backlight, Refresh, RefreshState, Settings};

fn settings() -> Settings {
    Settings { brightness_day: 80, brightness_night: 15, night_start: 23, night_end: 7, force_night: None }
}

fn at(hour: u8, minute: u8, day: u8) -> DateTime {
    DateTime { year: 2024, month: 1, day, hour, minute, second: 0 }
}

#[test]
fn first_refresh_sets_day_theme_and_draws_all() {
    let mut st = RefreshState::new();
    let r = display_step(&settings(), &mut st, Some(&at(12, 30, 5)), 21);
    assert_eq!(
        r,
        Refresh {
            backlight: Some(Backlight { top: 32768, compare: 26214, inverted: false }),
            full_redraw: true,
            redraw_date: false,
            redraw_time: true,
        }
    );
}

#[test]
fn same_reading_twice_does_nothing() {
    let mut st = RefreshState::new();
    display_step(&settings(), &mut st, Some(&at(12, 30, 5)), 21);
    let before = st;
    let r = display_step(&settings(), &mut st, Some(&at(12, 30, 5)), 21);
    assert_eq!(r, Refresh { backlight: None, full_redraw: false, redraw_date: false, redraw_time: false });
    assert_eq!(st, before);
}

#[test]
fn minute_and_day_changes_redraw_only_their_area() {
    let mut st = RefreshState::new();
    display_step(&settings(), &mut st, Some(&at(12, 30, 5)), 21);
    let r = display_step(&settings(), &mut st, Some(&at(12, 31, 5)), 21);
    assert_eq!(r, Refresh { backlight: None, full_redraw: false, redraw_date: false, redraw_time: true });
    let r = display_step(&settings(), &mut st, Some(&at(12, 31, 6)), 21);
    assert_eq!(r, Refresh { backlight: None, full_redraw: false, redraw_date: true, redraw_time: false });
}

#[test]
fn temperature_change_redraws_everything() {
    let mut st = RefreshState::new();
    display_step(&settings(), &mut st, Some(&at(12, 30, 5)), 21);
    let r = display_step(&settings(), &mut st, Some(&at(12, 30, 5)), 22);
    assert_eq!(r, Refresh { backlight: None, full_redraw: true, redraw_date: false, redraw_time: true });
}

#[test]
fn night_and_late_night_dim_and_invert() {
    let mut st = RefreshState::new();
    display_step(&settings(), &mut st, Some(&at(22, 59, 5)), 21);
    let r = display_step(&settings(), &mut st, Some(&at(23, 0, 5)), 21);
    assert_eq!(r.backlight, Some(Backlight { top: 32768, compare: 4915, inverted: true }));
    assert!(r.full_redraw);
    let r = display_step(&settings(), &mut st, Some(&at(0, 0, 6)), 21);
    // late night: 15 - 10 = 5 percent
    assert_eq!(r.backlight, Some(Backlight { top: 32768, compare: 1638, inverted: true }));
    let r = display_step(&settings(), &mut st, Some(&at(7, 0, 6)), 21);
    assert_eq!(r.backlight, Some(Backlight { top: 32768, compare: 26214, inverted: false }));
}

#[test]
fn late_night_brightness_saturates_at_zero() {
    let s = Settings { brightness_night: 4, ..settings() };
    let mut st = RefreshState::new();
    let r = display_step(&s, &mut st, Some(&at(3, 0, 1)), 0);
    assert_eq!(r.backlight, Some(Backlight { top: 32768, compare: 0, inverted: true }));
}

#[test]
fn clock_unavailable_counts_as_noon() {
    let mut st = RefreshState::new();
    let r = display_step(&settings(), &mut st, None, 0);
    assert_eq!(r.backlight, Some(Backlight { top: 32768, compare: 26214, inverted: false }));
    assert_eq!(st.prev_minute, 0);
    assert_eq!(st.prev_day, 0);
}

#[test]
fn forced_theme_overrides_clock() {
    let s = Settings { force_night: Some(true), ..settings() };
    let mut st = RefreshState::new();
    let r = display_step(&s, &mut st, Some(&at(12, 0, 1)), 0);
    assert_eq!(r.backlight, Some(Backlight { top: 32768, compare: 4915, inverted: true }));
}

#[test]
fn full_brightness_uses_whole_pwm_period() {
    let s = Settings { brightness_day: 100, ..settings() };
    let mut st = RefreshState::new();
    let r = display_step(&s, &mut st, Some(&at(12, 0, 1)), 0);
    assert_eq!(r.backlight, Some(Backlight { top: 32768, compare: 32768, inverted: false }));
}
