use vstd::prelude::*;

use crate::model::DateTime;

verus! {

/// Build-time settings of the display loop.
#[derive(Clone, Copy, Debug, PartialEq, Eq, Structural)]
pub struct Settings {
    /// Backlight in percent by day.
    pub brightness_day: u16,
    /// Backlight in percent by night.
    pub brightness_night: u16,
    /// Hour at which the night begins.
    pub night_start: u8,
    /// Hour at which the night ends.
    pub night_end: u8,
    /// `Some(true)` forces the night theme, `Some(false)` the day theme,
    /// `None` follows the clock.
    pub force_night: Option<bool>,
}

/// What the display loop remembers between refreshes.
#[derive(Clone, Copy, Debug, PartialEq, Eq, Structural)]
pub struct RefreshState {
    pub prev_night: Option<bool>,
    pub prev_late_night: Option<bool>,
    pub prev_temp: i32,
    pub prev_minute: u8,
    pub prev_day: u8,
    pub weather_drawn: bool,
}

/// The backlight and theme to apply: PWM period and compare value, and
/// whether the panel inverts its colours.
#[derive(Clone, Copy, Debug, PartialEq, Eq, Structural)]
pub struct Backlight {
    pub top: u16,
    pub compare: u16,
    pub inverted: bool,
}

/// What one refresh of the display loop does, in this order: apply a new
/// backlight and theme; clear the screen and draw weather and date; draw
/// the date; draw the time.
#[derive(Clone, Copy, Debug, PartialEq, Eq, Structural)]
pub struct Refresh {
    pub backlight: Option<Backlight>,
    pub full_redraw: bool,
    pub redraw_date: bool,
    pub redraw_time: bool,
}

/// PWM period of the backlight.
pub const PWM_TOP: u16 = 32768;

/// Hour, minute and day read from the clock; noon of day 0 when the clock
/// cannot be read.
pub open spec fn clock_fields(date_time: Option<DateTime>) -> (u8, u8, u8) {
    match date_time {
        Some(d) => (d.hour, d.minute, d.day),
        None => (12, 0, 0),
    }
}

/// Night is every hour outside `night_end .. night_start`, unless forced.
pub open spec fn is_night(s: Settings, hour: u8) -> bool {
    match s.force_night {
        Some(b) => b,
        None => !(s.night_end <= hour < s.night_start),
    }
}

/// The part of the night after midnight.
pub open spec fn is_late_night(s: Settings, hour: u8) -> bool {
    is_night(s, hour) && hour < s.night_end
}

/// Backlight percentage: night or day setting, ten points less late at
/// night (but not below zero).
pub open spec fn brightness_for(s: Settings, night: bool, late_night: bool) -> u16 {
    let b = if night { s.brightness_night } else { s.brightness_day };
    if late_night {
        if b >= 10 { (b - 10) as u16 } else { 0 }
    } else {
        b
    }
}

/// PWM compare value for a backlight percentage, as `(32768 * b / 100) as u16`.
pub open spec fn pwm_compare(b: u16) -> u16 {
    ((32768 * b) / 100) as u16
}

/// The state before the first refresh.
pub open spec fn initial_state() -> RefreshState {
    RefreshState {
        prev_night: None,
        prev_late_night: None,
        prev_temp: -999i32,
        prev_minute: 255,
        prev_day: 255,
        weather_drawn: false,
    }
}

/// One refresh: the state afterwards and what to draw.
pub open spec fn refresh_spec(
    s: Settings,
    st: RefreshState,
    date_time: Option<DateTime>,
    temp: i32,
) -> (RefreshState, Refresh) {
    let (hour, minute, day) = clock_fields(date_time);
    let night = is_night(s, hour);
    let late = is_late_night(s, hour);
    // theme change
    let theme_changed = st.prev_night != Some(night) || st.prev_late_night != Some(late);
    let backlight = if theme_changed {
        Some(
            Backlight {
                top: PWM_TOP,
                compare: pwm_compare(brightness_for(s, night, late)),
                inverted: night,
            },
        )
    } else {
        None
    };
    let drawn = if theme_changed { false } else { st.weather_drawn };
    // full redraw
    let full = !drawn || temp != st.prev_temp;
    let day_after_full = if full { day } else { st.prev_day };
    let minute_after_full = if full { 255u8 } else { st.prev_minute };
    // date and time
    let redraw_date = day != day_after_full;
    let redraw_time = minute != minute_after_full;
    (
        RefreshState {
            prev_night: Some(night),
            prev_late_night: Some(late),
            prev_temp: if full { temp } else { st.prev_temp },
            prev_minute: minute,
            prev_day: day,
            weather_drawn: drawn || full,
        },
        Refresh { backlight, full_redraw: full, redraw_date, redraw_time },
    )
}

impl RefreshState {
    /// The state before the first refresh: nothing drawn yet.
    pub fn new() -> (st: RefreshState)
        ensures
            st == initial_state(),
    {
        RefreshState {
            prev_night: None,
            prev_late_night: None,
            prev_temp: -999,
            prev_minute: 255,
            prev_day: 255,
            weather_drawn: false,
        }
    }
}

/// Decides one refresh of the display loop from the clock and the current
/// temperature (whole degrees), and remembers what is on screen.
pub fn display_step(
    settings: &Settings,
    state: &mut RefreshState,
    date_time: Option<&DateTime>,
    temp_whole: i32,
) -> (r: Refresh)
    ensures
        (*final(state), r) == refresh_spec(
            *settings,
            *old(state),
            match date_time {
                Some(d) => Some(*d),
                None => None,
            },
            temp_whole,
        ),
        temp_whole != old(state).prev_temp ==> r.full_redraw,
        !old(state).weather_drawn ==> r.full_redraw,
{
    let hour = match date_time {
        Some(dt) => dt.hour,
        None => 12,
    };
    let minute = match date_time {
        Some(dt) => dt.minute,
        None => 0,
    };
    let day = match date_time {
        Some(dt) => dt.day,
        None => 0,
    };
    let night = match settings.force_night {
        Some(b) => b,
        None => !(settings.night_end <= hour && hour < settings.night_start),
    };
    // Handle night/day transition
    let late_night = night && hour < settings.night_end;
    let mut backlight = None;
    if state.prev_night != Some(night) || state.prev_late_night != Some(late_night) {
        let brightness = if night { settings.brightness_night } else { settings.brightness_day };
        let brightness = if late_night { brightness.saturating_sub(10) } else { brightness };
        let compare = (32768u32 * brightness as u32 / 100) as u16;
        backlight = Some(Backlight { top: PWM_TOP, compare, inverted: night });
        state.prev_night = Some(night);
        state.prev_late_night = Some(late_night);
        state.weather_drawn = false;
    }
    // Redraw weather if data changed or first draw
    let mut full_redraw = false;
    if !state.weather_drawn || temp_whole != state.prev_temp {
        full_redraw = true;
        state.prev_temp = temp_whole;
        state.prev_day = day;
        state.prev_minute = 255;
        state.weather_drawn = true;
    }
    // Redraw date only if day changed
    let mut redraw_date = false;
    if day != state.prev_day {
        redraw_date = true;
        state.prev_day = day;
    }
    // Redraw time only if minute changed
    let mut redraw_time = false;
    if minute != state.prev_minute {
        redraw_time = true;
        state.prev_minute = minute;
    }
    Refresh { backlight, full_redraw, redraw_date, redraw_time }
}


/// A refresh that changes nothing.
pub open spec fn is_idle(r: Refresh) -> bool {
    r.backlight is None && !r.full_redraw && !r.redraw_date && !r.redraw_time
}

/// Refreshing again with the same clock reading and temperature does
/// nothing: nothing is redrawn that is already on screen.
pub proof fn law_refresh_idempotent(
    s: Settings,
    st: RefreshState,
    date_time: Option<DateTime>,
    temp: i32,
)
    ensures
        ({
            let (st1, _) = refresh_spec(s, st, date_time, temp);
            let (st2, r2) = refresh_spec(s, st1, date_time, temp);
            is_idle(r2) && st2 == st1
        }),
{
}

/// After a refresh the screen shows the current theme, temperature, day
/// and minute.
pub proof fn law_refresh_catches_up(
    s: Settings,
    st: RefreshState,
    date_time: Option<DateTime>,
    temp: i32,
)
    ensures
        ({
            let (hour, minute, day) = clock_fields(date_time);
            let (st1, _) = refresh_spec(s, st, date_time, temp);
            &&& st1.prev_night == Some(is_night(s, hour))
            &&& st1.prev_late_night == Some(is_late_night(s, hour))
            &&& st1.prev_temp == temp
            &&& st1.prev_day == day
            &&& st1.prev_minute == minute
            &&& st1.weather_drawn
        }),
{
}

/// A full redraw clears the time, so the time is drawn again in the same
/// refresh (for any minute a clock can show).
pub proof fn law_full_redraw_draws_time(
    s: Settings,
    st: RefreshState,
    date_time: Option<DateTime>,
    temp: i32,
)
    requires
        clock_fields(date_time).1 < 60,
    ensures
        ({
            let (_, r) = refresh_spec(s, st, date_time, temp);
            r.full_redraw ==> r.redraw_time
        }),
{
}

/// A change of theme redraws the whole screen, and the panel is inverted
/// exactly at night.
pub proof fn law_theme_change_redraws(
    s: Settings,
    st: RefreshState,
    date_time: Option<DateTime>,
    temp: i32,
)
    ensures
        ({
            let (hour, _, _) = clock_fields(date_time);
            let (_, r) = refresh_spec(s, st, date_time, temp);
            r.backlight matches Some(b) ==> r.full_redraw && b.inverted == is_night(s, hour)
                && b.top == PWM_TOP
        }),
{
}

/// The first refresh sets the backlight and draws everything.
pub proof fn law_first_refresh_draws_all(s: Settings, date_time: Option<DateTime>, temp: i32)
    requires
        clock_fields(date_time).1 < 60,
    ensures
        ({
            let (_, r) = refresh_spec(s, initial_state(), date_time, temp);
            r.backlight is Some && r.full_redraw && r.redraw_time && !r.redraw_date
        }),
{
}

/// Late night is part of the night, and dims the night backlight by ten
/// points.
pub proof fn law_late_night_dims(s: Settings, hour: u8)
    ensures
        is_late_night(s, hour) ==> is_night(s, hour) && brightness_for(s, true, true) == (if s.brightness_night >= 10 {
            s.brightness_night - 10
        } else {
            0
        }),
{
}

/// A percentage up to 100 gives a compare value up to the PWM period, and
/// 100 percent gives the full period.
pub proof fn law_pwm_within_period(b: u16)
    requires
        b <= 100,
    ensures
        pwm_compare(b) <= PWM_TOP,
        b == 100 ==> pwm_compare(b) == PWM_TOP,
{
    assert(32768 * b <= 3276800) by (nonlinear_arith)
        requires
            b <= 100,
    ;
    assert((32768 * b) / 100 <= 32768) by (nonlinear_arith)
        requires
            32768 * b <= 3276800,
    ;
}


/// Whenever the whole-degree temperature differs from the one last drawn,
/// rising or falling, the refresh redraws the whole screen; so does the
/// first refresh after a theme change or before anything was drawn.
pub proof fn law_temperature_change_redraws(
    s: Settings,
    st: RefreshState,
    date_time: Option<DateTime>,
    temp: i32,
)
    ensures
        ({
            let (st1, r) = refresh_spec(s, st, date_time, temp);
            &&& temp != st.prev_temp ==> r.full_redraw
            &&& !st.weather_drawn ==> r.full_redraw
            &&& r.full_redraw ==> st1.prev_temp == temp
            &&& !r.full_redraw ==> temp == st.prev_temp && st1.prev_temp == st.prev_temp
        }),
{
}

} // verus!
