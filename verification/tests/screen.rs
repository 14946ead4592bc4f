use pico_weather_clock::geometry::Rect;
use pico_weather_clock::model::{DateTime, DayForecast, HourForecast, InitialDateTime, WeatherForecast};
use pico_weather_clock::scene::{draw_date, draw_time, draw_weather, DrawCmd, Font, Tone};

fn chars(s: &str) -> Vec<char> {
    s.chars().collect()
}

fn text(t: &str, x: i32, y: i32, font: Font, tone: Tone, centered: bool) -> DrawCmd {
    DrawCmd::Text { text: chars(t), x, y, font, tone, centered }
}

fn dt() -> DateTime {
    DateTime { year: 2024, month: 3, day: 9, hour: 8, minute: 4, second: 30 }
}

#[test]
fn time_area_without_clock_is_only_cleared() {
    assert_eq!(
        draw_time(None),
        vec![DrawCmd::Fill { area: Rect::new(0, 0, 230, 72), tone: Tone::Background }]
    );
}

#[test]
fn time_area_shows_hours_and_minutes() {
    let d = dt();
    assert_eq!(
        draw_time(Some(&d)),
        vec![
            DrawCmd::Fill { area: Rect::new(0, 0, 230, 72), tone: Tone::Background },
            text("08:04", 10, 5, Font::Logisoso58Numbers, Tone::Foreground, false),
        ]
    );
}

#[test]
fn date_area_shows_date_and_city() {
    let d = dt();
    assert_eq!(
        draw_date(Some(&d), &chars("Wien")),
        vec![
            DrawCmd::Fill { area: Rect::new(230, 0, 250, 72), tone: Tone::Background },
            text("09.03.2024", 235, 5, Font::Logisoso38Numbers, Tone::Foreground, false),
            text("Wien", 235, 48, Font::HelvR18, Tone::Dim, false),
        ]
    );
    assert_eq!(
        draw_date(None, &[]),
        vec![DrawCmd::Fill { area: Rect::new(230, 0, 250, 72), tone: Tone::Background }]
    );
}

fn label(s: &str) -> heapless::String<4> {
    heapless::String::try_from(s).unwrap()
}

fn hour(h: &str, t: i32, i: char) -> HourForecast {
    HourForecast { h: label(h), t, i }
}

fn forecast(city: &str, temp: i32, days: Vec<DayForecast>, hours: Vec<HourForecast>) -> WeatherForecast {
    WeatherForecast {
        city: heapless::String::try_from(city).unwrap(),
        temp,
        temp_whole: temp,
        days: days.into_iter().collect(),
        hours: hours.into_iter().collect(),
    }
}

#[test]
fn empty_forecast_draws_frame_only() {
    let f = forecast("", 0, vec![], vec![]);
    let rule = |y| DrawCmd::Line { x0: 10, y0: y, x1: 470, y1: y, tone: Tone::Foreground, stroke: 2 };
    assert_eq!(
        draw_weather(&f),
        vec![
            DrawCmd::Fill { area: Rect::new(0, 73, 480, 247), tone: Tone::Background },
            rule(73),
            rule(190),
        ]
    );
}

#[test]
fn forecast_layout_positions() {
    let f = forecast(
        "Graz",
        -3,
        vec![
            DayForecast { n: label("Mo"), lo: -4, hi: 2, rain: true },
            DayForecast { n: label("Di"), lo: 5, hi: 12, rain: false },
        ],
        vec![
            hour("10", 1, 'A'),
            hour("11", 2, '\0'),
            hour("12", 3, 'B'),
            hour("13", 4, 'C'),
            hour("14", 5, 'D'),
            hour("15", 6, 'E'),
        ],
    );
    let cmds = draw_weather(&f);
    let rule = |y| DrawCmd::Line { x0: 10, y0: y, x1: 470, y1: y, tone: Tone::Foreground, stroke: 2 };
    let mut expected = vec![
        DrawCmd::Fill { area: Rect::new(0, 73, 480, 247), tone: Tone::Background },
        rule(73),
        text("-3", 15, 85, Font::Logisoso78Numbers, Tone::Foreground, false),
        text("\u{00b0}C", 120, 80, Font::HelvB18, Tone::Dim, false),
    ];
    // five columns of 62 pixels from x = 165
    let labels = ["10", "11", "12", "13", "14"];
    let icons = ['A', '\0', 'B', 'C', 'D'];
    for i in 0..5 {
        let cx = 165 + i as i32 * 62 + 31;
        expected.push(text(labels[i], cx - 8, 90, Font::HelvR18, Tone::Dim, true));
        if icons[i] != '\0' {
            expected.push(DrawCmd::Text {
                text: vec![icons[i]],
                x: cx + 8,
                y: 90,
                font: Font::WeatherIcons2x,
                tone: Tone::Dim,
                centered: false,
            });
        }
        let t = format!("{:02}\u{00b0}", i + 1);
        expected.push(text(&t, cx, 120, Font::Logisoso28, Tone::Foreground, true));
    }
    expected.push(rule(190));
    expected.push(text("Mo", 47, 200, Font::HelvB18, Tone::Dim, true));
    expected.push(text("C", 82, 198, Font::WeatherIcons4x, Tone::Dim, false));
    expected.push(text("02\u{00b0}", 60, 235, Font::Logisoso42, Tone::Foreground, true));
    expected.push(text("-4\u{00b0}", 60, 290, Font::HelvB18, Tone::Muted, true));
    expected.push(text("Di", 167, 200, Font::HelvB18, Tone::Dim, true));
    expected.push(text("E", 202, 198, Font::WeatherIcons4x, Tone::Dim, false));
    expected.push(text("12\u{00b0}", 180, 235, Font::Logisoso42, Tone::Foreground, true));
    expected.push(text("05\u{00b0}", 180, 290, Font::HelvB18, Tone::Muted, true));
    assert_eq!(cmds, expected);
}

#[test]
fn two_hours_get_wide_columns() {
    let f = forecast("", 0, vec![], vec![hour("9", 0, '\0'), hour("10", 10, '\0')]);
    let cmds = draw_weather(&f);
    // columns of 155 pixels: centres at 242 and 397
    assert_eq!(cmds[2], text("9", 234, 90, Font::HelvR18, Tone::Dim, true));
    assert_eq!(cmds[3], text("00\u{00b0}", 242, 120, Font::Logisoso28, Tone::Foreground, true));
    assert_eq!(cmds[5], text("10\u{00b0}", 397, 120, Font::Logisoso28, Tone::Foreground, true));
}

#[test]
fn initial_report_sets_clock() {
    let now = InitialDateTime { year: 2025, month: 12, day: 31, hour: 23, minute: 59, second: 58 };
    assert_eq!(
        now.date_time(),
        DateTime { year: 2025, month: 12, day: 31, hour: 23, minute: 59, second: 58 }
    );
}
