use vstd::prelude::*;

use crate::geometry::Rect;
use crate::model::{
    city_chars, city_text, day_at, day_list, days_len, hour_at, hour_list, hours_len, label_chars,
    label_text, DateTime, DayForecast, HourForecast, WeatherForecast,
};
use crate::text::{
    fmt_date, fmt_signed2, fmt_time, format_date, format_time, push_signed2,
};

verus! {

/// The fonts of the screen.
#[derive(Clone, Copy, Debug, PartialEq, Eq, Structural)]
pub enum Font {
    /// Logisoso 58 px, digits only: the time.
    Logisoso58Numbers,
    /// Logisoso 38 px, digits only: the date.
    Logisoso38Numbers,
    /// Logisoso 78 px, digits only: the current temperature.
    Logisoso78Numbers,
    /// Logisoso 42 px: daily highs.
    Logisoso42,
    /// Logisoso 28 px: hourly temperatures.
    Logisoso28,
    /// Helvetica 18 px: city and hour labels.
    HelvR18,
    /// Helvetica bold 18 px: unit, day names and daily lows.
    HelvB18,
    /// Open Iconic weather icons, 16 px.
    WeatherIcons2x,
    /// Open Iconic weather icons, 32 px.
    WeatherIcons4x,
}

/// The colours of the screen.
#[derive(Clone, Copy, Debug, PartialEq, Eq, Structural)]
pub enum Tone {
    /// White: main text and lines.
    Foreground,
    /// Light grey: labels.
    Dim,
    /// Dark grey: daily lows.
    Muted,
    /// Black: cleared areas.
    Background,
}

/// One drawing operation, as a mathematical value.
pub enum Draw {
    Fill { area: Rect, tone: Tone },
    Line { x0: i32, y0: i32, x1: i32, y1: i32, tone: Tone, stroke: u32 },
    /// Text with its top edge at `y`; `x` is the left edge, or the centre
    /// when `centered`.
    Text { text: Seq<char>, x: i32, y: i32, font: Font, tone: Tone, centered: bool },
}

/// One drawing operation for the renderer.
#[derive(Debug, PartialEq, Eq)]
pub enum DrawCmd {
    Fill { area: Rect, tone: Tone },
    Line { x0: i32, y0: i32, x1: i32, y1: i32, tone: Tone, stroke: u32 },
    Text { text: Vec<char>, x: i32, y: i32, font: Font, tone: Tone, centered: bool },
}

impl View for DrawCmd {
    type V = Draw;

    open spec fn view(&self) -> Draw {
        match self {
            DrawCmd::Fill { area, tone } => Draw::Fill { area: *area, tone: *tone },
            DrawCmd::Line { x0, y0, x1, y1, tone, stroke } => Draw::Line {
                x0: *x0,
                y0: *y0,
                x1: *x1,
                y1: *y1,
                tone: *tone,
                stroke: *stroke,
            },
            DrawCmd::Text { text, x, y, font, tone, centered } => Draw::Text {
                text: text@,
                x: *x,
                y: *y,
                font: *font,
                tone: *tone,
                centered: *centered,
            },
        }
    }
}

/// The views of a sequence of drawing commands.
pub open spec fn draws_of(cmds: Seq<DrawCmd>) -> Seq<Draw> {
    cmds.map_values(|c: DrawCmd| c@)
}

pub open spec fn text(t: Seq<char>, x: i32, y: i32, font: Font, tone: Tone) -> Draw {
    Draw::Text { text: t, x, y, font, tone, centered: false }
}

pub open spec fn centered_text(t: Seq<char>, x: i32, y: i32, font: Font, tone: Tone) -> Draw {
    Draw::Text { text: t, x, y, font, tone, centered: true }
}

/// The time area (left of the top row): cleared, then `HH:MM` if the time
/// is known.
pub open spec fn time_scene(date_time: Option<DateTime>) -> Seq<Draw> {
    seq![Draw::Fill { area: Rect { x: 0, y: 0, width: 230, height: 72 }, tone: Tone::Background }]
        + match date_time {
        Some(dt) => seq![
            text(fmt_time(dt.hour, dt.minute), 10, 5, Font::Logisoso58Numbers, Tone::Foreground),
        ],
        None => Seq::empty(),
    }
}

/// The date area (right of the top row): cleared, then `DD.MM.YYYY` if the
/// date is known, then the city if there is one.
pub open spec fn date_scene(date_time: Option<DateTime>, city: Seq<char>) -> Seq<Draw> {
    seq![Draw::Fill { area: Rect { x: 230, y: 0, width: 250, height: 72 }, tone: Tone::Background }]
        + match date_time {
        Some(dt) => seq![
            text(
                fmt_date(dt.day, dt.month, dt.year),
                235,
                5,
                Font::Logisoso38Numbers,
                Tone::Foreground,
            ),
        ],
        None => Seq::empty(),
    } + if city.len() > 0 {
        seq![text(city, 235, 48, Font::HelvR18, Tone::Dim)]
    } else {
        Seq::empty()
    }
}

/// A temperature followed by the degree sign.
pub open spec fn degrees(t: int) -> Seq<char> {
    fmt_signed2(t) + seq!['\u{00b0}']
}

/// Left edge of the hourly columns.
pub const HOURS_START_X: i32 = 165;

/// Right edge of the hourly columns.
pub const HOURS_END_X: i32 = 475;

/// Width of a daily column.
pub const DAY_COLUMN_WIDTH: i32 = 120;

/// Number of hourly columns: at most five.
pub open spec fn hour_count(n: nat) -> int {
    if n < 5 { n as int } else { 5 }
}

/// Centre of hourly column `i` when the columns are `col_w` wide.
pub open spec fn hour_center(i: int, col_w: int) -> int {
    HOURS_START_X + i * col_w + col_w / 2
}

/// One hourly column: label, icon if there is one, temperature.
pub open spec fn hour_scene(h: HourForecast, i: int, col_w: int) -> Seq<Draw> {
    let cx = hour_center(i, col_w);
    seq![centered_text(label_text(h.h), (cx - 8) as i32, 90, Font::HelvR18, Tone::Dim)] + (if h.i != '\0' {
        seq![text(seq![h.i], (cx + 8) as i32, 90, Font::WeatherIcons2x, Tone::Dim)]
    } else {
        Seq::empty()
    }) + seq![centered_text(degrees(h.t as int), cx as i32, 120, Font::Logisoso28, Tone::Foreground)]
}

/// The first `k` hourly columns.
pub open spec fn hours_scene(hours: Seq<HourForecast>, k: int, col_w: int) -> Seq<Draw>
    decreases k,
{
    if k <= 0 {
        Seq::empty()
    } else {
        hours_scene(hours, k - 1, col_w) + hour_scene(hours[k - 1], k - 1, col_w)
    }
}

/// Centre of daily column `i`.
pub open spec fn day_center(i: int) -> int {
    i * DAY_COLUMN_WIDTH + DAY_COLUMN_WIDTH / 2
}

/// One daily column: name, rain or sun icon, high, low.
pub open spec fn day_scene(d: DayForecast, i: int) -> Seq<Draw> {
    let cx = day_center(i);
    seq![
        centered_text(label_text(d.n), (cx - 13) as i32, 200, Font::HelvB18, Tone::Dim),
        text(
            seq![if d.rain { 'C' } else { 'E' }],
            (cx + 22) as i32,
            198,
            Font::WeatherIcons4x,
            Tone::Dim,
        ),
        centered_text(degrees(d.hi as int), cx as i32, 235, Font::Logisoso42, Tone::Foreground),
        centered_text(degrees(d.lo as int), cx as i32, 290, Font::HelvB18, Tone::Muted),
    ]
}

/// The first `k` daily columns.
pub open spec fn days_scene(days: Seq<DayForecast>, k: int) -> Seq<Draw>
    decreases k,
{
    if k <= 0 {
        Seq::empty()
    } else {
        days_scene(days, k - 1) + day_scene(days[k - 1], k - 1)
    }
}

/// A horizontal rule across the screen at `y`.
pub open spec fn rule(y: i32) -> Draw {
    Draw::Line { x0: 10, y0: y, x1: 470, y1: y, tone: Tone::Foreground, stroke: 2 }
}

/// The current temperature and its unit, once a city is known.
pub open spec fn current_scene(f: WeatherForecast) -> Seq<Draw> {
    if city_text(f.city).len() > 0 {
        seq![
            text(fmt_signed2(f.temp as int), 15, 85, Font::Logisoso78Numbers, Tone::Foreground),
            text(seq!['\u{00b0}', 'C'], 120, 80, Font::HelvB18, Tone::Dim),
        ]
    } else {
        Seq::empty()
    }
}

/// The hourly columns, spread over the space right of the current
/// temperature.
pub open spec fn hourly_scene(f: WeatherForecast) -> Seq<Draw> {
    if hour_list(f.hours).len() > 0 {
        let count = hour_count(hour_list(f.hours).len());
        hours_scene(hour_list(f.hours), count, (HOURS_END_X - HOURS_START_X) / count)
    } else {
        Seq::empty()
    }
}

/// Everything below the top row: cleared, a rule, current and hourly
/// temperatures, a rule, the daily forecast.
pub open spec fn weather_scene(f: WeatherForecast) -> Seq<Draw> {
    seq![
        Draw::Fill { area: Rect { x: 0, y: 73, width: 480, height: 247 }, tone: Tone::Background },
        rule(73),
    ] + current_scene(f) + hourly_scene(f) + seq![rule(190)] + days_scene(day_list(f.days), day_list(f.days).len() as int)
}

fn push_cmd(out: &mut Vec<DrawCmd>, c: DrawCmd)
    ensures
        draws_of(final(out)@) == draws_of(old(out)@).push(c@),
{
    let ghost c_view = c@;
    out.push(c);
    assert(draws_of(final(out)@) =~= draws_of(old(out)@).push(c_view));
}

fn copy_chars(s: &[char]) -> (v: Vec<char>)
    ensures
        v@ == s@,
{
    let mut v = Vec::new();
    let mut i: usize = 0;
    while i < s.len()
        invariant
            i <= s@.len(),
            v@ == s@.take(i as int),
        decreases s@.len() - i,
    {
        v.push(s[i]);
        i += 1;
        assert(v@ =~= s@.take(i as int));
    }
    assert(s@.take(s@.len() as int) =~= s@);
    v
}

fn degrees_text(t: i32) -> (s: Vec<char>)
    ensures
        s@ == degrees(t as int),
{
    let mut s = Vec::new();
    push_signed2(&mut s, t);
    s.push('\u{00b0}');
    assert(s@ =~= degrees(t as int));
    s
}

/// The drawing of the time area: cleared, then the time if it is known.
pub fn draw_time(date_time: Option<&DateTime>) -> (cmds: Vec<DrawCmd>)
    ensures
        draws_of(cmds@) == time_scene(
            match date_time {
                Some(d) => Some(*d),
                None => None,
            },
        ),
{
    let mut cmds: Vec<DrawCmd> = Vec::new();
    push_cmd(
        &mut cmds,
        DrawCmd::Fill { area: Rect::new(0, 0, 230, 72), tone: Tone::Background },
    );
    if let Some(dt) = date_time {
        let t = format_time(dt.hour, dt.minute);
        push_cmd(
            &mut cmds,
            DrawCmd::Text {
                text: t,
                x: 10,
                y: 5,
                font: Font::Logisoso58Numbers,
                tone: Tone::Foreground,
                centered: false,
            },
        );
    }
    proof {
        let dt = match date_time {
            Some(d) => Some(*d),
            None => None,
        };
        assert(draws_of(cmds@) =~= time_scene(dt));
    }
    cmds
}

/// The drawing of the date area: cleared, then the date if it is known,
/// then the city if there is one.
pub fn draw_date(date_time: Option<&DateTime>, city: &[char]) -> (cmds: Vec<DrawCmd>)
    ensures
        draws_of(cmds@) == date_scene(
            match date_time {
                Some(d) => Some(*d),
                None => None,
            },
            city@,
        ),
{
    let mut cmds: Vec<DrawCmd> = Vec::new();
    push_cmd(
        &mut cmds,
        DrawCmd::Fill { area: Rect::new(230, 0, 250, 72), tone: Tone::Background },
    );
    let ghost after_fill = draws_of(cmds@);
    if let Some(dt) = date_time {
        let t = format_date(dt.day, dt.month, dt.year);
        push_cmd(
            &mut cmds,
            DrawCmd::Text {
                text: t,
                x: 235,
                y: 5,
                font: Font::Logisoso38Numbers,
                tone: Tone::Foreground,
                centered: false,
            },
        );
    }
    let ghost after_date = draws_of(cmds@);
    if city.len() > 0 {
        let c = copy_chars(city);
        push_cmd(
            &mut cmds,
            DrawCmd::Text {
                text: c,
                x: 235,
                y: 48,
                font: Font::HelvR18,
                tone: Tone::Dim,
                centered: false,
            },
        );
    }
    proof {
        let dt = match date_time {
            Some(d) => Some(*d),
            None => None,
        };
        assert(draws_of(cmds@) =~= date_scene(dt, city@));
    }
    cmds
}


fn push_hour(cmds: &mut Vec<DrawCmd>, h: &HourForecast, i: i32, col_w: i32)
    requires
        0 <= i < 5,
        0 < col_w <= 310,
    ensures
        draws_of(final(cmds)@) == draws_of(old(cmds)@) + hour_scene(*h, i as int, col_w as int),
{
    let ghost start = draws_of(cmds@);
    assert(0 <= i * col_w <= 4 * 310) by (nonlinear_arith)
        requires
            0 <= i < 5,
            0 < col_w <= 310,
    ;
    let cx = HOURS_START_X + i * col_w + col_w / 2;
    let label = label_chars(&h.h);
    push_cmd(
        cmds,
        DrawCmd::Text { text: label, x: cx - 8, y: 90, font: Font::HelvR18, tone: Tone::Dim, centered: true },
    );
    if h.i != '\0' {
        let icon_text = vec![h.i];
        assert(icon_text@ =~= seq![h.i]);
        push_cmd(
            cmds,
            DrawCmd::Text {
                text: icon_text,
                x: cx + 8,
                y: 90,
                font: Font::WeatherIcons2x,
                tone: Tone::Dim,
                centered: false,
            },
        );
    }
    let t = degrees_text(h.t);
    push_cmd(
        cmds,
        DrawCmd::Text { text: t, x: cx, y: 120, font: Font::Logisoso28, tone: Tone::Foreground, centered: true },
    );
    assert(draws_of(cmds@) =~= start + hour_scene(*h, i as int, col_w as int));
}

fn push_day(cmds: &mut Vec<DrawCmd>, d: &DayForecast, i: i32)
    requires
        0 <= i < 4,
    ensures
        draws_of(final(cmds)@) == draws_of(old(cmds)@) + day_scene(*d, i as int),
{
    let ghost start = draws_of(cmds@);
    let cx = i * DAY_COLUMN_WIDTH + DAY_COLUMN_WIDTH / 2;
    let name = label_chars(&d.n);
    push_cmd(
        cmds,
        DrawCmd::Text { text: name, x: cx - 13, y: 200, font: Font::HelvB18, tone: Tone::Dim, centered: true },
    );
    let icon = if d.rain { 'C' } else { 'E' };
    let icon_text = vec![icon];
    assert(icon_text@ =~= seq![icon]);
    push_cmd(
        cmds,
        DrawCmd::Text {
            text: icon_text,
            x: cx + 22,
            y: 198,
            font: Font::WeatherIcons4x,
            tone: Tone::Dim,
            centered: false,
        },
    );
    let hi = degrees_text(d.hi);
    push_cmd(
        cmds,
        DrawCmd::Text { text: hi, x: cx, y: 235, font: Font::Logisoso42, tone: Tone::Foreground, centered: true },
    );
    let lo = degrees_text(d.lo);
    push_cmd(
        cmds,
        DrawCmd::Text { text: lo, x: cx, y: 290, font: Font::HelvB18, tone: Tone::Muted, centered: true },
    );
    assert(draws_of(cmds@) =~= start + day_scene(*d, i as int));
}

/// The drawing of everything below the top row: current temperature,
/// hourly and daily forecast.
pub fn draw_weather(forecast: &WeatherForecast) -> (cmds: Vec<DrawCmd>)
    ensures
        draws_of(cmds@) == weather_scene(*forecast),
{
    let mut cmds: Vec<DrawCmd> = Vec::new();
    push_cmd(
        &mut cmds,
        DrawCmd::Fill { area: Rect::new(0, 73, 480, 247), tone: Tone::Background },
    );
    push_cmd(
        &mut cmds,
        DrawCmd::Line { x0: 10, y0: 73, x1: 470, y1: 73, tone: Tone::Foreground, stroke: 2 },
    );
    let ghost head = draws_of(cmds@);
    let city = city_chars(&forecast.city);
    if city.len() > 0 {
        let mut t = Vec::new();
        push_signed2(&mut t, forecast.temp);
        push_cmd(
            &mut cmds,
            DrawCmd::Text {
                text: t,
                x: 15,
                y: 85,
                font: Font::Logisoso78Numbers,
                tone: Tone::Foreground,
                centered: false,
            },
        );
        let unit = vec!['\u{00b0}', 'C'];
        assert(unit@ =~= seq!['\u{00b0}', 'C']);
        push_cmd(
            &mut cmds,
            DrawCmd::Text { text: unit, x: 120, y: 80, font: Font::HelvB18, tone: Tone::Dim, centered: false },
        );
    }
    assert(draws_of(cmds@) =~= head + current_scene(*forecast));
    let ghost with_current = draws_of(cmds@);
    // Hourly temperatures
    let n_hours = hours_len(&forecast.hours);
    if n_hours > 0 {
        let count: i32 = if n_hours < 5 { n_hours as i32 } else { 5 };
        let col_w = (HOURS_END_X - HOURS_START_X) / count;
        assert(count == hour_count(hour_list(forecast.hours).len()));
        assert(0 < (HOURS_END_X - HOURS_START_X) as int / count as int <= 310) by (nonlinear_arith)
            requires
                1 <= count <= 5,
                HOURS_END_X - HOURS_START_X == 310,
        ;
        let mut i: i32 = 0;
        while i < count
            invariant
                0 <= i <= count <= 5,
                count <= hour_list(forecast.hours).len(),
                col_w == (HOURS_END_X - HOURS_START_X) as int / count as int,
                0 < col_w <= 310,
                draws_of(cmds@) == with_current + hours_scene(
                    hour_list(forecast.hours),
                    i as int,
                    col_w as int,
                ),
            decreases count - i,
        {
            push_hour(&mut cmds, hour_at(&forecast.hours, i as usize), i, col_w);
            i += 1;
            assert(draws_of(cmds@) =~= with_current + hours_scene(
                hour_list(forecast.hours),
                i as int,
                col_w as int,
            ));
        }
    } else {
        assert(draws_of(cmds@) =~= with_current + hourly_scene(*forecast));
    }
    assert(draws_of(cmds@) =~= head + current_scene(*forecast) + hourly_scene(*forecast));
    push_cmd(
        &mut cmds,
        DrawCmd::Line { x0: 10, y0: 190, x1: 470, y1: 190, tone: Tone::Foreground, stroke: 2 },
    );
    let ghost with_rule = draws_of(cmds@);
    // Daily forecast
    let n_days = days_len(&forecast.days);
    let mut i: usize = 0;
    while i < n_days
        invariant
            n_days == day_list(forecast.days).len(),
            n_days <= 4,
            i <= n_days,
            draws_of(cmds@) == with_rule + days_scene(day_list(forecast.days), i as int),
        decreases n_days - i,
    {
        push_day(&mut cmds, day_at(&forecast.days, i), i as i32);
        i += 1;
        assert(draws_of(cmds@) =~= with_rule + days_scene(day_list(forecast.days), i as int));
    }
    assert(draws_of(cmds@) =~= weather_scene(*forecast));
    cmds
}


/// The hourly columns split the space between the current temperature and
/// the right edge: each column starts at or after the previous one ends,
/// and the last one ends within the space.
pub proof fn law_hour_columns_fit(n: nat, i: int)
    requires
        n > 0,
        0 <= i < hour_count(n),
    ensures
        ({
            let count = hour_count(n);
            let col_w = (HOURS_END_X - HOURS_START_X) / count;
            &&& HOURS_START_X <= HOURS_START_X + i * col_w
            &&& hour_center(i, col_w) == HOURS_START_X + i * col_w + col_w / 2
            &&& HOURS_START_X + (i + 1) * col_w <= HOURS_END_X
        }),
{
    let count = hour_count(n);
    let col_w = (HOURS_END_X - HOURS_START_X) / count;
    assert(1 <= count <= 5);
    assert(col_w * count <= 310) by (nonlinear_arith)
        requires
            col_w == 310int / count,
            1 <= count,
    ;
    assert(0 <= i * col_w && (i + 1) * col_w <= count * col_w) by (nonlinear_arith)
        requires
            0 <= i < count,
            0 <= col_w,
    ;
}

/// The daily columns are 120 pixels wide and the four of them fill the
/// width of the panel.
pub proof fn law_day_columns_fit(i: int)
    requires
        0 <= i < 4,
    ensures
        0 <= day_center(i) - DAY_COLUMN_WIDTH / 2,
        day_center(i) + DAY_COLUMN_WIDTH / 2 <= 480,
{
}


proof fn lemma_days_scene_columns(days: Seq<DayForecast>, k: int)
    requires
        0 <= k <= days.len(),
    ensures
        days_scene(days, k).len() == 4 * k,
        forall|i: int, j: int|
            0 <= i < k && 0 <= j < 4 ==> #[trigger] days_scene(days, k)[4 * i + j] == day_scene(
                days[i],
                i,
            )[j],
    decreases k,
{
    if k > 0 {
        lemma_days_scene_columns(days, k - 1);
        let prev = days_scene(days, k - 1);
        let last = day_scene(days[k - 1], k - 1);
        assert forall|i: int, j: int| 0 <= i < k && 0 <= j < 4 implies #[trigger] days_scene(
            days,
            k,
        )[4 * i + j] == day_scene(days[i], i)[j] by {
            if i < k - 1 {
                assert(days_scene(days, k)[4 * i + j] == prev[4 * i + j]);
            } else {
                assert(days_scene(days, k)[4 * i + j] == last[j]);
            }
        }
    }
}

/// The daily part of the weather scene has a column for every day of the
/// forecast, after the lower rule and at the end of the scene: column `i`
/// is centred at `120 * i + 60` and shows the day's name, a rain or sun
/// icon, and its high and low temperatures.
pub proof fn law_every_day_has_a_column(f: WeatherForecast)
    ensures
        ({
            let s = weather_scene(f);
            let days = day_list(f.days);
            let n = days.len() as int;
            let base = s.len() - 4 * n;
            &&& base >= 3
            &&& s[base - 1] == rule(190)
            &&& forall|i: int|
                0 <= i < n ==> {
                    &&& #[trigger] s[base + 4 * i] == centered_text(
                        label_text(days[i].n),
                        (120 * i + 47) as i32,
                        200,
                        Font::HelvB18,
                        Tone::Dim,
                    )
                    &&& s[base + 4 * i + 1] == text(
                        seq![if days[i].rain { 'C' } else { 'E' }],
                        (120 * i + 82) as i32,
                        198,
                        Font::WeatherIcons4x,
                        Tone::Dim,
                    )
                    &&& s[base + 4 * i + 2] == centered_text(
                        fmt_signed2(days[i].hi as int) + seq!['\u{00b0}'],
                        (120 * i + 60) as i32,
                        235,
                        Font::Logisoso42,
                        Tone::Foreground,
                    )
                    &&& s[base + 4 * i + 3] == centered_text(
                        fmt_signed2(days[i].lo as int) + seq!['\u{00b0}'],
                        (120 * i + 60) as i32,
                        290,
                        Font::HelvB18,
                        Tone::Muted,
                    )
                }
        }),
{
    let s = weather_scene(f);
    let days = day_list(f.days);
    let n = days.len() as int;
    lemma_days_scene_columns(days, n);
    let head = seq![
        Draw::Fill { area: Rect { x: 0, y: 73, width: 480, height: 247 }, tone: Tone::Background },
        rule(73),
    ] + current_scene(f) + hourly_scene(f) + seq![rule(190)];
    let tail = days_scene(days, n);
    assert(s == head + tail);
    let base = s.len() - 4 * n;
    assert(base == head.len());
    assert forall|i: int| 0 <= i < n implies {
        &&& #[trigger] s[base + 4 * i] == centered_text(
            label_text(days[i].n),
            (120 * i + 47) as i32,
            200,
            Font::HelvB18,
            Tone::Dim,
        )
        &&& s[base + 4 * i + 1] == text(
            seq![if days[i].rain { 'C' } else { 'E' }],
            (120 * i + 82) as i32,
            198,
            Font::WeatherIcons4x,
            Tone::Dim,
        )
        &&& s[base + 4 * i + 2] == centered_text(
            fmt_signed2(days[i].hi as int) + seq!['\u{00b0}'],
            (120 * i + 60) as i32,
            235,
            Font::Logisoso42,
            Tone::Foreground,
        )
        &&& s[base + 4 * i + 3] == centered_text(
            fmt_signed2(days[i].lo as int) + seq!['\u{00b0}'],
            (120 * i + 60) as i32,
            290,
            Font::HelvB18,
            Tone::Muted,
        )
    } by {
        assert(tail[4 * i + 0] == day_scene(days[i], i)[0]);
        assert(tail[4 * i + 1] == day_scene(days[i], i)[1]);
        assert(tail[4 * i + 2] == day_scene(days[i], i)[2]);
        assert(tail[4 * i + 3] == day_scene(days[i], i)[3]);
        assert(s[base + 4 * i] == tail[4 * i]);
        assert(s[base + 4 * i + 1] == tail[4 * i + 1]);
        assert(s[base + 4 * i + 2] == tail[4 * i + 2]);
        assert(s[base + 4 * i + 3] == tail[4 * i + 3]);
    }
}

} // verus!
