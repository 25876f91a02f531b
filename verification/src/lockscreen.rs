//! What the built-in lock screen shows: a clock, a date, a password field and a status line.

use vstd::prelude::*;
use vstd::string::*;

use crate::content::{AuthState, AuthView, Frame, FrameRequest, OutputRole};
use crate::text::{dec, text_of, two_digits};
use crate::theme::{Rgb, AMBER, FAINT, MUTED, RED};

verus! {

/// How many dots the password field shows at most.
pub const MAX_DOTS: usize = 40;

/// A line of text and its colour.
pub struct Label {
    pub text: &'static str,
    pub colour: Rgb,
}

impl View for Label {
    type V = (Seq<char>, Rgb);

    open spec fn view(&self) -> (Seq<char>, Rgb) {
        (self.text@, self.colour)
    }
}

/// The contents of an optional label.
pub open spec fn label_of(label: Option<Label>) -> Option<(Seq<char>, Rgb)> {
    match label {
        Some(held) => Some(held@),
        None => None,
    }
}

/// What an output shows of the current attempt.
pub struct LockFace {
    /// The password field: one dot per typed character, up to a limit. A kiosk output has none.
    pub field: Option<usize>,
    pub status: Option<Label>,
    pub caps_lock: Option<Label>,
    pub footer: Label,
}

/// How many dots the password field shows, where there is one.
pub open spec fn field_for(role: OutputRole, state: AuthState) -> Option<usize> {
    match role {
        OutputRole::Kiosk => None,
        OutputRole::Session => match state {
            AuthState::Idle(typed) => if typed < MAX_DOTS {
                Some(typed)
            } else {
                Some(MAX_DOTS)
            },
            _ => Some(0),
        },
    }
}

/// The status line: none while typing.
pub open spec fn status_for(role: OutputRole, state: AuthState) -> Option<(Seq<char>, Rgb)> {
    match role {
        OutputRole::Kiosk => None,
        OutputRole::Session => match state {
            AuthState::Verifying => Some(("checking…"@, MUTED)),
            AuthState::Failed => Some(("incorrect — try again"@, RED)),
            AuthState::Idle(_) => None,
        },
    }
}

/// The line on the caps lock.
pub open spec fn caps_lock_for(role: OutputRole, caps_lock: bool) -> Option<(Seq<char>, Rgb)> {
    if role == OutputRole::Session && caps_lock {
        Some(("caps lock on"@, AMBER))
    } else {
        None
    }
}

/// Lays out what an output shows of the current attempt: a lock screen its shape, a kiosk output
/// nothing.
pub fn lock_face(role: OutputRole, auth: AuthView) -> (face: LockFace)
    ensures
        face.field == field_for(role, auth.state),
        label_of(face.status) == status_for(role, auth.state),
        label_of(face.caps_lock) == caps_lock_for(role, auth.caps_lock),
        face.footer@ == ("locked"@, FAINT),
{
    let footer = Label { text: "locked", colour: FAINT };
    match role {
        OutputRole::Kiosk => LockFace { field: None, status: None, caps_lock: None, footer },
        OutputRole::Session => {
            let dots: usize = match auth.state {
                AuthState::Idle(typed) => if typed < MAX_DOTS {
                    typed
                } else {
                    MAX_DOTS
                },
                _ => 0,
            };
            let status = match auth.state {
                AuthState::Verifying => Some(Label { text: "checking…", colour: MUTED }),
                AuthState::Failed => Some(Label { text: "incorrect — try again", colour: RED }),
                AuthState::Idle(_) => None,
            };
            let caps_lock = if auth.caps_lock {
                Some(Label { text: "caps lock on", colour: AMBER })
            } else {
                None
            };
            LockFace { field: Some(dots), status, caps_lock, footer }
        },
    }
}

/// The field shows the number of typed characters and nothing else of them, and not even that
/// beyond the limit.
pub proof fn lemma_field_shows_shape_only(typed: usize)
    ensures
        field_for(OutputRole::Session, AuthState::Idle(typed)) == Some(
            if typed <= MAX_DOTS {
                typed
            } else {
                MAX_DOTS
            },
        ),
{
}

/// A kiosk output presents no password field and no word on the attempt, whatever is typed and
/// whatever becomes of it.
pub proof fn lemma_kiosk_has_no_password_field(auth: AuthView)
    ensures
        field_for(OutputRole::Kiosk, auth.state) is None,
        status_for(OutputRole::Kiosk, auth.state) is None,
        caps_lock_for(OutputRole::Kiosk, auth.caps_lock) is None,
{
}

/// A reading of the local clock.
#[derive(Clone, Copy, PartialEq, Eq, Structural, Debug)]
pub struct LocalTime {
    pub year: i32,
    pub month: u32,
    pub day: u32,
    pub hour: u32,
    pub minute: u32,
    pub second: u32,
    /// May reach beyond a whole second in a leap second.
    pub nanosecond: u32,
}

/// Whether there is such a time of day. In a leap second the nanoseconds run on to two seconds.
pub open spec fn is_time(hour: u32, minute: u32, second: u32, nanosecond: u32) -> bool {
    hour < 24 && minute < 60 && second < 60 && nanosecond < 2_000_000_000 && (nanosecond
        >= 1_000_000_000 ==> second == 59)
}

/// The time of day as hours, minutes and seconds, two digits each; a leap second is the sixtieth.
pub open spec fn clock_text(hour: u32, minute: u32, second: u32, nanosecond: u32) -> Option<
    Seq<char>,
> {
    if is_time(hour, minute, second, nanosecond) {
        Some(
            two_digits(hour as nat) + ":"@ + two_digits(minute as nat) + ":"@ + two_digits(
                (second + nanosecond / 1_000_000_000) as nat,
            ),
        )
    } else {
        None
    }
}

/// Formats a time of day with `chrono`'s `NaiveTime::format` by the pattern of hours, minutes and
/// seconds; `None` where `NaiveTime::from_hms_nano_opt` finds no such time. The claim is that
/// each number is written with two digits, and that the nanoseconds only count where they make a
/// leap second.
#[verifier::external_body]
pub(crate) fn format_time(
    hour: u32,
    minute: u32,
    second: u32,
    nanosecond: u32,
    pattern: &str,
) -> (text: Option<String>)
    requires
        pattern@ == "%H:%M:%S"@,
    ensures
        text_of(text) == clock_text(hour, minute, second, nanosecond),
{
    chrono::NaiveTime::from_hms_nano_opt(hour, minute, second, nanosecond).map(
        |time| time.format(pattern).to_string(),
    )
}

/// Whether a year of the Gregorian calendar has a 29th of February.
pub open spec fn is_leap_year(year: int) -> bool {
    year % 4 == 0 && (year % 100 != 0 || year % 400 == 0)
}

/// How many days a month has.
pub open spec fn days_in_month(year: int, month: int) -> int {
    if month == 2 {
        if is_leap_year(year) {
            29
        } else {
            28
        }
    } else if month == 4 || month == 6 || month == 9 || month == 11 {
        30
    } else {
        31
    }
}

/// How many days of a year come before a month.
pub open spec fn days_before_month(year: int, month: int) -> int
    decreases month,
{
    if month <= 1 {
        0
    } else {
        days_before_month(year, month - 1) + days_in_month(year, month - 1)
    }
}

/// How many days a date lies after the first of January of the year one.
pub open spec fn day_number(year: int, month: int, day: int) -> int {
    365 * (year - 1) + (year - 1) / 4 - (year - 1) / 100 + (year - 1) / 400 + days_before_month(
        year,
        month,
    ) + day - 1
}

/// Whether there is such a date in the range of `chrono`'s calendar.
pub open spec fn is_date(year: int, month: int, day: int) -> bool {
    -262143 <= year <= 262142 && 1 <= month <= 12 && 1 <= day <= days_in_month(year, month)
}

/// The short name of the weekday of a date. The first day of the year one is a Monday.
pub open spec fn weekday_text(year: int, month: int, day: int) -> Seq<char> {
    seq!["Mon"@, "Tue"@, "Wed"@, "Thu"@, "Fri"@, "Sat"@, "Sun"@][day_number(year, month, day) % 7]
}

/// The short name of a month.
pub open spec fn month_text(month: int) -> Seq<char> {
    seq![
        "Jan"@,
        "Feb"@,
        "Mar"@,
        "Apr"@,
        "May"@,
        "Jun"@,
        "Jul"@,
        "Aug"@,
        "Sep"@,
        "Oct"@,
        "Nov"@,
        "Dec"@,
    ][month - 1]
}

/// A number with at least four digits.
pub open spec fn four_digits(n: nat) -> Seq<char> {
    if n < 10 {
        "000"@ + dec(n)
    } else if n < 100 {
        "00"@ + dec(n)
    } else if n < 1000 {
        "0"@ + dec(n)
    } else {
        dec(n)
    }
}

/// A year with at least four digits, and with a sign outside of the years 0 to 9999.
pub open spec fn year_text(year: int) -> Seq<char> {
    if year < 0 {
        "-"@ + four_digits((-year) as nat)
    } else if year > 9999 {
        "+"@ + four_digits(year as nat)
    } else {
        four_digits(year as nat)
    }
}

/// A date as its weekday, its day with two digits, its month and its year.
pub open spec fn date_text(year: int, month: int, day: int) -> Option<Seq<char>> {
    if is_date(year, month, day) {
        Some(
            weekday_text(year, month, day) + " "@ + two_digits(day as nat) + " "@ + month_text(
                month,
            ) + " "@ + year_text(year),
        )
    } else {
        None
    }
}

/// Formats a date with `chrono`'s `NaiveDate::format` by the pattern of the short name of the
/// weekday, the day, the short name of the month and the year; `None` where
/// `NaiveDate::from_ymd_opt` finds no such date. The claim is that the date is one of the
/// proleptic Gregorian calendar in `chrono`'s range, and that its parts are written so.
#[verifier::external_body]
pub(crate) fn format_date(year: i32, month: u32, day: u32, pattern: &str) -> (text: Option<String>)
    requires
        pattern@ == "%a %d %b %Y"@,
    ensures
        text_of(text) == date_text(year as int, month as int, day as int),
{
    chrono::NaiveDate::from_ymd_opt(year, month, day).map(|date| date.format(pattern).to_string())
}

/// The two lines of the clock.
pub struct ClockFace {
    pub clock: String,
    pub date: String,
}

/// The characters of the two lines of an optional clock.
pub open spec fn face_of(face: Option<ClockFace>) -> Option<(Seq<char>, Seq<char>)> {
    match face {
        Some(held) => Some((held.clock@, held.date@)),
        None => None,
    }
}

/// The clock with these two lines; none unless there are both.
pub open spec fn both_lines(clock: Option<Seq<char>>, date: Option<Seq<char>>) -> Option<
    (Seq<char>, Seq<char>),
> {
    match clock {
        Some(clock) => match date {
            Some(date) => Some((clock, date)),
            None => None,
        },
        None => None,
    }
}

/// What the clock shows at a reading of the local clock; `None` if there is no such time.
pub fn clock_face(now: LocalTime) -> (face: Option<ClockFace>)
    ensures
        face_of(face) == both_lines(
            clock_text(now.hour, now.minute, now.second, now.nanosecond),
            date_text(now.year as int, now.month as int, now.day as int),
        ),
{
    let clock = format_time(now.hour, now.minute, now.second, now.nanosecond, "%H:%M:%S");
    let date = format_date(now.year, now.month, now.day, "%a %d %b %Y");
    match clock {
        Some(clock) => match date {
            Some(date) => Some(ClockFace { clock, date }),
            None => None,
        },
        None => None,
    }
}

/// Everything that the built-in content shows on an output.
pub struct Screen {
    pub clock: ClockFace,
    pub face: LockFace,
}

/// The contents of a screen.
pub ghost struct ScreenView {
    pub clock: Seq<char>,
    pub date: Seq<char>,
    pub field: Option<usize>,
    pub status: Option<(Seq<char>, Rgb)>,
    pub caps_lock: Option<(Seq<char>, Rgb)>,
    pub footer: (Seq<char>, Rgb),
}

impl View for Screen {
    type V = ScreenView;

    open spec fn view(&self) -> ScreenView {
        ScreenView {
            clock: self.clock.clock@,
            date: self.clock.date@,
            field: self.face.field,
            status: label_of(self.face.status),
            caps_lock: label_of(self.face.caps_lock),
            footer: self.face.footer@,
        }
    }
}

/// The contents of an optional screen.
pub open spec fn screen_view(screen: Option<Screen>) -> Option<ScreenView> {
    match screen {
        Some(held) => Some(held@),
        None => None,
    }
}

/// What the built-in content shows on a request at a reading of the local clock; nothing if there
/// is no such time.
pub open spec fn screen_of(request: FrameRequest, now: LocalTime) -> Option<ScreenView> {
    match both_lines(
        clock_text(now.hour, now.minute, now.second, now.nanosecond),
        date_text(now.year as int, now.month as int, now.day as int),
    ) {
        Some((clock, date)) => Some(
            ScreenView {
                clock,
                date,
                field: field_for(request.role, request.auth.state),
                status: status_for(request.role, request.auth.state),
                caps_lock: caps_lock_for(request.role, request.auth.caps_lock),
                footer: ("locked"@, FAINT),
            },
        ),
        None => None,
    }
}

/// Puts together what the built-in content shows on a frame. Its painter draws this and knows
/// nothing else but the frame's size.
pub fn screen(frame: &Frame, now: LocalTime) -> (screen: Option<Screen>)
    ensures
        screen_view(screen) == screen_of(frame@, now),
{
    match clock_face(now) {
        Some(clock) => Some(Screen { clock, face: lock_face(frame.role, frame.auth) }),
        None => None,
    }
}

/// On a kiosk output the built-in content shows the same at the same time, whatever is typed and
/// whatever becomes of an attempt: two requests that differ only in what they say of it give the
/// same screen.
pub proof fn lemma_kiosk_screen_ignores_the_attempt(
    one: FrameRequest,
    other: FrameRequest,
    now: LocalTime,
)
    requires
        one.role == OutputRole::Kiosk,
        other == (FrameRequest { auth: other.auth, ..one }),
    ensures
        screen_of(one, now) == screen_of(other, now),
{
}

} // verus!
