//! What the outputs show, in terms of what was typed, what time it is and what was painted.

use vstd::prelude::*;
use vstd::string::*;

use crate::content::{AuthState, AuthView, Frame, FrameRequest, KioskContent, OutputRole};
use crate::locker::EntryView;
use crate::lockscreen::{
    both_lines, caps_lock_for, clock_text, date_text, day_number, days_before_month, days_in_month,
    field_for, four_digits, is_date, month_text, screen_of, screen_view, status_for, weekday_text,
    year_text, LocalTime, Screen,
};
use crate::render::{outcome, rendered_from, swizzled, Rendered};
use crate::socket::FrameView;
use crate::text::dec;
use crate::text_laws::{
    all_digits, lemma_decimal_stands_for_its_number, lemma_two_digits, value_of,
};

verus! {

/// Whether a clock can show that time of day. In a leap second the nanoseconds run on to two seconds.
pub open spec fn time_exists(now: LocalTime) -> bool {
    &&& now.hour <= 23
    &&& now.minute <= 59
    &&& now.second <= 59
    &&& now.nanosecond <= 1_999_999_999
    &&& now.nanosecond >= 1_000_000_000 ==> now.second == 59
}

/// Whether the Gregorian calendar has that day, in the range of years that can be formatted.
pub open spec fn day_exists(year: int, month: int, day: int) -> bool {
    &&& -262143 <= year <= 262142
    &&& 1 <= month <= 12
    &&& 1 <= day <= 31
    &&& month == 4 || month == 6 || month == 9 || month == 11 ==> day <= 30
    &&& month == 2 ==> day <= 29
    &&& month == 2 && day == 29 ==> year % 4 == 0 && (year % 100 == 0 ==> year % 400 == 0)
}

/// There is a screen exactly at a time that exists. On a lock screen it shows one dot for each typed
/// character and no more than forty; while an attempt runs it says so, and after a failed one it
/// says that, without dots; the caps lock shows exactly while it is on.
pub proof fn lemma_a_lock_screen_shows_the_attempt(request: FrameRequest, now: LocalTime)
    requires
        request.role == OutputRole::Session,
    ensures
        screen_of(request, now) is Some <==> time_exists(now) && day_exists(
            now.year as int,
            now.month as int,
            now.day as int,
        ),
        screen_of(request, now) matches Some(screen) ==> {
            &&& screen.field is Some
            &&& request.auth.state matches AuthState::Idle(n) ==> {
                &&& n <= 40 ==> screen.field->0 == n
                &&& n > 40 ==> screen.field->0 == 40
                &&& screen.status is None
            }
            &&& request.auth.state is Verifying ==> screen.field->0 == 0 && screen.status == Some(
                ("checking…"@, (0x8au8, 0x8au8, 0x9cu8)),
            )
            &&& request.auth.state is Failed ==> screen.field->0 == 0 && screen.status == Some(
                ("incorrect — try again"@, (0xf4u8, 0x53u8, 0x53u8)),
            )
            &&& request.auth.caps_lock ==> screen.caps_lock == Some(
                ("caps lock on"@, (0xf5u8, 0x9eu8, 0x0bu8)),
            )
            &&& !request.auth.caps_lock ==> screen.caps_lock is None
            &&& screen.footer == ("locked"@, (0x55u8, 0x55u8, 0x66u8))
        },
{
    lemma_which_days_exist(now.year as int, now.month as int, now.day as int);
}

/// A kiosk output's screen exists at the same times and shows the footer and nothing of an attempt.
pub proof fn lemma_a_kiosk_screen_shows_no_attempt(request: FrameRequest, now: LocalTime)
    requires
        request.role == OutputRole::Kiosk,
    ensures
        screen_of(request, now) is Some <==> time_exists(now) && day_exists(
            now.year as int,
            now.month as int,
            now.day as int,
        ),
        screen_of(request, now) matches Some(screen) ==> {
            &&& screen.field is None
            &&& screen.status is None
            &&& screen.caps_lock is None
            &&& screen.footer == ("locked"@, (0x55u8, 0x55u8, 0x66u8))
        },
{
    lemma_which_days_exist(now.year as int, now.month as int, now.day as int);
}

proof fn lemma_which_days_exist(year: int, month: int, day: int)
    ensures
        is_date(year, month, day) <==> day_exists(year, month, day),
        date_text(year, month, day) is Some <==> day_exists(year, month, day),
{
}

/// Whether two characters are the tens and the ones of a number.
pub open spec fn are_digits_of(tens: char, ones: char, n: int) -> bool {
    tens as int == 0x30 + n / 10 && ones as int == 0x30 + n % 10
}

/// The screen's clock is the hour, the minute and the second, two digits each, with colons between
/// them; a leap second is the sixtieth second.
pub proof fn lemma_the_clock_shows_the_time(request: FrameRequest, now: LocalTime)
    ensures
        screen_of(request, now) matches Some(screen) ==> {
            let second = if now.nanosecond >= 1_000_000_000 {
                60
            } else {
                now.second as int
            };
            &&& screen.clock.len() == 8
            &&& are_digits_of(screen.clock[0], screen.clock[1], now.hour as int)
            &&& screen.clock[2] == ':'
            &&& are_digits_of(screen.clock[3], screen.clock[4], now.minute as int)
            &&& screen.clock[5] == ':'
            &&& are_digits_of(screen.clock[6], screen.clock[7], second)
        },
{
    if screen_of(request, now) is Some {
        reveal_strlit(":");
        lemma_two_digits(now.hour as nat);
        lemma_two_digits(now.minute as nat);
        lemma_two_digits((now.second + now.nanosecond / 1_000_000_000) as nat);
    }
}

/// The screen's date is the weekday's and the month's short names, the day with two digits and the
/// year, in the order weekday, day, month, year, with spaces between them.
pub proof fn lemma_the_date_shows_the_day(request: FrameRequest, now: LocalTime)
    ensures
        screen_of(request, now) matches Some(screen) ==> {
            &&& screen.date.len() > 11
            &&& screen.date.take(3) == weekday_text(
                now.year as int,
                now.month as int,
                now.day as int,
            )
            &&& screen.date[3] == ' '
            &&& are_digits_of(screen.date[4], screen.date[5], now.day as int)
            &&& screen.date[6] == ' '
            &&& screen.date.subrange(7, 10) == month_text(now.month as int)
            &&& screen.date[10] == ' '
            &&& screen.date.skip(11) == year_text(now.year as int)
        },
{
    if screen_of(request, now) is Some {
        let (year, month, day) = (now.year as int, now.month as int, now.day as int);
        reveal_strlit(" ");
        lemma_two_digits(now.day as nat);
        lemma_months_have_names(month);
        lemma_weekdays_have_names(year, month, day);
        lemma_years_are_written_out(year);
        let date = screen_of(request, now)->0.date;
        assert(date.take(3) == weekday_text(year, month, day));
        assert(date.subrange(7, 10) == month_text(month));
        assert(date.skip(11) == year_text(year));
    }
}

/// Every month has its short English name.
pub proof fn lemma_months_have_names(month: int)
    requires
        1 <= month <= 12,
    ensures
        month_text(month).len() == 3,
        month == 1 ==> month_text(month) == "Jan"@,
        month == 2 ==> month_text(month) == "Feb"@,
        month == 3 ==> month_text(month) == "Mar"@,
        month == 4 ==> month_text(month) == "Apr"@,
        month == 5 ==> month_text(month) == "May"@,
        month == 6 ==> month_text(month) == "Jun"@,
        month == 7 ==> month_text(month) == "Jul"@,
        month == 8 ==> month_text(month) == "Aug"@,
        month == 9 ==> month_text(month) == "Sep"@,
        month == 10 ==> month_text(month) == "Oct"@,
        month == 11 ==> month_text(month) == "Nov"@,
        month == 12 ==> month_text(month) == "Dec"@,
{
    reveal_strlit("Jan");
    reveal_strlit("Feb");
    reveal_strlit("Mar");
    reveal_strlit("Apr");
    reveal_strlit("May");
    reveal_strlit("Jun");
    reveal_strlit("Jul");
    reveal_strlit("Aug");
    reveal_strlit("Sep");
    reveal_strlit("Oct");
    reveal_strlit("Nov");
    reveal_strlit("Dec");
}

proof fn lemma_weekdays_have_names(year: int, month: int, day: int)
    ensures
        weekday_text(year, month, day).len() == 3,
{
    reveal_strlit("Mon");
    reveal_strlit("Tue");
    reveal_strlit("Wed");
    reveal_strlit("Thu");
    reveal_strlit("Fri");
    reveal_strlit("Sat");
    reveal_strlit("Sun");
}

/// The name of the weekday after one.
pub open spec fn weekday_after(name: Seq<char>) -> Seq<char> {
    if name == "Mon"@ {
        "Tue"@
    } else if name == "Tue"@ {
        "Wed"@
    } else if name == "Wed"@ {
        "Thu"@
    } else if name == "Thu"@ {
        "Fri"@
    } else if name == "Fri"@ {
        "Sat"@
    } else if name == "Sat"@ {
        "Sun"@
    } else {
        "Mon"@
    }
}

/// The weekdays run through without a break: from each day to the next, over the ends of months and
/// years, the next weekday follows. The first day of the year one is a Monday.
pub proof fn lemma_weekdays_run_through(year: int, month: int, day: int)
    requires
        day_exists(year, month, day),
    ensures
        weekday_text(1, 1, 1) == "Mon"@,
        day_exists(year, month, day + 1) ==> weekday_text(year, month, day + 1) == weekday_after(
            weekday_text(year, month, day),
        ),
        !day_exists(year, month, day + 1) && month < 12 ==> weekday_text(year, month + 1, 1)
            == weekday_after(weekday_text(year, month, day)),
        !day_exists(year, month, day + 1) && month == 12 ==> weekday_text(year + 1, 1, 1)
            == weekday_after(weekday_text(year, month, day)),
{
    lemma_weekday_names_differ();
    let n = day_number(year, month, day);
    assert(day_number(1, 1, 1) == 0);
    if day_exists(year, month, day + 1) {
        assert(day_number(year, month, day + 1) == n + 1);
    } else if month < 12 {
        assert(day == days_in_month(year, month));
        assert(days_before_month(year, month + 1) == days_before_month(year, month) + days_in_month(
            year,
            month,
        ));
        assert(day_number(year, month + 1, 1) == n + 1);
    } else {
        lemma_year_has_its_days(year);
        assert(day == 31);
        assert(day_number(year + 1, 1, 1) == n + 1);
    }
}

proof fn lemma_weekday_names_differ()
    ensures
        "Mon"@ != "Tue"@ && "Mon"@ != "Wed"@ && "Mon"@ != "Thu"@ && "Mon"@ != "Fri"@ && "Mon"@
            != "Sat"@ && "Mon"@ != "Sun"@,
        "Tue"@ != "Wed"@ && "Tue"@ != "Thu"@ && "Tue"@ != "Fri"@ && "Tue"@ != "Sat"@ && "Tue"@
            != "Sun"@,
        "Wed"@ != "Thu"@ && "Wed"@ != "Fri"@ && "Wed"@ != "Sat"@ && "Wed"@ != "Sun"@,
        "Thu"@ != "Fri"@ && "Thu"@ != "Sat"@ && "Thu"@ != "Sun"@,
        "Fri"@ != "Sat"@ && "Fri"@ != "Sun"@ && "Sat"@ != "Sun"@,
{
    reveal_strlit("Mon");
    reveal_strlit("Tue");
    reveal_strlit("Wed");
    reveal_strlit("Thu");
    reveal_strlit("Fri");
    reveal_strlit("Sat");
    reveal_strlit("Sun");
    assert("Mon"@[0] == 'M' && "Tue"@[0] == 'T' && "Wed"@[0] == 'W' && "Thu"@[0] == 'T' && "Fri"@[0]
        == 'F' && "Sat"@[0] == 'S' && "Sun"@[0] == 'S');
    assert("Tue"@[1] != "Thu"@[1] && "Sat"@[1] != "Sun"@[1]);
}

proof fn lemma_year_has_its_days(year: int)
    ensures
        days_before_month(year, 12) + 31 == 365 + (year / 4 - (year - 1) / 4) - (year / 100 - (year
            - 1) / 100) + (year / 400 - (year - 1) / 400),
{
    reveal_with_fuel(days_before_month, 12);
}

/// A year from 0 to 9999 is written with four digits, a later one with a plus before its digits, and an
/// earlier one with a minus and at least four digits.
pub proof fn lemma_years_are_written_out(year: int)
    ensures
        ({
            let text = year_text(year);
            &&& 0 <= year <= 9999 ==> text.len() == 4 && all_digits(text) && value_of(text) == year
            &&& year > 9999 ==> text.len() > 5 && text[0] == '+' && all_digits(text.skip(1))
                && value_of(text.skip(1)) == year
            &&& year < 0 ==> text.len() >= 5 && text[0] == '-' && all_digits(text.skip(1))
                && value_of(text.skip(1)) == -year
        }),
{
    reveal_strlit("+");
    reveal_strlit("-");
    if year < 0 {
        lemma_four_digits((-year) as nat);
        assert(year_text(year).skip(1) == four_digits((-year) as nat));
    } else {
        lemma_four_digits(year as nat);
        if year > 9999 {
            assert(year_text(year).skip(1) == four_digits(year as nat));
        }
    }
}

proof fn lemma_four_digits(n: nat)
    ensures
        four_digits(n).len() >= 4,
        n <= 9999 ==> four_digits(n).len() == 4,
        n > 9999 ==> four_digits(n).len() > 4,
        all_digits(four_digits(n)),
        value_of(four_digits(n)) == n,
{
    reveal_strlit("0");
    reveal_strlit("00");
    reveal_strlit("000");
    lemma_decimal_stands_for_its_number(n);
    lemma_decimal_length(n);
    if n < 10 {
        lemma_leading_zeros("000"@, dec(n));
    } else if n < 100 {
        lemma_leading_zeros("00"@, dec(n));
    } else if n < 1000 {
        lemma_leading_zeros("0"@, dec(n));
    }
}

proof fn lemma_decimal_length(n: nat)
    ensures
        n < 10 ==> dec(n).len() == 1,
        10 <= n < 100 ==> dec(n).len() == 2,
        100 <= n < 1000 ==> dec(n).len() == 3,
        1000 <= n < 10000 ==> dec(n).len() == 4,
        n >= 10000 ==> dec(n).len() > 4,
{
    reveal_with_fuel(dec, 5);
    if n >= 10000 {
        lemma_decimal_stands_for_its_number(n / 10 / 10 / 10 / 10);
    }
}

proof fn lemma_leading_zeros(zeros: Seq<char>, digits: Seq<char>)
    requires
        forall|i: int| 0 <= i < zeros.len() ==> #[trigger] zeros[i] == '0',
    ensures
        value_of(zeros + digits) == value_of(digits),
    decreases zeros.len() + digits.len(),
{
    if digits.len() > 0 {
        assert((zeros + digits).drop_last() == zeros + digits.drop_last());
        lemma_leading_zeros(zeros, digits.drop_last());
    } else if zeros.len() > 0 {
        assert(zeros + digits == zeros);
        assert(zeros.drop_last() + digits == zeros.drop_last());
        lemma_leading_zeros(zeros.drop_last(), digits);
        assert(value_of(digits) == 0);
    }
}

/// The bytes that the compositor gets of each pixel are blue, green, red and opacity.
pub proof fn lemma_pixels_become_bgra(rgba: Seq<u8>, p: int)
    requires
        0 <= p,
        4 * p + 3 < rgba.len(),
    ensures
        swizzled(rgba).len() == rgba.len(),
        swizzled(rgba)[4 * p] == rgba[4 * p + 2],
        swizzled(rgba)[4 * p + 1] == rgba[4 * p + 1],
        swizzled(rgba)[4 * p + 2] == rgba[4 * p],
        swizzled(rgba)[4 * p + 3] == rgba[4 * p + 3],
{
}

/// What becomes of painted pixels: those of the right number reach the compositor, whatever the
/// stand-in is; otherwise the stand-in's do if they have it, and nothing does if they have not. A
/// wrong number is reported with both numbers.
pub proof fn lemma_what_reaches_the_compositor(
    name: Seq<char>,
    expect: nat,
    first: Seq<u8>,
    stand_in: Seq<u8>,
)
    ensures
        ({
            let result = outcome(name, expect as int, first, stand_in);
            &&& first.len() == expect ==> result.bgra == Some(swizzled(first)) && result.log is None
            &&& first.len() != expect && stand_in.len() == expect ==> result.bgra == Some(
                swizzled(stand_in),
            )
            &&& first.len() != expect && stand_in.len() != expect ==> result.bgra is None
            &&& first.len() != expect ==> result.log == Some(
                "nixlock: "@ + name + " content returned "@ + dec(first.len()) + " bytes (want "@
                    + dec(expect) + "); lock screen"@,
            )
        }),
{
}

/// Who paints a surface. A kiosk output with a streamed frame of its very size shows that frame, and
/// nobody is asked. Else a kiosk output is painted by the clock and a lock screen by the lock
/// screen's content, on a request with the output's own name, role and size and the attempt's
/// state. The lock screen's content is asked to stand in, as for a lock screen, exactly when the
/// number of bytes is not four for each pixel.
pub proof fn lemma_who_paints_a_surface<K: KioskContent, S: KioskContent>(
    entry: EntryView,
    auth: AuthView,
    latest: Option<FrameView>,
    clock: (K, K),
    lock: (S, S),
    first: Seq<u8>,
    between: S,
    stand_in: Seq<u8>,
)
    requires
        rendered_from(entry, auth, latest, clock, lock, first, between, stand_in),
    ensures
        ({
            let streams = entry.role == OutputRole::Kiosk && latest is Some && latest->0.width
                == entry.width && latest->0.height == entry.height;
            let request = FrameRequest {
                role: entry.role,
                output_name: entry.name,
                width: entry.width,
                height: entry.height,
                auth,
            };
            &&& streams ==> first == latest->0.rgba && clock.1 == clock.0 && between == lock.0
            &&& !streams && entry.role == OutputRole::Kiosk ==> clock.0.paints(
                request,
                first,
                &clock.1,
            ) && between == lock.0
            &&& entry.role == OutputRole::Session ==> lock.0.paints(request, first, &between)
                && clock.1 == clock.0
            &&& first.len() == entry.width * entry.height * 4 ==> lock.1 == between
            &&& first.len() != entry.width * entry.height * 4 ==> between.paints(
                FrameRequest {
                    role: OutputRole::Session,
                    output_name: entry.name,
                    width: entry.width,
                    height: entry.height,
                    auth,
                },
                stand_in,
                &lock.1,
            )
        }),
{
}

/// What is shown of the attempt on an output, apart from any time: on a lock screen one dot for each
/// typed character and no more than forty, and none while an attempt runs or after a failed one;
/// the word on the attempt, and the caps lock. On a kiosk output nothing.
pub proof fn lemma_the_face_shows_the_attempt(typed: usize, state: AuthState, caps_lock: bool)
    ensures
        typed <= 40 ==> field_for(OutputRole::Session, AuthState::Idle(typed)) == Some(typed),
        typed > 40 ==> field_for(OutputRole::Session, AuthState::Idle(typed)) == Some(40usize),
        !(state is Idle) ==> field_for(OutputRole::Session, state) == Some(0usize),
        field_for(OutputRole::Kiosk, state) is None,
        state is Idle ==> status_for(OutputRole::Session, state) is None,
        state is Verifying ==> status_for(OutputRole::Session, state) == Some(
            ("checking…"@, (0x8au8, 0x8au8, 0x9cu8)),
        ),
        state is Failed ==> status_for(OutputRole::Session, state) == Some(
            ("incorrect — try again"@, (0xf4u8, 0x53u8, 0x53u8)),
        ),
        status_for(OutputRole::Kiosk, state) is None,
        caps_lock_for(OutputRole::Session, true) == Some(
            ("caps lock on"@, (0xf5u8, 0x9eu8, 0x0bu8)),
        ),
        caps_lock_for(OutputRole::Session, false) is None,
        caps_lock_for(OutputRole::Kiosk, caps_lock) is None,
{
}

/// The two lines of the clock by themselves: there is a time of day and a date exactly where they exist,
/// with the digits and names that the screen shows, and the clock needs both.
pub proof fn lemma_the_clock_has_two_lines(
    now: LocalTime,
    clock: Option<Seq<char>>,
    date: Option<Seq<char>>,
)
    ensures
        clock_text(now.hour, now.minute, now.second, now.nanosecond) is Some <==> time_exists(now),
        clock_text(now.hour, now.minute, now.second, now.nanosecond) matches Some(text) ==> {
            let second = if now.nanosecond >= 1_000_000_000 {
                60
            } else {
                now.second as int
            };
            &&& text.len() == 8
            &&& are_digits_of(text[0], text[1], now.hour as int)
            &&& text[2] == ':'
            &&& are_digits_of(text[3], text[4], now.minute as int)
            &&& text[5] == ':'
            &&& are_digits_of(text[6], text[7], second)
        },
        date_text(now.year as int, now.month as int, now.day as int) is Some <==> day_exists(
            now.year as int,
            now.month as int,
            now.day as int,
        ),
        clock is Some && date is Some ==> both_lines(clock, date) == Some((clock->0, date->0)),
        clock is None || date is None ==> both_lines(clock, date) is None,
{
    if clock_text(now.hour, now.minute, now.second, now.nanosecond) is Some {
        reveal_strlit(":");
        lemma_two_digits(now.hour as nat);
        lemma_two_digits(now.minute as nat);
        lemma_two_digits((now.second + now.nanosecond / 1_000_000_000) as nat);
    }
    lemma_which_days_exist(now.year as int, now.month as int, now.day as int);
}

/// A date by itself is the weekday, the day, the month and the year.
pub proof fn lemma_a_date_is_written_out(year: int, month: int, day: int)
    requires
        day_exists(year, month, day),
    ensures
        date_text(year, month, day) is Some,
        ({
            let text = date_text(year, month, day)->0;
            &&& text.len() > 11
            &&& text.take(3) == weekday_text(year, month, day)
            &&& text[3] == ' '
            &&& are_digits_of(text[4], text[5], day)
            &&& text[6] == ' '
            &&& text.subrange(7, 10) == month_text(month)
            &&& text[10] == ' '
            &&& text.skip(11) == year_text(year)
        }),
{
    reveal_strlit(" ");
    lemma_which_days_exist(year, month, day);
    lemma_two_digits(day as nat);
    lemma_months_have_names(month);
    lemma_weekdays_have_names(year, month, day);
    lemma_years_are_written_out(year);
    let text = date_text(year, month, day)->0;
    assert(text.take(3) == weekday_text(year, month, day));
    assert(text.subrange(7, 10) == month_text(month));
    assert(text.skip(11) == year_text(year));
}

/// What the contracts say of a screen, of a request and of a rendered surface is all of it.
pub proof fn lemma_screens_are_seen_whole(screen: Screen, frame: Frame, rendered: Rendered)
    ensures
        screen@.clock == screen.clock.clock@,
        screen@.date == screen.clock.date@,
        screen@.field == screen.face.field,
        screen@.status is Some <==> screen.face.status is Some,
        screen.face.status matches Some(label) ==> screen@.status->0 == (label.text@, label.colour),
        screen@.caps_lock is Some <==> screen.face.caps_lock is Some,
        screen.face.caps_lock matches Some(label) ==> screen@.caps_lock->0 == (
            label.text@,
            label.colour,
        ),
        screen@.footer == (screen.face.footer.text@, screen.face.footer.colour),
        screen_view(Some(screen)) == Some(screen@),
        screen_view(None) is None,
        frame@.role == frame.role,
        frame@.output_name == frame.output_name@,
        frame@.width == frame.width,
        frame@.height == frame.height,
        frame@.auth == frame.auth,
        rendered@.bgra is Some <==> rendered.bgra is Some,
        rendered.bgra matches Some(pixels) ==> rendered@.bgra->0 == pixels@,
        rendered@.log is Some <==> rendered.log is Some,
        rendered.log matches Some(line) ==> rendered@.log->0 == line@,
{
}

} // verus!
