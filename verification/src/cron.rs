//! Schedules: when a cron runs, and how schedules are written.

use vstd::prelude::*;

use crate::duration::Duration;
use crate::text;
use crate::text::Text;

verus! {

/// Named schedules.
#[derive(Debug, Clone, Copy, PartialEq, Eq, Structural)]
pub enum CronPreset {
    Daily,
    Hourly,
    Weekly,
    Monthly,
}

/// The state of a cron.
#[derive(Debug, Clone, Copy, PartialEq, Eq, Structural)]
pub enum CronStatus {
    Scheduled,
    Paused,
    Completed,
    Expired,
    Failed,
}

/// Days of the week on which a schedule applies.
#[derive(Debug, Clone, Copy, PartialEq, Eq, Structural)]
pub struct DayFilter {
    pub mon: bool,
    pub tue: bool,
    pub wed: bool,
    pub thu: bool,
    pub fri: bool,
    pub sat: bool,
    pub sun: bool,
}

/// A checked five-field crontab expression.
#[derive(Debug, PartialEq, Eq)]
pub struct CrontabSchedule {
    expr: String,
}

/// When a cron runs.
#[derive(Debug, PartialEq, Eq)]
pub enum CronSchedule {
    /// Again and again after this span.
    Interval(Duration),
    /// At this second of the day.
    TimeOfDay { time_secs: u32, days: Option<DayFilter> },
    /// Once, after this span.
    Delay(Duration),
    Crontab(CrontabSchedule),
    Preset(CronPreset),
}

/// When a cron runs, over character sequences.
pub enum CronModel {
    Interval(Duration),
    TimeOfDay(u32, Option<DayFilter>),
    Delay(Duration),
    Crontab(Text),
    Preset(CronPreset),
}

impl View for CronSchedule {
    type V = CronModel;

    closed spec fn view(&self) -> CronModel {
        match *self {
            CronSchedule::Interval(d) => CronModel::Interval(d),
            CronSchedule::TimeOfDay { time_secs, days } => CronModel::TimeOfDay(time_secs, days),
            CronSchedule::Delay(d) => CronModel::Delay(d),
            CronSchedule::Crontab(c) => CronModel::Crontab(c@),
            CronSchedule::Preset(p) => CronModel::Preset(p),
        }
    }
}

impl View for CrontabSchedule {
    type V = Text;

    closed spec fn view(&self) -> Text {
        self.expr@
    }
}

/// What a schedule is, by its variant.
pub broadcast proof fn lemma_schedule_view(s: CronSchedule)
    ensures
        #[trigger] s@ == match s {
            CronSchedule::Interval(d) => CronModel::Interval(d),
            CronSchedule::TimeOfDay { time_secs, days } => CronModel::TimeOfDay(time_secs, days),
            CronSchedule::Delay(d) => CronModel::Delay(d),
            CronSchedule::Crontab(c) => CronModel::Crontab(c@),
            CronSchedule::Preset(p) => CronModel::Preset(p),
        },
{
}

// ── Time of day ──

/// `s` as hours or minutes: one or two digits, or exactly two.
pub open spec fn two_digits(s: Text, exactly: bool) -> Option<nat> {
    if s.len() <= 2 && (exactly ==> s.len() == 2) {
        text::parse_unsigned(s, 99)
    } else {
        None
    }
}

/// Hours and minutes of `h`, `h:mm`; without minutes only if `bare` allows it.
pub open spec fn clock(s: Text, bare: bool) -> Option<(nat, nat)> {
    let i = text::find_from(s, 0, ':');
    if i >= s.len() {
        match two_digits(s, false) {
            Some(h) if bare => Some((h, 0)),
            _ => None,
        }
    } else {
        match (two_digits(s.take(i), false), two_digits(s.skip(i + 1), true)) {
            (Some(h), Some(m)) => Some((h, m)),
            _ => None,
        }
    }
}

/// Seconds since midnight for a time on a 12-hour clock.
pub open spec fn half_day(s: Text, pm: bool) -> Option<nat> {
    match clock(s, true) {
        Some((h, m)) if 1 <= h <= 12 && m < 60 => Some(
            (h % 12) * 3600 + m * 60 + if pm {
                43_200nat
            } else {
                0nat
            },
        ),
        _ => None,
    }
}

/// Seconds since midnight for `midnight`, `noon`, `9am`, `9:30pm` or `14:30`.
pub open spec fn time_of(s: Text) -> Option<nat> {
    if s == "midnight"@ {
        Some(0)
    } else if s == "noon"@ {
        Some(43_200)
    } else if text::ends_with(s, "am"@) {
        half_day(s.take(s.len() - 2), false)
    } else if text::ends_with(s, "pm"@) {
        half_day(s.take(s.len() - 2), true)
    } else {
        match clock(s, false) {
            Some((h, m)) if h < 24 && m < 60 => Some((h * 3600 + m * 60) as nat),
            _ => None,
        }
    }
}

fn read_two_digits(v: &Vec<char>, exactly: bool) -> (r: Option<u32>)
    ensures
        match r {
            Some(n) => two_digits(v@, exactly) == Some(n as nat) && n <= 99,
            None => two_digits(v@, exactly) is None,
        },
{
    if v.len() > 2 || (exactly && v.len() != 2) {
        return None;
    }
    match text::parse_digits(v, 99) {
        Some(n) => Some(n as u32),
        None => None,
    }
}

fn read_clock(v: &Vec<char>, bare: bool) -> (r: Option<(u32, u32)>)
    ensures
        match r {
            Some((h, m)) => clock(v@, bare) == Some((h as nat, m as nat)) && h <= 99 && m <= 99,
            None => clock(v@, bare) is None,
        },
{
    let i = text::find_char(v, 0, ':');
    if i >= v.len() {
        match read_two_digits(v, false) {
            Some(h) => if bare {
                Some((h, 0))
            } else {
                None
            },
            None => None,
        }
    } else {
        let head = text::sub_chars(v, 0, i);
        let tail = text::sub_chars(v, i + 1, v.len());
        assert(head@ =~= v@.take(i as int));
        assert(tail@ =~= v@.skip(i + 1));
        match (read_two_digits(&head, false), read_two_digits(&tail, true)) {
            (Some(h), Some(m)) => Some((h, m)),
            _ => None,
        }
    }
}

fn read_half_day(v: &Vec<char>, pm: bool) -> (r: Option<u32>)
    ensures
        match r {
            Some(n) => half_day(v@, pm) == Some(n as nat),
            None => half_day(v@, pm) is None,
        },
{
    match read_clock(v, true) {
        Some((h, m)) => if 1 <= h && h <= 12 && m < 60 {
            let base: u32 = if pm {
                12
            } else {
                0
            };
            Some((h % 12 + base) * 3600 + m * 60)
        } else {
            None
        },
        None => None,
    }
}

/// Seconds since midnight for `midnight`, `noon`, `9am`, `9:30pm` or `14:30`.
pub fn parse_time_of_day(s: &str) -> (r: Option<u32>)
    ensures
        match r {
            Some(n) => time_of(s@) == Some(n as nat),
            None => time_of(s@) is None,
        },
{
    proof {
        reveal_strlit("am");
        reveal_strlit("pm");
    }
    if text::str_eq(s, "midnight") {
        return Some(0);
    }
    if text::str_eq(s, "noon") {
        return Some(43_200);
    }
    let v = text::chars_of(s);
    if text::chars_end_with(&v, "am") {
        let head = text::sub_chars(&v, 0, v.len() - 2);
        assert(head@ =~= v@.take(v@.len() - 2));
        return read_half_day(&head, false);
    }
    if text::chars_end_with(&v, "pm") {
        let head = text::sub_chars(&v, 0, v.len() - 2);
        assert(head@ =~= v@.take(v@.len() - 2));
        return read_half_day(&head, true);
    }
    match read_clock(&v, false) {
        Some((h, m)) => if h < 24 && m < 60 {
            Some(h * 3600 + m * 60)
        } else {
            None
        },
        None => None,
    }
}

// ── Day filters ──

pub open spec fn no_days() -> DayFilter {
    DayFilter {
        mon: false,
        tue: false,
        wed: false,
        thu: false,
        fri: false,
        sat: false,
        sun: false,
    }
}

/// `d` with the days that one name stands for.
pub open spec fn with_day(d: DayFilter, name: Text) -> Option<DayFilter> {
    if name == "weekdays"@ {
        Some(DayFilter { mon: true, tue: true, wed: true, thu: true, fri: true, ..d })
    } else if name == "weekends"@ {
        Some(DayFilter { sat: true, sun: true, ..d })
    } else if name == "mon"@ || name == "monday"@ {
        Some(DayFilter { mon: true, ..d })
    } else if name == "tue"@ || name == "tuesday"@ {
        Some(DayFilter { tue: true, ..d })
    } else if name == "wed"@ || name == "wednesday"@ {
        Some(DayFilter { wed: true, ..d })
    } else if name == "thu"@ || name == "thursday"@ {
        Some(DayFilter { thu: true, ..d })
    } else if name == "fri"@ || name == "friday"@ {
        Some(DayFilter { fri: true, ..d })
    } else if name == "sat"@ || name == "saturday"@ {
        Some(DayFilter { sat: true, ..d })
    } else if name == "sun"@ || name == "sunday"@ {
        Some(DayFilter { sun: true, ..d })
    } else {
        None
    }
}

/// The days that the names stand for, if all of them do.
pub open spec fn days_of(names: Seq<Text>) -> Option<DayFilter>
    decreases names.len(),
{
    if names.len() == 0 {
        Some(no_days())
    } else {
        match days_of(names.drop_last()) {
            Some(d) => with_day(d, names.last()),
            None => None,
        }
    }
}

/// The days of a comma-separated list of day names.
pub open spec fn day_filter_of(s: Text) -> Option<DayFilter> {
    days_of(text::split(s, ','))
}

fn add_day(d: DayFilter, name: &str) -> (r: Option<DayFilter>)
    ensures
        r == with_day(d, name@),
{
    if text::str_eq(name, "weekdays") {
        Some(DayFilter { mon: true, tue: true, wed: true, thu: true, fri: true, ..d })
    } else if text::str_eq(name, "weekends") {
        Some(DayFilter { sat: true, sun: true, ..d })
    } else if text::str_eq(name, "mon") || text::str_eq(name, "monday") {
        Some(DayFilter { mon: true, ..d })
    } else if text::str_eq(name, "tue") || text::str_eq(name, "tuesday") {
        Some(DayFilter { tue: true, ..d })
    } else if text::str_eq(name, "wed") || text::str_eq(name, "wednesday") {
        Some(DayFilter { wed: true, ..d })
    } else if text::str_eq(name, "thu") || text::str_eq(name, "thursday") {
        Some(DayFilter { thu: true, ..d })
    } else if text::str_eq(name, "fri") || text::str_eq(name, "friday") {
        Some(DayFilter { fri: true, ..d })
    } else if text::str_eq(name, "sat") || text::str_eq(name, "saturday") {
        Some(DayFilter { sat: true, ..d })
    } else if text::str_eq(name, "sun") || text::str_eq(name, "sunday") {
        Some(DayFilter { sun: true, ..d })
    } else {
        None
    }
}

proof fn lemma_days_none(names: Seq<Text>, n: int)
    requires
        0 <= n <= names.len(),
        days_of(names.take(n)) is None,
    ensures
        days_of(names) is None,
    decreases names.len() - n,
{
    if n == names.len() {
        assert(names.take(n) =~= names);
    } else {
        assert(names.take(n + 1).drop_last() =~= names.take(n));
        lemma_days_none(names, n + 1);
    }
}

/// The days of a comma-separated list of day names.
pub fn parse_day_filter(s: &str) -> (r: Option<DayFilter>)
    ensures
        r == day_filter_of(s@),
{
    let parts = text::chars_split(&text::chars_of(s), ',');
    let ghost names = text::texts(parts@);
    let mut d = DayFilter {
        mon: false,
        tue: false,
        wed: false,
        thu: false,
        fri: false,
        sat: false,
        sun: false,
    };
    let mut i: usize = 0;
    assert(names.take(0) =~= Seq::<Text>::empty());
    while i < parts.len()
        invariant
            i <= parts@.len(),
            names == text::texts(parts@),
            names == text::split(s@, ','),
            days_of(names.take(i as int)) == Some(d),
        decreases parts@.len() - i,
    {
        proof {
            assert(names.take(i + 1).drop_last() =~= names.take(i as int));
            assert(names.take(i + 1).last() == parts@[i as int]@);
        }
        match add_day(d, parts[i].as_str()) {
            Some(next) => {
                d = next;
            },
            None => {
                proof {
                    lemma_days_none(names, i + 1);
                }
                return None;
            },
        }
        i = i + 1;
    }
    assert(names.take(i as int) =~= names);
    Some(d)
}

// ── Crontab expressions ──

/// A number within the bounds of a field.
pub open spec fn in_field(s: Text, lo: nat, hi: nat) -> bool {
    text::parse_unsigned(s, hi) matches Some(n) && lo <= n
}

/// `*`, a number, or a range `a-b` with `a <= b`.
pub open spec fn range_ok(s: Text, lo: nat, hi: nat) -> bool {
    let i = text::find_from(s, 0, '-');
    if s == "*"@ {
        true
    } else if i < s.len() {
        in_field(s.take(i), lo, hi) && in_field(s.skip(i + 1), lo, hi) && text::digits_value(s.take(i))
            <= text::digits_value(s.skip(i + 1))
    } else {
        in_field(s, lo, hi)
    }
}

/// A range, with an optional step `/n` of at least one.
pub open spec fn step_ok(s: Text, lo: nat, hi: nat) -> bool {
    let i = text::find_from(s, 0, '/');
    if i < s.len() {
        range_ok(s.take(i), lo, hi) && (text::parse_unsigned(s.skip(i + 1), u64::MAX as nat) matches Some(
            n,
        ) && n >= 1)
    } else {
        range_ok(s, lo, hi)
    }
}

/// A comma-separated list of stepped ranges.
pub open spec fn field_ok(s: Text, lo: nat, hi: nat) -> bool {
    forall|i: int| 0 <= i < text::split(s, ',').len() ==> step_ok(#[trigger] text::split(s, ',')[i], lo, hi)
}

/// Minute, hour, day of month, month and day of week.
pub open spec fn crontab_ok(fields: Seq<Text>) -> bool {
    &&& fields.len() == 5
    &&& field_ok(fields[0], 0, 59)
    &&& field_ok(fields[1], 0, 23)
    &&& field_ok(fields[2], 1, 31)
    &&& field_ok(fields[3], 1, 12)
    &&& field_ok(fields[4], 0, 7)
}

fn number_in(v: &Vec<char>, lo: u64, hi: u64) -> (r: Option<u64>)
    ensures
        match r {
            Some(n) => in_field(v@, lo as nat, hi as nat) && n == text::digits_value(v@),
            None => !in_field(v@, lo as nat, hi as nat),
        },
{
    match text::parse_digits(v, hi) {
        Some(n) => if lo <= n {
            Some(n)
        } else {
            None
        },
        None => None,
    }
}

fn check_range(v: &Vec<char>, lo: u64, hi: u64) -> (r: bool)
    ensures
        r == range_ok(v@, lo as nat, hi as nat),
{
    if text::str_eq(text::all_string(v).as_str(), "*") {
        return true;
    }
    let i = text::find_char(v, 0, '-');
    if i < v.len() {
        let head = text::sub_chars(v, 0, i);
        let tail = text::sub_chars(v, i + 1, v.len());
        assert(head@ =~= v@.take(i as int));
        assert(tail@ =~= v@.skip(i + 1));
        match (number_in(&head, lo, hi), number_in(&tail, lo, hi)) {
            (Some(a), Some(b)) => a <= b,
            _ => false,
        }
    } else {
        number_in(v, lo, hi).is_some()
    }
}

fn check_step(v: &Vec<char>, lo: u64, hi: u64) -> (r: bool)
    ensures
        r == step_ok(v@, lo as nat, hi as nat),
{
    let i = text::find_char(v, 0, '/');
    if i < v.len() {
        let head = text::sub_chars(v, 0, i);
        let tail = text::sub_chars(v, i + 1, v.len());
        assert(head@ =~= v@.take(i as int));
        assert(tail@ =~= v@.skip(i + 1));
        let step = match text::parse_digits(&tail, u64::MAX) {
            Some(n) => n >= 1,
            None => false,
        };
        step && check_range(&head, lo, hi)
    } else {
        check_range(v, lo, hi)
    }
}

fn check_field(s: &str, lo: u64, hi: u64) -> (r: bool)
    ensures
        r == field_ok(s@, lo as nat, hi as nat),
{
    let parts = text::chars_split(&text::chars_of(s), ',');
    let mut i: usize = 0;
    while i < parts.len()
        invariant
            i <= parts@.len(),
            text::texts(parts@) == text::split(s@, ','),
            forall|j: int|
                0 <= j < i ==> step_ok(#[trigger] text::split(s@, ',')[j], lo as nat, hi as nat),
        decreases parts@.len() - i,
    {
        assert(text::texts(parts@)[i as int] == parts@[i as int]@);
        if !check_step(&text::chars_of(parts[i].as_str()), lo, hi) {
            return false;
        }
        i = i + 1;
    }
    assert(text::texts(parts@).len() == parts@.len());
    true
}

impl CrontabSchedule {
    /// The expression, if it has five fields within their bounds.
    pub fn parse(expr: &str) -> (r: Option<CrontabSchedule>)
        ensures
            match r {
                Some(c) => crontab_ok(text::words(expr@)) && c@ == expr@,
                None => !crontab_ok(text::words(expr@)),
            },
    {
        let f = text::chars_words(&text::chars_of(expr));
        assert(text::texts(f@).len() == f@.len());
        if f.len() != 5 {
            return None;
        }
        assert(text::texts(f@)[0] == f@[0]@ && text::texts(f@)[1] == f@[1]@ && text::texts(f@)[2] == f@[2]@ && text::texts(
            f@,
        )[3] == f@[3]@ && text::texts(f@)[4] == f@[4]@);
        let ok = check_field(f[0].as_str(), 0, 59) && check_field(f[1].as_str(), 0, 23)
            && check_field(f[2].as_str(), 1, 31) && check_field(f[3].as_str(), 1, 12)
            && check_field(f[4].as_str(), 0, 7);
        if ok {
            Some(CrontabSchedule { expr: expr.to_owned() })
        } else {
            None
        }
    }

    /// The expression as it was written.
    pub fn as_str(&self) -> (r: &str)
        ensures
            r@ == self@,
    {
        self.expr.as_str()
    }
}

} // verus!
