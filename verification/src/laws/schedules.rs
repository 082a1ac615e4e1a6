//! Schedules: when a cron runs that is written like this.

use vstd::prelude::*;

use crate::text;
use crate::cron::{
    clock, crontab_ok, day_filter_of, days_of, field_ok, half_day, in_field, no_days, step_ok,
    time_of, two_digits, with_day, CronModel, CronPreset, DayFilter,
};
use crate::duration::{duration_of, duration_text, Duration};
use crate::laws::texts::{
    lemma_find_none, lemma_one_part, lemma_split_at_a_mark, lemma_words_read_back, solid,
};
use crate::parser::ast::ScheduleModel;
use crate::parser::error::ErrModel;
use crate::parser::resolved::{
    chain_without, first_words, job_without, schedule_meant, schedule_of, schedule_start,
};
use crate::parser::token::Span;
use crate::pipeline::{ChainModel, JobModel, SegModel};
use crate::text::Text;

verus! {

/// A mark by which the words of schedules are told apart.
pub open spec fn mark(w: Text) -> int {
    if w.len() == 0 {
        0
    } else {
        w.len() * 0x200000 + w[0] as int
    }
}

proof fn lemma_marks()
    ensures
        mark("every"@) == 5 * 0x200000 + 'e' as int,
        mark("at"@) == 2 * 0x200000 + 'a' as int,
        mark("on"@) == 2 * 0x200000 + 'o' as int,
        mark("in"@) == 2 * 0x200000 + 'i' as int,
        mark("do"@) == 2 * 0x200000 + 'd' as int,
        mark("cron"@) == 4 * 0x200000 + 'c' as int,
        mark("daily"@) == 5 * 0x200000 + 'd' as int,
        mark("hourly"@) == 6 * 0x200000 + 'h' as int,
        mark("weekly"@) == 6 * 0x200000 + 'w' as int,
        mark("monthly"@) == 7 * 0x200000 + 'm' as int,
{
    reveal_strlit("every");
    reveal_strlit("at");
    reveal_strlit("on");
    reveal_strlit("in");
    reveal_strlit("do");
    reveal_strlit("cron");
    reveal_strlit("daily");
    reveal_strlit("hourly");
    reveal_strlit("weekly");
    reveal_strlit("monthly");
}

/// The words begin with a schedule of `n` words that means `m`; a `do` behind it is taken
/// with it.
pub open spec fn means(ws: Seq<Text>, span: Span, m: Option<CronModel>, n: int) -> bool {
    schedule_of(ws, span) matches Ok((s, k)) && schedule_meant(s) == m && k == if n < ws.len()
        && ws[n] == "do"@ {
        n + 1
    } else {
        n
    }
}

/// Each of the four words means the schedule of its own name.
pub proof fn lemma_named_schedules(rest: Seq<Text>, span: Span)
    ensures
        means(seq!["daily"@] + rest, span, Some(CronModel::Preset(CronPreset::Daily)), 1),
        means(seq!["hourly"@] + rest, span, Some(CronModel::Preset(CronPreset::Hourly)), 1),
        means(seq!["weekly"@] + rest, span, Some(CronModel::Preset(CronPreset::Weekly)), 1),
        means(seq!["monthly"@] + rest, span, Some(CronModel::Preset(CronPreset::Monthly)), 1),
{
    lemma_marks();
    let d = seq!["daily"@] + rest;
    let h = seq!["hourly"@] + rest;
    let w = seq!["weekly"@] + rest;
    let m = seq!["monthly"@] + rest;
    assert(d[0] == "daily"@ && h[0] == "hourly"@ && w[0] == "weekly"@ && m[0] == "monthly"@);
    assert(schedule_start(d, span) == Ok::<(ScheduleModel, int), ErrModel>(
        (ScheduleModel::Preset("daily"@), 1),
    ));
    assert(schedule_start(h, span) == Ok::<(ScheduleModel, int), ErrModel>(
        (ScheduleModel::Preset("hourly"@), 1),
    ));
    assert(schedule_start(w, span) == Ok::<(ScheduleModel, int), ErrModel>(
        (ScheduleModel::Preset("weekly"@), 1),
    ));
    assert(schedule_start(m, span) == Ok::<(ScheduleModel, int), ErrModel>(
        (ScheduleModel::Preset("monthly"@), 1),
    ));
}

/// `every` and a span of time means again and again after it, and `in` and a span of time
/// means once after it; a span of no length means nothing.
pub proof fn lemma_spans_of_time(d: Text, rest: Seq<Text>, span: Span)
    ensures
        duration_of(d) matches Some(t) ==> {
            &&& t.total_millis() > 0 ==> means(
                seq!["every"@, d] + rest,
                span,
                Some(CronModel::Interval(t)),
                2,
            ) && means(seq!["in"@, d] + rest, span, Some(CronModel::Delay(t)), 2)
            &&& t.total_millis() == 0 ==> means(seq!["every"@, d] + rest, span, None, 2) && means(
                seq!["in"@, d] + rest,
                span,
                None,
                2,
            )
        },
        duration_of(d) is None ==> schedule_of(seq!["every"@, d] + rest, span) is Err
            && schedule_of(seq!["in"@, d] + rest, span) is Err,
{
    lemma_marks();
    let e = seq!["every"@, d] + rest;
    let i = seq!["in"@, d] + rest;
    assert(e[0] == "every"@ && e[1] == d && i[0] == "in"@ && i[1] == d);
}

/// A time alone means every day at that time; with days, on those days.
pub proof fn lemma_times_and_days(time: Text, days: Text, rest: Seq<Text>, span: Span)
    ensures
        time_of(time) matches Some(t) ==> {
            &&& rest.len() == 0 || rest[0] != "on"@ ==> means(
                seq!["at"@, time] + rest,
                span,
                Some(CronModel::TimeOfDay(t as u32, None)),
                2,
            )
            &&& day_filter_of(days) matches Some(f) ==> means(
                seq!["at"@, time, "on"@, days] + rest,
                span,
                Some(CronModel::TimeOfDay(t as u32, Some(f))),
                4,
            ) && means(
                seq!["on"@, days, "at"@, time] + rest,
                span,
                Some(CronModel::TimeOfDay(t as u32, Some(f))),
                4,
            )
        },
        time_of(time) is None || day_filter_of(days) is None ==> means(
            seq!["at"@, time, "on"@, days] + rest,
            span,
            None,
            4,
        ),
{
    lemma_marks();
    let a = seq!["at"@, time] + rest;
    let b = seq!["at"@, time, "on"@, days] + rest;
    let c = seq!["on"@, days, "at"@, time] + rest;
    assert(a[0] == "at"@ && a[1] == time);
    if rest.len() > 0 {
        assert(a[2] == rest[0]);
    }
    assert(b[0] == "at"@ && b[1] == time && b[2] == "on"@ && b[3] == days);
    assert(c[0] == "on"@ && c[1] == days && c[2] == "at"@ && c[3] == time);
}

/// Five fields behind `cron`, or in front of `do`, mean the crontab of these fields, with a
/// space between them, where each is one that its place takes.
pub proof fn lemma_five_fields(fields: Seq<Text>, rest: Seq<Text>, span: Span)
    requires
        fields.len() == 5,
        forall|i: int| 0 <= i < 5 ==> solid(#[trigger] fields[i]),
    ensures
        ({
            let m = if crontab_ok(fields) {
                Some(CronModel::Crontab(text::join(fields, " "@)))
            } else {
                None
            };
            &&& means(seq!["cron"@] + fields + rest, span, m, 6)
            &&& (forall|i: int| 0 <= i < 5 ==> #[trigger] fields[i] != "do"@)
                && !crate::parser::resolved::schedule_keyword(fields[0]) ==> (schedule_of(
                fields + seq!["do"@] + rest,
                span,
            ) matches Ok((s, k)) && schedule_meant(s) == m)
        }),
{
    lemma_marks();
    lemma_words_read_back(fields);
    let a = seq!["cron"@] + fields + rest;
    assert(a[0] == "cron"@);
    assert(a.subrange(1, 6) =~= fields);
    let b = fields + seq!["do"@] + rest;
    assert(b[0] == fields[0]);
    assert(b.take(5) =~= fields);
    if (forall|i: int| 0 <= i < 5 ==> #[trigger] fields[i] != "do"@)
        && !crate::parser::resolved::schedule_keyword(fields[0]) {
        assert(b[0] == fields[0] && b[1] == fields[1] && b[2] == fields[2] && b[3] == fields[3]
            && b[4] == fields[4] && b[5] == "do"@);
        reveal_with_fuel(crate::parser::resolved::do_index, 7);
        assert(crate::parser::resolved::do_index(b, 0) == 5);
    }
}

// ── The command behind the schedule ──

/// The words of the command are those that stand behind the schedule, and all the rest of
/// the chain stays.
pub proof fn lemma_command_behind_schedule(c: ChainModel, n: int)
    requires
        first_words(c) matches Some(ws) && 0 <= n <= ws.len(),
    ensures
        first_words(chain_without(c, n)) == Some((first_words(c)->0).skip(n)),
        chain_without(c, 0) == c,
    decreases c,
{
    match c {
        ChainModel::Leaf(j) => {
            lemma_job_behind_schedule(j, n);
        },
        ChainModel::Serial(op, l, r) => {
            lemma_command_behind_schedule(*l, n);
        },
        ChainModel::Parallel(op, l, r) => {
            lemma_command_behind_schedule(*l, n);
        },
    }
}

proof fn lemma_job_behind_schedule(j: JobModel, n: int)
    requires
        crate::parser::resolved::first_job_words(j) matches Some(ws) && 0 <= n <= ws.len(),
    ensures
        crate::parser::resolved::first_job_words(job_without(j, n)) == Some(
            (crate::parser::resolved::first_job_words(j)->0).skip(n),
        ),
        job_without(j, 0) == j,
    decreases j,
{
    match j {
        JobModel::Pipeline(segs) => {
            let s = segs[0];
            assert(s.command.skip(0) =~= s.command);
            assert(segs.update(0, SegModel { command: s.command.skip(0), ..s }) =~= segs);
        },
        JobModel::And(l, r) => {
            lemma_job_behind_schedule(*l, n);
        },
        JobModel::Or(l, r) => {
            lemma_job_behind_schedule(*l, n);
        },
    }
}

// ── Spans of time ──

proof fn lemma_unit(n: nat, unit: Text)
    requires
        unit.len() > 0,
        n <= u64::MAX,
    ensures
        ({
            let s = text::decimal(n) + unit;
            let k = s.len() - unit.len();
            &&& s.take(k) == text::decimal(n)
            &&& text::ends_with(s, unit)
            &&& text::parse_unsigned(s.take(k), u64::MAX as nat) == Some(n)
            &&& text::is_digit(s[k - 1]) && k >= 1
            &&& forall|i: int| 0 <= i < unit.len() ==> s[k + i] == unit[i]
        }),
{
    let s = text::decimal(n) + unit;
    let k = s.len() - unit.len();
    text::lemma_decimal_read_back(n, u64::MAX as nat);
    assert(s.take(k) =~= text::decimal(n));
    assert(s.subrange(k, s.len() as int) =~= unit);
    assert(text::is_digit(text::decimal(n)[k - 1]));
}

/// A number with `ms`, `s`, `m` or `h` behind it is so many milliseconds, seconds, minutes
/// or hours.
pub proof fn lemma_units_of_time(n: nat)
    ensures
        n <= u64::MAX ==> (duration_of(text::decimal(n) + "ms"@) matches Some(d) && d.wf()
            && d.total_millis() == n),
        n <= u64::MAX ==> (duration_of(text::decimal(n) + "s"@) matches Some(d) && d.wf()
            && d.total_millis() == n * 1000),
        n * 60 <= u64::MAX ==> (duration_of(text::decimal(n) + "m"@) matches Some(d) && d.wf()
            && d.total_millis() == n * 60_000),
        n * 3600 <= u64::MAX ==> (duration_of(text::decimal(n) + "h"@) matches Some(d) && d.wf()
            && d.total_millis() == n * 3_600_000),
{
    reveal_strlit("ms");
    reveal_strlit("s");
    reveal_strlit("m");
    reveal_strlit("h");
    assert("ms"@ =~= seq!['m', 's'] && "s"@ =~= seq!['s'] && "m"@ =~= seq!['m'] && "h"@
        =~= seq!['h']);
    if n <= u64::MAX {
        lemma_unit(n, "ms"@);
        lemma_unit(n, "s"@);
        lemma_unit(n, "m"@);
        lemma_unit(n, "h"@);
        let a = text::decimal(n) + "s"@;
        let b = text::decimal(n) + "m"@;
        let c = text::decimal(n) + "h"@;
        assert(a.drop_last() =~= a.take(a.len() - 1));
        assert(b.drop_last() =~= b.take(b.len() - 1));
        assert(c.drop_last() =~= c.take(c.len() - 1));
        lemma_no_milli(a);
        lemma_no_milli(b);
        lemma_no_milli(c);
        lemma_last(b, 's');
        lemma_last(c, 's');
        lemma_last(c, 'm');
    }
}

proof fn lemma_no_milli(s: Text)
    requires
        s.len() >= 2,
        text::is_digit(s[s.len() - 2]),
    ensures
        !text::ends_with(s, "ms"@),
{
    reveal_strlit("ms");
    let n = s.len() as int;
    if text::ends_with(s, "ms"@) {
        assert(s.subrange(n - 2, n)[0] == "ms"@[0]);
        assert("ms"@[0] == 'm');
    }
}

proof fn lemma_last(s: Text, c: char)
    requires
        s.len() > 0,
    ensures
        c == 's' ==> text::ends_with(s, "s"@) == (s[s.len() - 1] == 's'),
        c == 'm' ==> text::ends_with(s, "m"@) == (s[s.len() - 1] == 'm'),
        c == 'h' ==> text::ends_with(s, "h"@) == (s[s.len() - 1] == 'h'),
{
    reveal_strlit("s");
    reveal_strlit("m");
    reveal_strlit("h");
    let n = s.len() as int;
    assert(s.subrange(n - 1, n) =~= seq![s[n - 1]]);
    assert("s"@ =~= seq!['s'] && "m"@ =~= seq!['m'] && "h"@ =~= seq!['h']);
    if s[n - 1] != c {
        assert(seq![s[n - 1]][0] != seq![c][0]);
    }
}

/// Only digits and one of these units make a span of time.
pub proof fn lemma_only_units_of_time(s: Text)
    ensures
        duration_of(s) is Some ==> s.len() >= 2 && ({
            let last = s[s.len() - 1];
            let milli = s[s.len() - 2] == 'm' && last == 's';
            let digits = s.take(
                if milli {
                    s.len() - 2
                } else {
                    s.len() - 1
                },
            );
            &&& last == 's' || last == 'm' || last == 'h'
            &&& text::all_digits(digits)
        }),
{
    reveal_strlit("ms");
    let n = s.len() as int;
    if s.len() > 0 {
        lemma_last(s, 's');
        lemma_last(s, 'm');
        lemma_last(s, 'h');
        assert(s.drop_last() =~= s.take(n - 1));
    } else {
        reveal_strlit("s");
        reveal_strlit("m");
        reveal_strlit("h");
    }
    if s.len() >= 2 {
        assert(s.subrange(n - 2, n) =~= seq![s[n - 2], s[n - 1]]);
        assert("ms"@ =~= seq!['m', 's']);
        if text::ends_with(s, "ms"@) {
            assert(seq![s[n - 2], s[n - 1]][0] == 'm' && seq![s[n - 2], s[n - 1]][1] == 's');
        }
    }
}

/// A span of time is shown in days, hours, minutes or seconds, as the largest of them that
/// divides it.
pub proof fn lemma_shown_spans(n: u64, millis: u16)
    ensures
        duration_text(Duration { secs: 0, millis }) == "0s"@,
        0 < n <= u64::MAX / 86_400 ==> duration_text(Duration { secs: (n * 86_400) as u64, millis })
            == text::decimal(n as nat) + "d"@,
        0 < n <= u64::MAX / 3_600 && n % 24 != 0 ==> duration_text(
            Duration { secs: (n * 3_600) as u64, millis },
        ) == text::decimal(n as nat) + "h"@,
        0 < n <= u64::MAX / 60 && n % 60 != 0 ==> duration_text(
            Duration { secs: (n * 60) as u64, millis },
        ) == text::decimal(n as nat) + "m"@,
        n % 60 != 0 ==> duration_text(Duration { secs: n, millis }) == text::decimal(n as nat)
            + "s"@,
{
    assert((n as int * 86_400) % 86_400 == 0 && (n as int * 86_400) / 86_400 == n);
    assert((n as int * 3_600) % 3_600 == 0 && (n as int * 3_600) / 3_600 == n);
    assert((n as int * 60) % 60 == 0 && (n as int * 60) / 60 == n);
    assert(n % 24 != 0 ==> (n as int * 3_600) % 86_400 != 0);
    assert(n % 60 != 0 ==> (n as int * 60) % 3_600 != 0 && (n as int * 60) % 86_400 != 0);
    assert(n % 60 != 0 ==> n % 3_600 != 0 && n % 86_400 != 0);
}

// ── Times of day ──

/// Minutes as two digits.
pub open spec fn minutes(m: nat) -> Text {
    seq![text::digit_char(m / 10), text::digit_char(m % 10)]
}

proof fn lemma_minutes(m: nat)
    requires
        m < 60,
    ensures
        two_digits(minutes(m), true) == Some(m),
        !minutes(m).contains(':'),
{
    let s = minutes(m);
    reveal_with_fuel(text::digits_value, 3);
    assert(s.drop_last() =~= seq![text::digit_char(m / 10)]);
    assert(s.drop_last().drop_last() =~= Seq::<char>::empty());
    assert(text::digit_char(m / 10) as nat == '0' as nat + m / 10);
    assert(text::digit_char(m % 10) as nat == '0' as nat + m % 10);
    assert(text::digits_value(s) == (m / 10) * 10 + m % 10);
    assert(forall|i: int| 0 <= i < s.len() ==> text::is_digit(#[trigger] s[i]));
    assert(s[0] != ':' && s[1] != ':');
}

proof fn lemma_hours(h: nat)
    requires
        h < 100,
    ensures
        two_digits(text::decimal(h), false) == Some(h),
        !text::decimal(h).contains(':'),
        1 <= text::decimal(h).len() <= 2,
        forall|i: int| 0 <= i < text::decimal(h).len() ==> text::is_digit(
            #[trigger] text::decimal(h)[i],
        ),
{
    text::lemma_decimal_read_back(h, 99);
    reveal_with_fuel(text::decimal, 3);
    assert(text::decimal(h).len() <= 2);
    let s = text::decimal(h);
    if s.contains(':') {
        let k = s.index_of(':');
        assert(text::is_digit(s[k]));
    }
}

proof fn lemma_clock(h: nat, m: nat, bare: bool)
    requires
        h < 100,
        m < 60,
    ensures
        clock(text::decimal(h) + seq![':'] + minutes(m), bare) == Some((h, m)),
        clock(text::decimal(h), true) == Some((h, 0nat)),
        clock(text::decimal(h), false) is None,
{
    lemma_hours(h);
    lemma_minutes(m);
    let a = text::decimal(h);
    let s = a + seq![':'] + minutes(m);
    lemma_find_none(a, 0, ':');
    assert forall|j: int| 0 <= j < a.len() implies s[j] != ':' by {
        assert(s[j] == a[j]);
        assert(a.contains(a[j]));
    }
    assert(s[a.len() as int] == ':');
    lemma_found_at(s, 0, a.len() as int, ':');
    assert(s.take(a.len() as int) =~= a);
    assert(s.skip(a.len() as int + 1) =~= minutes(m));
}

proof fn lemma_found_at(s: Text, i: int, e: int, c: char)
    requires
        0 <= i <= e < s.len(),
        s[e] == c,
        forall|j: int| i <= j < e ==> s[j] != c,
    ensures
        text::find_from(s, i, c) == e,
    decreases e - i,
{
    if i < e {
        lemma_found_at(s, i + 1, e, c);
    }
}

/// Texts that end in a digit are neither of the names of times nor on the 12-hour clock.
proof fn lemma_digit_at_end(s: Text)
    requires
        s.len() > 0,
        text::is_digit(s[s.len() - 1]),
    ensures
        s != "midnight"@,
        s != "noon"@,
        !text::ends_with(s, "am"@),
        !text::ends_with(s, "pm"@),
{
    reveal_strlit("midnight");
    reveal_strlit("noon");
    reveal_strlit("am");
    reveal_strlit("pm");
    let n = s.len() as int;
    assert("midnight"@[7] == 't' && "noon"@[3] == 'n');
    if text::ends_with(s, "am"@) {
        assert(s.subrange(n - 2, n)[1] == "am"@[1]);
    }
    if text::ends_with(s, "pm"@) {
        assert(s.subrange(n - 2, n)[1] == "pm"@[1]);
    }
    assert("am"@[1] == 'm' && "pm"@[1] == 'm');
}

/// On the 24-hour clock, `h:mm` is `h` hours and `mm` minutes after midnight.
pub proof fn lemma_24_hours(h: nat, m: nat)
    requires
        h < 100,
        m < 60,
    ensures
        h < 24 ==> time_of(text::decimal(h) + seq![':'] + minutes(m)) == Some(
            (h * 3600 + m * 60) as nat,
        ),
        h >= 24 ==> time_of(text::decimal(h) + seq![':'] + minutes(m)) is None,
        time_of(text::decimal(h)) is None,
        time_of("noon"@) == Some(43_200nat),
        time_of("midnight"@) == Some(0nat),
{
    lemma_clock(h, m, false);
    lemma_hours(h);
    lemma_minutes(m);
    let s = text::decimal(h) + seq![':'] + minutes(m);
    assert(s[s.len() - 1] == minutes(m)[1]);
    assert(text::is_digit(minutes(m)[1]));
    lemma_digit_at_end(s);
    assert(text::is_digit(text::decimal(h)[text::decimal(h).len() - 1]));
    lemma_digit_at_end(text::decimal(h));
    reveal_strlit("noon");
    reveal_strlit("midnight");
    assert("noon"@.len() != "midnight"@.len());
}

proof fn lemma_half(s: Text, pm: bool)
    requires
        s.len() > 0,
    ensures
        ({
            let whole = s + if pm {
                "pm"@
            } else {
                "am"@
            };
            text::is_digit(s[s.len() - 1]) ==> time_of(whole) == half_day(s, pm)
        }),
{
    reveal_strlit("midnight");
    reveal_strlit("noon");
    reveal_strlit("am");
    reveal_strlit("pm");
    assert("am"@ =~= seq!['a', 'm'] && "pm"@ =~= seq!['p', 'm']);
    let end = if pm {
        "pm"@
    } else {
        "am"@
    };
    let whole = s + end;
    let n = whole.len() as int;
    assert(whole.subrange(n - 2, n) =~= end);
    assert(whole.take(n - 2) =~= s);
    assert(end.len() == 2 && end[1] == 'm');
    assert(whole[n - 1] == end[1]);
    assert("midnight"@[7] == 't' && "noon"@[3] == 'n');
    if pm {
        assert("am"@[0] == 'a' && "pm"@[0] == 'p');
        assert(whole.subrange(n - 2, n)[0] == 'p');
    }
}

/// On the 12-hour clock, twelve comes first: `12am` is midnight, and `pm` is twelve hours
/// later.
pub proof fn lemma_12_hours(h: nat, m: nat)
    requires
        h < 100,
        m < 60,
    ensures
        ({
            let t = if h == 12 {
                m * 60
            } else {
                h * 3600 + m * 60
            };
            let full = text::decimal(h) + seq![':'] + minutes(m);
            &&& 1 <= h <= 12 ==> time_of(full + "am"@) == Some(t as nat) && time_of(full + "pm"@)
                == Some((t + 43_200) as nat)
            &&& 1 <= h <= 12 && m == 0 ==> time_of(text::decimal(h) + "am"@) == Some(t as nat)
                && time_of(text::decimal(h) + "pm"@) == Some((t + 43_200) as nat)
            &&& h == 0 || h > 12 ==> time_of(full + "am"@) is None && time_of(full + "pm"@) is None
        }),
{
    let bare = text::decimal(h);
    let full = text::decimal(h) + seq![':'] + minutes(m);
    assert(text::is_digit(full[full.len() - 1]) && text::is_digit(bare[bare.len() - 1])) by {
        lemma_hours(h);
        lemma_minutes(m);
        assert(full[full.len() - 1] == minutes(m)[1]);
        assert(text::is_digit(minutes(m)[1]));
        assert(text::is_digit(bare[bare.len() - 1]));
    }
    lemma_half(full, false);
    lemma_half(full, true);
    lemma_half(bare, false);
    lemma_half(bare, true);
    lemma_clock(h, m, true);
    lemma_half_day(full, h, m);
    lemma_half_day(bare, h, 0);
}

proof fn lemma_half_day(s: Text, h: nat, m: nat)
    requires
        clock(s, true) == Some((h, m)),
        m < 60,
    ensures
        ({
            let t = if h == 12 {
                m * 60
            } else {
                h * 3600 + m * 60
            };
            &&& 1 <= h <= 12 ==> half_day(s, false) == Some(t as nat) && half_day(s, true) == Some(
                (t + 43_200) as nat,
            )
            &&& h == 0 || h > 12 ==> half_day(s, false) is None && half_day(s, true) is None
        }),
{
}

/// Every time lies within the day.
pub proof fn lemma_times_lie_in_the_day(s: Text)
    ensures
        time_of(s) matches Some(t) ==> t < 86_400 && t % 60 == 0,
{
}

// ── Days ──

pub open spec fn both(a: DayFilter, b: DayFilter) -> DayFilter {
    DayFilter {
        mon: a.mon || b.mon,
        tue: a.tue || b.tue,
        wed: a.wed || b.wed,
        thu: a.thu || b.thu,
        fri: a.fri || b.fri,
        sat: a.sat || b.sat,
        sun: a.sun || b.sun,
    }
}

proof fn lemma_day_added(d: DayFilter, name: Text)
    ensures
        with_day(d, name) == match with_day(no_days(), name) {
            Some(x) => Some(both(d, x)),
            None => None,
        },
{
}

proof fn lemma_days_together(a: Seq<Text>, b: Seq<Text>)
    ensures
        days_of(a + b) == match (days_of(a), days_of(b)) {
            (Some(x), Some(y)) => Some(both(x, y)),
            _ => None,
        },
    decreases b.len(),
{
    if b.len() == 0 {
        assert(a + b =~= a);
    } else {
        let front = b.drop_last();
        lemma_days_together(a, front);
        assert((a + b).drop_last() =~= a + front);
        assert((a + b).last() == b.last());
        if let (Some(x), Some(y)) = (days_of(a), days_of(front)) {
            lemma_day_added(both(x, y), b.last());
            lemma_day_added(y, b.last());
        }
    }
}

/// Days with a comma between them are the days of both sides, if both sides are days.
pub proof fn lemma_lists_of_days(a: Text, b: Text)
    ensures
        day_filter_of(a + seq![','] + b) == match (day_filter_of(a), day_filter_of(b)) {
            (Some(x), Some(y)) => Some(both(x, y)),
            _ => None,
        },
{
    lemma_split_at_a_mark(a, b, ',');
    lemma_days_together(text::split(a, ','), text::split(b, ','));
}

/// A name of a day, short or long, is that day alone; `weekdays` are Monday to Friday, and
/// `weekends` the two others.
pub open spec fn only(i: int) -> DayFilter {
    DayFilter {
        mon: i == 0,
        tue: i == 1,
        wed: i == 2,
        thu: i == 3,
        fri: i == 4,
        sat: i == 5,
        sun: i == 6,
    }
}

proof fn lemma_one_name(name: Text)
    requires
        !name.contains(','),
    ensures
        day_filter_of(name) == with_day(no_days(), name),
{
    lemma_one_part(name, ',');
    let names = seq![name];
    assert(names.drop_last() =~= Seq::<Text>::empty());
    reveal_with_fuel(days_of, 2);
}

/// The first two letters and the length of a name.
pub open spec fn name_mark(w: Text) -> int {
    if w.len() < 2 {
        0
    } else {
        w.len() * 0x4000_0000_000 + w[0] as int * 0x200000 + w[1] as int
    }
}

pub open spec fn named_mark(n: int, a: char, b: char) -> int {
    n * 0x4000_0000_000 + a as int * 0x200000 + b as int
}

proof fn lemma_day_marks()
    ensures
        name_mark("weekdays"@) == named_mark(8, 'w', 'e'),
        name_mark("weekends"@) == named_mark(8, 'w', 'e'),
        "weekdays"@ != "weekends"@,
        name_mark("mon"@) == named_mark(3, 'm', 'o'),
        name_mark("monday"@) == named_mark(6, 'm', 'o'),
        name_mark("tue"@) == named_mark(3, 't', 'u'),
        name_mark("tuesday"@) == named_mark(7, 't', 'u'),
        name_mark("wed"@) == named_mark(3, 'w', 'e'),
        name_mark("wednesday"@) == named_mark(9, 'w', 'e'),
        name_mark("thu"@) == named_mark(3, 't', 'h'),
        name_mark("thursday"@) == named_mark(8, 't', 'h'),
        name_mark("fri"@) == named_mark(3, 'f', 'r'),
        name_mark("friday"@) == named_mark(6, 'f', 'r'),
        name_mark("sat"@) == named_mark(3, 's', 'a'),
        name_mark("saturday"@) == named_mark(8, 's', 'a'),
        name_mark("sun"@) == named_mark(3, 's', 'u'),
        name_mark("sunday"@) == named_mark(6, 's', 'u'),
{
    reveal_strlit("weekdays");
    reveal_strlit("weekends");
    reveal_strlit("mon");
    reveal_strlit("monday");
    reveal_strlit("tue");
    reveal_strlit("tuesday");
    reveal_strlit("wed");
    reveal_strlit("wednesday");
    reveal_strlit("thu");
    reveal_strlit("thursday");
    reveal_strlit("fri");
    reveal_strlit("friday");
    reveal_strlit("sat");
    reveal_strlit("saturday");
    reveal_strlit("sun");
    reveal_strlit("sunday");
    assert("weekdays"@[4] == 'd' && "weekends"@[4] == 'e');
}

/// Each name of a day, short or long, is that day and no other.
pub proof fn lemma_names_of_days()
    ensures
        day_filter_of("mon"@) == Some(only(0)) && day_filter_of("monday"@) == Some(only(0)),
        day_filter_of("tue"@) == Some(only(1)) && day_filter_of("tuesday"@) == Some(only(1)),
        day_filter_of("wed"@) == Some(only(2)) && day_filter_of("wednesday"@) == Some(only(2)),
        day_filter_of("thu"@) == Some(only(3)) && day_filter_of("thursday"@) == Some(only(3)),
        day_filter_of("fri"@) == Some(only(4)) && day_filter_of("friday"@) == Some(only(4)),
        day_filter_of("sat"@) == Some(only(5)) && day_filter_of("saturday"@) == Some(only(5)),
        day_filter_of("sun"@) == Some(only(6)) && day_filter_of("sunday"@) == Some(only(6)),
        day_filter_of("weekdays"@) == Some(
            both(only(0), both(only(1), both(only(2), both(only(3), only(4))))),
        ),
        day_filter_of("weekends"@) == Some(both(only(5), only(6))),
{
    lemma_day_marks();
    assert(no_commas()) by {
        reveal_strlit("weekdays");
        reveal_strlit("weekends");
        reveal_strlit("mon");
        reveal_strlit("monday");
        reveal_strlit("tue");
        reveal_strlit("tuesday");
        reveal_strlit("wed");
        reveal_strlit("wednesday");
        reveal_strlit("thu");
        reveal_strlit("thursday");
        reveal_strlit("fri");
        reveal_strlit("friday");
        reveal_strlit("sat");
        reveal_strlit("saturday");
        reveal_strlit("sun");
        reveal_strlit("sunday");
    }
    lemma_one_name("weekdays"@);
    lemma_one_name("weekends"@);
    lemma_one_name("mon"@);
    lemma_one_name("monday"@);
    lemma_one_name("tue"@);
    lemma_one_name("tuesday"@);
    lemma_one_name("wed"@);
    lemma_one_name("wednesday"@);
    lemma_one_name("thu"@);
    lemma_one_name("thursday"@);
    lemma_one_name("fri"@);
    lemma_one_name("friday"@);
    lemma_one_name("sat"@);
    lemma_one_name("saturday"@);
    lemma_one_name("sun"@);
    lemma_one_name("sunday"@);
}

spec fn no_commas() -> bool {
    &&& !"weekdays"@.contains(',') && !"weekends"@.contains(',')
    &&& !"mon"@.contains(',') && !"monday"@.contains(',')
    &&& !"tue"@.contains(',') && !"tuesday"@.contains(',')
    &&& !"wed"@.contains(',') && !"wednesday"@.contains(',')
    &&& !"thu"@.contains(',') && !"thursday"@.contains(',')
    &&& !"fri"@.contains(',') && !"friday"@.contains(',')
    &&& !"sat"@.contains(',') && !"saturday"@.contains(',')
    &&& !"sun"@.contains(',') && !"sunday"@.contains(',')
}

// ── Crontab fields ──

proof fn lemma_plain_digits(n: nat)
    ensures
        text::all_digits(text::decimal(n)),
        !text::decimal(n).contains(','),
        !text::decimal(n).contains('/'),
        !text::decimal(n).contains('-'),
        text::decimal(n) != "*"@,
{
    text::lemma_decimal_read_back(n, n);
    let s = text::decimal(n);
    reveal_strlit("*");
    assert("*"@[0] == '*');
    assert(text::is_digit(s[0]));
    assert forall|c: char| s.contains(c) implies text::is_digit(c) by {
        let k = s.index_of(c);
        assert(text::is_digit(s[k]));
    }
}

/// A number is a field just when it lies within the bounds, and `*` always is one.
pub proof fn lemma_number_in_a_field(n: nat, lo: nat, hi: nat)
    ensures
        field_ok(text::decimal(n), lo, hi) <==> lo <= n <= hi,
        field_ok("*"@, lo, hi),
{
    lemma_plain_digits(n);
    let s = text::decimal(n);
    lemma_one_part(s, ',');
    lemma_find_none(s, 0, '/');
    lemma_find_none(s, 0, '-');
    text::lemma_decimal_read_back(n, n);
    assert(text::split(s, ',')[0] == s);
    let star = "*"@;
    reveal_strlit("*");
    assert(!star.contains(',') && !star.contains('/'));
    lemma_one_part(star, ',');
    lemma_find_none(star, 0, '/');
    assert(text::split(star, ',')[0] == star);
}

/// A range is a field just when both of its ends are and it does not go backwards.
pub proof fn lemma_range_in_a_field(a: nat, b: nat, lo: nat, hi: nat)
    ensures
        field_ok(text::decimal(a) + seq!['-'] + text::decimal(b), lo, hi) <==> lo <= a <= b <= hi,
{
    lemma_plain_digits(a);
    lemma_plain_digits(b);
    let x = text::decimal(a);
    let y = text::decimal(b);
    let s = x + seq!['-'] + y;
    text::lemma_decimal_read_back(a, a);
    text::lemma_decimal_read_back(b, b);
    assert forall|c: char| s.contains(c) implies x.contains(c) || y.contains(c) || c == '-' by {
        let k = s.index_of(c);
        if k < x.len() {
            assert(x[k] == c);
        } else if k > x.len() {
            assert(y[k - x.len() - 1] == c);
        }
    }
    lemma_one_part(s, ',');
    lemma_find_none(s, 0, '/');
    assert forall|j: int| 0 <= j < x.len() implies s[j] != '-' by {
        assert(s[j] == x[j]);
        assert(x.contains(x[j]));
    }
    assert(s[x.len() as int] == '-');
    lemma_found_at(s, 0, x.len() as int, '-');
    assert(s.take(x.len() as int) =~= x);
    assert(s.skip(x.len() as int + 1) =~= y);
    assert(text::split(s, ',')[0] == s);
    reveal_strlit("*");
    assert(s.len() >= 3);
    assert(in_field(x, lo, hi) <==> lo <= a <= hi);
    assert(in_field(y, lo, hi) <==> lo <= b <= hi);
}

/// A list is a field just when each of its parts is.
pub proof fn lemma_list_in_a_field(a: Text, b: Text, lo: nat, hi: nat)
    ensures
        field_ok(a + seq![','] + b, lo, hi) <==> field_ok(a, lo, hi) && field_ok(b, lo, hi),
{
    lemma_split_at_a_mark(a, b, ',');
    let x = text::split(a, ',');
    let y = text::split(b, ',');
    let all = text::split(a + seq![','] + b, ',');
    assert forall|i: int| 0 <= i < x.len() implies all[i] == #[trigger] x[i] by {}
    assert forall|i: int| 0 <= i < y.len() implies all[x.len() + i] == #[trigger] y[i] by {}
    if field_ok(a + seq![','] + b, lo, hi) {
        assert forall|i: int| 0 <= i < x.len() implies step_ok(#[trigger] x[i], lo, hi) by {
            assert(step_ok(all[i], lo, hi));
        }
        assert forall|i: int| 0 <= i < y.len() implies step_ok(#[trigger] y[i], lo, hi) by {
            assert(step_ok(all[x.len() + i], lo, hi));
        }
    }
    if field_ok(a, lo, hi) && field_ok(b, lo, hi) {
        assert forall|i: int| 0 <= i < all.len() implies step_ok(#[trigger] all[i], lo, hi) by {
            if i < x.len() {
                assert(step_ok(x[i], lo, hi));
            } else {
                assert(step_ok(y[i - x.len()], lo, hi));
            }
        }
    }
}

/// A step of at least one may stand behind a field that is no list.
pub proof fn lemma_step_in_a_field(a: Text, n: nat, lo: nat, hi: nat)
    requires
        !a.contains(','),
        !a.contains('/'),
        n <= u64::MAX,
    ensures
        field_ok(a + seq!['/'] + text::decimal(n), lo, hi) <==> field_ok(a, lo, hi) && n >= 1,
{
    lemma_plain_digits(n);
    let y = text::decimal(n);
    let s = a + seq!['/'] + y;
    text::lemma_decimal_read_back(n, u64::MAX as nat);
    assert forall|c: char| s.contains(c) implies a.contains(c) || y.contains(c) || c == '/' by {
        let k = s.index_of(c);
        if k < a.len() {
            assert(a[k] == c);
        } else if k > a.len() {
            assert(y[k - a.len() - 1] == c);
        }
    }
    lemma_one_part(s, ',');
    lemma_one_part(a, ',');
    lemma_find_none(a, 0, '/');
    assert forall|j: int| 0 <= j < a.len() implies s[j] != '/' by {
        assert(s[j] == a[j]);
        assert(a.contains(a[j]));
    }
    assert(s[a.len() as int] == '/');
    lemma_found_at(s, 0, a.len() as int, '/');
    assert(s.take(a.len() as int) =~= a);
    assert(s.skip(a.len() as int + 1) =~= y);
    assert(text::split(s, ',')[0] == s);
    assert(text::split(a, ',')[0] == a);
}

/// The five fields are minute, hour, day of the month, month and day of the week, each within
/// the bounds that these have.
pub proof fn lemma_bounds_of_the_fields(m: nat, h: nat, d: nat, mon: nat, dow: nat)
    ensures
        crontab_ok(
            seq![
                text::decimal(m),
                text::decimal(h),
                text::decimal(d),
                text::decimal(mon),
                text::decimal(dow),
            ],
        ) <==> m <= 59 && h <= 23 && 1 <= d <= 31 && 1 <= mon <= 12 && dow <= 7,
        forall|fields: Seq<Text>| #[trigger] crontab_ok(fields) ==> fields.len() == 5,
{
    lemma_number_in_a_field(m, 0, 59);
    lemma_number_in_a_field(h, 0, 23);
    lemma_number_in_a_field(d, 1, 31);
    lemma_number_in_a_field(mon, 1, 12);
    lemma_number_in_a_field(dow, 0, 7);
}

} // verus!
