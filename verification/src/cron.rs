//! Cron expressions of five fields: minute, hour, day of month, month and day
//! of week.

use vstd::prelude::*;
use vstd::arithmetic::div_mod::lemma_add_mod_noop;
use vstd::arithmetic::div_mod::lemma_small_mod;
use crate::text::chars_of;
use crate::text::find_char;
use crate::text::first_index;
use crate::text::parse_u32;
use crate::text::parse_u32_spec;
use crate::text::parts_view;
use crate::text::slice_chars;
use crate::text::split;
use crate::text::split_chars;
use crate::text::split_words;
use crate::text::trim_chars;
use crate::text::trimmed;
use crate::text::words;

verus! {

/// Why a cron expression was refused.
#[derive(Clone, Copy, PartialEq, Eq, Structural, Debug)]
pub enum CronError {
    /// The expression does not have five fields.
    FieldCount,
    /// What follows a `/` is not a number.
    InvalidStep,
    /// What stands before the `-` of a range is not a number.
    InvalidRangeStart,
    /// What stands after the `-` of a range is not a number.
    InvalidRangeEnd,
    /// A single value is not a number.
    InvalidValue,
    /// A range starts after its end.
    InvalidRange,
}

/// Whether `v` is reached from `lo` in steps of `step` without passing `hi`.
pub open spec fn in_range_step(v: u32, lo: u32, hi: u32, step: u32) -> bool {
    lo <= v <= hi && (v - lo) % (step as int) == 0
}

/// The values that one field of a cron expression allows.
#[derive(Debug)]
pub struct CronField {
    min: u32,
    max: u32,
    allowed: Vec<bool>,
}

impl CronField {
    /// The field holds one flag for each value between its bounds.
    pub closed spec fn wf(&self) -> bool {
        self.min <= self.max && self.allowed.len() == self.max - self.min + 1
    }

    /// The smallest value that the field can allow.
    pub closed spec fn lower(&self) -> u32 {
        self.min
    }

    /// The largest value that the field can allow.
    pub closed spec fn upper(&self) -> u32 {
        self.max
    }

    /// Whether the field allows a value.
    pub closed spec fn allows(&self, value: u32) -> bool {
        self.min <= value <= self.max && self.allowed[value - self.min]
    }

    /// What the field allows lies between its bounds.
    pub proof fn lemma_allows_in_bounds(&self, value: u32)
        requires
            self.allows(value),
        ensures
            self.lower() <= value <= self.upper(),
    {
    }

    /// A field between the given bounds that allows nothing yet.
    pub fn new(min: u32, max: u32) -> (r: CronField)
        requires
            min <= max,
            max - min < u32::MAX,
        ensures
            r.wf(),
            r.lower() == min,
            r.upper() == max,
            forall|v: u32| !r.allows(v),
    {
        let len = (max - min + 1) as usize;
        CronField { min, max, allowed: vec![false; len] }
    }

    /// Allows a value. A value outside the bounds is passed over.
    pub fn set(&mut self, value: u32)
        requires
            old(self).wf(),
        ensures
            final(self).wf(),
            final(self).lower() == old(self).lower(),
            final(self).upper() == old(self).upper(),
            forall|v: u32|
                final(self).allows(v) == (old(self).allows(v) || (v == value && old(self).lower()
                    <= v <= old(self).upper())),
    {
        if value < self.min || value > self.max {
            return ;
        }
        let idx = (value - self.min) as usize;
        self.allowed.set(idx, true);
    }

    /// Allows the values from `start` to `end` in steps of `step`. The range is
    /// cut to the field's bounds first, and a step of zero counts as one.
    pub fn set_range_step(&mut self, start: u32, end: u32, step: u32)
        requires
            old(self).wf(),
        ensures
            final(self).wf(),
            final(self).lower() == old(self).lower(),
            final(self).upper() == old(self).upper(),
            forall|v: u32|
                final(self).allows(v) == (old(self).allows(v) || in_range_step(
                    v,
                    if start > old(self).lower() {
                        start
                    } else {
                        old(self).lower()
                    },
                    if end < old(self).upper() {
                        end
                    } else {
                        old(self).upper()
                    },
                    if step > 1 {
                        step
                    } else {
                        1
                    },
                )),
    {
        let st: u32 = if step > 1 {
            step
        } else {
            1
        };
        let lo: u32 = if start > self.min {
            start
        } else {
            self.min
        };
        let hi: u32 = if end < self.max {
            end
        } else {
            self.max
        };
        let mut v: u32 = lo;
        let mut done = false;
        proof {
            lemma_small_mod(0, st as nat);
        }
        while !done && v <= hi
            invariant
                self.wf(),
                self.min == old(self).min,
                self.max == old(self).max,
                st >= 1,
                self.min <= lo <= v,
                hi <= self.max,
                (v - lo) % (st as int) == 0,
                !done ==> forall|u: u32|
                    self.allows(u) == (old(self).allows(u) || (u < v && in_range_step(u, lo, hi, st))),
                done ==> forall|u: u32|
                    self.allows(u) == (old(self).allows(u) || in_range_step(u, lo, hi, st)),
            decreases
                    (if done {
                        0int
                    } else if v <= hi {
                        hi - v + 2
                    } else {
                        1int
                    }),
        {
            self.set(v);
            if hi - v < st {
                done = true;
                assert forall|u: u32|
                    self.allows(u) == (old(self).allows(u) || in_range_step(u, lo, hi, st)) by {
                    if v < u && u <= hi {
                        let d = (u - v) as int;
                        lemma_add_mod_noop((v - lo) as int, d, st as int);
                        lemma_small_mod(d as nat, st as nat);
                    }
                }
            } else {
                let next: u32 = v + st;
                proof {
                    lemma_add_mod_noop((v - lo) as int, st as int, st as int);
                    vstd::arithmetic::div_mod::lemma_mod_self_0(st as int);
                    lemma_small_mod(0, st as nat);
                    assert forall|u: u32|
                        self.allows(u) == (old(self).allows(u) || (u < next && in_range_step(
                            u,
                            lo,
                            hi,
                            st,
                        ))) by {
                        if v < u && u < next {
                            let d = (u - v) as int;
                            lemma_add_mod_noop((v - lo) as int, d, st as int);
                            lemma_small_mod(d as nat, st as nat);
                        }
                    }
                }
                v = next;
            }
        }
    }

    /// Allows every value between the bounds.
    pub fn set_all(&mut self)
        requires
            old(self).wf(),
        ensures
            final(self).wf(),
            final(self).lower() == old(self).lower(),
            final(self).upper() == old(self).upper(),
            forall|v: u32| final(self).allows(v) == (old(self).lower() <= v <= old(self).upper()),
    {
        let mut i: usize = 0;
        while i < self.allowed.len()
            invariant
                self.wf(),
                self.min == old(self).min,
                self.max == old(self).max,
                i <= self.allowed.len(),
                forall|j: int| 0 <= j < i ==> self.allowed[j],
            decreases self.allowed.len() - i,
        {
            self.allowed.set(i, true);
            i += 1;
        }
    }

    /// Whether the field allows a value.
    pub fn matches(&self, value: u32) -> (r: bool)
        requires
            self.wf(),
        ensures
            r == self.allows(value),
    {
        if value < self.min || value > self.max {
            return false;
        }
        let idx = (value - self.min) as usize;
        self.allowed[idx]
    }

    /// Moves what is allowed at `from` to `to` and allows `from` no longer.
    fn fold_value(&mut self, from: u32, to: u32)
        requires
            old(self).wf(),
            old(self).lower() <= from <= old(self).upper(),
            old(self).lower() <= to <= old(self).upper(),
            from != to,
        ensures
            final(self).wf(),
            final(self).lower() == old(self).lower(),
            final(self).upper() == old(self).upper(),
            forall|v: u32|
                final(self).allows(v) == (if v == from {
                    false
                } else if v == to {
                    old(self).allows(to) || old(self).allows(from)
                } else {
                    old(self).allows(v)
                }),
    {
        let a = (from - self.min) as usize;
        let b = (to - self.min) as usize;
        if self.allowed[a] {
            self.allowed.set(b, true);
            self.allowed.set(a, false);
        }
    }
}

/// The range and the step that one comma-separated part of a field names:
/// the start, the end and the step. A part that is blank names nothing.
pub open spec fn part_range(part: Seq<char>, min: u32, max: u32) -> Result<
    Option<(u32, u32, u32)>,
    CronError,
> {
    let part = trimmed(part);
    if part.len() == 0 {
        Ok(None)
    } else {
        let slash = first_index(part, '/');
        let range_text = match slash {
            Some(i) => trimmed(part.subrange(0, i)),
            None => part,
        };
        let step = match slash {
            Some(i) => parse_u32_spec(trimmed(part.subrange(i + 1, part.len() as int))),
            None => Some(1u32),
        };
        if step is None {
            Err(CronError::InvalidStep)
        } else if range_text == seq!['*'] {
            Ok(Some((min, max, step->0)))
        } else {
            match first_index(range_text, '-') {
                Some(i) => {
                    let start = parse_u32_spec(trimmed(range_text.subrange(0, i)));
                    let end = parse_u32_spec(
                        trimmed(range_text.subrange(i + 1, range_text.len() as int)),
                    );
                    if start is None {
                        Err(CronError::InvalidRangeStart)
                    } else if end is None {
                        Err(CronError::InvalidRangeEnd)
                    } else if start->0 > end->0 {
                        Err(CronError::InvalidRange)
                    } else {
                        Ok(Some((start->0, end->0, step->0)))
                    }
                },
                None => match parse_u32_spec(range_text) {
                    None => Err(CronError::InvalidValue),
                    Some(v) => Ok(Some((v, v, step->0))),
                },
            }
        }
    }
}

/// Whether a range with a step, cut to the bounds, holds a value.
pub open spec fn range_allows(range: (u32, u32, u32), min: u32, max: u32, v: u32) -> bool {
    in_range_step(
        v,
        if range.0 > min {
            range.0
        } else {
            min
        },
        if range.1 < max {
            range.1
        } else {
            max
        },
        if range.2 > 1 {
            range.2
        } else {
            1
        },
    )
}

/// Whether one of the parts names a range that holds the value.
pub open spec fn parts_allow(parts: Seq<Seq<char>>, min: u32, max: u32, v: u32) -> bool
    decreases parts.len(),
{
    if parts.len() == 0 {
        false
    } else {
        parts_allow(parts.drop_last(), min, max, v) || (part_range(parts.last(), min, max)
            matches Ok(Some(range)) && range_allows(range, min, max, v))
    }
}

/// The error of the first part that has one.
pub open spec fn parts_error(parts: Seq<Seq<char>>, min: u32, max: u32) -> Option<CronError>
    decreases parts.len(),
{
    if parts.len() == 0 {
        None
    } else {
        match parts_error(parts.drop_last(), min, max) {
            Some(e) => Some(e),
            None => match part_range(parts.last(), min, max) {
                Err(e) => Some(e),
                Ok(_) => None,
            },
        }
    }
}

/// Whether a field's text allows a value between the bounds: `*` allows all,
/// and a list allows what one of its parts allows.
pub open spec fn field_allows(text: Seq<char>, min: u32, max: u32, v: u32) -> bool {
    if trimmed(text) == seq!['*'] {
        min <= v <= max
    } else {
        parts_allow(split(trimmed(text), ','), min, max, v)
    }
}

/// The error in a field's text, where it has one.
pub open spec fn field_error(text: Seq<char>, min: u32, max: u32) -> Option<CronError> {
    if trimmed(text) == seq!['*'] {
        None
    } else {
        parts_error(split(trimmed(text), ','), min, max)
    }
}

/// What a list of parts allows lies between the bounds.
pub proof fn lemma_parts_within_bounds(parts: Seq<Seq<char>>, min: u32, max: u32, v: u32)
    requires
        parts_allow(parts, min, max, v),
    ensures
        min <= v <= max,
    decreases parts.len(),
{
    if parts.len() > 0 && !parts_allow(parts.drop_last(), min, max, v) {
    } else if parts.len() > 0 {
        lemma_parts_within_bounds(parts.drop_last(), min, max, v);
    }
}

/// Whatever a field's text says, it allows no value outside the field's
/// bounds: a minute stays within 0 to 59, an hour within 0 to 23, and so on,
/// and the day of the week within Sunday to Saturday.
pub proof fn law_field_within_bounds(text: Seq<char>, min: u32, max: u32, v: u32)
    ensures
        field_allows(text, min, max, v) ==> min <= v <= max,
        dow_allows(text, v) ==> v <= 6,
{
    if field_allows(text, min, max, v) && trimmed(text) != seq!['*'] {
        lemma_parts_within_bounds(split(trimmed(text), ','), min, max, v);
    }
}

/// Whether the characters are a single `*`.
fn is_star(chars: &Vec<char>) -> (r: bool)
    ensures
        r == (chars@ == seq!['*']),
{
    if chars.len() == 1 && chars[0] == '*' {
        assert(chars@ =~= seq!['*']);
        true
    } else {
        false
    }
}

/// Reads one comma-separated part of a field.
fn parse_part(part: &Vec<char>, min: u32, max: u32) -> (r: Result<Option<(u32, u32, u32)>, CronError>)
    ensures
        r == part_range(part@, min, max),
{
    let part = trim_chars(part);
    if part.len() == 0 {
        return Ok(None);
    }
    let slash = find_char(&part, '/');
    let (range_text, step) = match slash {
        Some(i) => {
            let range_text = trim_chars(&slice_chars(&part, 0, i));
            let step_text = trim_chars(&slice_chars(&part, i + 1, part.len()));
            (range_text, parse_u32(&step_text))
        },
        None => (part, Some(1u32)),
    };
    let Some(step) = step else {
        return Err(CronError::InvalidStep);
    };
    if is_star(&range_text) {
        return Ok(Some((min, max, step)));
    }
    match find_char(&range_text, '-') {
        Some(i) => {
            let start = parse_u32(&trim_chars(&slice_chars(&range_text, 0, i)));
            let end = parse_u32(&trim_chars(&slice_chars(&range_text, i + 1, range_text.len())));
            let Some(start) = start else {
                return Err(CronError::InvalidRangeStart);
            };
            let Some(end) = end else {
                return Err(CronError::InvalidRangeEnd);
            };
            if start > end {
                return Err(CronError::InvalidRange);
            }
            Ok(Some((start, end, step)))
        },
        None => match parse_u32(&range_text) {
            None => Err(CronError::InvalidValue),
            Some(v) => Ok(Some((v, v, step))),
        },
    }
}

/// Reads one field of a cron expression: `*`, or a comma-separated list of
/// values, ranges `a-b` and steps `/n`. Values outside the bounds are cut
/// off without an error.
pub fn parse_field(spec: &str, min: u32, max: u32) -> (r: Result<CronField, CronError>)
    requires
        min <= max,
        max - min < u32::MAX,
    ensures
        match r {
            Ok(field) => {
                &&& field.wf()
                &&& field.lower() == min
                &&& field.upper() == max
                &&& field_error(spec@, min, max) is None
                &&& forall|v: u32| field.allows(v) == field_allows(spec@, min, max, v)
            },
            Err(e) => field_error(spec@, min, max) == Some(e),
        },
{
    parse_field_chars(&chars_of(spec), min, max)
}

/// Reads one field of a cron expression from its characters.
pub fn parse_field_chars(spec: &Vec<char>, min: u32, max: u32) -> (r: Result<CronField, CronError>)
    requires
        min <= max,
        max - min < u32::MAX,
    ensures
        match r {
            Ok(field) => {
                &&& field.wf()
                &&& field.lower() == min
                &&& field.upper() == max
                &&& field_error(spec@, min, max) is None
                &&& forall|v: u32| field.allows(v) == field_allows(spec@, min, max, v)
            },
            Err(e) => field_error(spec@, min, max) == Some(e),
        },
{
    let mut field = CronField::new(min, max);
    let text = trim_chars(spec);
    if is_star(&text) {
        field.set_all();
        return Ok(field);
    }
    let parts = split_chars(&text, ',');
    let ghost all = parts_view(parts@);
    let mut i: usize = 0;
    assert(all.subrange(0, 0) =~= Seq::empty());
    while i < parts.len()
        invariant
            i <= parts.len(),
            all == parts_view(parts@),
            all == split(trimmed(spec@), ','),
            trimmed(spec@) != seq!['*'],
            field.wf(),
            field.lower() == min,
            field.upper() == max,
            parts_error(all.subrange(0, i as int), min, max) is None,
            forall|v: u32| field.allows(v) == parts_allow(all.subrange(0, i as int), min, max, v),
        decreases parts.len() - i,
    {
        let ghost done = all.subrange(0, i as int);
        let ghost next = all.subrange(0, i + 1);
        proof {
            assert(next.drop_last() =~= done);
            assert(next.last() == parts[i as int]@);
        }
        match parse_part(&parts[i], min, max) {
            Err(e) => {
                proof {
                    assert(parts_error(next, min, max) == Some(e));
                    lemma_error_stays(all, i + 1, min, max);
                    assert(all.subrange(0, all.len() as int) =~= all);
                }
                return Err(e);
            },
            Ok(None) => {},
            Ok(Some((start, end, step))) => {
                field.set_range_step(start, end, step);
            },
        }
        i += 1;
    }
    assert(all.subrange(0, parts.len() as int) =~= all);
    Ok(field)
}

/// An error among the first parts is the error of the whole list.
pub proof fn lemma_error_stays(parts: Seq<Seq<char>>, k: int, min: u32, max: u32)
    requires
        0 <= k <= parts.len(),
        parts_error(parts.subrange(0, k), min, max) is Some,
    ensures
        parts_error(parts.subrange(0, parts.len() as int), min, max) == parts_error(
            parts.subrange(0, k),
            min,
            max,
        ),
    decreases parts.len() - k,
{
    if k < parts.len() {
        let longer = parts.subrange(0, k + 1);
        assert(longer.drop_last() =~= parts.subrange(0, k));
        lemma_error_stays(parts, k + 1, min, max);
    }
}

/// Whether a day-of-week field's text allows a day, counted from Sunday as
/// zero. The text may write Sunday as 0 or as 7.
pub open spec fn dow_allows(text: Seq<char>, day: u32) -> bool {
    day <= 6 && (field_allows(text, 0, 7, day) || (day == 0 && field_allows(text, 0, 7, 7)))
}

/// Reads the day-of-week field. Days run from 0 to 7, and 7 is Sunday, as 0
/// is: the field that comes back allows 0 in its place.
pub fn parse_dow_field(spec: &str) -> (r: Result<CronField, CronError>)
    ensures
        match r {
            Ok(field) => {
                &&& field.wf()
                &&& field.lower() == 0
                &&& field.upper() == 7
                &&& field_error(spec@, 0, 7) is None
                &&& forall|v: u32| field.allows(v) == dow_allows(spec@, v)
            },
            Err(e) => field_error(spec@, 0, 7) == Some(e),
        },
{
    parse_dow_chars(&chars_of(spec))
}

/// Reads the day-of-week field from its characters.
pub fn parse_dow_chars(spec: &Vec<char>) -> (r: Result<CronField, CronError>)
    ensures
        match r {
            Ok(field) => {
                &&& field.wf()
                &&& field.lower() == 0
                &&& field.upper() == 7
                &&& field_error(spec@, 0, 7) is None
                &&& forall|v: u32| field.allows(v) == dow_allows(spec@, v)
            },
            Err(e) => field_error(spec@, 0, 7) == Some(e),
        },
{
    match parse_field_chars(spec, 0, 7) {
        Err(e) => Err(e),
        Ok(field) => {
            let mut field = field;
            let ghost before = field;
            field.fold_value(7, 0);
            assert forall|v: u32| field.allows(v) == dow_allows(spec@, v) by {
                if before.allows(v) {
                    before.lemma_allows_in_bounds(v);
                }
                if field.allows(v) {
                    field.lemma_allows_in_bounds(v);
                }
                assert(field_allows(spec@, 0, 7, v) ==> v <= 7);
            }
            Ok(field)
        },
    }
}

/// The fields of a moment of local time that a cron expression speaks of.
#[derive(Clone, Copy, PartialEq, Eq, Structural, Debug)]
pub struct TimeFields {
    /// 0 to 59.
    pub minute: u32,
    /// 0 to 23.
    pub hour: u32,
    /// Day of the month, 1 to 31.
    pub day: u32,
    /// 1 to 12.
    pub month: u32,
    /// Days since Sunday, 0 to 6.
    pub weekday: u32,
}

impl TimeFields {
    /// Each field lies in its range.
    pub open spec fn in_range(self) -> bool {
        &&& self.minute <= 59
        &&& self.hour <= 23
        &&& 1 <= self.day <= 31
        &&& 1 <= self.month <= 12
        &&& self.weekday <= 6
    }
}

/// The error of a cron expression, where it has one: a wrong number of
/// fields, or the error of the first field that has one.
pub open spec fn schedule_error(expr: Seq<char>) -> Option<CronError> {
    let w = words(expr);
    if w.len() != 5 {
        Some(CronError::FieldCount)
    } else if field_error(w[0], 0, 59) is Some {
        field_error(w[0], 0, 59)
    } else if field_error(w[1], 0, 23) is Some {
        field_error(w[1], 0, 23)
    } else if field_error(w[2], 1, 31) is Some {
        field_error(w[2], 1, 31)
    } else if field_error(w[3], 1, 12) is Some {
        field_error(w[3], 1, 12)
    } else {
        field_error(w[4], 0, 7)
    }
}

/// Whether a cron expression fires at a moment: each of its five fields
/// allows the moment's value.
pub open spec fn schedule_fires(expr: Seq<char>, t: TimeFields) -> bool {
    let w = words(expr);
    &&& w.len() == 5
    &&& field_allows(w[0], 0, 59, t.minute)
    &&& field_allows(w[1], 0, 23, t.hour)
    &&& field_allows(w[2], 1, 31, t.day)
    &&& field_allows(w[3], 1, 12, t.month)
    &&& dow_allows(w[4], t.weekday)
}

/// A cron expression, read.
#[derive(Debug)]
pub struct CronSchedule {
    minute: CronField,
    hour: CronField,
    day_of_month: CronField,
    month: CronField,
    day_of_week: CronField,
}

/// A moment at which a schedule fires.
#[derive(Clone, Copy, Debug)]
pub struct Firing {
    /// The moment, in seconds since the Unix epoch.
    pub unix_seconds: i64,
    /// The moment's fields in local time.
    pub fields: TimeFields,
}

/// How many minutes ahead the next firing is looked for: one year.
pub const SEARCH_MINUTES: u32 = 525600;

impl CronSchedule {
    /// Each field is well formed.
    pub closed spec fn wf(&self) -> bool {
        &&& self.minute.wf()
        &&& self.hour.wf()
        &&& self.day_of_month.wf()
        &&& self.month.wf()
        &&& self.day_of_week.wf()
    }

    /// Whether the schedule fires at a moment.
    pub closed spec fn fires_at(&self, t: TimeFields) -> bool {
        &&& self.minute.allows(t.minute)
        &&& self.hour.allows(t.hour)
        &&& self.day_of_month.allows(t.day)
        &&& self.month.allows(t.month)
        &&& self.day_of_week.allows(t.weekday)
    }

    /// Reads a cron expression of five fields, separated by white space.
    pub fn parse(expr: &str) -> (r: Result<CronSchedule, CronError>)
        ensures
            match r {
                Ok(schedule) => {
                    &&& schedule.wf()
                    &&& schedule_error(expr@) is None
                    &&& forall|t: TimeFields| schedule.fires_at(t) == schedule_fires(expr@, t)
                },
                Err(e) => schedule_error(expr@) == Some(e),
            },
    {
        let parts = split_words(&chars_of(expr));
        if parts.len() != 5 {
            return Err(CronError::FieldCount);
        }
        let ghost w = words(expr@);
        assert(w[0] == parts[0]@ && w[1] == parts[1]@ && w[2] == parts[2]@ && w[3] == parts[3]@
            && w[4] == parts[4]@);
        let minute = match parse_field_chars(&parts[0], 0, 59) {
            Ok(f) => f,
            Err(e) => {
                return Err(e);
            },
        };
        let hour = match parse_field_chars(&parts[1], 0, 23) {
            Ok(f) => f,
            Err(e) => {
                return Err(e);
            },
        };
        let day_of_month = match parse_field_chars(&parts[2], 1, 31) {
            Ok(f) => f,
            Err(e) => {
                return Err(e);
            },
        };
        let month = match parse_field_chars(&parts[3], 1, 12) {
            Ok(f) => f,
            Err(e) => {
                return Err(e);
            },
        };
        let day_of_week = match parse_dow_chars(&parts[4]) {
            Ok(f) => f,
            Err(e) => {
                return Err(e);
            },
        };
        Ok(CronSchedule { minute, hour, day_of_month, month, day_of_week })
    }

    /// Whether the schedule fires at a moment.
    pub fn matches_time(&self, t: &TimeFields) -> (r: bool)
        requires
            self.wf(),
        ensures
            r == self.fires_at(*t),
    {
        self.minute.matches(t.minute) && self.hour.matches(t.hour) && self.day_of_month.matches(
            t.day,
        ) && self.month.matches(t.month) && self.day_of_week.matches(t.weekday)
    }

    /// What the search makes of the `k`th moment after `now`, given the
    /// moment's fields in local time, where the calendar has the moment: the
    /// search ends with the moment where the schedule fires at it, goes on
    /// to the next moment where it does not, and gives up after the last
    /// moment of the year and at a moment outside the calendar.
    pub open spec fn search_judged(&self, k: u32, fields: Option<TimeFields>) -> SearchStep {
        match fields {
            None => SearchStep::GiveUp,
            Some(t) => if self.fires_at(t) {
                SearchStep::Fire
            } else if k == SEARCH_MINUTES {
                SearchStep::GiveUp
            } else {
                SearchStep::Next((k + 1) as u32)
            },
        }
    }

    /// The number of the moment with which a search from the `k`th moment on
    /// ends, where it ends with a firing: `search_judged` step after step,
    /// over what the calendar answers for each moment.
    pub open spec fn search_from(
        &self,
        k: u32,
        answers: spec_fn(u32) -> Option<TimeFields>,
    ) -> Option<u32>
        decreases SEARCH_MINUTES - k,
    {
        if 1 <= k <= SEARCH_MINUTES {
            match self.search_judged(k, answers(k)) {
                SearchStep::Fire => Some(k),
                SearchStep::Next(next) => self.search_from(next, answers),
                SearchStep::GiveUp => None,
            }
        } else {
            None
        }
    }

    /// Whether the calendar has every moment from the `k`th up to the one
    /// before the `j`th, and the schedule fires at none of them.
    pub open spec fn silent_between(
        &self,
        k: u32,
        j: u32,
        answers: spec_fn(u32) -> Option<TimeFields>,
    ) -> bool {
        forall|i: u32| k <= i < j ==> (#[trigger] answers(i)) is Some && !self.fires_at(answers(i)->0)
    }

    /// The search ends with the first firing: the moment that it ends with
    /// fires, and the schedule fires at no moment before it. Where the search
    /// ends without a moment, no moment of the year fires before the first
    /// one that the calendar does not have.
    pub proof fn law_search_ends_at_the_first_firing(
        &self,
        k: u32,
        answers: spec_fn(u32) -> Option<TimeFields>,
    )
        requires
            1 <= k <= SEARCH_MINUTES,
        ensures
            match self.search_from(k, answers) {
                Some(j) => {
                    &&& k <= j <= SEARCH_MINUTES
                    &&& answers(j) is Some
                    &&& self.fires_at(answers(j)->0)
                    &&& self.silent_between(k, j, answers)
                },
                None => forall|j: u32|
                    k <= j <= SEARCH_MINUTES && self.silent_between(k, j, answers) ==> !((
                    #[trigger] answers(j)) is Some && self.fires_at(answers(j)->0)),
            },
        decreases SEARCH_MINUTES - k,
    {
        match self.search_judged(k, answers(k)) {
            SearchStep::Next(next) => {
                self.law_search_ends_at_the_first_firing(next, answers);
                match self.search_from(next, answers) {
                    Some(j) => {
                        assert(self.silent_between(k, j, answers));
                    },
                    None => {
                        assert forall|j: u32|
                            k <= j <= SEARCH_MINUTES && self.silent_between(
                                k,
                                j,
                                answers,
                            ) implies !((#[trigger] answers(j)) is Some && self.fires_at(
                            answers(j)->0,
                        )) by {
                            if j > k {
                                assert(self.silent_between(next, j, answers));
                            }
                        }
                    },
                }
            },
            SearchStep::Fire => {},
            SearchStep::GiveUp => {
                assert forall|j: u32|
                    k <= j <= SEARCH_MINUTES && self.silent_between(k, j, answers) implies !((
                #[trigger] answers(j)) is Some && self.fires_at(answers(j)->0)) by {
                    if j > k {
                        assert(answers(k) is Some && !self.fires_at(answers(k)->0));
                    }
                }
            },
        }
    }

    /// What the search makes of the `k`th moment after `now`, given the
    /// moment's fields in local time.
    pub fn search_step(&self, k: u32, fields: Option<TimeFields>) -> (r: SearchStep)
        requires
            self.wf(),
            1 <= k <= SEARCH_MINUTES,
        ensures
            r == self.search_judged(k, fields),
    {
        match fields {
            None => SearchStep::GiveUp,
            Some(t) => {
                if self.matches_time(&t) {
                    SearchStep::Fire
                } else if k == SEARCH_MINUTES {
                    SearchStep::GiveUp
                } else {
                    SearchStep::Next(k + 1)
                }
            },
        }
    }

    /// The first moment at which the schedule fires, among the moments one
    /// minute, two minutes and so on after `now`, up to one year. The local
    /// time of each moment is asked of the machine's time zone, one moment
    /// after the other, and `search_step` says what is made of each answer.
    /// Nothing comes back where a moment lies beyond the numbers of the
    /// machine or outside the calendar, or where the search gives up.
    pub fn next_after(&self, now: i64) -> (r: Option<Firing>)
        requires
            self.wf(),
        ensures
            now > i64::MAX - 60 ==> r is None,
            r matches Some(firing) ==> {
                &&& self.fires_at(firing.fields)
                &&& firing.fields.in_range()
                &&& moment_after(now, ((firing.unix_seconds - now) / 60) as u32) == Some(
                    firing.unix_seconds,
                )
                &&& 60 <= firing.unix_seconds - now <= 60 * SEARCH_MINUTES
                &&& (firing.unix_seconds - now) % 60 == 0
            },
    {
        let mut k: u32 = 1;
        loop
            invariant
                1 <= k <= SEARCH_MINUTES,
                self.wf(),
            decreases SEARCH_MINUTES - k,
        {
            let Some(candidate) = nth_moment_after(now, k) else {
                return None;
            };
            let fields = local_fields(candidate);
            match self.search_step(k, fields) {
                SearchStep::Fire => {
                    match fields {
                        Some(t) => {
                            return Some(Firing { unix_seconds: candidate, fields: t });
                        },
                        None => {
                            return None;
                        },
                    }
                },
                SearchStep::Next(next) => {
                    k = next;
                },
                SearchStep::GiveUp => {
                    return None;
                },
            }
        }
    }
}

/// What the search for the next firing does after a moment.
#[derive(Clone, Copy, PartialEq, Eq, Structural, Debug)]
pub enum SearchStep {
    /// The schedule fires at the moment: the search ends with it.
    Fire,
    /// Go on with the moment of the given number.
    Next(u32),
    /// End the search without a moment.
    GiveUp,
}

/// The moment `k` minutes after `now`, in seconds since the Unix epoch, where
/// the machine's numbers hold it.
pub open spec fn moment_after(now: i64, k: u32) -> Option<i64> {
    if now + 60 * k <= i64::MAX {
        Some((now + 60 * k) as i64)
    } else {
        None
    }
}

/// The moment `k` minutes after `now`.
pub fn nth_moment_after(now: i64, k: u32) -> (r: Option<i64>)
    ensures
        r == moment_after(now, k),
{
    let offset: i64 = 60 * (k as i64);
    if now > i64::MAX - offset {
        None
    } else {
        Some(now + offset)
    }
}

/// `chrono::TimeZone::timestamp_opt` on `chrono::Local`, and the accessors of
/// `Timelike` and `Datelike`: the local-time fields of the moment that lies
/// the given number of seconds after the Unix epoch, in the machine's time
/// zone. Each field lies in the range that `chrono` documents. Nothing comes
/// back for a moment outside `chrono`'s calendar.
#[verifier::external_body]
fn local_fields(unix_seconds: i64) -> (r: Option<TimeFields>)
    ensures
        r matches Some(t) ==> t.in_range(),
{
    let t = chrono::TimeZone::timestamp_opt(&chrono::Local, unix_seconds, 0).single()?;
    Some(
        TimeFields {
            minute: chrono::Timelike::minute(&t),
            hour: chrono::Timelike::hour(&t),
            day: chrono::Datelike::day(&t),
            month: chrono::Datelike::month(&t),
            weekday: chrono::Datelike::weekday(&t).num_days_from_sunday(),
        },
    )
}

} // verus!
