//! The schedule: which theme should be active at a given moment, and which
//! variant (day or night).
//!
//! The decision policy is a strict cascade: a fixed override wins over a
//! matching calendar holiday, which wins over the monthly default. Holiday
//! date ranges are month/day pairs compared linearly as `month * 100 + day`;
//! a range whose start exceeds its end wraps the turn of the year.

use vstd::prelude::*;

verus! {

use crate::datetime::{CivilDate, spec_julian_micro};
use crate::solar::{
    Location,
    spec_micro_minutes,
    spec_sunrise,
    spec_sunset,
    spec_next_transition,
    is_daytime,
    get_next_transition,
};
use crate::strutil::string_eq_str;

/// A calendar override: between `start_date` and `end_date` (each a
/// `month-day` string), the named theme is forced.
#[derive(Debug, Clone)]
pub struct Holiday {
    pub name: String,
    pub theme: String,
    pub start_date: String,
    pub end_date: String,
    pub year: Option<i32>,
    pub enabled: bool,
}

/// The monthly default table: one optional theme id per month.
#[derive(Debug, Clone)]
pub struct MonthlyThemes {
    pub january: Option<String>,
    pub february: Option<String>,
    pub march: Option<String>,
    pub april: Option<String>,
    pub may: Option<String>,
    pub june: Option<String>,
    pub july: Option<String>,
    pub august: Option<String>,
    pub september: Option<String>,
    pub october: Option<String>,
    pub november: Option<String>,
    pub december: Option<String>,
}

/// The monthly entry for a month number, as a character sequence.
pub open spec fn spec_monthly_get(m: MonthlyThemes, month: int) -> Option<Seq<char>> {
    let slot = if month == 1 {
        m.january
    } else if month == 2 {
        m.february
    } else if month == 3 {
        m.march
    } else if month == 4 {
        m.april
    } else if month == 5 {
        m.may
    } else if month == 6 {
        m.june
    } else if month == 7 {
        m.july
    } else if month == 8 {
        m.august
    } else if month == 9 {
        m.september
    } else if month == 10 {
        m.october
    } else if month == 11 {
        m.november
    } else if month == 12 {
        m.december
    } else {
        None
    };
    match slot {
        Some(s) => Some(s@),
        None => None,
    }
}

impl MonthlyThemes {
    /// The theme assigned to a month number, if months 1 through 12 carry
    /// one; any other number has none.
    pub fn get(&self, month: u32) -> (r: Option<&String>)
        ensures
            match r {
                Some(s) => spec_monthly_get(*self, month as int) matches Some(v) && s@ == v,
                None => spec_monthly_get(*self, month as int) is None,
            },
    {
        match month {
            1 => self.january.as_ref(),
            2 => self.february.as_ref(),
            3 => self.march.as_ref(),
            4 => self.april.as_ref(),
            5 => self.may.as_ref(),
            6 => self.june.as_ref(),
            7 => self.july.as_ref(),
            8 => self.august.as_ref(),
            9 => self.september.as_ref(),
            10 => self.october.as_ref(),
            11 => self.november.as_ref(),
            12 => self.december.as_ref(),
            _ => None,
        }
    }
}

impl Default for MonthlyThemes {
    /// An empty table: no month carries a theme.
    fn default() -> (r: MonthlyThemes)
        ensures
            forall|month: int| spec_monthly_get(r, month) is None,
    {
        MonthlyThemes {
            january: None,
            february: None,
            march: None,
            april: None,
            may: None,
            june: None,
            july: None,
            august: None,
            september: None,
            october: None,
            november: None,
            december: None,
        }
    }
}

/// The schedule configuration: the mode, the location, the day/night toggle
/// with its two minute offsets, the monthly table, the ordered holiday list
/// and the optional fixed theme and variant.
#[derive(Debug, Clone)]
pub struct ThemeSchedule {
    pub default_mode: String,
    pub location: Location,
    pub day_night_enabled: bool,
    pub sunrise_offset: i64,
    pub sunset_offset: i64,
    pub monthly: MonthlyThemes,
    pub holidays: Vec<Holiday>,
    pub fixed_theme: Option<String>,
    pub fixed_variant: Option<String>,
}

impl ThemeSchedule {
    /// A usable schedule: a location in range and offsets within one day
    /// either way. The offset bound is a model limit, not a policy choice:
    /// the next-transition instant is rendered as a calendar date, so the
    /// offset-shifted instant must stay inside the calendar window the
    /// conversion covers, and one day of slack on either side of any date
    /// in 1583-9999 is what that window grants. The daytime comparison
    /// alone accepts far larger offsets (see `is_daytime`).
    pub open spec fn wf(self) -> bool {
        &&& self.location.wf()
        &&& -1440 <= self.sunrise_offset <= 1440
        &&& -1440 <= self.sunset_offset <= 1440
    }
}

impl Default for ThemeSchedule {
    /// Monthly mode at the default location, day/night switching on, no
    /// offsets, an empty monthly table and no holidays.
    fn default() -> (r: ThemeSchedule)
        ensures
            r.default_mode@ == "monthly"@,
            r.location.latitude_udeg == 40_712_800,
            r.location.longitude_udeg == -74_006_000,
            r.location.timezone@ == "America/New_York"@,
            r.day_night_enabled == true,
            r.sunrise_offset == 0,
            r.sunset_offset == 0,
            r.holidays@.len() == 0,
            r.fixed_theme is None,
            r.fixed_variant is None,
            forall|month: int| spec_monthly_get(r.monthly, month) is None,
            r.wf(),
    {
        ThemeSchedule {
            default_mode: String::from_str("monthly"),
            location: Location::default(),
            day_night_enabled: true,
            sunrise_offset: 0,
            sunset_offset: 0,
            monthly: MonthlyThemes::default(),
            holidays: Vec::new(),
            fixed_theme: None,
            fixed_variant: None,
        }
    }
}

/// The home-relative path the schedule configuration is stored under.
pub fn get_schedule_path() -> (r: String)
    ensures
        r@ == ".config/argus/themes/schedule.json"@,
{
    ".config/argus/themes/schedule.json".to_owned()
}

/// The home-relative path of the record of the currently active theme.
pub fn get_active_theme_path() -> (r: String)
    ensures
        r@ == ".config/argus/themes/.active.json"@,
{
    ".config/argus/themes/.active.json".to_owned()
}

/// Split a character sequence on a separator. The result always holds at
/// least one piece; an empty input gives one empty piece.
pub open spec fn spec_split(s: Seq<char>, sep: char) -> Seq<Seq<char>>
    decreases s.len(),
{
    if s.len() == 0 {
        seq![Seq::<char>::empty()]
    } else {
        let r = spec_split(s.drop_last(), sep);
        if s.last() == sep {
            r.push(Seq::<char>::empty())
        } else {
            r.update(r.len() - 1, r.last().push(s.last()))
        }
    }
}

/// The numeric value of a digit string, most significant digit first.
pub open spec fn spec_digits_val(s: Seq<char>) -> int
    decreases s.len(),
{
    if s.len() == 0 {
        0
    } else {
        spec_digits_val(s.drop_last()) * 10 + (s.last() as int - 48)
    }
}

/// Whether every character is a decimal digit.
pub open spec fn spec_all_digits(s: Seq<char>) -> bool {
    forall|i: int| 0 <= i < s.len() ==> '0' <= #[trigger] s[i] <= '9'
}

/// The value a decimal-number parser accepts: digits with an optional
/// leading plus sign, rejecting empty input and overflow.
pub open spec fn spec_parse_u32(s: Seq<char>) -> Option<int> {
    let t = if s.len() >= 2 && s[0] == '+' {
        s.skip(1)
    } else {
        s
    };
    if t.len() == 0 || !spec_all_digits(t) || spec_digits_val(t) > u32::MAX {
        None
    } else {
        Some(spec_digits_val(t))
    }
}

pub proof fn lemma_digits_val_nonneg(s: Seq<char>)
    requires
        spec_all_digits(s),
    ensures
        spec_digits_val(s) >= 0,
    decreases s.len(),
{
    if s.len() > 0 {
        assert(spec_all_digits(s.drop_last())) by {
            assert(forall|i: int|
                0 <= i < s.len() - 1 ==> s.drop_last()[i] == #[trigger] s[i]);
        }
        lemma_digits_val_nonneg(s.drop_last());
    }
}

pub proof fn lemma_digits_val_prefix_grows(s: Seq<char>, j: int)
    requires
        spec_all_digits(s),
        0 <= j < s.len(),
    ensures
        spec_digits_val(s.take(j)) <= spec_digits_val(s.take(j + 1)),
    decreases s.len() - j,
{
    let a = s.take(j);
    let b = s.take(j + 1);
    assert(b.drop_last() =~= a);
    assert(spec_all_digits(a)) by {
        assert(forall|i: int| 0 <= i < j ==> a[i] == #[trigger] s[i]);
    }
    lemma_digits_val_nonneg(a);
    assert(spec_digits_val(b) == spec_digits_val(a) * 10 + (s[j] as int - 48));
    assert(spec_digits_val(a) * 10 >= spec_digits_val(a)) by (nonlinear_arith)
        requires
            spec_digits_val(a) >= 0,
    ;
}

pub proof fn lemma_digits_val_take_mono(s: Seq<char>, j: int, k: int)
    requires
        spec_all_digits(s),
        0 <= j <= k <= s.len(),
    ensures
        spec_digits_val(s.take(j)) <= spec_digits_val(s.take(k)),
    decreases k - j,
{
    if j < k {
        lemma_digits_val_prefix_grows(s, j);
        lemma_digits_val_take_mono(s, j + 1, k);
    }
}

/// Parse a decimal number the way the holiday dates are parsed: digits with
/// an optional leading plus sign.
pub fn parse_u32(s: &str) -> (r: Option<u32>)
    ensures
        match r {
            Some(v) => spec_parse_u32(s@) matches Some(sv) && v == sv,
            None => spec_parse_u32(s@) is None,
        },
{
    let len = s.unicode_len();
    let start: usize = if len >= 2 && s.get_char(0) == '+' {
        1
    } else {
        0
    };
    let ghost t = if s@.len() >= 2 && s@[0] == '+' {
        s@.skip(1)
    } else {
        s@
    };
    if len - start == 0 {
        return None;
    }
    let mut v: u64 = 0;
    let mut j: usize = start;
    while j < len
        invariant
            start <= j <= len,
            len == s@.len(),
            start == if s@.len() >= 2 && s@[0] == '+' { 1int } else { 0int },
            t == if s@.len() >= 2 && s@[0] == '+' {
                s@.skip(1)
            } else {
                s@
            },
            spec_all_digits(t.take(j - start)),
            v == spec_digits_val(t.take(j - start)),
            v <= u32::MAX,
        decreases len - j,
    {
        let c = s.get_char(j);
        proof {
            assert(t[j - start] == s@[j as int]);
        }
        if c < '0' || c > '9' {
            proof {
                assert(!spec_all_digits(t));
            }
            return None;
        }
        let d: u64 = (c as u32 as u64) - 48;
        let v2: u64 = v * 10 + d;
        proof {
            assert(t.take(j + 1 - start).drop_last() =~= t.take(j - start));
            assert(t.take(j + 1 - start).last() == t[j - start]);
            assert(spec_all_digits(t.take(j + 1 - start))) by {
                assert(forall|i: int|
                    0 <= i < j + 1 - start ==> t.take(j + 1 - start)[i] == #[trigger] t[i]);
                assert(forall|i: int|
                    0 <= i < j - start ==> #[trigger] t.take(j - start)[i] == t[i]);
            }
        }
        if v2 > 0xFFFF_FFFF {
            proof {
                if spec_all_digits(t) {
                    lemma_digits_val_take_mono(t, j + 1 - start, t.len() as int);
                    assert(t.take(t.len() as int) =~= t);
                }
            }
            return None;
        }
        v = v2;
        j += 1;
    }
    proof {
        assert(t.take(len - start) =~= t);
    }
    Some(v as u32)
}


/// The value a 64-bit decimal parser accepts: digits with an optional
/// leading plus sign, rejecting empty input and overflow.
pub open spec fn spec_parse_u64(s: Seq<char>) -> Option<int> {
    let t = if s.len() >= 2 && s[0] == '+' {
        s.skip(1)
    } else {
        s
    };
    if t.len() == 0 || !spec_all_digits(t) || spec_digits_val(t) > u64::MAX {
        None
    } else {
        Some(spec_digits_val(t))
    }
}

/// Parse a 64-bit decimal number, as backup timestamps are parsed.
pub fn parse_u64(s: &str) -> (r: Option<u64>)
    ensures
        match r {
            Some(v) => spec_parse_u64(s@) matches Some(sv) && v == sv,
            None => spec_parse_u64(s@) is None,
        },
{
    let len = s.unicode_len();
    let start: usize = if len >= 2 && s.get_char(0) == '+' {
        1
    } else {
        0
    };
    let ghost t = if s@.len() >= 2 && s@[0] == '+' {
        s@.skip(1)
    } else {
        s@
    };
    if len - start == 0 {
        return None;
    }
    let mut v: u64 = 0;
    let mut j: usize = start;
    while j < len
        invariant
            start <= j <= len,
            len == s@.len(),
            start == if s@.len() >= 2 && s@[0] == '+' { 1int } else { 0int },
            t == if s@.len() >= 2 && s@[0] == '+' {
                s@.skip(1)
            } else {
                s@
            },
            spec_all_digits(t.take(j - start)),
            v == spec_digits_val(t.take(j - start)),
        decreases len - j,
    {
        let c = s.get_char(j);
        proof {
            assert(t[j - start] == s@[j as int]);
        }
        if c < '0' || c > '9' {
            proof {
                assert(!spec_all_digits(t));
            }
            return None;
        }
        let d: u64 = (c as u32 as u64) - 48;
        proof {
            assert(t.take(j + 1 - start).drop_last() =~= t.take(j - start));
            assert(t.take(j + 1 - start).last() == t[j - start]);
            assert(spec_all_digits(t.take(j + 1 - start))) by {
                assert(forall|i: int|
                    0 <= i < j + 1 - start ==> t.take(j + 1 - start)[i] == #[trigger] t[i]);
                assert(forall|i: int|
                    0 <= i < j - start ==> #[trigger] t.take(j - start)[i] == t[i]);
            }
        }
        if v > 0x1999_9999_9999_9999 || (v == 0x1999_9999_9999_9999 && d > 5) {
            proof {
                assert(spec_digits_val(t.take(j + 1 - start)) > u64::MAX);
                if spec_all_digits(t) {
                    lemma_digits_val_take_mono(t, j + 1 - start, t.len() as int);
                    assert(t.take(t.len() as int) =~= t);
                }
            }
            return None;
        }
        v = v * 10 + d;
        j += 1;
    }
    proof {
        assert(t.take(len - start) =~= t);
    }
    Some(v)
}

/// The pieces of a `-`-separated string that parse as numbers, in order.
pub open spec fn spec_ok_parts(ps: Seq<Seq<char>>) -> Seq<int>
    decreases ps.len(),
{
    if ps.len() == 0 {
        Seq::empty()
    } else {
        let r = spec_ok_parts(ps.drop_last());
        match spec_parse_u32(ps.last()) {
            Some(v) => r.push(v),
            None => r,
        }
    }
}

/// The numeric fields of a holiday date string: split on `-`, keep what
/// parses.
pub open spec fn spec_date_parts(s: Seq<char>) -> Seq<int> {
    spec_ok_parts(spec_split(s, '-'))
}

/// Split a string on a separator character.
pub fn split_char(s: &str, sep: char) -> (r: Vec<String>)
    ensures
        r@.map_values(|x: String| x@) == spec_split(s@, sep),
        r@.len() >= 1,
{
    let len = s.unicode_len();
    let mut parts: Vec<String> = Vec::new();
    parts.push(String::new());
    let mut i: usize = 0;
    proof {
        assert(s@.take(0) =~= Seq::<char>::empty());
        assert(parts@.map_values(|x: String| x@) =~= spec_split(s@.take(0), sep));
    }
    while i < len
        invariant
            i <= len,
            len == s@.len(),
            parts@.len() >= 1,
            parts@.map_values(|x: String| x@) == spec_split(s@.take(i as int), sep),
        decreases len - i,
    {
        let ghost pre = parts@.map_values(|x: String| x@);
        let c = s.get_char(i);
        proof {
            assert(s@.take(i + 1).drop_last() =~= s@.take(i as int));
            assert(s@.take(i + 1).last() == s@[i as int]);
        }
        if c == sep {
            parts.push(String::new());
            proof {
                assert(parts@.map_values(|x: String| x@) =~= pre.push(Seq::<char>::empty()));
            }
        } else {
            let piece = s.substring_char(i, i + 1);
            match parts.pop() {
                Some(mut lastp) => {
                    let ghost lastv = lastp@;
                    lastp.append(piece);
                    parts.push(lastp);
                    proof {
                        assert(piece@ =~= seq![s@[i as int]]);
                        assert(lastp@ =~= lastv + seq![s@[i as int]]);
                        assert(lastv.push(s@[i as int]) =~= lastv + seq![s@[i as int]]);
                        assert(parts@.map_values(|x: String| x@) =~= pre.update(
                            pre.len() - 1,
                            pre.last().push(s@[i as int]),
                        ));
                    }
                },
                None => {
                    proof {
                        assert(false);
                    }
                },
            }
        }
        i += 1;
    }
    proof {
        assert(s@.take(len as int) =~= s@);
    }
    parts
}

/// The numeric fields of a holiday date string.
pub fn date_parts(s: &str) -> (r: Vec<u32>)
    ensures
        r@.map_values(|x: u32| x as int) == spec_date_parts(s@),
{
    let pieces = split_char(s, '-');
    let mut out: Vec<u32> = Vec::new();
    let mut i: usize = 0;
    let ghost sp = spec_split(s@, '-');
    proof {
        assert(sp.take(0) =~= Seq::<Seq<char>>::empty());
        assert(out@.map_values(|x: u32| x as int) =~= spec_ok_parts(sp.take(0)));
    }
    while i < pieces.len()
        invariant
            i <= pieces@.len(),
            pieces@.map_values(|x: String| x@) == sp,
            out@.map_values(|x: u32| x as int) == spec_ok_parts(sp.take(i as int)),
        decreases pieces@.len() - i,
    {
        let ghost pre = out@.map_values(|x: u32| x as int);
        proof {
            assert(sp.take(i + 1).drop_last() =~= sp.take(i as int));
            assert(sp.take(i + 1).last() == sp[i as int]);
            assert(sp[i as int] == pieces@[i as int]@);
        }
        match parse_u32(pieces[i].as_str()) {
            Some(v) => {
                out.push(v);
                proof {
                    assert(out@.map_values(|x: u32| x as int) =~= pre.push(v as int));
                }
            },
            None => {},
        }
        i += 1;
    }
    proof {
        assert(sp.take(pieces@.len() as int) =~= sp);
    }
    out
}

/// Whether a holiday matches the given date: the entry must be enabled, an
/// optional year filter must equal the date's year, both date strings must
/// hold exactly two numeric fields, and the date's `month * 100 + day` must
/// fall in the range, wrapping the turn of the year when the range's start
/// exceeds its end.
pub open spec fn spec_holiday_matches(y: int, m: int, d: int, h: Holiday) -> bool {
    let ps = spec_date_parts(h.start_date@);
    let pe = spec_date_parts(h.end_date@);
    &&& h.enabled
    &&& (h.year matches Some(hy) ==> hy == y)
    &&& ps.len() == 2
    &&& pe.len() == 2
    &&& ({
        let cur = m * 100 + d;
        let start = ps[0] * 100 + ps[1];
        let end = pe[0] * 100 + pe[1];
        if start > end {
            cur >= start || cur <= end
        } else {
            start <= cur <= end
        }
    })
}

/// Check whether a date falls within a holiday range.
pub fn is_date_in_holiday(date: &CivilDate, holiday: &Holiday) -> (r: bool)
    requires
        date.wf(),
    ensures
        r == spec_holiday_matches(
            date.year as int,
            date.month as int,
            date.day as int,
            *holiday,
        ),
{
    if !holiday.enabled {
        return false;
    }
    match holiday.year {
        Some(year) => {
            if date.year != year as i64 {
                return false;
            }
        },
        None => {},
    }
    let ps = date_parts(holiday.start_date.as_str());
    let pe = date_parts(holiday.end_date.as_str());
    if ps.len() != 2 || pe.len() != 2 {
        return false;
    }
    let current: u64 = (date.month as u64) * 100 + (date.day as u64);
    let start: u64 = (ps[0] as u64) * 100 + (ps[1] as u64);
    let end: u64 = (pe[0] as u64) * 100 + (pe[1] as u64);
    proof {
        assert(ps@.map_values(|x: u32| x as int)[0] == ps@[0] as int);
        assert(ps@.map_values(|x: u32| x as int)[1] == ps@[1] as int);
        assert(pe@.map_values(|x: u32| x as int)[0] == pe@[0] as int);
        assert(pe@.map_values(|x: u32| x as int)[1] == pe@[1] as int);
    }
    if start > end {
        current >= start || current <= end
    } else {
        current >= start && current <= end
    }
}

/// What the schedule decided and why: the resolved theme id and variant,
/// the reason tag, the matched holiday if any, and the next scheduled
/// variant change.
#[derive(Debug, Clone)]
pub struct ScheduleEvaluation {
    pub theme_id: String,
    pub variant: String,
    pub reason: String,
    pub holiday: Option<String>,
    pub next_change: Option<String>,
    pub next_change_type: Option<String>,
}

/// The theme id an optional entry resolves to: the entry itself, or the
/// empty string when unset.
pub open spec fn spec_or_empty(o: Option<String>) -> Seq<char> {
    match o {
        Some(s) => s@,
        None => Seq::empty(),
    }
}

/// The index of the first holiday in the list that matches the date.
fn find_holiday(holidays: &Vec<Holiday>, date: &CivilDate) -> (r: Option<usize>)
    requires
        date.wf(),
    ensures
        ({
            let y = date.year as int;
            let m = date.month as int;
            let d = date.day as int;
            match r {
                Some(k) => 0 <= k < holidays@.len() && spec_holiday_matches(
                    y,
                    m,
                    d,
                    holidays@[k as int],
                ) && forall|j: int| 0 <= j < k ==> !spec_holiday_matches(y, m, d, holidays@[j]),
                None => forall|j: int|
                    0 <= j < holidays@.len() ==> !spec_holiday_matches(y, m, d, holidays@[j]),
            }
        }),
{
    let mut i: usize = 0;
    while i < holidays.len()
        invariant
            i <= holidays@.len(),
            date.wf(),
            forall|j: int|
                0 <= j < i ==> !spec_holiday_matches(
                    date.year as int,
                    date.month as int,
                    date.day as int,
                    holidays@[j],
                ),
        decreases holidays@.len() - i,
    {
        if is_date_in_holiday(date, &holidays[i]) {
            return Some(i);
        }
        i += 1;
    }
    None
}

/// Decide which theme and variant should be active at the given moment.
///
/// Theme selection is a strict first-match cascade: `fixed` mode forces the
/// fixed theme and ignores every holiday; otherwise the first enabled,
/// matching holiday in list order wins; otherwise the monthly table decides.
/// Variant selection is independent: with day/night switching on, the
/// offset-adjusted daytime window of the date decides; otherwise the fixed
/// variant, defaulting to day. The next change is only reported while
/// day/night switching is on.
pub fn evaluate_schedule(schedule: &ThemeSchedule, date: &CivilDate, now_utc_mm: i64,
    tz_offset_minutes: i64) -> (r: ScheduleEvaluation)
    requires
        schedule.wf(),
        date.wf(),
        -1440 < tz_offset_minutes < 1440,
    ensures
        ({
            let y = date.year as int;
            let m = date.month as int;
            let d = date.day as int;
            let hs = schedule.holidays@;
            &&& (schedule.default_mode@ == "fixed"@ ==> {
                &&& r.theme_id@ == spec_or_empty(schedule.fixed_theme)
                &&& r.reason@ == "fixed"@
                &&& r.holiday is None
            })
            &&& (schedule.default_mode@ != "fixed"@ && (exists|i: int|
                0 <= i < hs.len() && spec_holiday_matches(y, m, d, hs[i])) ==> exists|i: int|
                {
                    &&& 0 <= i < hs.len()
                    &&& spec_holiday_matches(y, m, d, hs[i])
                    &&& forall|j: int| 0 <= j < i ==> !spec_holiday_matches(y, m, d, hs[j])
                    &&& r.theme_id@ == hs[i].theme@
                    &&& r.reason@ == "holiday"@
                    &&& r.holiday matches Some(n) && n@ == hs[i].name@
                })
            &&& (schedule.default_mode@ != "fixed"@ && (forall|i: int|
                0 <= i < hs.len() ==> !spec_holiday_matches(y, m, d, hs[i])) ==> {
                &&& r.theme_id@ == (match spec_monthly_get(schedule.monthly, m) {
                    Some(t) => t,
                    None => Seq::<char>::empty(),
                })
                &&& r.reason@ == "monthly"@
                &&& r.holiday is None
            })
            &&& ({
                let jd = spec_julian_micro(y, m, d);
                let lat = schedule.location.latitude_udeg as int;
                let lon = schedule.location.longitude_udeg as int;
                let day_now = spec_micro_minutes(spec_sunrise(jd, lat, lon))
                    + schedule.sunrise_offset * 1_000_000 <= now_utc_mm < spec_micro_minutes(
                    spec_sunset(jd, lat, lon),
                ) + schedule.sunset_offset * 1_000_000;
                if schedule.day_night_enabled {
                    r.variant@ == (if day_now {
                        "day"@
                    } else {
                        "night"@
                    })
                } else {
                    r.variant@ == (match schedule.fixed_variant {
                        Some(v) => v@,
                        None => "day"@,
                    })
                }
            })
            &&& (schedule.day_night_enabled ==> {
                &&& r.next_change matches Some(nc) && nc@ == spec_next_transition(
                    spec_julian_micro(y, m, d),
                    schedule.location.latitude_udeg as int,
                    schedule.location.longitude_udeg as int,
                    schedule.sunrise_offset as int,
                    schedule.sunset_offset as int,
                    now_utc_mm as int,
                    tz_offset_minutes as int,
                ).0
                &&& r.next_change_type matches Some(t) && t@ == "variant"@
            })
            &&& (!schedule.day_night_enabled ==> r.next_change is None && r.next_change_type
                is None)
        }),
{
    let ghost y = date.year as int;
    let ghost m = date.month as int;
    let ghost d = date.day as int;
    let (theme_id, reason, holiday_name): (String, String, Option<String>) = if string_eq_str(
        &schedule.default_mode,
        "fixed",
    ) {
        let t: String = match &schedule.fixed_theme {
            Some(t) => t.clone(),
            None => String::new(),
        };
        (t, String::from_str("fixed"), None)
    } else {
        let found: Option<usize> = find_holiday(&schedule.holidays, date);
        match found {
            Some(idx) => {
                let h = &schedule.holidays[idx];
                (h.theme.clone(), String::from_str("holiday"), Some(h.name.clone()))
            },
            None => {
                let monthly_theme: String = match schedule.monthly.get(date.month as u32) {
                    Some(t) => t.clone(),
                    None => String::new(),
                };
                (monthly_theme, String::from_str("monthly"), None)
            },
        }
    };
    let variant: String = if schedule.day_night_enabled {
        if is_daytime(
            &schedule.location,
            schedule.sunrise_offset,
            schedule.sunset_offset,
            date,
            now_utc_mm,
        ) {
            String::from_str("day")
        } else {
            String::from_str("night")
        }
    } else {
        match &schedule.fixed_variant {
            Some(v) => v.clone(),
            None => String::from_str("day"),
        }
    };
    let (next_change, next_change_type): (Option<String>, Option<String>) =
        if schedule.day_night_enabled {
        let (next_time, _to_day) = get_next_transition(
            &schedule.location,
            schedule.sunrise_offset,
            schedule.sunset_offset,
            date,
            now_utc_mm,
            tz_offset_minutes,
        );
        (Some(next_time), Some(String::from_str("variant")))
    } else {
        (None, None)
    };
    ScheduleEvaluation { theme_id, variant, reason, holiday: holiday_name, next_change,
        next_change_type }
}


} // verus!
