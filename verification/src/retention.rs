//! How long automatic cleanup keeps snapshots.

use crate::text::{
    chars_of, decimal, decimal_text, parse_number, parsed_number, push_decimal, str_eq, text_of,
    trim, trimmed, push_signed, signed_decimal,
};
use vstd::prelude::*;

verus! {

/// Default count for `CleanupRetention::Count` when no retention is configured.
pub const DEFAULT_AUTO_CLEANUP_KEEP_COUNT: u32 = 20;

/// The longest duration, in seconds: what a signed 64-bit count of seconds can hold.
pub const MAX_DURATION_SECS: u64 = 0x7fff_ffff_ffff_ffff;

/// Whether `c` is an ASCII letter.
pub open spec fn is_ascii_letter(c: char) -> bool {
    'a' <= c <= 'z' || 'A' <= c <= 'Z'
}

/// An ASCII letter in lower case; any other character unchanged.
pub open spec fn ascii_lower(c: char) -> char {
    if 'A' <= c <= 'Z' {
        (c as u8 + 32) as u8 as char
    } else {
        c
    }
}

/// The seconds in one unit: `s`, `m`, `h`, `d` or `w`.
pub open spec fn unit_secs(unit: char) -> Option<nat> {
    if unit == 's' {
        Some(1)
    } else if unit == 'm' {
        Some(60)
    } else if unit == 'h' {
        Some(3600)
    } else if unit == 'd' {
        Some(86400)
    } else if unit == 'w' {
        Some(604800)
    } else {
        None
    }
}

/// The seconds that a duration text denotes, or the message that rejects it. The text is,
/// white space around it aside, an unsigned number and a unit letter of either case.
pub open spec fn duration_secs(text: Seq<char>) -> Result<nat, Seq<char>> {
    let s = trimmed(text);
    let num = s.drop_last();
    let unit = ascii_lower(s.last());
    if s.len() == 0 {
        Err("empty duration"@)
    } else if !is_ascii_letter(s.last()) {
        Err("duration '"@ + s + "' missing unit suffix (s/m/h/d/w)"@)
    } else if parsed_number(num, u64::MAX as nat) is None {
        Err("duration '"@ + s + "': invalid number '"@ + num + "'"@)
    } else if unit_secs(unit) is None {
        Err("duration '"@ + s + "': invalid unit '"@ + seq![unit] + "' (expected s/m/h/d/w)"@)
    } else {
        let secs = parsed_number(num, u64::MAX as nat)->0 * unit_secs(unit)->0;
        if secs > MAX_DURATION_SECS {
            Err(
                "duration '"@ + s
                    + "' too large (max supported is 9223372036854775807 seconds \u{2248} 292471208677 years)"@,
            )
        } else {
            Ok(secs)
        }
    }
}

fn lower(c: char) -> (r: char)
    ensures
        r == ascii_lower(c),
{
    if 'A' <= c && c <= 'Z' {
        (c as u8 + 32) as char
    } else {
        c
    }
}

fn quoted_duration(s: &str) -> (r: String)
    ensures
        r@ == "duration '"@ + s@,
{
    let mut m = "duration '".to_owned();
    m.append(s);
    m
}

/// Parses a duration like `30d`, `2w`, `3600s`, `5m` or `12h` into seconds. A bare number
/// without a unit is rejected.
pub fn parse_duration_secs(s: &str) -> (r: Result<u64, String>)
    ensures
        match r {
            Ok(secs) => duration_secs(s@) == Ok::<nat, Seq<char>>(secs as nat),
            Err(e) => duration_secs(s@) == Err::<nat, Seq<char>>(e@),
        },
{
    let t = trim(s);
    if t.as_str().is_empty() {
        return Err("empty duration".to_owned());
    }
    let v = chars_of(t.as_str());
    let last = v[v.len() - 1];
    if !(('a' <= last && last <= 'z') || ('A' <= last && last <= 'Z')) {
        let mut m = quoted_duration(t.as_str());
        m.append("' missing unit suffix (s/m/h/d/w)");
        return Err(m);
    }
    let num = text_of(&v, 0, v.len() - 1);
    proof {
        assert(num@ =~= t@.drop_last());
    }
    let n: u64 = match parse_number(num.as_str(), u64::MAX) {
        Some(n) => n,
        None => {
            let mut m = quoted_duration(t.as_str());
            m.append("': invalid number '");
            m.append(num.as_str());
            m.append("'");
            return Err(m);
        },
    };
    let unit = lower(last);
    let scale: u64 = match unit {
        's' => 1,
        'm' => 60,
        'h' => 3600,
        'd' => 86400,
        'w' => 604800,
        _ => {
            let mut m = quoted_duration(t.as_str());
            m.append("': invalid unit '");
            let ghost m1 = m@;
            m.push(unit);
            proof {
                assert(m@ =~= m1 + seq![unit]);
            }
            m.append("' (expected s/m/h/d/w)");
            return Err(m);
        },
    };
    match n.checked_mul(scale) {
        Some(secs) if secs <= MAX_DURATION_SECS => Ok(secs),
        _ => {
            let mut m = quoted_duration(t.as_str());
            m.append(
                "' too large (max supported is 9223372036854775807 seconds \u{2248} 292471208677 years)",
            );
            Err(m)
        },
    }
}

/// What a retention says.
pub enum RetentionView {
    Count(u32),
    Age { raw: Seq<char>, secs: u64 },
}

/// Auto-cleanup retention, one of two modes: keep the `N` most recent unpinned snapshots, or
/// keep unpinned snapshots no older than a duration. `raw` is the duration as the user wrote
/// it, and `secs` what it denotes.
#[derive(Debug, PartialEq)]
pub enum CleanupRetention {
    /// Count mode: keep that many unpinned snapshots (0 disables cleanup).
    Count(u32),
    /// Age mode: keep snapshots within `secs` seconds.
    Age { raw: String, secs: u64 },
}

impl View for CleanupRetention {
    type V = RetentionView;

    open spec fn view(&self) -> RetentionView {
        match self {
            CleanupRetention::Count(n) => RetentionView::Count(*n),
            CleanupRetention::Age { raw, secs } => RetentionView::Age { raw: raw@, secs: *secs },
        }
    }
}

impl RetentionView {
    /// In age mode the seconds are what the text denotes.
    pub open spec fn wf(self) -> bool {
        self matches RetentionView::Age { raw, secs } ==> duration_secs(raw) == Ok::<
            nat,
            Seq<char>,
        >(secs as nat)
    }

    /// Whether nothing is to be cleaned up: a count of zero or a duration of zero seconds.
    pub open spec fn is_disabled(self) -> bool {
        match self {
            RetentionView::Count(n) => n == 0,
            RetentionView::Age { secs, .. } => secs == 0,
        }
    }

    /// The retention as it is displayed: the count, or the duration in double quotes.
    pub open spec fn text(self) -> Seq<char> {
        match self {
            RetentionView::Count(n) => decimal(n as nat),
            RetentionView::Age { raw, .. } => "\""@ + raw + "\""@,
        }
    }
}

impl Clone for CleanupRetention {
    fn clone(&self) -> (r: Self)
        ensures
            r == *self,
    {
        match self {
            CleanupRetention::Count(n) => CleanupRetention::Count(*n),
            CleanupRetention::Age { raw, secs } => CleanupRetention::Age {
                raw: raw.clone(),
                secs: *secs,
            },
        }
    }
}

/// The retention that a constructor gave, or the message it refused with.
pub open spec fn retention_is(
    r: Result<CleanupRetention, String>,
    expected: Result<RetentionView, Seq<char>>,
) -> bool {
    match r {
        Ok(v) => expected == Ok::<RetentionView, Seq<char>>(v@),
        Err(e) => expected == Err::<RetentionView, Seq<char>>(e@),
    }
}

/// The age retention of a duration text, or the message that rejects the text.
pub open spec fn age_retention(raw: Seq<char>) -> Result<RetentionView, Seq<char>> {
    match duration_secs(raw) {
        Ok(secs) => Ok(RetentionView::Age { raw, secs: secs as u64 }),
        Err(e) => Err(e),
    }
}

impl CleanupRetention {
    /// Constructs the age mode from a duration text, keeping the text and its seconds.
    pub fn age(raw: &str) -> (r: Result<Self, String>)
        ensures
            retention_is(r, age_retention(raw@)),
            r matches Ok(v) ==> v@.wf(),
    {
        match parse_duration_secs(raw) {
            Ok(secs) => Ok(CleanupRetention::Age { raw: raw.to_owned(), secs }),
            Err(e) => Err(e),
        }
    }

    /// Whether this retention disables auto-cleanup entirely.
    pub fn is_disabled(&self) -> (r: bool)
        ensures
            r == self@.is_disabled(),
    {
        match self {
            CleanupRetention::Count(n) => *n == 0,
            CleanupRetention::Age { secs, .. } => *secs == 0,
        }
    }

    /// The retention as it is displayed.
    pub fn to_text(&self) -> (r: String)
        ensures
            r@ == self@.text(),
    {
        match self {
            CleanupRetention::Count(n) => decimal_text(*n as u64),
            CleanupRetention::Age { raw, .. } => {
                let mut r = "\"".to_owned();
                r.append(raw.as_str());
                r.append("\"");
                r
            },
        }
    }

    /// Whether two retentions say the same.
    pub fn same(&self, other: &Self) -> (r: bool)
        ensures
            r == (self@ == other@),
    {
        match (self, other) {
            (CleanupRetention::Count(a), CleanupRetention::Count(b)) => *a == *b,
            (
                CleanupRetention::Age { raw: r1, secs: s1 },
                CleanupRetention::Age { raw: r2, secs: s2 },
            ) => str_eq(r1.as_str(), r2.as_str()) && *s1 == *s2,
            _ => false,
        }
    }

    /// Reads the retention from an unsigned configuration integer.
    pub fn from_unsigned(v: u64) -> (r: Result<Self, String>)
        ensures
            retention_is(
                r,
                if v <= u32::MAX {
                    Ok(RetentionView::Count(v as u32))
                } else {
                    Err("auto_cleanup_keep count "@ + decimal(v as nat) + " exceeds u32::MAX"@)
                },
            ),
    {
        if v > u32::MAX as u64 {
            let mut m = "auto_cleanup_keep count ".to_owned();
            push_decimal(&mut m, v);
            m.append(" exceeds u32::MAX");
            return Err(m);
        }
        Ok(CleanupRetention::Count(v as u32))
    }

    /// Reads the retention from a signed configuration integer.
    pub fn from_signed(v: i64) -> (r: Result<Self, String>)
        ensures
            retention_is(
                r,
                if 0 <= v <= u32::MAX {
                    Ok(RetentionView::Count(v as u32))
                } else {
                    Err("auto_cleanup_keep count "@ + signed_decimal(v as int) + " out of u32 range"@)
                },
            ),
    {
        if v < 0 || v > u32::MAX as i64 {
            let mut m = "auto_cleanup_keep count ".to_owned();
            push_signed(&mut m, v);
            m.append(" out of u32 range");
            return Err(m);
        }
        Ok(CleanupRetention::Count(v as u32))
    }

    /// Reads the retention from a configuration text, which is a duration.
    pub fn from_text(v: &str) -> (r: Result<Self, String>)
        ensures
            retention_is(
                r,
                match age_retention(v@) {
                    Ok(a) => Ok(a),
                    Err(e) => Err("auto_cleanup_keep age mode: "@ + e),
                },
            ),
            r matches Ok(x) ==> x@.wf(),
    {
        match CleanupRetention::age(v) {
            Ok(a) => Ok(a),
            Err(e) => {
                let mut m = "auto_cleanup_keep age mode: ".to_owned();
                m.append(e.as_str());
                Err(m)
            },
        }
    }
}

/// The retention used where none is configured: count mode, 20 snapshots.
pub fn default_auto_cleanup_keep() -> (r: CleanupRetention)
    ensures
        r@ == RetentionView::Count(DEFAULT_AUTO_CLEANUP_KEEP_COUNT),
{
    CleanupRetention::Count(DEFAULT_AUTO_CLEANUP_KEEP_COUNT)
}

/// Reads a retention from the command line: a number selects count mode, and any other text
/// is a duration.
pub fn parse_cleanup_retention(s: &str) -> (r: Result<CleanupRetention, String>)
    ensures
        retention_is(
            r,
            match parsed_number(s@, u32::MAX as nat) {
                Some(n) => Ok(RetentionView::Count(n as u32)),
                None => match age_retention(s@) {
                    Ok(a) => Ok(a),
                    Err(e) => Err("invalid value '"@ + s@ + "': "@ + e),
                },
            },
        ),
        r matches Ok(x) ==> x@.wf(),
{
    if let Some(n) = parse_number(s, u32::MAX as u64) {
        return Ok(CleanupRetention::Count(n as u32));
    }
    match CleanupRetention::age(s) {
        Ok(a) => Ok(a),
        Err(e) => {
            let mut m = "invalid value '".to_owned();
            m.append(s);
            m.append("': ");
            m.append(e.as_str());
            Err(m)
        },
    }
}

/// Displays a retention.
pub fn format_retention(r: &CleanupRetention) -> (text: String)
    ensures
        text@ == r@.text(),
{
    r.to_text()
}

/// Retention with an explicit mode tag, for consumers of JSON output.
#[derive(Debug, PartialEq)]
pub enum RetentionJson {
    Count { count: u32 },
    Age { raw: String, secs: u64 },
}

impl RetentionJson {
    /// The retention that the tagged form stands for.
    pub open spec fn stands_for(self) -> RetentionView {
        match self {
            RetentionJson::Count { count } => RetentionView::Count(count),
            RetentionJson::Age { raw, secs } => RetentionView::Age { raw: raw@, secs },
        }
    }
}

impl vstd::std_specs::convert::FromSpecImpl<&CleanupRetention> for RetentionJson {
    open spec fn obeys_from_spec() -> bool {
        true
    }

    open spec fn from_spec(r: &CleanupRetention) -> Self {
        match r {
            CleanupRetention::Count(n) => RetentionJson::Count { count: *n },
            CleanupRetention::Age { raw, secs } => RetentionJson::Age { raw: *raw, secs: *secs },
        }
    }
}

impl From<&CleanupRetention> for RetentionJson {
    fn from(r: &CleanupRetention) -> (j: Self) {
        match r {
            CleanupRetention::Count(n) => RetentionJson::Count { count: *n },
            CleanupRetention::Age { raw, secs } => RetentionJson::Age {
                raw: raw.clone(),
                secs: *secs,
            },
        }
    }
}

/// White space around a duration does not change what it denotes.
pub proof fn lemma_duration_ignores_surrounding_space(text: Seq<char>)
    ensures
        duration_secs(trimmed(text)) == duration_secs(text),
{
    crate::text::lemma_trim_is_idempotent(text);
}

/// A duration of `n` units, written in decimal, denotes `n` times the unit's seconds, as far
/// as that can be held.
pub proof fn lemma_duration_of_numeral(n: u64, unit: char)
    requires
        unit_secs(unit) is Some,
        n * unit_secs(unit)->0 <= MAX_DURATION_SECS,
    ensures
        duration_secs(decimal(n as nat).push(unit)) == Ok::<nat, Seq<char>>(
            (n * unit_secs(unit)->0) as nat,
        ),
{
    let d = decimal(n as nat);
    let s = d.push(unit);
    crate::text::lemma_decimal_reads_back(n as nat);
    assert(crate::text::is_digit(d[0]));
    assert(s[0] == d[0]);
    assert(trimmed(s) == s);
    assert(s.drop_last() =~= d);
}

} // verus!
