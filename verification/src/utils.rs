//! Utilities: time-to-live markers, identifier generation, and timestamp
//! formatting.
//!
//! A time-to-live marker has the format `Nw`, `Nd`, `Nh` or `Nm`, where `N`
//! is an integer and the letters mean weeks, days, hours and minutes.
//! Timestamps are kept as unix seconds while computing and rendered as
//! `YYYY-MM-DDThh:mm:00` strings on the entities.

use vstd::prelude::*;
use vstd::string::*;

verus! {

/// Least unix timestamp the `time` crate can represent (year -9999).
pub const MIN_TIMESTAMP: i64 = -377705116800;

/// Greatest unix timestamp the `time` crate can represent (year 9999).
pub const MAX_TIMESTAMP: i64 = 253402300799;

/// Whether an instant lies in the range that can be rendered as a timestamp
/// string.
pub open spec fn in_timestamp_range(t: int) -> bool {
    MIN_TIMESTAMP <= t <= MAX_TIMESTAMP
}

/// The characters of a unix timestamp rendered as `YYYY-MM-DDThh:mm:00`
/// (seconds are always printed as zero).
pub uninterp spec fn fmt_of(secs: i64) -> Seq<char>;

/// The unix timestamp read from characters shaped `YYYY-MM-DDThh:mm:ss`,
/// taken as UTC, or `None` where they do not parse.
pub uninterp spec fn ts_of(s: Seq<char>) -> Option<i64>;

/// Relies on `uuid::Uuid::new_v4` and its `Display` form: the hyphenated
/// rendering is always 36 characters. The value is random, so nothing more
/// is promised.
#[verifier::external_body]
pub fn uuid() -> (r: String)
    ensures
        r@.len() == 36,
{
    uuid::Uuid::new_v4().to_string()
}

/// Relies on `time::OffsetDateTime::now_utc` and `unix_timestamp`: every
/// `OffsetDateTime` lies between year -9999 and year 9999, so its timestamp
/// is in range.
#[verifier::external_body]
pub fn now_unix_seconds() -> (r: i64)
    ensures
        in_timestamp_range(r as int),
{
    time::OffsetDateTime::now_utc().unix_timestamp()
}

/// Relies on `time::OffsetDateTime::from_unix_timestamp`, which succeeds
/// exactly on the representable range, and on `OffsetDateTime::format` with
/// the description `[year]-[month]-[day]T[hour]:[minute]:00`, which renders
/// every in-range instant.
#[verifier::external_body]
pub fn format_timestamp(secs: i64) -> (r: Option<String>)
    ensures
        r is Some <==> in_timestamp_range(secs as int),
        r matches Some(s) ==> s@ == fmt_of(secs),
{
    let desc = match time::format_description::parse("[year]-[month]-[day]T[hour]:[minute]:00") {
        Ok(d) => d,
        Err(_) => return None,
    };
    match time::OffsetDateTime::from_unix_timestamp(secs) {
        Ok(instant) => instant.format(&desc).ok(),
        Err(_) => None,
    }
}

/// Relies on `time::PrimitiveDateTime::parse` with the description
/// `[year]-[month]-[day]T[hour]:[minute]:[second]`, on `assume_utc` and on
/// `unix_timestamp`: the outcome is a function of the characters alone.
#[verifier::external_body]
pub fn parse_timestamp(s: &str) -> (r: Option<i64>)
    ensures
        r == ts_of(s@),
{
    let desc = match time::format_description::parse("[year]-[month]-[day]T[hour]:[minute]:[second]") {
        Ok(d) => d,
        Err(_) => return None,
    };
    match time::PrimitiveDateTime::parse(s, &desc) {
        Ok(stamp) => Some(stamp.assume_utc().unix_timestamp()),
        Err(_) => None,
    }
}

/// The position of the first occurrence of a character, or `None` where the
/// character does not occur.
pub open spec fn spec_find_char(s: Seq<char>, c: char) -> Option<int>
    decreases s.len(),
{
    if s.len() == 0 {
        None
    } else if s[0] == c {
        Some(0)
    } else {
        match spec_find_char(s.subrange(1, s.len() as int), c) {
            Some(i) => Some(i + 1),
            None => None,
        }
    }
}

/// What a found position means: the character stands there and nowhere
/// earlier; `None` means the character stands nowhere.
pub proof fn lemma_find_char_props(s: Seq<char>, c: char)
    ensures
        spec_find_char(s, c) matches Some(i) ==> 0 <= i < s.len() && s[i] == c && (forall|k: int|
            0 <= k < i ==> s[k] != c),
        spec_find_char(s, c) is None ==> forall|k: int| 0 <= k < s.len() ==> s[k] != c,
    decreases s.len(),
{
    if s.len() > 0 && s[0] != c {
        let tail = s.subrange(1, s.len() as int);
        lemma_find_char_props(tail, c);
        match spec_find_char(tail, c) {
            Some(j) => {
                assert(s[j + 1] == tail[j]);
                assert(forall|k: int| 0 <= k < j + 1 ==> s[k] != c) by {
                    assert(forall|k: int| 1 <= k < j + 1 ==> s[k] == tail[k - 1]);
                }
            },
            None => {
                assert(forall|k: int| 0 <= k < s.len() ==> s[k] != c) by {
                    assert(forall|k: int| 1 <= k < s.len() ==> s[k] == tail[k - 1]);
                }
            },
        }
    }
}

pub(crate) proof fn lemma_find_char_at(s: Seq<char>, c: char, i: int)
    requires
        0 <= i < s.len(),
        s[i] == c,
        forall|k: int| 0 <= k < i ==> s[k] != c,
    ensures
        spec_find_char(s, c) == Some(i),
    decreases i,
{
    if i > 0 {
        let tail = s.subrange(1, s.len() as int);
        assert(tail[i - 1] == s[i as int]);
        assert(forall|k: int| 0 <= k < i - 1 ==> tail[k] == s[k + 1]);
        lemma_find_char_at(tail, c, i - 1);
    }
}

pub(crate) proof fn lemma_find_char_none(s: Seq<char>, c: char)
    requires
        forall|k: int| 0 <= k < s.len() ==> s[k] != c,
    ensures
        spec_find_char(s, c) is None,
    decreases s.len(),
{
    if s.len() > 0 {
        let tail = s.subrange(1, s.len() as int);
        assert(forall|k: int| 0 <= k < tail.len() ==> tail[k] == s[k + 1]);
        lemma_find_char_none(tail, c);
    }
}

/// Finds the first occurrence of a character at or after position `from`,
/// returning its position, or the character count where it does not occur.
pub(crate) fn find_char_from(s: &str, from: usize, c: char) -> (r: usize)
    requires
        from as int <= s@.len(),
    ensures
        from <= r <= s@.len(),
        r < s@.len() ==> spec_find_char(s@.subrange(from as int, s@.len() as int), c) == Some(
            r - from,
        ) && s@[r as int] == c,
        r == s@.len() ==> spec_find_char(s@.subrange(from as int, s@.len() as int), c) is None,
{
    let n = s.unicode_len();
    let mut i = from;
    while i < n
        invariant
            from <= i <= n,
            n == s@.len(),
            forall|k: int| from <= k < i ==> s@[k] != c,
        decreases n - i,
    {
        if s.get_char(i) == c {
            proof {
                let sub = s@.subrange(from as int, n as int);
                assert(sub[i - from] == s@[i as int]);
                assert(forall|k: int| 0 <= k < i - from ==> sub[k] == s@[k + from]);
                lemma_find_char_at(sub, c, i - from);
            }
            return i;
        }
        i += 1;
    }
    proof {
        let sub = s@.subrange(from as int, n as int);
        assert(forall|k: int| 0 <= k < sub.len() ==> sub[k] == s@[k + from]);
        lemma_find_char_none(sub, c);
    }
    n
}

/// Whether a character is a decimal digit.
pub open spec fn is_digit(c: char) -> bool {
    48 <= c as u32 && c as u32 <= 57
}

/// The numeric value of a decimal digit.
pub open spec fn digit_val(c: char) -> int {
    c as u32 - 48
}

/// Whether every character of a sequence is a decimal digit.
pub open spec fn all_digits(s: Seq<char>) -> bool {
    forall|i: int| 0 <= i < s.len() ==> is_digit(#[trigger] s[i])
}

/// The integer denoted by a sequence of decimal digits, most significant
/// first.
pub open spec fn digits_val(s: Seq<char>) -> int
    decreases s.len(),
{
    if s.len() == 0 {
        0
    } else {
        10 * digits_val(s.drop_last()) + digit_val(s.last())
    }
}

/// The `i64` denoted by a string in the syntax `i64::from_str` accepts: an
/// optional sign, then at least one decimal digit, and a value within the
/// type's range.
pub open spec fn spec_parse_i64(s: Seq<char>) -> Option<i64> {
    let signed = s.len() > 0 && (s[0] == '-' || s[0] == '+');
    let neg = s.len() > 0 && s[0] == '-';
    let ds = if signed {
        s.subrange(1, s.len() as int)
    } else {
        s
    };
    if ds.len() == 0 || !all_digits(ds) {
        None
    } else {
        let v = if neg {
            -digits_val(ds)
        } else {
            digits_val(ds)
        };
        if i64::MIN <= v <= i64::MAX {
            Some(v as i64)
        } else {
            None
        }
    }
}

/// Minutes per unit letter: `w` weeks, `d` days, `h` hours, `m` minutes.
pub open spec fn spec_unit_factor(c: char) -> Option<i64> {
    if c == 'w' {
        Some(10080i64)
    } else if c == 'd' {
        Some(1440i64)
    } else if c == 'h' {
        Some(60i64)
    } else if c == 'm' {
        Some(1i64)
    } else {
        None
    }
}

/// The minutes denoted by a time-to-live marker: the integer prefix times
/// the unit factor of the last character. `None` where the marker is shorter
/// than two characters, the prefix is not an `i64`, the unit letter is
/// unknown, or the product leaves the range of `i64`.
pub open spec fn spec_ttl_to_minutes(s: Seq<char>) -> Option<i64> {
    if s.len() < 2 {
        None
    } else {
        match spec_parse_i64(s.subrange(0, s.len() - 1)) {
            Some(n) => match spec_unit_factor(s.last()) {
                Some(f) => if i64::MIN <= n * f <= i64::MAX {
                    Some((n * f) as i64)
                } else {
                    None
                },
                None => None,
            },
            None => None,
        }
    }
}

/// A time-to-live marker shorter than two characters, or whose prefix is not
/// an integer, or whose unit letter is unknown, never yields minutes.
pub proof fn lemma_ttl_rejections(s: Seq<char>)
    ensures
        s.len() < 2 ==> spec_ttl_to_minutes(s) is None,
        s.len() >= 2 && spec_parse_i64(s.subrange(0, s.len() - 1)) is None ==> spec_ttl_to_minutes(
            s,
        ) is None,
        s.len() >= 2 && spec_unit_factor(s.last()) is None ==> spec_ttl_to_minutes(s) is None,
{
}

proof fn lemma_digits_val_nonneg(s: Seq<char>)
    requires
        all_digits(s),
    ensures
        digits_val(s) >= 0,
    decreases s.len(),
{
    if s.len() > 0 {
        assert(all_digits(s.drop_last()));
        lemma_digits_val_nonneg(s.drop_last());
    }
}

proof fn lemma_digits_val_prefix_le(s: Seq<char>, j: int)
    requires
        all_digits(s),
        0 <= j <= s.len(),
    ensures
        digits_val(s.subrange(0, j)) <= digits_val(s),
    decreases s.len() - j,
{
    if j == s.len() {
        assert(s.subrange(0, j) =~= s);
    } else {
        lemma_digits_val_prefix_le(s, j + 1);
        let longer = s.subrange(0, j + 1);
        assert(longer.drop_last() =~= s.subrange(0, j));
        assert(all_digits(s.subrange(0, j)));
        lemma_digits_val_nonneg(s.subrange(0, j));
    }
}

/// Reads an `i64` from a string exactly as `i64::from_str` would: an
/// optional `+` or `-`, then at least one decimal digit, rejecting values
/// out of range.
pub(crate) fn parse_i64(s: &str) -> (r: Option<i64>)
    ensures
        r == spec_parse_i64(s@),
{
    let n = s.unicode_len();
    if n == 0 {
        return None;
    }
    let first = s.get_char(0);
    let neg = first == '-';
    let start: usize = if first == '-' || first == '+' {
        1
    } else {
        0
    };
    let ghost ds: Seq<char> = s@.subrange(start as int, n as int);
    proof {
        if start == 0 {
            assert(ds =~= s@);
        }
    }
    if start == n {
        return None;
    }
    let limit: u64 = if neg {
        9223372036854775808
    } else {
        9223372036854775807
    };
    let mut acc: u64 = 0;
    let mut i = start;
    while i < n
        invariant
            start <= i <= n,
            start <= 1,
            n == s@.len(),
            start == 1 <==> (s@[0] == '-' || s@[0] == '+'),
            neg <==> s@[0] == '-',
            ds == s@.subrange(start as int, n as int),
            all_digits(s@.subrange(start as int, i as int)),
            acc as int == digits_val(s@.subrange(start as int, i as int)),
            acc <= limit,
            limit == if neg {
                9223372036854775808u64
            } else {
                9223372036854775807u64
            },
        decreases n - i,
    {
        let c = s.get_char(i);
        let u = c as u32;
        if u < 48 || 57 < u {
            proof {
                if start == 0 {
                    assert(ds =~= s@);
                }
                assert(ds[i - start] == s@[i as int]);
                assert(!all_digits(ds));
            }
            return None;
        }
        let d = (u - 48) as u64;
        let cap = limit / 10;
        if acc > cap || (acc == cap && d > limit % 10) {
            proof {
                let here = s@.subrange(start as int, i + 1);
                assert(here.drop_last() =~= s@.subrange(start as int, i as int));
                assert(here.last() == s@[i as int]);
                assert(digits_val(here) == 10 * (acc as int) + d as int);
                assert(digits_val(here) > limit as int);
                if start == 0 {
                    assert(ds =~= s@);
                }
                if all_digits(ds) {
                    assert(here =~= ds.subrange(0, i + 1 - start));
                    lemma_digits_val_prefix_le(ds, i + 1 - start);
                    assert(digits_val(ds) > limit as int);
                    if neg {
                        assert(!(i64::MIN <= -digits_val(ds) <= i64::MAX));
                    } else {
                        assert(!(i64::MIN <= digits_val(ds) <= i64::MAX));
                    }
                }
            }
            return None;
        }
        proof {
            let here = s@.subrange(start as int, i + 1);
            assert(here.drop_last() =~= s@.subrange(start as int, i as int));
            assert(here.last() == s@[i as int]);
        }
        acc = acc * 10 + d;
        i += 1;
    }
    proof {
        assert(s@.subrange(start as int, i as int) =~= ds);
        if start == 0 {
            assert(ds =~= s@);
        }
    }
    if neg {
        if acc == 9223372036854775808 {
            Some(i64::MIN)
        } else {
            Some(-(acc as i64))
        }
    } else {
        Some(acc as i64)
    }
}

/// Multiplies a parsed prefix by a unit factor, rejecting products that
/// leave the range of `i64`.
fn scale_minutes(num: i64, factor: i64) -> (r: Option<i64>)
    requires
        1 <= factor <= 10080,
    ensures
        r == (if i64::MIN <= num * factor <= i64::MAX {
            Some((num * factor) as i64)
        } else {
            None::<i64>
        }),
{
    proof {
        assert((num as int) * (factor as int) <= 9223372036854775807int * 10080
            && (num as int) * (factor as int) >= (-9223372036854775808int) * 10080)
            by (nonlinear_arith)
            requires
                -9223372036854775808int <= num as int <= 9223372036854775807int,
                1 <= factor as int <= 10080,
        ;
    }
    let prod: i128 = (num as i128) * (factor as i128);
    if prod < i64::MIN as i128 || (i64::MAX as i128) < prod {
        None
    } else {
        Some(prod as i64)
    }
}

/// Converts a time-to-live marker into minutes, or `None` where the marker
/// does not denote a duration.
pub fn ttl_to_minutes(ttl: &str) -> (r: Option<i64>)
    ensures
        r == spec_ttl_to_minutes(ttl@),
{
    let n = ttl.unicode_len();
    if n < 2 {
        return None;
    }
    let marker = ttl.get_char(n - 1);
    let prefix = ttl.substring_char(0, n - 1);
    proof {
        assert(prefix@ =~= ttl@.subrange(0, ttl@.len() - 1));
    }
    match parse_i64(prefix) {
        None => None,
        Some(num) => {
            if marker == 'w' {
                scale_minutes(num, 10080)
            } else if marker == 'd' {
                scale_minutes(num, 1440)
            } else if marker == 'h' {
                scale_minutes(num, 60)
            } else if marker == 'm' {
                proof {
                    assert(num * 1 == num);
                }
                Some(num)
            } else {
                None
            }
        },
    }
}

/// What the creation and expiration strings of a note made at `now` hold:
/// the creation instant rendered, and, where the marker denotes minutes and
/// the expiration instant stays representable, that instant rendered.
pub open spec fn spec_expiration(ttl: Seq<char>, now: i64) -> Option<Seq<char>> {
    match spec_ttl_to_minutes(ttl) {
        Some(m) => {
            let e = now + m * 60;
            if in_timestamp_range(e) {
                Some(fmt_of(e as i64))
            } else {
                None
            }
        },
        None => None,
    }
}

/// Renders the creation timestamp for the instant `now` and, where the
/// time-to-live marker denotes minutes, the expiration timestamp `now`
/// plus those minutes. An expiration that leaves the representable range
/// yields no expiration string.
pub fn create_and_expiration_date_time_at(ttl: &str, now: i64) -> (r: (String, Option<String>))
    requires
        in_timestamp_range(now as int),
    ensures
        r.0@ == fmt_of(now),
        r.1.deep_view() == spec_expiration(ttl@, now),
{
    let created = format_timestamp(now).unwrap();
    let expires = match ttl_to_minutes(ttl) {
        Some(m) => {
            let e128: i128 = (now as i128) + (m as i128) * 60;
            if (MIN_TIMESTAMP as i128) <= e128 && e128 <= (MAX_TIMESTAMP as i128) {
                Some(format_timestamp(e128 as i64).unwrap())
            } else {
                None
            }
        },
        None => None,
    };
    (created, expires)
}

/// Returns the current UTC date and time, and the optional expiration date
/// and time computed from the time-to-live marker, both rendered as
/// `YYYY-MM-DDThh:mm:00` strings.
pub fn create_and_expiration_date_time(ttl: &str) -> (r: (String, Option<String>))
    ensures
        exists|now: i64|
            in_timestamp_range(now as int) && r.0@ == #[trigger] fmt_of(now) && r.1.deep_view()
                == spec_expiration(ttl@, now),
{
    let now = now_unix_seconds();
    let r = create_and_expiration_date_time_at(ttl, now);
    proof {
        assert(in_timestamp_range(now as int) && r.0@ == fmt_of(now) && r.1.deep_view()
            == spec_expiration(ttl@, now));
    }
    r
}

} // verus!
