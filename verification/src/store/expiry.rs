//! Expiry of pre-auth keys. An expiry is an RFC 3339 timestamp in UTC, as
//! the protocol writes them (`2025-01-01T00:00:00Z`, optionally with a
//! fraction of a second); it is compared with the clock in whole seconds
//! since the Unix epoch.

use vstd::prelude::*;

verus! {

/// A decimal digit.
pub open spec fn is_digit(c: char) -> bool {
    '0' <= c && c <= '9'
}

/// The value of a decimal digit.
pub open spec fn digit_value(c: char) -> int {
    c as int - '0' as int
}

/// The number written by the two digits at `i` and `i + 1`.
pub open spec fn two_digits(s: Seq<char>, i: int) -> int {
    digit_value(s[i]) * 10 + digit_value(s[i + 1])
}

/// The number written by the four digits from `i` on.
pub open spec fn four_digits(s: Seq<char>, i: int) -> int {
    two_digits(s, i) * 100 + two_digits(s, i + 2)
}

/// Gregorian leap years.
pub open spec fn is_leap_year(y: int) -> bool {
    (y % 4 == 0 && y % 100 != 0) || y % 400 == 0
}

/// The number of days of month `m` (1 to 12) of year `y`.
pub open spec fn days_in_month(y: int, m: int) -> int {
    if m == 2 {
        if is_leap_year(y) {
            29
        } else {
            28
        }
    } else if m == 4 || m == 6 || m == 9 || m == 11 {
        30
    } else {
        31
    }
}

/// Days from 1970-01-01 to the first day of year `y` (from 1970 on).
pub open spec fn days_before_year(y: int) -> int
    decreases y - 1970,
{
    if y <= 1970 {
        0
    } else {
        days_before_year(y - 1) + if is_leap_year(y - 1) {
            366int
        } else {
            365int
        }
    }
}

/// Days from the first of January of year `y` to the first day of month `m`.
pub open spec fn days_before_month(y: int, m: int) -> int
    decreases m,
{
    if m <= 1 {
        0
    } else {
        days_before_month(y, m - 1) + days_in_month(y, m - 1)
    }
}

/// A position of `YYYY-MM-DDTHH:MM:SS` that holds a digit.
pub open spec fn digit_position(i: int) -> bool {
    0 <= i < 19 && i != 4 && i != 7 && i != 10 && i != 13 && i != 16
}

/// `YYYY-MM-DDTHH:MM:SS`, then `Z`, or a `.`, at least one digit and `Z`.
pub open spec fn timestamp_shape(s: Seq<char>) -> bool {
    &&& s.len() >= 20
    &&& forall|i: int| digit_position(i) ==> is_digit(#[trigger] s[i])
    &&& s[4] == '-' && s[7] == '-' && s[10] == 'T' && s[13] == ':' && s[16] == ':'
    &&& s[s.len() - 1] == 'Z'
    &&& s.len() == 20 || (s.len() >= 22 && s[19] == '.' && forall|i: int|
        20 <= i < s.len() - 1 ==> is_digit(#[trigger] s[i]))
}

/// Whether the date and time fields name a moment from 1970 on.
pub open spec fn timestamp_in_range(s: Seq<char>) -> bool {
    let (y, m, d) = (four_digits(s, 0), two_digits(s, 5), two_digits(s, 8));
    &&& y >= 1970
    &&& 1 <= m <= 12
    &&& 1 <= d <= days_in_month(y, m)
    &&& two_digits(s, 11) < 24
    &&& two_digits(s, 14) < 60
    &&& two_digits(s, 17) < 60
}

/// The whole seconds since the Unix epoch that a timestamp names (a fraction
/// of a second is dropped), or `None` where it is not such a timestamp.
pub open spec fn timestamp_seconds(s: Seq<char>) -> Option<int> {
    if timestamp_shape(s) && timestamp_in_range(s) {
        let (y, m, d) = (four_digits(s, 0), two_digits(s, 5), two_digits(s, 8));
        Some(
            (days_before_year(y) + days_before_month(y, m) + d - 1) * 86400 + two_digits(s, 11)
                * 3600 + two_digits(s, 14) * 60 + two_digits(s, 17),
        )
    } else {
        None
    }
}

/// Whether a key with this expiry is expired at `now`: its expiry is at or
/// before `now`. Only UTC timestamps ending in `Z` are read as expiries; any
/// other text (an RFC 3339 timestamp with a numeric offset among them)
/// counts as passed, so a key carrying it cannot be consumed.
pub open spec fn expired(expires_at: Option<Seq<char>>, now: u64) -> bool {
    match expires_at {
        None => false,
        Some(t) => match timestamp_seconds(t) {
            Some(secs) => secs <= now,
            None => true,
        },
    }
}

/// The digit at position `i`, if it is one.
fn digit_at(s: &str, i: usize) -> (r: Option<u64>)
    requires
        i < s@.len(),
    ensures
        match r {
            Some(v) => is_digit(s@[i as int]) && v == digit_value(s@[i as int]),
            None => !is_digit(s@[i as int]),
        },
{
    let c = s.get_char(i);
    if '0' <= c && c <= '9' {
        Some((c as u32 - '0' as u32) as u64)
    } else {
        None
    }
}

fn leap_year(y: u64) -> (r: bool)
    ensures
        r == is_leap_year(y as int),
{
    (y % 4 == 0 && y % 100 != 0) || y % 400 == 0
}

fn month_days(y: u64, m: u64) -> (r: u64)
    ensures
        r == days_in_month(y as int, m as int),
{
    if m == 2 {
        if leap_year(y) {
            29
        } else {
            28
        }
    } else if m == 4 || m == 6 || m == 9 || m == 11 {
        30
    } else {
        31
    }
}

fn year_start(y: u64) -> (r: u64)
    requires
        1970 <= y <= 9999,
    ensures
        r == days_before_year(y as int),
        r <= 366 * (y - 1970),
{
    let mut d: u64 = 0;
    let mut k: u64 = 1970;
    while k < y
        invariant
            1970 <= k <= y <= 9999,
            d == days_before_year(k as int),
            d <= 366 * (k - 1970),
        decreases y - k,
    {
        d = d + if leap_year(k) {
            366
        } else {
            365
        };
        k = k + 1;
    }
    d
}

fn month_start(y: u64, m: u64) -> (r: u64)
    requires
        1 <= m <= 12,
    ensures
        r == days_before_month(y as int, m as int),
        r <= 31 * (m - 1),
{
    let mut d: u64 = 0;
    let mut k: u64 = 1;
    while k < m
        invariant
            1 <= k <= m <= 12,
            d == days_before_month(y as int, k as int),
            d <= 31 * (k - 1),
        decreases m - k,
    {
        d = d + month_days(y, k);
        k = k + 1;
    }
    d
}

/// The whole seconds since the Unix epoch that an RFC 3339 UTC timestamp
/// names, or `None` where the text is not one (or lies before 1970).
pub fn timestamp_to_seconds(s: &str) -> (r: Option<u64>)
    ensures
        match r {
            Some(v) => timestamp_seconds(s@) == Some(v as int),
            None => timestamp_seconds(s@) is None,
        },
{
    let len = s.unicode_len();
    if len < 20 {
        return None;
    }
    let mut digits: Vec<u64> = Vec::new();
    let mut i: usize = 0;
    while i < 19
        invariant
            len == s@.len(),
            len >= 20,
            i <= 19,
            digits@.len() == i,
            forall|j: int| 0 <= j < i ==> #[trigger] digits@[j] <= 9,
            forall|j: int| 0 <= j < i && digit_position(j) ==> is_digit(#[trigger] s@[j])
                && digits@[j] == digit_value(s@[j]),
        decreases 19 - i,
    {
        if i == 4 || i == 7 || i == 10 || i == 13 || i == 16 {
            digits.push(0);
        } else {
            match digit_at(s, i) {
                Some(v) => digits.push(v),
                None => {
                    assert(digit_position(i as int));
                    return None;
                },
            }
        }
        i = i + 1;
    }
    if s.get_char(4) != '-' || s.get_char(7) != '-' || s.get_char(10) != 'T' || s.get_char(13)
        != ':' || s.get_char(16) != ':' || s.get_char(len - 1) != 'Z' {
        return None;
    }
    if len != 20 {
        if len < 22 || s.get_char(19) != '.' {
            return None;
        }
        let mut j: usize = 20;
        while j < len - 1
            invariant
                len == s@.len(),
                len >= 22,
                20 <= j <= len - 1,
                forall|k: int| 20 <= k < j ==> is_digit(#[trigger] s@[k]),
            decreases len - 1 - j,
        {
            if digit_at(s, j).is_none() {
                return None;
            }
            j = j + 1;
        }
    }
    proof {
        assert(timestamp_shape(s@));
        assert(digit_position(0) && digit_position(1) && digit_position(2) && digit_position(3));
        assert(digit_position(5) && digit_position(6) && digit_position(8) && digit_position(9));
        assert(digit_position(11) && digit_position(12) && digit_position(14) && digit_position(15));
        assert(digit_position(17) && digit_position(18));
    }
    let y = (digits[0] * 10 + digits[1]) * 100 + digits[2] * 10 + digits[3];
    let m = digits[5] * 10 + digits[6];
    let d = digits[8] * 10 + digits[9];
    let hh = digits[11] * 10 + digits[12];
    let mm = digits[14] * 10 + digits[15];
    let ss = digits[17] * 10 + digits[18];
    assert(y == four_digits(s@, 0));
    if y < 1970 || m < 1 || m > 12 || d < 1 || d > month_days(y, m) || hh >= 24 || mm >= 60 || ss
        >= 60 {
        return None;
    }
    let days = year_start(y) + month_start(y, m) + d - 1;
    Some(days * 86400 + hh * 3600 + mm * 60 + ss)
}

/// A fraction of a second, of any number of digits, does not change the
/// whole seconds a timestamp names: `d.fZ` names what `dZ` does.
pub proof fn lemma_fraction_is_dropped(d: Seq<char>, f: Seq<char>)
    requires
        d.len() == 19,
        f.len() >= 1,
        forall|i: int| 0 <= i < f.len() ==> is_digit(#[trigger] f[i]),
    ensures
        timestamp_seconds(d + seq!['.'] + f + seq!['Z']) == timestamp_seconds(d + seq!['Z']),
{
    let s1 = d + seq!['.'] + f + seq!['Z'];
    let s2 = d + seq!['Z'];
    assert forall|i: int| 0 <= i < 19 implies #[trigger] s1[i] == s2[i] by {
        assert(s1[i] == d[i]);
        assert(s2[i] == d[i]);
    }
    assert(s1[19] == '.');
    assert(s1[s1.len() - 1] == 'Z');
    assert(s2[s2.len() - 1] == 'Z');
    assert forall|i: int| 20 <= i < s1.len() - 1 implies is_digit(#[trigger] s1[i]) by {
        assert(s1[i] == f[i - 20]);
    }
    assert(s1.len() >= 22 && s2.len() == 20);
    assert(s1[4] == s2[4] && s1[7] == s2[7] && s1[10] == s2[10] && s1[13] == s2[13] && s1[16]
        == s2[16]);
    assert((forall|i: int| digit_position(i) ==> is_digit(#[trigger] s1[i])) <==> (forall|i: int|
        digit_position(i) ==> is_digit(#[trigger] s2[i]))) by {
        assert forall|i: int| digit_position(i) && is_digit(s2[i]) implies is_digit(#[trigger] s1[i]) by {
            assert(s1[i] == s2[i]);
        }
        assert forall|i: int| digit_position(i) && is_digit(s1[i]) implies is_digit(#[trigger] s2[i]) by {
            assert(s1[i] == s2[i]);
        }
    }
    assert(timestamp_shape(s1) == timestamp_shape(s2));
    assert(s1[0] == s2[0] && s1[1] == s2[1] && s1[2] == s2[2] && s1[3] == s2[3]);
    assert(s1[5] == s2[5] && s1[6] == s2[6] && s1[8] == s2[8] && s1[9] == s2[9]);
    assert(s1[11] == s2[11] && s1[12] == s2[12] && s1[14] == s2[14] && s1[15] == s2[15]);
    assert(s1[17] == s2[17] && s1[18] == s2[18]);
    assert(timestamp_in_range(s1) == timestamp_in_range(s2));
}

/// Once expired, a key stays expired: a later clock reading never revives it,
/// and a key without an expiry never expires.
pub proof fn lemma_expiry_is_final(expires_at: Option<Seq<char>>, now: u64, later: u64)
    requires
        now <= later,
    ensures
        expired(expires_at, now) ==> expired(expires_at, later),
        expires_at is None ==> !expired(expires_at, later),
{
}

/// Whether a key with this expiry is expired at `now`.
pub fn is_expired(expires_at: &Option<String>, now: u64) -> (r: bool)
    ensures
        r == expired(
            match expires_at {
                Some(t) => Some(t@),
                None => None,
            },
            now,
        ),
{
    match expires_at {
        None => false,
        Some(t) => match timestamp_to_seconds(t.as_str()) {
            Some(secs) => secs <= now,
            None => true,
        },
    }
}

/// `std::time::SystemTime::now`, as whole seconds since the Unix epoch, or
/// `None` where the clock is set before the epoch. Nothing is stated of the
/// value: it is the time at which the call is made.
#[verifier::external_body]
pub(crate) fn seconds_since_epoch() -> Option<u64> {
    match std::time::SystemTime::now().duration_since(std::time::UNIX_EPOCH) {
        Ok(elapsed) => Some(elapsed.as_secs()),
        Err(_) => None,
    }
}

} // verus!
