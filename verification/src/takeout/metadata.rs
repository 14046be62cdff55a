use vstd::prelude::*;
use vstd::string::StringExecFns;
use crate::datetime::{formatted, DateTime, MAX_TIMESTAMP, MIN_TIMESTAMP};
use crate::takeout::ParseError;
use crate::text::chars_of;

verus! {

/// Whether `c` is one of the ten digits.
pub open spec fn is_digit(c: char) -> bool {
    '0' <= c && c <= '9'
}

/// Whether `s` holds digits only.
pub open spec fn all_digits(s: Seq<char>) -> bool {
    forall|i: int| 0 <= i < s.len() ==> is_digit(#[trigger] s[i])
}

/// The number that the digits `s` write in base ten.
pub open spec fn digits_value(s: Seq<char>) -> int
    decreases s.len(),
{
    if s.len() == 0 {
        0
    } else {
        digits_value(s.drop_last()) * 10 + (s.last() as int - '0' as int)
    }
}

/// The digits of a number in base ten, without the sign that may stand before them.
pub open spec fn unsigned_part(s: Seq<char>) -> Seq<char> {
    if s.len() > 0 && (s[0] == '-' || s[0] == '+') {
        s.subrange(1, s.len() as int)
    } else {
        s
    }
}

/// The number that `s` writes in base ten: an optional `+` or `-` and then at least one
/// digit, nothing else. `None` where `s` is not of this form or the number does not fit
/// into 64 bits with a sign.
pub open spec fn decimal(s: Seq<char>) -> Option<int> {
    let body = unsigned_part(s);
    let value = if s.len() > 0 && s[0] == '-' {
        -digits_value(body)
    } else {
        digits_value(body)
    };
    if body.len() > 0 && all_digits(body) && i64::MIN <= value <= i64::MAX {
        Some(value)
    } else {
        None
    }
}

/// The value of digits is not negative, and more digits behind them do not make it
/// smaller.
pub proof fn lemma_digits_grow(s: Seq<char>, k: int)
    requires
        all_digits(s),
        0 <= k <= s.len(),
    ensures
        0 <= digits_value(s.take(k)) <= digits_value(s),
    decreases s.len() - k,
{
    lemma_digits_nonnegative(s.take(k));
    if k < s.len() {
        lemma_digits_grow(s, k + 1);
        assert(s.take(k + 1).drop_last() == s.take(k));
        assert(is_digit(s[k]));
        assert(s.take(k + 1).last() == s[k]);
    } else {
        assert(s.take(k) == s);
    }
}

/// The value of digits is not negative.
pub proof fn lemma_digits_nonnegative(s: Seq<char>)
    requires
        all_digits(s),
    ensures
        0 <= digits_value(s),
    decreases s.len(),
{
    if s.len() > 0 {
        assert(is_digit(s.last()));
        assert(all_digits(s.drop_last())) by {
            assert forall|i: int| 0 <= i < s.drop_last().len() implies is_digit(
                #[trigger] s.drop_last()[i],
            ) by {
                assert(s.drop_last()[i] == s[i]);
            }
        }
        lemma_digits_nonnegative(s.drop_last());
    }
}

/// Reads a number in base ten.
pub fn parse_i64(text: &str) -> (r: Option<i64>)
    ensures
        match r {
            Some(v) => decimal(text@) == Some(v as int),
            None => decimal(text@) is None,
        },
{
    let s = chars_of(text);
    let n = s.len();
    if n == 0 {
        return None;
    }
    let negative = s[0] == '-';
    let first: usize = if s[0] == '-' || s[0] == '+' {
        1
    } else {
        0
    };
    if first == n {
        return None;
    }
    let ghost body = unsigned_part(s@);
    assert(body == s@.subrange(first as int, n as int));
    let mut acc: i128 = 0;
    let mut i: usize = first;
    while i < n
        invariant
            first <= i <= n,
            n == s.len(),
            s@ == text@,
            body == unsigned_part(text@),
            body == s@.subrange(first as int, n as int),
            all_digits(body.take(i - first)),
            acc == digits_value(body.take(i - first)),
            0 <= acc <= 0x8000_0000_0000_0000,
        decreases n - i,
    {
        let c = s[i];
        assert(body[i - first] == c);
        if !('0' <= c && c <= '9') {
            return None;
        }
        let digit = (c as u8 - '0' as u8) as i128;
        let ghost more = body.take(i - first + 1);
        assert(more.drop_last() == body.take(i - first));
        assert(more.last() == c);
        assert(all_digits(more)) by {
            assert forall|j: int| 0 <= j < more.len() implies is_digit(#[trigger] more[j]) by {
                if j < more.len() - 1 {
                    assert(more[j] == body.take(i - first)[j]);
                }
            }
        }
        let next = acc * 10 + digit;
        if next > 0x8000_0000_0000_0000 {
            proof {
                if all_digits(body) {
                    lemma_digits_grow(body, i - first + 1);
                }
            }
            return None;
        }
        acc = next;
        i += 1;
    }
    assert(body.take(n - first) == body);
    if negative {
        Some((-acc) as i64)
    } else if acc <= 0x7fff_ffff_ffff_ffff {
        Some(acc as i64)
    } else {
        None
    }
}

/// When a photo was taken, as the metadata beside it tells: the seconds since the start
/// of 1970, written in base ten.
#[derive(Debug)]
pub struct PhotoTakenTime {
    pub timestamp: String,
}

/// The metadata beside a photo or video, as far as this crate reads it.
#[derive(Debug)]
pub struct Metadata {
    pub photo_taken_time: PhotoTakenTime,
}

/// The time that metadata with the timestamp `timestamp` tells: the number that it
/// writes, where it writes one that a `DateTime` can hold.
pub open spec fn told_time(timestamp: Seq<char>) -> Option<int> {
    match decimal(timestamp) {
        Some(t) if MIN_TIMESTAMP <= t <= MAX_TIMESTAMP => Some(t),
        _ => None,
    }
}

impl PhotoTakenTime {
    /// The time as it goes over the wire, where the timestamp tells one.
    pub fn to_string(&self) -> (r: Option<String>)
        ensures
            match told_time(self.timestamp@) {
                Some(t) => r matches Some(s) && s@ == formatted(
                    t,
                    "[year]-[month]-[day]T[hour]:[minute]:[second].000Z"@,
                ),
                None => r is None,
            },
    {
        match parse_i64(self.timestamp.as_str()) {
            Some(t) => match DateTime::from_unix_timestamp(t) {
                Some(d) => Some(d.to_string()),
                None => None,
            },
            None => None,
        }
    }
}

impl Metadata {
    /// The metadata that tells this timestamp.
    pub fn new(timestamp: String) -> (r: Self)
        ensures
            r.photo_taken_time.timestamp == timestamp,
    {
        Metadata { photo_taken_time: PhotoTakenTime { timestamp } }
    }

    /// The timestamp as a number, where it writes one.
    pub fn timestamp(&self) -> (r: Option<i64>)
        ensures
            match r {
                Some(v) => decimal(self.photo_taken_time.timestamp@) == Some(v as int),
                None => decimal(self.photo_taken_time.timestamp@) is None,
            },
    {
        parse_i64(self.photo_taken_time.timestamp.as_str())
    }
}

/// The view of metadata that may be missing: the timestamp it tells.
pub open spec fn timestamp_view(metadata: Option<Metadata>) -> Option<Seq<char>> {
    match metadata {
        Some(m) => Some(m.photo_taken_time.timestamp@),
        None => None,
    }
}

/// The time that the metadata of the entry at `path` tells. `metadata` is what the
/// entry's JSON stands for, `None` where it is no JSON of metadata. `InvalidMetadata`
/// where there is no metadata, where its timestamp writes no number, and where the
/// number is no second that a `DateTime` can hold.
pub fn parse(metadata: Option<&Metadata>, path: &str) -> (r: Result<DateTime, ParseError>)
    ensures
        match metadata {
            None => r matches Err(ParseError::InvalidMetadata(m)) && m@ == "Can't parse JSON for "@
                + path@,
            Some(meta) => match decimal(meta.photo_taken_time.timestamp@) {
                None => r matches Err(ParseError::InvalidMetadata(m)) && m@
                    == "Can't parse Timestamp to i64"@,
                Some(t) => if MIN_TIMESTAMP <= t <= MAX_TIMESTAMP {
                    r matches Ok(d) && d@ == t
                } else {
                    r matches Err(ParseError::InvalidMetadata(m)) && m@
                        == "Can't create OffsetData from timestamp"@
                },
            },
        },
        r is Ok <==> metadata is Some && told_time(metadata->Some_0.photo_taken_time.timestamp@)
            is Some,
{
    let meta = match metadata {
        Some(meta) => meta,
        None => {
            let mut message = "Can't parse JSON for ".to_owned();
            message.append(path);
            return Err(ParseError::InvalidMetadata(message));
        },
    };
    let timestamp = match meta.timestamp() {
        Some(t) => t,
        None => {
            return Err(ParseError::InvalidMetadata("Can't parse Timestamp to i64".to_owned()));
        },
    };
    match DateTime::from_unix_timestamp(timestamp) {
        Some(d) => Ok(d),
        None => Err(
            ParseError::InvalidMetadata("Can't create OffsetData from timestamp".to_owned()),
        ),
    }
}

} // verus!
