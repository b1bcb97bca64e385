//! Civil time as plain values, and the date texts built from it: the
//! `DD/MM/YYYY HH:MM` rendering used by listings and the restore log, and
//! the `DD_MM_YYYY_HH_MM` stem used to name backup artifacts. Obtaining the
//! current time and converting a Unix timestamp to calendar fields is
//! chrono's work, behind trusted wrappers; the renderings themselves are
//! this library's own, verified.

use vstd::prelude::*;

use chrono::Datelike;
use chrono::Timelike;

use crate::num_text::dec_digits;
use crate::num_text::decimal_string;
use crate::num_text::is_digit;
use crate::num_text::lemma_dec_digits_val;
use crate::text::is_space;
use crate::text::lemma_digit_not_space;
use crate::text::no_space;

verus! {

/// A moment of local time: its Unix timestamp (the naive local fields read
/// as if UTC) and its calendar fields as plain values.
pub struct LocalStamp {
    pub ts: i64,
    pub year: i32,
    pub month: u8,
    pub day: u8,
    pub hour: u8,
    pub minute: u8,
}

impl LocalStamp {
    /// Calendar fields lie in their civil ranges.
    pub open spec fn wf(&self) -> bool {
        &&& 1 <= self.month <= 12
        &&& 1 <= self.day <= 31
        &&& self.hour < 24
        &&& self.minute < 60
    }
}

/// Relies on chrono::Local::now and the NaiveDateTime field accessors:
/// `month` is in 1..=12, `day` in 1..=31, `hour` below 24 and `minute`
/// below 60. The clock's value itself is the environment's; nothing more is
/// assumed of it. On a system clock set before the Unix epoch the underlying
/// call does not return.
#[verifier::external_body]
pub fn local_now() -> (r: LocalStamp)
    ensures
        r.wf(),
{
    let now = chrono::Local::now().naive_local();
    LocalStamp {
        ts: now.and_utc().timestamp(),
        year: now.year(),
        month: now.month() as u8,
        day: now.day() as u8,
        hour: now.hour() as u8,
        minute: now.minute() as u8,
    }
}

/// The calendar fields (year, month, day, hour, minute) that chrono's civil
/// calendar gives to a Unix timestamp.
pub uninterp spec fn civil_of(ts: i64) -> (i32, u8, u8, u8, u8);

/// Relies on chrono::DateTime::<Utc>::from_timestamp and the field
/// accessors: the fields are a function of the timestamp alone; the
/// conversion succeeds far beyond year 9999, and the fields lie in their
/// documented civil ranges.
#[verifier::external_body]
pub fn civil_from_timestamp(ts: i64) -> (r: (i32, u8, u8, u8, u8))
    requires
        0 <= ts <= 253402300799,
    ensures
        r == civil_of(ts),
        1970 <= r.0 <= 9999,
        1 <= r.1 <= 12,
        1 <= r.2 <= 31,
        r.3 < 24,
        r.4 < 60,
{
    let dt = chrono::DateTime::<chrono::Utc>::from_timestamp(ts, 0).unwrap();
    (dt.year(), dt.month() as u8, dt.day() as u8, dt.hour() as u8, dt.minute() as u8)
}

/// `n` in decimal, zero-padded to two digits.
pub open spec fn pad2(n: nat) -> Seq<char> {
    if n < 10 {
        seq!['0'] + dec_digits(n)
    } else {
        dec_digits(n)
    }
}

/// `n` in decimal, zero-padded to four digits.
pub open spec fn pad4(n: nat) -> Seq<char> {
    if n < 10 {
        seq!['0', '0', '0'] + dec_digits(n)
    } else if n < 100 {
        seq!['0', '0'] + dec_digits(n)
    } else if n < 1000 {
        seq!['0'] + dec_digits(n)
    } else {
        dec_digits(n)
    }
}

/// A year number: four digits, with a sign in front of a negative year.
pub open spec fn year_digits(y: int) -> Seq<char> {
    if y < 0 {
        seq!['-'] + pad4((-y) as nat)
    } else {
        pad4(y as nat)
    }
}

/// `DD/MM/YYYY HH:MM`.
pub open spec fn date_time_text(y: int, mo: nat, d: nat, h: nat, mi: nat) -> Seq<char> {
    pad2(d) + "/"@ + pad2(mo) + "/"@ + year_digits(y) + " "@ + pad2(h) + ":"@ + pad2(mi)
}

/// `DD_MM_YYYY_HH_MM`: the stem of a backup artifact's file name.
pub open spec fn stamp_text(y: int, mo: nat, d: nat, h: nat, mi: nat) -> Seq<char> {
    pad2(d) + "_"@ + pad2(mo) + "_"@ + year_digits(y) + "_"@ + pad2(h) + "_"@ + pad2(mi)
}

/// A two-digit padding is nonempty and all digits, so free of whitespace.
pub proof fn lemma_pad2_plain(n: nat)
    ensures
        pad2(n).len() > 0,
        forall|i: int| 0 <= i < pad2(n).len() ==> is_digit(#[trigger] pad2(n)[i]),
        no_space(pad2(n)),
{
    lemma_pad2_digits(n);
    assert forall|i: int| 0 <= i < pad2(n).len() implies !is_space(pad2(n)[i]) by {
        lemma_digit_not_space(pad2(n)[i]);
    }
}

/// A two-digit padding is nonempty and all digits.
proof fn lemma_pad2_digits(n: nat)
    ensures
        pad2(n).len() > 0,
        forall|i: int| 0 <= i < pad2(n).len() ==> is_digit(#[trigger] pad2(n)[i]),
{
    lemma_dec_digits_val(n);
    assert('0' as u32 == 48);
    if n < 10 {
        assert forall|i: int| 0 <= i < pad2(n).len() implies is_digit(pad2(n)[i]) by {
            if i == 0 {
                assert(pad2(n)[0] == '0');
            } else {
                assert(pad2(n)[i] == dec_digits(n)[i - 1]);
            }
        }
    }
}

/// A four-digit padding is nonempty and all digits.
proof fn lemma_pad4_digits(n: nat)
    ensures
        pad4(n).len() > 0,
        forall|i: int| 0 <= i < pad4(n).len() ==> is_digit(#[trigger] pad4(n)[i]),
{
    lemma_dec_digits_val(n);
    assert('0' as u32 == 48);
    let zeros: Seq<char> = if n < 10 {
        seq!['0', '0', '0']
    } else if n < 100 {
        seq!['0', '0']
    } else if n < 1000 {
        seq!['0']
    } else {
        Seq::empty()
    };
    assert(pad4(n) =~= zeros + dec_digits(n));
    assert forall|i: int| 0 <= i < pad4(n).len() implies is_digit(pad4(n)[i]) by {
        if i < zeros.len() {
            assert(pad4(n)[i] == '0');
        } else {
            assert(pad4(n)[i] == dec_digits(n)[i - zeros.len()]);
        }
    }
}

/// A year's rendering is nonempty and holds digits and at most a sign —
/// never whitespace.
pub proof fn lemma_year_digits_plain(y: int)
    ensures
        year_digits(y).len() > 0,
        no_space(year_digits(y)),
{
    assert('-' as u32 == 45);
    assert(' ' as u32 == 32);
    assert('\t' as u32 == 9);
    assert('\n' as u32 == 10);
    assert('\r' as u32 == 13);
    if y < 0 {
        lemma_pad4_digits((-y) as nat);
        assert forall|i: int| 0 <= i < year_digits(y).len() implies !is_space(year_digits(y)[i]) by {
            if i == 0 {
                assert(year_digits(y)[0] == '-');
            } else {
                assert(year_digits(y)[i] == pad4((-y) as nat)[i - 1]);
                lemma_digit_not_space(year_digits(y)[i]);
            }
        }
    } else {
        lemma_pad4_digits(y as nat);
        assert forall|i: int| 0 <= i < year_digits(y).len() implies !is_space(year_digits(y)[i]) by {
            assert(year_digits(y)[i] == pad4(y as nat)[i]);
            lemma_digit_not_space(year_digits(y)[i]);
        }
    }
}

/// Renders `n` zero-padded to two digits.
pub fn pad2_string(n: u8) -> (s: String)
    ensures
        s@ == pad2(n as nat),
{
    proof {
        reveal_strlit("0");
    }
    let mut s = String::new();
    if n < 10 {
        s.append("0");
    }
    s.append(decimal_string(n as u64).as_str());
    proof {
        assert(s@ =~= pad2(n as nat));
    }
    s
}

/// Renders a year: four digits, signed when negative.
pub fn year_string(y: i32) -> (s: String)
    ensures
        s@ == year_digits(y as int),
{
    proof {
        reveal_strlit("0");
        reveal_strlit("-");
    }
    let mut s = String::new();
    let mag: u64 = if y < 0 {
        s.append("-");
        (-(y as i64)) as u64
    } else {
        y as u64
    };
    if mag < 10 {
        s.append("000");
        proof {
            reveal_strlit("000");
            assert("000"@ =~= seq!['0', '0', '0']);
        }
    } else if mag < 100 {
        s.append("00");
        proof {
            reveal_strlit("00");
            assert("00"@ =~= seq!['0', '0']);
        }
    } else if mag < 1000 {
        s.append("0");
    }
    s.append(decimal_string(mag).as_str());
    proof {
        assert(s@ =~= year_digits(y as int));
    }
    s
}

/// Renders `DD/MM/YYYY HH:MM`.
pub fn date_time_string(y: i32, mo: u8, d: u8, h: u8, mi: u8) -> (s: String)
    ensures
        s@ == date_time_text(y as int, mo as nat, d as nat, h as nat, mi as nat),
{
    let mut s = pad2_string(d);
    s.append("/");
    s.append(pad2_string(mo).as_str());
    s.append("/");
    s.append(year_string(y).as_str());
    s.append(" ");
    s.append(pad2_string(h).as_str());
    s.append(":");
    s.append(pad2_string(mi).as_str());
    proof {
        assert(s@ =~= date_time_text(y as int, mo as nat, d as nat, h as nat, mi as nat));
    }
    s
}

/// Renders `DD_MM_YYYY_HH_MM`.
pub fn stamp_string(y: i32, mo: u8, d: u8, h: u8, mi: u8) -> (s: String)
    ensures
        s@ == stamp_text(y as int, mo as nat, d as nat, h as nat, mi as nat),
{
    let mut s = pad2_string(d);
    s.append("_");
    s.append(pad2_string(mo).as_str());
    s.append("_");
    s.append(year_string(y).as_str());
    s.append("_");
    s.append(pad2_string(h).as_str());
    s.append("_");
    s.append(pad2_string(mi).as_str());
    proof {
        assert(s@ =~= stamp_text(y as int, mo as nat, d as nat, h as nat, mi as nat));
    }
    s
}

} // verus!
