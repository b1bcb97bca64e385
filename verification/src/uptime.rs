//! Uptime calculator: turns the OS process-inspection utility's start-time
//! line into an elapsed-time text `"{hours}h {minutes}m {seconds}s"`. The
//! start-time line may carry Portuguese weekday and month abbreviations;
//! a substitution table maps them to the canonical English ones before
//! parsing. Any failure degrades to the fixed fallback text: uptime is
//! advisory and never an error.

use vstd::prelude::*;

use crate::num_text::dec_digits;
use crate::num_text::decimal_string;
use crate::text::replace_all;
use crate::text::replace_spec;
use crate::text::trim_spec;
use crate::text::trim_str;

verus! {

/// The start-time text with Portuguese weekday and month abbreviations
/// replaced by their English counterparts, weekdays first, in table order.
pub open spec fn canon_spec(s: Seq<char>) -> Seq<char> {
    let s = replace_spec(s, "dom"@, "Sun"@);
    let s = replace_spec(s, "seg"@, "Mon"@);
    let s = replace_spec(s, "ter"@, "Tue"@);
    let s = replace_spec(s, "qua"@, "Wed"@);
    let s = replace_spec(s, "qui"@, "Thu"@);
    let s = replace_spec(s, "sex"@, "Fri"@);
    let s = replace_spec(s, "sab"@, "Sat"@);
    let s = replace_spec(s, "jan"@, "Jan"@);
    let s = replace_spec(s, "fev"@, "Feb"@);
    let s = replace_spec(s, "mar"@, "Mar"@);
    let s = replace_spec(s, "abr"@, "Apr"@);
    let s = replace_spec(s, "mai"@, "May"@);
    let s = replace_spec(s, "jun"@, "Jun"@);
    let s = replace_spec(s, "jul"@, "Jul"@);
    let s = replace_spec(s, "ago"@, "Aug"@);
    let s = replace_spec(s, "set"@, "Sep"@);
    let s = replace_spec(s, "out"@, "Oct"@);
    let s = replace_spec(s, "nov"@, "Nov"@);
    let s = replace_spec(s, "dez"@, "Dec"@);
    s
}

/// Applies the locale substitution table.
pub fn canonicalize(s: &str) -> (r: String)
    ensures
        r@ == canon_spec(s@),
{
    proof {
        reveal_strlit("dom");
        reveal_strlit("seg");
        reveal_strlit("ter");
        reveal_strlit("qua");
        reveal_strlit("qui");
        reveal_strlit("sex");
        reveal_strlit("sab");
        reveal_strlit("jan");
        reveal_strlit("fev");
        reveal_strlit("mar");
        reveal_strlit("abr");
        reveal_strlit("mai");
        reveal_strlit("jun");
        reveal_strlit("jul");
        reveal_strlit("ago");
        reveal_strlit("set");
        reveal_strlit("out");
        reveal_strlit("nov");
        reveal_strlit("dez");
    }
    let r = replace_all(s, "dom", "Sun");
    let r = replace_all(r.as_str(), "seg", "Mon");
    let r = replace_all(r.as_str(), "ter", "Tue");
    let r = replace_all(r.as_str(), "qua", "Wed");
    let r = replace_all(r.as_str(), "qui", "Thu");
    let r = replace_all(r.as_str(), "sex", "Fri");
    let r = replace_all(r.as_str(), "sab", "Sat");
    let r = replace_all(r.as_str(), "jan", "Jan");
    let r = replace_all(r.as_str(), "fev", "Feb");
    let r = replace_all(r.as_str(), "mar", "Mar");
    let r = replace_all(r.as_str(), "abr", "Apr");
    let r = replace_all(r.as_str(), "mai", "May");
    let r = replace_all(r.as_str(), "jun", "Jun");
    let r = replace_all(r.as_str(), "jul", "Jul");
    let r = replace_all(r.as_str(), "ago", "Aug");
    let r = replace_all(r.as_str(), "set", "Sep");
    let r = replace_all(r.as_str(), "out", "Oct");
    let r = replace_all(r.as_str(), "nov", "Nov");
    let r = replace_all(r.as_str(), "dez", "Dec");
    r
}

/// The Unix timestamp that chrono reads from a start-time line in the
/// format `%a %b %d %H:%M:%S %Y`, or nothing when the line does not parse.
pub uninterp spec fn lstart_ts_of(s: Seq<char>) -> Option<i64>;

/// Relies on chrono::NaiveDateTime::parse_from_str with the fixed format
/// `%a %b %d %H:%M:%S %Y`, read out as whole seconds via
/// `and_utc().timestamp()`: the outcome depends on the input text alone.
#[verifier::external_body]
fn parse_lstart(s: &str) -> (r: Option<i64>)
    ensures
        r == lstart_ts_of(s@),
{
    match chrono::NaiveDateTime::parse_from_str(s, "%a %b %d %H:%M:%S %Y") {
        Ok(dt) => Some(dt.and_utc().timestamp()),
        Err(_) => None,
    }
}

/// The magnitude of an integer.
pub open spec fn abs_nat(t: int) -> nat {
    if t < 0 {
        (-t) as nat
    } else {
        t as nat
    }
}

/// One duration component, with a sign in front of a negative, nonzero one.
pub open spec fn signed_part(neg: bool, v: nat) -> Seq<char> {
    if neg && v != 0 {
        "-"@ + dec_digits(v)
    } else {
        dec_digits(v)
    }
}

/// `"{hours}h {minutes}m {seconds}s"` for an elapsed number of seconds;
/// each component carries the sign when the elapsed time is negative.
pub open spec fn uptime_render(total: int) -> Seq<char> {
    let neg = total < 0;
    let mag = abs_nat(total);
    signed_part(neg, mag / 3600) + "h "@ + signed_part(neg, (mag % 3600) / 60) + "m "@
        + signed_part(neg, mag % 60) + "s"@
}

/// What the uptime text is for a given start-time line and current time:
/// the rendered difference when the line parses, the fallback text when the
/// inspection failed or the line does not parse.
pub open spec fn uptime_spec(lstart: Option<Seq<char>>, now: int) -> Seq<char> {
    match lstart {
        None => "Unable to calculate time"@,
        Some(s) => match lstart_ts_of(trim_spec(canon_spec(s))) {
            None => "Unable to calculate time"@,
            Some(start) => uptime_render(now - start),
        },
    }
}

/// When the process cannot be inspected (it does not exist, or exited
/// before the inspection), the uptime is exactly the fallback text,
/// whatever the current time.
pub proof fn lemma_uptime_unavailable(now: int)
    ensures
        uptime_spec(None, now) == "Unable to calculate time"@,
{
}

/// The fallback text for an uptime that cannot be computed.
fn unable_string() -> (r: String)
    ensures
        r@ == "Unable to calculate time"@,
{
    "Unable to calculate time".to_owned()
}

/// Renders one signed duration component.
fn signed_part_string(neg: bool, v: u64) -> (s: String)
    ensures
        s@ == signed_part(neg, v as nat),
{
    let mut s = String::new();
    if neg && v != 0 {
        s.append("-");
    }
    s.append(decimal_string(v).as_str());
    proof {
        assert(s@ =~= signed_part(neg, v as nat));
    }
    s
}

/// Renders hours, minutes and seconds out of a magnitude and sign.
fn render_uptime(neg: bool, mag: u64) -> (r: String)
    ensures
        r@ == signed_part(neg, mag as nat / 3600) + "h "@ + signed_part(
            neg,
            (mag as nat % 3600) / 60,
        ) + "m "@ + signed_part(neg, mag as nat % 60) + "s"@,
{
    let hours = mag / 3600;
    let minutes = (mag % 3600) / 60;
    let seconds = mag % 60;
    let mut r = signed_part_string(neg, hours);
    r.append("h ");
    r.append(signed_part_string(neg, minutes).as_str());
    r.append("m ");
    r.append(signed_part_string(neg, seconds).as_str());
    r.append("s");
    r
}

/// The elapsed running time of a process, from the OS inspection utility's
/// start-time line (`None` when the inspection itself failed) and the
/// current local time as a Unix timestamp. Renders
/// `"{hours}h {minutes}m {seconds}s"`, or the fixed fallback text when no
/// start time can be attributed.
pub fn get_process_uptime(lstart: Option<&str>, now_ts: i64) -> (r: String)
    ensures
        r@ == uptime_spec(
            match lstart {
                None => None::<Seq<char>>,
                Some(s) => Some(s@),
            },
            now_ts as int,
        ),
{
    match lstart {
        None => unable_string(),
        Some(raw) => {
            let canon = canonicalize(raw);
            let trimmed = trim_str(canon.as_str());
            match parse_lstart(trimmed) {
                None => unable_string(),
                Some(start) => {
                    let d: i128 = now_ts as i128 - start as i128;
                    let neg = d < 0;
                    let mag: u64 = if neg {
                        (-d) as u64
                    } else {
                        d as u64
                    };
                    proof {
                        assert(mag as nat == abs_nat(now_ts as int - start as int));
                    }
                    render_uptime(neg, mag)
                },
            }
        },
    }
}

} // verus!
