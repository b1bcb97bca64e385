//! Restore log: one appended line per successful restore, and the reader
//! that recovers the last restored artifact's name. The line format is
//! load-bearing: the reader takes the fourth whitespace-separated token of
//! the log's final line.

use vstd::prelude::*;

use crate::clock::LocalStamp;
use crate::clock::date_time_string;
use crate::clock::date_time_text;
use crate::clock::lemma_pad2_plain;
use crate::clock::lemma_year_digits_plain;
use crate::clock::pad2;
use crate::clock::year_digits;
use crate::text::is_space;
use crate::text::lemma_no_newline_concat;
use crate::text::lemma_no_space_concat;
use crate::text::lemma_no_space_no_newline;
use crate::text::lemma_tokens_after_space;
use crate::text::lemma_tokens_leading_token;
use crate::text::no_newline;
use crate::text::no_space;
use crate::text::split_whitespace_vec;
use crate::text::string_views;
use crate::text::tokens;

verus! {

/// The log line written after a successful restore (without the trailing
/// newline the appender adds).
pub open spec fn restore_log_line_text(
    file: Seq<char>,
    y: int,
    mo: nat,
    d: nat,
    h: nat,
    mi: nat,
) -> Seq<char> {
    "Backup restored form: "@ + file + " - Date: "@ + date_time_text(y, mo, d, h, mi)
}

/// Renders the log line for a restored file at a moment in time.
pub fn restore_log_line(file: &str, now: &LocalStamp) -> (r: String)
    ensures
        r@ == restore_log_line_text(
            file@,
            now.year as int,
            now.month as nat,
            now.day as nat,
            now.hour as nat,
            now.minute as nat,
        ),
{
    let mut s = "Backup restored form: ".to_owned();
    s.append(file);
    s.append(" - Date: ");
    s.append(date_time_string(now.year, now.month, now.day, now.hour, now.minute).as_str());
    proof {
        assert(s@ =~= restore_log_line_text(
            file@,
            now.year as int,
            now.month as nat,
            now.day as nat,
            now.hour as nat,
            now.minute as nat,
        ));
    }
    s
}

/// The text after the last newline of `t` (all of `t` when it has none).
pub open spec fn last_line_of(t: Seq<char>) -> Seq<char>
    decreases t.len(),
{
    if t.len() == 0 {
        t
    } else if t.last() == '\n' {
        Seq::empty()
    } else {
        last_line_of(t.drop_last()).push(t.last())
    }
}

/// The final line of a text, as line iteration sees it: one trailing
/// newline does not open a further empty line, and a trailing carriage
/// return is stripped.
pub open spec fn final_line_spec(s: Seq<char>) -> Seq<char> {
    let t = if s.len() > 0 && s.last() == '\n' {
        s.drop_last()
    } else {
        s
    };
    let u = last_line_of(t);
    if u.len() > 0 && u.last() == '\r' {
        u.drop_last()
    } else {
        u
    }
}

/// The last restored artifact's name: the fourth whitespace-separated token
/// of the log's final line, when that line has at least four.
pub open spec fn last_restored_spec(s: Seq<char>) -> Option<Seq<char>> {
    let toks = tokens(final_line_spec(s));
    if toks.len() >= 4 {
        Some(toks[3])
    } else {
        None
    }
}

/// A stretch that reaches the end of `t` and holds no newline, entered at a
/// newline boundary (or the very start), is exactly the last line.
proof fn lemma_last_line_run(t: Seq<char>, start: int)
    requires
        0 <= start <= t.len(),
        forall|k: int| start <= k < t.len() ==> t[k] != '\n',
        start == 0 || t[start - 1] == '\n',
    ensures
        last_line_of(t) == t.subrange(start, t.len() as int),
    decreases t.len(),
{
    if t.len() == start {
        if start == 0 {
            assert(t.subrange(0, 0) =~= t);
        } else {
            assert(t.last() == t[start - 1]);
            assert(t.subrange(start, t.len() as int) =~= Seq::<char>::empty());
        }
    } else {
        assert(t.last() == t[t.len() - 1]);
        lemma_last_line_run(t.drop_last(), start);
        assert(t.drop_last().subrange(start, t.len() - 1) =~= t.subrange(start, t.len() - 1));
        assert(t.subrange(start, t.len() - 1).push(t.last()) =~= t.subrange(start, t.len() as int));
    }
}

/// The restore line's whitespace-separated tokens: its three leading words,
/// the file's name, the two date markers, and the date and time texts; the
/// line holds no newline and ends in a digit.
proof fn lemma_restore_line_tokens(f: Seq<char>, y: int, mo: nat, d: nat, h: nat, mi: nat)
    requires
        f.len() > 0,
        no_space(f),
    ensures
        ({
            let line = restore_log_line_text(f, y, mo, d, h, mi);
            &&& tokens(line) == seq![
                "Backup"@,
                "restored"@,
                "form:"@,
                f,
                "-"@,
                "Date:"@,
                pad2(d) + "/"@ + pad2(mo) + "/"@ + year_digits(y),
                pad2(h) + ":"@ + pad2(mi),
            ]
            &&& no_newline(line)
            &&& line.len() > 0
            &&& !is_space(line.last())
        }),
{
    reveal_strlit("Backup restored form: ");
    reveal_strlit(" - Date: ");
    reveal_strlit("Backup");
    reveal_strlit("restored");
    reveal_strlit("form:");
    reveal_strlit("-");
    reveal_strlit("Date:");
    reveal_strlit("/");
    reveal_strlit(":");
    reveal_strlit(" ");
    let line = restore_log_line_text(f, y, mo, d, h, mi);
    let sp = seq![' '];
    let date1 = pad2(d) + "/"@ + pad2(mo) + "/"@ + year_digits(y);
    let date2 = pad2(h) + ":"@ + pad2(mi);

    lemma_pad2_plain(d);
    lemma_pad2_plain(mo);
    lemma_pad2_plain(h);
    lemma_pad2_plain(mi);
    lemma_year_digits_plain(y);
    assert(no_space("/"@)) by {
        assert("/"@[0] == '/');
        assert('/' as u32 == 47);
        assert(' ' as u32 == 32 && '\t' as u32 == 9 && '\n' as u32 == 10 && '\r' as u32 == 13);
    }
    assert(no_space(":"@)) by {
        assert(":"@[0] == ':');
        assert(':' as u32 == 58);
        assert(' ' as u32 == 32 && '\t' as u32 == 9 && '\n' as u32 == 10 && '\r' as u32 == 13);
    }
    lemma_no_space_concat(pad2(d), "/"@);
    lemma_no_space_concat(pad2(d) + "/"@, pad2(mo));
    lemma_no_space_concat(pad2(d) + "/"@ + pad2(mo), "/"@);
    lemma_no_space_concat(pad2(d) + "/"@ + pad2(mo) + "/"@, year_digits(y));
    assert(no_space(date1));
    lemma_no_space_concat(pad2(h), ":"@);
    lemma_no_space_concat(pad2(h) + ":"@, pad2(mi));
    assert(no_space(date2));

    assert(no_space("Backup"@)) by {
        assert forall|i: int| 0 <= i < "Backup"@.len() implies !is_space("Backup"@[i]) by {
            assert(' ' as u32 == 32 && '\t' as u32 == 9 && '\n' as u32 == 10 && '\r' as u32
                == 13);
        }
    }
    assert(no_space("restored"@)) by {
        assert forall|i: int| 0 <= i < "restored"@.len() implies !is_space("restored"@[i]) by {
            assert(' ' as u32 == 32 && '\t' as u32 == 9 && '\n' as u32 == 10 && '\r' as u32
                == 13);
        }
    }
    assert(no_space("form:"@)) by {
        assert forall|i: int| 0 <= i < "form:"@.len() implies !is_space("form:"@[i]) by {
            assert(' ' as u32 == 32 && '\t' as u32 == 9 && '\n' as u32 == 10 && '\r' as u32
                == 13);
        }
    }
    assert(no_space("-"@)) by {
        assert forall|i: int| 0 <= i < "-"@.len() implies !is_space("-"@[i]) by {
            assert(' ' as u32 == 32 && '\t' as u32 == 9 && '\n' as u32 == 10 && '\r' as u32
                == 13);
        }
    }
    assert(no_space("Date:"@)) by {
        assert forall|i: int| 0 <= i < "Date:"@.len() implies !is_space("Date:"@[i]) by {
            assert(' ' as u32 == 32 && '\t' as u32 == 9 && '\n' as u32 == 10 && '\r' as u32
                == 13);
        }
    }

    let rest6 = sp + date2;
    let t6 = date1 + rest6;
    let rest5 = sp + t6;
    let t5 = "Date:"@ + rest5;
    let rest4 = sp + t5;
    let t4 = "-"@ + rest4;
    let rest3 = sp + t4;
    let t3 = f + rest3;
    let rest2 = sp + t3;
    let t2 = "form:"@ + rest2;
    let rest1 = sp + t2;
    let t1 = "restored"@ + rest1;
    let rest0 = sp + t1;
    let t0 = "Backup"@ + rest0;
    assert("Backup restored form: "@ =~= "Backup"@ + sp + "restored"@ + sp + "form:"@ + sp);
    assert(" - Date: "@ =~= sp + "-"@ + sp + "Date:"@ + sp);
    assert(" "@ =~= sp);
    assert(date_time_text(y, mo, d, h, mi) =~= date1 + sp + date2);
    assert(line =~= t0);

    assert(date2 =~= date2 + Seq::<char>::empty());
    lemma_tokens_leading_token(date2, Seq::<char>::empty());
    assert(tokens(date2) == seq![date2]);
    lemma_tokens_after_space(' ', date2);
    assert(rest6 =~= seq![' '] + date2);
    lemma_tokens_leading_token(date1, rest6);
    lemma_tokens_after_space(' ', t6);
    assert(rest5 =~= seq![' '] + t6);
    lemma_tokens_leading_token("Date:"@, rest5);
    lemma_tokens_after_space(' ', t5);
    assert(rest4 =~= seq![' '] + t5);
    lemma_tokens_leading_token("-"@, rest4);
    lemma_tokens_after_space(' ', t4);
    assert(rest3 =~= seq![' '] + t4);
    lemma_tokens_leading_token(f, rest3);
    lemma_tokens_after_space(' ', t3);
    assert(rest2 =~= seq![' '] + t3);
    lemma_tokens_leading_token("form:"@, rest2);
    lemma_tokens_after_space(' ', t2);
    assert(rest1 =~= seq![' '] + t2);
    lemma_tokens_leading_token("restored"@, rest1);
    lemma_tokens_after_space(' ', t1);
    assert(rest0 =~= seq![' '] + t1);
    lemma_tokens_leading_token("Backup"@, rest0);
    assert(tokens(line) =~= seq![
        "Backup"@,
        "restored"@,
        "form:"@,
        f,
        "-"@,
        "Date:"@,
        date1,
        date2,
    ]);

    let spn: Seq<char> = sp;
    assert(no_newline(spn)) by {
        assert(spn[0] == ' ');
    }
    lemma_no_space_no_newline(f);
    lemma_no_space_no_newline(date1);
    lemma_no_space_no_newline(date2);
    lemma_no_space_no_newline("Backup"@);
    lemma_no_space_no_newline("restored"@);
    lemma_no_space_no_newline("form:"@);
    lemma_no_space_no_newline("-"@);
    lemma_no_space_no_newline("Date:"@);
    lemma_no_newline_concat(spn, date2);
    lemma_no_newline_concat(date1, rest6);
    lemma_no_newline_concat(spn, t6);
    lemma_no_newline_concat("Date:"@, rest5);
    lemma_no_newline_concat(spn, t5);
    lemma_no_newline_concat("-"@, rest4);
    lemma_no_newline_concat(spn, t4);
    lemma_no_newline_concat(f, rest3);
    lemma_no_newline_concat(spn, t3);
    lemma_no_newline_concat("form:"@, rest2);
    lemma_no_newline_concat(spn, t2);
    lemma_no_newline_concat("restored"@, rest1);
    lemma_no_newline_concat(spn, t1);
    lemma_no_newline_concat("Backup"@, rest0);
    assert(no_newline(line));

    assert(line.last() == date2.last());
    assert(date2.last() == pad2(mi).last());
    assert(!is_space(line.last()));
}

/// What the writer logs, the reader recovers: appended to a log that is
/// empty or ends at a line break, the restore line's fourth token is
/// exactly the restored file's name, for any file name free of whitespace.
pub proof fn lemma_restore_log_roundtrip(
    prior: Seq<char>,
    f: Seq<char>,
    y: int,
    mo: nat,
    d: nat,
    h: nat,
    mi: nat,
)
    requires
        f.len() > 0,
        no_space(f),
        prior.len() == 0 || prior.last() == '\n',
    ensures
        last_restored_spec(prior + restore_log_line_text(f, y, mo, d, h, mi) + "\n"@) == Some(f),
{
    reveal_strlit("\n");
    let line = restore_log_line_text(f, y, mo, d, h, mi);
    let whole = prior + line + "\n"@;
    lemma_restore_line_tokens(f, y, mo, d, h, mi);

    assert(whole.last() == '\n');
    assert(whole.len() > 0);
    let t = whole.drop_last();
    assert(t =~= prior + line);
    assert forall|k: int| prior.len() <= k < t.len() implies t[k] != '\n' by {
        assert(t[k] == line[k - prior.len()]);
    }
    if prior.len() > 0 {
        assert(t[prior.len() - 1] == prior.last());
    }
    lemma_last_line_run(t, prior.len() as int);
    assert(last_line_of(t) == t.subrange(prior.len() as int, t.len() as int));
    assert(t.subrange(prior.len() as int, t.len() as int) =~= line);
    assert(line.last() != '\r') by {
        assert(is_space('\r'));
    }
    assert(final_line_spec(whole) == line);
    assert(tokens(line).len() == 8);
    assert(tokens(line)[3] == f);
}

/// Reads the last restored artifact's name out of the restore log's text:
/// the fourth whitespace-separated token of the final line, or nothing when
/// that line has fewer than four.
pub fn read_last_restored(contents: &str) -> (r: Option<String>)
    ensures
        match r {
            Some(t) => last_restored_spec(contents@) == Some(t@),
            None => last_restored_spec(contents@) is None,
        },
{
    let len = contents.unicode_len();
    let mut end = len;
    if end > 0 && contents.get_char(end - 1) == '\n' {
        end = end - 1;
    }
    let ghost t = contents@.take(end as int);
    proof {
        if len > 0 && contents@.last() == '\n' {
            assert(t =~= contents@.drop_last());
        } else {
            assert(t =~= contents@);
        }
    }
    let mut start = end;
    while start > 0
        invariant
            start <= end,
            end <= len,
            len == contents@.len(),
            forall|k: int| start <= k < end ==> contents@[k] != '\n',
        ensures
            start <= end,
            end <= len,
            len == contents@.len(),
            forall|k: int| start <= k < end ==> contents@[k] != '\n',
            start == 0 || contents@[start - 1] == '\n',
        decreases start,
    {
        if contents.get_char(start - 1) == '\n' {
            break;
        }
        start = start - 1;
    }
    proof {
        assert(forall|k: int| start <= k < t.len() ==> t[k] == contents@[k]);
        if start > 0 {
            assert(t[start - 1] == contents@[start - 1]);
        }
        lemma_last_line_run(t, start as int);
    }
    let mut tail = end;
    if tail > start && contents.get_char(tail - 1) == '\r' {
        tail = tail - 1;
    }
    let line = contents.substring_char(start, tail);
    proof {
        let u = last_line_of(t);
        assert(u == contents@.subrange(start as int, end as int));
        if end > start && contents@[end - 1] == '\r' {
            assert(u.last() == contents@[end - 1]);
            assert(u.drop_last() =~= contents@.subrange(start as int, end - 1));
        }
        assert(line@ == final_line_spec(contents@));
    }
    let parts = split_whitespace_vec(line);
    if parts.len() >= 4 {
        proof {
            assert(string_views(parts@)[3] == parts@[3]@);
        }
        Some(parts[3].clone())
    } else {
        None
    }
}

} // verus!
