//! Backup listing: out of the backup root's directory entries (name and
//! creation time), keep the dump artifacts (`.sql` files), render each
//! creation time as `DD/MM/YYYY HH:MM`, and mark the entry the restore log
//! names as last restored.

use vstd::prelude::*;

use crate::clock::civil_from_timestamp;
use crate::clock::civil_of;
use crate::clock::date_time_string;
use crate::clock::date_time_text;
use crate::text::str_match_at;

verus! {

/// A directory entry handed in by the caller: a file's name and its
/// creation time as a Unix timestamp.
pub struct BackupEntry {
    pub name: String,
    pub created_ts: i64,
}

/// One row of the listing: the artifact's name, its creation date text, and
/// whether it is the last restored one.
pub struct BackupRow {
    pub name: String,
    pub date: String,
    pub last_restored: bool,
}

/// Whether a file name has the `sql` extension: it ends in `.sql` and the
/// dot does not start the name.
pub open spec fn has_sql_ext(name: Seq<char>) -> bool {
    name.len() >= 5 && name.subrange(name.len() - 4, name.len() as int) == ".sql"@
}

/// Whether a name is the one the restore log names as last restored.
pub open spec fn is_last_restored(name: Seq<char>, last: Option<Seq<char>>) -> bool {
    match last {
        Some(l) => name == l,
        None => false,
    }
}

/// The creation date text of a timestamp, over chrono's civil calendar.
pub open spec fn date_text_of_ts(ts: i64) -> Seq<char> {
    let c = civil_of(ts);
    date_time_text(c.0 as int, c.1 as nat, c.2 as nat, c.3 as nat, c.4 as nat)
}

/// The entries as plain values.
pub open spec fn entry_views(es: Seq<BackupEntry>) -> Seq<(Seq<char>, i64)> {
    es.map(|i: int, e: BackupEntry| (e.name@, e.created_ts))
}

/// The rows as plain values.
pub open spec fn row_views(rs: Seq<BackupRow>) -> Seq<(Seq<char>, Seq<char>, bool)> {
    rs.map(|i: int, r: BackupRow| (r.name@, r.date@, r.last_restored))
}

/// The listing's rows: the `.sql` entries in input order, each with its
/// rendered creation date and its last-restored mark.
pub open spec fn rows_spec(entries: Seq<(Seq<char>, i64)>, last: Option<Seq<char>>) -> Seq<
    (Seq<char>, Seq<char>, bool),
>
    decreases entries.len(),
{
    if entries.len() == 0 {
        Seq::empty()
    } else {
        let e = entries[0];
        let rest = rows_spec(entries.skip(1), last);
        if has_sql_ext(e.0) {
            seq![(e.0, date_text_of_ts(e.1), is_last_restored(e.0, last))] + rest
        } else {
            rest
        }
    }
}

/// Whether a file name ends in `.sql` (with a nonempty stem).
pub fn name_has_sql_ext(name: &str) -> (r: bool)
    ensures
        r == has_sql_ext(name@),
{
    proof {
        reveal_strlit(".sql");
    }
    let len = name.unicode_len();
    if len < 5 {
        return false;
    }
    str_match_at(name, len - 4, ".sql")
}

/// Builds the listing out of the directory's entries and the last-restored
/// name from the restore log. Keeps `.sql` files only, in input order.
/// Creation times must lie between the Unix epoch and the end of year 9999.
pub fn list_backups(entries: &Vec<BackupEntry>, last_restored: &Option<String>) -> (r: Vec<
    BackupRow,
>)
    requires
        forall|i: int|
            0 <= i < entries@.len() ==> 0 <= #[trigger] entries@[i].created_ts <= 253402300799,
    ensures
        row_views(r@) == rows_spec(
            entry_views(entries@),
            match last_restored {
                Some(l) => Some(l@),
                None => None::<Seq<char>>,
            },
        ),
{
    let ghost ev = entry_views(entries@);
    let ghost last = match last_restored {
        Some(l) => Some(l@),
        None => None::<Seq<char>>,
    };
    let mut r: Vec<BackupRow> = Vec::new();
    let mut i: usize = 0;
    let n = entries.len();
    proof {
        assert(row_views(r@) =~= Seq::<(Seq<char>, Seq<char>, bool)>::empty());
        assert(ev.skip(0) =~= ev);
    }
    while i < n
        invariant
            i <= n,
            n == entries@.len(),
            ev == entry_views(entries@),
            last == match last_restored {
                Some(l) => Some(l@),
                None => None::<Seq<char>>,
            },
            forall|k: int| 0 <= k < entries@.len() ==> 0 <= #[trigger] entries@[k].created_ts <= 253402300799,
            row_views(r@) + rows_spec(ev.skip(i as int), last) == rows_spec(ev, last),
        decreases n - i,
    {
        let e = &entries[i];
        proof {
            assert(ev.skip(i as int)[0] == ev[i as int]);
            assert(ev.skip(i as int).skip(1) =~= ev.skip(i + 1));
        }
        if name_has_sql_ext(e.name.as_str()) {
            let c = civil_from_timestamp(e.created_ts);
            let date = date_time_string(c.0, c.1, c.2, c.3, c.4);
            let marked = match last_restored {
                Some(l) => e.name.eq(l),
                None => false,
            };
            let row = BackupRow { name: e.name.clone(), date, last_restored: marked };
            let ghost rows_before = r@;
            r.push(row);
            proof {
                assert(row_views(r@) =~= row_views(rows_before).push(
                    (e.name@, date_text_of_ts(e.created_ts), is_last_restored(e.name@, last)),
                ));
                assert(row_views(rows_before).push(
                    (e.name@, date_text_of_ts(e.created_ts), is_last_restored(e.name@, last)),
                ) + rows_spec(ev.skip(i + 1), last) =~= row_views(rows_before) + (seq![
                    (e.name@, date_text_of_ts(e.created_ts), is_last_restored(e.name@, last)),
                ] + rows_spec(ev.skip(i + 1), last)));
            }
        }
        i = i + 1;
    }
    proof {
        assert(ev.skip(n as int) =~= Seq::<(Seq<char>, i64)>::empty());
        assert(row_views(r@) + rows_spec(ev.skip(n as int), last) =~= row_views(r@));
    }
    r
}

} // verus!
