//! Marker store: the on-disk record that a daemon instance is running,
//! keyed by its process identifier. The store models the marker file's
//! content (`None` when the file is absent); reading, writing and clearing
//! are pure operations on that content, so the store can be driven by a real
//! file or by a fake one in tests. Persistence itself is the caller's side.

use vstd::prelude::*;

use crate::num_text::all_digits;
use crate::num_text::dec_digits;
use crate::num_text::decimal_string;
use crate::num_text::is_digit;
use crate::num_text::lemma_dec_digits_val;
use crate::num_text::parse_u32;
use crate::num_text::parse_u32_spec;
use crate::text::is_space;
use crate::text::lemma_trim_no_space;
use crate::text::trim_spec;
use crate::text::trim_str;

verus! {

/// The marker file's name under the backup root.
pub fn marker_file_name() -> (r: &'static str)
    ensures
        r@ == "purrgres_pid"@,
{
    "purrgres_pid"
}

/// What reading a marker yields: nothing when the file is absent; otherwise
/// its content, trimmed, parsed as a decimal unsigned integer, with malformed
/// content treated as absence.
pub open spec fn read_spec(content: Option<Seq<char>>) -> Option<u32> {
    match content {
        None => None,
        Some(s) => parse_u32_spec(trim_spec(s)),
    }
}

/// In-memory model of the marker file: `content` is the file's text, or
/// `None` when no marker file exists.
pub struct MarkerStore {
    content: Option<String>,
}

impl View for MarkerStore {
    type V = Option<Seq<char>>;

    closed spec fn view(&self) -> Option<Seq<char>> {
        match self.content {
            None => None,
            Some(s) => Some(s@),
        }
    }
}

impl MarkerStore {
    /// A store that holds no marker.
    pub fn new() -> (r: Self)
        ensures
            r@ is None,
    {
        MarkerStore { content: None }
    }

    /// A store loaded from existing content (`None` when the marker file is
    /// absent).
    pub fn from_content(content: Option<String>) -> (r: Self)
        ensures
            r@ == match content {
                None => None::<Seq<char>>,
                Some(s) => Some(s@),
            },
    {
        MarkerStore { content }
    }

    /// Serializes `pid` as decimal text into the marker, creating or
    /// replacing it.
    pub fn write(&mut self, pid: u32)
        ensures
            final(self)@ == Some(dec_digits(pid as nat)),
    {
        self.content = Some(decimal_string(pid as u64));
    }

    /// The recorded pid, if the marker is present and its content parses as
    /// an unsigned integer; malformed content reads as absence.
    pub fn read(&self) -> (r: Option<u32>)
        ensures
            r == read_spec(self@),
    {
        match &self.content {
            None => None,
            Some(s) => parse_u32(trim_str(s.as_str())),
        }
    }

    /// Deletes the marker; clearing an absent marker is also fine.
    pub fn clear(&mut self)
        ensures
            final(self)@ is None,
    {
        self.content = None;
    }

    /// Whether a marker is present at all (whatever its content).
    pub fn is_present(&self) -> (r: bool)
        ensures
            r == (self@ is Some),
    {
        match &self.content {
            None => false,
            Some(_) => true,
        }
    }

    /// The content to persist: the marker file's text, or `None` when the
    /// file should not exist.
    pub fn content(&self) -> (r: &Option<String>)
        ensures
            self@ == match r {
                None => None::<Seq<char>>,
                Some(s) => Some(s@),
            },
    {
        &self.content
    }
}

/// A marker that was never written, or was cleared, reads as nothing.
pub proof fn lemma_absent_reads_none()
    ensures
        read_spec(None) is None,
{
}

/// Round trip: writing any pid and reading back yields exactly that pid.
pub proof fn lemma_write_read_roundtrip(pid: u32)
    ensures
        read_spec(Some(dec_digits(pid as nat))) == Some(pid),
{
    lemma_dec_digits_val(pid as nat);
    let d = dec_digits(pid as nat);
    assert(is_digit(d[0]));
    assert(is_digit(d.last()));
    assert(!is_space(d[0]));
    assert(!is_space(d.last()));
    lemma_trim_no_space(d);
    assert(parse_u32_spec(d) == Some(pid));
}

/// Content that is not a pure decimal number after trimming reads as
/// nothing (reading never fails, it only abstains).
pub proof fn lemma_non_numeric_reads_none(s: Seq<char>)
    requires
        exists|i: int| 0 <= i < trim_spec(s).len() && !is_digit(trim_spec(s)[i]),
    ensures
        read_spec(Some(s)) is None,
{
    assert(!all_digits(trim_spec(s)));
}

} // verus!
