//! Plain-text utilities the daemon's file formats rest on: whitespace
//! trimming, whitespace-separated tokens, and substring replacement.
//! Whitespace here means the four ASCII whitespace characters; every text
//! this tool writes or reads is ASCII.

use vstd::prelude::*;

verus! {

/// Whether a character is ASCII whitespace.
pub open spec fn is_space(c: char) -> bool {
    c == ' ' || c == '\t' || c == '\n' || c == '\r'
}

/// Runtime test for [`is_space`].
pub fn is_space_char(c: char) -> (r: bool)
    ensures
        r == is_space(c),
{
    c == ' ' || c == '\t' || c == '\n' || c == '\r'
}

/// `s` without its leading whitespace.
pub open spec fn trim_left_spec(s: Seq<char>) -> Seq<char>
    decreases s.len(),
{
    if s.len() > 0 && is_space(s[0]) {
        trim_left_spec(s.skip(1))
    } else {
        s
    }
}

/// `s` without its trailing whitespace.
pub open spec fn trim_right_spec(s: Seq<char>) -> Seq<char>
    decreases s.len(),
{
    if s.len() > 0 && is_space(s.last()) {
        trim_right_spec(s.drop_last())
    } else {
        s
    }
}

/// `s` without leading and trailing whitespace.
pub open spec fn trim_spec(s: Seq<char>) -> Seq<char> {
    trim_right_spec(trim_left_spec(s))
}

/// A nonempty string that neither starts nor ends with whitespace trims to
/// itself.
pub proof fn lemma_trim_no_space(s: Seq<char>)
    requires
        s.len() > 0,
        !is_space(s[0]),
        !is_space(s.last()),
    ensures
        trim_spec(s) == s,
{
}

/// Removes leading and trailing ASCII whitespace.
pub fn trim_str<'a>(s: &'a str) -> (r: &'a str)
    ensures
        r@ == trim_spec(s@),
{
    let len = s.unicode_len();
    let mut a: usize = 0;
    proof {
        assert(s@.skip(0) =~= s@);
    }
    while a < len
        invariant
            a <= len,
            len == s@.len(),
            trim_left_spec(s@) == trim_left_spec(s@.skip(a as int)),
        ensures
            a <= len,
            len == s@.len(),
            trim_left_spec(s@) == trim_left_spec(s@.skip(a as int)),
            a == len || !is_space(s@[a as int]),
        decreases len - a,
    {
        if !is_space_char(s.get_char(a)) {
            break;
        }
        proof {
            assert(s@.skip(a as int)[0] == s@[a as int]);
            assert(s@.skip(a as int).skip(1) =~= s@.skip(a + 1));
        }
        a = a + 1;
    }
    proof {
        if a == len {
            assert(s@.skip(a as int) =~= Seq::<char>::empty());
        }
        assert(trim_left_spec(s@) == s@.skip(a as int));
    }
    let mut b: usize = len;
    while b > a
        invariant
            a <= b <= len,
            len == s@.len(),
            trim_right_spec(s@.skip(a as int)) == trim_right_spec(s@.subrange(a as int, b as int)),
        ensures
            a <= b <= len,
            len == s@.len(),
            trim_right_spec(s@.skip(a as int)) == trim_right_spec(s@.subrange(a as int, b as int)),
            b == a || !is_space(s@[b - 1]),
        decreases b,
    {
        if !is_space_char(s.get_char(b - 1)) {
            break;
        }
        proof {
            let cur = s@.subrange(a as int, b as int);
            assert(cur.last() == s@[b - 1]);
            assert(cur.drop_last() =~= s@.subrange(a as int, b - 1));
        }
        b = b - 1;
    }
    proof {
        assert(s@.skip(a as int) =~= s@.subrange(a as int, len as int));
        let fin = s@.subrange(a as int, b as int);
        if b == a {
            assert(fin =~= Seq::<char>::empty());
        } else {
            assert(fin.last() == s@[b - 1]);
        }
        assert(trim_right_spec(fin) == fin);
    }
    s.substring_char(a, b)
}

/// Length of the leading run of non-whitespace characters.
pub open spec fn token_len(s: Seq<char>) -> nat
    decreases s.len(),
{
    if s.len() == 0 || is_space(s[0]) {
        0nat
    } else {
        1nat + token_len(s.skip(1))
    }
}

/// The leading token is never longer than the string.
proof fn lemma_token_len_le(s: Seq<char>)
    ensures
        token_len(s) <= s.len(),
    decreases s.len(),
{
    if s.len() > 0 && !is_space(s[0]) {
        lemma_token_len_le(s.skip(1));
    }
}

/// The whitespace-separated tokens of `s`, in order.
pub open spec fn tokens(s: Seq<char>) -> Seq<Seq<char>>
    decreases s.len(),
    via tokens_decreases
{
    if s.len() == 0 {
        Seq::empty()
    } else if is_space(s[0]) {
        tokens(s.skip(1))
    } else {
        seq![s.take(token_len(s) as int)] + tokens(s.skip(token_len(s) as int))
    }
}

#[via_fn]
proof fn tokens_decreases(s: Seq<char>) {
    lemma_token_len_le(s);
}

/// The views of a sequence of strings.
pub open spec fn string_views(q: Seq<String>) -> Seq<Seq<char>> {
    q.map(|i: int, t: String| t@)
}

/// A run of non-whitespace characters bounded by the end of the string or a
/// whitespace character is exactly the leading token of the suffix.
proof fn lemma_token_run(s: Seq<char>, i: int, j: int)
    requires
        0 <= i <= j <= s.len(),
        forall|k: int| i <= k < j ==> !is_space(s[k]),
        j == s.len() || is_space(s[j]),
    ensures
        token_len(s.skip(i)) == j - i,
    decreases j - i,
{
    if i == j {
        if i < s.len() {
            assert(s.skip(i)[0] == s[i]);
        }
    } else {
        assert(s.skip(i)[0] == s[i]);
        assert(s.skip(i).skip(1) =~= s.skip(i + 1));
        lemma_token_run(s, i + 1, j);
    }
}

/// Splits `s` at ASCII whitespace, dropping empty pieces.
pub fn split_whitespace_vec(s: &str) -> (r: Vec<String>)
    ensures
        string_views(r@) == tokens(s@),
{
    let len = s.unicode_len();
    let mut r: Vec<String> = Vec::new();
    let mut i: usize = 0;
    proof {
        assert(string_views(r@) =~= Seq::<Seq<char>>::empty());
        assert(s@.skip(0) =~= s@);
    }
    while i < len
        invariant
            i <= len,
            len == s@.len(),
            string_views(r@) + tokens(s@.skip(i as int)) == tokens(s@),
        decreases len - i,
    {
        if is_space_char(s.get_char(i)) {
            proof {
                assert(s@.skip(i as int)[0] == s@[i as int]);
                assert(s@.skip(i as int).skip(1) =~= s@.skip(i + 1));
            }
            i = i + 1;
        } else {
            let mut j = i + 1;
            while j < len
                invariant
                    i < j <= len,
                    len == s@.len(),
                    forall|k: int| i <= k < j ==> !is_space(s@[k]),
                ensures
                    i < j <= len,
                    len == s@.len(),
                    forall|k: int| i <= k < j ==> !is_space(s@[k]),
                    j == len || is_space(s@[j as int]),
                decreases len - j,
            {
                if is_space_char(s.get_char(j)) {
                    break;
                }
                j = j + 1;
            }
            let t = s.substring_char(i, j).to_owned();
            proof {
                lemma_token_run(s@, i as int, j as int);
                assert(s@.skip(i as int).take(j - i) =~= s@.subrange(i as int, j as int));
                assert(s@.skip(i as int).skip(j - i) =~= s@.skip(j as int));
                assert(tokens(s@.skip(i as int)) == seq![s@.subrange(i as int, j as int)] + tokens(
                    s@.skip(j as int),
                ));
            }
            let ghost old_r = r@;
            r.push(t);
            proof {
                assert(string_views(r@) =~= string_views(old_r).push(t@));
                assert(string_views(old_r).push(t@) + tokens(s@.skip(j as int)) =~= string_views(
                    old_r,
                ) + (seq![s@.subrange(i as int, j as int)] + tokens(s@.skip(j as int))));
            }
            i = j;
        }
    }
    proof {
        assert(s@.skip(len as int) =~= Seq::<char>::empty());
        assert(string_views(r@) + tokens(s@.skip(len as int)) =~= string_views(r@));
    }
    r
}

/// A decimal digit is not whitespace.
pub proof fn lemma_digit_not_space(c: char)
    requires
        crate::num_text::is_digit(c),
    ensures
        !is_space(c),
{
    assert(' ' as u32 == 32);
    assert('\t' as u32 == 9);
    assert('\n' as u32 == 10);
    assert('\r' as u32 == 13);
}

/// No character of `s` is whitespace.
pub open spec fn no_space(s: Seq<char>) -> bool {
    forall|i: int| 0 <= i < s.len() ==> !is_space(#[trigger] s[i])
}

/// Whitespace-freedom carries over concatenation.
pub proof fn lemma_no_space_concat(a: Seq<char>, b: Seq<char>)
    requires
        no_space(a),
        no_space(b),
    ensures
        no_space(a + b),
{
    assert forall|i: int| 0 <= i < (a + b).len() implies !is_space((a + b)[i]) by {
        if i < a.len() {
            assert((a + b)[i] == a[i]);
        } else {
            assert((a + b)[i] == b[i - a.len()]);
        }
    }
}

/// No character of `s` is a newline.
pub open spec fn no_newline(s: Seq<char>) -> bool {
    forall|i: int| 0 <= i < s.len() ==> s[i] != '\n'
}

/// Newline-freedom carries over concatenation.
pub proof fn lemma_no_newline_concat(a: Seq<char>, b: Seq<char>)
    requires
        no_newline(a),
        no_newline(b),
    ensures
        no_newline(a + b),
{
    assert forall|i: int| 0 <= i < (a + b).len() implies (a + b)[i] != '\n' by {
        if i < a.len() {
            assert((a + b)[i] == a[i]);
        } else {
            assert((a + b)[i] == b[i - a.len()]);
        }
    }
}

/// A string without whitespace holds no newline.
pub proof fn lemma_no_space_no_newline(s: Seq<char>)
    requires
        no_space(s),
    ensures
        no_newline(s),
{
}

/// A leading run of non-whitespace, followed by nothing or by whitespace,
/// is the first token.
pub proof fn lemma_tokens_leading_token(tok: Seq<char>, rest: Seq<char>)
    requires
        tok.len() > 0,
        no_space(tok),
        rest.len() == 0 || is_space(rest[0]),
    ensures
        tokens(tok + rest) == seq![tok] + tokens(rest),
{
    let s = tok + rest;
    assert(s[0] == tok[0]);
    assert forall|k: int| 0 <= k < tok.len() implies !is_space(s[k]) by {
        assert(s[k] == tok[k]);
    }
    if rest.len() > 0 {
        assert(s[tok.len() as int] == rest[0]);
    }
    lemma_token_run(s, 0, tok.len() as int);
    assert(s.skip(0) =~= s);
    assert(token_len(s) == tok.len());
    assert(s.take(token_len(s) as int) =~= tok);
    assert(s.skip(token_len(s) as int) =~= rest);
}

/// A leading whitespace character opens no token.
pub proof fn lemma_tokens_after_space(c: char, rest: Seq<char>)
    requires
        is_space(c),
    ensures
        tokens(seq![c] + rest) == tokens(rest),
{
    let s = seq![c] + rest;
    assert(s[0] == c);
    assert(s.skip(1) =~= rest);
}

/// Whether `pat` occurs in `s` at position `at`.
pub open spec fn match_at(s: Seq<char>, pat: Seq<char>, at: int) -> bool {
    &&& 0 <= at
    &&& at + pat.len() <= s.len()
    &&& s.subrange(at, at + pat.len()) == pat
}

/// `s` with every non-overlapping occurrence of `from` (scanned left to
/// right) replaced by `to`.
pub open spec fn replace_spec(s: Seq<char>, from: Seq<char>, to: Seq<char>) -> Seq<char>
    decreases s.len(),
{
    if from.len() == 0 || s.len() < from.len() {
        s
    } else if s.take(from.len() as int) == from {
        to + replace_spec(s.skip(from.len() as int), from, to)
    } else {
        seq![s[0]] + replace_spec(s.skip(1), from, to)
    }
}

/// Over a stretch with no occurrence of `from`, replacement copies the text.
proof fn lemma_replace_no_match(s: Seq<char>, from: Seq<char>, to: Seq<char>, i: int, j: int)
    requires
        from.len() > 0,
        0 <= i <= j <= s.len(),
        forall|k: int| i <= k < j ==> !match_at(s, from, k),
    ensures
        replace_spec(s.skip(i), from, to) == s.subrange(i, j) + replace_spec(s.skip(j), from, to),
    decreases j - i,
{
    if i == j {
        assert(s.subrange(i, j) =~= Seq::<char>::empty());
        assert(s.subrange(i, j) + replace_spec(s.skip(j), from, to) =~= replace_spec(
            s.skip(i),
            from,
            to,
        ));
    } else {
        let rest = s.skip(i);
        if rest.len() < from.len() {
            // No room for a match anywhere in [i, j): the copied stretch plus
            // the short tail is the tail itself.
            assert(s.skip(j).len() < from.len());
            assert(s.subrange(i, j) + s.skip(j) =~= s.skip(i));
        } else {
            assert(rest.take(from.len() as int) =~= s.subrange(i, i + from.len()));
            assert(!match_at(s, from, i));
            assert(rest.take(from.len() as int) != from);
            assert(rest.skip(1) =~= s.skip(i + 1));
            lemma_replace_no_match(s, from, to, i + 1, j);
            assert(rest[0] == s[i]);
            assert(seq![s[i]] + (s.subrange(i + 1, j) + replace_spec(s.skip(j), from, to))
                =~= s.subrange(i, j) + replace_spec(s.skip(j), from, to));
        }
    }
}

/// Whether `pat` occurs at position `at`, checked character by character.
pub fn str_match_at(s: &str, at: usize, pat: &str) -> (r: bool)
    requires
        at + pat@.len() <= s@.len(),
    ensures
        r == (s@.subrange(at as int, at + pat@.len()) == pat@),
{
    let slen = s.unicode_len();
    let plen = pat.unicode_len();
    let mut k: usize = 0;
    while k < plen
        invariant
            k <= plen,
            plen == pat@.len(),
            slen == s@.len(),
            at + plen <= slen,
            forall|m: int| 0 <= m < k ==> s@[at + m] == pat@[m],
        ensures
            k <= plen,
            plen == pat@.len(),
            slen == s@.len(),
            at + plen <= slen,
            forall|m: int| 0 <= m < k ==> s@[at + m] == pat@[m],
            k == plen || s@[at + k] != pat@[k as int],
        decreases plen - k,
    {
        if s.get_char(at + k) != pat.get_char(k) {
            break;
        }
        k = k + 1;
    }
    proof {
        if k == plen {
            assert(s@.subrange(at as int, at + pat@.len()) =~= pat@);
        } else {
            assert(s@.subrange(at as int, at + pat@.len())[k as int] == s@[at + k]);
        }
    }
    k == plen
}

/// Replaces every occurrence of `from` in `s` by `to`, scanning left to
/// right without overlap.
pub fn replace_all(s: &str, from: &str, to: &str) -> (r: String)
    requires
        from@.len() > 0,
    ensures
        r@ == replace_spec(s@, from@, to@),
{
    let len = s.unicode_len();
    let flen = from.unicode_len();
    let mut r = String::new();
    let mut i: usize = 0;
    proof {
        assert(s@.skip(0) =~= s@);
    }
    while i < len
        invariant
            i <= len,
            len == s@.len(),
            flen == from@.len(),
            flen > 0,
            r@ + replace_spec(s@.skip(i as int), from@, to@) == replace_spec(s@, from@, to@),
        decreases len - i,
    {
        let mut j = i;
        let mut found = false;
        while j < len
            invariant_except_break
                !found,
            invariant
                i <= j <= len,
                len == s@.len(),
                flen == from@.len(),
                flen > 0,
                forall|k: int| i <= k < j ==> !match_at(s@, from@, k),
            ensures
                i <= j <= len,
                len == s@.len(),
                flen == from@.len(),
                flen > 0,
                forall|k: int| i <= k < j ==> !match_at(s@, from@, k),
                found ==> j + flen <= len && s@.subrange(j as int, j + flen) == from@,
                !found ==> j == len,
            decreases len - j,
        {
            if flen <= len - j {
                if str_match_at(s, j, from) {
                    found = true;
                    break;
                }
            }
            proof {
                assert(!match_at(s@, from@, j as int));
            }
            j = j + 1;
        }
        let ghost r_before = r@;
        let piece = s.substring_char(i, j);
        r.append(piece);
        proof {
            lemma_replace_no_match(s@, from@, to@, i as int, j as int);
        }
        if found {
            r.append(to);
            proof {
                let rest = s@.skip(j as int);
                assert(rest.take(flen as int) =~= s@.subrange(j as int, j + flen));
                assert(rest.skip(flen as int) =~= s@.skip(j + flen));
                assert(replace_spec(rest, from@, to@) == to@ + replace_spec(
                    s@.skip(j + flen),
                    from@,
                    to@,
                ));
                assert(r@ + replace_spec(s@.skip(j + flen), from@, to@) =~= r_before + (s@.subrange(
                    i as int,
                    j as int,
                ) + replace_spec(rest, from@, to@)));
            }
            i = j + flen;
        } else {
            proof {
                assert(r@ + replace_spec(s@.skip(j as int), from@, to@) =~= r_before + (s@.subrange(
                    i as int,
                    j as int,
                ) + replace_spec(s@.skip(j as int), from@, to@)));
            }
            i = j;
        }
    }
    proof {
        assert(s@.skip(len as int) =~= Seq::<char>::empty());
        assert(r@ + replace_spec(s@.skip(len as int), from@, to@) =~= r@);
    }
    r
}

} // verus!
