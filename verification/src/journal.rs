//! The shapes of text that a journal entry's headline, tags and the scan
//! file names follow, each stated as what it matches.

use vstd::prelude::*;

use crate::text::{
    chars_occur_at, chars_of, occurs_at, run_end, run_len, sub_chars,
    unicode_decimal_char, CharClass, is_unicode_decimal, append_chars, ascii_lowered,
};

verus! {

// ---------------------------------------------------------------------------
// Replacing text
// ---------------------------------------------------------------------------

/// Every occurrence of `pat` in `s`, read left to right without overlap,
/// replaced by `rep` (`str::replace`).
pub open spec fn replace_all(s: Seq<char>, pat: Seq<char>, rep: Seq<char>) -> Seq<char>
    decreases s.len(),
{
    if s.len() == 0 {
        seq![]
    } else if pat.len() > 0 && occurs_at(s, 0, pat) {
        rep + replace_all(s.skip(pat.len() as int), pat, rep)
    } else {
        seq![s[0]] + replace_all(s.drop_first(), pat, rep)
    }
}

proof fn lemma_occurs_shift(s: Seq<char>, i: int, pat: Seq<char>)
    requires
        0 <= i <= s.len(),
    ensures
        occurs_at(s.skip(i), 0, pat) == occurs_at(s, i, pat),
{
    if occurs_at(s, i, pat) {
        assert(s.skip(i).subrange(0, pat.len() as int) =~= s.subrange(i, i + pat.len()));
    }
    if occurs_at(s.skip(i), 0, pat) {
        assert(s.skip(i).subrange(0, pat.len() as int) =~= s.subrange(i, i + pat.len()));
    }
}

pub fn replace_chars(s: &Vec<char>, pat: &Vec<char>, rep: &Vec<char>) -> (r: Vec<char>)
    requires
        pat.len() > 0,
    ensures
        r@ == replace_all(s@, pat@, rep@),
{
    let mut out: Vec<char> = Vec::new();
    let mut i: usize = 0;
    assert(s@.skip(0) =~= s@);
    while i < s.len()
        invariant
            i <= s.len(),
            pat.len() > 0,
            out@ + replace_all(s@.skip(i as int), pat@, rep@) == replace_all(s@, pat@, rep@),
        decreases s.len() - i,
    {
        let ghost t = s@.skip(i as int);
        proof {
            lemma_occurs_shift(s@, i as int, pat@);
        }
        if chars_occur_at(s, i, pat) {
            assert(t.skip(pat.len() as int) =~= s@.skip(i + pat.len()));
            let ghost before = out@;
            append_chars(&mut out, rep);
            assert(out@ + replace_all(s@.skip(i + pat.len()), pat@, rep@) =~= before
                + replace_all(t, pat@, rep@));
            i = i + pat.len();
        } else {
            assert(t.drop_first() =~= s@.skip(i + 1));
            let ghost before = out@;
            out.push(s[i]);
            assert(out@ + replace_all(s@.skip(i + 1), pat@, rep@) =~= before + replace_all(
                t,
                pat@,
                rep@,
            ));
            i = i + 1;
        }
    }
    assert(replace_all(s@.skip(i as int), pat@, rep@) == Seq::<char>::empty());
    assert(out@ + Seq::<char>::empty() =~= out@);
    out
}

pub open spec fn all_ascii(s: Seq<char>) -> bool {
    forall|i: int| 0 <= i < s.len() ==> (#[trigger] s[i] as u32) < 128
}

/// What `str::to_lowercase` yields for a text.
pub uninterp spec fn lowercase(s: Seq<char>) -> Seq<char>;

/// `str::to_lowercase`: Unicode lowercase mapping. On ASCII text it lowers
/// the letters `A`-`Z` and keeps every other character.
#[verifier::external_body]
fn to_lowercase(s: &str) -> (r: String)
    ensures
        r@ == lowercase(s@),
        all_ascii(s@) ==> r@ == ascii_lowered(s@),
{
    s.to_lowercase()
}

pub fn lowercase_chars(s: &Vec<char>) -> (r: Vec<char>)
    ensures
        r@ == lowercase(s@),
        all_ascii(s@) ==> r@ == ascii_lowered(s@),
{
    let text = crate::text::string_of(s);
    let lowered = to_lowercase(text.as_str());
    chars_of(lowered.as_str())
}

// ---------------------------------------------------------------------------
// Tag shapes
// ---------------------------------------------------------------------------

/// A shutter-speed tag: `(1/)?\d+s` is found in it, that is, some decimal
/// digit is followed by `s`.
pub open spec fn is_shutter_tag(t: Seq<char>) -> bool {
    exists|i: int| 0 <= i && i + 1 < t.len() && #[trigger] is_unicode_decimal(t[i]) && t[i + 1] == 's'
}

pub fn shutter_tag(t: &Vec<char>) -> (r: bool)
    ensures
        r == is_shutter_tag(t@),
{
    let mut i: usize = 0;
    while i < t.len()
        invariant
            i <= t.len(),
            forall|j: int| 0 <= j < i && j + 1 < t.len() ==> !(#[trigger] is_unicode_decimal(t@[j]) && t@[j + 1] == 's'),
        decreases t.len() - i,
    {
        if i + 1 < t.len() && unicode_decimal_char(t[i]) && t[i + 1] == 's' {
            return true;
        }
        i = i + 1;
    }
    false
}

/// The digits of the leftmost `(\d+)mm` at or after position `i`.
pub open spec fn focal_digits_from(t: Seq<char>, i: int) -> Option<Seq<char>>
    decreases t.len() - i,
{
    if i < 0 || i >= t.len() {
        None
    } else {
        let r = i + run_len(t.skip(i), CharClass::UnicodeDigit);
        if r > i && occurs_at(t, r, "mm"@) {
            Some(t.subrange(i, r))
        } else {
            focal_digits_from(t, i + 1)
        }
    }
}

proof fn lemma_focal_digits_from_nonempty(t: Seq<char>, i: int)
    ensures
        focal_digits_from(t, i) matches Some(d) ==> d.len() > 0,
    decreases t.len() - i,
{
    if 0 <= i < t.len() {
        let r = i + run_len(t.skip(i), CharClass::UnicodeDigit);
        if !(r > i && occurs_at(t, r, "mm"@)) {
            lemma_focal_digits_from_nonempty(t, i + 1);
        }
    }
}

/// The digits a lens tag gives are at least one.
pub proof fn lemma_focal_digits_nonempty(t: Seq<char>)
    ensures
        focal_digits(t) matches Some(d) ==> d.len() > 0,
{
    lemma_focal_digits_from_nonempty(t, 0);
}

/// The digits captured by `(\d+)mm` in a lens tag.
pub open spec fn focal_digits(t: Seq<char>) -> Option<Seq<char>> {
    focal_digits_from(t, 0)
}

pub fn focal_length_digits(t: &Vec<char>) -> (r: Option<Vec<char>>)
    ensures
        match focal_digits(t@) {
            None => r is None,
            Some(d) => r matches Some(v) && v@ == d,
        },
{
    let mm = chars_of("mm");
    let mut i: usize = 0;
    while i < t.len()
        invariant
            i <= t.len(),
            mm@ == "mm"@,
            focal_digits(t@) == focal_digits_from(t@, i as int),
        decreases t.len() - i,
    {
        let r = run_end(t, i, &CharClass::UnicodeDigit);
        if r > i && chars_occur_at(t, r, &mm) {
            return Some(sub_chars(t, i, r));
        }
        i = i + 1;
    }
    None
}

// ---------------------------------------------------------------------------
// The leader headline: `# (.*) - ((120)|(35mm)) (\(.*\))`
// ---------------------------------------------------------------------------

/// No newline in `t[a..b]`.
pub open spec fn no_newline(t: Seq<char>, a: int, b: int) -> bool {
    forall|k: int| a <= k < b ==> #[trigger] t[k] != '\n'
}

/// `\(.*\)` matches at `p`: an opening parenthesis, then a closing one later
/// on the same line.
pub open spec fn paren_group_at(t: Seq<char>, p: int) -> bool {
    &&& 0 <= p < t.len()
    &&& t[p] == '('
    &&& exists|k: int| p < k < t.len() && #[trigger] t[k] == ')' && no_newline(t, p + 1, k)
}

/// ` - 120 (...)` or ` - 35mm (...)` starts at `j`.
pub open spec fn leader_tail_at(t: Seq<char>, j: int) -> bool {
    ||| occurs_at(t, j, " - 120 "@) && paren_group_at(t, j + 7)
    ||| occurs_at(t, j, " - 35mm "@) && paren_group_at(t, j + 8)
}

/// The headline pattern matches from `i` with the emulsion name ending at `j`.
pub open spec fn leader_match(t: Seq<char>, i: int, j: int) -> bool {
    &&& occurs_at(t, i, "# "@)
    &&& i + 2 <= j
    &&& no_newline(t, i + 2, j)
    &&& leader_tail_at(t, j)
}

#[verifier::opaque]
pub open spec fn leader_starts_at(t: Seq<char>, i: int) -> bool {
    exists|j: int| leader_match(t, i, j)
}

/// The emulsion name in a leader entry's text: the first group of the
/// leftmost match, as long as the rest of the pattern allows (the group is
/// greedy); empty when the pattern does not match.
pub open spec fn leader_emulsion(t: Seq<char>) -> Seq<char> {
    if exists|i: int| leader_starts_at(t, i) {
        let i = choose|i: int|
            leader_starts_at(t, i) && forall|i2: int| i2 < i ==> !leader_starts_at(t, i2);
        let j = choose|j: int|
            leader_match(t, i, j) && forall|j2: int| j2 > j ==> !leader_match(t, i, j2);
        t.subrange(i + 2, j)
    } else {
        Seq::empty()
    }
}

fn paren_group(t: &Vec<char>, p: usize) -> (r: bool)
    ensures
        r == paren_group_at(t@, p as int),
{
    if p >= t.len() || t[p] != '(' {
        return false;
    }
    let mut k = p + 1;
    while k < t.len() && t[k] != '\n'
        invariant
            p < k <= t.len(),
            t@[p as int] == '(',
            no_newline(t@, p + 1, k as int),
            forall|m: int| p < m < k ==> t@[m] != ')',
        decreases t.len() - k,
    {
        if t[k] == ')' {
            assert(no_newline(t@, p + 1, k as int));
            return true;
        }
        k = k + 1;
    }
    proof {
        if paren_group_at(t@, p as int) {
            let m = choose|m: int| p < m < t@.len() && #[trigger] t@[m] == ')' && no_newline(t@, p + 1, m);
            if m >= k {
                assert(t@[k as int] == '\n');
                assert(t@[k as int] != '\n');
            }
        }
    }
    false
}

fn leader_tail(t: &Vec<char>, j: usize, dash120: &Vec<char>, dash35: &Vec<char>) -> (r: bool)
    requires
        dash120@ == " - 120 "@,
        dash35@ == " - 35mm "@,
        j <= t.len(),
    ensures
        r == leader_tail_at(t@, j as int),
{
    proof {
        reveal_strlit(" - 120 ");
        reveal_strlit(" - 35mm ");
    }
    (chars_occur_at(t, j, dash120) && paren_group(t, j + 7)) || (chars_occur_at(t, j, dash35)
        && paren_group(t, j + 8))
}

/// The largest end of the name for a match starting at `i`, whose line
/// (after the `# `) ends at `e`.
fn last_leader_end(
    t: &Vec<char>,
    i: usize,
    e: usize,
    dash120: &Vec<char>,
    dash35: &Vec<char>,
) -> (r: Option<usize>)
    requires
        i + 2 <= e <= t.len(),
        occurs_at(t@, i as int, "# "@),
        no_newline(t@, i + 2, e as int),
        e < t.len() ==> t@[e as int] == '\n',
        dash120@ == " - 120 "@,
        dash35@ == " - 35mm "@,
    ensures
        match r {
            None => forall|j2: int| !leader_match(t@, i as int, j2),
            Some(j) => leader_match(t@, i as int, j as int) && forall|j2: int|
                j2 > j ==> !leader_match(t@, i as int, j2),
        },
{
    let mut j = e;
    loop
        invariant
            i + 2 <= j <= e,
            e <= t.len(),
            occurs_at(t@, i as int, "# "@),
            no_newline(t@, i + 2, e as int),
            e < t.len() ==> t@[e as int] == '\n',
            dash120@ == " - 120 "@,
            dash35@ == " - 35mm "@,
            forall|j2: int| j2 > j ==> !leader_match(t@, i as int, j2),
        ensures
            forall|j2: int| j2 >= i + 2 ==> !leader_match(t@, i as int, j2),
        decreases j,
    {
        if leader_tail(t, j, dash120, dash35) {
            assert(no_newline(t@, i + 2, j as int));
            return Some(j);
        }
        if j == i + 2 {
            break ;
        }
        j = j - 1;
    }
    proof {
        assert forall|j2: int| !leader_match(t@, i as int, j2) by {
            if j2 > e && leader_match(t@, i as int, j2) {
                assert(!(#[trigger] t@[e as int] != '\n'));
            }
        }
    }
    None
}

/// Whether the pattern matches from `i`, and where the name then ends.
fn leader_end_from(
    t: &Vec<char>,
    i: usize,
    hash: &Vec<char>,
    dash120: &Vec<char>,
    dash35: &Vec<char>,
) -> (r: Option<usize>)
    requires
        i <= t.len(),
        hash@ == "# "@,
        dash120@ == " - 120 "@,
        dash35@ == " - 35mm "@,
    ensures
        match r {
            None => !leader_starts_at(t@, i as int),
            Some(j) => leader_match(t@, i as int, j as int) && forall|j2: int|
                j2 > j ==> !leader_match(t@, i as int, j2),
        },
{
    proof {
        reveal_strlit("# ");
        reveal(leader_starts_at);
    }
    if !chars_occur_at(t, i, hash) {
        return None;
    }
    // The end of the line that the name lies on.
    let e = run_end(t, i + 2, &CharClass::NotNewline);
    proof {
        crate::text::lemma_run_len_bound(t@.skip(i + 2), CharClass::NotNewline);
        assert forall|k: int| i + 2 <= k < e implies #[trigger] t@[k] != '\n' by {
            assert(t@.skip(i + 2)[k - (i + 2)] == t@[k]);
        }
        if e < t.len() {
            assert(t@.skip(i + 2)[e - (i + 2)] == t@[e as int]);
        }
    }
    last_leader_end(t, i, e, dash120, dash35)
}

pub fn extract_emulsion_name_from_leader_text(t: &Vec<char>) -> (r: Vec<char>)
    ensures
        r@ == leader_emulsion(t@),
{
    let hash = chars_of("# ");
    let dash120 = chars_of(" - 120 ");
    let dash35 = chars_of(" - 35mm ");
    let mut i: usize = 0;
    assert forall|i2: int| i2 < 0 implies !leader_starts_at(t@, i2) by {
        reveal(leader_starts_at);
    }
    while i < t.len()
        invariant
            i <= t.len(),
            hash@ == "# "@,
            dash120@ == " - 120 "@,
            dash35@ == " - 35mm "@,
            forall|i2: int| i2 < i ==> !leader_starts_at(t@, i2),
        decreases t.len() - i,
    {
        match leader_end_from(t, i, &hash, &dash120, &dash35) {
            Some(j) => {
                proof {
                    lemma_leader_choice(t@, i as int, j as int);
                }
                let r = sub_chars(t, i + 2, j);
                return r;
            },
            None => {},
        }
        i = i + 1;
    }
    proof {
        reveal(leader_starts_at);
        assert forall|i2: int| !leader_starts_at(t@, i2) by {
            if i2 >= t.len() && leader_starts_at(t@, i2) {
                let j2 = choose|j2: int| leader_match(t@, i2, j2);
            }
        }
    }
    Vec::new()
}

proof fn lemma_leader_choice(t: Seq<char>, i: int, j: int)
    requires
        leader_match(t, i, j),
        forall|i2: int| i2 < i ==> !leader_starts_at(t, i2),
        forall|j2: int| j2 > j ==> !leader_match(t, i, j2),
    ensures
        leader_emulsion(t) == t.subrange(i + 2, j),
{
    reveal(leader_starts_at);
    assert(leader_starts_at(t, i));
    let ci = choose|ci: int|
        leader_starts_at(t, ci) && forall|i2: int| i2 < ci ==> !leader_starts_at(t, i2);
    assert(ci == i) by {
        if ci < i {
        } else if ci > i {
        }
    }
    let cj = choose|cj: int|
        leader_match(t, i, cj) && forall|j2: int| j2 > cj ==> !leader_match(t, i, j2);
    assert(cj == j) by {
        if cj < j {
        } else if cj > j {
        }
    }
}

// ---------------------------------------------------------------------------
// Scan file names: `(([1-9])|([1-9][0-9]))$`
// ---------------------------------------------------------------------------

/// The frame number at the end of a scan's file name: the last two
/// characters when they are a digit 1-9 and a digit, else the last one
/// when it is a digit 1-9.
pub open spec fn frame_suffix(s: Seq<char>) -> Option<Seq<char>> {
    let n = s.len() as int;
    if n >= 2 && '1' <= s[n - 2] <= '9' && '0' <= s[n - 1] <= '9' {
        Some(s.subrange(n - 2, n))
    } else if n >= 1 && '1' <= s[n - 1] <= '9' {
        Some(s.subrange(n - 1, n))
    } else {
        None
    }
}

pub fn scan_frame_suffix(s: &Vec<char>) -> (r: Option<Vec<char>>)
    ensures
        match frame_suffix(s@) {
            None => r is None,
            Some(d) => r matches Some(v) && v@ == d,
        },
{
    let n = s.len();
    if n >= 2 && '1' <= s[n - 2] && s[n - 2] <= '9' && '0' <= s[n - 1] && s[n - 1] <= '9' {
        Some(sub_chars(s, n - 2, n))
    } else if n >= 1 && '1' <= s[n - 1] && s[n - 1] <= '9' {
        Some(sub_chars(s, n - 1, n))
    } else {
        None
    }
}

} // verus!
