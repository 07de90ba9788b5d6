//! Text as sequences of characters: the splitting and scanning that the
//! journal format relies on, each stated over `Seq<char>`.

use vstd::prelude::*;

verus! {

// ---------------------------------------------------------------------------
// Character classes
// ---------------------------------------------------------------------------

/// Unicode `White_Space`, the class of `char::is_whitespace`.
pub open spec fn is_whitespace(c: char) -> bool {
    let u = c as u32;
    ||| 9 <= u <= 13
    ||| u == 32
    ||| u == 0x85
    ||| u == 0xA0
    ||| u == 0x1680
    ||| 0x2000 <= u <= 0x200A
    ||| u == 0x2028
    ||| u == 0x2029
    ||| u == 0x202F
    ||| u == 0x205F
    ||| u == 0x3000
}

pub open spec fn is_ascii_digit(c: char) -> bool {
    '0' <= c <= '9'
}

pub fn whitespace_char(c: char) -> (r: bool)
    ensures
        r == is_whitespace(c),
{
    let u = c as u32;
    (9 <= u && u <= 13) || u == 32 || u == 0x85 || u == 0xA0 || u == 0x1680 || (0x2000 <= u && u
        <= 0x200A) || u == 0x2028 || u == 0x2029 || u == 0x202F || u == 0x205F || u == 0x3000
}

pub fn ascii_digit_char(c: char) -> (r: bool)
    ensures
        r == is_ascii_digit(c),
{
    '0' <= c && c <= '9'
}

/// The classes of characters that the scanners below run over.
pub enum CharClass {
    Space,
    NonSpace,
    NotNewline,
    AsciiDigit,
    UnicodeDigit,
}

pub open spec fn in_class(k: CharClass, c: char) -> bool {
    match k {
        CharClass::Space => is_whitespace(c),
        CharClass::NonSpace => !is_whitespace(c),
        CharClass::NotNewline => c != '\n',
        CharClass::AsciiDigit => is_ascii_digit(c),
        CharClass::UnicodeDigit => is_unicode_decimal(c),
    }
}

pub fn char_in_class(k: &CharClass, c: char) -> (r: bool)
    ensures
        r == in_class(*k, c),
{
    match k {
        CharClass::Space => whitespace_char(c),
        CharClass::NonSpace => !whitespace_char(c),
        CharClass::NotNewline => c != '\n',
        CharClass::AsciiDigit => ascii_digit_char(c),
        CharClass::UnicodeDigit => unicode_decimal_char(c),
    }
}

/// Length of the longest prefix of `s` whose characters are all in class `k`.
pub open spec fn run_len(s: Seq<char>, k: CharClass) -> nat
    decreases s.len(),
{
    if s.len() > 0 && in_class(k, s[0]) {
        1 + run_len(s.drop_first(), k)
    } else {
        0
    }
}

pub proof fn lemma_run_len_bound(s: Seq<char>, k: CharClass)
    ensures
        run_len(s, k) <= s.len(),
        forall|i: int| 0 <= i < run_len(s, k) ==> in_class(k, #[trigger] s[i]),
        run_len(s, k) < s.len() ==> !in_class(k, s[run_len(s, k) as int]),
    decreases s.len(),
{
    if s.len() > 0 && in_class(k, s[0]) {
        lemma_run_len_bound(s.drop_first(), k);
        assert forall|i: int| 0 <= i < run_len(s, k) implies in_class(k, #[trigger] s[i]) by {
            if i > 0 {
                assert(s[i] == s.drop_first()[i - 1]);
            }
        }
    }
}

/// A prefix of length `n` all in class `k`, followed by the end or by a
/// character outside the class, is the run.
pub proof fn lemma_run_len_is(s: Seq<char>, k: CharClass, n: int)
    requires
        0 <= n <= s.len(),
        forall|i: int| 0 <= i < n ==> in_class(k, #[trigger] s[i]),
        n < s.len() ==> !in_class(k, s[n]),
    ensures
        run_len(s, k) == n,
    decreases n,
{
    if n > 0 {
        assert forall|i: int| 0 <= i < n - 1 implies in_class(k, #[trigger] s.drop_first()[i]) by {
            assert(s.drop_first()[i] == s[i + 1]);
        }
        lemma_run_len_is(s.drop_first(), k, n - 1);
    }
}

/// The end of the run of class `k` that starts at `start`.
pub fn run_end(s: &Vec<char>, start: usize, k: &CharClass) -> (e: usize)
    requires
        start <= s.len(),
    ensures
        e == start + run_len(s@.skip(start as int), *k),
        start <= e <= s.len(),
{
    let mut i = start;
    while i < s.len() && char_in_class(k, s[i])
        invariant
            start <= i <= s.len(),
            forall|j: int| start <= j < i ==> in_class(*k, #[trigger] s@[j]),
        decreases s.len() - i,
    {
        i = i + 1;
    }
    proof {
        let t = s@.skip(start as int);
        assert forall|j: int| 0 <= j < i - start implies in_class(*k, #[trigger] t[j]) by {
            assert(t[j] == s@[start + j]);
        }
        lemma_run_len_is(t, *k, i - start);
    }
    i
}

// ---------------------------------------------------------------------------
// Conversions between `str`/`String` and `Vec<char>`
// ---------------------------------------------------------------------------

/// `String::push` appends one character.
#[verifier::external_body]
fn string_push(s: &mut String, c: char)
    ensures
        final(s)@ == old(s)@.push(c),
{
    s.push(c)
}

pub fn chars_of(s: &str) -> (v: Vec<char>)
    ensures
        v@ == s@,
{
    let n = s.unicode_len();
    let mut v: Vec<char> = Vec::new();
    let mut i: usize = 0;
    while i < n
        invariant
            n == s@.len(),
            i <= n,
            v@ == s@.take(i as int),
        decreases n - i,
    {
        let c = s.get_char(i);
        v.push(c);
        i = i + 1;
        assert(v@ == s@.take(i as int));
    }
    assert(s@.take(n as int) == s@);
    v
}

pub fn string_of(v: &Vec<char>) -> (s: String)
    ensures
        s@ == v@,
{
    let mut s = String::new();
    let mut i: usize = 0;
    while i < v.len()
        invariant
            i <= v.len(),
            s@ == v@.take(i as int),
        decreases v.len() - i,
    {
        string_push(&mut s, v[i]);
        i = i + 1;
        assert(s@ == v@.take(i as int));
    }
    assert(v@.take(v.len() as int) == v@);
    s
}

pub fn string_from_str(t: &str) -> (s: String)
    ensures
        s@ == t@,
{
    let v = chars_of(t);
    string_of(&v)
}

pub fn clone_strings(v: &Vec<String>) -> (r: Vec<String>)
    ensures
        strings_view(r@) == strings_view(v@),
{
    let mut r: Vec<String> = Vec::new();
    let mut i: usize = 0;
    while i < v.len()
        invariant
            i <= v.len(),
            r@.len() == i,
            forall|j: int| 0 <= j < i ==> (#[trigger] r@[j])@ == v@[j]@,
        decreases v.len() - i,
    {
        let c = v[i].clone();
        r.push(c);
        i = i + 1;
    }
    assert(strings_view(r@) =~= strings_view(v@));
    r
}

/// The characters of each string.
pub open spec fn strings_view(v: Seq<String>) -> Seq<Seq<char>> {
    v.map_values(|s: String| s@)
}

pub fn append_str(s: &mut Vec<char>, t: &str)
    ensures
        final(s)@ == old(s)@ + t@,
{
    let cs = chars_of(t);
    append_chars(s, &cs);
}

pub fn append_chars(s: &mut Vec<char>, t: &Vec<char>)
    ensures
        final(s)@ == old(s)@ + t@,
{
    let ghost start = s@;
    let mut i: usize = 0;
    while i < t.len()
        invariant
            i <= t.len(),
            s@ == start + t@.take(i as int),
        decreases t.len() - i,
    {
        s.push(t[i]);
        i = i + 1;
        assert(s@ =~= start + t@.take(i as int));
    }
    assert(t@.take(t.len() as int) == t@);
}

pub fn sub_chars(s: &Vec<char>, from: usize, to: usize) -> (r: Vec<char>)
    requires
        from <= to <= s.len(),
    ensures
        r@ == s@.subrange(from as int, to as int),
{
    let mut r: Vec<char> = Vec::new();
    let mut i = from;
    while i < to
        invariant
            from <= i <= to,
            to <= s.len(),
            r@ == s@.subrange(from as int, i as int),
        decreases to - i,
    {
        r.push(s[i]);
        i = i + 1;
        assert(r@ =~= s@.subrange(from as int, i as int));
    }
    r
}

pub fn chars_eq(a: &Vec<char>, b: &Vec<char>) -> (r: bool)
    ensures
        r == (a@ == b@),
{
    if a.len() != b.len() {
        return false;
    }
    let mut i: usize = 0;
    while i < a.len()
        invariant
            a.len() == b.len(),
            i <= a.len(),
            forall|j: int| 0 <= j < i ==> a@[j] == b@[j],
        decreases a.len() - i,
    {
        if a[i] != b[i] {
            return false;
        }
        i = i + 1;
    }
    assert(a@ =~= b@);
    true
}

pub fn str_eq(a: &str, b: &str) -> (r: bool)
    ensures
        r == (a@ == b@),
{
    let x = chars_of(a);
    let y = chars_of(b);
    chars_eq(&x, &y)
}

/// Whether `s` holds `pat` starting at `at`.
pub open spec fn occurs_at(s: Seq<char>, at: int, pat: Seq<char>) -> bool {
    0 <= at && at + pat.len() <= s.len() && s.subrange(at, at + pat.len()) == pat
}

pub fn chars_occur_at(s: &Vec<char>, at: usize, pat: &Vec<char>) -> (r: bool)
    ensures
        r == occurs_at(s@, at as int, pat@),
{
    if at > s.len() || pat.len() > s.len() - at {
        return false;
    }
    let mut i: usize = 0;
    while i < pat.len()
        invariant
            at + pat.len() <= s.len(),
            i <= pat.len(),
            forall|j: int| 0 <= j < i ==> s@[at + j] == pat@[j],
        decreases pat.len() - i,
    {
        if s[at + i] != pat[i] {
            assert(s@.subrange(at as int, at + pat.len())[i as int] != pat@[i as int]);
            return false;
        }
        i = i + 1;
    }
    assert(s@.subrange(at as int, at + pat.len()) =~= pat@);
    true
}

pub fn starts_with_str(s: &str, prefix: &str) -> (r: bool)
    ensures
        r == prefix@.is_prefix_of(s@),
{
    let x = chars_of(s);
    let p = chars_of(prefix);
    let r = chars_occur_at(&x, 0, &p);
    proof {
        if r {
            assert(s@.subrange(0, p@.len() as int) == prefix@);
        }
        if prefix@.is_prefix_of(s@) {
            assert(s@.subrange(0, p@.len() as int) =~= prefix@);
        }
    }
    r
}

// ---------------------------------------------------------------------------
// Words (`str::split_whitespace`)
// ---------------------------------------------------------------------------

/// Start and end of the first whitespace-separated word of `s`.
pub open spec fn first_word(s: Seq<char>) -> Option<(int, int)> {
    let a = run_len(s, CharClass::Space);
    if a >= s.len() {
        None
    } else {
        Some((a as int, (a + run_len(s.skip(a as int), CharClass::NonSpace)) as int))
    }
}

/// `s.split_whitespace().nth(n)`.
pub open spec fn nth_word(s: Seq<char>, n: nat) -> Option<Seq<char>>
    decreases n,
{
    match first_word(s) {
        None => None,
        Some((a, b)) => if n == 0 {
            Some(s.subrange(a, b))
        } else {
            nth_word(s.skip(b), (n - 1) as nat)
        },
    }
}

proof fn lemma_first_word(s: Seq<char>)
    ensures
        first_word(s) matches Some((a, b)) ==> 0 <= a < b <= s.len(),
{
    lemma_run_len_bound(s, CharClass::Space);
    let a = run_len(s, CharClass::Space);
    if a < s.len() {
        let t = s.skip(a as int);
        lemma_run_len_bound(t, CharClass::NonSpace);
        assert(t[0] == s[a as int]);
    }
}

/// Span of the first word of `s[start..]`, in the indices of `s`.
fn first_word_span(s: &Vec<char>, start: usize) -> (r: Option<(usize, usize)>)
    requires
        start <= s.len(),
    ensures
        r is None <==> first_word(s@.skip(start as int)) is None,
        r matches Some((a, b)) ==> start <= a < b <= s.len() && first_word(s@.skip(start as int))
            == Some(((a - start) as int, (b - start) as int)),
{
    let a = run_end(s, start, &CharClass::Space);
    proof {
        lemma_first_word(s@.skip(start as int));
    }
    if a >= s.len() {
        return None;
    }
    let b = run_end(s, a, &CharClass::NonSpace);
    proof {
        assert(s@.skip(start as int).skip(a - start) =~= s@.skip(a as int));
    }
    Some((a, b))
}

/// `s.split_whitespace().nth(n)`, as a span of `s[start..]` in the indices of `s`.
pub fn nth_word_span(s: &Vec<char>, start: usize, n: usize) -> (r: Option<(usize, usize)>)
    requires
        start <= s.len(),
    ensures
        match nth_word(s@.skip(start as int), n as nat) {
            None => r is None,
            Some(w) => r matches Some((a, b)) && start <= a <= b <= s.len() && s@.subrange(
                a as int,
                b as int,
            ) == w,
        },
    decreases n,
{
    let ghost t = s@.skip(start as int);
    match first_word_span(s, start) {
        None => None,
        Some((a, b)) => {
            assert(first_word(t) == Some(((a - start) as int, (b - start) as int)));
            if n == 0 {
                proof {
                    assert(t.subrange(a - start, b - start) =~= s@.subrange(a as int, b as int));
                    assert(nth_word(t, 0) == Some(t.subrange(a - start, b - start)));
                }
                Some((a, b))
            } else {
                proof {
                    assert(t.skip(b - start) =~= s@.skip(b as int));
                    assert(nth_word(t, n as nat) == nth_word(t.skip(b - start), (n - 1) as nat));
                }
                nth_word_span(s, b, n - 1)
            }
        },
    }
}

// ---------------------------------------------------------------------------
// Lines (`str::lines`)
// ---------------------------------------------------------------------------

/// A line with its terminator removed: `"\n"`, or `"\r\n"` when the line
/// was ended by a newline.
pub open spec fn strip_cr(line: Seq<char>, terminated: bool) -> Seq<char> {
    if terminated && line.len() > 0 && line.last() == '\r' {
        line.drop_last()
    } else {
        line
    }
}

/// `s.lines()`: pieces ended by `'\n'` (a last piece may lack it), each
/// without its `"\n"` or `"\r\n"`.
pub open spec fn lines(s: Seq<char>) -> Seq<Seq<char>>
    decreases s.len(),
{
    if s.len() == 0 {
        seq![]
    } else {
        let k = run_len(s, CharClass::NotNewline);
        if k < s.len() {
            seq![strip_cr(s.take(k as int), true)] + lines(s.skip((k + 1) as int))
        } else {
            seq![s]
        }
    }
}

/// `s.lines()`, each line as characters.
pub fn lines_of(s: &Vec<char>) -> (r: Vec<Vec<char>>)
    ensures
        r@.map_values(|l: Vec<char>| l@) == lines(s@),
{
    let mut r: Vec<Vec<char>> = Vec::new();
    let mut start: usize = 0;
    assert(s@.skip(0) =~= s@);
    assert(r@.map_values(|l: Vec<char>| l@) =~= Seq::<Seq<char>>::empty());
    while start < s.len()
        invariant
            start <= s.len(),
            r@.map_values(|l: Vec<char>| l@) + lines(s@.skip(start as int)) == lines(s@),
        decreases s.len() - start,
    {
        let ghost t = s@.skip(start as int);
        let e = run_end(s, start, &CharClass::NotNewline);
        proof {
            lemma_run_len_bound(t, CharClass::NotNewline);
        }
        if e < s.len() {
            let mut line = sub_chars(s, start, e);
            if line.len() > 0 && line[line.len() - 1] == '\r' {
                line.pop();
            }
            proof {
                assert(t.take(e - start) =~= s@.subrange(start as int, e as int));
                assert(t.skip(e - start + 1) =~= s@.skip(e + 1));
            }
            let ghost before = r@.map_values(|l: Vec<char>| l@);
            r.push(line);
            assert(r@.map_values(|l: Vec<char>| l@) =~= before.push(
                strip_cr(t.take(e - start), true),
            ));
            start = e + 1;
        } else {
            let line = sub_chars(s, start, s.len());
            proof {
                assert(t =~= s@.subrange(start as int, s.len() as int));
            }
            let ghost before = r@.map_values(|l: Vec<char>| l@);
            r.push(line);
            assert(r@.map_values(|l: Vec<char>| l@) =~= before.push(t));
            start = s.len();
            assert(s@.skip(start as int).len() == 0);
        }
    }
    assert(s@.skip(start as int).len() == 0);
    assert(lines(s@.skip(start as int)) == Seq::<Seq<char>>::empty());
    assert(r@.map_values(|l: Vec<char>| l@) + Seq::<Seq<char>>::empty() =~= r@.map_values(
        |l: Vec<char>| l@,
    ));
    r
}

// ---------------------------------------------------------------------------
// Unsigned decimal numbers (`str::parse::<u32>`)
// ---------------------------------------------------------------------------

/// The value of a sequence of ASCII decimal digits.
pub open spec fn decimal_value(d: Seq<char>) -> nat
    decreases d.len(),
{
    if d.len() == 0 {
        0
    } else {
        decimal_value(d.drop_last()) * 10 + ((d.last() as u32) - ('0' as u32)) as nat
    }
}

pub open spec fn all_ascii_digits(d: Seq<char>) -> bool {
    forall|i: int| 0 <= i < d.len() ==> is_ascii_digit(#[trigger] d[i])
}

pub fn chars_all_ascii_digits(d: &Vec<char>) -> (r: bool)
    ensures
        r == all_ascii_digits(d@),
{
    let mut i: usize = 0;
    while i < d.len()
        invariant
            i <= d.len(),
            all_ascii_digits(d@.take(i as int)),
        decreases d.len() - i,
    {
        if !ascii_digit_char(d[i]) {
            return false;
        }
        i = i + 1;
        assert(forall|k: int| 0 <= k < i ==> d@.take(i as int)[k] == d@.take(i - 1)[k] || k == i - 1);
    }
    assert(d@.take(d.len() as int) =~= d@);
    true
}

/// The digits of an unsigned number text, after an optional `+`.
pub open spec fn unsigned_digits(s: Seq<char>) -> Seq<char> {
    if s.len() > 0 && s[0] == '+' {
        s.drop_first()
    } else {
        s
    }
}

/// Whether `s.parse::<u32>()` succeeds: an optional `+`, then one or more
/// ASCII digits whose value fits in `u32`.
pub open spec fn parses_as_u32(s: Seq<char>) -> bool {
    let d = unsigned_digits(s);
    &&& d.len() > 0
    &&& all_ascii_digits(d)
    &&& decimal_value(d) <= u32::MAX
}

pub fn chars_parse_as_u32(s: &Vec<char>) -> (r: bool)
    ensures
        r == parses_as_u32(s@),
{
    parse_u32_chars(s).is_some()
}

/// `s.parse::<u32>()`.
pub fn parse_u32_chars(s: &Vec<char>) -> (r: Option<u32>)
    ensures
        r is Some <==> parses_as_u32(s@),
        r matches Some(v) ==> v == decimal_value(unsigned_digits(s@)),
{
    let start: usize = if s.len() > 0 && s[0] == '+' {
        1
    } else {
        0
    };
    let ghost d = unsigned_digits(s@);
    assert(d =~= s@.skip(start as int));
    if start >= s.len() {
        return None;
    }
    let mut value: u64 = 0;
    let mut i = start;
    while i < s.len()
        invariant
            start <= i <= s.len(),
            d == s@.skip(start as int),
            d == unsigned_digits(s@),
            all_ascii_digits(s@.subrange(start as int, i as int)),
            value == decimal_value(s@.subrange(start as int, i as int)),
            value <= u32::MAX,
        decreases s.len() - i,
    {
        let c = s[i];
        if !ascii_digit_char(c) {
            assert(d[i - start] == c);
            return None;
        }
        let digit = (c as u32 - '0' as u32) as u64;
        let ghost prev = s@.subrange(start as int, i as int);
        let ghost next = s@.subrange(start as int, i + 1);
        assert(next.drop_last() =~= prev);
        assert(next.last() == c);
        if value > (u32::MAX as u64 - digit) / 10 {
            assert(decimal_value(next) == value * 10 + digit);
            assert(value * 10 + digit > u32::MAX) by (nonlinear_arith)
                requires
                    value > (u32::MAX as u64 - digit) / 10,
                    digit <= 9,
            ;
            proof {
                lemma_decimal_prefix_bound(d, next.len() as int);
                assert(d.take(next.len() as int) =~= next);
            }
            return None;
        }
        value = value * 10 + digit;
        i = i + 1;
        assert(all_ascii_digits(next)) by {
            assert forall|j: int| 0 <= j < next.len() implies is_ascii_digit(#[trigger] next[j]) by {
                if j < prev.len() {
                    assert(next[j] == prev[j]);
                }
            }
        }
    }
    assert(s@.subrange(start as int, s.len() as int) =~= d);
    Some(value as u32)
}

/// The value of a digit string is at least that of any of its prefixes.
proof fn lemma_decimal_prefix_bound(d: Seq<char>, n: int)
    requires
        0 <= n <= d.len(),
        all_ascii_digits(d.take(n)),
    ensures
        all_ascii_digits(d) ==> decimal_value(d) >= decimal_value(d.take(n)),
    decreases d.len(),
{
    if n < d.len() {
        assert(d.drop_last().take(n) =~= d.take(n));
        lemma_decimal_prefix_bound(d.drop_last(), n);
        if all_ascii_digits(d) {
            assert(all_ascii_digits(d.drop_last())) by {
                assert forall|j: int| 0 <= j < d.drop_last().len() implies is_ascii_digit(
                    #[trigger] d.drop_last()[j],
                ) by {
                    assert(d.drop_last()[j] == d[j]);
                }
            }
        }
    } else {
        assert(d.take(n) =~= d);
    }
}

// ---------------------------------------------------------------------------
// Decimal formatting (`format!("{}", n)`)
// ---------------------------------------------------------------------------

pub open spec fn digit_char(d: nat) -> char {
    (('0' as u32) + d) as char
}

/// The decimal digits of `n`, without leading zeros ("0" for zero).
pub open spec fn decimal_text(n: nat) -> Seq<char>
    decreases n,
{
    if n < 10 {
        seq![digit_char(n)]
    } else {
        decimal_text(n / 10).push(digit_char(n % 10))
    }
}

/// `format!("{}", v)` for a signed integer.
pub open spec fn signed_text(v: int) -> Seq<char> {
    if v < 0 {
        seq!['-'] + decimal_text((-v) as nat)
    } else {
        decimal_text(v as nat)
    }
}

pub fn push_decimal(out: &mut Vec<char>, n: u64)
    ensures
        final(out)@ == old(out)@ + decimal_text(n as nat),
    decreases n,
{
    if n < 10 {
        out.push(((('0' as u32) + n as u32) as u8) as char);
        assert(((('0' as u32) + n as u32) as u8) as char == digit_char(n as nat));
    } else {
        push_decimal(out, n / 10);
        let d = n % 10;
        out.push(((('0' as u32) + d as u32) as u8) as char);
        assert(((('0' as u32) + d as u32) as u8) as char == digit_char(n as nat % 10));
    }
}

pub fn push_signed(out: &mut Vec<char>, v: i64)
    ensures
        final(out)@ == old(out)@ + signed_text(v as int),
{
    if v < 0 {
        out.push('-');
        let m: u64 = if v == i64::MIN {
            9223372036854775808u64
        } else {
            (-v) as u64
        };
        let ghost mid = out@;
        push_decimal(out, m);
        assert(out@ =~= old(out)@ + signed_text(v as int));
    } else {
        push_decimal(out, v as u64);
    }
}

} // verus!

verus! {

// ---------------------------------------------------------------------------
// Floating-point number texts (`str::parse::<f32>` / `str::parse::<f64>`)
// ---------------------------------------------------------------------------

pub open spec fn ascii_lower(c: char) -> char {
    if 'A' <= c <= 'Z' {
        ((c as u32) + 32) as char
    } else {
        c
    }
}

pub open spec fn ascii_lowered(s: Seq<char>) -> Seq<char> {
    s.map_values(|c: char| ascii_lower(c))
}

/// The text after an optional `+` or `-`.
pub open spec fn unsigned_part(s: Seq<char>) -> Seq<char> {
    if s.len() > 0 && (s[0] == '+' || s[0] == '-') {
        s.drop_first()
    } else {
        s
    }
}

/// `e` or `E`, an optional sign, and one or more digits; or nothing.
pub open spec fn float_exponent(r: Seq<char>) -> bool {
    ||| r.len() == 0
    ||| {
        &&& r.len() > 0
        &&& (r[0] == 'e' || r[0] == 'E')
        &&& {
            let u = unsigned_part(r.drop_first());
            u.len() >= 1 && run_len(u, CharClass::AsciiDigit) == u.len()
        }
    }
}

/// `Digit+ | Digit+ '.' Digit* | Digit* '.' Digit+`, then an optional exponent.
pub open spec fn float_number(b: Seq<char>) -> bool {
    let d1 = run_len(b, CharClass::AsciiDigit);
    if d1 < b.len() && b[d1 as int] == '.' {
        let d2 = run_len(b.skip((d1 + 1) as int), CharClass::AsciiDigit);
        d1 + d2 >= 1 && float_exponent(b.skip((d1 + 1 + d2) as int))
    } else {
        d1 >= 1 && float_exponent(b.skip(d1 as int))
    }
}

/// Whether Rust's `str::parse` accepts `s` as an `f32` or `f64`: the grammar
/// documented for `f32::from_str`, read with ASCII letters lowered:
/// a sign, then `inf`, `infinity`, `nan` or a decimal number.
pub open spec fn parses_as_float(s: Seq<char>) -> bool {
    let b = unsigned_part(s);
    ||| ascii_lowered(b) == "inf"@
    ||| ascii_lowered(b) == "infinity"@
    ||| ascii_lowered(b) == "nan"@
    ||| float_number(b)
}

/// One or more ASCII digits read as a float.
pub proof fn lemma_digits_parse_as_float(d: Seq<char>)
    requires
        d.len() > 0,
        all_ascii_digits(d),
    ensures
        parses_as_float(d),
{
    assert(is_ascii_digit(d[0]));
    assert(unsigned_part(d) == d);
    lemma_run_len_is(d, CharClass::AsciiDigit, d.len() as int);
    assert(d.skip(d.len() as int) =~= Seq::<char>::empty());
}

fn lowered_chars(s: &Vec<char>) -> (r: Vec<char>)
    ensures
        r@ == ascii_lowered(s@),
{
    let mut r: Vec<char> = Vec::new();
    let mut i: usize = 0;
    while i < s.len()
        invariant
            i <= s.len(),
            r@ == ascii_lowered(s@.take(i as int)),
        decreases s.len() - i,
    {
        let c = s[i];
        let l = if 'A' <= c && c <= 'Z' {
            ((c as u32 + 32) as u8) as char
        } else {
            c
        };
        assert(l == ascii_lower(c));
        r.push(l);
        i = i + 1;
        assert(r@ =~= ascii_lowered(s@.take(i as int)));
    }
    assert(s@.take(s.len() as int) =~= s@);
    r
}

fn unsigned_start(s: &Vec<char>, from: usize) -> (r: usize)
    requires
        from <= s.len(),
    ensures
        s@.skip(r as int) == unsigned_part(s@.skip(from as int)),
        from <= r <= s.len(),
{
    if from < s.len() && (s[from] == '+' || s[from] == '-') {
        assert(s@.skip(from as int).drop_first() =~= s@.skip(from + 1));
        from + 1
    } else {
        from
    }
}

fn exponent_ok(s: &Vec<char>, from: usize) -> (r: bool)
    requires
        from <= s.len(),
    ensures
        r == float_exponent(s@.skip(from as int)),
{
    let ghost t = s@.skip(from as int);
    if from == s.len() {
        return true;
    }
    if s[from] != 'e' && s[from] != 'E' {
        return false;
    }
    assert(t.drop_first() =~= s@.skip(from + 1));
    let u = unsigned_start(s, from + 1);
    if u >= s.len() {
        return false;
    }
    let e = run_end(s, u, &CharClass::AsciiDigit);
    e == s.len()
}

pub fn chars_parse_as_float(s: &Vec<char>) -> (r: bool)
    ensures
        r == parses_as_float(s@),
{
    let u = unsigned_start(s, 0);
    assert(s@.skip(0) =~= s@);
    let b = sub_chars(s, u, s.len());
    assert(b@ =~= unsigned_part(s@));
    let lower = lowered_chars(&b);
    let inf = chars_of("inf");
    let infinity = chars_of("infinity");
    let nan = chars_of("nan");
    if chars_eq(&lower, &inf) || chars_eq(&lower, &infinity) || chars_eq(&lower, &nan) {
        return true;
    }
    let d1 = run_end(&b, 0, &CharClass::AsciiDigit);
    assert(b@.skip(0) =~= b@);
    if d1 < b.len() && b[d1] == '.' {
        let d2 = run_end(&b, d1 + 1, &CharClass::AsciiDigit);
        proof {
            assert(b@.skip(d1 + 1 + (d2 - (d1 + 1))) =~= b@.skip(d2 as int));
        }
        d2 >= 2 && exponent_ok(&b, d2)
    } else {
        d1 >= 1 && exponent_ok(&b, d1)
    }
}

} // verus!

verus! {

// ---------------------------------------------------------------------------
// Unicode decimal digits (general category Nd, the `\d` of Unicode regexes)
// ---------------------------------------------------------------------------

/// Unicode general category `Decimal_Number` (Unicode 16.0).
pub open spec fn is_unicode_decimal(c: char) -> bool {
    let u = c as u32;
    ||| 0x30 <= u <= 0x39
    ||| 0x660 <= u <= 0x669
    ||| 0x6F0 <= u <= 0x6F9
    ||| 0x7C0 <= u <= 0x7C9
    ||| 0x966 <= u <= 0x96F
    ||| 0x9E6 <= u <= 0x9EF
    ||| 0xA66 <= u <= 0xA6F
    ||| 0xAE6 <= u <= 0xAEF
    ||| 0xB66 <= u <= 0xB6F
    ||| 0xBE6 <= u <= 0xBEF
    ||| 0xC66 <= u <= 0xC6F
    ||| 0xCE6 <= u <= 0xCEF
    ||| 0xD66 <= u <= 0xD6F
    ||| 0xDE6 <= u <= 0xDEF
    ||| 0xE50 <= u <= 0xE59
    ||| 0xED0 <= u <= 0xED9
    ||| 0xF20 <= u <= 0xF29
    ||| 0x1040 <= u <= 0x1049
    ||| 0x1090 <= u <= 0x1099
    ||| 0x17E0 <= u <= 0x17E9
    ||| 0x1810 <= u <= 0x1819
    ||| 0x1946 <= u <= 0x194F
    ||| 0x19D0 <= u <= 0x19D9
    ||| 0x1A80 <= u <= 0x1A89
    ||| 0x1A90 <= u <= 0x1A99
    ||| 0x1B50 <= u <= 0x1B59
    ||| 0x1BB0 <= u <= 0x1BB9
    ||| 0x1C40 <= u <= 0x1C49
    ||| 0x1C50 <= u <= 0x1C59
    ||| 0xA620 <= u <= 0xA629
    ||| 0xA8D0 <= u <= 0xA8D9
    ||| 0xA900 <= u <= 0xA909
    ||| 0xA9D0 <= u <= 0xA9D9
    ||| 0xA9F0 <= u <= 0xA9F9
    ||| 0xAA50 <= u <= 0xAA59
    ||| 0xABF0 <= u <= 0xABF9
    ||| 0xFF10 <= u <= 0xFF19
    ||| 0x104A0 <= u <= 0x104A9
    ||| 0x10D30 <= u <= 0x10D39
    ||| 0x10D40 <= u <= 0x10D49
    ||| 0x11066 <= u <= 0x1106F
    ||| 0x110F0 <= u <= 0x110F9
    ||| 0x11136 <= u <= 0x1113F
    ||| 0x111D0 <= u <= 0x111D9
    ||| 0x112F0 <= u <= 0x112F9
    ||| 0x11450 <= u <= 0x11459
    ||| 0x114D0 <= u <= 0x114D9
    ||| 0x11650 <= u <= 0x11659
    ||| 0x116C0 <= u <= 0x116C9
    ||| 0x116D0 <= u <= 0x116E3
    ||| 0x11730 <= u <= 0x11739
    ||| 0x118E0 <= u <= 0x118E9
    ||| 0x11950 <= u <= 0x11959
    ||| 0x11BF0 <= u <= 0x11BF9
    ||| 0x11C50 <= u <= 0x11C59
    ||| 0x11D50 <= u <= 0x11D59
    ||| 0x11DA0 <= u <= 0x11DA9
    ||| 0x11F50 <= u <= 0x11F59
    ||| 0x16130 <= u <= 0x16139
    ||| 0x16A60 <= u <= 0x16A69
    ||| 0x16AC0 <= u <= 0x16AC9
    ||| 0x16B50 <= u <= 0x16B59
    ||| 0x16D70 <= u <= 0x16D79
    ||| 0x1CCF0 <= u <= 0x1CCF9
    ||| 0x1D7CE <= u <= 0x1D7FF
    ||| 0x1E140 <= u <= 0x1E149
    ||| 0x1E2F0 <= u <= 0x1E2F9
    ||| 0x1E4F0 <= u <= 0x1E4F9
    ||| 0x1E5F1 <= u <= 0x1E5FA
    ||| 0x1E950 <= u <= 0x1E959
    ||| 0x1FBF0 <= u <= 0x1FBF9
}

pub fn unicode_decimal_char(c: char) -> (r: bool)
    ensures
        r == is_unicode_decimal(c),
{
    let u = c as u32;
        (0x30 <= u && u <= 0x39) ||
        (0x660 <= u && u <= 0x669) ||
        (0x6F0 <= u && u <= 0x6F9) ||
        (0x7C0 <= u && u <= 0x7C9) ||
        (0x966 <= u && u <= 0x96F) ||
        (0x9E6 <= u && u <= 0x9EF) ||
        (0xA66 <= u && u <= 0xA6F) ||
        (0xAE6 <= u && u <= 0xAEF) ||
        (0xB66 <= u && u <= 0xB6F) ||
        (0xBE6 <= u && u <= 0xBEF) ||
        (0xC66 <= u && u <= 0xC6F) ||
        (0xCE6 <= u && u <= 0xCEF) ||
        (0xD66 <= u && u <= 0xD6F) ||
        (0xDE6 <= u && u <= 0xDEF) ||
        (0xE50 <= u && u <= 0xE59) ||
        (0xED0 <= u && u <= 0xED9) ||
        (0xF20 <= u && u <= 0xF29) ||
        (0x1040 <= u && u <= 0x1049) ||
        (0x1090 <= u && u <= 0x1099) ||
        (0x17E0 <= u && u <= 0x17E9) ||
        (0x1810 <= u && u <= 0x1819) ||
        (0x1946 <= u && u <= 0x194F) ||
        (0x19D0 <= u && u <= 0x19D9) ||
        (0x1A80 <= u && u <= 0x1A89) ||
        (0x1A90 <= u && u <= 0x1A99) ||
        (0x1B50 <= u && u <= 0x1B59) ||
        (0x1BB0 <= u && u <= 0x1BB9) ||
        (0x1C40 <= u && u <= 0x1C49) ||
        (0x1C50 <= u && u <= 0x1C59) ||
        (0xA620 <= u && u <= 0xA629) ||
        (0xA8D0 <= u && u <= 0xA8D9) ||
        (0xA900 <= u && u <= 0xA909) ||
        (0xA9D0 <= u && u <= 0xA9D9) ||
        (0xA9F0 <= u && u <= 0xA9F9) ||
        (0xAA50 <= u && u <= 0xAA59) ||
        (0xABF0 <= u && u <= 0xABF9) ||
        (0xFF10 <= u && u <= 0xFF19) ||
        (0x104A0 <= u && u <= 0x104A9) ||
        (0x10D30 <= u && u <= 0x10D39) ||
        (0x10D40 <= u && u <= 0x10D49) ||
        (0x11066 <= u && u <= 0x1106F) ||
        (0x110F0 <= u && u <= 0x110F9) ||
        (0x11136 <= u && u <= 0x1113F) ||
        (0x111D0 <= u && u <= 0x111D9) ||
        (0x112F0 <= u && u <= 0x112F9) ||
        (0x11450 <= u && u <= 0x11459) ||
        (0x114D0 <= u && u <= 0x114D9) ||
        (0x11650 <= u && u <= 0x11659) ||
        (0x116C0 <= u && u <= 0x116C9) ||
        (0x116D0 <= u && u <= 0x116E3) ||
        (0x11730 <= u && u <= 0x11739) ||
        (0x118E0 <= u && u <= 0x118E9) ||
        (0x11950 <= u && u <= 0x11959) ||
        (0x11BF0 <= u && u <= 0x11BF9) ||
        (0x11C50 <= u && u <= 0x11C59) ||
        (0x11D50 <= u && u <= 0x11D59) ||
        (0x11DA0 <= u && u <= 0x11DA9) ||
        (0x11F50 <= u && u <= 0x11F59) ||
        (0x16130 <= u && u <= 0x16139) ||
        (0x16A60 <= u && u <= 0x16A69) ||
        (0x16AC0 <= u && u <= 0x16AC9) ||
        (0x16B50 <= u && u <= 0x16B59) ||
        (0x16D70 <= u && u <= 0x16D79) ||
        (0x1CCF0 <= u && u <= 0x1CCF9) ||
        (0x1D7CE <= u && u <= 0x1D7FF) ||
        (0x1E140 <= u && u <= 0x1E149) ||
        (0x1E2F0 <= u && u <= 0x1E2F9) ||
        (0x1E4F0 <= u && u <= 0x1E4F9) ||
        (0x1E5F1 <= u && u <= 0x1E5FA) ||
        (0x1E950 <= u && u <= 0x1E959) ||
        (0x1FBF0 <= u && u <= 0x1FBF9)
}

} // verus!

verus! {

// ---------------------------------------------------------------------------
// Ordering and sorting strings (`Ord for String`, `slice::sort`)
// ---------------------------------------------------------------------------

/// `a <= b` as strings compare: character by character, by code point,
/// a proper prefix first.
pub open spec fn str_leq(a: Seq<char>, b: Seq<char>) -> bool
    decreases a.len(),
{
    if a.len() == 0 {
        true
    } else if b.len() == 0 {
        false
    } else if a[0] != b[0] {
        a[0] < b[0]
    } else {
        str_leq(a.drop_first(), b.drop_first())
    }
}

pub open spec fn str_order() -> spec_fn(Seq<char>, Seq<char>) -> bool {
    |a: Seq<char>, b: Seq<char>| str_leq(a, b)
}

proof fn lemma_str_leq_refl(a: Seq<char>)
    ensures
        str_leq(a, a),
    decreases a.len(),
{
    if a.len() > 0 {
        lemma_str_leq_refl(a.drop_first());
    }
}

proof fn lemma_str_leq_antisym(a: Seq<char>, b: Seq<char>)
    requires
        str_leq(a, b),
        str_leq(b, a),
    ensures
        a == b,
    decreases a.len(),
{
    if a.len() > 0 && b.len() > 0 {
        lemma_str_leq_antisym(a.drop_first(), b.drop_first());
        assert(a =~= seq![a[0]] + a.drop_first());
        assert(b =~= seq![b[0]] + b.drop_first());
    }
}

proof fn lemma_str_leq_trans(a: Seq<char>, b: Seq<char>, c: Seq<char>)
    requires
        str_leq(a, b),
        str_leq(b, c),
    ensures
        str_leq(a, c),
    decreases a.len(),
{
    if a.len() > 0 && b.len() > 0 && c.len() > 0 && a[0] == b[0] && b[0] == c[0] {
        lemma_str_leq_trans(a.drop_first(), b.drop_first(), c.drop_first());
    }
}

proof fn lemma_str_leq_total(a: Seq<char>, b: Seq<char>)
    ensures
        str_leq(a, b) || str_leq(b, a),
    decreases a.len(),
{
    if a.len() > 0 && b.len() > 0 && a[0] == b[0] {
        lemma_str_leq_total(a.drop_first(), b.drop_first());
    }
}

/// Strings are totally ordered.
pub proof fn lemma_str_order_total()
    ensures
        vstd::relations::total_ordering(str_order()),
{
    assert forall|x: Seq<char>| #[trigger] str_order()(x, x) by {
        lemma_str_leq_refl(x);
    }
    assert forall|x: Seq<char>, y: Seq<char>|
        #[trigger] str_order()(x, y) && #[trigger] str_order()(y, x) implies x == y by {
        lemma_str_leq_antisym(x, y);
    }
    assert forall|x: Seq<char>, y: Seq<char>, z: Seq<char>|
        #[trigger] str_order()(x, y) && #[trigger] str_order()(y, z) implies str_order()(x, z) by {
        lemma_str_leq_trans(x, y, z);
    }
    assert forall|x: Seq<char>, y: Seq<char>|
        #[trigger] str_order()(x, y) || #[trigger] str_order()(y, x) by {
        lemma_str_leq_total(x, y);
    }
}

/// `a <= b` for strings.
pub fn string_leq(a: &String, b: &String) -> (r: bool)
    ensures
        r == str_leq(a@, b@),
{
    let x = chars_of(a.as_str());
    let y = chars_of(b.as_str());
    let mut i: usize = 0;
    proof {
        assert(x@.skip(0) =~= x@);
        assert(y@.skip(0) =~= y@);
    }
    while i < x.len() && i < y.len() && x[i] == y[i]
        invariant
            i <= x.len(),
            i <= y.len(),
            str_leq(x@, y@) == str_leq(x@.skip(i as int), y@.skip(i as int)),
        decreases x.len() - i,
    {
        proof {
            let xs = x@.skip(i as int);
            let ys = y@.skip(i as int);
            assert(xs.drop_first() =~= x@.skip(i + 1));
            assert(ys.drop_first() =~= y@.skip(i + 1));
        }
        i = i + 1;
    }
    proof {
        assert(x@.skip(0) =~= x@);
        assert(y@.skip(0) =~= y@);
    }
    if i == x.len() {
        true
    } else if i == y.len() {
        false
    } else {
        proof {
            assert(x@.skip(i as int)[0] == x@[i as int]);
            assert(y@.skip(i as int)[0] == y@[i as int]);
        }
        x[i] < y[i]
    }
}

/// The strings of `v` in ascending order (`sort` on a `Vec<String>`).
pub fn sort_strings(v: &mut Vec<String>)
    ensures
        strings_view(final(v)@) == strings_view(old(v)@).sort_by(str_order()),
{
    let ghost orig = strings_view(v@);
    let mut sorted: Vec<String> = Vec::new();
    broadcast use vstd::seq_lib::group_to_multiset_ensures;
    proof {
        lemma_str_order_total();
    }
    while v.len() > 0
        invariant
            strings_view(sorted@).to_multiset().add(strings_view(v@).to_multiset())
                == orig.to_multiset(),
            vstd::relations::sorted_by(strings_view(sorted@), str_order()),
            vstd::relations::total_ordering(str_order()),
        decreases v.len(),
    {
        let ghost before_v = strings_view(v@);
        let x = v.pop().unwrap();
        assert(before_v =~= strings_view(v@).push(x@));
        // Position: after every element that is <= x.
        let mut pos: usize = 0;
        while pos < sorted.len() && string_leq(&sorted[pos], &x)
            invariant
                pos <= sorted.len(),
                forall|j: int| 0 <= j < pos ==> str_leq(#[trigger] sorted@[j]@, x@),
            decreases sorted.len() - pos,
        {
            pos = pos + 1;
        }
        let ghost before = strings_view(sorted@);
        sorted.insert(pos, x);
        proof {
            let now = strings_view(sorted@);
            assert(now =~= before.insert(pos as int, x@));
            assert forall|i: int, j: int| 0 <= i < j < now.len() implies #[trigger] str_order()(
                now[i],
                now[j],
            ) by {
                if pos < before.len() && !str_leq(before[pos as int], x@) {
                    lemma_str_leq_total(before[pos as int], x@);
                }
                if i < pos && j == pos {
                } else if i < pos && j > pos {
                    assert(str_order()(before[i], before[j - 1]));
                } else if i == pos && j > pos {
                    assert(str_order()(before[pos as int], before[j - 1]));
                    lemma_str_leq_trans(x@, before[pos as int], before[j - 1]);
                } else if j < pos {
                    assert(str_order()(before[i], before[j]));
                } else {
                    assert(str_order()(before[i - 1], before[j - 1]));
                }
            }
            vstd::seq_lib::to_multiset_insert(before, pos as int, x@);
            vstd::seq_lib::to_multiset_build(strings_view(v@), x@);
            broadcast use vstd::multiset::group_multiset_axioms;
            assert(strings_view(sorted@).to_multiset().add(strings_view(v@).to_multiset()) =~=
                orig.to_multiset());
        }
    }
    proof {
        assert(strings_view(v@) =~= Seq::<Seq<char>>::empty());
        assert(strings_view(sorted@).to_multiset() =~= orig.to_multiset());
        orig.lemma_sort_by_ensures(str_order());
        vstd::seq_lib::lemma_sorted_unique(
            strings_view(sorted@),
            orig.sort_by(str_order()),
            str_order(),
        );
    }
    *v = sorted;
}


/// Sorting strings yields them in ascending order, each as often as before.
pub proof fn lemma_sorted_strings(s: Seq<Seq<char>>)
    ensures
        vstd::relations::sorted_by(s.sort_by(str_order()), str_order()),
        s.sort_by(str_order()).to_multiset() == s.to_multiset(),
{
    lemma_str_order_total();
    s.lemma_sort_by_ensures(str_order());
}

} // verus!
