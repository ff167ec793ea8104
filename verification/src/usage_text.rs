//! Reading quotas from the visible text of the Codex Usage page (copied by the
//! user or read from the client window): the lines of the text, the numbers in
//! it, and the 5-hour, weekly and credit figures they give.
use vstd::prelude::*;
use crate::text::{
    chars_of, string_from_chars, trimmed, trim_start, trim_end, trim_chars, is_white, is_white_char, ascii_lowered, ascii_lowercase,
    contains_seq, contains_chars, contains_str, occurs_at, find_chars, opt_chars,
};
use crate::fixed::HUNDRED_PERCENT;
use crate::clock::clock_millis;
use crate::meter::{LimitWindow, LimitModel, CodexMeterStatus, StatusModel, opt_limit};

verus! {

broadcast use vstd::string::group_string_axioms;

// ---------------------------------------------------------------------------
// Lines
// ---------------------------------------------------------------------------

/// The text cut at each `'\n'` (the last piece may be empty).
pub open spec fn segments(s: Seq<char>) -> Seq<Seq<char>>
    decreases s.len(),
{
    if s.len() == 0 {
        seq![Seq::empty()]
    } else {
        let p = segments(s.drop_last());
        if s.last() == '\n' {
            p.push(Seq::empty())
        } else {
            p.update(p.len() - 1, p.last().push(s.last()))
        }
    }
}

/// Cutting a text always gives at least one piece.
pub proof fn lemma_segments_nonempty(s: Seq<char>)
    ensures
        segments(s).len() >= 1,
    decreases s.len(),
{
    if s.len() > 0 {
        lemma_segments_nonempty(s.drop_last());
    }
}

/// No-break spaces become ordinary spaces.
pub open spec fn without_nbsp(s: Seq<char>) -> Seq<char> {
    s.map_values(|c: char| if c == '\u{a0}' { ' ' } else { c })
}

/// A line as it is used: no-break spaces made ordinary, then trimmed.
pub open spec fn clean_line(s: Seq<char>) -> Seq<char> {
    trimmed(without_nbsp(s))
}

/// The cleaned pieces that are not empty, in order.
pub open spec fn kept_lines(pieces: Seq<Seq<char>>) -> Seq<Seq<char>>
    decreases pieces.len(),
{
    if pieces.len() == 0 {
        Seq::empty()
    } else {
        let r = kept_lines(pieces.drop_last());
        let c = clean_line(pieces.last());
        if c.len() > 0 { r.push(c) } else { r }
    }
}

/// The non-blank lines of a text, each cleaned (`str::lines`, no-break
/// spaces replaced, trimmed, blank lines dropped). A `'\r'` before a line
/// break is removed by the trimming.
pub open spec fn normalized_lines_spec(s: Seq<char>) -> Seq<Seq<char>> {
    kept_lines(segments(s))
}

fn clean_line_chars(seg: &Vec<char>) -> (r: Vec<char>)
    ensures
        r@ == clean_line(seg@),
{
    let mut v: Vec<char> = Vec::new();
    let mut i: usize = 0;
    while i < seg.len()
        invariant
            i <= seg@.len(),
            v@ =~= without_nbsp(seg@.take(i as int)),
        decreases seg@.len() - i,
    {
        let c = seg[i];
        v.push(if c == '\u{a0}' { ' ' } else { c });
        i = i + 1;
    }
    assert(seg@.take(seg@.len() as int) =~= seg@);
    trim_chars(&v)
}

/// The character sequences of a list of lines.
pub open spec fn views(lines: Seq<Vec<char>>) -> Seq<Seq<char>> {
    lines.map_values(|l: Vec<char>| l@)
}

/// The non-blank lines of `text` (see `normalized_lines_spec`).
pub fn normalized_lines(text: &Vec<char>) -> (lines: Vec<Vec<char>>)
    ensures
        views(lines@) == normalized_lines_spec(text@),
{
    let mut out: Vec<Vec<char>> = Vec::new();
    let mut cur: Vec<char> = Vec::new();
    let mut i: usize = 0;
    proof {
        assert(text@.take(0) =~= Seq::<char>::empty());
    }
    while i < text.len()
        invariant
            i <= text@.len(),
            segments(text@.take(i as int)).len() >= 1,
            out@.map_values(|l: Vec<char>| l@) == kept_lines(segments(text@.take(i as int)).drop_last()),
            cur@ == segments(text@.take(i as int)).last(),
        decreases text@.len() - i,
    {
        let ghost prefix = text@.take(i as int);
        let ghost next = text@.take(i + 1);
        proof {
            assert(next.drop_last() =~= prefix);
            assert(next.last() == text@[i as int]);
            lemma_segments_nonempty(prefix);
        }
        let c = text[i];
        if c == '\n' {
            let cleaned = clean_line_chars(&cur);
            let ghost before = out@.map_values(|l: Vec<char>| l@);
            if cleaned.len() > 0 {
                out.push(cleaned);
                assert(out@.map_values(|l: Vec<char>| l@) =~= before.push(clean_line(cur@)));
            }
            proof {
                let p = segments(prefix);
                assert(segments(next) == p.push(Seq::<char>::empty()));
                assert(segments(next).drop_last() =~= p);
                assert(p.drop_last().push(p.last()) =~= p);
            }
            cur = Vec::new();
            assert(cur@ =~= segments(next).last());
        } else {
            cur.push(c);
            proof {
                let p = segments(prefix);
                assert(segments(next) == p.update(p.len() - 1, p.last().push(c)));
                assert(segments(next).drop_last() =~= p.drop_last());
            }
        }
        i = i + 1;
    }
    proof {
        assert(text@.take(text@.len() as int) =~= text@);
    }
    let cleaned = clean_line_chars(&cur);
    let ghost before = out@.map_values(|l: Vec<char>| l@);
    if cleaned.len() > 0 {
        out.push(cleaned);
        assert(out@.map_values(|l: Vec<char>| l@) =~= before.push(clean_line(cur@)));
    }
    proof {
        let p = segments(text@);
        assert(p.drop_last().push(p.last()) =~= p);
    }
    out
}


// ---------------------------------------------------------------------------
// Numbers
// ---------------------------------------------------------------------------

/// An ASCII decimal digit.
pub open spec fn is_digit(c: char) -> bool {
    '0' <= c && c <= '9'
}

/// The value of a digit character (zero for any other character).
pub open spec fn digit_value(c: char) -> nat {
    if is_digit(c) { ((c as int) - ('0' as int)) as nat } else { 0 }
}

/// The value of a string of decimal digits.
pub open spec fn digits_value(s: Seq<char>) -> nat
    decreases s.len(),
{
    if s.len() == 0 { 0 } else { digits_value(s.drop_last()) * 10 + digit_value(s.last()) }
}

/// How many `'.'` characters `s` holds.
pub open spec fn dot_count(s: Seq<char>) -> nat
    decreases s.len(),
{
    if s.len() == 0 { 0 } else { dot_count(s.drop_last()) + if s.last() == '.' { 1nat } else { 0nat } }
}

/// How many digits `s` holds.
pub open spec fn digit_count(s: Seq<char>) -> nat
    decreases s.len(),
{
    if s.len() == 0 { 0 } else { digit_count(s.drop_last()) + if is_digit(s.last()) { 1nat } else { 0nat } }
}

/// The position of the first `'.'` at or after `i` (the length if none).
pub open spec fn dot_from(s: Seq<char>, i: int) -> int
    decreases s.len() - i,
{
    if i < 0 || i >= s.len() { s.len() as int } else if s[i] == '.' { i } else { dot_from(s, i + 1) }
}

/// The first six places of a fraction, padded with `'0'`.
pub open spec fn six_places(f: Seq<char>) -> Seq<char> {
    Seq::new(6, |n: int| if n < f.len() { f[n] } else { '0' })
}

/// The largest value the library holds.
pub open spec fn capped(v: int) -> i64 {
    if v > i64::MAX { i64::MAX } else { v as i64 }
}

/// The value of a decimal numeral (digits around at most one `'.'`) in
/// millionths: the whole part, and the fraction cut after six places; held
/// at `i64::MAX`.
pub open spec fn numeral_millionths(t: Seq<char>) -> i64 {
    let k = dot_from(t, 0);
    let whole = digits_value(t.take(k));
    let frac = if k < t.len() { t.skip(k + 1) } else { Seq::<char>::empty() };
    capped((whole * 1_000_000 + digits_value(six_places(frac))) as int)
}

/// Ten to the power `n`.
pub open spec fn pow10(n: nat) -> nat
    decreases n,
{
    if n == 0 { 1 } else { 10 * pow10((n - 1) as nat) }
}

proof fn lemma_pow10_mono(a: nat, b: nat)
    requires
        a <= b,
    ensures
        pow10(a) <= pow10(b),
    decreases b,
{
    if a < b {
        lemma_pow10_mono(a, (b - 1) as nat);
    }
}

fn digit_of(c: char) -> (d: u64)
    ensures
        d == digit_value(c),
        d <= 9,
{
    if '0' <= c && c <= '9' {
        (c as u64) - ('0' as u64)
    } else {
        0
    }
}

/// Whole parts at or above this bound give values past `i64::MAX`.
const WHOLE_CAP: u64 = 10_000_000_000_000;

/// The value of a numeral in millionths (see `numeral_millionths`).
pub fn numeral_value(t: &Vec<char>) -> (v: i64)
    ensures
        v == numeral_millionths(t@),
        v >= 0,
{
    let n = t.len();
    let mut k: usize = 0;
    while k < n && t[k] != '.'
        invariant
            n == t@.len(),
            k <= n,
            dot_from(t@, 0) == dot_from(t@, k as int),
        decreases n - k,
    {
        k = k + 1;
    }
    assert(dot_from(t@, k as int) == k);
    let mut w: u64 = 0;
    let mut m: usize = 0;
    while m < k
        invariant
            k <= n == t@.len(),
            m <= k,
            w == (if digits_value(t@.take(m as int)) >= WHOLE_CAP { WHOLE_CAP as nat } else { digits_value(t@.take(m as int)) }),
        decreases k - m,
    {
        let d = digit_of(t[m]);
        proof {
            assert(t@.take(m + 1).drop_last() =~= t@.take(m as int));
        }
        if w >= WHOLE_CAP {
            w = WHOLE_CAP;
        } else {
            let x = w * 10 + d;
            w = if x >= WHOLE_CAP { WHOLE_CAP } else { x };
        }
        m = m + 1;
    }
    let ghost frac = if k < n { t@.skip(k + 1) } else { Seq::<char>::empty() };
    let mut f: u64 = 0;
    let mut p: usize = 0;
    while p < 6
        invariant
            k <= n == t@.len(),
            p <= 6,
            frac == (if k < n { t@.skip(k + 1) } else { Seq::<char>::empty() }),
            f == digits_value(six_places(frac).take(p as int)),
            f < pow10(p as nat),
        decreases 6 - p,
    {
        let c = if k < n && p < n - k - 1 { t[k + 1 + p] } else { '0' };
        assert(c == six_places(frac)[p as int]);
        let d = digit_of(c);
        proof {
            assert(six_places(frac).take(p + 1).drop_last() =~= six_places(frac).take(p as int));
            lemma_pow10_mono((p + 1) as nat, 6);
            assert(pow10(6) == 1_000_000) by {
                reveal_with_fuel(pow10, 7);
            }
        }
        f = f * 10 + d;
        p = p + 1;
    }
    proof {
        assert(six_places(frac).take(6) =~= six_places(frac));
        assert(pow10(6) == 1_000_000) by {
            reveal_with_fuel(pow10, 7);
        }
    }
    let total = w * 1_000_000 + f;
    if total > i64::MAX as u64 {
        i64::MAX
    } else {
        total as i64
    }
}


/// The characters of a numeral: digits and `'.'`, and also `','` where
/// `commas` is set.
pub open spec fn in_numeral(c: char, commas: bool) -> bool {
    is_digit(c) || c == '.' || (commas && c == ',')
}

/// The end of the run of numeral characters that starts at `i`.
pub open spec fn run_end(s: Seq<char>, i: int, commas: bool) -> int
    decreases s.len() - i,
{
    if 0 <= i < s.len() && in_numeral(s[i], commas) { run_end(s, i + 1, commas) } else { i }
}

/// The first position at or after `i` that is not white space.
pub open spec fn white_end(s: Seq<char>, i: int) -> int
    decreases s.len() - i,
{
    if 0 <= i < s.len() && is_white(s[i]) { white_end(s, i + 1) } else { i }
}

/// A run ends at or after its start, and within the text.
pub proof fn lemma_run_end_bounds(s: Seq<char>, i: int, commas: bool)
    requires
        0 <= i <= s.len(),
    ensures
        i <= run_end(s, i, commas) <= s.len(),
    decreases s.len() - i,
{
    if i < s.len() && in_numeral(s[i], commas) {
        lemma_run_end_bounds(s, i + 1, commas);
    }
}

/// `s` without its `','` characters.
pub open spec fn without_commas(s: Seq<char>) -> Seq<char>
    decreases s.len(),
{
    if s.len() == 0 {
        s
    } else if s.last() == ',' {
        without_commas(s.drop_last())
    } else {
        without_commas(s.drop_last()).push(s.last())
    }
}

/// The numbers that a `'%'` follows, from position `i` on: each run of digits
/// and dots that starts with a digit, when the next character that is not
/// white space is `'%'` and the run holds at most one `'.'`.
pub open spec fn percent_numbers_from(s: Seq<char>, i: int) -> Seq<i64>
    decreases s.len() - i,
{
    if i < 0 || i >= s.len() {
        Seq::empty()
    } else if is_digit(s[i]) {
        proof {
            lemma_run_end_bounds(s, i + 1, false);
        }
        let e = run_end(s, i + 1, false);
        let t = s.subrange(i, e);
        let j = white_end(s, e);
        let rest = percent_numbers_from(s, e);
        if j < s.len() && s[j] == '%' && dot_count(t) <= 1 {
            seq![numeral_millionths(t)] + rest
        } else {
            rest
        }
    } else {
        percent_numbers_from(s, i + 1)
    }
}

/// The numbers that a `'%'` follows in `s` (see `percent_numbers_from`).
pub open spec fn percent_numbers(s: Seq<char>) -> Seq<i64> {
    percent_numbers_from(s, 0)
}

/// The plain numbers from position `i` on: each run of digits, dots and
/// commas, the commas dropped, that holds a digit and at most one `'.'`.
pub open spec fn plain_numbers_from(s: Seq<char>, i: int) -> Seq<i64>
    decreases s.len() - i,
{
    if i < 0 || i >= s.len() {
        Seq::empty()
    } else if in_numeral(s[i], true) {
        proof {
            lemma_run_end_bounds(s, i + 1, true);
        }
        let e = run_end(s, i + 1, true);
        let t = without_commas(s.subrange(i, e));
        let rest = plain_numbers_from(s, e);
        if digit_count(t) >= 1 && dot_count(t) <= 1 {
            seq![numeral_millionths(t)] + rest
        } else {
            rest
        }
    } else {
        plain_numbers_from(s, i + 1)
    }
}

/// The plain numbers in `s` (see `plain_numbers_from`).
pub open spec fn plain_numbers(s: Seq<char>) -> Seq<i64> {
    plain_numbers_from(s, 0)
}

fn run_end_of(s: &Vec<char>, i: usize, commas: bool) -> (e: usize)
    requires
        i <= s@.len(),
    ensures
        e == run_end(s@, i as int, commas),
        i <= e <= s@.len(),
{
    let n = s.len();
    let mut e = i;
    while e < n && (('0' <= s[e] && s[e] <= '9') || s[e] == '.' || (commas && s[e] == ','))
        invariant
            n == s@.len(),
            i <= e <= n,
            run_end(s@, i as int, commas) == run_end(s@, e as int, commas),
        decreases n - e,
    {
        e = e + 1;
    }
    e
}

fn white_end_of(s: &Vec<char>, i: usize) -> (e: usize)
    requires
        i <= s@.len(),
    ensures
        e == white_end(s@, i as int),
        i <= e <= s@.len(),
{
    let n = s.len();
    let mut e = i;
    while e < n && is_white_char(s[e])
        invariant
            n == s@.len(),
            i <= e <= n,
            white_end(s@, i as int) == white_end(s@, e as int),
        decreases n - e,
    {
        e = e + 1;
    }
    e
}

fn token_chars(s: &Vec<char>, i: usize, e: usize, commas: bool) -> (t: Vec<char>)
    requires
        i <= e <= s@.len(),
    ensures
        t@ == (if commas { without_commas(s@.subrange(i as int, e as int)) } else { s@.subrange(i as int, e as int) }),
{
    let mut t: Vec<char> = Vec::new();
    let mut k = i;
    while k < e
        invariant
            i <= k <= e <= s@.len(),
            t@ == (if commas { without_commas(s@.subrange(i as int, k as int)) } else { s@.subrange(i as int, k as int) }),
        decreases e - k,
    {
        let c = s[k];
        let ghost before = t@;
        proof {
            assert(s@.subrange(i as int, k + 1).drop_last() =~= s@.subrange(i as int, k as int));
        }
        if !(commas && c == ',') {
            t.push(c);
        }
        proof {
            if !commas {
                assert(t@ =~= s@.subrange(i as int, k + 1));
            }
        }
        k = k + 1;
    }
    t
}

/// How many digits and how many dots `t` holds.
fn count_marks(t: &Vec<char>) -> (r: (usize, usize))
    ensures
        r.0 == digit_count(t@),
        r.1 == dot_count(t@),
{
    let mut digits: usize = 0;
    let mut dots: usize = 0;
    let mut k: usize = 0;
    while k < t.len()
        invariant
            k <= t@.len(),
            digits == digit_count(t@.take(k as int)),
            dots == dot_count(t@.take(k as int)),
            digits <= k,
            dots <= k,
        decreases t@.len() - k,
    {
        proof {
            assert(t@.take(k + 1).drop_last() =~= t@.take(k as int));
        }
        let c = t[k];
        if '0' <= c && c <= '9' {
            digits = digits + 1;
        }
        if c == '.' {
            dots = dots + 1;
        }
        k = k + 1;
    }
    assert(t@.take(t@.len() as int) =~= t@);
    (digits, dots)
}

/// The numbers that a `'%'` follows in `text`, in millionths (see
/// `percent_numbers_from`).
pub fn extract_percent_numbers(text: &Vec<char>) -> (r: Vec<i64>)
    ensures
        r@ == percent_numbers(text@),
        forall|k: int| 0 <= k < r@.len() ==> r@[k] >= 0,
{
    let n = text.len();
    let mut out: Vec<i64> = Vec::new();
    let mut i: usize = 0;
    while i < n
        invariant
            n == text@.len(),
            i <= n,
            out@ + percent_numbers_from(text@, i as int) == percent_numbers(text@),
            forall|k: int| 0 <= k < out@.len() ==> out@[k] >= 0,
        decreases n - i,
    {
        let c = text[i];
        if '0' <= c && c <= '9' {
            let e = run_end_of(text, i + 1, false);
            let t = token_chars(text, i, e, false);
            let j = white_end_of(text, e);
            let (_, dots) = count_marks(&t);
            let ghost before = out@;
            if j < n && text[j] == '%' && dots <= 1 {
                let v = numeral_value(&t);
                out.push(v);
                assert(out@ + percent_numbers_from(text@, e as int) =~= before + percent_numbers_from(text@, i as int));
            }
            i = e;
        } else {
            i = i + 1;
        }
    }
    assert(out@ + percent_numbers_from(text@, i as int) =~= out@);
    out
}

/// The plain numbers in `text`, in millionths (see `plain_numbers_from`).
pub fn extract_plain_numbers(text: &Vec<char>) -> (r: Vec<i64>)
    ensures
        r@ == plain_numbers(text@),
        forall|k: int| 0 <= k < r@.len() ==> r@[k] >= 0,
{
    let n = text.len();
    let mut out: Vec<i64> = Vec::new();
    let mut i: usize = 0;
    while i < n
        invariant
            n == text@.len(),
            i <= n,
            out@ + plain_numbers_from(text@, i as int) == plain_numbers(text@),
            forall|k: int| 0 <= k < out@.len() ==> out@[k] >= 0,
        decreases n - i,
    {
        let c = text[i];
        if ('0' <= c && c <= '9') || c == '.' || c == ',' {
            let e = run_end_of(text, i + 1, true);
            let t = token_chars(text, i, e, true);
            let (digits, dots) = count_marks(&t);
            let ghost before = out@;
            if digits >= 1 && dots <= 1 {
                let v = numeral_value(&t);
                out.push(v);
                assert(out@ + plain_numbers_from(text@, e as int) =~= before + plain_numbers_from(text@, i as int));
            }
            i = e;
        } else {
            i = i + 1;
        }
    }
    assert(out@ + plain_numbers_from(text@, i as int) =~= out@);
    out
}


// ---------------------------------------------------------------------------
// Words, blocks and markers
// ---------------------------------------------------------------------------

/// `hay` holds one of `words`, each taken in ASCII lower case.
pub open spec fn mentions_any(hay: Seq<char>, words: Seq<Seq<char>>) -> bool {
    exists|k: int| #![trigger words[k]] 0 <= k < words.len() && contains_seq(hay, ascii_lowered(words[k]))
}

/// The texts of a list of words.
pub open spec fn word_views(words: Seq<&str>) -> Seq<Seq<char>> {
    words.map_values(|w: &str| w@)
}

/// Whether `hay` holds one of `words` (see `mentions_any`).
fn mentions_any_of(hay: &Vec<char>, words: &Vec<&str>) -> (r: bool)
    ensures
        r == mentions_any(hay@, word_views(words@)),
{
    let ghost ws = word_views(words@);
    let mut k: usize = 0;
    while k < words.len()
        invariant
            k <= words@.len(),
            ws == word_views(words@),
            forall|m: int| 0 <= m < k ==> !contains_seq(hay@, ascii_lowered(#[trigger] ws[m])),
        decreases words@.len() - k,
    {
        let w = chars_of(words[k]);
        let wl = ascii_lowercase(&w);
        assert(ws[k as int] == words@[k as int]@);
        if contains_chars(hay, &wl) {
            return true;
        }
        k = k + 1;
    }
    false
}

fn append_chars(dst: &mut Vec<char>, src: &Vec<char>)
    ensures
        final(dst)@ == old(dst)@ + src@,
{
    let mut k: usize = 0;
    while k < src.len()
        invariant
            k <= src@.len(),
            dst@ == old(dst)@ + src@.take(k as int),
        decreases src@.len() - k,
    {
        dst.push(src[k]);
        k = k + 1;
        assert(dst@ =~= old(dst)@ + src@.take(k as int));
    }
    assert(src@.take(src@.len() as int) =~= src@);
}

/// Line `idx` followed by up to `extra` following lines, each after a space.
pub open spec fn block_of(lines: Seq<Seq<char>>, idx: int, extra: nat) -> Seq<char>
    decreases extra,
{
    if extra == 0 {
        lines[idx]
    } else {
        let b = block_of(lines, idx, (extra - 1) as nat);
        if idx + extra < lines.len() { b.push(' ') + lines[idx + extra] } else { b }
    }
}

fn block_at(lines: &Vec<Vec<char>>, idx: usize, extra: usize) -> (b: Vec<char>)
    requires
        idx < lines@.len(),
        extra <= 3,
    ensures
        b@ == block_of(views(lines@), idx as int, extra as nat),
{
    let ghost ls = views(lines@);
    let mut b: Vec<char> = Vec::new();
    append_chars(&mut b, &lines[idx]);
    assert(b@ =~= ls[idx as int]);
    let mut off: usize = 1;
    while off <= extra
        invariant
            idx < lines@.len(),
            extra <= 3,
            ls == views(lines@),
            1 <= off <= extra + 1,
            b@ == block_of(ls, idx as int, (off - 1) as nat),
        decreases extra + 1 - off,
    {
        if off < lines.len() - idx {
            b.push(' ');
            append_chars(&mut b, &lines[idx + off]);
        }
        off = off + 1;
    }
    b
}

/// Words that mark a percentage as what is left.
pub open spec fn remaining_markers() -> Seq<Seq<char>> {
    seq!["remaining"@, "left"@, "available"@, "remain"@, "剩余"@, "可用"@, "剩下"@, "还剩"@]
}

/// Words that mark a percentage as what is used.
pub open spec fn used_markers() -> Seq<Seq<char>> {
    seq!["used"@, "usage"@, "consumed"@, "已用"@, "使用"@, "消耗"@]
}

/// A percentage held to `0..=100`.
pub open spec fn clamped_percent(p: i64) -> i64 {
    if p < 0 { 0 } else if p > HUNDRED_PERCENT { HUNDRED_PERCENT } else { p }
}

/// The used and remaining percentages a block of text gives: from its first
/// percentage, read as what is left where the block names it so (or names
/// neither), and as what is used where it only names use.
pub open spec fn used_remaining(block: Seq<char>) -> Option<(i64, i64)> {
    let percents = percent_numbers(block);
    if percents.len() == 0 {
        None
    } else {
        let p = clamped_percent(percents[0]);
        let lower = ascii_lowered(block);
        if mentions_any(lower, remaining_markers()) {
            Some(((HUNDRED_PERCENT - p) as i64, p))
        } else if mentions_any(lower, used_markers()) {
            Some((p, (HUNDRED_PERCENT - p) as i64))
        } else {
            Some(((HUNDRED_PERCENT - p) as i64, p))
        }
    }
}

/// A percentage held to `0..=100` (see `clamped_percent`).
pub fn clamp_percent(p: i64) -> (r: i64)
    ensures
        r == clamped_percent(p),
{
    if p < 0 {
        0
    } else if p > HUNDRED_PERCENT {
        HUNDRED_PERCENT
    } else {
        p
    }
}

/// The used and remaining percentages that a block of text gives (see
/// `used_remaining`).
pub fn parse_used_remaining_from_block(block: &Vec<char>) -> (r: Option<(i64, i64)>)
    ensures
        r == used_remaining(block@),
{
    let percents = extract_percent_numbers(block);
    if percents.len() == 0 {
        return None;
    }
    let p = clamp_percent(percents[0]);
    let lower = ascii_lowercase(block);
    let remaining = vec!["remaining", "left", "available", "remain", "剩余", "可用", "剩下", "还剩"];
    let used = vec!["used", "usage", "consumed", "已用", "使用", "消耗"];
    assert(word_views(remaining@) =~= remaining_markers());
    assert(word_views(used@) =~= used_markers());
    if mentions_any_of(&lower, &remaining) {
        Some((HUNDRED_PERCENT - p, p))
    } else if mentions_any_of(&lower, &used) {
        Some((p, HUNDRED_PERCENT - p))
    } else {
        Some((HUNDRED_PERCENT - p, p))
    }
}

// ---------------------------------------------------------------------------
// Reset text
// ---------------------------------------------------------------------------

/// Words that introduce when a quota resets.
pub open spec fn reset_markers() -> Seq<Seq<char>> {
    seq!["reset"@, "resets"@, "renews"@, "重置"@, "恢复"@, "刷新"@]
}

/// Bytes of a character in UTF-8.
pub open spec fn utf8_width(c: char) -> nat {
    if (c as u32) < 0x80 {
        1
    } else if (c as u32) < 0x800 {
        2
    } else if (c as u32) < 0x10000 {
        3
    } else {
        4
    }
}

/// Bytes of a text in UTF-8.
pub open spec fn utf8_len(s: Seq<char>) -> nat
    decreases s.len(),
{
    if s.len() == 0 { 0 } else { utf8_len(s.drop_last()) + utf8_width(s.last()) }
}

/// `i` is where `needle` first occurs in `hay`.
pub open spec fn is_first_occurrence(hay: Seq<char>, needle: Seq<char>, i: int) -> bool {
    occurs_at(hay, needle, i) && forall|j: int| 0 <= j < i ==> !occurs_at(hay, needle, j)
}

/// Where `needle` first occurs in `hay`.
pub open spec fn first_occurrence(hay: Seq<char>, needle: Seq<char>) -> int {
    choose|i: int| is_first_occurrence(hay, needle, i)
}

/// Up to 48 characters of `s` from position `k` on.
pub open spec fn reset_tail(s: Seq<char>, k: nat) -> Seq<char> {
    let a = if k < s.len() { k as int } else { s.len() as int };
    let b = if a + 48 < s.len() { a + 48 } else { s.len() as int };
    s.subrange(a, b)
}

/// The reset text of a block, from marker `m` of `markers` on: at the first
/// marker that the lower-case block holds, the trimmed 48 characters that
/// start at the marker's UTF-8 byte offset in the block, that offset counted
/// in characters.
pub open spec fn reset_text_from(block: Seq<char>, markers: Seq<Seq<char>>, m: int) -> Option<Seq<char>>
    decreases markers.len() - m,
{
    if m < 0 || m >= markers.len() {
        None
    } else {
        let lower = ascii_lowered(block);
        if contains_seq(lower, markers[m]) {
            let offset = utf8_len(lower.take(first_occurrence(lower, markers[m])));
            Some(trimmed(reset_tail(block, offset)))
        } else {
            reset_text_from(block, markers, m + 1)
        }
    }
}

/// The reset text of a block (see `reset_text_from`).
pub open spec fn reset_text_of(block: Seq<char>) -> Option<Seq<char>> {
    reset_text_from(block, reset_markers(), 0)
}

fn utf8_offset(s: &Vec<char>, k: usize) -> (b: u128)
    requires
        k <= s@.len(),
    ensures
        b == utf8_len(s@.take(k as int)),
{
    let mut b: u128 = 0;
    let mut i: usize = 0;
    while i < k
        invariant
            k <= s@.len(),
            i <= k,
            b == utf8_len(s@.take(i as int)),
            b <= 4 * i,
        decreases k - i,
    {
        proof {
            assert(s@.take(i + 1).drop_last() =~= s@.take(i as int));
        }
        let c = s[i] as u32;
        let w: u128 = if c < 0x80 {
            1
        } else if c < 0x800 {
            2
        } else if c < 0x10000 {
            3
        } else {
            4
        };
        b = b + w;
        i = i + 1;
    }
    b
}

/// The reset text of `block` (see `reset_text_of`).
pub fn extract_reset_text(block: &Vec<char>) -> (r: Option<String>)
    ensures
        opt_chars(r) == reset_text_of(block@),
{
    let lower = ascii_lowercase(block);
    let markers = vec!["reset", "resets", "renews", "重置", "恢复", "刷新"];
    let ghost ms = reset_markers();
    assert(word_views(markers@) =~= ms);
    let mut m: usize = 0;
    while m < markers.len()
        invariant
            m <= markers@.len(),
            word_views(markers@) == ms,
            ms == reset_markers(),
            lower@ == ascii_lowered(block@),
            reset_text_from(block@, ms, 0) == reset_text_from(block@, ms, m as int),
        decreases markers@.len() - m,
    {
        let marker = chars_of(markers[m]);
        assert(marker@ == ms[m as int]);
        match find_chars(&lower, &marker) {
            Some(pos) => {
                proof {
                    let hay = lower@;
                    let needle = marker@;
                    assert(is_first_occurrence(hay, needle, pos as int));
                    let c = first_occurrence(hay, needle);
                    assert(is_first_occurrence(hay, needle, c));
                    assert(c == pos as int) by {
                        if c < pos as int {
                            assert(!occurs_at(hay, needle, c));
                        } else if c > pos as int {
                            assert(!occurs_at(hay, needle, pos as int));
                        }
                    }
                }
                let offset = utf8_offset(&lower, pos);
                let n = block.len();
                let a: usize = if offset < n as u128 { offset as usize } else { n };
                let b: usize = if n - a > 48 { a + 48 } else { n };
                let tail = token_chars(block, a, b, false);
                let text = trim_chars(&tail);
                proof {
                    assert(contains_seq(lower@, marker@));
                    assert(tail@ == reset_tail(block@, offset as nat));
                    assert(reset_text_from(block@, ms, m as int) == Some(trimmed(reset_tail(block@, offset as nat))));
                }
                return Some(string_from_chars(&text));
            },
            None => {},
        }
        m = m + 1;
    }
    None
}


// ---------------------------------------------------------------------------
// Quota windows
// ---------------------------------------------------------------------------

/// Words that name the 5-hour window.
pub open spec fn primary_keywords() -> Seq<Seq<char>> {
    seq!["5-hour"@, "5 hour"@, "5h"@, "5 小时"@, "5小时"@, "five hour"@, "session"@, "primary"@, "short"@]
}

/// Words that name the weekly window.
pub open spec fn secondary_keywords() -> Seq<Seq<char>> {
    seq!["weekly"@, "week"@, "7-day"@, "7 day"@, "周"@, "secondary"@, "long"@]
}

/// The window read from a block of text.
pub open spec fn text_window(
    label: Seq<char>,
    used_remaining: (i64, i64),
    duration: Option<i64>,
    reset_text: Option<Seq<char>>,
) -> LimitModel {
    LimitModel {
        label,
        used_percent: Some(used_remaining.0),
        remaining_percent: Some(used_remaining.1),
        window_duration_mins: duration,
        resets_at: None,
        reset_text,
        reached_type: None,
        semantic_id: None,
        semantic_label: None,
    }
}

/// The window given by the first line, from line `i` on, that names one of
/// `keywords` and whose block (the line and the three after it) gives a
/// percentage.
pub open spec fn percent_window_from(
    lines: Seq<Seq<char>>,
    i: int,
    label: Seq<char>,
    keywords: Seq<Seq<char>>,
    duration: Option<i64>,
) -> Option<LimitModel>
    decreases lines.len() - i,
{
    if i < 0 || i >= lines.len() {
        None
    } else {
        let block = block_of(lines, i, 3);
        let found = match used_remaining(block) {
            Some(ur) => if mentions_any(ascii_lowered(lines[i]), keywords) {
                Some(text_window(label, ur, duration, reset_text_of(block)))
            } else {
                None
            },
            None => None,
        };
        if found is Some { found } else { percent_window_from(lines, i + 1, label, keywords, duration) }
    }
}

/// The window named by `keywords` in `lines` (see `percent_window_from`).
pub fn parse_percent_window(lines: &Vec<Vec<char>>, label: &str, keywords: &Vec<&str>, duration: Option<i64>) -> (r:
    Option<LimitWindow>)
    ensures
        opt_limit(r) == percent_window_from(views(lines@), 0, label@, word_views(keywords@), duration),
{
    let ghost ls = views(lines@);
    let ghost ks = word_views(keywords@);
    let mut i: usize = 0;
    while i < lines.len()
        invariant
            i <= lines@.len(),
            ls == views(lines@),
            ks == word_views(keywords@),
            percent_window_from(ls, 0, label@, ks, duration) == percent_window_from(ls, i as int, label@, ks, duration),
        decreases lines@.len() - i,
    {
        let lower = ascii_lowercase(&lines[i]);
        assert(lines@[i as int]@ == ls[i as int]);
        if mentions_any_of(&lower, keywords) {
            let block = block_at(lines, i, 3);
            match parse_used_remaining_from_block(&block) {
                Some(ur) => {
                    let w = LimitWindow {
                        label: label.to_string(),
                        used_percent: Some(ur.0),
                        remaining_percent: Some(ur.1),
                        window_duration_mins: duration,
                        resets_at: None,
                        reset_text: extract_reset_text(&block),
                        reached_type: None,
                        semantic_id: None,
                        semantic_label: None,
                    };
                    assert(w@ == text_window(label@, ur, duration, reset_text_of(block@)));
                    return Some(w);
                },
                None => {},
            }
        }
        i = i + 1;
    }
    None
}

// ---------------------------------------------------------------------------
// Credits
// ---------------------------------------------------------------------------

/// A line about credits.
pub open spec fn names_credits(lower: Seq<char>) -> bool {
    contains_seq(lower, "credit"@) || contains_seq(lower, "credits"@) || contains_seq(lower, "点数"@)
        || contains_seq(lower, "额度券"@)
}

/// A block that speaks of a limit.
pub open spec fn names_limit(lower: Seq<char>) -> bool {
    contains_seq(lower, "limit"@) || contains_seq(lower, "total"@) || contains_seq(lower, "monthly"@)
        || contains_seq(lower, "上限"@) || contains_seq(lower, "总"@)
}

/// A block that writes a pair as "x / y" or "x of y".
pub open spec fn names_pair(lower: Seq<char>) -> bool {
    contains_seq(lower, "/"@) || contains_seq(lower, "of"@)
}

/// Balance and limit after line `idx`, from those known before it. A line
/// about credits whose block (the line and the two after it) holds numbers
/// gives the balance, where none is known yet: its first number. It gives
/// the limit, where none is known yet: its last number where the block
/// speaks of a limit, else its second number where it holds two or more
/// numbers and writes a pair.
pub open spec fn credit_step(known: (Option<i64>, Option<i64>), lines: Seq<Seq<char>>, idx: int) -> (
    Option<i64>,
    Option<i64>,
) {
    let block = block_of(lines, idx, 2);
    let lower = ascii_lowered(block);
    let numbers = plain_numbers(block);
    if !names_credits(ascii_lowered(lines[idx])) || numbers.len() == 0 {
        known
    } else {
        let balance = if known.0 is Some { known.0 } else { Some(numbers[0]) };
        let limit = if known.1 is Some {
            known.1
        } else if names_limit(lower) {
            Some(numbers.last())
        } else if numbers.len() >= 2 && names_pair(lower) {
            Some(numbers[1])
        } else {
            None
        };
        (balance, limit)
    }
}

/// Balance and limit read from the first `n` lines.
pub open spec fn credits_upto(lines: Seq<Seq<char>>, n: nat) -> (Option<i64>, Option<i64>)
    decreases n,
{
    if n == 0 {
        (None, None)
    } else {
        credit_step(credits_upto(lines, (n - 1) as nat), lines, n - 1)
    }
}

/// The credit balance and limit that `lines` give (see `credit_step`).
pub fn parse_credits(lines: &Vec<Vec<char>>) -> (r: (Option<i64>, Option<i64>))
    ensures
        r == credits_upto(views(lines@), lines@.len() as nat),
{
    let ghost ls = views(lines@);
    let mut balance: Option<i64> = None;
    let mut limit: Option<i64> = None;
    let mut idx: usize = 0;
    while idx < lines.len()
        invariant
            idx <= lines@.len(),
            ls == views(lines@),
            (balance, limit) == credits_upto(ls, idx as nat),
        decreases lines@.len() - idx,
    {
        let lower = ascii_lowercase(&lines[idx]);
        assert(lines@[idx as int]@ == ls[idx as int]);
        let ghost known = (balance, limit);
        if contains_str(&lower, "credit") || contains_str(&lower, "credits") || contains_str(&lower, "点数")
            || contains_str(&lower, "额度券") {
            let block = block_at(lines, idx, 2);
            let block_l = ascii_lowercase(&block);
            let numbers = extract_plain_numbers(&block);
            if numbers.len() > 0 {
                if contains_str(&block_l, "limit") || contains_str(&block_l, "total") || contains_str(
                    &block_l,
                    "monthly",
                ) || contains_str(&block_l, "上限") || contains_str(&block_l, "总") {
                    if limit.is_none() {
                        limit = Some(numbers[numbers.len() - 1]);
                    }
                }
                if limit.is_none() && numbers.len() >= 2 && (contains_str(&block_l, "/") || contains_str(
                    &block_l,
                    "of",
                )) {
                    limit = Some(numbers[1]);
                }
                if balance.is_none() {
                    balance = Some(numbers[0]);
                }
            }
        }
        assert((balance, limit) == credit_step(known, ls, idx as int));
        idx = idx + 1;
    }
    (balance, limit)
}

/// A line about reset credits.
pub open spec fn names_reset_credits(lower: Seq<char>) -> bool {
    (contains_seq(lower, "reset"@) || contains_seq(lower, "重置"@)) && (contains_seq(lower, "credit"@)
        || contains_seq(lower, "credits"@) || contains_seq(lower, "券"@))
}

/// A non-negative amount in millionths rounded to the nearest whole number,
/// halves up.
pub open spec fn rounded_whole(m: i64) -> i64 {
    (m / 1_000_000 + if m % 1_000_000 >= 500_000 { 1int } else { 0int }) as i64
}

/// The count on the first line, from line `i` on, that speaks of reset
/// credits and holds a number: that number, rounded.
pub open spec fn reset_credits_from(lines: Seq<Seq<char>>, i: int) -> Option<i64>
    decreases lines.len() - i,
{
    if i < 0 || i >= lines.len() {
        None
    } else if names_reset_credits(ascii_lowered(lines[i])) && plain_numbers(lines[i]).len() > 0 {
        Some(rounded_whole(plain_numbers(lines[i])[0]))
    } else {
        reset_credits_from(lines, i + 1)
    }
}

/// How many reset credits `lines` report (see `reset_credits_from`).
pub fn parse_reset_credit_count(lines: &Vec<Vec<char>>) -> (r: Option<i64>)
    ensures
        r == reset_credits_from(views(lines@), 0),
{
    let ghost ls = views(lines@);
    let mut i: usize = 0;
    while i < lines.len()
        invariant
            i <= lines@.len(),
            ls == views(lines@),
            reset_credits_from(ls, 0) == reset_credits_from(ls, i as int),
        decreases lines@.len() - i,
    {
        let lower = ascii_lowercase(&lines[i]);
        assert(lines@[i as int]@ == ls[i as int]);
        if (contains_str(&lower, "reset") || contains_str(&lower, "重置")) && (contains_str(&lower, "credit")
            || contains_str(&lower, "credits") || contains_str(&lower, "券")) {
            let numbers = extract_plain_numbers(&lines[i]);
            if numbers.len() > 0 {
                let m = numbers[0];
                let half: i64 = if m % 1_000_000 >= 500_000 { 1 } else { 0 };
                return Some(m / 1_000_000 + half);
            }
        }
        i = i + 1;
    }
    None
}

// ---------------------------------------------------------------------------
// Plan
// ---------------------------------------------------------------------------

/// Plan names, in the order they are looked for.
pub open spec fn plan_names() -> Seq<Seq<char>> {
    seq!["enterprise"@, "team"@, "business"@, "pro"@, "plus"@, "go"@, "free"@]
}

/// The lines joined by single spaces.
pub open spec fn spaced(lines: Seq<Seq<char>>) -> Seq<char>
    decreases lines.len(),
{
    if lines.len() == 0 {
        Seq::empty()
    } else if lines.len() == 1 {
        lines[0]
    } else {
        spaced(lines.drop_last()).push(' ') + lines.last()
    }
}

/// The first of `names`, from `k` on, that `all` holds.
pub open spec fn first_named(all: Seq<char>, names: Seq<Seq<char>>, k: int) -> Option<Seq<char>>
    decreases names.len() - k,
{
    if k < 0 || k >= names.len() {
        None
    } else if contains_seq(all, names[k]) {
        Some(names[k])
    } else {
        first_named(all, names, k + 1)
    }
}

/// The plan that `lines` name: the first plan name that the lower-case text
/// holds.
pub open spec fn plan_type_of(lines: Seq<Seq<char>>) -> Option<Seq<char>> {
    first_named(ascii_lowered(spaced(lines)), plan_names(), 0)
}

/// The plan that `lines` name (see `plan_type_of`).
pub fn parse_plan_type(lines: &Vec<Vec<char>>) -> (r: Option<String>)
    ensures
        opt_chars(r) == plan_type_of(views(lines@)),
{
    let ghost ls = views(lines@);
    let mut all: Vec<char> = Vec::new();
    let mut i: usize = 0;
    while i < lines.len()
        invariant
            i <= lines@.len(),
            ls == views(lines@),
            all@ == spaced(ls.take(i as int)),
        decreases lines@.len() - i,
    {
        proof {
            assert(ls.take(i + 1).drop_last() =~= ls.take(i as int));
            assert(ls.take(i + 1).last() == lines@[i as int]@);
        }
        if i > 0 {
            all.push(' ');
        }
        append_chars(&mut all, &lines[i]);
        proof {
            if i == 0 {
                assert(all@ =~= ls.take(1)[0]);
            }
        }
        i = i + 1;
    }
    assert(ls.take(lines@.len() as int) =~= ls);
    let lower = ascii_lowercase(&all);
    let plans = vec!["enterprise", "team", "business", "pro", "plus", "go", "free"];
    let ghost ps = plan_names();
    assert(word_views(plans@) =~= ps);
    let mut k: usize = 0;
    while k < plans.len()
        invariant
            k <= plans@.len(),
            word_views(plans@) == ps,
            ps == plan_names(),
            ls == views(lines@),
            lower@ == ascii_lowered(spaced(ls)),
            first_named(lower@, ps, 0) == first_named(lower@, ps, k as int),
        decreases plans@.len() - k,
    {
        assert(plans@[k as int]@ == ps[k as int]);
        let plan: &str = plans[k];
        if contains_str(&lower, plan) {
            return Some(plan.to_string());
        }
        k = k + 1;
    }
    None
}


// ---------------------------------------------------------------------------
// The reading
// ---------------------------------------------------------------------------

/// The message of a reading from a blank text.
pub const CLIENT_TEXT_MISSING: &'static str = "Client Watch 模式未获得 Usage 页面文本。请打开 Codex 客户端的 Usage / Credits 页面，复制页面可见文字后点“从剪贴板读取”或粘贴到文本框。";

/// The message of a reading from a text that gives no quota.
pub const CLIENT_TEXT_UNPARSED: &'static str = "已读取文本，但没有解析出额度。请尽量复制 Codex 客户端 Settings / Usage / Credits 页面完整可见文字。";

/// The reading that the visible text of the Usage page gives, taken at
/// `updated_at_ms`: the 5-hour and weekly windows, the credit balance and
/// limit, the reset credits and the plan, read from the text's non-blank
/// lines. It is `ok` when any of these is found; a blank text gives an empty
/// reading that asks for the text.
pub open spec fn client_status(text: Seq<char>, updated_at_ms: u128) -> StatusModel {
    let t = trimmed(text);
    if t.len() == 0 {
        StatusModel {
            ok: false,
            message: CLIENT_TEXT_MISSING@,
            source_mode: "client_watch"@,
            auth_mode: Some("client-visible-text"@),
            plan_type: None,
            primary: None,
            secondary: None,
            credit_balance: None,
            credit_limit: None,
            reset_credits_available: None,
            updated_at_ms,
        }
    } else {
        let lines = normalized_lines_spec(t);
        let primary = percent_window_from(lines, 0, "5小时"@, primary_keywords(), Some(300));
        let secondary = percent_window_from(lines, 0, "周额度"@, secondary_keywords(), Some(10080));
        let credits = credits_upto(lines, lines.len());
        let reset_credits = reset_credits_from(lines, 0);
        let ok = primary is Some || secondary is Some || credits.0 is Some || credits.1 is Some
            || reset_credits is Some;
        StatusModel {
            ok,
            message: if ok { "OK"@ } else { CLIENT_TEXT_UNPARSED@ },
            source_mode: "client_watch"@,
            auth_mode: Some("client-visible-text"@),
            plan_type: plan_type_of(lines),
            primary,
            secondary,
            credit_balance: credits.0,
            credit_limit: credits.1,
            reset_credits_available: reset_credits,
            updated_at_ms,
        }
    }
}

/// The reading that `text` gives, taken at `updated_at_ms` (see
/// `client_status`).
pub fn parse_client_usage_text_at(text: &str, updated_at_ms: u128) -> (st: CodexMeterStatus)
    ensures
        st@ == client_status(text@, updated_at_ms),
{
    let all = chars_of(text);
    let t = trim_chars(&all);
    if t.len() == 0 {
        return CodexMeterStatus {
            ok: false,
            message: CLIENT_TEXT_MISSING.to_string(),
            source_mode: "client_watch".to_string(),
            auth_mode: Some("client-visible-text".to_string()),
            plan_type: None,
            primary: None,
            secondary: None,
            credit_balance: None,
            credit_limit: None,
            reset_credits_available: None,
            updated_at_ms,
        };
    }
    let lines = normalized_lines(&t);
    let primary_words = vec!["5-hour", "5 hour", "5h", "5 小时", "5小时", "five hour", "session", "primary", "short"];
    let secondary_words = vec!["weekly", "week", "7-day", "7 day", "周", "secondary", "long"];
    assert(word_views(primary_words@) =~= primary_keywords());
    assert(word_views(secondary_words@) =~= secondary_keywords());
    let primary = parse_percent_window(&lines, "5小时", &primary_words, Some(300));
    let secondary = parse_percent_window(&lines, "周额度", &secondary_words, Some(10080));
    let (credit_balance, credit_limit) = parse_credits(&lines);
    let reset_credits_available = parse_reset_credit_count(&lines);
    let plan_type = parse_plan_type(&lines);
    let ok = primary.is_some() || secondary.is_some() || credit_balance.is_some() || credit_limit.is_some()
        || reset_credits_available.is_some();
    CodexMeterStatus {
        ok,
        message: if ok { "OK".to_string() } else { CLIENT_TEXT_UNPARSED.to_string() },
        source_mode: "client_watch".to_string(),
        auth_mode: Some("client-visible-text".to_string()),
        plan_type,
        primary,
        secondary,
        credit_balance,
        credit_limit,
        reset_credits_available,
        updated_at_ms,
    }
}

/// The reading that the visible text of the Usage page gives, taken now (see
/// `client_status`).
pub fn parse_client_usage_text(text: String) -> (st: CodexMeterStatus)
    ensures
        st@ == client_status(text@, st.updated_at_ms),
{
    let now = clock_millis();
    parse_client_usage_text_at(text.as_str(), now)
}


// ---------------------------------------------------------------------------
// Laws
// ---------------------------------------------------------------------------

/// A window read from the text states both percentages, each within
/// 0..=100, and they add up to 100.
pub proof fn lemma_text_window_adds_up(
    lines: Seq<Seq<char>>,
    i: int,
    label: Seq<char>,
    keywords: Seq<Seq<char>>,
    duration: Option<i64>,
)
    ensures
        percent_window_from(lines, i, label, keywords, duration) matches Some(w) ==> (w.used_percent matches Some(
            u,
        ) && w.remaining_percent matches Some(r) && 0 <= u <= HUNDRED_PERCENT && 0 <= r <= HUNDRED_PERCENT && u + r
            == HUNDRED_PERCENT),
        percent_window_from(lines, i, label, keywords, duration) matches Some(w) ==> w.label == label
            && w.window_duration_mins == duration,
    decreases lines.len() - i,
{
    if 0 <= i < lines.len() {
        lemma_text_window_adds_up(lines, i + 1, label, keywords, duration);
    }
}

/// A blank text gives a reading that is not `ok` and states no quota; any
/// other text gives an `ok` reading exactly when it yields a window, a
/// credit figure or a reset-credit count.
pub proof fn lemma_client_reading_ok(text: Seq<char>, updated_at_ms: u128)
    ensures
        trimmed(text).len() == 0 ==> !client_status(text, updated_at_ms).ok,
        client_status(text, updated_at_ms).ok <==> (client_status(text, updated_at_ms).primary is Some
            || client_status(text, updated_at_ms).secondary is Some
            || client_status(text, updated_at_ms).credit_balance is Some
            || client_status(text, updated_at_ms).credit_limit is Some
            || client_status(text, updated_at_ms).reset_credits_available is Some),
        client_status(text, updated_at_ms).updated_at_ms == updated_at_ms,
        client_status(text, updated_at_ms).ok <==> client_status(text, updated_at_ms).message == "OK"@,
{
    reveal_strlit("OK");
    reveal_strlit("Client Watch 模式未获得 Usage 页面文本。请打开 Codex 客户端的 Usage / Credits 页面，复制页面可见文字后点“从剪贴板读取”或粘贴到文本框。");
    reveal_strlit("已读取文本，但没有解析出额度。请尽量复制 Codex 客户端 Settings / Usage / Credits 页面完整可见文字。");
    assert(CLIENT_TEXT_MISSING@.len() != 2);
    assert(CLIENT_TEXT_UNPARSED@.len() != 2);
}

/// The plan a text names is one of the known plan names.
pub proof fn lemma_plan_is_known(all: Seq<char>, k: int)
    ensures
        first_named(all, plan_names(), k) matches Some(p) ==> plan_names().contains(p),
    decreases plan_names().len() - k,
{
    if 0 <= k < plan_names().len() {
        lemma_plan_is_known(all, k + 1);
        if contains_seq(all, plan_names()[k]) {
            assert(plan_names()[k] == plan_names()[k]);
        }
    }
}


proof fn lemma_trim_start_head(x: Seq<char>)
    ensures
        trim_start(x).len() > 0 ==> !is_white(trim_start(x)[0]),
    decreases x.len(),
{
    if x.len() > 0 && is_white(x[0]) {
        lemma_trim_start_head(x.drop_first());
    }
}

proof fn lemma_trim_end_ends(y: Seq<char>)
    ensures
        trim_end(y).len() <= y.len(),
        trim_end(y) == y.take(trim_end(y).len() as int),
        trim_end(y).len() > 0 ==> !is_white(trim_end(y).last()),
    decreases y.len(),
{
    if y.len() > 0 && is_white(y.last()) {
        lemma_trim_end_ends(y.drop_last());
        let t = trim_end(y.drop_last());
        assert(y.drop_last().take(t.len() as int) =~= y.take(t.len() as int));
    } else {
        assert(y.take(y.len() as int) =~= y);
    }
}

/// Every normalized line is non-blank, and neither begins nor ends with
/// white space.
pub proof fn lemma_normalized_lines_are_trimmed(s: Seq<char>)
    ensures
        forall|i: int|
            0 <= i < normalized_lines_spec(s).len() ==> {
                let l = #[trigger] normalized_lines_spec(s)[i];
                l.len() > 0 && !is_white(l[0]) && !is_white(l.last())
            },
{
    lemma_kept_lines_trimmed(segments(s));
}

proof fn lemma_kept_lines_trimmed(pieces: Seq<Seq<char>>)
    ensures
        forall|i: int|
            0 <= i < kept_lines(pieces).len() ==> {
                let l = #[trigger] kept_lines(pieces)[i];
                l.len() > 0 && !is_white(l[0]) && !is_white(l.last())
            },
    decreases pieces.len(),
{
    if pieces.len() > 0 {
        lemma_kept_lines_trimmed(pieces.drop_last());
        let x = trim_start(without_nbsp(pieces.last()));
        lemma_trim_start_head(without_nbsp(pieces.last()));
        lemma_trim_end_ends(x);
        let c = clean_line(pieces.last());
        if c.len() > 0 {
            assert(c[0] == x[0]);
        }
        let r = kept_lines(pieces.drop_last());
        assert forall|i: int| 0 <= i < kept_lines(pieces).len() implies {
            let l = #[trigger] kept_lines(pieces)[i];
            l.len() > 0 && !is_white(l[0]) && !is_white(l.last())
        } by {
            if i < r.len() {
                assert(kept_lines(pieces)[i] == r[i]);
            }
        }
    }
}


proof fn lemma_occurs_in_prefix(a: Seq<char>, b: Seq<char>, n: Seq<char>, j: int)
    requires
        occurs_at(a, n, j),
    ensures
        occurs_at(a + b, n, j),
{
    assert((a + b).subrange(j, j + n.len()) =~= a.subrange(j, j + n.len()));
}

proof fn lemma_occurs_within(a: Seq<char>, b: Seq<char>, c: Seq<char>, j: int, m: int)
    requires
        occurs_at(a, b, j),
        occurs_at(b, c, m),
    ensures
        occurs_at(a, c, j + m),
{
    assert(a.subrange(j + m, j + m + c.len()) =~= a.subrange(j, j + b.len()).subrange(m, m + c.len()));
}

proof fn lemma_lowered_occurs(h: Seq<char>, n: Seq<char>, j: int)
    requires
        occurs_at(h, n, j),
    ensures
        occurs_at(ascii_lowered(h), ascii_lowered(n), j),
{
    assert(ascii_lowered(h).subrange(j, j + n.len()) =~= ascii_lowered(h.subrange(j, j + n.len())));
}

proof fn lemma_line_in_spaced(lines: Seq<Seq<char>>, i: int)
    requires
        0 <= i < lines.len(),
    ensures
        exists|j: int| occurs_at(spaced(lines), lines[i], j),
    decreases lines.len(),
{
    if lines.len() == 1 {
        assert(spaced(lines).subrange(0, lines[0].len() as int) =~= lines[0]);
        assert(occurs_at(spaced(lines), lines[i], 0));
    } else {
        let d = lines.drop_last();
        let head = spaced(d).push(' ');
        assert(spaced(lines) == head + lines.last());
        if i == lines.len() - 1 {
            let j = head.len() as int;
            assert((head + lines.last()).subrange(j, j + lines.last().len()) =~= lines.last());
            assert(occurs_at(spaced(lines), lines[i], j));
        } else {
            lemma_line_in_spaced(d, i);
            let j = choose|j: int| occurs_at(spaced(d), d[i], j);
            assert(d[i] == lines[i]);
            lemma_occurs_in_prefix(spaced(d), seq![' '], lines[i], j);
            assert(spaced(d) + seq![' '] =~= head);
            lemma_occurs_in_prefix(head, lines.last(), lines[i], j);
        }
    }
}

proof fn lemma_first_named_finds(all: Seq<char>, names: Seq<Seq<char>>, s: int, k: int)
    requires
        0 <= s <= k < names.len(),
        contains_seq(all, names[k]),
    ensures
        first_named(all, names, s) matches Some(p) && exists|k2: int| s <= k2 <= k && p == names[k2],
    decreases k - s,
{
    if !contains_seq(all, names[s]) {
        lemma_first_named_finds(all, names, s + 1, k);
    }
}

/// A plan named on any line of the text (compared in ASCII lower case) is
/// found: the text's plan is that name or one earlier in the order of plan
/// names, wherever the line stands.
pub proof fn lemma_plan_found_on_any_line(lines: Seq<Seq<char>>, i: int, k: int)
    requires
        0 <= i < lines.len(),
        0 <= k < plan_names().len(),
        contains_seq(ascii_lowered(lines[i]), plan_names()[k]),
    ensures
        plan_type_of(lines) matches Some(p) && exists|k2: int| 0 <= k2 <= k && p == plan_names()[k2],
{
    let all = ascii_lowered(spaced(lines));
    let name = plan_names()[k];
    lemma_line_in_spaced(lines, i);
    let j = choose|j: int| occurs_at(spaced(lines), lines[i], j);
    lemma_lowered_occurs(spaced(lines), lines[i], j);
    let m = choose|m: int| occurs_at(ascii_lowered(lines[i]), name, m);
    lemma_occurs_within(all, ascii_lowered(lines[i]), name, j, m);
    assert(contains_seq(all, name));
    lemma_first_named_finds(all, plan_names(), 0, k);
}


/// A reading of the Usage page's text names the plan that any of its lines
/// names (or one earlier in the order of plan names).
pub proof fn lemma_reading_plan(text: Seq<char>, updated_at_ms: u128, i: int, k: int)
    requires
        trimmed(text).len() > 0,
        0 <= i < normalized_lines_spec(trimmed(text)).len(),
        0 <= k < plan_names().len(),
        contains_seq(ascii_lowered(normalized_lines_spec(trimmed(text))[i]), plan_names()[k]),
    ensures
        client_status(text, updated_at_ms).plan_type matches Some(p) && exists|k2: int| 0 <= k2 <= k && p
            == plan_names()[k2],
{
    lemma_plan_found_on_any_line(normalized_lines_spec(trimmed(text)), i, k);
}

} // verus!
