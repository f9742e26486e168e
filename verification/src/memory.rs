//! Memory figures of a process: reading a field of a `/proc/<pid>/status`
//! text, and choosing the unit in which a figure in kilobytes is shown.
use vstd::prelude::*;
use vstd::string::StrSliceExecFns;

verus! {

/// The unit a memory figure is shown in.
#[derive(Debug, Clone, Copy, PartialEq, Eq, Structural)]
pub enum MemoryUnit {
    Kilobytes,
    Megabytes,
    Gigabytes,
}

/// Gigabytes above a million kilobytes, megabytes above a thousand,
/// kilobytes otherwise.
pub open spec fn unit_of(kb: nat) -> MemoryUnit {
    if kb > 1_000_000 {
        MemoryUnit::Gigabytes
    } else if kb > 1_000 {
        MemoryUnit::Megabytes
    } else {
        MemoryUnit::Kilobytes
    }
}

/// The unit in which `kb` kilobytes are shown.
pub fn memory_unit(kb: usize) -> (r: MemoryUnit)
    ensures
        r == unit_of(kb as nat),
{
    if kb > 1_000_000 {
        MemoryUnit::Gigabytes
    } else if kb > 1_000 {
        MemoryUnit::Megabytes
    } else {
        MemoryUnit::Kilobytes
    }
}

/// The characters `char::is_whitespace` accepts (Unicode `White_Space`).
pub open spec fn is_whitespace(c: char) -> bool {
    ||| c == ' '
    ||| ('\t' <= c && c <= '\r')
    ||| c == '\u{85}'
    ||| c == '\u{a0}'
    ||| c == '\u{1680}'
    ||| ('\u{2000}' <= c && c <= '\u{200a}')
    ||| c == '\u{2028}'
    ||| c == '\u{2029}'
    ||| c == '\u{202f}'
    ||| c == '\u{205f}'
    ||| c == '\u{3000}'
}

/// Index of the first `'\n'` at or after `i`, or the end of `s`.
pub open spec fn line_end(s: Seq<char>, i: int) -> int
    decreases s.len() - i,
{
    if i >= s.len() {
        s.len() as int
    } else if s[i] == '\n' {
        i
    } else {
        line_end(s, i + 1)
    }
}

/// End of the text of the line `[i, e)`: a `'\r'` just before its `'\n'` is
/// not part of it.
pub open spec fn content_end(s: Seq<char>, i: int, e: int) -> int {
    if e < s.len() && e > i && s[e - 1] == '\r' {
        e - 1
    } else {
        e
    }
}

/// `s[i..end)` starts with `key`.
pub open spec fn starts_with_at(s: Seq<char>, i: int, end: int, key: Seq<char>) -> bool {
    key.len() <= end - i && s.subrange(i, i + key.len()) == key
}

/// First index in `[j, b)` that is not whitespace, or `b`.
pub open spec fn skip_space(s: Seq<char>, j: int, b: int) -> int
    decreases b - j,
{
    if j >= b {
        b
    } else if is_whitespace(s[j]) {
        skip_space(s, j + 1, b)
    } else {
        j
    }
}

/// First index in `[j, b)` that is whitespace, or `b`.
pub open spec fn skip_word(s: Seq<char>, j: int, b: int) -> int
    decreases b - j,
{
    if j >= b {
        b
    } else if !is_whitespace(s[j]) {
        skip_word(s, j + 1, b)
    } else {
        j
    }
}

/// The bounds of the second whitespace-separated word of `s[a..b)`.
pub open spec fn second_word(s: Seq<char>, a: int, b: int) -> Option<(int, int)> {
    let t1 = skip_space(s, a, b);
    if t1 >= b {
        None
    } else {
        let t2 = skip_space(s, skip_word(s, t1, b), b);
        if t2 >= b {
            None
        } else {
            Some((t2, skip_word(s, t2, b)))
        }
    }
}

/// Every character of `s[a..b)` is an ASCII digit.
pub open spec fn all_digits(s: Seq<char>, a: int, b: int) -> bool {
    forall|k: int| a <= k < b ==> '0' <= #[trigger] s[k] && s[k] <= '9'
}

/// The decimal number written by the digits `s[a..b)`.
pub open spec fn decimal(s: Seq<char>, a: int, b: int) -> int
    decreases b - a,
{
    if b <= a {
        0
    } else {
        decimal(s, a, b - 1) * 10 + (s[b - 1] as int - 48)
    }
}

/// `s[a..b)` read as a `usize`, as `str::parse::<usize>` reads it: an
/// optional `'+'`, then at least one ASCII digit, the number not above
/// `usize::MAX`.
pub open spec fn parse_usize(s: Seq<char>, a: int, b: int) -> Option<usize> {
    let d = if a < b && s[a] == '+' { a + 1 } else { a };
    if d < b && all_digits(s, d, b) && decimal(s, d, b) <= usize::MAX {
        Some(decimal(s, d, b) as usize)
    } else {
        None
    }
}

/// A line ends at the next newline, or at the end of the text.
pub proof fn lemma_line_end_bounds(s: Seq<char>, i: int)
    requires
        0 <= i <= s.len(),
    ensures
        i <= line_end(s, i) <= s.len(),
        line_end(s, i) < s.len() ==> s[line_end(s, i)] == '\n',
        forall|k: int| i <= k < line_end(s, i) ==> s[k] != '\n',
    decreases s.len() - i,
{
    if i < s.len() && s[i] != '\n' {
        lemma_line_end_bounds(s, i + 1);
    }
}

/// The value of the field `key` in a status text, read from line `i` on:
/// the first line whose text starts with `key` gives the field, and its
/// second word read as a `usize` is the value (`None` if it has no second
/// word or that word is not such a number).
pub open spec fn status_field_from(s: Seq<char>, key: Seq<char>, i: int) -> Option<usize>
    decreases s.len() - i,
{
    if i < 0 || i >= s.len() {
        None
    } else {
        let e = line_end(s, i);
        let ce = content_end(s, i, e);
        if starts_with_at(s, i, ce, key) {
            match second_word(s, i, ce) {
                Some((a, b)) => parse_usize(s, a, b),
                None => None,
            }
        } else if e < s.len() {
            proof {
                lemma_line_end_bounds(s, i);
            }
            status_field_from(s, key, e + 1)
        } else {
            None
        }
    }
}

/// The value of the field `key` in a status text.
pub open spec fn status_field(s: Seq<char>, key: Seq<char>) -> Option<usize> {
    status_field_from(s, key, 0)
}

fn is_space(c: char) -> (r: bool)
    ensures
        r == is_whitespace(c),
{
    c == ' ' || ('\t' <= c && c <= '\r') || c == '\u{85}' || c == '\u{a0}' || c == '\u{1680}' || ('\u{2000}'
        <= c && c <= '\u{200a}') || c == '\u{2028}' || c == '\u{2029}' || c == '\u{202f}' || c
        == '\u{205f}' || c == '\u{3000}'
}

fn find_line_end(s: &str, n: usize, i: usize) -> (r: usize)
    requires
        n == s@.len(),
        i <= n,
    ensures
        r == line_end(s@, i as int),
{
    let mut j = i;
    while j < n && s.get_char(j) != '\n'
        invariant
            n == s@.len(),
            i <= j <= n,
            line_end(s@, j as int) == line_end(s@, i as int),
        decreases n - j,
    {
        j = j + 1;
    }
    j
}

fn find_space(s: &str, j: usize, b: usize) -> (r: usize)
    requires
        j <= b <= s@.len(),
    ensures
        r == skip_space(s@, j as int, b as int),
        j <= r <= b,
{
    let mut k = j;
    while k < b && is_space(s.get_char(k))
        invariant
            b <= s@.len(),
            j <= k <= b,
            skip_space(s@, k as int, b as int) == skip_space(s@, j as int, b as int),
        decreases b - k,
    {
        k = k + 1;
    }
    k
}

fn find_word_end(s: &str, j: usize, b: usize) -> (r: usize)
    requires
        j <= b <= s@.len(),
    ensures
        r == skip_word(s@, j as int, b as int),
        j <= r <= b,
{
    let mut k = j;
    while k < b && !is_space(s.get_char(k))
        invariant
            b <= s@.len(),
            j <= k <= b,
            skip_word(s@, k as int, b as int) == skip_word(s@, j as int, b as int),
        decreases b - k,
    {
        k = k + 1;
    }
    k
}

fn has_prefix_at(s: &str, i: usize, end: usize, key: &str) -> (r: bool)
    requires
        i <= end <= s@.len(),
    ensures
        r == starts_with_at(s@, i as int, end as int, key@),
{
    let m = key.unicode_len();
    if m > end - i {
        return false;
    }
    let mut k: usize = 0;
    while k < m
        invariant
            m == key@.len(),
            m <= end - i,
            end <= s@.len(),
            k <= m,
            forall|q: int| 0 <= q < k ==> s@[i + q] == key@[q],
        decreases m - k,
    {
        if s.get_char(i + k) != key.get_char(k) {
            assert(s@.subrange(i as int, i + m)[k as int] != key@[k as int]);
            return false;
        }
        k = k + 1;
    }
    assert(s@.subrange(i as int, i + m) =~= key@);
    true
}

proof fn lemma_decimal_grows(s: Seq<char>, a: int, b: int, c: int)
    requires
        a <= b <= c,
        all_digits(s, a, c),
    ensures
        decimal(s, a, b) <= decimal(s, a, c),
        decimal(s, a, b) >= 0,
    decreases c - b,
{
    if b < c {
        lemma_decimal_grows(s, a, b, c - 1);
        assert('0' <= s[c - 1] && s[c - 1] <= '9');
        assert(decimal(s, a, c) == decimal(s, a, c - 1) * 10 + (s[c - 1] as int - 48));
    } else {
        lemma_decimal_nonneg(s, a, b);
    }
}

proof fn lemma_decimal_nonneg(s: Seq<char>, a: int, b: int)
    requires
        all_digits(s, a, b),
    ensures
        decimal(s, a, b) >= 0,
    decreases b - a,
{
    if b > a {
        lemma_decimal_nonneg(s, a, b - 1);
        assert('0' <= s[b - 1]);
    }
}

fn parse_usize_at(s: &str, a: usize, b: usize) -> (r: Option<usize>)
    requires
        a <= b <= s@.len(),
    ensures
        r == parse_usize(s@, a as int, b as int),
{
    let d = if a < b && s.get_char(a) == '+' { a + 1 } else { a };
    if d >= b {
        return None;
    }
    let mut acc: usize = 0;
    let mut k = d;
    while k < b
        invariant
            a <= b,
            d as int == (if (a as int) < (b as int) && s@[a as int] == '+' { a + 1 } else { a as int }),
            d < b <= s@.len(),
            d <= k <= b,
            all_digits(s@, d as int, k as int),
            acc == decimal(s@, d as int, k as int),
        decreases b - k,
    {
        let c = s.get_char(k);
        if c < '0' || c > '9' {
            assert(!all_digits(s@, d as int, b as int));
            return None;
        }
        let digit = (c as u32 - 48) as usize;
        let ghost next = decimal(s@, d as int, k + 1);
        assert(next == acc * 10 + digit);
        if acc > (usize::MAX - digit) / 10 {
            proof {
                assert(acc * 10 + digit > usize::MAX) by (nonlinear_arith)
                    requires acc > (usize::MAX - digit) / 10, digit <= 9;
                if all_digits(s@, d as int, b as int) {
                    lemma_decimal_grows(s@, d as int, k + 1, b as int);
                }
            }
            return None;
        }
        acc = acc * 10 + digit;
        k = k + 1;
    }
    Some(acc)
}

/// The value of the field `key` in a `/proc/<pid>/status` text: the second
/// word of the first line that starts with `key`, read as a `usize`.
pub fn status_field_kb(status: &str, key: &str) -> (r: Option<usize>)
    ensures
        r == status_field(status@, key@),
{
    let n = status.unicode_len();
    let mut i: usize = 0;
    while i < n
        invariant
            n == status@.len(),
            i <= n,
            status_field_from(status@, key@, i as int) == status_field(status@, key@),
        decreases n - i,
    {
        let e = find_line_end(status, n, i);
        proof {
            lemma_line_end_bounds(status@, i as int);
        }
        let ce = if e < n && e > i && status.get_char(e - 1) == '\r' { e - 1 } else { e };
        if has_prefix_at(status, i, ce, key) {
            let t1 = find_space(status, i, ce);
            if t1 >= ce {
                return None;
            }
            let w1 = find_word_end(status, t1, ce);
            let t2 = find_space(status, w1, ce);
            if t2 >= ce {
                return None;
            }
            let w2 = find_word_end(status, t2, ce);
            return parse_usize_at(status, t2, w2);
        }
        if e >= n {
            return None;
        }
        i = e + 1;
    }
    None
}

proof fn lemma_shift_line_end(p: Seq<char>, t: Seq<char>, j: int)
    requires
        0 <= j <= t.len(),
    ensures
        line_end(p + t, p.len() + j) == p.len() + line_end(t, j),
    decreases t.len() - j,
{
    let s = p + t;
    if j < t.len() {
        assert(s[p.len() + j] == t[j]);
        if t[j] != '\n' {
            lemma_shift_line_end(p, t, j + 1);
        }
    }
}

proof fn lemma_shift_skip_space(p: Seq<char>, t: Seq<char>, j: int, b: int)
    requires
        0 <= j,
        b <= t.len(),
    ensures
        skip_space(p + t, p.len() + j, p.len() + b) == p.len() + skip_space(t, j, b),
    decreases b - j,
{
    if j < b {
        assert((p + t)[p.len() + j] == t[j]);
        if is_whitespace(t[j]) {
            lemma_shift_skip_space(p, t, j + 1, b);
        }
    }
}

proof fn lemma_shift_skip_word(p: Seq<char>, t: Seq<char>, j: int, b: int)
    requires
        0 <= j,
        b <= t.len(),
    ensures
        skip_word(p + t, p.len() + j, p.len() + b) == p.len() + skip_word(t, j, b),
    decreases b - j,
{
    if j < b {
        assert((p + t)[p.len() + j] == t[j]);
        if !is_whitespace(t[j]) {
            lemma_shift_skip_word(p, t, j + 1, b);
        }
    }
}

proof fn lemma_shift_decimal(p: Seq<char>, t: Seq<char>, a: int, b: int)
    requires
        0 <= a,
        b <= t.len(),
    ensures
        decimal(p + t, p.len() + a, p.len() + b) == decimal(t, a, b),
    decreases b - a,
{
    if a < b {
        assert((p + t)[p.len() + b - 1] == t[b - 1]);
        lemma_shift_decimal(p, t, a, b - 1);
    }
}

proof fn lemma_shift_parse_usize(p: Seq<char>, t: Seq<char>, a: int, b: int)
    requires
        0 <= a <= b <= t.len(),
    ensures
        parse_usize(p + t, p.len() + a, p.len() + b) == parse_usize(t, a, b),
{
    let s = p + t;
    let o = p.len() as int;
    if a < b {
        assert(s[o + a] == t[a]);
    }
    let d = if a < b && t[a] == '+' { a + 1 } else { a };
    assert forall|k: int| o + d <= k < o + b implies s[k] == t[k - o] by {}
    assert(all_digits(s, o + d, o + b) == all_digits(t, d, b)) by {
        if all_digits(t, d, b) {
            assert forall|k: int| o + d <= k < o + b implies '0' <= #[trigger] s[k] && s[k] <= '9' by {
                assert(s[k] == t[k - o]);
                assert('0' <= t[k - o] && t[k - o] <= '9');
            }
        }
        if all_digits(s, o + d, o + b) {
            assert forall|k: int| d <= k < b implies '0' <= #[trigger] t[k] && t[k] <= '9' by {
                assert(s[o + k] == t[k]);
                assert('0' <= s[o + k] && s[o + k] <= '9');
            }
        }
    }
    lemma_shift_decimal(p, t, d, b);
}

proof fn lemma_shift_second_word(p: Seq<char>, t: Seq<char>, a: int, b: int)
    requires
        0 <= a <= b <= t.len(),
    ensures
        second_word(p + t, p.len() + a, p.len() + b) == (match second_word(t, a, b) {
            Some((x, y)) => Some((p.len() + x, p.len() + y)),
            None => None,
        }),
{
    let o = p.len() as int;
    lemma_shift_skip_space(p, t, a, b);
    let t1 = skip_space(t, a, b);
    if t1 < b {
        lemma_skip_space_bounds(t, a, b);
        lemma_shift_skip_word(p, t, t1, b);
        let w = skip_word(t, t1, b);
        lemma_skip_word_bounds(t, t1, b);
        lemma_shift_skip_space(p, t, w, b);
        let t2 = skip_space(t, w, b);
        if t2 < b {
            lemma_skip_space_bounds(t, w, b);
            lemma_shift_skip_word(p, t, t2, b);
        }
    }
}

proof fn lemma_skip_space_bounds(s: Seq<char>, j: int, b: int)
    requires
        j <= b,
    ensures
        j <= skip_space(s, j, b) <= b,
    decreases b - j,
{
    if j < b && is_whitespace(s[j]) {
        lemma_skip_space_bounds(s, j + 1, b);
    }
}

proof fn lemma_skip_word_bounds(s: Seq<char>, j: int, b: int)
    requires
        j <= b,
    ensures
        j <= skip_word(s, j, b) <= b,
    decreases b - j,
{
    if j < b && !is_whitespace(s[j]) {
        lemma_skip_word_bounds(s, j + 1, b);
    }
}

proof fn lemma_shift_status_field_from(p: Seq<char>, t: Seq<char>, key: Seq<char>, j: int)
    requires
        0 <= j,
    ensures
        status_field_from(p + t, key, p.len() + j) == status_field_from(t, key, j),
    decreases t.len() - j,
{
    let s = p + t;
    let o = p.len() as int;
    if j < t.len() {
        lemma_shift_line_end(p, t, j);
        lemma_line_end_bounds(t, j);
        let e = line_end(t, j);
        let ce = content_end(t, j, e);
        if e < t.len() && e > j {
            assert(s[o + e - 1] == t[e - 1]);
        }
        assert(content_end(s, o + j, o + e) == o + ce);
        assert(j <= ce <= e);
        if key.len() <= ce - j {
            assert(s.subrange(o + j, o + j + key.len()) =~= t.subrange(j, j + key.len()));
        }
        assert(starts_with_at(s, o + j, o + ce, key) == starts_with_at(t, j, ce, key));
        if starts_with_at(t, j, ce, key) {
            lemma_shift_second_word(p, t, j, ce);
            match second_word(t, j, ce) {
                Some((x, y)) => {
                    lemma_second_word_bounds(t, j, ce);
                    lemma_shift_parse_usize(p, t, x, y);
                },
                None => {},
            }
        } else if e < t.len() {
            lemma_shift_status_field_from(p, t, key, e + 1);
        }
    }
}

proof fn lemma_second_word_bounds(s: Seq<char>, a: int, b: int)
    requires
        a <= b,
    ensures
        second_word(s, a, b) matches Some((x, y)) ==> a <= x <= y <= b,
{
    lemma_skip_space_bounds(s, a, b);
    let t1 = skip_space(s, a, b);
    if t1 < b {
        lemma_skip_word_bounds(s, t1, b);
        let w = skip_word(s, t1, b);
        lemma_skip_space_bounds(s, w, b);
        let t2 = skip_space(s, w, b);
        if t2 < b {
            lemma_skip_word_bounds(s, t2, b);
        }
    }
}

/// A field does not depend on where its line lies: putting in front of a
/// status text a line that does not start with the key leaves the value of
/// the field unchanged.
pub proof fn lemma_status_field_skips_other_lines(line: Seq<char>, text: Seq<char>, key: Seq<char>)
    requires
        forall|k: int| 0 <= k < line.len() ==> line[k] != '\n',
        !(key.len() <= line.len() && line.subrange(0, key.len() as int) == key),
    ensures
        status_field(line.push('\n') + text, key) == status_field(text, key),
{
    let p = line.push('\n');
    let s = p + text;
    let n = line.len() as int;
    assert forall|k: int| 0 <= k < n implies s[k] != '\n' by {
        assert(s[k] == line[k]);
    }
    assert(s[n] == '\n');
    lemma_line_end_upto(s, 0, n);
    let ce = content_end(s, 0, n);
    assert(ce <= n);
    if key.len() <= ce {
        assert(s.subrange(0, key.len() as int) =~= line.subrange(0, key.len() as int));
    }
    assert(!starts_with_at(s, 0, ce, key));
    lemma_shift_status_field_from(p, text, key, 0);
    assert(p.len() == n + 1);
}

proof fn lemma_line_end_upto(s: Seq<char>, i: int, n: int)
    requires
        0 <= i <= n < s.len(),
        s[n] == '\n',
        forall|k: int| i <= k < n ==> s[k] != '\n',
    ensures
        line_end(s, i) == n,
    decreases n - i,
{
    if i < n {
        lemma_line_end_upto(s, i + 1, n);
    }
}

/// The number that a string of ASCII digits writes in decimal.
pub open spec fn digits_value(d: Seq<char>) -> nat
    decreases d.len(),
{
    if d.len() == 0 {
        0
    } else {
        digits_value(d.drop_last()) * 10 + ((d.last() as u32) - 48) as nat
    }
}

proof fn lemma_skip_word_run(s: Seq<char>, j: int, m: int, b: int)
    requires
        0 <= j <= m < b <= s.len(),
        forall|k: int| j <= k < m ==> !is_whitespace(#[trigger] s[k]),
        is_whitespace(s[m]),
    ensures
        skip_word(s, j, b) == m,
    decreases m - j,
{
    if j < m {
        lemma_skip_word_run(s, j + 1, m, b);
    }
}

proof fn lemma_skip_word_to_end(s: Seq<char>, j: int, b: int)
    requires
        0 <= j <= b <= s.len(),
        forall|k: int| j <= k < b ==> !is_whitespace(#[trigger] s[k]),
    ensures
        skip_word(s, j, b) == b,
    decreases b - j,
{
    if j < b {
        lemma_skip_word_to_end(s, j + 1, b);
    }
}

proof fn lemma_decimal_digits(t: Seq<char>, d: Seq<char>)
    requires
        d.len() <= t.len(),
        t.subrange(0, d.len() as int) == d,
        forall|k: int| 0 <= k < d.len() ==> '0' <= #[trigger] d[k] && d[k] <= '9',
    ensures
        decimal(t, 0, d.len() as int) == digits_value(d),
    decreases d.len(),
{
    if d.len() > 0 {
        let n = d.len() as int;
        assert(t[n - 1] == d[n - 1]);
        assert(t.subrange(0, n - 1) =~= d.drop_last());
        lemma_decimal_digits(t, d.drop_last());
        assert('0' <= d.last() && d.last() <= '9');
    }
}

/// A field's line `key N` gives the number `N`: for a key without
/// whitespace and a line made of the key, one space and the decimal digits
/// of a number that fits a `usize`, the field is that number, whatever
/// follows the line.
pub proof fn lemma_status_field_reads_the_number(key: Seq<char>, digits: Seq<char>, text: Seq<char>)
    requires
        key.len() > 0,
        forall|k: int| 0 <= k < key.len() ==> !is_whitespace(#[trigger] key[k]),
        digits.len() > 0,
        forall|k: int| 0 <= k < digits.len() ==> '0' <= #[trigger] digits[k] && digits[k] <= '9',
        digits_value(digits) <= usize::MAX,
    ensures
        status_field(key + seq![' '] + digits + seq!['\n'] + text, key) == Some(digits_value(digits) as usize),
{
    let head = key + seq![' '];
    let rest = digits + seq!['\n'] + text;
    let s = key + seq![' '] + digits + seq!['\n'] + text;
    assert(s =~= head + rest);
    let kl = key.len() as int;
    let dl = digits.len() as int;
    let e = kl + 1 + dl;
    assert forall|k: int| 0 <= k < kl implies s[k] == key[k] by {}
    assert(s[kl] == ' ');
    assert forall|k: int| kl + 1 <= k < e implies s[k] == digits[k - kl - 1] by {}
    assert(s[e] == '\n');
    assert forall|k: int| 0 <= k < e implies s[k] != '\n' by {
        if k < kl {
            assert(!is_whitespace(key[k]));
        } else if k > kl {
            assert('0' <= digits[k - kl - 1]);
        }
    }
    lemma_line_end_upto(s, 0, e);
    assert(s[e - 1] == digits[dl - 1]);
    assert(content_end(s, 0, e) == e);
    assert(s.subrange(0, kl) =~= key);
    assert(starts_with_at(s, 0, e, key));
    // The first word is the key, the second the digits.
    assert(!is_whitespace(s[0]));
    assert(skip_space(s, 0, e) == 0);
    assert forall|k: int| 0 <= k < kl implies !is_whitespace(#[trigger] s[k]) by {
        assert(s[k] == key[k]);
    }
    lemma_skip_word_run(s, 0, kl, e);
    assert(!is_whitespace(s[kl + 1]));
    assert(skip_space(s, kl + 1, e) == kl + 1);
    assert(skip_space(s, kl, e) == kl + 1);
    assert forall|k: int| kl + 1 <= k < e implies !is_whitespace(#[trigger] s[k]) by {
        assert(s[k] == digits[k - kl - 1]);
        assert('0' <= digits[k - kl - 1] && digits[k - kl - 1] <= '9');
    }
    lemma_skip_word_to_end(s, kl + 1, e);
    assert(second_word(s, 0, e) == Some((kl + 1, e)));
    // The digits read as their number.
    assert(s[kl + 1] != '+');
    assert forall|k: int| kl + 1 <= k < e implies '0' <= #[trigger] s[k] && s[k] <= '9' by {
        assert(s[k] == digits[k - kl - 1]);
    }
    assert(rest.subrange(0, dl) =~= digits);
    lemma_decimal_digits(rest, digits);
    lemma_shift_decimal(head, rest, 0, dl);
    assert(head.len() == kl + 1);
}

} // verus!
