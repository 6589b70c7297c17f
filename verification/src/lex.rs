//! Lexical rules of the XYZ format: character classes, greedy scans, line
//! endings, decimal values and float literals, all stated over `Seq<char>`
//! and executed over a `Vec<char>` of the input.

use vstd::prelude::*;

verus! {

// ---------------------------------------------------------------------------
// Character classes
// ---------------------------------------------------------------------------

/// Horizontal whitespace: space or tab.
pub open spec fn is_space_char(c: char) -> bool {
    c == ' ' || c == '\t'
}

/// ASCII decimal digit.
pub open spec fn is_digit_char(c: char) -> bool {
    48 <= c as u32 && c as u32 <= 57
}

/// ASCII alphanumeric: the characters an atom symbol is made of.
pub open spec fn is_alnum_char(c: char) -> bool {
    (48 <= c as u32 && c as u32 <= 57) || (65 <= c as u32 && c as u32 <= 90) || (97 <= c as u32
        && c as u32 <= 122)
}

/// A character that starts a line terminator.
pub open spec fn is_break_char(c: char) -> bool {
    c == '\n' || c == '\r'
}

/// Sign of a float literal or of its exponent.
pub open spec fn is_sign_char(c: char) -> bool {
    c == '+' || c == '-'
}

/// Exponent marker of a float literal.
pub open spec fn is_exp_char(c: char) -> bool {
    c == 'e' || c == 'E'
}

/// The scans the grammar needs, each a greedy run of one character class
/// (for the title: of everything but a line terminator).
#[derive(Clone, Copy)]
pub enum ScanKind {
    Spaces,
    Digits,
    Alnum,
    Title,
}

/// The character class a scan runs over.
pub open spec fn scan_pred(k: ScanKind) -> spec_fn(char) -> bool {
    match k {
        ScanKind::Spaces => |c: char| is_space_char(c),
        ScanKind::Digits => |c: char| is_digit_char(c),
        ScanKind::Alnum => |c: char| is_alnum_char(c),
        ScanKind::Title => |c: char| !is_break_char(c),
    }
}

// ---------------------------------------------------------------------------
// Greedy scanning
// ---------------------------------------------------------------------------

/// First position at or after `i` whose character fails `p` (or the end).
pub open spec fn skip_while(s: Seq<char>, i: int, p: spec_fn(char) -> bool) -> int
    decreases s.len() - i
        when 0 <= i <= s.len()
{
    if i < s.len() && p(s[i]) {
        skip_while(s, i + 1, p)
    } else {
        i
    }
}

pub proof fn lemma_skip_while_bounds(s: Seq<char>, i: int, p: spec_fn(char) -> bool)
    requires
        0 <= i <= s.len(),
    ensures
        i <= skip_while(s, i, p) <= s.len(),
        forall|k: int| i <= k < skip_while(s, i, p) ==> p(s[k]),
        skip_while(s, i, p) < s.len() ==> !p(s[skip_while(s, i, p)]),
    decreases s.len() - i,
{
    if i < s.len() && p(s[i]) {
        lemma_skip_while_bounds(s, i + 1, p);
    }
}

/// A scan stops exactly where the run of matching characters stops.
pub proof fn lemma_skip_while_exact(s: Seq<char>, i: int, j: int, p: spec_fn(char) -> bool)
    requires
        0 <= i <= j <= s.len(),
        forall|k: int| i <= k < j ==> p(s[k]),
        j < s.len() ==> !p(s[j]),
    ensures
        skip_while(s, i, p) == j,
    decreases j - i,
{
    if i < j {
        lemma_skip_while_exact(s, i + 1, j, p);
    }
}

pub open spec fn skip_spaces(s: Seq<char>, i: int) -> int {
    skip_while(s, i, scan_pred(ScanKind::Spaces))
}

pub open spec fn skip_digits(s: Seq<char>, i: int) -> int {
    skip_while(s, i, scan_pred(ScanKind::Digits))
}

pub open spec fn skip_alnum(s: Seq<char>, i: int) -> int {
    skip_while(s, i, scan_pred(ScanKind::Alnum))
}

pub open spec fn skip_title(s: Seq<char>, i: int) -> int {
    skip_while(s, i, scan_pred(ScanKind::Title))
}

/// Does `c` belong to the class scanned by `k`?
pub fn char_in_class(k: ScanKind, c: char) -> (r: bool)
    ensures
        r == scan_pred(k)(c),
{
    let u = c as u32;
    match k {
        ScanKind::Spaces => c == ' ' || c == '\t',
        ScanKind::Digits => 48 <= u && u <= 57,
        ScanKind::Alnum => (48 <= u && u <= 57) || (65 <= u && u <= 90) || (97 <= u && u <= 122),
        ScanKind::Title => !(c == '\n' || c == '\r'),
    }
}

/// Greedy scan over one character class, starting at `i`.
pub fn scan(cv: &Vec<char>, i: usize, k: ScanKind) -> (r: usize)
    requires
        i <= cv@.len(),
    ensures
        r == skip_while(cv@, i as int, scan_pred(k)),
        i <= r <= cv@.len(),
        forall|q: int| i <= q < r ==> scan_pred(k)(cv@[q]),
        r < cv@.len() ==> !scan_pred(k)(cv@[r as int]),
{
    let mut j: usize = i;
    while j < cv.len() && char_in_class(k, cv[j])
        invariant
            i <= j <= cv@.len(),
            forall|q: int| i <= q < j ==> scan_pred(k)(cv@[q]),
        decreases cv@.len() - j,
    {
        j = j + 1;
    }
    proof {
        lemma_skip_while_exact(cv@, i as int, j as int, scan_pred(k));
    }
    j
}

// ---------------------------------------------------------------------------
// Line endings
// ---------------------------------------------------------------------------

/// Position just past a line terminator at `i`: a bare newline or a
/// carriage-return+newline pair; `None` if no terminator stands at `i`.
pub open spec fn line_end_at(s: Seq<char>, i: int) -> Option<int> {
    if 0 <= i < s.len() && s[i] == '\n' {
        Some(i + 1)
    } else if 0 <= i && i + 1 < s.len() && s[i] == '\r' && s[i + 1] == '\n' {
        Some(i + 2)
    } else {
        None
    }
}

/// A loose line ending: optional horizontal whitespace, then a terminator.
pub open spec fn loose_end_at(s: Seq<char>, i: int) -> Option<int> {
    line_end_at(s, skip_spaces(s, i))
}

/// Match a line terminator at `i`.
pub fn match_line_end(cv: &Vec<char>, i: usize) -> (r: Option<usize>)
    requires
        i <= cv@.len(),
    ensures
        match r {
            Some(m) => line_end_at(cv@, i as int) == Some(m as int) && i < m <= cv@.len(),
            None => line_end_at(cv@, i as int) is None,
        },
{
    if i < cv.len() && cv[i] == '\n' {
        Some(i + 1)
    } else if i < cv.len() && i + 1 < cv.len() && cv[i] == '\r' && cv[i + 1] == '\n' {
        Some(i + 2)
    } else {
        None
    }
}

// ---------------------------------------------------------------------------
// Decimal values
// ---------------------------------------------------------------------------

/// Value of a sequence of decimal digits.
pub open spec fn dec_val(d: Seq<char>) -> int
    decreases d.len(),
{
    if d.len() == 0 {
        0
    } else {
        dec_val(d.drop_last()) * 10 + (d.last() as u32 - 48)
    }
}

pub proof fn lemma_dec_val_nonneg(d: Seq<char>)
    requires
        forall|k: int| 0 <= k < d.len() ==> is_digit_char(d[k]),
    ensures
        dec_val(d) >= 0,
    decreases d.len(),
{
    if d.len() > 0 {
        lemma_dec_val_nonneg(d.drop_last());
    }
}

/// Extending a digit string never shrinks its value.
pub proof fn lemma_dec_val_prefix(d: Seq<char>, n: int)
    requires
        0 <= n <= d.len(),
        forall|k: int| 0 <= k < d.len() ==> is_digit_char(d[k]),
    ensures
        dec_val(d) >= dec_val(d.take(n)),
    decreases d.len() - n,
{
    if n < d.len() {
        lemma_dec_val_prefix(d, n + 1);
        assert(d.take(n + 1).drop_last() =~= d.take(n));
        assert(d.take(n + 1).last() == d[n]);
        lemma_dec_val_nonneg(d.take(n));
    } else {
        assert(d.take(n) =~= d);
    }
}

// ---------------------------------------------------------------------------
// Float literals
// ---------------------------------------------------------------------------

/// End of the optional fractional part starting at `k`: a dot is consumed
/// only together with at least one digit after it.
pub open spec fn frac_end(s: Seq<char>, k: int) -> int {
    if 0 <= k < s.len() && s[k] == '.' {
        let q = skip_digits(s, k + 1);
        if q > k + 1 {
            q
        } else {
            k
        }
    } else {
        k
    }
}

/// End of the optional exponent part starting at `p`: the marker is consumed
/// only together with at least one digit after its optional sign.
pub open spec fn exp_end(s: Seq<char>, p: int) -> int {
    if 0 <= p < s.len() && is_exp_char(s[p]) {
        let q = if p + 1 < s.len() && is_sign_char(s[p + 1]) {
            p + 2
        } else {
            p + 1
        };
        let r = skip_digits(s, q);
        if r > q {
            r
        } else {
            p
        }
    } else {
        p
    }
}

/// Position just past a float literal starting at `i`: optional sign, one or
/// more digits, an optional fraction (a dot with at least one digit after
/// it), and an optional exponent (`e` or `E`, an optional sign, at least one
/// digit).  A dot or exponent marker whose digits are missing is left
/// unconsumed rather than failing the literal.  `None` if no literal starts
/// at `i`: word forms such as `nan` and `inf` are deliberately not accepted,
/// so every coordinate a record holds is a plain numeric literal.
pub open spec fn float_end(s: Seq<char>, i: int) -> Option<int> {
    let j = if 0 <= i < s.len() && is_sign_char(s[i]) {
        i + 1
    } else {
        i
    };
    let k = skip_digits(s, j);
    if k == j {
        None
    } else {
        Some(exp_end(s, frac_end(s, k)))
    }
}

/// Match a float literal at `i`.
pub fn match_float(cv: &Vec<char>, i: usize) -> (r: Option<usize>)
    requires
        i <= cv@.len(),
    ensures
        match r {
            Some(m) => float_end(cv@, i as int) == Some(m as int) && i < m <= cv@.len(),
            None => float_end(cv@, i as int) is None,
        },
{
    let j: usize = if i < cv.len() && (cv[i] == '+' || cv[i] == '-') {
        i + 1
    } else {
        i
    };
    let k = scan(cv, j, ScanKind::Digits);
    if k == j {
        return None;
    }
    let p: usize = if k < cv.len() && cv[k] == '.' {
        let q = scan(cv, k + 1, ScanKind::Digits);
        if q > k + 1 {
            q
        } else {
            k
        }
    } else {
        k
    };
    let m: usize = if p < cv.len() && (cv[p] == 'e' || cv[p] == 'E') {
        let q: usize = if p + 1 < cv.len() && (cv[p + 1] == '+' || cv[p + 1] == '-') {
            p + 2
        } else {
            p + 1
        };
        let r = scan(cv, q, ScanKind::Digits);
        if r > q {
            r
        } else {
            p
        }
    } else {
        p
    };
    Some(m)
}

// ---------------------------------------------------------------------------
// From text to its characters
// ---------------------------------------------------------------------------

/// The characters of a text, for position-indexed scanning.
pub fn chars_of(s: &str) -> (r: Vec<char>)
    ensures
        r@ == s@,
{
    let n = s.unicode_len();
    let mut v: Vec<char> = Vec::new();
    let mut i: usize = 0;
    while i < n
        invariant
            i <= n,
            n == s@.len(),
            v@ == s@.take(i as int),
        decreases n - i,
    {
        v.push(s.get_char(i));
        i = i + 1;
    }
    proof {
        assert(s@.take(n as int) =~= s@);
    }
    v
}

} // verus!
