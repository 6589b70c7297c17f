//! The XYZ record grammar: an atom-count header line, a title line, and
//! exactly that many atom lines.  The grammar is stated as total spec
//! functions over the characters of the input; the executable parser is
//! proved to return exactly what they say, for every input.

use vstd::prelude::*;
use vstd::string::StrSliceExecFns;

use crate::diag::ErrorKind;
use crate::diag::ParseChemfileError;
use crate::lex::chars_of;
use crate::lex::dec_val;
use crate::lex::is_digit_char;
use crate::lex::line_end_at;
use crate::lex::loose_end_at;
use crate::lex::match_float;
use crate::lex::match_line_end;
use crate::lex::scan;
use crate::lex::skip_alnum;
use crate::lex::skip_digits;
use crate::lex::skip_spaces;
use crate::lex::skip_title;
use crate::lex::float_end;
use crate::lex::ScanKind;

verus! {

/// Outcome of one grammar rule: the parsed value with the position just past
/// what was consumed, or a failure kind with the position it is reported at.
pub enum SpecStep<T> {
    Done(T, int),
    Fail(ErrorKind, int),
}

/// One atom line, as parsed: its symbol and the verbatim text of its three
/// coordinate literals.
#[verifier::ext_equal]
pub struct SpecAtom {
    pub symbol: Seq<char>,
    pub x: Seq<char>,
    pub y: Seq<char>,
    pub z: Seq<char>,
}

/// One XYZ record, as parsed: its title and its atom lines in input order.
#[verifier::ext_equal]
pub struct SpecRecord {
    pub title: Seq<char>,
    pub atoms: Seq<SpecAtom>,
}

// ---------------------------------------------------------------------------
// The grammar, as spec functions
// ---------------------------------------------------------------------------

/// Header rule: one or more digits whose value fits a `usize`, then a loose
/// line ending.  Missing digits or an overflowing count fail at the first
/// byte where a digit was expected; a missing terminator fails where the
/// terminator was expected.
pub open spec fn header_result(s: Seq<char>, i: int) -> SpecStep<int> {
    let k = skip_digits(s, i);
    if k == i {
        SpecStep::Fail(ErrorKind::HeaderError, i)
    } else if dec_val(s.subrange(i, k)) > usize::MAX as int {
        SpecStep::Fail(ErrorKind::HeaderError, i)
    } else {
        match loose_end_at(s, k) {
            Some(m) => SpecStep::Done(dec_val(s.subrange(i, k)), m),
            None => SpecStep::Fail(ErrorKind::HeaderError, skip_spaces(s, k)),
        }
    }
}

/// One coordinate: one or more spaces, then a float literal; the value is
/// the verbatim text of the literal.
pub open spec fn coord_after(s: Seq<char>, j: int) -> SpecStep<Seq<char>> {
    let k = skip_spaces(s, j);
    if k == j {
        SpecStep::Fail(ErrorKind::AtomFormatError, j)
    } else {
        match float_end(s, k) {
            Some(m) => SpecStep::Done(s.subrange(k, m), m),
            None => SpecStep::Fail(ErrorKind::AtomFormatError, k),
        }
    }
}

/// Atom rule: a one-or-more-character alphanumeric symbol, then three
/// space-separated coordinates.  Any deviation from that shape fails at the
/// first deviating character.
pub open spec fn atom_result(s: Seq<char>, i: int) -> SpecStep<SpecAtom> {
    let j = skip_alnum(s, i);
    if j == i {
        SpecStep::Fail(ErrorKind::AtomFormatError, i)
    } else {
        match coord_after(s, j) {
            SpecStep::Fail(k, a) => SpecStep::Fail(k, a),
            SpecStep::Done(x, jx) => match coord_after(s, jx) {
                SpecStep::Fail(k, a) => SpecStep::Fail(k, a),
                SpecStep::Done(y, jy) => match coord_after(s, jy) {
                    SpecStep::Fail(k, a) => SpecStep::Fail(k, a),
                    SpecStep::Done(z, jz) => SpecStep::Done(
                        SpecAtom { symbol: s.subrange(i, j), x, y, z },
                        jz,
                    ),
                },
            },
        }
    }
}

/// Atom-list rule: exactly `m` atoms starting at `i`, a loose line ending
/// before every atom but the first (the caller consumed that one with the
/// title).  When the input is exhausted before the next atom, the failure
/// stands at `last_end`, the position right after the last parsed atom.
pub open spec fn atoms_result(s: Seq<char>, i: int, m: int, last_end: int) -> SpecStep<
    Seq<SpecAtom>,
>
    decreases m,
{
    if m <= 0 {
        SpecStep::Done(Seq::empty(), i)
    } else if i >= s.len() {
        SpecStep::Fail(ErrorKind::AtomListTruncated, last_end)
    } else {
        match atom_result(s, i) {
            SpecStep::Fail(k, a) => SpecStep::Fail(k, a),
            SpecStep::Done(a, q) => {
                if m == 1 {
                    SpecStep::Done(seq![a], q)
                } else {
                    match loose_end_at(s, q) {
                        None => SpecStep::Fail(ErrorKind::AtomListTruncated, skip_spaces(s, q)),
                        Some(p) => match atoms_result(s, p, m - 1, q) {
                            SpecStep::Done(rest, e) => SpecStep::Done(seq![a] + rest, e),
                            SpecStep::Fail(k, at) => SpecStep::Fail(k, at),
                        },
                    }
                }
            },
        }
    }
}

/// Record rule: header, title (anything up to its line terminator, which it
/// consumes), the declared number of atoms, then any trailing horizontal
/// whitespace — but never the following line terminator, so a further
/// record can be read from the same buffer.
pub open spec fn record_result(s: Seq<char>, i: int) -> SpecStep<SpecRecord> {
    match header_result(s, i) {
        SpecStep::Fail(k, a) => SpecStep::Fail(k, a),
        SpecStep::Done(n, h) => {
            let j = skip_title(s, h);
            match line_end_at(s, j) {
                None => SpecStep::Fail(ErrorKind::TitleUnterminated, j),
                Some(p0) => match atoms_result(s, p0, n, p0) {
                    SpecStep::Fail(k, a) => SpecStep::Fail(k, a),
                    SpecStep::Done(atoms, q) => SpecStep::Done(
                        SpecRecord { title: s.subrange(h, j), atoms },
                        skip_spaces(s, q),
                    ),
                },
            }
        },
    }
}

/// Strict rule: one record that consumes the whole input; anything left
/// over, even a blank line, is trailing content.
pub open spec fn full_result(s: Seq<char>) -> SpecStep<SpecRecord> {
    match record_result(s, 0) {
        SpecStep::Fail(k, a) => SpecStep::Fail(k, a),
        SpecStep::Done(r, e) => if e == s.len() {
            SpecStep::Done(r, e)
        } else {
            SpecStep::Fail(ErrorKind::TrailingContentError, e)
        },
    }
}

// ---------------------------------------------------------------------------
// Parsed values
// ---------------------------------------------------------------------------

/// One atom line: the element symbol and the three coordinate literals,
/// verbatim as they stood in the input.
#[derive(Debug)]
pub struct XyzAtom {
    pub symbol: String,
    pub x: String,
    pub y: String,
    pub z: String,
}

impl View for XyzAtom {
    type V = SpecAtom;

    open spec fn view(&self) -> SpecAtom {
        SpecAtom { symbol: self.symbol@, x: self.x@, y: self.y@, z: self.z@ }
    }
}

impl DeepView for XyzAtom {
    type V = SpecAtom;

    open spec fn deep_view(&self) -> SpecAtom {
        self.view()
    }
}

/// One XYZ record: the title line and the atom lines, in input order.
#[derive(Debug)]
pub struct Xyz {
    pub title: String,
    pub atoms: Vec<XyzAtom>,
}

impl View for Xyz {
    type V = SpecRecord;

    open spec fn view(&self) -> SpecRecord {
        SpecRecord { title: self.title@, atoms: self.atoms.deep_view() }
    }
}

// ---------------------------------------------------------------------------
// The executable parser
// ---------------------------------------------------------------------------

/// Parse the header at `i`: the declared atom count and the position after
/// its line ending, or the failure position.
fn parse_count(cv: &Vec<char>, i: usize) -> (r: Result<(usize, usize), usize>)
    requires
        i <= cv@.len(),
    ensures
        match r {
            Ok(v) => header_result(cv@, i as int) == SpecStep::Done(v.0 as int, v.1 as int) && i
                < v.1 <= cv@.len(),
            Err(at) => header_result(cv@, i as int) == SpecStep::<int>::Fail(
                ErrorKind::HeaderError,
                at as int,
            ) && at <= cv@.len(),
        },
{
    let ghost s = cv@;
    let k = scan(cv, i, ScanKind::Digits);
    if k == i {
        return Err(i);
    }
    let mut acc: usize = 0;
    let mut j: usize = i;
    while j < k
        invariant
            i <= j <= k <= s.len(),
            i < k,
            k as int == skip_digits(s, i as int),
            s == cv@,
            forall|q: int| i <= q < k ==> is_digit_char(s[q]),
            acc as int == dec_val(s.subrange(i as int, j as int)),
        decreases k - j,
    {
        let d = (cv[j] as u32 - 48) as usize;
        let next = match acc.checked_mul(10) {
            Some(t) => t.checked_add(d),
            None => None,
        };
        proof {
            assert(s.subrange(i as int, j + 1).drop_last() =~= s.subrange(i as int, j as int));
            assert(s.subrange(i as int, j + 1).last() == s[j as int]);
        }
        match next {
            Some(v) => {
                acc = v;
            },
            None => {
                proof {
                    assert(is_digit_char(s[j as int]));
                    assert(dec_val(s.subrange(i as int, j + 1)) == acc as int * 10 + d as int);
                    assert(acc as int * 10 + d as int > usize::MAX as int);
                    let full = s.subrange(i as int, k as int);
                    assert(full.take(j + 1 - i) =~= s.subrange(i as int, j + 1));
                    assert(forall|q: int| 0 <= q < full.len() ==> is_digit_char(full[q]));
                    crate::lex::lemma_dec_val_prefix(full, j + 1 - i);
                    assert(dec_val(full) > usize::MAX as int);
                }
                return Err(i);
            },
        }
        j = j + 1;
    }
    let m0 = scan(cv, k, ScanKind::Spaces);
    match match_line_end(cv, m0) {
        Some(m) => Ok((acc, m)),
        None => Err(m0),
    }
}

/// Parse one coordinate after position `j`: its literal text and the
/// position just past it, or the failure position.
fn parse_coord(src: &str, cv: &Vec<char>, j: usize) -> (r: Result<(String, usize), usize>)
    requires
        cv@ == src@,
        j <= cv@.len(),
    ensures
        match r {
            Ok(v) => coord_after(cv@, j as int) == SpecStep::Done(v.0@, v.1 as int) && j < v.1
                <= cv@.len(),
            Err(at) => coord_after(cv@, j as int) == SpecStep::<Seq<char>>::Fail(
                ErrorKind::AtomFormatError,
                at as int,
            ) && at <= cv@.len(),
        },
{
    let k = scan(cv, j, ScanKind::Spaces);
    if k == j {
        return Err(j);
    }
    match match_float(cv, k) {
        Some(m) => Ok((src.substring_char(k, m).to_owned(), m)),
        None => Err(k),
    }
}

/// Parse one atom line at `i`.
fn parse_atom_at(src: &str, cv: &Vec<char>, i: usize) -> (r: Result<(XyzAtom, usize), usize>)
    requires
        cv@ == src@,
        i <= cv@.len(),
    ensures
        match r {
            Ok(v) => atom_result(cv@, i as int) == SpecStep::Done(v.0@, v.1 as int) && i < v.1
                <= cv@.len(),
            Err(at) => atom_result(cv@, i as int) == SpecStep::<SpecAtom>::Fail(
                ErrorKind::AtomFormatError,
                at as int,
            ) && at <= cv@.len(),
        },
{
    let j = scan(cv, i, ScanKind::Alnum);
    if j == i {
        return Err(i);
    }
    let (x, jx) = match parse_coord(src, cv, j) {
        Ok(v) => v,
        Err(at) => {
            return Err(at);
        },
    };
    let (y, jy) = match parse_coord(src, cv, jx) {
        Ok(v) => v,
        Err(at) => {
            return Err(at);
        },
    };
    let (z, jz) = match parse_coord(src, cv, jy) {
        Ok(v) => v,
        Err(at) => {
            return Err(at);
        },
    };
    let symbol = src.substring_char(i, j).to_owned();
    Ok((XyzAtom { symbol, x, y, z }, jz))
}

/// `step` with `pre` prepended to its atoms on success.
pub open spec fn with_prefix(pre: Seq<SpecAtom>, step: SpecStep<Seq<SpecAtom>>) -> SpecStep<
    Seq<SpecAtom>,
> {
    match step {
        SpecStep::Done(rest, e) => SpecStep::Done(pre + rest, e),
        SpecStep::Fail(k, a) => SpecStep::Fail(k, a),
    }
}

/// Parse exactly `n` atoms starting at `p0`.
fn parse_atoms_at(src: &str, cv: &Vec<char>, p0: usize, n: usize) -> (r: Result<
    (Vec<XyzAtom>, usize),
    (ErrorKind, usize),
>)
    requires
        cv@ == src@,
        p0 <= cv@.len(),
    ensures
        match r {
            Ok(v) => atoms_result(cv@, p0 as int, n as int, p0 as int) == SpecStep::Done(
                v.0.deep_view(),
                v.1 as int,
            ) && p0 <= v.1 <= cv@.len(),
            Err(f) => atoms_result(cv@, p0 as int, n as int, p0 as int) == SpecStep::<
                Seq<SpecAtom>,
            >::Fail(f.0, f.1 as int) && f.1 <= cv@.len(),
        },
{
    let ghost s = cv@;
    let ghost orig = atoms_result(s, p0 as int, n as int, p0 as int);
    let mut atoms: Vec<XyzAtom> = Vec::new();
    let mut pos: usize = p0;
    let mut last: usize = p0;
    let mut k: usize = 0;
    proof {
        assert(atoms.deep_view() =~= Seq::<SpecAtom>::empty());
        assert(Seq::<SpecAtom>::empty() + Seq::<SpecAtom>::empty() =~= Seq::<
            SpecAtom,
        >::empty());
        assert(orig == with_prefix(atoms.deep_view(), atoms_result(s, pos as int, n as int, last as int)))
            by {
            match atoms_result(s, pos as int, n as int, last as int) {
                SpecStep::Done(rest, e) => {
                    assert(Seq::<SpecAtom>::empty() + rest =~= rest);
                },
                SpecStep::Fail(_, _) => {},
            }
        }
    }
    while k < n
        invariant
            s == cv@,
            cv@ == src@,
            k <= n,
            p0 <= pos <= s.len(),
            last <= s.len(),
            orig == atoms_result(s, p0 as int, n as int, p0 as int),
            orig == with_prefix(
                atoms.deep_view(),
                atoms_result(s, pos as int, (n - k) as int, last as int),
            ),
        decreases n - k,
    {
        let ghost pre = atoms.deep_view();
        let ghost m = (n - k) as int;
        if pos >= cv.len() {
            proof {
                assert(atoms_result(s, pos as int, m, last as int) == SpecStep::<
                    Seq<SpecAtom>,
                >::Fail(ErrorKind::AtomListTruncated, last as int));
            }
            return Err((ErrorKind::AtomListTruncated, last));
        }
        let (a, q) = match parse_atom_at(src, cv, pos) {
            Ok(v) => v,
            Err(at) => {
                return Err((ErrorKind::AtomFormatError, at));
            },
        };
        atoms.push(a);
        proof {
            assert(atoms.deep_view() =~= pre.push(a@));
        }
        if k == n - 1 {
            proof {
                assert(atoms_result(s, pos as int, m, last as int) == SpecStep::<
                    Seq<SpecAtom>,
                >::Done(seq![a@], q as int));
                assert(pre + seq![a@] =~= pre.push(a@));
                assert(atoms_result(s, q as int, 0, q as int) == SpecStep::<Seq<SpecAtom>>::Done(
                    Seq::empty(),
                    q as int,
                ));
                assert(pre.push(a@) + Seq::<SpecAtom>::empty() =~= pre.push(a@));
            }
            pos = q;
            last = q;
            k = k + 1;
        } else {
            let m0 = scan(cv, q, ScanKind::Spaces);
            match match_line_end(cv, m0) {
                Some(p) => {
                    proof {
                        assert(loose_end_at(s, q as int) == Some(p as int));
                        match atoms_result(s, p as int, m - 1, q as int) {
                            SpecStep::Done(rest, e) => {
                                assert(pre + (seq![a@] + rest) =~= pre.push(a@) + rest);
                            },
                            SpecStep::Fail(_, _) => {},
                        }
                    }
                    pos = p;
                    last = q;
                    k = k + 1;
                },
                None => {
                    proof {
                        assert(loose_end_at(s, q as int) is None);
                    }
                    return Err((ErrorKind::AtomListTruncated, m0));
                },
            }
        }
    }
    proof {
        assert(atoms_result(s, pos as int, 0, last as int) == SpecStep::<Seq<SpecAtom>>::Done(
            Seq::empty(),
            pos as int,
        ));
        assert(atoms.deep_view() + Seq::<SpecAtom>::empty() =~= atoms.deep_view());
        assert(orig == SpecStep::<Seq<SpecAtom>>::Done(atoms.deep_view(), pos as int));
    }
    Ok((atoms, pos))
}

/// Parse one record at `i`.
fn parse_record_at(src: &str, cv: &Vec<char>, i: usize) -> (r: Result<
    (Xyz, usize),
    (ErrorKind, usize),
>)
    requires
        cv@ == src@,
        i <= cv@.len(),
    ensures
        match r {
            Ok(v) => record_result(cv@, i as int) == SpecStep::Done(v.0@, v.1 as int) && i <= v.1
                <= cv@.len(),
            Err(f) => record_result(cv@, i as int) == SpecStep::<SpecRecord>::Fail(
                f.0,
                f.1 as int,
            ) && f.1 <= cv@.len(),
        },
{
    let (n, h) = match parse_count(cv, i) {
        Ok(v) => v,
        Err(at) => {
            return Err((ErrorKind::HeaderError, at));
        },
    };
    let j = scan(cv, h, ScanKind::Title);
    let p0 = match match_line_end(cv, j) {
        Some(p) => p,
        None => {
            return Err((ErrorKind::TitleUnterminated, j));
        },
    };
    let (atoms, q) = match parse_atoms_at(src, cv, p0, n) {
        Ok(v) => v,
        Err(f) => {
            return Err(f);
        },
    };
    let end = scan(cv, q, ScanKind::Spaces);
    let title = src.substring_char(h, j).to_owned();
    Ok((Xyz { title, atoms }, end))
}

// ---------------------------------------------------------------------------
// Entry points
// ---------------------------------------------------------------------------

impl Xyz {
    /// A record with the given title and no atoms yet.
    pub fn new(title: &str) -> (r: Xyz)
        ensures
            r@.title == title@,
            r@.atoms == Seq::<SpecAtom>::empty(),
    {
        let atoms: Vec<XyzAtom> = Vec::new();
        proof {
            assert(atoms.deep_view() =~= Seq::<SpecAtom>::empty());
        }
        Xyz { title: title.to_owned(), atoms }
    }

    /// Parse one record of `input` starting at character `from`, and say how
    /// far it reached: trailing spaces of the last atom line are consumed,
    /// the line terminator after them is not, so the caller can go on to a
    /// further record in the same buffer.
    pub fn parser(input: &str, from: usize) -> (r: Result<(Xyz, usize), ParseChemfileError>)
        requires
            from <= input@.len(),
        ensures
            match r {
                Ok(v) => record_result(input@, from as int) == SpecStep::Done(v.0@, v.1 as int)
                    && from <= v.1 <= input@.len(),
                Err(e) => record_result(input@, from as int) == SpecStep::<SpecRecord>::Fail(
                    e@.kind,
                    e@.offset,
                ) && e@.input == input@,
            },
    {
        let cv = chars_of(input);
        match parse_record_at(input, &cv, from) {
            Ok(v) => Ok(v),
            Err((k, at)) => Err(ParseChemfileError::new(k, at, input)),
        }
    }

    /// Parse `input` as exactly one record reaching the exact end of the
    /// input; any leftover content is a trailing-content failure.
    pub fn parse(input: &str) -> (r: Result<Xyz, ParseChemfileError>)
        ensures
            match r {
                Ok(rec) => full_result(input@) == SpecStep::Done(rec@, input@.len() as int),
                Err(e) => full_result(input@) == SpecStep::<SpecRecord>::Fail(e@.kind, e@.offset)
                    && e@.input == input@,
            },
    {
        let cv = chars_of(input);
        match parse_record_at(input, &cv, 0) {
            Ok((rec, end)) => {
                if end == cv.len() {
                    Ok(rec)
                } else {
                    Err(ParseChemfileError::new(ErrorKind::TrailingContentError, end, input))
                }
            },
            Err((k, at)) => Err(ParseChemfileError::new(k, at, input)),
        }
    }
}

impl XyzAtom {
    /// An atom from its symbol and the literal texts of its coordinates.
    pub fn new(symbol: &str, x: &str, y: &str, z: &str) -> (r: XyzAtom)
        ensures
            r@.symbol == symbol@,
            r@.x == x@,
            r@.y == y@,
            r@.z == z@,
    {
        XyzAtom {
            symbol: symbol.to_owned(),
            x: x.to_owned(),
            y: y.to_owned(),
            z: z.to_owned(),
        }
    }

    /// Parse a whole line of text as one atom: symbol, then three
    /// space-separated coordinates, with nothing left over.
    pub fn parser(input: &str) -> (r: Result<XyzAtom, ParseChemfileError>)
        ensures
            match r {
                Ok(a) => atom_result(input@, 0) == SpecStep::Done(a@, input@.len() as int),
                Err(e) => e@.input == input@ && match atom_result(input@, 0) {
                    SpecStep::Done(_, e2) => e2 != input@.len() && e@.kind
                        == ErrorKind::TrailingContentError && e@.offset == e2,
                    SpecStep::Fail(k, at) => e@.kind == k && e@.offset == at,
                },
            },
    {
        let cv = chars_of(input);
        match parse_atom_at(input, &cv, 0) {
            Ok((a, end)) => {
                if end == cv.len() {
                    Ok(a)
                } else {
                    Err(ParseChemfileError::new(ErrorKind::TrailingContentError, end, input))
                }
            },
            Err(at) => Err(ParseChemfileError::new(ErrorKind::AtomFormatError, at, input)),
        }
    }
}

impl core::str::FromStr for Xyz {
    type Err = ParseChemfileError;

    /// The strict parse, as `str::parse`.
    fn from_str(s: &str) -> Result<Xyz, ParseChemfileError> {
        Xyz::parse(s)
    }
}

} // verus!
