//! The round-trip law: serializing any well-formed record to text and
//! parsing that text back yields the record unchanged, with the whole text
//! consumed.  The serializer here is a ghost one — writing records out is
//! not this library's job — but it fixes exactly what text a record stands
//! for: each coordinate is the verbatim literal the record holds, so the
//! fields compare equal as floating-point literals.

use vstd::prelude::*;

use crate::lex::dec_val;
use crate::lex::exp_end;
use crate::lex::float_end;
use crate::lex::frac_end;
use crate::lex::is_alnum_char;
use crate::lex::is_break_char;
use crate::lex::is_digit_char;
use crate::lex::is_exp_char;
use crate::lex::is_sign_char;
use crate::lex::is_space_char;
use crate::lex::lemma_skip_while_bounds;
use crate::lex::lemma_skip_while_exact;
use crate::lex::line_end_at;
use crate::lex::scan_pred;
use crate::lex::skip_alnum;
use crate::lex::skip_digits;
use crate::lex::skip_spaces;
use crate::lex::skip_title;
use crate::lex::ScanKind;
use crate::record::atom_result;
use crate::record::atoms_result;
use crate::record::coord_after;
use crate::record::full_result;
use crate::record::header_result;
use crate::record::record_result;
use crate::record::SpecAtom;
use crate::record::SpecRecord;
use crate::record::SpecStep;

verus! {

// ---------------------------------------------------------------------------
// Well-formed records: the values a record built by hand may hold
// ---------------------------------------------------------------------------

/// A title with no embedded line terminator.
pub open spec fn wf_title(t: Seq<char>) -> bool {
    forall|k: int| 0 <= k < t.len() ==> !is_break_char(#[trigger] t[k])
}

/// A non-empty alphanumeric symbol.
pub open spec fn wf_symbol(x: Seq<char>) -> bool {
    x.len() > 0 && forall|k: int| 0 <= k < x.len() ==> is_alnum_char(#[trigger] x[k])
}

/// A coordinate text that is exactly one float literal.
pub open spec fn wf_coord(x: Seq<char>) -> bool {
    float_end(x, 0) == Some(x.len() as int)
}

pub open spec fn wf_atom(a: SpecAtom) -> bool {
    wf_symbol(a.symbol) && wf_coord(a.x) && wf_coord(a.y) && wf_coord(a.z)
}

pub open spec fn wf_record(r: SpecRecord) -> bool {
    wf_title(r.title) && forall|k: int| 0 <= k < r.atoms.len() ==> wf_atom(#[trigger] r.atoms[k])
}

/// A header text for the count `n`: one or more digits reading `n`, a value
/// that fits a `usize`.
pub open spec fn wf_header(h: Seq<char>, n: int) -> bool {
    h.len() > 0 && (forall|k: int| 0 <= k < h.len() ==> is_digit_char(#[trigger] h[k]))
        && dec_val(h) == n && n <= usize::MAX as int
}

// ---------------------------------------------------------------------------
// The ghost serializer
// ---------------------------------------------------------------------------

/// One atom line: symbol and coordinates, single spaces between.
pub open spec fn atom_text(a: SpecAtom) -> Seq<char> {
    a.symbol + seq![' '] + a.x + seq![' '] + a.y + seq![' '] + a.z
}

/// The atom lines, one per line.
pub open spec fn atoms_text(atoms: Seq<SpecAtom>) -> Seq<char>
    decreases atoms.len(),
{
    if atoms.len() == 0 {
        Seq::empty()
    } else if atoms.len() == 1 {
        atom_text(atoms[0])
    } else {
        atom_text(atoms[0]) + seq!['\n'] + atoms_text(atoms.drop_first())
    }
}

/// A whole record: header line, title line, atom lines, no trailing
/// terminator after the last atom.
pub open spec fn record_text(h: Seq<char>, r: SpecRecord) -> Seq<char> {
    h + seq!['\n'] + r.title + seq!['\n'] + atoms_text(r.atoms)
}

// ---------------------------------------------------------------------------
// Shape of a serialized atom line
// ---------------------------------------------------------------------------

pub proof fn lemma_atom_text_chars(a: SpecAtom)
    ensures
        atom_text(a).len() == a.symbol.len() + 1 + a.x.len() + 1 + a.y.len() + 1 + a.z.len(),
        forall|k: int| 0 <= k < a.symbol.len() ==> #[trigger] atom_text(a)[k] == a.symbol[k],
        atom_text(a)[a.symbol.len() as int] == ' ',
        forall|k: int|
            0 <= k < a.x.len() ==> #[trigger] atom_text(a)[a.symbol.len() + 1 + k] == a.x[k],
        atom_text(a)[a.symbol.len() + 1 + a.x.len() as int] == ' ',
        forall|k: int|
            0 <= k < a.y.len() ==> #[trigger] atom_text(a)[a.symbol.len() + 1 + a.x.len() + 1
                + k] == a.y[k],
        atom_text(a)[a.symbol.len() + 1 + a.x.len() + 1 + a.y.len() as int] == ' ',
        forall|k: int|
            0 <= k < a.z.len() ==> #[trigger] atom_text(a)[a.symbol.len() + 1 + a.x.len() + 1
                + a.y.len() + 1 + k] == a.z[k],
{
}

// ---------------------------------------------------------------------------
// What a well-formed coordinate starts with
// ---------------------------------------------------------------------------

pub proof fn lemma_coord_first_char(x: Seq<char>)
    requires
        wf_coord(x),
    ensures
        x.len() > 0,
        is_sign_char(x[0]) || is_digit_char(x[0]),
        !is_space_char(x[0]),
        !is_break_char(x[0]),
{
    let j: int = if 0 < x.len() && is_sign_char(x[0]) {
        1
    } else {
        0
    };
    lemma_skip_while_bounds(x, j, scan_pred(ScanKind::Digits));
    let k = skip_digits(x, j);
    assert(k != j);
    assert(scan_pred(ScanKind::Digits)(x[j]));
}

// ---------------------------------------------------------------------------
// A float literal embedded in a larger text parses to its own end
// ---------------------------------------------------------------------------

#[verifier::rlimit(50)]
pub proof fn lemma_float_embed(s: Seq<char>, i: int, x: Seq<char>)
    requires
        wf_coord(x),
        0 <= i,
        i + x.len() <= s.len(),
        s.subrange(i, i + x.len()) == x,
        i + x.len() == s.len() || s[i + x.len()] == ' ' || s[i + x.len()] == '\n',
    ensures
        float_end(s, i) == Some(i + x.len()),
{
    let l = x.len() as int;
    let e = i + l;
    assert forall|q: int| i <= q < e implies #[trigger] s[q] == x[q - i] by {
        assert(x[q - i] == s.subrange(i, e)[q - i]);
    }
    lemma_coord_first_char(x);

    // the sign, mirrored
    let jx: int = if is_sign_char(x[0]) {
        1
    } else {
        0
    };
    assert(s[i] == x[0]);

    // the run of integer digits, mirrored
    lemma_skip_while_bounds(x, jx, scan_pred(ScanKind::Digits));
    let kx = skip_digits(x, jx);
    assert(kx != jx);
    assert forall|q: int| i + jx <= q < i + kx implies scan_pred(ScanKind::Digits)(
        #[trigger] s[q],
    ) by {
        assert(scan_pred(ScanKind::Digits)(x[q - i]));
    }
    if i + kx < s.len() && kx < l {
        assert(s[i + kx] == x[kx]);
    }
    lemma_skip_while_exact(s, i + jx, i + kx, scan_pred(ScanKind::Digits));
    assert(skip_digits(s, i + jx) == i + kx);

    // the fractional part, mirrored
    let px = frac_end(x, kx);
    if kx < l && x[kx] == '.' {
        lemma_skip_while_bounds(x, kx + 1, scan_pred(ScanKind::Digits));
        let qx = skip_digits(x, kx + 1);
        assert forall|q: int| i + kx + 1 <= q < i + qx implies scan_pred(ScanKind::Digits)(
            #[trigger] s[q],
        ) by {
            assert(scan_pred(ScanKind::Digits)(x[q - i]));
        }
        if i + qx < s.len() && qx < l {
            assert(s[i + qx] == x[qx]);
        }
        lemma_skip_while_exact(s, i + kx + 1, i + qx, scan_pred(ScanKind::Digits));
        assert(skip_digits(s, i + kx + 1) == i + qx);
        assert(frac_end(s, i + kx) == i + px);
    } else {
        if i + kx < s.len() && kx < l {
            assert(s[i + kx] == x[kx]);
        }
        assert(frac_end(s, i + kx) == i + px);
    }

    // the exponent part, mirrored
    assert(float_end(x, 0) == Some(exp_end(x, px)));
    assert(exp_end(x, px) == l);
    if px < l {
        assert(is_exp_char(x[px]));
        assert(s[i + px] == x[px]);
        let qx: int = if px + 1 < l && is_sign_char(x[px + 1]) {
            px + 2
        } else {
            px + 1
        };
        lemma_skip_while_bounds(x, qx, scan_pred(ScanKind::Digits));
        let rx = skip_digits(x, qx);
        assert(rx > qx && rx == l);
        if px + 1 < l {
            assert(s[i + px + 1] == x[px + 1]);
        }
        assert forall|q: int| i + qx <= q < i + rx implies scan_pred(ScanKind::Digits)(
            #[trigger] s[q],
        ) by {
            assert(scan_pred(ScanKind::Digits)(x[q - i]));
        }
        lemma_skip_while_exact(s, i + qx, i + rx, scan_pred(ScanKind::Digits));
        assert(skip_digits(s, i + qx) == i + l);
        assert(exp_end(s, i + px) == i + l);
    } else {
        assert(px == l);
        assert(exp_end(s, i + px) == i + l);
    }
    assert(float_end(s, i) == Some(exp_end(s, frac_end(s, i + kx))));
}

// ---------------------------------------------------------------------------
// A space-separated coordinate parses to its literal
// ---------------------------------------------------------------------------

pub proof fn lemma_coord_embed(s: Seq<char>, j: int, x: Seq<char>)
    requires
        wf_coord(x),
        0 <= j,
        j + 1 + x.len() <= s.len(),
        s[j] == ' ',
        s.subrange(j + 1, j + 1 + x.len()) == x,
        j + 1 + x.len() == s.len() || s[j + 1 + x.len()] == ' ' || s[j + 1 + x.len()] == '\n',
    ensures
        coord_after(s, j) == SpecStep::Done(x, j + 1 + x.len()),
{
    lemma_coord_first_char(x);
    assert(s[j + 1] == x[0]) by {
        assert(x[0] == s.subrange(j + 1, j + 1 + x.len())[0]);
    }
    lemma_skip_while_exact(s, j, j + 1, scan_pred(ScanKind::Spaces));
    assert(skip_spaces(s, j) == j + 1);
    lemma_float_embed(s, j + 1, x);
}

// ---------------------------------------------------------------------------
// Carving a known stretch of text into its parts
// ---------------------------------------------------------------------------

/// A chunk of a known stretch of `s` is the sequence it was built from.
proof fn lemma_subrange_chunk(s: Seq<char>, i: int, at: Seq<char>, o: int, x: Seq<char>)
    requires
        0 <= i,
        i + at.len() <= s.len(),
        s.subrange(i, i + at.len()) == at,
        0 <= o,
        o + x.len() <= at.len(),
        forall|k: int| 0 <= k < x.len() ==> at[o + k] == x[k],
    ensures
        s.subrange(i + o, i + o + x.len()) == x,
{
    assert forall|q: int| 0 <= q < x.len() implies s.subrange(i + o, i + o + x.len())[q]
        == x[q] by {
        assert(s[i + o + q] == s.subrange(i, i + at.len())[o + q]);
        assert(at[o + q] == x[q]);
    }
    assert(s.subrange(i + o, i + o + x.len()) =~= x);
}

/// One character of a known stretch of `s`.
proof fn lemma_subrange_char(s: Seq<char>, i: int, at: Seq<char>, o: int)
    requires
        0 <= i,
        i + at.len() <= s.len(),
        s.subrange(i, i + at.len()) == at,
        0 <= o < at.len(),
    ensures
        s[i + o] == at[o],
{
    assert(at[o] == s.subrange(i, i + at.len())[o]);
}

// ---------------------------------------------------------------------------
// A serialized atom line parses to its atom
// ---------------------------------------------------------------------------

#[verifier::rlimit(50)]
pub proof fn lemma_atom_embed(s: Seq<char>, i: int, a: SpecAtom)
    requires
        wf_atom(a),
        0 <= i,
        i + atom_text(a).len() <= s.len(),
        s.subrange(i, i + atom_text(a).len()) == atom_text(a),
        i + atom_text(a).len() == s.len() || s[i + atom_text(a).len()] == '\n',
    ensures
        atom_result(s, i) == SpecStep::Done(a, i + atom_text(a).len()),
{
    let at = atom_text(a);
    let l = at.len() as int;
    lemma_atom_text_chars(a);
    let sl = a.symbol.len() as int;
    let xs = i + sl + 1;
    let ys = xs + a.x.len() + 1;
    let zs = ys + a.y.len() + 1;

    // carve the line into its parts
    lemma_subrange_chunk(s, i, at, 0, a.symbol);
    lemma_subrange_chunk(s, i, at, sl + 1, a.x);
    lemma_subrange_chunk(s, i, at, sl + 1 + a.x.len() + 1, a.y);
    lemma_subrange_chunk(s, i, at, sl + 1 + a.x.len() + 1 + a.y.len() + 1, a.z);
    lemma_subrange_char(s, i, at, sl);
    lemma_subrange_char(s, i, at, sl + 1 + a.x.len() as int);
    lemma_subrange_char(s, i, at, sl + 1 + a.x.len() + 1 + a.y.len() as int);
    assert(s[i + sl] == ' ');
    assert(s[xs + a.x.len()] == ' ');
    assert(s[ys + a.y.len()] == ' ');
    assert(s.subrange(xs, xs + a.x.len()) == a.x);
    assert(s.subrange(ys, ys + a.y.len()) == a.y);
    assert(s.subrange(zs, zs + a.z.len()) == a.z);

    // the symbol, stopped by the space after it
    assert forall|q: int| i <= q < i + sl implies scan_pred(ScanKind::Alnum)(
        #[trigger] s[q],
    ) by {
        assert(s.subrange(i, i + sl)[q - i] == a.symbol[q - i]);
        assert(is_alnum_char(a.symbol[q - i]));
    }
    lemma_skip_while_exact(s, i, i + sl, scan_pred(ScanKind::Alnum));
    assert(skip_alnum(s, i) == i + sl);

    // the three coordinates
    lemma_coord_embed(s, i + sl, a.x);
    lemma_coord_embed(s, xs + a.x.len(), a.y);
    lemma_coord_embed(s, ys + a.y.len(), a.z);

    // assemble the atom
    assert(atom_result(s, i) == SpecStep::Done(
        SpecAtom { symbol: s.subrange(i, i + sl), x: a.x, y: a.y, z: a.z },
        zs + a.z.len(),
    ));
}

// ---------------------------------------------------------------------------
// A serialized atom list parses to its atoms
// ---------------------------------------------------------------------------

#[verifier::rlimit(50)]
pub proof fn lemma_atoms_embed(s: Seq<char>, i: int, atoms: Seq<SpecAtom>, last: int)
    requires
        0 <= i <= s.len(),
        forall|k: int| 0 <= k < atoms.len() ==> wf_atom(#[trigger] atoms[k]),
        s.len() == i + atoms_text(atoms).len(),
        s.subrange(i, s.len() as int) == atoms_text(atoms),
    ensures
        atoms_result(s, i, atoms.len() as int, last) == SpecStep::Done(atoms, s.len() as int),
    decreases atoms.len(),
{
    let body = atoms_text(atoms);
    assert forall|q: int| i <= q < s.len() implies #[trigger] s[q] == body[q - i] by {
        assert(body[q - i] == s.subrange(i, s.len() as int)[q - i]);
    }
    if atoms.len() == 0 {
        assert(atoms =~= Seq::<SpecAtom>::empty());
    } else if atoms.len() == 1 {
        let a = atoms[0];
        lemma_atom_text_chars(a);
        assert(s.subrange(i, i + atom_text(a).len()) == atoms_text(atoms));
        lemma_atom_embed(s, i, a);
        assert(i < s.len());
        assert(seq![a] =~= atoms);
    } else {
        let a = atoms[0];
        let rest = atoms.drop_first();
        lemma_atom_text_chars(a);
        let al = atom_text(a).len() as int;
        let ab = atom_text(a) + seq!['\n'];
        assert(body == ab + atoms_text(rest));
        let q = i + al;
        assert(ab[al] == '\n');
        assert(body[al] == ab[al]);
        assert(s[q] == '\n');
        assert forall|k: int| 0 <= k < al implies s.subrange(i, q)[k] == atom_text(a)[k] by {
            assert(s[i + k] == body[k]);
            assert(body[k] == ab[k]);
            assert(ab[k] == atom_text(a)[k]);
        }
        assert(s.subrange(i, q) =~= atom_text(a));
        lemma_atom_embed(s, i, a);
        assert(i < s.len());
        // the separator line ending before the next atom
        lemma_skip_while_exact(s, q, q, scan_pred(ScanKind::Spaces));
        assert(line_end_at(s, q) == Some(q + 1));
        // the remaining atoms
        let rl = atoms_text(rest).len() as int;
        assert(s.len() == q + 1 + rl);
        assert forall|k: int| 0 <= k < rl implies s.subrange(q + 1, s.len() as int)[k]
            == atoms_text(rest)[k] by {
            assert(s[q + 1 + k] == body[al + 1 + k]);
            assert(body[al + 1 + k] == atoms_text(rest)[k]);
        }
        assert(s.subrange(q + 1, s.len() as int) =~= atoms_text(rest));
        lemma_atoms_embed(s, q + 1, rest, q);
        assert(seq![a] + rest =~= atoms);
    }
}

// ---------------------------------------------------------------------------
// The round-trip law
// ---------------------------------------------------------------------------

/// Serializing a record and parsing the text back yields the record
/// unchanged: for any well-formed record and any digit string reading its
/// atom count, the text `header line, title line, atom lines` parses —
/// loosely or strictly — to exactly that record, consuming the whole text.
#[verifier::rlimit(50)]
pub proof fn lemma_round_trip(h: Seq<char>, r: SpecRecord)
    requires
        wf_header(h, r.atoms.len() as int),
        wf_record(r),
    ensures
        record_result(record_text(h, r), 0) == SpecStep::Done(r, record_text(h, r).len() as int),
        full_result(record_text(h, r)) == SpecStep::Done(r, record_text(h, r).len() as int),
{
    let s = record_text(h, r);
    let hl = h.len() as int;
    let t0 = hl + 1;
    let tl = r.title.len() as int;
    let j = t0 + tl;
    let p0 = j + 1;
    let body = atoms_text(r.atoms);
    let s1 = h + seq!['\n'];
    let s2 = s1 + r.title;
    let s3 = s2 + seq!['\n'];
    assert(s == s3 + body);
    assert(s.len() == p0 + body.len());

    // the header line
    assert forall|q: int| 0 <= q < hl implies scan_pred(ScanKind::Digits)(#[trigger] s[q]) by {
        assert(s[q] == s3[q]);
        assert(s3[q] == s2[q]);
        assert(s2[q] == s1[q]);
        assert(s1[q] == h[q]);
        assert(is_digit_char(h[q]));
    }
    assert(s1[hl] == '\n');
    assert(s2[hl] == s1[hl]);
    assert(s3[hl] == s2[hl]);
    assert(s[hl] == s3[hl]);
    lemma_skip_while_exact(s, 0, hl, scan_pred(ScanKind::Digits));
    assert(skip_digits(s, 0) == hl);
    assert forall|q: int| 0 <= q < hl implies s.subrange(0, hl)[q] == h[q] by {
        assert(s[q] == s3[q]);
        assert(s3[q] == s2[q]);
        assert(s2[q] == s1[q]);
        assert(s1[q] == h[q]);
    }
    assert(s.subrange(0, hl) =~= h);
    lemma_skip_while_exact(s, hl, hl, scan_pred(ScanKind::Spaces));
    assert(line_end_at(s, hl) == Some(t0));
    assert(header_result(s, 0) == SpecStep::Done(r.atoms.len() as int, t0));

    // the title line
    assert forall|q: int| t0 <= q < j implies #[trigger] s[q] == r.title[q - t0] by {
        assert(s[q] == s3[q]);
        assert(s3[q] == s2[q]);
        assert(s2[q] == r.title[q - t0]);
    }
    assert(s3[j] == '\n');
    assert(s[j] == s3[j]);
    assert forall|q: int| t0 <= q < j implies scan_pred(ScanKind::Title)(#[trigger] s[q]) by {
        assert(!is_break_char(r.title[q - t0]));
    }
    lemma_skip_while_exact(s, t0, j, scan_pred(ScanKind::Title));
    assert(skip_title(s, t0) == j);
    assert(line_end_at(s, j) == Some(p0));
    assert forall|q: int| 0 <= q < tl implies s.subrange(t0, j)[q] == r.title[q] by {
        assert(s[t0 + q] == r.title[q]);
    }
    assert(s.subrange(t0, j) =~= r.title);

    // the atom lines
    assert forall|q: int| 0 <= q < body.len() implies s.subrange(p0, s.len() as int)[q]
        == body[q] by {
        assert(s[p0 + q] == body[q]);
    }
    assert(s.subrange(p0, s.len() as int) =~= body);
    lemma_atoms_embed(s, p0, r.atoms, p0);

    // nothing after the last atom
    lemma_skip_while_exact(s, s.len() as int, s.len() as int, scan_pred(ScanKind::Spaces));
    assert(skip_spaces(s, s.len() as int) == s.len());
    assert(record_result(s, 0) == SpecStep::Done(
        SpecRecord { title: s.subrange(t0, j), atoms: r.atoms },
        s.len() as int,
    ));
    assert(SpecRecord { title: s.subrange(t0, j), atoms: r.atoms } =~= r);
}

} // verus!
