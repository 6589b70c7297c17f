use chemfile::ErrorKind;
use chemfile::Xyz;
use chemfile::XyzAtom;

// from https://en.wikipedia.org/wiki/XYZ_file_format
const PYRIDINE_XYZ: &str = r#"11
Pyridine
C       -0.180226841      0.360945118     -1.120304970
C       -0.180226841      1.559292118     -0.407860970
C       -0.180226841      1.503191118      0.986935030
N       -0.180226841      0.360945118      1.29018350
C       -0.180226841     -0.781300882      0.986935030
C       -0.180226841     -0.837401882     -0.407860970
H       -0.180226841      0.360945118     -2.206546970
H       -0.180226841      2.517950118     -0.917077970
H       -0.180226841      2.421289118      1.572099030
H       -0.180226841     -1.699398882      1.572099030
H       -0.180226841     -1.796059882     -0.917077970"#;

#[test]
fn test_xyz_parse() {
    let xyz: Xyz = PYRIDINE_XYZ.parse().unwrap();
    assert_eq!(xyz.atoms.len(), 11);
    assert_eq!(xyz.title, "Pyridine");
    assert_eq!(xyz.atoms[0].symbol, "C");
    assert_eq!(xyz.atoms[0].x.parse::<f64>().unwrap(), -0.180226841);
    assert_eq!(xyz.atoms[0].y.parse::<f64>().unwrap(), 0.360945118);
    assert_eq!(xyz.atoms[0].z.parse::<f64>().unwrap(), -1.120304970);

    assert_eq!(xyz.atoms[10].symbol, "H");
    assert_eq!(xyz.atoms[10].x.parse::<f64>().unwrap(), -0.180226841);
    assert_eq!(xyz.atoms[10].y.parse::<f64>().unwrap(), -1.796059882);
    assert_eq!(xyz.atoms[10].z.parse::<f64>().unwrap(), -0.917077970);
}

#[test]
fn xyz_test_xyz_parse() {
    let pyridine_xyz = PYRIDINE_XYZ;
    let xyz: Xyz = pyridine_xyz.parse().unwrap();
    assert_eq!(xyz.atoms.len(), 11);
    assert_eq!(xyz.title, "Pyridine");
    assert_eq!(xyz.atoms[0].symbol, "C");
    assert_eq!(xyz.atoms[0].x.parse::<f64>().unwrap(), -0.180226841);
    assert_eq!(xyz.atoms[0].y.parse::<f64>().unwrap(), 0.360945118);
    assert_eq!(xyz.atoms[0].z.parse::<f64>().unwrap(), -1.120304970);

    assert_eq!(xyz.atoms[10].symbol, "H");
    assert_eq!(xyz.atoms[10].x.parse::<f64>().unwrap(), -0.180226841);
    assert_eq!(xyz.atoms[10].y.parse::<f64>().unwrap(), -1.796059882);
    assert_eq!(xyz.atoms[10].z.parse::<f64>().unwrap(), -0.917077970);
}

#[test]
fn test_xyz_parse_extra_line() {
    let xyz_str = format!("{}\n", PYRIDINE_XYZ);
    assert!(Xyz::parser(&xyz_str, 0).is_ok());
    assert!(xyz_str.parse::<Xyz>().is_err());
}

#[test]
fn test_xyz_atom_parse() {
    let atom = "C 0.0 0.0 0.0";
    let atom = XyzAtom::parser(atom).unwrap();
    assert_eq!(atom.symbol, "C");
    assert_eq!(atom.x.parse::<f64>().unwrap(), 0.0);
    assert_eq!(atom.y.parse::<f64>().unwrap(), 0.0);
    assert_eq!(atom.z.parse::<f64>().unwrap(), 0.0);

    let atom = "H 1.0 2.0 3.0";
    let atom = XyzAtom::parser(atom).unwrap();
    assert_eq!(atom.symbol, "H");
    assert_eq!(atom.x.parse::<f64>().unwrap(), 1.0);
    assert_eq!(atom.y.parse::<f64>().unwrap(), 2.0);
    assert_eq!(atom.z.parse::<f64>().unwrap(), 3.0);

    let atom = "H       -0.180226841     -1.699398882      1.572099030";
    let atom = XyzAtom::parser(atom).unwrap();
    assert_eq!(atom.symbol, "H");
    assert_eq!(atom.x.parse::<f64>().unwrap(), -0.180226841);
    assert_eq!(atom.y.parse::<f64>().unwrap(), -1.699398882);
    assert_eq!(atom.z.parse::<f64>().unwrap(), 1.572099030);
}

#[test]
fn cursor_stops_before_trailing_line_end_and_strict_parse_rejects_it() {
    let xyz_str = format!("{}\n", PYRIDINE_XYZ);
    let n_chars = xyz_str.chars().count();
    let (xyz, end) = Xyz::parser(&xyz_str, 0).unwrap();
    assert_eq!(xyz.atoms.len(), 11);
    assert_eq!(end, n_chars - 1);

    let err = xyz_str.parse::<Xyz>().unwrap_err();
    assert_eq!(err.kind(), ErrorKind::TrailingContentError);
    assert_eq!(err.offset(), n_chars - 1);
}

#[test]
fn truncated_atom_list_fails_right_after_the_last_atom() {
    let text = "5\nfour atoms only\nC 0 0 0\nC 0 0 0\nC 0 0 0\nC 1.5 2.5 3.5";
    let err = text.parse::<Xyz>().unwrap_err();
    assert_eq!(err.kind(), ErrorKind::AtomListTruncated);
    assert_eq!(err.offset(), text.chars().count());
}

#[test]
fn truncated_atom_list_with_trailing_line_end() {
    let text = "2\nt\nC 0 0 0\n";
    let err = text.parse::<Xyz>().unwrap_err();
    assert_eq!(err.kind(), ErrorKind::AtomListTruncated);
    // right after the one parsed atom, before its line terminator
    assert_eq!(err.offset(), text.chars().count() - 1);
}

#[test]
fn non_numeric_header_fails_at_its_first_byte() {
    let err = "abc\n".parse::<Xyz>().unwrap_err();
    assert_eq!(err.kind(), ErrorKind::HeaderError);
    assert_eq!(err.offset(), 0);
    assert_eq!(err.message(), "number of atoms");
}

#[test]
fn header_with_junk_after_count_fails_where_the_terminator_was_expected() {
    let err = "12x\nt\nC 0 0 0".parse::<Xyz>().unwrap_err();
    assert_eq!(err.kind(), ErrorKind::HeaderError);
    assert_eq!(err.offset(), 2);
}

#[test]
fn overflowing_header_count_is_a_header_error() {
    let err = "99999999999999999999999999\nt\n".parse::<Xyz>().unwrap_err();
    assert_eq!(err.kind(), ErrorKind::HeaderError);
    assert_eq!(err.offset(), 0);
}

#[test]
fn unterminated_title_is_reported_at_end_of_input() {
    let err = "3\nabc".parse::<Xyz>().unwrap_err();
    assert_eq!(err.kind(), ErrorKind::TitleUnterminated);
    assert_eq!(err.offset(), 5);
    assert_eq!(err.message(), "title");
}

#[test]
fn malformed_atom_line_fails_at_the_first_deviating_character() {
    let err = "1\nt\nC x 0 0".parse::<Xyz>().unwrap_err();
    assert_eq!(err.kind(), ErrorKind::AtomFormatError);
    assert_eq!(err.offset(), 6);
    assert_eq!(err.message(), "xyz atom: expected <atom_symbol> <x> <y> <z>");
}

#[test]
fn missing_coordinate_is_an_atom_format_error() {
    let err = "1\nt\nC 1.0 2.0".parse::<Xyz>().unwrap_err();
    assert_eq!(err.kind(), ErrorKind::AtomFormatError);
    assert_eq!(err.offset(), "1\nt\nC 1.0 2.0".chars().count());
}

#[test]
fn round_trip_of_a_built_record() {
    let title = "water";
    let atoms = [
        ("O", "0.0", "0.0", "0.119262"),
        ("H", "0.0", "0.763239", "-0.477047"),
        ("H", "0.0", "-0.763239", "-0.477047"),
    ];
    let mut text = String::new();
    text.push_str("3\n");
    text.push_str(title);
    for (s, x, y, z) in atoms.iter() {
        text.push('\n');
        text.push_str(&format!("{} {} {} {}", s, x, y, z));
    }
    let xyz: Xyz = text.parse().unwrap();
    assert_eq!(xyz.title, title);
    assert_eq!(xyz.atoms.len(), atoms.len());
    for (atom, (s, x, y, z)) in xyz.atoms.iter().zip(atoms.iter()) {
        assert_eq!(atom.symbol, *s);
        assert_eq!(
            atom.x.parse::<f64>().unwrap(),
            x.parse::<f64>().unwrap()
        );
        assert_eq!(
            atom.y.parse::<f64>().unwrap(),
            y.parse::<f64>().unwrap()
        );
        assert_eq!(
            atom.z.parse::<f64>().unwrap(),
            z.parse::<f64>().unwrap()
        );
    }
}

#[test]
fn crlf_and_trailing_spaces_are_tolerated() {
    let text = "2 \r\nsalt \r\nNa 0 0 0\t\r\nCl11 2.82 0 0";
    let xyz: Xyz = text.parse().unwrap();
    assert_eq!(xyz.title, "salt ");
    assert_eq!(xyz.atoms.len(), 2);
    assert_eq!(xyz.atoms[1].symbol, "Cl11");
    assert_eq!(xyz.atoms[1].x.parse::<f64>().unwrap(), 2.82);
}

#[test]
fn exponent_and_signed_literals_parse() {
    let atom = XyzAtom::parser("C 1e5 -2.5E-3 +3.25").unwrap();
    assert_eq!(atom.x.parse::<f64>().unwrap(), 1e5);
    assert_eq!(atom.y.parse::<f64>().unwrap(), -2.5e-3);
    assert_eq!(atom.z.parse::<f64>().unwrap(), 3.25);
}

#[test]
fn empty_atom_list_record() {
    let xyz: Xyz = "0\nnothing here\n".parse().unwrap();
    assert_eq!(xyz.title, "nothing here");
    assert_eq!(xyz.atoms.len(), 0);
}

#[test]
fn constructors_keep_their_arguments() {
    let xyz = Xyz::new("fresh");
    assert_eq!(xyz.title, "fresh");
    assert_eq!(xyz.atoms.len(), 0);

    let atom = XyzAtom::new("Fe", "1.0", "-2.0", "3e-1");
    assert_eq!(atom.symbol, "Fe");
    assert_eq!(atom.x, "1.0");
    assert_eq!(atom.y, "-2.0");
    assert_eq!(atom.z, "3e-1");
}

#[test]
fn rendered_diagnostic_shows_label_and_source_line() {
    let err = "abc\n".parse::<Xyz>().unwrap_err();
    assert_eq!(err.source(), "abc\n");
    assert_eq!(err.span_len(), 1);
    let rendered = err.render();
    assert!(rendered.contains("number of atoms"));
    assert!(rendered.contains("abc"));
    assert_ne!(rendered, "abc\n");
}

#[test]
fn atom_line_with_trailing_content_is_rejected_strictly() {
    let err = XyzAtom::parser("C 0.0 0.0 0.0 junk").unwrap_err();
    assert_eq!(err.kind(), ErrorKind::TrailingContentError);
    assert_eq!(err.offset(), 13);
}

#[test]
fn empty_title_is_kept_verbatim() {
    let xyz: Xyz = "1\n\nC 0 0 0".parse().unwrap();
    assert_eq!(xyz.title, "");
    assert_eq!(xyz.atoms.len(), 1);
}

#[test]
fn two_records_read_from_one_buffer() {
    let text = "1\nfirst\nC 0 0 0\n1\nsecond\nH 1 2 3";
    let (one, end) = Xyz::parser(text, 0).unwrap();
    assert_eq!(one.title, "first");
    assert_eq!(one.atoms.len(), 1);
    // the cursor stops before the line terminator that separates the records
    assert_eq!(text.chars().nth(end).unwrap(), '\n');
    let (two, end2) = Xyz::parser(text, end + 1).unwrap();
    assert_eq!(two.title, "second");
    assert_eq!(two.atoms[0].symbol, "H");
    assert_eq!(end2, text.chars().count());
}
