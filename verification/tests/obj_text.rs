use orbital_viewer::obj_text::{check_obj, line_is_loadable, parse_obj, parse_u16, split_ascii_whitespace, split_lines};

fn rows(v: &[&str]) -> Vec<Vec<u8>> {
    v.iter().map(|s| s.as_bytes().to_vec()).collect()
}

#[test]
fn lines_are_cut_at_each_line_feed() {
    assert_eq!(split_lines(b"a\nb\n"), rows(&["a", "b", ""]));
    assert_eq!(split_lines(b""), rows(&[""]));
    assert_eq!(split_lines(b"one line"), rows(&["one line"]));
    assert_eq!(split_lines(b"x\r\n\ny"), rows(&["x\r", "", "y"]));
}

#[test]
fn words_are_runs_without_ascii_whitespace() {
    assert_eq!(split_ascii_whitespace(b"  v 1.0\t2 \r"), rows(&["v", "1.0", "2"]));
    assert_eq!(split_ascii_whitespace(b""), rows(&[]));
    assert_eq!(split_ascii_whitespace(b" \t\x0c "), rows(&[]));
    assert_eq!(split_ascii_whitespace(b"f 1 2 3"), rows(&["f", "1", "2", "3"]));
}

#[test]
fn u16_text_is_read_as_from_str_reads_it() {
    let cases: [&str; 12] = ["42", "+7", "+", "", "65535", "65536", "-1", "1a", "007", "99999999999", "0", " 1"];
    for c in cases.iter() {
        assert_eq!(parse_u16(c.as_bytes()), c.parse::<u16>().ok(), "case {:?}", c);
    }
    assert_eq!(parse_u16(b"42"), Some(42));
    assert_eq!(parse_u16(b"65536"), None);
}

#[test]
fn loadable_lines() {
    assert!(line_is_loadable(b"v 1 2 3 0.5 0.5 0.5"));
    assert!(!line_is_loadable(b"v 1 2 3"));
    assert!(!line_is_loadable(b"vn 0 0 1"));
    assert!(line_is_loadable(b"f 1 2 3"));
    assert!(line_is_loadable(b"f 1 2 3 4"));
    assert!(!line_is_loadable(b"f 1 2"));
    assert!(!line_is_loadable(b"f 0 1 2"));
    assert!(!line_is_loadable(b"f 1 2 x"));
    assert!(!line_is_loadable(b"f 1/1 2/2 3/3"));
    assert!(!line_is_loadable(b"f 1 2 3 70000"));
    assert!(line_is_loadable(b"f 1 2 3 0"));
    assert!(line_is_loadable(b"# a comment"));
    assert!(line_is_loadable(b""));
    assert!(line_is_loadable(b" v leading space is no vertex"));
}

#[test]
fn whole_texts_are_checked_line_by_line() {
    assert!(check_obj(b"v 0 0 0 1 0 0\nv 1 0 0 0 1 0\nv 0 1 0 0 0 1\nf 1 2 3\n"));
    assert!(!check_obj(b"v 0 0 0 1 0 0\nf 1 2 3\nf 1 2\n"));
    assert!(check_obj(b""));
}

#[test]
fn a_triangle_is_read() {
    let text = b"# triangle\nv 0 0 0 1 0 0\nv 1 0 0 0 1 0\nv 0 1 0 0 0 1 9\nf 1 2 3\n";
    assert!(check_obj(text));
    let mesh = parse_obj(text);
    assert_eq!(mesh.vertex_fields.len(), 3);
    assert_eq!(mesh.vertex_fields[0], rows(&["0", "0", "0", "1", "0", "0"]));
    assert_eq!(mesh.vertex_fields[2], rows(&["0", "1", "0", "0", "0", "1", "9"]));
    assert_eq!(mesh.faces, vec![0, 1, 2]);
    assert_eq!(mesh.edges.len(), 6);
    let mut pairs: Vec<(u16, u16)> = mesh.edges.chunks(2).map(|p| (p[0], p[1])).collect();
    pairs.sort();
    assert_eq!(pairs, vec![(0, 1), (0, 2), (1, 2)]);
}

#[test]
fn faces_keep_only_three_corners_less_one() {
    let mesh = parse_obj(b"f 4 5 6 7\nfoo 10 11 12\n");
    assert_eq!(mesh.faces, vec![3, 4, 5, 9, 10, 11]);
    assert_eq!(mesh.faces.len() % 3, 0);
    assert!(mesh.vertex_fields.is_empty());
}
