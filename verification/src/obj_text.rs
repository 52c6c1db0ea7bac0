//! Reading the text of a Wavefront OBJ model: the vertex records (`v ...`)
//! and the triangular face records (`f a b c`) that the viewer draws.
//! Vertex coordinates and colours are floating-point text, which the library
//! hands back as the raw fields of each vertex record.
use crate::mesh_edges::{as_pairs, edges_from_faces, mesh_edge_set};
use vstd::prelude::*;

verus! {

/// The byte that ends a line.
pub open spec fn is_newline(b: u8) -> bool {
    b == 10
}

/// ASCII whitespace as `u8::is_ascii_whitespace` defines it: space, tab,
/// line feed, form feed and carriage return.
pub open spec fn is_ascii_ws(b: u8) -> bool {
    b == 32 || b == 9 || b == 10 || b == 12 || b == 13
}

/// The lines of `s` when the line being built so far is `cur`: the text is cut
/// at every line feed, and the piece after the last one is a line too (so a
/// text that ends with a line feed ends with an empty line).
pub open spec fn lines_from(s: Seq<u8>, cur: Seq<u8>) -> Seq<Seq<u8>>
    decreases s.len(),
{
    if s.len() == 0 {
        seq![cur]
    } else if is_newline(s[0]) {
        seq![cur] + lines_from(s.drop_first(), seq![])
    } else {
        lines_from(s.drop_first(), cur.push(s[0]))
    }
}

/// The lines of a text, cut at each line feed.
pub open spec fn text_lines(s: Seq<u8>) -> Seq<Seq<u8>> {
    lines_from(s, seq![])
}

/// `cur` as a word list: nothing if it is empty, else the one word.
pub open spec fn pending_word(cur: Seq<u8>) -> Seq<Seq<u8>> {
    if cur.len() == 0 {
        seq![]
    } else {
        seq![cur]
    }
}

/// The maximal runs of non-whitespace bytes of `s`, when the run being built so
/// far is `cur`.
pub open spec fn words_from(s: Seq<u8>, cur: Seq<u8>) -> Seq<Seq<u8>>
    decreases s.len(),
{
    if s.len() == 0 {
        pending_word(cur)
    } else if is_ascii_ws(s[0]) {
        pending_word(cur) + words_from(s.drop_first(), seq![])
    } else {
        words_from(s.drop_first(), cur.push(s[0]))
    }
}

/// The words of a line: its maximal runs of bytes that are not ASCII whitespace.
pub open spec fn words(s: Seq<u8>) -> Seq<Seq<u8>> {
    words_from(s, seq![])
}

/// An ASCII decimal digit.
pub open spec fn is_digit(b: u8) -> bool {
    48 <= b <= 57
}

/// The number that a string of decimal digits denotes.
pub open spec fn digits_value(d: Seq<u8>) -> nat
    decreases d.len(),
{
    if d.len() == 0 {
        0
    } else {
        digits_value(d.drop_last()) * 10 + (d.last() - 48) as nat
    }
}

/// The digits of an unsigned number's text: everything after one optional
/// leading `+`.
pub open spec fn unsigned_digits(t: Seq<u8>) -> Seq<u8> {
    if t.len() > 0 && t[0] == 43 {
        t.drop_first()
    } else {
        t
    }
}

/// Every byte of `d` is a decimal digit.
pub open spec fn all_digits(d: Seq<u8>) -> bool {
    forall|i: int| 0 <= i < d.len() ==> is_digit(#[trigger] d[i])
}

/// What `u16::from_str` gives for `t`: the value of its digits when, after
/// one optional `+`, it is one or more decimal digits denoting at most 65535;
/// otherwise nothing.
pub open spec fn decimal_u16(t: Seq<u8>) -> Option<u16> {
    let d = unsigned_digits(t);
    if d.len() > 0 && all_digits(d) && digits_value(d) <= 65535 {
        Some(digits_value(d) as u16)
    } else {
        None
    }
}

/// A vertex record: a line that starts with `v`.
pub open spec fn is_vertex_line(line: Seq<u8>) -> bool {
    line.len() > 0 && line[0] == 118
}

/// A face record: a line that starts with `f`.
pub open spec fn is_face_line(line: Seq<u8>) -> bool {
    line.len() > 0 && line[0] == 102
}

/// The fields of a record: its words after the first.
pub open spec fn record_fields(line: Seq<u8>) -> Seq<Seq<u8>> {
    words(line).skip(1)
}

/// The 1-based index that field `k` of a face record names.
pub open spec fn face_field(line: Seq<u8>, k: int) -> u16 {
    decimal_u16(record_fields(line)[k]).unwrap()
}

/// A line the viewer can load: a vertex record with at least six fields (a
/// position and a colour); a face record whose fields are all decimal `u16`
/// numbers, at least three of them, the first three at least 1; or any other
/// line, which is skipped.
pub open spec fn line_loadable(line: Seq<u8>) -> bool {
    if is_vertex_line(line) {
        record_fields(line).len() >= 6
    } else if is_face_line(line) {
        &&& record_fields(line).len() >= 3
        &&& forall|k: int|
            0 <= k < record_fields(line).len() ==> (#[trigger] decimal_u16(
                record_fields(line)[k],
            )) is Some
        &&& face_field(line, 0) >= 1
        &&& face_field(line, 1) >= 1
        &&& face_field(line, 2) >= 1
    } else {
        true
    }
}

/// A text that the viewer can load: every line is loadable.
pub open spec fn obj_loadable(text: Seq<u8>) -> bool {
    forall|i: int| 0 <= i < text_lines(text).len() ==> line_loadable(#[trigger] text_lines(text)[i])
}

/// The 0-based corner indices that one line contributes: the first three
/// fields, less one, of a face record; nothing for any other line.
pub open spec fn line_faces(line: Seq<u8>) -> Seq<u16> {
    if !is_vertex_line(line) && is_face_line(line) {
        seq![
            (face_field(line, 0) - 1) as u16,
            (face_field(line, 1) - 1) as u16,
            (face_field(line, 2) - 1) as u16,
        ]
    } else {
        seq![]
    }
}

/// The corner indices of all the triangles of a list of lines, in order.
pub open spec fn obj_faces(lines: Seq<Seq<u8>>) -> Seq<u16>
    decreases lines.len(),
{
    if lines.len() == 0 {
        seq![]
    } else {
        obj_faces(lines.drop_last()) + line_faces(lines.last())
    }
}

/// The fields that one line contributes as a vertex: all of them, for a vertex
/// record; nothing for any other line.
pub open spec fn line_vertex(line: Seq<u8>) -> Seq<Seq<Seq<u8>>> {
    if is_vertex_line(line) {
        seq![record_fields(line)]
    } else {
        seq![]
    }
}

/// The fields of all the vertex records of a list of lines, in order.
pub open spec fn obj_vertex_fields(lines: Seq<Seq<u8>>) -> Seq<Seq<Seq<u8>>>
    decreases lines.len(),
{
    if lines.len() == 0 {
        seq![]
    } else {
        obj_vertex_fields(lines.drop_last()) + line_vertex(lines.last())
    }
}

/// The contents of a list of byte vectors.
pub open spec fn byte_rows(v: Seq<Vec<u8>>) -> Seq<Seq<u8>> {
    Seq::new(v.len(), |i: int| v[i]@)
}

/// Splits a text at each line feed, as `str::split("\n")` does.
pub fn split_lines(text: &[u8]) -> (lines: Vec<Vec<u8>>)
    ensures
        byte_rows(lines@) == text_lines(text@),
{
    let mut lines: Vec<Vec<u8>> = Vec::new();
    let mut cur: Vec<u8> = Vec::new();
    let mut i: usize = 0;
    assert(text@.skip(0) =~= text@);
    assert(byte_rows(lines@) + lines_from(text@, cur@) =~= lines_from(text@, cur@));
    while i < text.len()
        invariant
            i <= text@.len(),
            text_lines(text@) == byte_rows(lines@) + lines_from(text@.skip(i as int), cur@),
        decreases text@.len() - i,
    {
        let ghost rest = text@.skip(i as int);
        assert(rest.drop_first() =~= text@.skip(i + 1));
        let b = text[i];
        if b == 10 {
            let ghost before = byte_rows(lines@);
            let ghost line = cur@;
            lines.push(cur);
            cur = Vec::new();
            assert(byte_rows(lines@) =~= before.push(line));
            assert(before + (seq![line] + lines_from(text@.skip(i + 1), seq![])) =~= before.push(
                line,
            ) + lines_from(text@.skip(i + 1), seq![]));
        } else {
            cur.push(b);
        }
        i = i + 1;
    }
    let ghost before = byte_rows(lines@);
    let ghost line = cur@;
    assert(text@.skip(i as int) =~= Seq::<u8>::empty());
    lines.push(cur);
    assert(byte_rows(lines@) =~= before.push(line));
    assert(before + seq![line] =~= before.push(line));
    lines
}

fn is_ascii_ws_exec(b: u8) -> (r: bool)
    ensures
        r == is_ascii_ws(b),
{
    b == 32 || b == 9 || b == 10 || b == 12 || b == 13
}

/// Splits a line into its maximal runs of non-whitespace bytes, as
/// `str::split_ascii_whitespace` does.
pub fn split_ascii_whitespace(line: &[u8]) -> (ws: Vec<Vec<u8>>)
    ensures
        byte_rows(ws@) == words(line@),
{
    let mut ws: Vec<Vec<u8>> = Vec::new();
    let mut cur: Vec<u8> = Vec::new();
    let mut i: usize = 0;
    assert(line@.skip(0) =~= line@);
    assert(byte_rows(ws@) + words_from(line@, cur@) =~= words_from(line@, cur@));
    while i < line.len()
        invariant
            i <= line@.len(),
            words(line@) == byte_rows(ws@) + words_from(line@.skip(i as int), cur@),
        decreases line@.len() - i,
    {
        let ghost rest = line@.skip(i as int);
        assert(rest.drop_first() =~= line@.skip(i + 1));
        let b = line[i];
        assert(rest[0] == b);
        let ghost old_cur = cur@;
        if is_ascii_ws_exec(b) {
            let ghost before = byte_rows(ws@);
            let ghost pending = pending_word(cur@);
            if cur.len() > 0 {
                ws.push(cur);
                cur = Vec::new();
                assert(byte_rows(ws@) =~= before + pending);
            } else {
                assert(before + pending =~= before);
                assert(cur@ =~= Seq::<u8>::empty());
            }
            assert(byte_rows(ws@) + words_from(line@.skip(i + 1), seq![]) =~= before + (pending
                + words_from(line@.skip(i + 1), seq![])));
        } else {
            cur.push(b);
            assert(cur@ == old_cur.push(b));
        }
        i = i + 1;
    }
    assert(line@.skip(i as int) =~= Seq::<u8>::empty());
    let ghost before = byte_rows(ws@);
    if cur.len() > 0 {
        ws.push(cur);
        assert(byte_rows(ws@) =~= before + pending_word(cur@));
    } else {
        assert(before + pending_word(cur@) =~= before);
    }
    ws
}

proof fn lemma_digits_value_grows(d: Seq<u8>, i: int, j: int)
    requires
        0 <= i <= j <= d.len(),
        forall|k: int| 0 <= k < d.len() ==> is_digit(#[trigger] d[k]),
    ensures
        digits_value(d.take(i)) <= digits_value(d.take(j)),
    decreases j - i,
{
    if i < j {
        lemma_digits_value_grows(d, i, j - 1);
        assert(d.take(j).drop_last() =~= d.take(j - 1));
    }
}

/// Reads the text of an unsigned 16-bit number, as `u16::from_str` does:
/// one optional `+`, then decimal digits denoting at most 65535.
pub fn parse_u16(t: &[u8]) -> (r: Option<u16>)
    ensures
        r == decimal_u16(t@),
{
    let start: usize = if t.len() > 0 && t[0] == 43 { 1 } else { 0 };
    let ghost d = unsigned_digits(t@);
    assert(d =~= t@.skip(start as int));
    if start >= t.len() {
        return None;
    }
    let mut value: u32 = 0;
    let mut i: usize = start;
    while i < t.len()
        invariant
            start <= i <= t@.len(),
            start < t@.len(),
            d == unsigned_digits(t@),
            d =~= t@.skip(start as int),
            forall|k: int| 0 <= k < i - start ==> is_digit(#[trigger] d[k]),
            value == digits_value(d.take(i - start)),
            value <= 65535,
        decreases t@.len() - i,
    {
        let b = t[i];
        if b < 48 || b > 57 {
            assert(!is_digit(d[i - start]));
            assert(!all_digits(d));
            assert(decimal_u16(t@) is None);
            return None;
        }
        let next: u32 = value * 10 + (b - 48) as u32;
        assert(d.take(i - start + 1).drop_last() =~= d.take(i - start));
        if next > 65535 {
            proof {
                if all_digits(d) {
                    lemma_digits_value_grows(d, i - start + 1, d.len() as int);
                    assert(d.take(d.len() as int) =~= d);
                    assert(digits_value(d) > 65535);
                }
                assert(decimal_u16(t@) is None);
            }
            return None;
        }
        value = next;
        i = i + 1;
    }
    assert(d.take(d.len() as int) =~= d);
    Some(value as u16)
}

/// The contents of a list of lists of byte vectors.
pub open spec fn field_rows(v: Seq<Vec<Vec<u8>>>) -> Seq<Seq<Seq<u8>>> {
    Seq::new(v.len(), |i: int| byte_rows(v[i]@))
}

proof fn lemma_words_from_nonempty(s: Seq<u8>, cur: Seq<u8>)
    requires
        cur.len() > 0,
    ensures
        words_from(s, cur).len() > 0,
    decreases s.len(),
{
    if s.len() > 0 && !is_ascii_ws(s[0]) {
        lemma_words_from_nonempty(s.drop_first(), cur.push(s[0]));
    }
}

/// A line whose first byte is not whitespace has at least one word.
proof fn lemma_record_has_a_word(line: Seq<u8>)
    requires
        line.len() > 0,
        !is_ascii_ws(line[0]),
    ensures
        words(line).len() >= 1,
        record_fields(line).len() == words(line).len() - 1,
        forall|k: int| 0 <= k < record_fields(line).len() ==> #[trigger] record_fields(line)[k]
            == words(line)[k + 1],
{
    lemma_words_from_nonempty(line.drop_first(), seq![line[0]]);
    assert(Seq::<u8>::empty().push(line[0]) =~= seq![line[0]]);
}

/// Tells whether one line is loadable (see `line_loadable`).
pub fn line_is_loadable(line: &[u8]) -> (ok: bool)
    ensures
        ok == line_loadable(line@),
{
    if line.len() == 0 {
        return true;
    }
    let first = line[0];
    if first != 118 && first != 102 {
        return true;
    }
    proof {
        lemma_record_has_a_word(line@);
    }
    let ws = split_ascii_whitespace(line);
    if first == 118 {
        return ws.len() >= 7;
    }
    if ws.len() < 4 {
        return false;
    }
    let mut k: usize = 1;
    while k < ws.len()
        invariant
            1 <= k <= ws@.len(),
            ws@.len() >= 4,
            is_face_line(line@),
            !is_vertex_line(line@),
            byte_rows(ws@) == words(line@),
            record_fields(line@).len() == words(line@).len() - 1,
            forall|j: int| 0 <= j < record_fields(line@).len() ==> #[trigger] record_fields(line@)[j]
                == words(line@)[j + 1],
            forall|j: int| 0 <= j < k - 1 ==> (#[trigger] decimal_u16(record_fields(line@)[j])) is Some,
            forall|j: int| 0 <= j < k - 1 && j < 3 ==> #[trigger] face_field(line@, j) >= 1,
        decreases ws@.len() - k,
    {
        assert(ws@[k as int]@ == record_fields(line@)[k - 1]);
        match parse_u16(ws[k].as_slice()) {
            Some(v) => {
                if k <= 3 && v == 0 {
                    assert(face_field(line@, k - 1) == 0);
                    proof {
                        if k == 1 {
                            assert(face_field(line@, 0) == 0);
                        } else if k == 2 {
                            assert(face_field(line@, 1) == 0);
                        } else {
                            assert(face_field(line@, 2) == 0);
                        }
                    }
                    assert(!line_loadable(line@));
                    return false;
                }
            },
            None => {
                assert(decimal_u16(record_fields(line@)[k - 1]) is None);
                assert(!line_loadable(line@));
                return false;
            },
        }
        k = k + 1;
    }
    assert(face_field(line@, 0) >= 1 && face_field(line@, 1) >= 1 && face_field(line@, 2) >= 1);
    true
}

/// Tells whether every line of a text is loadable, which `parse_obj` needs.
pub fn check_obj(text: &[u8]) -> (ok: bool)
    ensures
        ok == obj_loadable(text@),
{
    let lines = split_lines(text);
    let mut i: usize = 0;
    while i < lines.len()
        invariant
            i <= lines@.len(),
            byte_rows(lines@) == text_lines(text@),
            forall|j: int| 0 <= j < i ==> line_loadable(#[trigger] text_lines(text@)[j]),
        decreases lines@.len() - i,
    {
        assert(lines@[i as int]@ == text_lines(text@)[i as int]);
        if !line_is_loadable(lines[i].as_slice()) {
            return false;
        }
        i = i + 1;
    }
    true
}

/// What the viewer reads from an OBJ text: the fields of each vertex record,
/// the 0-based corner indices of each triangle, and the wireframe edges of
/// the triangles, flattened as index pairs.
pub struct ObjMesh {
    pub vertex_fields: Vec<Vec<Vec<u8>>>,
    pub faces: Vec<u16>,
    pub edges: Vec<u16>,
}

/// Reads a loadable OBJ text: the fields (after the leading word) of every
/// vertex record, in order; the first three fields, less one, of every face
/// record, in order; and each side of those triangles once (see
/// `edges_from_faces`).
pub fn parse_obj(text: &[u8]) -> (mesh: ObjMesh)
    requires
        obj_loadable(text@),
    ensures
        field_rows(mesh.vertex_fields@) == obj_vertex_fields(text_lines(text@)),
        mesh.faces@ == obj_faces(text_lines(text@)),
        mesh.edges@.len() % 2 == 0,
        as_pairs(mesh.edges@).no_duplicates(),
        as_pairs(mesh.edges@).to_set() == mesh_edge_set(mesh.faces@),
{
    let lines = split_lines(text);
    let ghost all = text_lines(text@);
    let mut vertex_fields: Vec<Vec<Vec<u8>>> = Vec::new();
    let mut faces: Vec<u16> = Vec::new();
    let mut i: usize = 0;
    assert(all.take(0) =~= Seq::<Seq<u8>>::empty());
    assert(field_rows(vertex_fields@) =~= Seq::<Seq<Seq<u8>>>::empty());
    while i < lines.len()
        invariant
            i <= lines@.len(),
            all == text_lines(text@),
            byte_rows(lines@) == all,
            obj_loadable(text@),
            field_rows(vertex_fields@) == obj_vertex_fields(all.take(i as int)),
            faces@ == obj_faces(all.take(i as int)),
        decreases lines@.len() - i,
    {
        let ghost line = all[i as int];
        assert(lines@[i as int]@ == line);
        assert(all.take(i + 1).drop_last() =~= all.take(i as int));
        assert(all.take(i + 1).last() == line);
        assert(line_loadable(line));
        let ghost vf_before = field_rows(vertex_fields@);
        let ghost faces_before = faces@;
        let n = lines[i].len();
        if n > 0 && (lines[i][0] == 118 || lines[i][0] == 102) {
            proof {
                lemma_record_has_a_word(line);
            }
            let mut ws = split_ascii_whitespace(lines[i].as_slice());
            if lines[i][0] == 118 {
                ws.remove(0);
                assert(byte_rows(ws@) =~= record_fields(line));
                vertex_fields.push(ws);
                assert(field_rows(vertex_fields@) =~= vf_before.push(record_fields(line)));
                assert(vf_before + line_vertex(line) =~= vf_before.push(record_fields(line)));
                assert(faces_before + line_faces(line) =~= faces_before);
            } else {
                assert(ws@[1]@ == record_fields(line)[0]);
                assert(ws@[2]@ == record_fields(line)[1]);
                assert(ws@[3]@ == record_fields(line)[2]);
                assert(decimal_u16(record_fields(line)[0]) is Some);
                assert(decimal_u16(record_fields(line)[1]) is Some);
                assert(decimal_u16(record_fields(line)[2]) is Some);
                let a = parse_u16(ws[1].as_slice());
                let b = parse_u16(ws[2].as_slice());
                let c = parse_u16(ws[3].as_slice());
                if let (Some(a), Some(b), Some(c)) = (a, b, c) {
                    faces.push(a - 1);
                    faces.push(b - 1);
                    faces.push(c - 1);
                }
                assert(faces@ =~= faces_before + line_faces(line));
                assert(vf_before + line_vertex(line) =~= vf_before);
            }
        } else {
            assert(faces_before + line_faces(line) =~= faces_before);
            assert(vf_before + line_vertex(line) =~= vf_before);
        }
        i = i + 1;
    }
    assert(all.take(lines@.len() as int) =~= all);
    let edges = edges_from_faces(&faces);
    ObjMesh { vertex_fields, faces, edges }
}

/// The face records of a text give whole triangles: three corner indices each.
pub proof fn law_faces_are_whole_triangles(lines: Seq<Seq<u8>>)
    ensures
        obj_faces(lines).len() % 3 == 0,
    decreases lines.len(),
{
    if lines.len() > 0 {
        law_faces_are_whole_triangles(lines.drop_last());
    }
}

/// Every ASCII decimal digit on its own is read as its value, as
/// `u16::from_str` reads it, and every other single byte is rejected.
pub proof fn law_single_digits(b: u8)
    ensures
        48 <= b <= 57 ==> decimal_u16(seq![b]) == Some((b - 48) as u16),
        (b < 48 || b > 57) ==> decimal_u16(seq![b]) is None,
{
    let s = seq![b];
    assert(s.drop_last() =~= Seq::<u8>::empty());
    assert(digits_value(Seq::<u8>::empty()) == 0);
    if b < 48 || b > 57 {
        assert(!is_digit(s[0]));
        if b == 43 {
            assert(unsigned_digits(s) =~= Seq::<u8>::empty());
        } else {
            assert(!all_digits(unsigned_digits(s)));
        }
    }
}

/// Two ASCII digits are read as the number they write in base ten, with or
/// without a leading `+`.
pub proof fn law_two_digits(a: u8, b: u8)
    requires
        48 <= a <= 57,
        48 <= b <= 57,
    ensures
        decimal_u16(seq![a, b]) == Some((10 * (a - 48) + (b - 48)) as u16),
        decimal_u16(seq![43u8, a, b]) == Some((10 * (a - 48) + (b - 48)) as u16),
{
    let s = seq![a, b];
    assert(s.drop_last() =~= seq![a]);
    assert(seq![a].drop_last() =~= Seq::<u8>::empty());
    assert(digits_value(Seq::<u8>::empty()) == 0);
    assert(digits_value(seq![a]) == a - 48);
    assert(digits_value(s) == 10 * (a - 48) + (b - 48));
    assert(all_digits(s));
    assert(seq![43u8, a, b].drop_first() =~= s);
}

/// Lines joined back together with a line feed between each two.
pub open spec fn join_lines(ls: Seq<Seq<u8>>) -> Seq<u8>
    decreases ls.len(),
{
    if ls.len() <= 1 {
        if ls.len() == 0 {
            seq![]
        } else {
            ls[0]
        }
    } else {
        ls[0] + seq![10u8] + join_lines(ls.drop_first())
    }
}

/// No byte of `s` is a line feed.
pub open spec fn has_no_newline(s: Seq<u8>) -> bool {
    forall|k: int| 0 <= k < s.len() ==> !is_newline(#[trigger] s[k])
}

proof fn lemma_lines_from(s: Seq<u8>, cur: Seq<u8>)
    ensures
        lines_from(s, cur).len() >= 1,
        join_lines(lines_from(s, cur)) == cur + s,
        has_no_newline(cur) ==> forall|i: int|
            0 <= i < lines_from(s, cur).len() ==> has_no_newline(#[trigger] lines_from(s, cur)[i]),
    decreases s.len(),
{
    if s.len() == 0 {
        assert(cur + s =~= cur);
    } else if is_newline(s[0]) {
        lemma_lines_from(s.drop_first(), seq![]);
        let rest = lines_from(s.drop_first(), seq![]);
        let ls = seq![cur] + rest;
        assert(ls.drop_first() =~= rest);
        assert(ls[0] == cur);
        assert(Seq::<u8>::empty() + s.drop_first() =~= s.drop_first());
        assert(cur + seq![10u8] + s.drop_first() =~= cur + s);
        if has_no_newline(cur) {
            assert(has_no_newline(Seq::<u8>::empty()));
            assert forall|i: int| 0 <= i < ls.len() implies has_no_newline(#[trigger] ls[i]) by {
                if i > 0 {
                    assert(ls[i] == rest[i - 1]);
                }
            }
        }
    } else {
        lemma_lines_from(s.drop_first(), cur.push(s[0]));
        assert(cur.push(s[0]) + s.drop_first() =~= cur + s);
        if has_no_newline(cur) {
            assert(has_no_newline(cur.push(s[0])));
        }
    }
}

/// Cutting a text into lines loses nothing: joined back with line feeds the
/// lines give the text again, and no line holds a line feed.
pub proof fn law_lines_rejoin_to_the_text(s: Seq<u8>)
    ensures
        join_lines(text_lines(s)) == s,
        forall|i: int| 0 <= i < text_lines(s).len() ==> has_no_newline(#[trigger] text_lines(s)[i]),
{
    lemma_lines_from(s, seq![]);
    assert(Seq::<u8>::empty() + s =~= s);
}

/// A word: not empty, and no byte of it is whitespace.
pub open spec fn is_word(w: Seq<u8>) -> bool {
    w.len() > 0 && forall|k: int| 0 <= k < w.len() ==> !is_ascii_ws(#[trigger] w[k])
}

/// The bytes of `s` that are not whitespace, in order.
pub open spec fn non_ws_bytes(s: Seq<u8>) -> Seq<u8> {
    s.filter(not_ws())
}

/// The test for a byte that is not whitespace.
pub open spec fn not_ws() -> spec_fn(u8) -> bool {
    |b: u8| !is_ascii_ws(b)
}

proof fn lemma_words_from(s: Seq<u8>, cur: Seq<u8>)
    requires
        forall|k: int| 0 <= k < cur.len() ==> !is_ascii_ws(#[trigger] cur[k]),
    ensures
        forall|i: int| 0 <= i < words_from(s, cur).len() ==> is_word(#[trigger] words_from(s, cur)[i]),
        words_from(s, cur).flatten() == cur + non_ws_bytes(s),
    decreases s.len(),
{
    let p = not_ws();
    let pend = pending_word(cur);
    assert(pend.flatten() == cur) by {
        if cur.len() == 0 {
            assert(pend =~= Seq::<Seq<u8>>::empty());
        } else {
            pend.lemma_flatten_one_element();
        }
    }
    if s.len() == 0 {
        reveal(Seq::filter);
        assert(non_ws_bytes(s) =~= Seq::<u8>::empty());
        assert(cur + non_ws_bytes(s) =~= cur);
    } else {
        let head = seq![s[0]];
        assert(s =~= head + s.drop_first());
        Seq::filter_distributes_over_add(head, s.drop_first(), p);
        assert(head.drop_last() =~= Seq::<u8>::empty());
        assert(Seq::<u8>::empty().filter(p) =~= Seq::<u8>::empty());
        assert(head.last() == s[0]);
        reveal_with_fuel(Seq::<_>::filter, 2);
        assert(head.drop_last().filter(p) =~= Seq::<u8>::empty());
        if is_ascii_ws(s[0]) {
            assert(head.filter(p) =~= Seq::<u8>::empty());
            lemma_words_from(s.drop_first(), seq![]);
            let rest = words_from(s.drop_first(), seq![]);
            vstd::seq_lib::lemma_flatten_concat(pend, rest);
            assert(Seq::<u8>::empty() + non_ws_bytes(s.drop_first()) =~= non_ws_bytes(
                s.drop_first(),
            ));
            assert(non_ws_bytes(s) =~= non_ws_bytes(s.drop_first()));
            let all = pend + rest;
            assert forall|i: int| 0 <= i < all.len() implies is_word(#[trigger] all[i]) by {
                if i < pend.len() {
                    assert(all[i] == cur);
                } else {
                    assert(all[i] == rest[i - pend.len()]);
                }
            }
        } else {
            assert(head.filter(p) =~= head);
            lemma_words_from(s.drop_first(), cur.push(s[0]));
            assert(non_ws_bytes(s) =~= seq![s[0]] + non_ws_bytes(s.drop_first()));
            assert(cur.push(s[0]) + non_ws_bytes(s.drop_first()) =~= cur + non_ws_bytes(s));
        }
    }
}

/// Cutting a line into words loses only whitespace: every word is a non-empty
/// run without whitespace, and the words put end to end give the line's
/// non-whitespace bytes in order.
pub proof fn law_words_keep_every_other_byte(s: Seq<u8>)
    ensures
        forall|i: int| 0 <= i < words(s).len() ==> is_word(#[trigger] words(s)[i]),
        words(s).flatten() == non_ws_bytes(s),
{
    lemma_words_from(s, seq![]);
    assert(Seq::<u8>::empty() + non_ws_bytes(s) =~= non_ws_bytes(s));
}

/// Whitespace is exactly tab, line feed, form feed, carriage return and space:
/// such a byte alone has no word, and any other byte alone is one word.
pub proof fn law_whitespace_bytes(b: u8)
    ensures
        (b == 9 || b == 10 || b == 12 || b == 13 || b == 32) ==> words(seq![b]).len() == 0,
        !(b == 9 || b == 10 || b == 12 || b == 13 || b == 32) ==> words(seq![b]) == seq![seq![b]],
{
    let s = seq![b];
    let e = Seq::<u8>::empty();
    assert(s.drop_first() =~= e);
    assert(e.push(b) =~= seq![b]);
    assert(pending_word(e) =~= Seq::<Seq<u8>>::empty());
    assert(words_from(e, e) =~= Seq::<Seq<u8>>::empty());
    assert(words_from(e, seq![b]) == seq![seq![b]]);
    if is_ascii_ws(b) {
        assert(words_from(s, e) == pending_word(e) + words_from(e, e));
    } else {
        assert(words_from(s, e) == words_from(e, e.push(b)));
    }
}

/// Reading a number's text digit by digit: appending a decimal digit to the
/// text of `v` (without sign) gives the text of 10 v plus that digit, while it
/// fits in a `u16`, and no number once it does not; appending any other byte
/// gives no number.
pub proof fn law_appending_a_digit(d: Seq<u8>, b: u8)
    requires
        d.len() > 0,
        d[0] != 43,
        decimal_u16(d) is Some,
    ensures
        48 <= b <= 57 && 10 * decimal_u16(d).unwrap() + (b - 48) <= 65535 ==> decimal_u16(d.push(b))
            == Some((10 * decimal_u16(d).unwrap() + (b - 48)) as u16),
        48 <= b <= 57 && 10 * decimal_u16(d).unwrap() + (b - 48) > 65535 ==> decimal_u16(d.push(b))
            is None,
        !(48 <= b <= 57) ==> decimal_u16(d.push(b)) is None,
{
    let e = d.push(b);
    assert(unsigned_digits(d) == d);
    assert(e[0] == d[0]);
    assert(unsigned_digits(e) == e);
    assert(e.drop_last() =~= d);
    assert(e.last() == b);
    if 48 <= b <= 57 {
        assert forall|i: int| 0 <= i < e.len() implies is_digit(#[trigger] e[i]) by {
            if i < d.len() {
                assert(e[i] == d[i]);
            }
        }
    } else {
        assert(!is_digit(e[e.len() - 1]));
    }
}

/// A leading `+` changes nothing: the text of a number (without sign) reads
/// the same with a `+` in front, and a `+` alone is no number.
pub proof fn law_plus_sign_is_optional(d: Seq<u8>)
    requires
        d.len() > 0,
        d[0] != 43,
    ensures
        decimal_u16(seq![43u8] + d) == decimal_u16(d),
        decimal_u16(seq![43u8]) is None,
{
    assert((seq![43u8] + d).drop_first() =~= d);
    assert(seq![43u8].drop_first() =~= Seq::<u8>::empty());
    assert(unsigned_digits(d) == d);
}

/// What one line contributes: a line starting with `v` gives one vertex, its
/// words after the first, and no corners; a line starting with `f` gives no
/// vertex and three corners, each one less than the index it writes; any other
/// line gives nothing.
pub proof fn law_line_contributions(line: Seq<u8>)
    ensures
        line.len() > 0 && line[0] == 118 ==> line_vertex(line) == seq![words(line).skip(1)]
            && line_faces(line).len() == 0,
        line.len() > 0 && line[0] == 102 ==> line_vertex(line).len() == 0 && line_faces(line).len()
            == 3,
        line.len() > 0 && line[0] == 102 && line_loadable(line) ==> forall|k: int|
            0 <= k < 3 ==> #[trigger] line_faces(line)[k] + 1 == decimal_u16(words(line)[k + 1])->0,
        !(line.len() > 0 && (line[0] == 118 || line[0] == 102)) ==> line_vertex(line).len() == 0
            && line_faces(line).len() == 0,
{
    if line.len() > 0 && line[0] == 102 {
        lemma_record_has_a_word(line);
    }
}

/// Which lines load: a `v` line needs at least six words after the first; an
/// `f` line needs at least three words after the first, every one of them the
/// text of a `u16`, the first three at least 1; every other line loads.
pub proof fn law_loadable_lines(line: Seq<u8>)
    ensures
        line.len() > 0 && line[0] == 118 ==> (line_loadable(line) <==> words(line).len() >= 7),
        line.len() > 0 && line[0] == 102 ==> (line_loadable(line) <==> {
            &&& words(line).len() >= 4
            &&& forall|k: int| 1 <= k < words(line).len() ==> (#[trigger] decimal_u16(words(line)[k])) is Some
            &&& decimal_u16(words(line)[1])->0 >= 1
            &&& decimal_u16(words(line)[2])->0 >= 1
            &&& decimal_u16(words(line)[3])->0 >= 1
        }),
        !(line.len() > 0 && (line[0] == 118 || line[0] == 102)) ==> line_loadable(line),
{
    if line.len() > 0 && (line[0] == 118 || line[0] == 102) {
        lemma_record_has_a_word(line);
        if line[0] == 102 {
            let w = words(line);
            let f = record_fields(line);
            if words(line).len() >= 4 {
                assert((forall|k: int| 1 <= k < w.len() ==> (#[trigger] decimal_u16(w[k])) is Some)
                    <==> (forall|k: int| 0 <= k < f.len() ==> (#[trigger] decimal_u16(f[k])) is Some))
                    by {
                    if forall|k: int| 1 <= k < w.len() ==> (#[trigger] decimal_u16(w[k])) is Some {
                        assert forall|k: int| 0 <= k < f.len() implies (#[trigger] decimal_u16(f[k])) is Some by {
                            assert(f[k] == w[k + 1]);
                        }
                    }
                    if forall|k: int| 0 <= k < f.len() ==> (#[trigger] decimal_u16(f[k])) is Some {
                        assert forall|k: int| 1 <= k < w.len() implies (#[trigger] decimal_u16(w[k])) is Some by {
                            assert(w[k] == f[k - 1]);
                        }
                    }
                }
            }
        }
    }
}

/// The corners and vertices of a text are those of its lines, in order: those
/// of two pieces of a list of lines are those of the first piece followed by
/// those of the second.
pub proof fn law_contributions_concatenate(a: Seq<Seq<u8>>, b: Seq<Seq<u8>>)
    ensures
        obj_faces(a + b) == obj_faces(a) + obj_faces(b),
        obj_vertex_fields(a + b) == obj_vertex_fields(a) + obj_vertex_fields(b),
    decreases b.len(),
{
    if b.len() == 0 {
        assert(a + b =~= a);
        assert(obj_faces(a) + obj_faces(b) =~= obj_faces(a));
        assert(obj_vertex_fields(a) + obj_vertex_fields(b) =~= obj_vertex_fields(a));
    } else {
        law_contributions_concatenate(a, b.drop_last());
        assert((a + b).drop_last() =~= a + b.drop_last());
        assert((a + b).last() == b.last());
        assert(obj_faces(a) + obj_faces(b.drop_last()) + line_faces(b.last()) =~= obj_faces(a) + (
        obj_faces(b.drop_last()) + line_faces(b.last())));
        assert(obj_vertex_fields(a) + obj_vertex_fields(b.drop_last()) + line_vertex(b.last())
            =~= obj_vertex_fields(a) + (obj_vertex_fields(b.drop_last()) + line_vertex(b.last())));
    }
}

/// A text loads exactly when each of its lines does, the last one included.
pub proof fn law_text_loads_line_by_line(text: Seq<u8>, i: int)
    ensures
        obj_loadable(text) && 0 <= i < text_lines(text).len() ==> line_loadable(text_lines(text)[i]),
        (forall|k: int| 0 <= k < text_lines(text).len() ==> line_loadable(#[trigger] text_lines(text)[k]))
            ==> obj_loadable(text),
{
}

} // verus!
