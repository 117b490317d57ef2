use gl_puck::obj::parse::tokenize;
use gl_puck::obj::{Corner, Dimension, LoadError, ObjData, Record, Warning, WarningKind};
use std::num::ParseFloatError;
use std::str::FromStr;

/// A single-precision scalar that is kept as its bit pattern.
#[derive(Clone, Copy)]
struct Single(f32);

impl FromStr for Single {
    type Err = ParseFloatError;

    fn from_str(s: &str) -> Result<Self, Self::Err> {
        f32::from_str(s).map(Single)
    }
}

impl From<Single> for u32 {
    fn from(v: Single) -> u32 {
        v.0.to_bits()
    }
}

/// A scalar that reads whole numbers only.
#[derive(Clone, Copy)]
struct Whole(u32);

impl FromStr for Whole {
    type Err = std::num::ParseIntError;

    fn from_str(s: &str) -> Result<Self, Self::Err> {
        u32::from_str(s).map(Whole)
    }
}

impl From<Whole> for u32 {
    fn from(v: Whole) -> u32 {
        v.0
    }
}

fn bits(x: f32) -> u32 {
    x.to_bits()
}

fn floats(words: &Vec<u32>) -> Vec<f32> {
    words.iter().map(|w| f32::from_bits(*w)).collect()
}

#[test]
fn tokenize_reads_each_kind_of_line() {
    let text = "v 1.0 2.0 3.0\nv 4 5\nvt 0.5\nvt 0.5 0.25\nvt 0.5 0.25 0.125\nvn 0 0 -1\n";
    let records = tokenize::<Single>(text);
    assert_eq!(
        records,
        vec![
            Record::Position3 { x: bits(1.0), y: bits(2.0), z: bits(3.0) },
            Record::Position2 { x: bits(4.0), y: bits(5.0) },
            Record::TexCoord1 { u: bits(0.5) },
            Record::TexCoord2 { u: bits(0.5), v: bits(0.25) },
            Record::TexCoord3 { u: bits(0.5), v: bits(0.25), w: bits(0.125) },
            Record::Normal { x: bits(0.0), y: bits(0.0), z: bits(-1.0) },
            Record::Blank,
        ]
    );
}

#[test]
fn tokenize_reads_faces() {
    let text = "f 1/2/3 4//5 6/7/\nf 1// 2// 3// 4//\nf -1/-2/-3 -4// -5//";
    let records = tokenize::<Single>(text);
    assert_eq!(
        records,
        vec![
            Record::Face3 {
                v1: Corner { pos: 1, tex: Some(2), norm: Some(3) },
                v2: Corner { pos: 4, tex: None, norm: Some(5) },
                v3: Corner { pos: 6, tex: Some(7), norm: None },
            },
            Record::Face4 {
                v1: Corner { pos: 1, tex: None, norm: None },
                v2: Corner { pos: 2, tex: None, norm: None },
                v3: Corner { pos: 3, tex: None, norm: None },
                v4: Corner { pos: 4, tex: None, norm: None },
            },
            Record::Face3 {
                v1: Corner { pos: -1, tex: Some(-2), norm: Some(-3) },
                v2: Corner { pos: -4, tex: None, norm: None },
                v3: Corner { pos: -5, tex: None, norm: None },
            },
        ]
    );
}

#[test]
fn tokenize_keeps_one_record_for_each_line() {
    let records = tokenize::<Single>("# a comment\n\n   \nv 1 2 3 # trailing\r\ng group\nf 1 2 3\n");
    assert_eq!(
        records,
        vec![
            Record::Blank,
            Record::Blank,
            Record::Blank,
            Record::Position3 { x: bits(1.0), y: bits(2.0), z: bits(3.0) },
            Record::Malformed,
            Record::Malformed,
            Record::Blank,
        ]
    );
}

#[test]
fn tokenize_of_empty_text_is_one_blank_line() {
    assert_eq!(tokenize::<Single>(""), vec![Record::Blank]);
}

#[test]
fn tokenize_yields_one_record_more_than_line_feeds() {
    for text in ["", "\n", "\n\n\n", "v 1 2 3", "v 1 2 3\n", "v 1 2 3\r\nv 4 5 6", "# caf\u{e9}\n\u{1F600}\nv 1 2 3"] {
        let feeds = text.chars().filter(|c| *c == '\n').count();
        assert_eq!(tokenize::<Single>(text).len(), feeds + 1, "{:?}", text);
    }
}

#[test]
fn tokenize_keeps_the_order_of_many_lines() {
    let mut text = String::new();
    for i in 0..20000 {
        text.push_str(&format!("v {} 0 0\n", i));
    }
    let records = tokenize::<Whole>(&text);
    assert_eq!(records.len(), 20001);
    for i in 0..20000u32 {
        assert_eq!(records[i as usize], Record::Position3 { x: i, y: 0, z: 0 });
    }
    assert_eq!(records[20000], Record::Blank);
}

#[test]
fn scalars_are_read_by_the_named_type() {
    let text = "v 1 2 3\nv 1.5 2 3\n";
    assert_eq!(
        tokenize::<Whole>(text),
        vec![Record::Position3 { x: 1, y: 2, z: 3 }, Record::Malformed, Record::Blank]
    );
    assert_eq!(
        tokenize::<Single>(text),
        vec![
            Record::Position3 { x: bits(1.0), y: bits(2.0), z: bits(3.0) },
            Record::Position3 { x: bits(1.5), y: bits(2.0), z: bits(3.0) },
            Record::Blank,
        ]
    );
}

#[test]
fn load_reads_a_textured_square() {
    let text = "\
v 0 0 0
v 1 0 0
v 1 1 0
v 0 1 0
vt 0 0
vt 1 0
vt 1 1
vt 0 1
f 1/1/ 2/2/ 3/3/ 4/4/";
    let mut d: ObjData<u32> = ObjData::new(Dimension::ThreeDim, Some(Dimension::TwoDim), None);
    assert_eq!(d.load::<Single>(text), Ok(vec![]));
    assert_eq!(d.pos_data.len(), 4);
    assert_eq!(d.tex_data.as_ref().unwrap().len(), 4);
    assert_eq!(d.indicies, vec![0, 1, 2, 2, 3, 0]);
    assert_eq!(
        floats(d.pos_data.get_vals()),
        vec![0.0, 0.0, 0.0, 1.0, 0.0, 0.0, 1.0, 1.0, 0.0, 0.0, 1.0, 0.0]
    );
    assert_eq!(
        floats(d.tex_data.as_mut().unwrap().get_vals()),
        vec![0.0, 0.0, 1.0, 0.0, 1.0, 1.0, 0.0, 1.0]
    );
}

#[test]
fn face_corner_needs_both_separators() {
    let text = "v 0 0 0\nvt 0 0\nf 1/1 1/1 1/1\nf 1/1/ 1/1/ 1/1/";
    let mut d: ObjData<u32> = ObjData::new(Dimension::ThreeDim, Some(Dimension::TwoDim), None);
    assert_eq!(d.load::<Single>(text), Ok(vec![Warning { line: 2, kind: WarningKind::Malformed }]));
    assert_eq!(d.indicies, vec![0, 0, 0]);
}

#[test]
fn load_reads_two_triangles_sharing_an_edge() {
    let text = "v 0 0 0\nv 1 0 0\nv 0 1 0\nv 1 1 0\nf 1// 2// 3//\nf 3// 2// 4//\n";
    let mut d: ObjData<u16> = ObjData::new(Dimension::ThreeDim, None, None);
    assert_eq!(d.load::<Single>(text), Ok(vec![]));
    assert_eq!(d.pos_data.len(), 4);
    assert_eq!(d.indicies, vec![0, 1, 2, 2, 1, 3]);
}

#[test]
fn load_resolves_minus_one_at_the_face() {
    let text = "v 1 0 0\nv 2 0 0\nf -1// -1// -2//\nv 3 0 0\nf -1// -2// -3//";
    let mut d: ObjData<u8> = ObjData::new(Dimension::ThreeDim, None, None);
    assert_eq!(d.load::<Single>(text), Ok(vec![]));
    assert_eq!(d.indicies, vec![0, 0, 1, 2, 0, 1]);
    assert_eq!(floats(d.pos_data.get_vals()), vec![2.0, 0.0, 0.0, 1.0, 0.0, 0.0, 3.0, 0.0, 0.0]);
}

#[test]
fn load_tells_equal_numbers_with_different_patterns_apart() {
    let text = "v 0.0 0 0\nv -0.0 0 0\nv 0.00 0 0\nf 1// 2// 3//";
    let mut d: ObjData<u8> = ObjData::new(Dimension::ThreeDim, None, None);
    assert_eq!(d.load::<Single>(text), Ok(vec![]));
    assert_eq!(d.indicies, vec![0, 1, 0]);
    assert_eq!(*d.pos_data.get_vals(), vec![0, 0, 0, 0x8000_0000, 0, 0]);
}

#[test]
fn load_warns_of_lines_it_leaves_out() {
    let text = "mtllib a.mtl\nv 1 2\nv 1 2 3\nvt 1 2 3\nf 1// 1// 1//\nf 1 1 1";
    let mut d: ObjData<u8> = ObjData::new(Dimension::ThreeDim, Some(Dimension::TwoDim), None);
    assert_eq!(
        d.load::<Single>(text),
        Ok(vec![
            Warning { line: 0, kind: WarningKind::Malformed },
            Warning { line: 1, kind: WarningKind::ArityMismatch },
            Warning { line: 3, kind: WarningKind::ArityMismatch },
            Warning { line: 5, kind: WarningKind::Malformed },
        ])
    );
    assert_eq!(d.indicies, vec![0, 0, 0]);
}

#[test]
fn load_fails_on_a_reference_out_of_range() {
    let mut d: ObjData<u8> = ObjData::new(Dimension::ThreeDim, None, None);
    assert_eq!(d.load::<Single>("v 1 2 3\nf 1// 2// 1//"), Err(LoadError::OutOfRangeReference));
    assert!(d.indicies.is_empty());
    assert_eq!(d.pos_data.len(), 0);
}

#[test]
fn load_of_257_vertices_needs_more_than_eight_bits() {
    let mut text = String::new();
    for i in 0..257 {
        text.push_str(&format!("v {} 0 0\n", i));
    }
    for i in 0..257 {
        text.push_str(&format!("f {}// {}// {}//\n", i + 1, i + 1, i + 1));
    }
    let mut narrow: ObjData<u8> = ObjData::new(Dimension::ThreeDim, None, None);
    assert_eq!(narrow.load::<Single>(&text), Err(LoadError::IndexOverflow));
    let mut wide: ObjData<u16> = ObjData::new(Dimension::ThreeDim, None, None);
    assert_eq!(wide.load::<Single>(&text), Ok(vec![]));
    assert_eq!(wide.pos_data.len(), 257);
    assert_eq!(wide.indicies.len(), 771);
    assert_eq!(wide.indicies[770], 256);
}
