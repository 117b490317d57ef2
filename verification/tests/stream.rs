use gl_puck::obj::record::{Corner, Record};
use gl_puck::obj::store::Dimension;
use gl_puck::obj::stream::{
    accumulate_records, check_record, resolve_index, Accumulator, CornerRef, Layout, Slot, Warning,
    WarningKind,
};

fn plain(pos: isize) -> Corner {
    Corner { pos, tex: None, norm: None }
}

fn full(pos: isize, tex: isize, norm: isize) -> Corner {
    Corner { pos, tex: Some(tex), norm: Some(norm) }
}

fn positions_only() -> Layout {
    Layout { pos: Dimension::ThreeDim, tex: None, norm: None }
}

fn everything() -> Layout {
    Layout { pos: Dimension::ThreeDim, tex: Some(Dimension::TwoDim), norm: Some(Dimension::ThreeDim) }
}

#[test]
fn positive_index_counts_from_one() {
    assert_eq!(resolve_index(1, 0), Slot::At(0));
    assert_eq!(resolve_index(1, 5), Slot::At(0));
    assert_eq!(resolve_index(5, 5), Slot::At(4));
    assert_eq!(resolve_index(9, 5), Slot::At(8));
}

#[test]
fn negative_index_counts_back_from_the_end() {
    assert_eq!(resolve_index(-1, 5), Slot::At(4));
    assert_eq!(resolve_index(-5, 5), Slot::At(0));
    assert_eq!(resolve_index(-1, 1), Slot::At(0));
}

#[test]
fn index_zero_names_nothing() {
    assert_eq!(resolve_index(0, 0), Slot::Dangling);
    assert_eq!(resolve_index(0, 7), Slot::Dangling);
}

#[test]
fn negative_index_past_the_start_names_nothing() {
    assert_eq!(resolve_index(-1, 0), Slot::Dangling);
    assert_eq!(resolve_index(-6, 5), Slot::Dangling);
    assert_eq!(resolve_index(isize::MIN, 5), Slot::Dangling);
    assert_eq!(resolve_index(isize::MIN, usize::MAX), Slot::At((usize::MAX >> 1) as usize));
}

#[test]
fn largest_positive_index_resolves() {
    assert_eq!(resolve_index(isize::MAX, 0), Slot::At((isize::MAX - 1) as usize));
}

#[test]
fn new_accumulator_has_read_nothing() {
    let acc = Accumulator::new(everything());
    assert_eq!(acc.positions(), 0);
    assert_eq!(acc.corner_count(), 0);
}

#[test]
fn position_of_the_wanted_dimension_is_kept() {
    let mut acc = Accumulator::new(positions_only());
    acc.push(&Record::Position3 { x: 1, y: 2, z: 3 });
    assert_eq!(acc.positions(), 1);
    acc.push(&Record::Position2 { x: 1, y: 2 });
    assert_eq!(acc.positions(), 1);
}

#[test]
fn two_component_positions_for_a_two_component_layout() {
    let mut acc = Accumulator::new(Layout { pos: Dimension::TwoDim, tex: None, norm: None });
    acc.push(&Record::Position3 { x: 1, y: 2, z: 3 });
    assert_eq!(acc.positions(), 0);
    acc.push(&Record::Position2 { x: 1, y: 2 });
    assert_eq!(acc.positions(), 1);
}

#[test]
fn one_component_layout_keeps_no_position() {
    let mut acc = Accumulator::new(Layout { pos: Dimension::OneDim, tex: None, norm: None });
    acc.push(&Record::Position3 { x: 1, y: 2, z: 3 });
    acc.push(&Record::Position2 { x: 1, y: 2 });
    assert_eq!(acc.positions(), 0);
}

#[test]
fn triangle_adds_three_corners_in_order() {
    let mut acc = Accumulator::new(positions_only());
    acc.push(&Record::Position3 { x: 1, y: 0, z: 0 });
    acc.push(&Record::Position3 { x: 2, y: 0, z: 0 });
    acc.push(&Record::Position3 { x: 3, y: 0, z: 0 });
    acc.push(&Record::Face3 { v1: plain(3), v2: plain(1), v3: plain(2) });
    assert_eq!(acc.corner_count(), 3);
    assert_eq!(acc.corner(0).pos, Slot::At(2));
    assert_eq!(acc.corner(1).pos, Slot::At(0));
    assert_eq!(acc.corner(2).pos, Slot::At(1));
}

#[test]
fn quad_is_cut_into_two_triangles() {
    let mut acc = Accumulator::new(positions_only());
    for x in 0..4u32 {
        acc.push(&Record::Position3 { x, y: 0, z: 0 });
    }
    acc.push(&Record::Face4 { v1: plain(1), v2: plain(2), v3: plain(3), v4: plain(4) });
    assert_eq!(acc.corner_count(), 6);
    let got: Vec<Slot> = (0..6).map(|k| acc.corner(k).pos).collect();
    assert_eq!(
        got,
        vec![Slot::At(0), Slot::At(1), Slot::At(2), Slot::At(2), Slot::At(3), Slot::At(0)]
    );
}

#[test]
fn relative_index_is_resolved_when_the_face_is_read() {
    let mut acc = Accumulator::new(positions_only());
    acc.push(&Record::Position3 { x: 10, y: 0, z: 0 });
    acc.push(&Record::Position3 { x: 20, y: 0, z: 0 });
    acc.push(&Record::Face3 { v1: plain(-1), v2: plain(-2), v3: plain(-1) });
    acc.push(&Record::Position3 { x: 30, y: 0, z: 0 });
    acc.push(&Record::Face3 { v1: plain(-1), v2: plain(-2), v3: plain(-3) });
    assert_eq!(acc.corner(0).pos, Slot::At(1));
    assert_eq!(acc.corner(1).pos, Slot::At(0));
    assert_eq!(acc.corner(2).pos, Slot::At(1));
    assert_eq!(acc.corner(3).pos, Slot::At(2));
    assert_eq!(acc.corner(4).pos, Slot::At(1));
    assert_eq!(acc.corner(5).pos, Slot::At(0));
    assert_eq!(acc.vertex(0).unwrap().pos, vec![20, 0, 0]);
    assert_eq!(acc.vertex(3).unwrap().pos, vec![30, 0, 0]);
}

#[test]
fn references_into_unwanted_streams_are_absent() {
    let mut acc = Accumulator::new(positions_only());
    acc.push(&Record::Position3 { x: 1, y: 2, z: 3 });
    acc.push(&Record::Normal { x: 0, y: 0, z: 1 });
    acc.push(&Record::TexCoord2 { u: 5, v: 6 });
    acc.push(&Record::Face3 { v1: full(1, 1, 1), v2: full(1, 7, 0), v3: full(1, -9, -9) });
    for k in 0..3 {
        assert_eq!(
            acc.corner(k),
            CornerRef { pos: Slot::At(0), tex: Slot::Absent, norm: Slot::Absent }
        );
        let v = acc.vertex(k).unwrap();
        assert_eq!(v.pos, vec![1, 2, 3]);
        assert_eq!(v.tex, None);
        assert_eq!(v.norm, None);
    }
}

#[test]
fn each_reference_is_resolved_against_its_own_stream() {
    let mut acc = Accumulator::new(everything());
    acc.push(&Record::Position3 { x: 1, y: 2, z: 3 });
    acc.push(&Record::Position3 { x: 4, y: 5, z: 6 });
    acc.push(&Record::TexCoord2 { u: 7, v: 8 });
    acc.push(&Record::Normal { x: 9, y: 10, z: 11 });
    acc.push(&Record::Normal { x: 12, y: 13, z: 14 });
    acc.push(&Record::Normal { x: 15, y: 16, z: 17 });
    acc.push(&Record::Face3 {
        v1: full(-1, -1, -1),
        v2: full(1, 1, 1),
        v3: Corner { pos: 2, tex: None, norm: Some(2) },
    });
    assert_eq!(acc.corner(0), CornerRef { pos: Slot::At(1), tex: Slot::At(0), norm: Slot::At(2) });
    assert_eq!(acc.corner(1), CornerRef { pos: Slot::At(0), tex: Slot::At(0), norm: Slot::At(0) });
    assert_eq!(acc.corner(2), CornerRef { pos: Slot::At(1), tex: Slot::Absent, norm: Slot::At(1) });
    let v = acc.vertex(0).unwrap();
    assert_eq!(v.pos, vec![4, 5, 6]);
    assert_eq!(v.tex, Some(vec![7, 8]));
    assert_eq!(v.norm, Some(vec![15, 16, 17]));
    let w = acc.vertex(2).unwrap();
    assert_eq!(w.pos, vec![4, 5, 6]);
    assert_eq!(w.tex, None);
    assert_eq!(w.norm, Some(vec![12, 13, 14]));
}

#[test]
fn vertex_out_of_range_is_none() {
    let mut acc = Accumulator::new(everything());
    acc.push(&Record::Position3 { x: 1, y: 2, z: 3 });
    acc.push(&Record::Face3 { v1: plain(1), v2: plain(2), v3: plain(0) });
    acc.push(&Record::Face3 { v1: plain(-2), v2: full(1, 1, 1), v3: full(1, -1, -1) });
    assert!(acc.vertex(0).is_some());
    assert!(acc.vertex(1).is_none());
    assert!(acc.vertex(2).is_none());
    assert!(acc.vertex(3).is_none());
    assert!(acc.vertex(4).is_none());
    assert!(acc.vertex(5).is_none());
}

#[test]
fn absolute_index_may_name_a_later_element() {
    let mut acc = Accumulator::new(positions_only());
    acc.push(&Record::Face3 { v1: plain(1), v2: plain(2), v3: plain(3) });
    assert!(acc.vertex(0).is_none());
    acc.push(&Record::Position3 { x: 1, y: 0, z: 0 });
    acc.push(&Record::Position3 { x: 2, y: 0, z: 0 });
    acc.push(&Record::Position3 { x: 3, y: 0, z: 0 });
    assert_eq!(acc.vertex(0).unwrap().pos, vec![1, 0, 0]);
    assert_eq!(acc.vertex(2).unwrap().pos, vec![3, 0, 0]);
}

#[test]
fn normals_are_kept_only_in_three_components() {
    let layout = Layout { pos: Dimension::ThreeDim, tex: None, norm: Some(Dimension::TwoDim) };
    let mut acc = Accumulator::new(layout);
    acc.push(&Record::Position3 { x: 1, y: 2, z: 3 });
    acc.push(&Record::Normal { x: 0, y: 0, z: 1 });
    acc.push(&Record::Face3 { v1: full(1, 1, 1), v2: plain(1), v3: plain(1) });
    assert!(acc.vertex(0).is_none());
    assert!(acc.vertex(1).is_some());
    assert_eq!(
        check_record(&layout, &Record::Normal { x: 0, y: 0, z: 1 }),
        Some(WarningKind::ArityMismatch)
    );
}

#[test]
fn texcoords_are_kept_in_the_wanted_dimension() {
    for (dim, kept) in [(Dimension::OneDim, 0usize), (Dimension::TwoDim, 1), (Dimension::ThreeDim, 2)] {
        let layout = Layout { pos: Dimension::ThreeDim, tex: Some(dim), norm: None };
        let records = vec![
            Record::TexCoord1 { u: 1 },
            Record::TexCoord2 { u: 2, v: 3 },
            Record::TexCoord3 { u: 4, v: 5, w: 6 },
        ];
        let (_, found) = accumulate_records(layout, &records);
        let lines: Vec<usize> = found.iter().map(|w| w.line).collect();
        let want: Vec<usize> = (0..3).filter(|l| *l != kept).collect();
        assert_eq!(lines, want);
        for w in found {
            assert_eq!(w.kind, WarningKind::ArityMismatch);
        }
    }
}

#[test]
fn check_record_reports_what_is_left_out() {
    let layout = everything();
    assert_eq!(check_record(&layout, &Record::Malformed), Some(WarningKind::Malformed));
    assert_eq!(check_record(&layout, &Record::Blank), None);
    assert_eq!(check_record(&layout, &Record::Position3 { x: 0, y: 0, z: 0 }), None);
    assert_eq!(
        check_record(&layout, &Record::Position2 { x: 0, y: 0 }),
        Some(WarningKind::ArityMismatch)
    );
    assert_eq!(check_record(&layout, &Record::TexCoord2 { u: 0, v: 0 }), None);
    assert_eq!(
        check_record(&layout, &Record::TexCoord1 { u: 0 }),
        Some(WarningKind::ArityMismatch)
    );
    assert_eq!(
        check_record(&layout, &Record::TexCoord3 { u: 0, v: 0, w: 0 }),
        Some(WarningKind::ArityMismatch)
    );
    assert_eq!(check_record(&layout, &Record::Normal { x: 0, y: 0, z: 0 }), None);
    assert_eq!(
        check_record(&layout, &Record::Face3 { v1: plain(0), v2: plain(0), v3: plain(0) }),
        None
    );
}

#[test]
fn records_for_unwanted_streams_pass_without_warning() {
    let layout = positions_only();
    assert_eq!(check_record(&layout, &Record::Normal { x: 0, y: 0, z: 0 }), None);
    assert_eq!(check_record(&layout, &Record::TexCoord1 { u: 0 }), None);
    assert_eq!(check_record(&layout, &Record::TexCoord2 { u: 0, v: 0 }), None);
    assert_eq!(check_record(&layout, &Record::TexCoord3 { u: 0, v: 0, w: 0 }), None);
}

#[test]
fn accumulate_records_reads_in_order_and_warns_by_line() {
    let records = vec![
        Record::Position3 { x: 1, y: 0, z: 0 },
        Record::Malformed,
        Record::Position2 { x: 9, y: 9 },
        Record::Blank,
        Record::Position3 { x: 2, y: 0, z: 0 },
        Record::Position3 { x: 3, y: 0, z: 0 },
        Record::Face3 { v1: plain(1), v2: plain(2), v3: plain(-1) },
        Record::Malformed,
    ];
    let (acc, found) = accumulate_records(positions_only(), &records);
    assert_eq!(acc.positions(), 3);
    assert_eq!(acc.corner_count(), 3);
    assert_eq!(acc.vertex(2).unwrap().pos, vec![3, 0, 0]);
    assert_eq!(
        found,
        vec![
            Warning { line: 1, kind: WarningKind::Malformed },
            Warning { line: 2, kind: WarningKind::ArityMismatch },
            Warning { line: 7, kind: WarningKind::Malformed },
        ]
    );
}

#[test]
fn corner_count_is_a_multiple_of_three() {
    let records = vec![
        Record::Face3 { v1: plain(1), v2: plain(1), v3: plain(1) },
        Record::Face4 { v1: plain(1), v2: plain(1), v3: plain(1), v4: plain(1) },
        Record::Face4 { v1: plain(1), v2: plain(1), v3: plain(1), v4: plain(1) },
    ];
    let (acc, _) = accumulate_records(positions_only(), &records);
    assert_eq!(acc.corner_count(), 15);
    assert_eq!(acc.corner_count() % 3, 0);
}
