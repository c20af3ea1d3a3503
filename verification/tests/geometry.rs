//! Interpreter, primitive conversion and extraction on concrete inputs.

use svg_tess::extract::{
    parse_svg_content, split_numbers, ParsedPath, D_ATTR_PATTERN, extract_attr,
};
use svg_tess::interpreter::{interpret_commands, GeometryDirective};
use svg_tess::path_data::{parse_svg_path_d, PathCommand};
use svg_tess::primitives::{circle_to_path, polygon_to_path, rect_to_path, CIRCLE_K_BITS};
use svg_tess::tokenizer::tokenize_svg_path;

fn interpret(d: &str) -> Vec<GeometryDirective> {
    interpret_commands(&parse_svg_path_d(&tokenize_svg_path(d)))
}

fn line(x: f32, y: f32) -> GeometryDirective {
    GeometryDirective::LineTo {
        x: x.to_bits(),
        y: y.to_bits(),
    }
}

fn begin(x: f32, y: f32) -> GeometryDirective {
    GeometryDirective::BeginAt {
        x: x.to_bits(),
        y: y.to_bits(),
    }
}

#[test]
fn circle_k_constant_matches() {
    assert_eq!(CIRCLE_K_BITS, 0.5522847498f32.to_bits());
}

#[test]
fn close_resets_pen_for_following_line() {
    // The relative line after the Close begins a new subpath at the
    // subpath start (1,2) and draws from there — not from the pen
    // position (5,6) before closing.
    let ds = interpret("M1,2 L5,6 Z l1,1");
    assert_eq!(
        ds,
        vec![
            begin(1.0, 2.0),
            line(5.0, 6.0),
            GeometryDirective::Close,
            begin(1.0, 2.0),
            line(2.0, 3.0),
        ]
    );
}

#[test]
fn drawing_without_open_subpath_begins_one() {
    // A drawing command before any move begins a subpath at the origin.
    let ds = interpret("L5,5");
    assert_eq!(ds, vec![begin(0.0, 0.0), line(5.0, 5.0)]);
    // A close with no open subpath emits nothing.
    let ds2 = interpret("Z");
    assert_eq!(ds2, Vec::<GeometryDirective>::new());
    // After a close, a second close emits nothing more.
    let ds3 = interpret("M1,1 L2,2 Z Z");
    assert_eq!(
        ds3,
        vec![begin(1.0, 1.0), line(2.0, 2.0), GeometryDirective::Close]
    );
}

#[test]
fn smooth_cubic_reflects_only_after_cubic() {
    // After a cubic, the smooth control point is 2*current - lastControl.
    let ds = interpret("M0,0 C0,1 2,3 4,5 S6,7 8,9");
    assert_eq!(
        ds[2],
        GeometryDirective::CubicTo {
            c1x: (2.0f32 * 4.0 - 2.0).to_bits(),
            c1y: (2.0f32 * 5.0 - 3.0).to_bits(),
            c2x: 6f32.to_bits(),
            c2y: 7f32.to_bits(),
            x: 8f32.to_bits(),
            y: 9f32.to_bits(),
        }
    );
    // Without a preceding cubic, it is the current pen position exactly.
    let ds2 = interpret("M1,1 S6,7 8,9");
    assert_eq!(
        ds2[1],
        GeometryDirective::CubicTo {
            c1x: 1f32.to_bits(),
            c1y: 1f32.to_bits(),
            c2x: 6f32.to_bits(),
            c2y: 7f32.to_bits(),
            x: 8f32.to_bits(),
            y: 9f32.to_bits(),
        }
    );
}

#[test]
fn smooth_quad_reflects_only_after_quadratic() {
    let ds = interpret("M0,0 Q1,2 3,4 T5,6");
    assert_eq!(
        ds[2],
        GeometryDirective::QuadraticTo {
            cx: (2.0f32 * 3.0 - 1.0).to_bits(),
            cy: (2.0f32 * 4.0 - 2.0).to_bits(),
            x: 5f32.to_bits(),
            y: 6f32.to_bits(),
        }
    );
    // A line between breaks the family: the control is the pen position.
    let ds2 = interpret("M0,0 Q1,2 3,4 L3,4 T5,6");
    assert_eq!(
        ds2[3],
        GeometryDirective::QuadraticTo {
            cx: 3f32.to_bits(),
            cy: 4f32.to_bits(),
            x: 5f32.to_bits(),
            y: 6f32.to_bits(),
        }
    );
}

#[test]
fn zero_radius_arc_is_one_line() {
    let ds = interpret("M0,0 A0,5 0 0 0 10,10");
    assert_eq!(ds, vec![begin(0.0, 0.0), line(10.0, 10.0)]);
    let ds2 = interpret("M0,0 A5,0 0 0 0 10,10");
    assert_eq!(ds2, vec![begin(0.0, 0.0), line(10.0, 10.0)]);
}

#[test]
fn tiny_arc_degrades_to_line() {
    // A chord below the degeneracy threshold becomes a straight line.
    let ds = interpret("M0,0 A1 1 0 0 0 2e-23 0");
    assert_eq!(ds, vec![begin(0.0, 0.0), line(2e-23, 0.0)]);
    // So does an arc with a tiny (but nonzero) radius.
    let ds2 = interpret("M0,0 A1e-7,1e-7 0 0 0 5,5");
    assert_eq!(ds2, vec![begin(0.0, 0.0), line(5.0, 5.0)]);
}

#[test]
fn curved_arc_flattens_to_quadratics() {
    let ds = interpret("M0,0 A5,5 0 0 1 10,0");
    assert!(ds.len() > 1);
    for d in &ds[1..] {
        assert!(matches!(d, GeometryDirective::QuadraticTo { .. }));
    }
}

#[test]
fn hline_and_vline_keep_other_axis() {
    let ds = interpret("M1,2 H10 V20");
    assert_eq!(
        ds,
        vec![begin(1.0, 2.0), line(10.0, 2.0), line(10.0, 20.0)]
    );
}

#[test]
fn circle_path_is_four_cubics_from_east() {
    let d = circle_to_path(0f32.to_bits(), 0f32.to_bits(), 10f32.to_bits());
    let cmds = parse_svg_path_d(&tokenize_svg_path(d.as_str()));
    assert_eq!(cmds.len(), 6);
    assert_eq!(
        cmds[0],
        PathCommand::MoveTo {
            x: 10f32.to_bits(),
            y: 0f32.to_bits(),
            relative: false
        }
    );
    let mut cubics = 0;
    for c in &cmds[1..5] {
        assert!(matches!(c, PathCommand::CubicTo { .. }));
        cubics += 1;
    }
    assert_eq!(cubics, 4);
    // The last cubic ends where the path started: at (10, 0).
    match cmds[4] {
        PathCommand::CubicTo { x, y, .. } => {
            assert_eq!(x, 10f32.to_bits());
            assert_eq!(y, 0f32.to_bits());
        }
        _ => unreachable!(),
    }
    assert_eq!(cmds[5], PathCommand::Close);
}

#[test]
fn rect_path_text_and_shape() {
    let d = rect_to_path(
        0f32.to_bits(),
        0f32.to_bits(),
        10f32.to_bits(),
        5f32.to_bits(),
    );
    assert_eq!(d, "M0,0 L10,0 L10,5 L0,5 L0,0 Z");
    let ds = interpret(d.as_str());
    assert_eq!(
        ds,
        vec![
            begin(0.0, 0.0),
            line(10.0, 0.0),
            line(10.0, 5.0),
            line(0.0, 5.0),
            line(0.0, 0.0),
            GeometryDirective::Close,
        ]
    );
}

#[test]
fn polygon_path_drops_odd_trailing_coordinate() {
    let pts: Vec<u32> = [0.0f32, 0.0, 10.0, 0.0, 5.0]
        .iter()
        .map(|v| v.to_bits())
        .collect();
    let d = polygon_to_path(&pts).unwrap();
    assert_eq!(d, "M0,0 L10,0 Z");
}

#[test]
fn polygon_path_needs_two_pairs() {
    let pts: Vec<u32> = vec![0, 0, 0];
    assert!(polygon_to_path(&pts).is_none());
    let ok: Vec<u32> = vec![0, 0, 0, 0];
    assert!(polygon_to_path(&ok).is_some());
}

#[test]
fn split_numbers_drops_empty_and_bad_fields() {
    let nums = split_numbers("0 0, 100  50");
    let want: Vec<u32> = [0.0f32, 0.0, 100.0, 50.0]
        .iter()
        .map(|v| v.to_bits())
        .collect();
    assert_eq!(nums, want);
    assert_eq!(split_numbers("1 abc 2"), vec![1f32.to_bits(), 2f32.to_bits()]);
    assert_eq!(split_numbers(""), Vec::<u32>::new());
}

#[test]
fn extract_attr_reads_quoted_values() {
    let elem = "<path d=\"M0,0\" fill='red'/>";
    assert_eq!(
        extract_attr(elem, D_ATTR_PATTERN),
        Some("M0,0".to_string())
    );
}

#[test]
fn parse_svg_content_reads_dimensions_and_path() {
    let svg = "<svg width=\"48\" height=\"24\"><path d=\"M0,0 L10,10\" fill=\"red\" stroke=\"blue\" stroke-width=\"2\"/></svg>";
    let doc = parse_svg_content(svg);
    assert_eq!(doc.width, 48f32.to_bits());
    assert_eq!(doc.height, 24f32.to_bits());
    assert!(doc.view_box.is_none());
    assert_eq!(
        doc.paths,
        vec![ParsedPath {
            fill: Some("red".to_string()),
            stroke: Some("blue".to_string()),
            stroke_width: Some(2f32.to_bits()),
            d: "M0,0 L10,10".to_string(),
        }]
    );
}

#[test]
fn parse_svg_content_defaults_to_24() {
    let doc = parse_svg_content("<svg><path d=\"M0,0\"/></svg>");
    assert_eq!(doc.width, 24f32.to_bits());
    assert_eq!(doc.height, 24f32.to_bits());
}

#[test]
fn parse_svg_content_view_box_overrides_dimensions() {
    let doc = parse_svg_content("<svg width=\"48\" height=\"48\" viewBox=\"0 0 100 50\"></svg>");
    let vb = doc.view_box.unwrap();
    assert_eq!(vb.x, 0f32.to_bits());
    assert_eq!(vb.y, 0f32.to_bits());
    assert_eq!(vb.width, 100f32.to_bits());
    assert_eq!(vb.height, 50f32.to_bits());
    assert_eq!(doc.width, 100f32.to_bits());
    assert_eq!(doc.height, 50f32.to_bits());
}

#[test]
fn parse_svg_content_converts_primitives() {
    let svg = "<svg><circle cx=\"0\" cy=\"0\" r=\"10\" fill=\"red\"/><rect x=\"1\" y=\"2\" width=\"3\" height=\"4\"/><polygon points=\"0,0 10,0 10,10\"/></svg>";
    let doc = parse_svg_content(svg);
    assert_eq!(doc.paths.len(), 3);
    let circle_d = circle_to_path(0f32.to_bits(), 0f32.to_bits(), 10f32.to_bits());
    assert_eq!(doc.paths[0].d, circle_d);
    assert_eq!(doc.paths[0].fill, Some("red".to_string()));
    assert_eq!(doc.paths[1].d, "M1,2 L4,2 L4,6 L1,6 L1,2 Z");
    assert_eq!(doc.paths[2].d, "M0,0 L10,0 L10,10 Z");
}

#[test]
fn parse_svg_content_rect_defaults_position_to_zero() {
    let doc = parse_svg_content("<svg><rect width=\"10\" height=\"5\"/></svg>");
    assert_eq!(doc.paths.len(), 1);
    assert_eq!(doc.paths[0].d, "M0,0 L10,0 L10,5 L0,5 L0,0 Z");
}

#[test]
fn parse_svg_content_skips_incomplete_primitives() {
    let doc = parse_svg_content("<svg><circle cx=\"0\" cy=\"0\"/><rect width=\"10\"/><polygon points=\"0,0\"/></svg>");
    assert_eq!(doc.paths.len(), 0);
}
