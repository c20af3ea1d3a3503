//! The scalar bit-pattern layer, exercised through the public pipeline:
//! each trusted floating-point operation is reached via a verified
//! function whose output would differ if the operation misbehaved.

use svg_tess::extract::split_numbers;
use svg_tess::float_bits::{
    f32_bits_is_finite, f32_bits_is_nan, f32_bits_is_zero, F32_CANONICAL_NAN_BITS,
};
use svg_tess::interpreter::{interpret_commands, GeometryDirective};
use svg_tess::mesh::build_mesh;
use svg_tess::path_data::{parse_svg_path_d, PathCommand};
use svg_tess::primitives::{circle_to_path, rect_to_path};
use svg_tess::tokenizer::tokenize_svg_path;

fn interpret(d: &str) -> Vec<GeometryDirective> {
    interpret_commands(&parse_svg_path_d(&tokenize_svg_path(d)))
}

#[test]
fn relative_operands_add_like_hardware() {
    // 0.1 + 0.2 in f32 is not 0.3; the pen must land on the f32 sum.
    let ds = interpret("M0.1,0 l0.2,0");
    assert_eq!(
        ds[1],
        GeometryDirective::LineTo {
            x: (0.1f32 + 0.2f32).to_bits(),
            y: (0.0f32 + 0.0f32).to_bits(),
        }
    );
}

#[test]
fn reflection_doubles_and_subtracts_like_hardware() {
    // Reflected control: 2*current - lastControl, in f32 arithmetic.
    let ds = interpret("M0,0 Q0.3,0 0.7,0 T1,0");
    assert_eq!(
        ds[2],
        GeometryDirective::QuadraticTo {
            cx: ((0.7f32 + 0.7f32) - 0.3f32).to_bits(),
            cy: ((0.0f32 + 0.0f32) - 0.0f32).to_bits(),
            x: 1f32.to_bits(),
            y: 0f32.to_bits(),
        }
    );
}

#[test]
fn circle_ratio_multiplies_like_hardware() {
    // The circle path's first control ordinate is cy + k*r in f32.
    let d = circle_to_path(0f32.to_bits(), 0f32.to_bits(), 2f32.to_bits());
    let cmds = parse_svg_path_d(&tokenize_svg_path(d.as_str()));
    match cmds[1] {
        PathCommand::CubicTo { y1, .. } => {
            assert_eq!(y1, (0.5522847498f32 * 2f32).to_bits());
        }
        _ => unreachable!(),
    }
}

#[test]
fn formatting_round_trips_extreme_values() {
    // A rectangle corner formatted into path text must read back as the
    // same bits after lexing and parsing.
    let samples: [f32; 8] = [
        0.0,
        -0.0,
        1.5,
        -123.456,
        f32::MAX,
        f32::MIN,
        f32::MIN_POSITIVE,
        1e-40,
    ];
    for v in samples {
        let d = rect_to_path(v.to_bits(), 0f32.to_bits(), 0f32.to_bits(), 0f32.to_bits());
        let cmds = parse_svg_path_d(&tokenize_svg_path(d.as_str()));
        match cmds[0] {
            PathCommand::MoveTo { x, .. } => assert_eq!(x, v.to_bits(), "for {}", v),
            _ => unreachable!(),
        }
    }
}

#[test]
fn number_parsing_matches_hardware() {
    assert_eq!(
        split_numbers("10 -0.5 1e3"),
        vec![10f32.to_bits(), (-0.5f32).to_bits(), 1000f32.to_bits()]
    );
}

#[test]
fn bounds_accumulation_ignores_nan_like_hardware() {
    // min/max ignore a NaN operand, so a single NaN vertex leaves the
    // accumulated box inverted and the mesh reports the zero rectangle.
    let mesh = build_mesh(vec![(f32::NAN.to_bits(), 5f32.to_bits())], Vec::new());
    assert_eq!(mesh.bounds.min_x, 0);
    assert_eq!(mesh.bounds.max_x, 0);
    // With an ordinary vertex the comparison holds and the box is kept.
    let mesh2 = build_mesh(vec![(3f32.to_bits(), 5f32.to_bits())], Vec::new());
    assert_eq!(mesh2.bounds.min_x, 3f32.to_bits());
    assert_eq!(mesh2.bounds.max_y, 5f32.to_bits());
}

#[test]
fn negative_zero_radius_is_still_a_line() {
    let ds = interpret("M0,0 A-0.0,5 0 0 0 10,10");
    assert_eq!(
        ds,
        vec![
            GeometryDirective::BeginAt { x: 0, y: 0 },
            GeometryDirective::LineTo {
                x: 10f32.to_bits(),
                y: 10f32.to_bits(),
            },
        ]
    );
}

#[test]
fn nan_results_are_canonicalized() {
    // Overflow the pen to infinity, then let a smooth reflection compute
    // infinity minus infinity: the NaN that comes out must be the one
    // canonical bit pattern, whatever the hardware's NaN payload was.
    assert!(f32::from_bits(F32_CANONICAL_NAN_BITS).is_nan());
    let ds = interpret("M3e38,0 q3e38,0 3e38,0 t0,0");
    match ds[2] {
        GeometryDirective::QuadraticTo { cx, .. } => {
            assert_eq!(cx, F32_CANONICAL_NAN_BITS);
        }
        _ => unreachable!(),
    }
}

#[test]
fn classification_predicates() {
    assert!(f32_bits_is_zero(0f32.to_bits()));
    assert!(f32_bits_is_zero((-0f32).to_bits()));
    assert!(!f32_bits_is_zero(1e-40f32.to_bits()));
    assert!(f32_bits_is_finite(f32::MAX.to_bits()));
    assert!(!f32_bits_is_finite(f32::INFINITY.to_bits()));
    assert!(!f32_bits_is_finite(f32::NAN.to_bits()));
    assert!(f32_bits_is_nan(f32::NAN.to_bits()));
    assert!(!f32_bits_is_nan(f32::INFINITY.to_bits()));
}
