//! Tessellation and mesh assembly on concrete inputs, with the real
//! geometry library linked.

use svg_tess::float_bits::{F32_24_BITS, F32_ONE_BITS, F32_ZERO_BITS};
use svg_tess::mesh::{build_mesh, MeshBounds, TessellatedMesh, F32_LOWEST_BITS, F32_MAX_BITS};
use svg_tess::tessellate::{SvgError, SvgTessellator, TOLERANCE_BITS};

fn one() -> u32 {
    1f32.to_bits()
}

fn mesh_area(mesh: &TessellatedMesh) -> f32 {
    let v: Vec<f32> = mesh.vertices.iter().map(|b| f32::from_bits(*b)).collect();
    let mut area = 0.0f32;
    let mut t = 0;
    while t + 2 < mesh.indices.len() {
        let (a, b, c) = (
            mesh.indices[t] as usize,
            mesh.indices[t + 1] as usize,
            mesh.indices[t + 2] as usize,
        );
        let (ax, ay) = (v[3 * a], v[3 * a + 1]);
        let (bx, by) = (v[3 * b], v[3 * b + 1]);
        let (cx, cy) = (v[3 * c], v[3 * c + 1]);
        area += ((bx - ax) * (cy - ay) - (cx - ax) * (by - ay)).abs() / 2.0;
        t += 3;
    }
    area
}

#[test]
fn bit_constants_match_their_values() {
    assert_eq!(F32_ZERO_BITS, 0f32.to_bits());
    assert_eq!(F32_ONE_BITS, 1f32.to_bits());
    assert_eq!(F32_24_BITS, 24f32.to_bits());
    assert_eq!(TOLERANCE_BITS, 0.1f32.to_bits());
    assert_eq!(F32_MAX_BITS, f32::MAX.to_bits());
    assert_eq!(F32_LOWEST_BITS, f32::MIN.to_bits());
}

#[test]
fn triangle_fill_has_area_fifty() {
    let mut tess = SvgTessellator::new();
    let mesh = tess
        .tessellate_path("M0,0 L10,0 L10,10 Z", F32_ZERO_BITS, F32_ZERO_BITS, one(), one())
        .unwrap();
    assert!(mesh.vertices.len() >= 9);
    assert_eq!(mesh.indices.len() % 3, 0);
    assert!((mesh_area(&mesh) - 50.0).abs() < 1e-3);
}

#[test]
fn degenerate_path_yields_empty_mesh_with_zero_bounds() {
    let mut tess = SvgTessellator::new();
    let mesh = tess
        .tessellate_path("M0,0 Z", F32_ZERO_BITS, F32_ZERO_BITS, one(), one())
        .unwrap();
    assert_eq!(mesh.vertices.len(), 0);
    assert_eq!(mesh.indices.len(), 0);
    assert_eq!(mesh.bounds.min_x, 0f32.to_bits());
    assert_eq!(mesh.bounds.min_y, 0f32.to_bits());
    assert_eq!(mesh.bounds.max_x, 0f32.to_bits());
    assert_eq!(mesh.bounds.max_y, 0f32.to_bits());
}

#[test]
fn empty_path_yields_empty_mesh() {
    let mut tess = SvgTessellator::new();
    let mesh = tess
        .tessellate_path("", F32_ZERO_BITS, F32_ZERO_BITS, one(), one())
        .unwrap();
    assert_eq!(mesh.vertices.len(), 0);
    assert_eq!(mesh.bounds.min_x, 0);
}

#[test]
fn rect_fill_bounds_cover_the_rectangle() {
    let mut tess = SvgTessellator::new();
    let mesh = tess
        .tessellate_path(
            "M0,0 L10,0 L10,5 L0,5 Z",
            F32_ZERO_BITS,
            F32_ZERO_BITS,
            one(),
            one(),
        )
        .unwrap();
    assert!(mesh.vertices.len() > 0);
    assert_eq!(f32::from_bits(mesh.bounds.min_x), 0.0);
    assert_eq!(f32::from_bits(mesh.bounds.min_y), 0.0);
    assert_eq!(f32::from_bits(mesh.bounds.max_x), 10.0);
    assert_eq!(f32::from_bits(mesh.bounds.max_y), 5.0);
    assert!((mesh_area(&mesh) - 50.0).abs() < 1e-3);
}

#[test]
fn scale_and_offset_transform_every_vertex() {
    let mut tess = SvgTessellator::new();
    let mesh = tess
        .tessellate_path(
            "M0,0 L10,0 L10,5 L0,5 Z",
            5f32.to_bits(),
            7f32.to_bits(),
            2f32.to_bits(),
            3f32.to_bits(),
        )
        .unwrap();
    assert_eq!(f32::from_bits(mesh.bounds.min_x), 5.0);
    assert_eq!(f32::from_bits(mesh.bounds.min_y), 7.0);
    assert_eq!(f32::from_bits(mesh.bounds.max_x), 25.0);
    assert_eq!(f32::from_bits(mesh.bounds.max_y), 22.0);
}

#[test]
fn overflowing_coordinates_are_a_non_finite_error() {
    let mut tess = SvgTessellator::new();
    let r = tess.tessellate_path(
        "M0,0 L3e38,0 L1,1 Z",
        F32_ZERO_BITS,
        F32_ZERO_BITS,
        2f32.to_bits(),
        one(),
    );
    assert_eq!(r, Err(SvgError::NonFiniteGeometry));
}

#[test]
fn fill_after_close_starts_new_subpath_at_start() {
    // Drawing after a Close begins a new subpath at the subpath start,
    // so the triangle after the closed point still reaches the mesh.
    let mut tess = SvgTessellator::new();
    let mesh = tess
        .tessellate_path(
            "M0,0 Z L10,0 L10,10 Z",
            F32_ZERO_BITS,
            F32_ZERO_BITS,
            one(),
            one(),
        )
        .unwrap();
    assert!((mesh_area(&mesh) - 50.0).abs() < 1e-3);
}

#[test]
fn stroke_tessellation_produces_geometry() {
    let mut tess = SvgTessellator::new();
    let mesh = tess
        .tessellate_stroke(
            "M0,0 L10,0",
            2f32.to_bits(),
            F32_ZERO_BITS,
            F32_ZERO_BITS,
            one(),
            one(),
        )
        .unwrap();
    assert!(mesh.vertices.len() > 0);
    assert_eq!(mesh.indices.len() % 3, 0);
    // A 10-long line with width 2 strokes to a 10x2 band.
    assert!((mesh_area(&mesh) - 20.0).abs() < 1e-3);
}

#[test]
fn vertices_carry_interior_edge_distance() {
    let mut tess = SvgTessellator::new();
    let mesh = tess
        .tessellate_path("M0,0 L10,0 L10,10 Z", F32_ZERO_BITS, F32_ZERO_BITS, one(), one())
        .unwrap();
    let mut k = 2;
    while k < mesh.vertices.len() {
        assert_eq!(mesh.vertices[k], 1f32.to_bits());
        k += 3;
    }
}

#[test]
fn build_mesh_assembles_triplets_and_bounds() {
    let positions = vec![
        (1f32.to_bits(), 2f32.to_bits()),
        (3f32.to_bits(), (-4f32).to_bits()),
    ];
    let mesh = build_mesh(positions, Vec::new());
    assert_eq!(
        mesh.vertices,
        vec![
            1f32.to_bits(),
            2f32.to_bits(),
            1f32.to_bits(),
            3f32.to_bits(),
            (-4f32).to_bits(),
            1f32.to_bits(),
        ]
    );
    assert_eq!(f32::from_bits(mesh.bounds.min_x), 1.0);
    assert_eq!(f32::from_bits(mesh.bounds.min_y), -4.0);
    assert_eq!(f32::from_bits(mesh.bounds.max_x), 3.0);
    assert_eq!(f32::from_bits(mesh.bounds.max_y), 2.0);
}

#[test]
fn build_mesh_empty_is_zero_bounds() {
    let mesh = build_mesh(Vec::new(), Vec::new());
    assert_eq!(mesh.vertices.len(), 0);
    assert_eq!(
        mesh.bounds,
        MeshBounds {
            min_x: 0,
            min_y: 0,
            max_x: 0,
            max_y: 0
        }
    );
}

#[test]
fn tessellate_svg_scales_to_display_size() {
    let mut tess = SvgTessellator::new();
    let svg = "<svg viewBox=\"0 0 10 10\"><rect x=\"0\" y=\"0\" width=\"10\" height=\"10\"/></svg>";
    let meshes = tess.tessellate_svg(svg, 20f32.to_bits(), 20f32.to_bits()).unwrap();
    assert_eq!(meshes.len(), 1);
    assert!((mesh_area(&meshes[0]) - 400.0).abs() < 1e-2);
}

#[test]
fn tessellate_svg_propagates_failures() {
    // A record whose geometry overflows under the document scale fails
    // the whole batch rather than being skipped silently.
    let mut tess = SvgTessellator::new();
    let svg = "<svg width=\"1\" height=\"1\"><path d=\"M0,0 L3e38,0 L1,1 Z\"/></svg>";
    let r = tess.tessellate_svg(svg, 2f32.to_bits(), 2f32.to_bits());
    assert_eq!(r, Err(SvgError::NonFiniteGeometry));
}

#[test]
fn underflowing_arc_is_a_line_not_an_abort() {
    // An arc whose chord squares into nothing would trip the geometry
    // library's conversion; it degrades to a straight line instead.
    let mut tess = SvgTessellator::new();
    let mesh = tess
        .tessellate_path(
            "M0,0 A1 1 0 0 0 2e-23 0",
            F32_ZERO_BITS,
            F32_ZERO_BITS,
            one(),
            one(),
        )
        .unwrap();
    assert_eq!(mesh.indices.len() % 3, 0);
}

#[test]
fn zero_signs_in_bounds_are_canonical() {
    // min/max settle the tie between the two zeros: the negative one for
    // a minimum, the positive one for a maximum.
    let mesh = build_mesh(
        vec![
            (0f32.to_bits(), 0f32.to_bits()),
            ((-0f32).to_bits(), 0f32.to_bits()),
        ],
        Vec::new(),
    );
    assert_eq!(mesh.bounds.min_x, (-0f32).to_bits());
    assert_eq!(mesh.bounds.max_x, 0f32.to_bits());
}

#[test]
fn tessellate_svg_skips_none_fill() {
    let mut tess = SvgTessellator::new();
    let svg = "<svg width=\"10\" height=\"10\"><path d=\"M0,0 L10,0 L10,10 Z\" fill=\"none\"/></svg>";
    let meshes = tess.tessellate_svg(svg, 10f32.to_bits(), 10f32.to_bits()).unwrap();
    assert_eq!(meshes.len(), 0);
}

#[test]
fn tessellate_svg_strokes_when_asked() {
    let mut tess = SvgTessellator::new();
    let svg = "<svg width=\"10\" height=\"10\"><path d=\"M0,0 L10,0\" fill=\"none\" stroke=\"red\" stroke-width=\"2\"/></svg>";
    let meshes = tess.tessellate_svg(svg, 10f32.to_bits(), 10f32.to_bits()).unwrap();
    assert_eq!(meshes.len(), 1);
    let svg2 = "<svg width=\"10\" height=\"10\"><path d=\"M0,0 L10,0\" fill=\"none\" stroke=\"none\" stroke-width=\"2\"/></svg>";
    let meshes2 = tess.tessellate_svg(svg2, 10f32.to_bits(), 10f32.to_bits()).unwrap();
    assert_eq!(meshes2.len(), 0);
}
