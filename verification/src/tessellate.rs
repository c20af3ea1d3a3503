//! Geometry builder and tessellation adapter.
//!
//! Replays a geometry-directive sequence into the tessellation library's
//! path builder, applying the caller's scale and offset to every
//! coordinate, and invokes fill or stroke tessellation on the result. The
//! replay keeps the builder's begin/end discipline: a drawing directive
//! outside any subpath is dropped (the interpreter never emits one — it
//! begins a subpath first — so this guards only hand-built sequences), a
//! subpath left open is ended, and every coordinate handed to the builder
//! is checked to be finite.

use vstd::prelude::*;
use lyon::path::traits::{Build, PathBuilder};
use lyon::tessellation::geometry_builder::Positions;
use lyon::tessellation::{BuffersBuilder, FillOptions, StrokeOptions, VertexBuffers};
use crate::extract::{parse_svg_content, spec_parse_svg_content, ParsedPathView, ParsedSvg};
use crate::float_bits::{
    add_f32, div_f32, is_finite_bits, f32_bits_is_finite, max_f32, mul_f32, spec_add_f32,
    spec_div_f32, spec_max_f32, spec_mul_f32, F32_ZERO_BITS,
};
use crate::interpreter::{interpret_commands, valid_directives, GeometryDirective};
use crate::mesh::{
    build_mesh, spec_flat_vertices, spec_fold_bounds, spec_mesh_bounds, spec_pos_covered,
    TessellatedMesh,
};
use crate::path_data::{parse_svg_path_d, spec_parse_path};
use crate::tokenizer::{spec_tokenize, tokenize_svg_path};

verus! {

/// Bit pattern of `0.1f32`, the flattening tolerance in device space.
pub const TOLERANCE_BITS: u32 = 0x3DCC_CCCD;

#[verifier::external_type_specification]
#[verifier::external_body]
pub struct ExBuilderImpl(lyon::path::path::BuilderImpl);

#[verifier::external_type_specification]
#[verifier::external_body]
pub struct ExPath(lyon::path::Path);

#[verifier::external_type_specification]
#[verifier::external_body]
pub struct ExFillTessellator(lyon::tessellation::FillTessellator);

#[verifier::external_type_specification]
#[verifier::external_body]
pub struct ExStrokeTessellator(lyon::tessellation::StrokeTessellator);

/// What a path builder holds: its operations in order, each a tag with
/// its coordinates (as `f32` bit patterns).
pub uninterp spec fn spec_builder_ops(b: lyon::path::path::BuilderImpl) -> Seq<(int, Seq<u32>)>;

/// What a built path holds, in the same encoding.
pub uninterp spec fn spec_path_ops(p: lyon::path::Path) -> Seq<(int, Seq<u32>)>;

/// A `begin` operation at a point.
pub open spec fn op_begin(x: u32, y: u32) -> (int, Seq<u32>) {
    (0int, seq![x, y])
}

/// A `line_to` operation.
pub open spec fn op_line(x: u32, y: u32) -> (int, Seq<u32>) {
    (1int, seq![x, y])
}

/// A `quadratic_bezier_to` operation.
pub open spec fn op_quad(cx: u32, cy: u32, x: u32, y: u32) -> (int, Seq<u32>) {
    (2int, seq![cx, cy, x, y])
}

/// A `cubic_bezier_to` operation.
pub open spec fn op_cubic(c1x: u32, c1y: u32, c2x: u32, c2y: u32, x: u32, y: u32) -> (
    int,
    Seq<u32>,
) {
    (3int, seq![c1x, c1y, c2x, c2y, x, y])
}

/// An `end(false)` operation: the open subpath ends without closing.
pub open spec fn op_end() -> (int, Seq<u32>) {
    (4int, seq![])
}

/// An `end(true)` operation: the open subpath closes.
pub open spec fn op_close() -> (int, Seq<u32>) {
    (5int, seq![])
}

/// Whether a subpath is open after the given operations.
pub open spec fn spec_open_subpath(ops: Seq<(int, Seq<u32>)>) -> bool
    decreases ops.len(),
{
    if ops.len() == 0 {
        false
    } else if ops.last().0 == 0 {
        true
    } else if ops.last().0 == 4 || ops.last().0 == 5 {
        false
    } else {
        spec_open_subpath(ops.drop_last())
    }
}

/// Whether every coordinate of every operation is a finite number.
pub open spec fn spec_ops_finite(ops: Seq<(int, Seq<u32>)>) -> bool {
    forall|k: int, j: int|
        0 <= k < ops.len() && 0 <= j < ops[k].1.len() ==> is_finite_bits(
            #[trigger] ops[k].1[j],
        )
}

/// Relies on `lyon_path::path::BuilderImpl::new`: a fresh builder holds
/// no operations.
#[verifier::external_body]
fn new_builder() -> (b: lyon::path::path::BuilderImpl)
    ensures
        spec_builder_ops(b) == Seq::<(int, Seq<u32>)>::empty(),
{
    lyon::path::path::BuilderImpl::new()
}

/// Relies on `PathBuilder::begin` of `BuilderImpl`: starts a subpath at
/// the point. The builder asserts that no subpath is open and that the
/// coordinates are finite.
#[verifier::external_body]
fn builder_begin(b: &mut lyon::path::path::BuilderImpl, x: u32, y: u32)
    requires
        !spec_open_subpath(spec_builder_ops(*old(b))),
        is_finite_bits(x),
        is_finite_bits(y),
    ensures
        spec_builder_ops(*final(b)) == spec_builder_ops(*old(b)).push(op_begin(x, y)),
{
    b.begin(lyon::math::Point::new(bytemuck::cast(x), bytemuck::cast(y)), &[]);
}

/// Relies on `PathBuilder::line_to` of `BuilderImpl`: a line edge of the
/// open subpath. The builder asserts an open subpath and finite
/// coordinates.
#[verifier::external_body]
fn builder_line_to(b: &mut lyon::path::path::BuilderImpl, x: u32, y: u32)
    requires
        spec_open_subpath(spec_builder_ops(*old(b))),
        is_finite_bits(x),
        is_finite_bits(y),
    ensures
        spec_builder_ops(*final(b)) == spec_builder_ops(*old(b)).push(op_line(x, y)),
{
    b.line_to(lyon::math::Point::new(bytemuck::cast(x), bytemuck::cast(y)), &[]);
}

/// Relies on `PathBuilder::quadratic_bezier_to` of `BuilderImpl`.
#[verifier::external_body]
fn builder_quadratic_to(b: &mut lyon::path::path::BuilderImpl, cx: u32, cy: u32, x: u32, y: u32)
    requires
        spec_open_subpath(spec_builder_ops(*old(b))),
        is_finite_bits(cx),
        is_finite_bits(cy),
        is_finite_bits(x),
        is_finite_bits(y),
    ensures
        spec_builder_ops(*final(b)) == spec_builder_ops(*old(b)).push(op_quad(cx, cy, x, y)),
{
    b.quadratic_bezier_to(
        lyon::math::Point::new(bytemuck::cast(cx), bytemuck::cast(cy)),
        lyon::math::Point::new(bytemuck::cast(x), bytemuck::cast(y)),
        &[],
    );
}

/// Relies on `PathBuilder::cubic_bezier_to` of `BuilderImpl`.
#[verifier::external_body]
fn builder_cubic_to(
    b: &mut lyon::path::path::BuilderImpl,
    c1x: u32,
    c1y: u32,
    c2x: u32,
    c2y: u32,
    x: u32,
    y: u32,
)
    requires
        spec_open_subpath(spec_builder_ops(*old(b))),
        is_finite_bits(c1x),
        is_finite_bits(c1y),
        is_finite_bits(c2x),
        is_finite_bits(c2y),
        is_finite_bits(x),
        is_finite_bits(y),
    ensures
        spec_builder_ops(*final(b)) == spec_builder_ops(*old(b)).push(
            op_cubic(c1x, c1y, c2x, c2y, x, y),
        ),
{
    b.cubic_bezier_to(
        lyon::math::Point::new(bytemuck::cast(c1x), bytemuck::cast(c1y)),
        lyon::math::Point::new(bytemuck::cast(c2x), bytemuck::cast(c2y)),
        lyon::math::Point::new(bytemuck::cast(x), bytemuck::cast(y)),
        &[],
    );
}

/// Relies on `PathBuilder::end` of `BuilderImpl`: ends the open subpath,
/// closing it when asked. The builder asserts an open subpath.
#[verifier::external_body]
fn builder_end(b: &mut lyon::path::path::BuilderImpl, close: bool)
    requires
        spec_open_subpath(spec_builder_ops(*old(b))),
    ensures
        spec_builder_ops(*final(b)) == spec_builder_ops(*old(b)).push(
            if close {
                op_close()
            } else {
                op_end()
            },
        ),
{
    b.end(close);
}

/// Relies on `Build::build` of `BuilderImpl`: the built path holds
/// exactly the builder's operations. The builder asserts that no subpath
/// is left open.
#[verifier::external_body]
fn builder_build(b: lyon::path::path::BuilderImpl) -> (p: lyon::path::Path)
    requires
        !spec_open_subpath(spec_builder_ops(b)),
    ensures
        spec_path_ops(p) == spec_builder_ops(b),
{
    b.build()
}

/// A coordinate carried to device space: `x * scale + offset`.
pub open spec fn spec_tx(v: u32, scale: u32, offset: u32) -> u32 {
    spec_add_f32(spec_mul_f32(v, scale), offset)
}

/// Runtime counterpart of [`spec_tx`].
fn tx(v: u32, scale: u32, offset: u32) -> (r: u32)
    ensures
        r == spec_tx(v, scale, offset),
{
    add_f32(mul_f32(v, scale), offset)
}

/// The builder operations that replaying `ds` from `i` on produces, with
/// `open` telling whether a subpath is open. Drawing directives outside
/// any subpath are dropped; a subpath still open at the end is ended.
pub open spec fn spec_replay_ops(
    ds: Seq<GeometryDirective>,
    i: int,
    open: bool,
    ox: u32,
    oy: u32,
    sx: u32,
    sy: u32,
) -> Seq<(int, Seq<u32>)>
    decreases ds.len() - i,
{
    if i < 0 || i >= ds.len() {
        if open {
            seq![op_end()]
        } else {
            seq![]
        }
    } else {
        match ds[i] {
            GeometryDirective::BeginAt { x, y } => {
                let b = op_begin(spec_tx(x, sx, ox), spec_tx(y, sy, oy));
                if open {
                    seq![op_end(), b] + spec_replay_ops(ds, i + 1, true, ox, oy, sx, sy)
                } else {
                    seq![b] + spec_replay_ops(ds, i + 1, true, ox, oy, sx, sy)
                }
            }
            GeometryDirective::LineTo { x, y } => {
                if open {
                    seq![op_line(spec_tx(x, sx, ox), spec_tx(y, sy, oy))] + spec_replay_ops(
                        ds,
                        i + 1,
                        true,
                        ox,
                        oy,
                        sx,
                        sy,
                    )
                } else {
                    spec_replay_ops(ds, i + 1, false, ox, oy, sx, sy)
                }
            }
            GeometryDirective::QuadraticTo { cx, cy, x, y } => {
                if open {
                    seq![
                        op_quad(
                            spec_tx(cx, sx, ox),
                            spec_tx(cy, sy, oy),
                            spec_tx(x, sx, ox),
                            spec_tx(y, sy, oy),
                        ),
                    ] + spec_replay_ops(ds, i + 1, true, ox, oy, sx, sy)
                } else {
                    spec_replay_ops(ds, i + 1, false, ox, oy, sx, sy)
                }
            }
            GeometryDirective::CubicTo { c1x, c1y, c2x, c2y, x, y } => {
                if open {
                    seq![
                        op_cubic(
                            spec_tx(c1x, sx, ox),
                            spec_tx(c1y, sy, oy),
                            spec_tx(c2x, sx, ox),
                            spec_tx(c2y, sy, oy),
                            spec_tx(x, sx, ox),
                            spec_tx(y, sy, oy),
                        ),
                    ] + spec_replay_ops(ds, i + 1, true, ox, oy, sx, sy)
                } else {
                    spec_replay_ops(ds, i + 1, false, ox, oy, sx, sy)
                }
            }
            GeometryDirective::Close => {
                if open {
                    seq![op_close()] + spec_replay_ops(ds, i + 1, false, ox, oy, sx, sy)
                } else {
                    spec_replay_ops(ds, i + 1, false, ox, oy, sx, sy)
                }
            }
        }
    }
}

/// The whole replay of a directive sequence.
pub open spec fn spec_replay(
    ds: Seq<GeometryDirective>,
    ox: u32,
    oy: u32,
    sx: u32,
    sy: u32,
) -> Seq<(int, Seq<u32>)> {
    spec_replay_ops(ds, 0, false, ox, oy, sx, sy)
}

/// The error a tessellation call surfaces. Parse irregularities —
/// malformed numbers, unknown letters, operand underflow, empty input —
/// never fail; the one limit of that leniency is numeric overflow, which
/// the second variant reports.
#[derive(Debug, Clone, PartialEq, Eq)]
pub enum SvgError {
    /// The tessellation stage rejected the constructed path.
    TessellationFailed(String),
    /// A device-space coordinate or a stroke width was not a finite
    /// number — path content or scaling overflowed the finite range —
    /// so nothing could be handed to the tessellator, which demands
    /// finite input. This extends the surfaced error taxonomy: it is a
    /// rejection of the constructed geometry, not a parse error.
    NonFiniteGeometry,
}

/// Replays a directive sequence into the tessellation library's path
/// builder, carrying every coordinate to device space first. Fails
/// without building when a device-space coordinate is not finite.
pub fn build_lyon_path(
    directives: &Vec<GeometryDirective>,
    offset_x: u32,
    offset_y: u32,
    scale_x: u32,
    scale_y: u32,
) -> (r: Result<lyon::path::Path, SvgError>)
    ensures
        ({
            let ops = spec_replay(directives@, offset_x, offset_y, scale_x, scale_y);
            match r {
                Ok(p) => spec_path_ops(p) == ops && spec_ops_finite(ops),
                Err(e) => e == SvgError::NonFiniteGeometry && !spec_ops_finite(ops),
            }
        }),
{
    let ghost ds = directives@;
    let ghost full = spec_replay(directives@, offset_x, offset_y, scale_x, scale_y);
    let mut builder = new_builder();
    let mut open = false;
    let mut i: usize = 0;
    while i < directives.len()
        invariant
            ds == directives@,
            full == spec_replay(ds, offset_x, offset_y, scale_x, scale_y),
            i <= ds.len(),
            open == spec_open_subpath(spec_builder_ops(builder)),
            spec_ops_finite(spec_builder_ops(builder)),
            full == spec_builder_ops(builder) + spec_replay_ops(
                ds,
                i as int,
                open,
                offset_x,
                offset_y,
                scale_x,
                scale_y,
            ),
        decreases ds.len() - i,
    {
        let ghost done = spec_builder_ops(builder);
        let ghost rest = spec_replay_ops(ds, i as int, open, offset_x, offset_y, scale_x, scale_y);
        match directives[i] {
            GeometryDirective::BeginAt { x, y } => {
                let px = tx(x, scale_x, offset_x);
                let py = tx(y, scale_y, offset_y);
                if !f32_bits_is_finite(px) || !f32_bits_is_finite(py) {
                    proof {
                        let at = if open {
                            done.len() as int + 1
                        } else {
                            done.len() as int
                        };
                        assert(full[at] == op_begin(px, py));
                        if !is_finite_bits(px) {
                            assert(!is_finite_bits(full[at].1[0]));
                        } else {
                            assert(!is_finite_bits(full[at].1[1]));
                        }
                    }
                    return Err(SvgError::NonFiniteGeometry);
                }
                if open {
                    builder_end(&mut builder, false);
                }
                builder_begin(&mut builder, px, py);
                open = true;
                i += 1;
                proof {
                    assert(spec_builder_ops(builder) + spec_replay_ops(
                        ds,
                        i as int,
                        open,
                        offset_x,
                        offset_y,
                        scale_x,
                        scale_y,
                    ) =~~= done + rest);
                }
            }
            GeometryDirective::LineTo { x, y } => {
                if open {
                    let px = tx(x, scale_x, offset_x);
                    let py = tx(y, scale_y, offset_y);
                    if !f32_bits_is_finite(px) || !f32_bits_is_finite(py) {
                        proof {
                            assert(full[done.len() as int] == op_line(px, py));
                            if !is_finite_bits(px) {
                                assert(!is_finite_bits(full[done.len() as int].1[0]));
                            } else {
                                assert(!is_finite_bits(full[done.len() as int].1[1]));
                            }
                        }
                        return Err(SvgError::NonFiniteGeometry);
                    }
                    builder_line_to(&mut builder, px, py);
                    proof {
                        assert(spec_builder_ops(builder).drop_last() =~= done);
                    }
                }
                i += 1;
                proof {
                    assert(spec_builder_ops(builder) + spec_replay_ops(
                        ds,
                        i as int,
                        open,
                        offset_x,
                        offset_y,
                        scale_x,
                        scale_y,
                    ) =~~= done + rest);
                }
            }
            GeometryDirective::QuadraticTo { cx, cy, x, y } => {
                if open {
                    let pcx = tx(cx, scale_x, offset_x);
                    let pcy = tx(cy, scale_y, offset_y);
                    let px = tx(x, scale_x, offset_x);
                    let py = tx(y, scale_y, offset_y);
                    if !f32_bits_is_finite(pcx) || !f32_bits_is_finite(pcy) || !f32_bits_is_finite(
                        px,
                    ) || !f32_bits_is_finite(py) {
                        proof {
                            assert(full[done.len() as int] == op_quad(pcx, pcy, px, py));
                            if !is_finite_bits(pcx) {
                                assert(!is_finite_bits(full[done.len() as int].1[0]));
                            } else if !is_finite_bits(pcy) {
                                assert(!is_finite_bits(full[done.len() as int].1[1]));
                            } else if !is_finite_bits(px) {
                                assert(!is_finite_bits(full[done.len() as int].1[2]));
                            } else {
                                assert(!is_finite_bits(full[done.len() as int].1[3]));
                            }
                        }
                        return Err(SvgError::NonFiniteGeometry);
                    }
                    builder_quadratic_to(&mut builder, pcx, pcy, px, py);
                    proof {
                        assert(spec_builder_ops(builder).drop_last() =~= done);
                    }
                }
                i += 1;
                proof {
                    assert(spec_builder_ops(builder) + spec_replay_ops(
                        ds,
                        i as int,
                        open,
                        offset_x,
                        offset_y,
                        scale_x,
                        scale_y,
                    ) =~~= done + rest);
                }
            }
            GeometryDirective::CubicTo { c1x, c1y, c2x, c2y, x, y } => {
                if open {
                    let p1x = tx(c1x, scale_x, offset_x);
                    let p1y = tx(c1y, scale_y, offset_y);
                    let p2x = tx(c2x, scale_x, offset_x);
                    let p2y = tx(c2y, scale_y, offset_y);
                    let px = tx(x, scale_x, offset_x);
                    let py = tx(y, scale_y, offset_y);
                    if !f32_bits_is_finite(p1x) || !f32_bits_is_finite(p1y) || !f32_bits_is_finite(
                        p2x,
                    ) || !f32_bits_is_finite(p2y) || !f32_bits_is_finite(px)
                        || !f32_bits_is_finite(py) {
                        proof {
                            assert(full[done.len() as int] == op_cubic(p1x, p1y, p2x, p2y, px, py));
                            if !is_finite_bits(p1x) {
                                assert(!is_finite_bits(full[done.len() as int].1[0]));
                            } else if !is_finite_bits(p1y) {
                                assert(!is_finite_bits(full[done.len() as int].1[1]));
                            } else if !is_finite_bits(p2x) {
                                assert(!is_finite_bits(full[done.len() as int].1[2]));
                            } else if !is_finite_bits(p2y) {
                                assert(!is_finite_bits(full[done.len() as int].1[3]));
                            } else if !is_finite_bits(px) {
                                assert(!is_finite_bits(full[done.len() as int].1[4]));
                            } else {
                                assert(!is_finite_bits(full[done.len() as int].1[5]));
                            }
                        }
                        return Err(SvgError::NonFiniteGeometry);
                    }
                    builder_cubic_to(&mut builder, p1x, p1y, p2x, p2y, px, py);
                    proof {
                        assert(spec_builder_ops(builder).drop_last() =~= done);
                    }
                }
                i += 1;
                proof {
                    assert(spec_builder_ops(builder) + spec_replay_ops(
                        ds,
                        i as int,
                        open,
                        offset_x,
                        offset_y,
                        scale_x,
                        scale_y,
                    ) =~~= done + rest);
                }
            }
            GeometryDirective::Close => {
                if open {
                    builder_end(&mut builder, true);
                    open = false;
                }
                i += 1;
                proof {
                    assert(spec_builder_ops(builder) + spec_replay_ops(
                        ds,
                        i as int,
                        open,
                        offset_x,
                        offset_y,
                        scale_x,
                        scale_y,
                    ) =~~= done + rest);
                }
            }
        }
    }
    let ghost done = spec_builder_ops(builder);
    if open {
        builder_end(&mut builder, false);
    }
    proof {
        assert(spec_builder_ops(builder) =~~= full);
    }
    let path = builder_build(builder);
    Ok(path)
}

/// Relies on `FillTessellator::tessellate_path` with the library's
/// `Positions` vertex constructor: fills the path's interior as a
/// triangle list at the given tolerance. Per the geometry-builder
/// protocol, indices come in triples and refer to emitted vertices. A
/// rejected path comes back as its error text. The result is not named:
/// although the sweep line and the curve flattening run on arithmetic,
/// square roots and lookup tables that IEEE 754 pins down, the
/// tessellator's internal uses of `f32::min`/`max` may take either of
/// two zeros that compare equal, a choice std leaves open — so nothing
/// is assumed of the buffers beyond their structure.
#[verifier::external_body]
fn fill_tessellate(
    t: &mut lyon::tessellation::FillTessellator,
    path: &lyon::path::Path,
    tolerance_bits: u32,
) -> (r: Result<(Vec<(u32, u32)>, Vec<u32>), String>)
    requires
        spec_ops_finite(spec_path_ops(*path)),
        is_finite_bits(tolerance_bits),
    ensures
        r matches Ok(bufs) ==> bufs.1@.len() % 3 == 0 && (forall|k: int|
            0 <= k < bufs.1@.len() ==> (#[trigger] bufs.1@[k] as int) < bufs.0@.len()),
{
    let mut bufs: VertexBuffers<lyon::math::Point, u32> = VertexBuffers::new();
    let options = FillOptions::default().with_tolerance(bytemuck::cast(tolerance_bits));
    t.tessellate_path(path, &options, &mut BuffersBuilder::new(&mut bufs, Positions))
        .map_err(|e| format!("{:?}", e))?;
    let pts = bufs.vertices.iter().map(|p| (bytemuck::cast(p.x), bytemuck::cast(p.y))).collect();
    Ok((pts, bufs.indices))
}

/// Relies on `StrokeTessellator::tessellate_path` with the library's
/// `Positions` vertex constructor: strokes the path at the given line
/// width and tolerance, as a triangle list. The same geometry-builder
/// protocol as for fills. Unlike the fill, the stroke's edge math runs
/// through platform trigonometry (angles, arcsines), whose precision is
/// not pinned down; its result is therefore not named, and nothing is
/// assumed of the vertex coordinates.
#[verifier::external_body]
fn stroke_tessellate(
    t: &mut lyon::tessellation::StrokeTessellator,
    path: &lyon::path::Path,
    line_width_bits: u32,
    tolerance_bits: u32,
) -> (r: Result<(Vec<(u32, u32)>, Vec<u32>), String>)
    requires
        spec_ops_finite(spec_path_ops(*path)),
        is_finite_bits(line_width_bits),
        is_finite_bits(tolerance_bits),
    ensures
        r matches Ok(bufs) ==> bufs.1@.len() % 3 == 0 && (forall|k: int|
            0 <= k < bufs.1@.len() ==> (#[trigger] bufs.1@[k] as int) < bufs.0@.len()),
{
    let mut bufs: VertexBuffers<lyon::math::Point, u32> = VertexBuffers::new();
    let options = StrokeOptions::default().with_line_width(bytemuck::cast(line_width_bits))
        .with_tolerance(bytemuck::cast(tolerance_bits));
    t.tessellate_path(path, &options, &mut BuffersBuilder::new(&mut bufs, Positions))
        .map_err(|e| format!("{:?}", e))?;
    let pts = bufs.vertices.iter().map(|p| (bytemuck::cast(p.x), bytemuck::cast(p.y))).collect();
    Ok((pts, bufs.indices))
}

/// Relies on `FillTessellator::new`.
#[verifier::external_body]
fn new_fill_tessellator() -> lyon::tessellation::FillTessellator {
    lyon::tessellation::FillTessellator::new()
}

/// Relies on `StrokeTessellator::new`.
#[verifier::external_body]
fn new_stroke_tessellator() -> lyon::tessellation::StrokeTessellator {
    lyon::tessellation::StrokeTessellator::new()
}

/// Character-for-character equality of two texts.
fn str_eq(a: &str, b: &str) -> (r: bool)
    ensures
        r == (a@ == b@),
{
    let na = a.unicode_len();
    let nb = b.unicode_len();
    if na != nb {
        return false;
    }
    let mut i: usize = 0;
    while i < na
        invariant
            na == a@.len(),
            na == b@.len(),
            i <= na,
            forall|k: int| 0 <= k < i ==> a@[k] == b@[k],
        decreases na - i,
    {
        if a.get_char(i) != b.get_char(i) {
            return false;
        }
        i += 1;
    }
    proof {
        assert(a@ =~= b@);
    }
    true
}

/// Mutable tessellation scratch state, reusable across calls but not
/// shareable across threads.
pub struct SvgTessellator {
    fill_tessellator: lyon::tessellation::FillTessellator,
    stroke_tessellator: lyon::tessellation::StrokeTessellator,
}


/// The contract of one fill-tessellation run over a path-data string:
/// for some directive sequence the interpreter may produce for the
/// parsed commands, the replayed device-space operations at tolerance
/// 0.1 decide the result. A non-finite device coordinate fails with
/// `NonFiniteGeometry`; a tessellator rejection surfaces its error text;
/// otherwise the mesh is the assembly of the tessellation's buffers,
/// whose contents are not pinned down (see `fill_tessellate` on why
/// not).
pub open spec fn spec_fill_outcome(
    d: Seq<char>,
    ox: u32,
    oy: u32,
    sx: u32,
    sy: u32,
    r: Result<TessellatedMesh, SvgError>,
) -> bool {
    exists|ds: Seq<GeometryDirective>|
        #[trigger] valid_directives(spec_parse_path(spec_tokenize(d)), ds) && {
            let ops = spec_replay(ds, ox, oy, sx, sy);
            match r {
                Ok(mesh) => spec_ops_finite(ops) && mesh.wf() && (exists|ps: Seq<(u32, u32)>|
                    mesh.vertices@ == #[trigger] spec_flat_vertices(ps) && mesh.bounds
                        == spec_mesh_bounds(ps) && (forall|i: int|
                        0 <= i < ps.len() ==> spec_pos_covered(
                            spec_fold_bounds(ps),
                            #[trigger] ps[i],
                        ))),
                Err(e) => match e {
                    SvgError::NonFiniteGeometry => !spec_ops_finite(ops),
                    SvgError::TessellationFailed(_) => spec_ops_finite(ops),
                },
            }
        }
}

/// The contract of one stroke-tessellation run over a path-data string:
/// the line width handed to the tessellator is
/// `stroke_width * max(scale_x, scale_y)`, the tolerance 0.1. A
/// non-finite device coordinate or width fails with `NonFiniteGeometry`;
/// a tessellator rejection surfaces its error; otherwise the mesh is the
/// assembly of the stroke tessellation's buffers, whose coordinates are
/// not pinned down (the stroke's edge math runs through platform
/// trigonometry).
pub open spec fn spec_stroke_outcome(
    d: Seq<char>,
    stroke_width: u32,
    ox: u32,
    oy: u32,
    sx: u32,
    sy: u32,
    r: Result<TessellatedMesh, SvgError>,
) -> bool {
    exists|ds: Seq<GeometryDirective>|
        #[trigger] valid_directives(spec_parse_path(spec_tokenize(d)), ds) && {
            let ops = spec_replay(ds, ox, oy, sx, sy);
            let w = spec_mul_f32(stroke_width, spec_max_f32(sx, sy));
            match r {
                Ok(mesh) => spec_ops_finite(ops) && is_finite_bits(w) && mesh.wf() && (exists|
                    ps: Seq<(u32, u32)>,
                |
                    mesh.vertices@ == #[trigger] spec_flat_vertices(ps) && mesh.bounds
                        == spec_mesh_bounds(ps) && (forall|i: int|
                        0 <= i < ps.len() ==> spec_pos_covered(
                            spec_fold_bounds(ps),
                            #[trigger] ps[i],
                        ))),
                Err(e) => match e {
                    SvgError::NonFiniteGeometry => !spec_ops_finite(ops) || !is_finite_bits(w),
                    SvgError::TessellationFailed(_) => spec_ops_finite(ops) && is_finite_bits(w),
                },
            }
        }
}


/// Whether a record's interior is filled: every fill but the literal
/// `"none"`.
pub open spec fn spec_fill_wanted(p: ParsedPathView) -> bool {
    p.fill != Some("none"@)
}

/// Whether a record is stroked: a stroke other than `"none"`, with a
/// stroke width present.
pub open spec fn spec_stroke_wanted(p: ParsedPathView) -> bool {
    &&& p.stroke is Some
    &&& p.stroke_width is Some
    &&& p.stroke->Some_0 != "none"@
}

/// What one record's fill attempt contributes to a successful batch:
/// nothing when the record is not filled; otherwise its fill mesh,
/// unless the attempt came back without vertices, in which case nothing
/// (an attempt the tessellator rejects fails the whole batch instead).
pub open spec fn spec_fill_contrib(
    p: ParsedPathView,
    sx: u32,
    sy: u32,
    ms: Seq<TessellatedMesh>,
) -> bool {
    if spec_fill_wanted(p) {
        ||| (ms.len() == 1 && ms[0].vertices@.len() > 0 && spec_fill_outcome(
            p.d,
            F32_ZERO_BITS,
            F32_ZERO_BITS,
            sx,
            sy,
            Ok(ms[0]),
        ))
        ||| (ms.len() == 0 && (exists|m: TessellatedMesh|
            #[trigger] spec_fill_outcome(p.d, F32_ZERO_BITS, F32_ZERO_BITS, sx, sy, Ok(m))
                && m.vertices@.len() == 0))
    } else {
        ms.len() == 0
    }
}

/// What one record's stroke attempt contributes to a successful batch,
/// alike, at the record's own stroke width.
pub open spec fn spec_stroke_contrib(
    p: ParsedPathView,
    sx: u32,
    sy: u32,
    ms: Seq<TessellatedMesh>,
) -> bool {
    if spec_stroke_wanted(p) {
        ||| (ms.len() == 1 && ms[0].vertices@.len() > 0 && spec_stroke_outcome(
            p.d,
            p.stroke_width->Some_0,
            F32_ZERO_BITS,
            F32_ZERO_BITS,
            sx,
            sy,
            Ok(ms[0]),
        ))
        ||| (ms.len() == 0 && (exists|m: TessellatedMesh|
            #[trigger] spec_stroke_outcome(
                p.d,
                p.stroke_width->Some_0,
                F32_ZERO_BITS,
                F32_ZERO_BITS,
                sx,
                sy,
                Ok(m),
            ) && m.vertices@.len() == 0))
    } else {
        ms.len() == 0
    }
}

/// Whether converting one record fails with error `e`: its fill or its
/// stroke attempt, where wanted, comes back rejected.
pub open spec fn spec_record_fails(p: ParsedPathView, sx: u32, sy: u32, e: SvgError) -> bool {
    ||| (spec_fill_wanted(p) && spec_fill_outcome(
        p.d,
        F32_ZERO_BITS,
        F32_ZERO_BITS,
        sx,
        sy,
        Err(e),
    ))
    ||| (spec_stroke_wanted(p) && spec_stroke_outcome(
        p.d,
        p.stroke_width->Some_0,
        F32_ZERO_BITS,
        F32_ZERO_BITS,
        sx,
        sy,
        Err(e),
    ))
}

/// What one record contributes to a batch: its fill meshes, then its
/// stroke meshes.
pub open spec fn spec_path_contrib(
    p: ParsedPathView,
    sx: u32,
    sy: u32,
    ms: Seq<TessellatedMesh>,
) -> bool {
    exists|j: int|
        #![trigger ms.take(j)]
        0 <= j <= ms.len() && spec_fill_contrib(p, sx, sy, ms.take(j)) && spec_stroke_contrib(
            p,
            sx,
            sy,
            ms.skip(j),
        )
}

/// The batch relation of a whole-document conversion: the meshes are, in
/// record order, exactly what each record contributes.
pub open spec fn spec_svg_meshes(
    paths: Seq<ParsedPathView>,
    sx: u32,
    sy: u32,
    out: Seq<TessellatedMesh>,
) -> bool
    decreases paths.len(),
{
    if paths.len() == 0 {
        out.len() == 0
    } else {
        exists|k: int|
            #![trigger out.take(k)]
            0 <= k <= out.len() && spec_svg_meshes(paths.drop_last(), sx, sy, out.take(k))
                && spec_path_contrib(paths.last(), sx, sy, out.skip(k))
    }
}

impl SvgTessellator {
    pub fn new() -> SvgTessellator {
        SvgTessellator {
            fill_tessellator: new_fill_tessellator(),
            stroke_tessellator: new_stroke_tessellator(),
        }
    }

    /// Extracts the document's shapes and dimensions from markup text; a
    /// pure function of the input.
    pub fn parse_svg(&self, svg_content: &str) -> (r: ParsedSvg)
        ensures
            r@ == spec_parse_svg_content(svg_content@),
    {
        parse_svg_content(svg_content)
    }

    /// Fill-tessellates one path-data string under the given offset and
    /// scale: parse irregularities are swallowed and an empty or
    /// degenerate path yields an empty mesh. Only two things fail, each
    /// exactly as [`spec_fill_outcome`] states: a coordinate that
    /// overflows the finite range (`NonFiniteGeometry` — the leniency's
    /// one limit, since the tessellator demands finite input), and a
    /// tessellator rejection.
    pub fn tessellate_path(
        &mut self,
        path_d: &str,
        offset_x: u32,
        offset_y: u32,
        scale_x: u32,
        scale_y: u32,
    ) -> (r: Result<TessellatedMesh, SvgError>)
        ensures
            spec_fill_outcome(path_d@, offset_x, offset_y, scale_x, scale_y, r),
            r matches Ok(mesh) ==> mesh.wf(),
    {
        let tokens = tokenize_svg_path(path_d);
        let commands = parse_svg_path_d(&tokens);
        let directives = interpret_commands(&commands);
        proof {
            assert(valid_directives(spec_parse_path(spec_tokenize(path_d@)), directives@));
        }
        let path = match build_lyon_path(&directives, offset_x, offset_y, scale_x, scale_y) {
            Ok(p) => p,
            Err(e) => {
                let res: Result<TessellatedMesh, SvgError> = Err(e);
                proof {
                    assert(spec_fill_outcome(path_d@, offset_x, offset_y, scale_x, scale_y, res));
                }
                return res;
            }
        };
        proof {
            assert(0x3DCC_CCCDu32 & 0x7F80_0000 != 0x7F80_0000) by (bit_vector);
        }
        match fill_tessellate(&mut self.fill_tessellator, &path, TOLERANCE_BITS) {
            Ok(bufs) => {
                let mesh = build_mesh(bufs.0, bufs.1);
                let res: Result<TessellatedMesh, SvgError> = Ok(mesh);
                proof {
                    assert(spec_fill_outcome(path_d@, offset_x, offset_y, scale_x, scale_y, res));
                }
                res
            }
            Err(msg) => {
                let res: Result<TessellatedMesh, SvgError> = Err(
                    SvgError::TessellationFailed(msg),
                );
                proof {
                    assert(spec_fill_outcome(path_d@, offset_x, offset_y, scale_x, scale_y, res));
                }
                res
            }
        }
    }

    /// Stroke-tessellates one path-data string: the line width handed to
    /// the tessellator is the given width scaled by the larger of the
    /// two scale factors, keeping stroke thickness visually consistent
    /// under non-uniform scale; failures come exactly as
    /// [`spec_stroke_outcome`] states.
    pub fn tessellate_stroke(
        &mut self,
        path_d: &str,
        stroke_width: u32,
        offset_x: u32,
        offset_y: u32,
        scale_x: u32,
        scale_y: u32,
    ) -> (r: Result<TessellatedMesh, SvgError>)
        ensures
            spec_stroke_outcome(path_d@, stroke_width, offset_x, offset_y, scale_x, scale_y, r),
            r matches Ok(mesh) ==> mesh.wf(),
    {
        let tokens = tokenize_svg_path(path_d);
        let commands = parse_svg_path_d(&tokens);
        let directives = interpret_commands(&commands);
        proof {
            assert(valid_directives(spec_parse_path(spec_tokenize(path_d@)), directives@));
        }
        let path = match build_lyon_path(&directives, offset_x, offset_y, scale_x, scale_y) {
            Ok(p) => p,
            Err(e) => {
                let res: Result<TessellatedMesh, SvgError> = Err(e);
                proof {
                    assert(spec_stroke_outcome(
                        path_d@,
                        stroke_width,
                        offset_x,
                        offset_y,
                        scale_x,
                        scale_y,
                        res,
                    ));
                }
                return res;
            }
        };
        let width = mul_f32(stroke_width, max_f32(scale_x, scale_y));
        if !f32_bits_is_finite(width) {
            let res: Result<TessellatedMesh, SvgError> = Err(SvgError::NonFiniteGeometry);
            proof {
                assert(spec_stroke_outcome(
                    path_d@,
                    stroke_width,
                    offset_x,
                    offset_y,
                    scale_x,
                    scale_y,
                    res,
                ));
            }
            return res;
        }
        proof {
            assert(0x3DCC_CCCDu32 & 0x7F80_0000 != 0x7F80_0000) by (bit_vector);
        }
        match stroke_tessellate(&mut self.stroke_tessellator, &path, width, TOLERANCE_BITS) {
            Ok(bufs) => {
                let mesh = build_mesh(bufs.0, bufs.1);
                let res: Result<TessellatedMesh, SvgError> = Ok(mesh);
                proof {
                    assert(spec_stroke_outcome(
                        path_d@,
                        stroke_width,
                        offset_x,
                        offset_y,
                        scale_x,
                        scale_y,
                        res,
                    ));
                }
                res
            }
            Err(msg) => {
                let res: Result<TessellatedMesh, SvgError> = Err(
                    SvgError::TessellationFailed(msg),
                );
                proof {
                    assert(spec_stroke_outcome(
                        path_d@,
                        stroke_width,
                        offset_x,
                        offset_y,
                        scale_x,
                        scale_y,
                        res,
                    ));
                }
                res
            }
        }
    }

    /// Tessellates every shape of a whole document at the scale that
    /// maps its native size onto the given display size — the native size
    /// from `viewBox` where present, else from `width`/`height`. On
    /// success the batch holds, in record order, a fill mesh for every
    /// record not filled `"none"`, then a stroke mesh for every record
    /// with a stroke other than `"none"` and a stroke width; attempts
    /// that come back without vertices contribute nothing. A rejection by
    /// the tessellation stage is fatal: the whole call fails with that
    /// record's error rather than returning a partial batch.
    pub fn tessellate_svg(
        &mut self,
        svg_content: &str,
        display_width: u32,
        display_height: u32,
    ) -> (r: Result<Vec<TessellatedMesh>, SvgError>)
        ensures
            ({
                let doc = spec_parse_svg_content(svg_content@);
                let nw = match doc.view_box {
                    Some(vb) => vb.width,
                    None => doc.width,
                };
                let nh = match doc.view_box {
                    Some(vb) => vb.height,
                    None => doc.height,
                };
                let sx = spec_div_f32(display_width, nw);
                let sy = spec_div_f32(display_height, nh);
                match r {
                    Ok(meshes) => spec_svg_meshes(doc.paths, sx, sy, meshes@),
                    Err(e) => exists|i: int|
                        0 <= i < doc.paths.len() && spec_record_fails(
                            #[trigger] doc.paths[i],
                            sx,
                            sy,
                            e,
                        ),
                }
            }),
            r matches Ok(meshes) ==> (forall|k: int|
                0 <= k < meshes@.len() ==> (#[trigger] meshes@[k]).wf()
                    && meshes@[k].vertices@.len() > 0) && meshes@.len() <= 2
                * spec_parse_svg_content(svg_content@).paths.len(),
    {
        let parsed = parse_svg_content(svg_content);
        let ghost doc = spec_parse_svg_content(svg_content@);
        let native_w = match parsed.view_box {
            Some(vb) => vb.width,
            None => parsed.width,
        };
        let native_h = match parsed.view_box {
            Some(vb) => vb.height,
            None => parsed.height,
        };
        let scale_x = div_f32(display_width, native_w);
        let scale_y = div_f32(display_height, native_h);
        proof {
            assert(scale_x == spec_div_f32(
                display_width,
                match doc.view_box {
                    Some(vb) => vb.width,
                    None => doc.width,
                },
            ));
            assert(scale_y == spec_div_f32(
                display_height,
                match doc.view_box {
                    Some(vb) => vb.height,
                    None => doc.height,
                },
            ));
        }

        let mut meshes: Vec<TessellatedMesh> = Vec::new();
        let n = parsed.paths.len();
        let mut idx: usize = 0;
        while idx < n
            invariant
                doc == spec_parse_svg_content(svg_content@),
                parsed.paths.deep_view() == doc.paths,
                n == parsed.paths@.len(),
                n == doc.paths.len(),
                idx <= n,
                meshes@.len() <= 2 * idx,
                scale_x == spec_div_f32(
                    display_width,
                    match doc.view_box {
                        Some(vb) => vb.width,
                        None => doc.width,
                    },
                ),
                scale_y == spec_div_f32(
                    display_height,
                    match doc.view_box {
                        Some(vb) => vb.height,
                        None => doc.height,
                    },
                ),
                spec_svg_meshes(doc.paths.take(idx as int), scale_x, scale_y, meshes@),
                forall|k: int|
                    0 <= k < meshes@.len() ==> (#[trigger] meshes@[k]).wf()
                        && meshes@[k].vertices@.len() > 0,
            decreases n - idx,
        {
            let ghost pv = doc.paths[idx as int];
            let ghost m0 = meshes@;
            proof {
                assert(pv == parsed.paths@[idx as int]@);
            }

            let do_fill = match &parsed.paths[idx].fill {
                Some(f) => !str_eq(f.as_str(), "none"),
                None => true,
            };
            proof {
                assert(do_fill == spec_fill_wanted(pv));
            }
            if do_fill {
                let r = self.tessellate_path(
                    parsed.paths[idx].d.as_str(),
                    F32_ZERO_BITS,
                    F32_ZERO_BITS,
                    scale_x,
                    scale_y,
                );
                let ghost rg = r;
                proof {
                    assert(spec_fill_outcome(pv.d, F32_ZERO_BITS, F32_ZERO_BITS, scale_x, scale_y, rg));
                }
                match r {
                    Ok(mesh) => {
                        if mesh.vertices.len() > 0 {
                            meshes.push(mesh);
                            proof {
                                assert(meshes@.skip(m0.len() as int) =~= seq![rg->Ok_0]);
                                assert(spec_fill_contrib(
                                    pv,
                                    scale_x,
                                    scale_y,
                                    meshes@.skip(m0.len() as int),
                                ));
                            }
                        } else {
                            proof {
                                assert(meshes@.skip(m0.len() as int)
                                    =~= Seq::<TessellatedMesh>::empty());
                                assert(spec_fill_contrib(
                                    pv,
                                    scale_x,
                                    scale_y,
                                    meshes@.skip(m0.len() as int),
                                ));
                            }
                        }
                    }
                    Err(e) => {
                        proof {
                            assert(spec_record_fails(doc.paths[idx as int], scale_x, scale_y, e));
                            assert(exists|i: int|
                                0 <= i < doc.paths.len() && spec_record_fails(
                                    #[trigger] doc.paths[i],
                                    scale_x,
                                    scale_y,
                                    e,
                                ));
                        }
                        return Err(e);
                    }
                }
            } else {
                proof {
                    assert(meshes@.skip(m0.len() as int) =~= Seq::<TessellatedMesh>::empty());
                    assert(spec_fill_contrib(pv, scale_x, scale_y, meshes@.skip(m0.len() as int)));
                }
            }
            let ghost m1 = meshes@;

            let stroke_width = parsed.paths[idx].stroke_width;
            let do_stroke = match (&parsed.paths[idx].stroke, stroke_width) {
                (Some(s), Some(_)) => !str_eq(s.as_str(), "none"),
                _ => false,
            };
            proof {
                assert(do_stroke == spec_stroke_wanted(pv));
            }
            if do_stroke {
                let width = match stroke_width {
                    Some(w) => w,
                    None => F32_ZERO_BITS,
                };
                let r = self.tessellate_stroke(
                    parsed.paths[idx].d.as_str(),
                    width,
                    F32_ZERO_BITS,
                    F32_ZERO_BITS,
                    scale_x,
                    scale_y,
                );
                let ghost rg = r;
                proof {
                    assert(width == pv.stroke_width->Some_0);
                    assert(spec_stroke_outcome(
                        pv.d,
                        pv.stroke_width->Some_0,
                        F32_ZERO_BITS,
                        F32_ZERO_BITS,
                        scale_x,
                        scale_y,
                        rg,
                    ));
                }
                match r {
                    Ok(mesh) => {
                        if mesh.vertices.len() > 0 {
                            meshes.push(mesh);
                            proof {
                                assert(meshes@.skip(m1.len() as int) =~= seq![rg->Ok_0]);
                                assert(spec_stroke_contrib(
                                    pv,
                                    scale_x,
                                    scale_y,
                                    meshes@.skip(m1.len() as int),
                                ));
                            }
                        } else {
                            proof {
                                assert(meshes@.skip(m1.len() as int)
                                    =~= Seq::<TessellatedMesh>::empty());
                                assert(spec_stroke_contrib(
                                    pv,
                                    scale_x,
                                    scale_y,
                                    meshes@.skip(m1.len() as int),
                                ));
                            }
                        }
                    }
                    Err(e) => {
                        proof {
                            assert(spec_record_fails(doc.paths[idx as int], scale_x, scale_y, e));
                            assert(exists|i: int|
                                0 <= i < doc.paths.len() && spec_record_fails(
                                    #[trigger] doc.paths[i],
                                    scale_x,
                                    scale_y,
                                    e,
                                ));
                        }
                        return Err(e);
                    }
                }
            } else {
                proof {
                    assert(meshes@.skip(m1.len() as int) =~= Seq::<TessellatedMesh>::empty());
                    assert(spec_stroke_contrib(pv, scale_x, scale_y, meshes@.skip(m1.len() as int)));
                }
            }

            idx += 1;
            proof {
                let block = meshes@.skip(m0.len() as int);
                let j = m1.len() as int - m0.len() as int;
                assert(meshes@.take(m0.len() as int) =~= m0);
                assert(block.take(j) =~= m1.skip(m0.len() as int));
                assert(block.skip(j) =~= meshes@.skip(m1.len() as int));
                assert(spec_fill_contrib(pv, scale_x, scale_y, block.take(j)));
                assert(spec_stroke_contrib(pv, scale_x, scale_y, block.skip(j)));
                assert(spec_path_contrib(pv, scale_x, scale_y, block));
                assert(doc.paths.take(idx as int).drop_last() =~= doc.paths.take(idx as int - 1));
                assert(doc.paths.take(idx as int).last() == pv);
                assert(spec_svg_meshes(doc.paths.take(idx as int), scale_x, scale_y, meshes@));
            }
        }
        proof {
            assert(doc.paths.take(n as int) =~= doc.paths);
        }
        Ok(meshes)
    }
}

} // verus!
