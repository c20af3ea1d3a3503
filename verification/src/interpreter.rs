//! Path command interpreter: a stateful walk over the command sequence
//! that produces absolute-space geometry directives.
//!
//! The cursor carries the pen position, the start of the open subpath (for
//! `Close`), the last control point and the family of the last command (for
//! smooth-curve reflection). Relative operands resolve against the pen
//! position; `H`/`V` reuse the other axis; `S`/`T` mirror the previous
//! control point across the pen when the previous command is of the same
//! curve family; a zero-radius arc degrades to a straight line (as does
//! one whose parameters the geometry library cannot take); any other arc
//! is flattened into quadratic pieces by that library.

use vstd::prelude::*;
use bytemuck::cast;
use lyon::geom::{Angle, ArcFlags, SvgArc};
use lyon::math::{Point, Vector};
use crate::float_bits::{
    is_nan_bits, is_tiny_bits, is_zero_bits, f32_bits_is_nan, f32_bits_is_tiny,
    f32_bits_is_zero, add_f32, sub_f32, spec_add_f32, spec_sub_f32, F32_ZERO_BITS,
};
use crate::path_data::PathCommand;

verus! {

/// Family of the most recent command, gating smooth-curve reflection.
#[derive(Debug, Clone, Copy, PartialEq, Eq, Structural)]
pub enum CommandFamily {
    CubicLike,
    QuadraticLike,
    Other,
}

/// The interpreter's mutable state, threaded through one pass.
#[derive(Debug, Clone, Copy, PartialEq, Eq, Structural)]
pub struct InterpreterCursor {
    pub current_x: u32,
    pub current_y: u32,
    pub subpath_start_x: u32,
    pub subpath_start_y: u32,
    pub last_control_x: u32,
    pub last_control_y: u32,
    pub family: CommandFamily,
    /// Whether a subpath is open: begun by a move (or by the implicit
    /// begin a drawing command inserts) and not yet closed.
    pub subpath_open: bool,
}

/// An absolute-space drawing directive: the interpreter's output contract
/// and the tessellation adapter's input contract.
#[derive(Debug, Clone, Copy, PartialEq, Eq, Structural)]
pub enum GeometryDirective {
    BeginAt { x: u32, y: u32 },
    LineTo { x: u32, y: u32 },
    QuadraticTo { cx: u32, cy: u32, x: u32, y: u32 },
    CubicTo { c1x: u32, c1y: u32, c2x: u32, c2y: u32, x: u32, y: u32 },
    Close,
}

/// One quadratic piece of a flattened elliptical arc.
#[derive(Debug, Clone, Copy, PartialEq, Eq, Structural)]
pub struct QuadPiece {
    pub ctrl_x: u32,
    pub ctrl_y: u32,
    pub x: u32,
    pub y: u32,
}

/// The state before any command: pen at the origin, no last command.
pub open spec fn init_cursor() -> InterpreterCursor {
    InterpreterCursor {
        current_x: F32_ZERO_BITS,
        current_y: F32_ZERO_BITS,
        subpath_start_x: F32_ZERO_BITS,
        subpath_start_y: F32_ZERO_BITS,
        last_control_x: F32_ZERO_BITS,
        last_control_y: F32_ZERO_BITS,
        family: CommandFamily::Other,
        subpath_open: false,
    }
}

/// An operand resolved to absolute space: added to the pen coordinate when
/// relative, taken as is otherwise.
pub open spec fn spec_resolve(rel: bool, cur: u32, v: u32) -> u32 {
    if rel {
        spec_add_f32(cur, v)
    } else {
        v
    }
}

/// Mirror of `l` across `c`: `2*c - l`, computed as `(c + c) - l`.
pub open spec fn spec_reflect(c: u32, l: u32) -> u32 {
    spec_sub_f32(spec_add_f32(c, c), l)
}

/// Whether any parameter that an arc hands to the geometry library is NaN.
pub open spec fn arc_param_nan(st: InterpreterCursor, rx: u32, ry: u32, rotation: u32, nx: u32, ny: u32) -> bool {
    ||| is_nan_bits(st.current_x)
    ||| is_nan_bits(st.current_y)
    ||| is_nan_bits(nx)
    ||| is_nan_bits(ny)
    ||| is_nan_bits(rx)
    ||| is_nan_bits(ry)
    ||| is_nan_bits(rotation)
}

/// Whether an arc degrades to a straight line to its target: a zero
/// radius (the grammar's rule), a NaN parameter, or a radius or chord so
/// tiny that the geometry library's conversion would square it into
/// nothing and trip over its own zero check.
pub open spec fn arc_is_degenerate(
    st: InterpreterCursor,
    rx: u32,
    ry: u32,
    rotation: u32,
    nx: u32,
    ny: u32,
) -> bool {
    ||| is_zero_bits(rx) || is_zero_bits(ry)
    ||| arc_param_nan(st, rx, ry, rotation, nx, ny)
    ||| is_tiny_bits(rx) || is_tiny_bits(ry)
    ||| (is_tiny_bits(spec_sub_f32(nx, st.current_x)) && is_tiny_bits(
        spec_sub_f32(ny, st.current_y),
    ))
}

/// The cursor after one command.
pub open spec fn step_cursor(st: InterpreterCursor, cmd: PathCommand) -> InterpreterCursor {
    match cmd {
        PathCommand::MoveTo { x, y, relative } => {
            let nx = spec_resolve(relative, st.current_x, x);
            let ny = spec_resolve(relative, st.current_y, y);
            InterpreterCursor {
                current_x: nx,
                current_y: ny,
                subpath_start_x: nx,
                subpath_start_y: ny,
                family: CommandFamily::Other,
                subpath_open: true,
                ..st
            }
        }
        PathCommand::LineTo { x, y, relative } => {
            let nx = spec_resolve(relative, st.current_x, x);
            let ny = spec_resolve(relative, st.current_y, y);
            InterpreterCursor {
                current_x: nx,
                current_y: ny,
                family: CommandFamily::Other,
                subpath_open: true,
                ..st
            }
        }
        PathCommand::HLineTo { x, relative } => {
            let nx = spec_resolve(relative, st.current_x, x);
            InterpreterCursor { current_x: nx, family: CommandFamily::Other, subpath_open: true, ..st }
        }
        PathCommand::VLineTo { y, relative } => {
            let ny = spec_resolve(relative, st.current_y, y);
            InterpreterCursor { current_y: ny, family: CommandFamily::Other, subpath_open: true, ..st }
        }
        PathCommand::CubicTo { x1: _, y1: _, x2, y2, x, y, relative } => {
            let n2x = spec_resolve(relative, st.current_x, x2);
            let n2y = spec_resolve(relative, st.current_y, y2);
            let nx = spec_resolve(relative, st.current_x, x);
            let ny = spec_resolve(relative, st.current_y, y);
            InterpreterCursor {
                current_x: nx,
                current_y: ny,
                last_control_x: n2x,
                last_control_y: n2y,
                family: CommandFamily::CubicLike,
                subpath_open: true,
                ..st
            }
        }
        PathCommand::SmoothCubicTo { x2, y2, x, y, relative } => {
            let n2x = spec_resolve(relative, st.current_x, x2);
            let n2y = spec_resolve(relative, st.current_y, y2);
            let nx = spec_resolve(relative, st.current_x, x);
            let ny = spec_resolve(relative, st.current_y, y);
            InterpreterCursor {
                current_x: nx,
                current_y: ny,
                last_control_x: n2x,
                last_control_y: n2y,
                family: CommandFamily::CubicLike,
                subpath_open: true,
                ..st
            }
        }
        PathCommand::QuadTo { x1, y1, x, y, relative } => {
            let n1x = spec_resolve(relative, st.current_x, x1);
            let n1y = spec_resolve(relative, st.current_y, y1);
            let nx = spec_resolve(relative, st.current_x, x);
            let ny = spec_resolve(relative, st.current_y, y);
            InterpreterCursor {
                current_x: nx,
                current_y: ny,
                last_control_x: n1x,
                last_control_y: n1y,
                family: CommandFamily::QuadraticLike,
                subpath_open: true,
                ..st
            }
        }
        PathCommand::SmoothQuadTo { x, y, relative } => {
            let cx = if st.family == CommandFamily::QuadraticLike {
                spec_reflect(st.current_x, st.last_control_x)
            } else {
                st.current_x
            };
            let cy = if st.family == CommandFamily::QuadraticLike {
                spec_reflect(st.current_y, st.last_control_y)
            } else {
                st.current_y
            };
            let nx = spec_resolve(relative, st.current_x, x);
            let ny = spec_resolve(relative, st.current_y, y);
            InterpreterCursor {
                current_x: nx,
                current_y: ny,
                last_control_x: cx,
                last_control_y: cy,
                family: CommandFamily::QuadraticLike,
                subpath_open: true,
                ..st
            }
        }
        PathCommand::ArcTo { rx: _, ry: _, rotation: _, large_arc: _, sweep: _, x, y, relative } => {
            let nx = spec_resolve(relative, st.current_x, x);
            let ny = spec_resolve(relative, st.current_y, y);
            InterpreterCursor {
                current_x: nx,
                current_y: ny,
                family: CommandFamily::Other,
                subpath_open: true,
                ..st
            }
        }
        PathCommand::Close => {
            InterpreterCursor {
                current_x: st.subpath_start_x,
                current_y: st.subpath_start_y,
                family: CommandFamily::Other,
                subpath_open: false,
                ..st
            }
        }
    }
}

/// The implicit begin a drawing command inserts when no subpath is open:
/// a new subpath starts at the pen position (after a `Close` that is the
/// subpath-start point). Empty when a subpath is already open.
pub open spec fn spec_begin_prefix(st: InterpreterCursor) -> Seq<GeometryDirective> {
    if st.subpath_open {
        seq![]
    } else {
        seq![GeometryDirective::BeginAt { x: st.current_x, y: st.current_y }]
    }
}

/// The directives one command emits, where they are a function of the
/// cursor and the command alone: the implicit begin where one is needed,
/// then the command's own directive. `None` stands for a curved arc,
/// whose pieces come from the geometry library's flattening.
pub open spec fn step_directives_known(st: InterpreterCursor, cmd: PathCommand) -> Option<
    Seq<GeometryDirective>,
> {
    match cmd {
        PathCommand::MoveTo { x, y, relative } => {
            let nx = spec_resolve(relative, st.current_x, x);
            let ny = spec_resolve(relative, st.current_y, y);
            Some(seq![GeometryDirective::BeginAt { x: nx, y: ny }])
        }
        PathCommand::LineTo { x, y, relative } => {
            let nx = spec_resolve(relative, st.current_x, x);
            let ny = spec_resolve(relative, st.current_y, y);
            Some(spec_begin_prefix(st) + seq![GeometryDirective::LineTo { x: nx, y: ny }])
        }
        PathCommand::HLineTo { x, relative } => {
            let nx = spec_resolve(relative, st.current_x, x);
            Some(spec_begin_prefix(st) + seq![GeometryDirective::LineTo { x: nx, y: st.current_y }])
        }
        PathCommand::VLineTo { y, relative } => {
            let ny = spec_resolve(relative, st.current_y, y);
            Some(spec_begin_prefix(st) + seq![GeometryDirective::LineTo { x: st.current_x, y: ny }])
        }
        PathCommand::CubicTo { x1, y1, x2, y2, x, y, relative } => {
            let n1x = spec_resolve(relative, st.current_x, x1);
            let n1y = spec_resolve(relative, st.current_y, y1);
            let n2x = spec_resolve(relative, st.current_x, x2);
            let n2y = spec_resolve(relative, st.current_y, y2);
            let nx = spec_resolve(relative, st.current_x, x);
            let ny = spec_resolve(relative, st.current_y, y);
            Some(
                spec_begin_prefix(st) + seq![
                    GeometryDirective::CubicTo {
                        c1x: n1x,
                        c1y: n1y,
                        c2x: n2x,
                        c2y: n2y,
                        x: nx,
                        y: ny,
                    },
                ],
            )
        }
        PathCommand::SmoothCubicTo { x2, y2, x, y, relative } => {
            let c1x = if st.family == CommandFamily::CubicLike {
                spec_reflect(st.current_x, st.last_control_x)
            } else {
                st.current_x
            };
            let c1y = if st.family == CommandFamily::CubicLike {
                spec_reflect(st.current_y, st.last_control_y)
            } else {
                st.current_y
            };
            let n2x = spec_resolve(relative, st.current_x, x2);
            let n2y = spec_resolve(relative, st.current_y, y2);
            let nx = spec_resolve(relative, st.current_x, x);
            let ny = spec_resolve(relative, st.current_y, y);
            Some(
                spec_begin_prefix(st) + seq![
                    GeometryDirective::CubicTo { c1x, c1y, c2x: n2x, c2y: n2y, x: nx, y: ny },
                ],
            )
        }
        PathCommand::QuadTo { x1, y1, x, y, relative } => {
            let n1x = spec_resolve(relative, st.current_x, x1);
            let n1y = spec_resolve(relative, st.current_y, y1);
            let nx = spec_resolve(relative, st.current_x, x);
            let ny = spec_resolve(relative, st.current_y, y);
            Some(
                spec_begin_prefix(st) + seq![
                    GeometryDirective::QuadraticTo { cx: n1x, cy: n1y, x: nx, y: ny },
                ],
            )
        }
        PathCommand::SmoothQuadTo { x, y, relative } => {
            let cx = if st.family == CommandFamily::QuadraticLike {
                spec_reflect(st.current_x, st.last_control_x)
            } else {
                st.current_x
            };
            let cy = if st.family == CommandFamily::QuadraticLike {
                spec_reflect(st.current_y, st.last_control_y)
            } else {
                st.current_y
            };
            let nx = spec_resolve(relative, st.current_x, x);
            let ny = spec_resolve(relative, st.current_y, y);
            Some(
                spec_begin_prefix(st) + seq![GeometryDirective::QuadraticTo { cx, cy, x: nx, y: ny }],
            )
        }
        PathCommand::ArcTo { rx, ry, rotation, large_arc: _, sweep: _, x, y, relative } => {
            let nx = spec_resolve(relative, st.current_x, x);
            let ny = spec_resolve(relative, st.current_y, y);
            if arc_is_degenerate(st, rx, ry, rotation, nx, ny) {
                Some(spec_begin_prefix(st) + seq![GeometryDirective::LineTo { x: nx, y: ny }])
            } else {
                None
            }
        }
        PathCommand::Close => Some(
            if st.subpath_open {
                seq![GeometryDirective::Close]
            } else {
                seq![]
            },
        ),
    }
}

/// The directive block one interpreter step may emit: exactly the known
/// block where one exists; for a curved arc, some sequence of quadratics.
pub open spec fn step_emits(
    st: InterpreterCursor,
    cmd: PathCommand,
    ds: Seq<GeometryDirective>,
) -> bool {
    match step_directives_known(st, cmd) {
        Some(e) => ds == e,
        None => {
            let p = spec_begin_prefix(st);
            &&& p.len() <= ds.len()
            &&& ds.take(p.len() as int) == p
            &&& forall|k: int| p.len() <= k < ds.len() ==> (#[trigger] ds[k]) is QuadraticTo
        },
    }
}

/// The cursor after a whole command sequence.
pub open spec fn cursor_after(cmds: Seq<PathCommand>) -> InterpreterCursor
    decreases cmds.len(),
{
    if cmds.len() == 0 {
        init_cursor()
    } else {
        step_cursor(cursor_after(cmds.drop_last()), cmds.last())
    }
}

/// Whether `out` is a directive sequence the interpreter may produce for
/// `cmds`: one block per command, in order, each as `step_emits` allows.
pub open spec fn valid_directives(cmds: Seq<PathCommand>, out: Seq<GeometryDirective>) -> bool
    decreases cmds.len(),
{
    if cmds.len() == 0 {
        out.len() == 0
    } else {
        exists|k: int|
            #![trigger out.take(k)]
            0 <= k <= out.len() && valid_directives(cmds.drop_last(), out.take(k))
                && step_emits(cursor_after(cmds.drop_last()), cmds.last(), out.skip(k))
    }
}

/// Relies on `lyon_geom::SvgArc::for_each_quadratic_bezier`: flattens the
/// elliptical arc from `from` to `to` with the given radii, x-rotation (in
/// degrees) and flags into quadratic pieces, in order. The pieces'
/// coordinates come from platform trigonometry, so nothing is assumed of
/// them. The NaN exclusions mirror the library's own entry assertions;
/// the tiny-radius and tiny-chord exclusions keep clear of its interior
/// zero check, which a radius–chord product that underflows to nothing
/// would trip in debug builds.
#[verifier::external_body]
fn arc_to_quadratics(
    from_x: u32,
    from_y: u32,
    rx: u32,
    ry: u32,
    rotation_deg: u32,
    large_arc: bool,
    sweep: bool,
    to_x: u32,
    to_y: u32,
) -> (quads: Vec<QuadPiece>)
    requires
        !is_nan_bits(from_x),
        !is_nan_bits(from_y),
        !is_nan_bits(rx),
        !is_nan_bits(ry),
        !is_nan_bits(rotation_deg),
        !is_nan_bits(to_x),
        !is_nan_bits(to_y),
        !is_tiny_bits(rx),
        !is_tiny_bits(ry),
        !is_tiny_bits(spec_sub_f32(to_x, from_x)) || !is_tiny_bits(
            spec_sub_f32(to_y, from_y),
        ),
{
    let arc = SvgArc {
        from: Point::new(cast(from_x), cast(from_y)),
        to: Point::new(cast(to_x), cast(to_y)),
        radii: Vector::new(cast(rx), cast(ry)),
        x_rotation: Angle::degrees(cast(rotation_deg)),
        flags: ArcFlags { large_arc, sweep },
    };
    let mut quads = Vec::new();
    arc.for_each_quadratic_bezier(&mut |q| {
        let (c, p) = (q.ctrl, q.to);
        quads.push(QuadPiece { ctrl_x: cast(c.x), ctrl_y: cast(c.y), x: cast(p.x), y: cast(p.y) });
    });
    quads
}

/// Resolves one operand to absolute space at runtime.
fn resolve(rel: bool, cur: u32, v: u32) -> (r: u32)
    ensures
        r == spec_resolve(rel, cur, v),
{
    if rel {
        add_f32(cur, v)
    } else {
        v
    }
}

/// Mirrors the last control point across the pen at runtime.
fn reflect(c: u32, l: u32) -> (r: u32)
    ensures
        r == spec_reflect(c, l),
{
    sub_f32(add_f32(c, c), l)
}

/// Applies one command: updates the cursor and appends the emitted
/// directives.
fn apply_command(
    cur: &mut InterpreterCursor,
    cmd: PathCommand,
    out: &mut Vec<GeometryDirective>,
)
    ensures
        *final(cur) == step_cursor(*old(cur), cmd),
        (*final(out))@.len() >= (*old(out))@.len(),
        (*final(out))@.take((*old(out))@.len() as int) == (*old(out))@,
        step_emits(*old(cur), cmd, (*final(out))@.skip((*old(out))@.len() as int)),
{
    let ghost pre = (*out)@;
    let ghost st0 = *cur;
    match cmd {
        PathCommand::MoveTo { x, y, relative } => {
            let nx = resolve(relative, cur.current_x, x);
            let ny = resolve(relative, cur.current_y, y);
            out.push(GeometryDirective::BeginAt { x: nx, y: ny });
            cur.current_x = nx;
            cur.current_y = ny;
            cur.subpath_start_x = nx;
            cur.subpath_start_y = ny;
            cur.family = CommandFamily::Other;
            cur.subpath_open = true;
            proof {
                assert((*out)@.skip(pre.len() as int) =~= seq![
                    GeometryDirective::BeginAt { x: nx, y: ny },
                ]);
                assert((*out)@.take(pre.len() as int) =~= pre);
            }
        }
        PathCommand::LineTo { x, y, relative } => {
            let nx = resolve(relative, cur.current_x, x);
            let ny = resolve(relative, cur.current_y, y);
            if !cur.subpath_open {
                out.push(GeometryDirective::BeginAt { x: cur.current_x, y: cur.current_y });
            }
            out.push(GeometryDirective::LineTo { x: nx, y: ny });
            cur.current_x = nx;
            cur.current_y = ny;
            cur.family = CommandFamily::Other;
            cur.subpath_open = true;
            proof {
                assert((*out)@.skip(pre.len() as int) =~= spec_begin_prefix(st0) + seq![
                    GeometryDirective::LineTo { x: nx, y: ny },
                ]);
                assert((*out)@.take(pre.len() as int) =~= pre);
            }
        }
        PathCommand::HLineTo { x, relative } => {
            let nx = resolve(relative, cur.current_x, x);
            if !cur.subpath_open {
                out.push(GeometryDirective::BeginAt { x: cur.current_x, y: cur.current_y });
            }
            out.push(GeometryDirective::LineTo { x: nx, y: cur.current_y });
            cur.current_x = nx;
            cur.family = CommandFamily::Other;
            cur.subpath_open = true;
            proof {
                assert((*out)@.skip(pre.len() as int) =~= spec_begin_prefix(st0) + seq![
                    GeometryDirective::LineTo { x: nx, y: st0.current_y },
                ]);
                assert((*out)@.take(pre.len() as int) =~= pre);
            }
        }
        PathCommand::VLineTo { y, relative } => {
            let ny = resolve(relative, cur.current_y, y);
            if !cur.subpath_open {
                out.push(GeometryDirective::BeginAt { x: cur.current_x, y: cur.current_y });
            }
            out.push(GeometryDirective::LineTo { x: cur.current_x, y: ny });
            cur.current_y = ny;
            cur.family = CommandFamily::Other;
            cur.subpath_open = true;
            proof {
                assert((*out)@.skip(pre.len() as int) =~= spec_begin_prefix(st0) + seq![
                    GeometryDirective::LineTo { x: st0.current_x, y: ny },
                ]);
                assert((*out)@.take(pre.len() as int) =~= pre);
            }
        }
        PathCommand::CubicTo { x1, y1, x2, y2, x, y, relative } => {
            let n1x = resolve(relative, cur.current_x, x1);
            let n1y = resolve(relative, cur.current_y, y1);
            let n2x = resolve(relative, cur.current_x, x2);
            let n2y = resolve(relative, cur.current_y, y2);
            let nx = resolve(relative, cur.current_x, x);
            let ny = resolve(relative, cur.current_y, y);
            if !cur.subpath_open {
                out.push(GeometryDirective::BeginAt { x: cur.current_x, y: cur.current_y });
            }
            out.push(
                GeometryDirective::CubicTo { c1x: n1x, c1y: n1y, c2x: n2x, c2y: n2y, x: nx, y: ny },
            );
            cur.current_x = nx;
            cur.current_y = ny;
            cur.last_control_x = n2x;
            cur.last_control_y = n2y;
            cur.family = CommandFamily::CubicLike;
            cur.subpath_open = true;
            proof {
                assert((*out)@.skip(pre.len() as int) =~= spec_begin_prefix(st0) + seq![
                    GeometryDirective::CubicTo {
                        c1x: n1x,
                        c1y: n1y,
                        c2x: n2x,
                        c2y: n2y,
                        x: nx,
                        y: ny,
                    },
                ]);
                assert((*out)@.take(pre.len() as int) =~= pre);
            }
        }
        PathCommand::SmoothCubicTo { x2, y2, x, y, relative } => {
            let cubic_prev = match cur.family {
                CommandFamily::CubicLike => true,
                _ => false,
            };
            let c1x = if cubic_prev {
                reflect(cur.current_x, cur.last_control_x)
            } else {
                cur.current_x
            };
            let c1y = if cubic_prev {
                reflect(cur.current_y, cur.last_control_y)
            } else {
                cur.current_y
            };
            let n2x = resolve(relative, cur.current_x, x2);
            let n2y = resolve(relative, cur.current_y, y2);
            let nx = resolve(relative, cur.current_x, x);
            let ny = resolve(relative, cur.current_y, y);
            if !cur.subpath_open {
                out.push(GeometryDirective::BeginAt { x: cur.current_x, y: cur.current_y });
            }
            out.push(
                GeometryDirective::CubicTo { c1x, c1y, c2x: n2x, c2y: n2y, x: nx, y: ny },
            );
            cur.current_x = nx;
            cur.current_y = ny;
            cur.last_control_x = n2x;
            cur.last_control_y = n2y;
            cur.family = CommandFamily::CubicLike;
            cur.subpath_open = true;
            proof {
                assert((*out)@.skip(pre.len() as int) =~= spec_begin_prefix(st0) + seq![
                    GeometryDirective::CubicTo { c1x, c1y, c2x: n2x, c2y: n2y, x: nx, y: ny },
                ]);
                assert((*out)@.take(pre.len() as int) =~= pre);
            }
        }
        PathCommand::QuadTo { x1, y1, x, y, relative } => {
            let n1x = resolve(relative, cur.current_x, x1);
            let n1y = resolve(relative, cur.current_y, y1);
            let nx = resolve(relative, cur.current_x, x);
            let ny = resolve(relative, cur.current_y, y);
            if !cur.subpath_open {
                out.push(GeometryDirective::BeginAt { x: cur.current_x, y: cur.current_y });
            }
            out.push(GeometryDirective::QuadraticTo { cx: n1x, cy: n1y, x: nx, y: ny });
            cur.current_x = nx;
            cur.current_y = ny;
            cur.last_control_x = n1x;
            cur.last_control_y = n1y;
            cur.family = CommandFamily::QuadraticLike;
            cur.subpath_open = true;
            proof {
                assert((*out)@.skip(pre.len() as int) =~= spec_begin_prefix(st0) + seq![
                    GeometryDirective::QuadraticTo { cx: n1x, cy: n1y, x: nx, y: ny },
                ]);
                assert((*out)@.take(pre.len() as int) =~= pre);
            }
        }
        PathCommand::SmoothQuadTo { x, y, relative } => {
            let quad_prev = match cur.family {
                CommandFamily::QuadraticLike => true,
                _ => false,
            };
            let cx = if quad_prev {
                reflect(cur.current_x, cur.last_control_x)
            } else {
                cur.current_x
            };
            let cy = if quad_prev {
                reflect(cur.current_y, cur.last_control_y)
            } else {
                cur.current_y
            };
            let nx = resolve(relative, cur.current_x, x);
            let ny = resolve(relative, cur.current_y, y);
            if !cur.subpath_open {
                out.push(GeometryDirective::BeginAt { x: cur.current_x, y: cur.current_y });
            }
            out.push(GeometryDirective::QuadraticTo { cx, cy, x: nx, y: ny });
            cur.current_x = nx;
            cur.current_y = ny;
            cur.last_control_x = cx;
            cur.last_control_y = cy;
            cur.family = CommandFamily::QuadraticLike;
            cur.subpath_open = true;
            proof {
                assert((*out)@.skip(pre.len() as int) =~= spec_begin_prefix(st0) + seq![
                    GeometryDirective::QuadraticTo { cx, cy, x: nx, y: ny },
                ]);
                assert((*out)@.take(pre.len() as int) =~= pre);
            }
        }
        PathCommand::ArcTo { rx, ry, rotation, large_arc, sweep, x, y, relative } => {
            let nx = resolve(relative, cur.current_x, x);
            let ny = resolve(relative, cur.current_y, y);
            let zero_radius = f32_bits_is_zero(rx) || f32_bits_is_zero(ry);
            let nan_param = f32_bits_is_nan(cur.current_x) || f32_bits_is_nan(cur.current_y)
                || f32_bits_is_nan(nx) || f32_bits_is_nan(ny) || f32_bits_is_nan(rx)
                || f32_bits_is_nan(ry) || f32_bits_is_nan(rotation);
            let dx = sub_f32(nx, cur.current_x);
            let dy = sub_f32(ny, cur.current_y);
            let tiny = f32_bits_is_tiny(rx) || f32_bits_is_tiny(ry) || (f32_bits_is_tiny(dx)
                && f32_bits_is_tiny(dy));
            if zero_radius || nan_param || tiny {
                if !cur.subpath_open {
                    out.push(GeometryDirective::BeginAt { x: cur.current_x, y: cur.current_y });
                }
                out.push(GeometryDirective::LineTo { x: nx, y: ny });
                proof {
                    assert((*out)@.skip(pre.len() as int) =~= spec_begin_prefix(st0) + seq![
                        GeometryDirective::LineTo { x: nx, y: ny },
                    ]);
                    assert((*out)@.take(pre.len() as int) =~= pre);
                }
            } else {
                if !cur.subpath_open {
                    out.push(GeometryDirective::BeginAt { x: cur.current_x, y: cur.current_y });
                }
                let ghost pl = spec_begin_prefix(st0).len() as int;
                proof {
                    assert((*out)@.skip(pre.len() as int).take(pl) =~= spec_begin_prefix(st0));
                }
                let quads = arc_to_quadratics(
                    cur.current_x,
                    cur.current_y,
                    rx,
                    ry,
                    rotation,
                    large_arc,
                    sweep,
                    nx,
                    ny,
                );
                let mut qi: usize = 0;
                while qi < quads.len()
                    invariant
                        pl == spec_begin_prefix(st0).len() as int,
                        (*out)@.len() == pre.len() + pl + qi,
                        qi <= quads@.len(),
                        (*out)@.take(pre.len() as int) == pre,
                        (*out)@.skip(pre.len() as int).take(pl) == spec_begin_prefix(st0),
                        forall|k: int|
                            pre.len() + pl <= k < (*out)@.len() ==> (#[trigger] (*out)@[k])
                                is QuadraticTo,
                    decreases quads@.len() - qi,
                {
                    let q = quads[qi];
                    out.push(
                        GeometryDirective::QuadraticTo {
                            cx: q.ctrl_x,
                            cy: q.ctrl_y,
                            x: q.x,
                            y: q.y,
                        },
                    );
                    qi += 1;
                    proof {
                        assert((*out)@.take(pre.len() as int) =~= pre);
                        assert((*out)@.skip(pre.len() as int).take(pl) =~= spec_begin_prefix(
                            st0,
                        ));
                    }
                }
                proof {
                    let ds = (*out)@.skip(pre.len() as int);
                    assert(ds.take(pl) == spec_begin_prefix(st0));
                    assert forall|k: int| pl <= k < ds.len() implies (#[trigger] ds[k])
                        is QuadraticTo by {
                        assert(ds[k] == (*out)@[pre.len() + k]);
                    }
                }
            }
            cur.current_x = nx;
            cur.current_y = ny;
            cur.family = CommandFamily::Other;
            cur.subpath_open = true;
        }
        PathCommand::Close => {
            if cur.subpath_open {
                out.push(GeometryDirective::Close);
            }
            cur.current_x = cur.subpath_start_x;
            cur.current_y = cur.subpath_start_y;
            cur.family = CommandFamily::Other;
            cur.subpath_open = false;
            proof {
                if st0.subpath_open {
                    assert((*out)@.skip(pre.len() as int) =~= seq![GeometryDirective::Close]);
                } else {
                    assert((*out)@.skip(pre.len() as int) =~= Seq::<GeometryDirective>::empty());
                }
                assert((*out)@.take(pre.len() as int) =~= pre);
            }
        }
    }
}

/// Interprets a command sequence into absolute-space geometry directives,
/// starting from the initial cursor.
pub fn interpret_commands(cmds: &Vec<PathCommand>) -> (out: Vec<GeometryDirective>)
    ensures
        valid_directives(cmds@, out@),
{
    let mut out: Vec<GeometryDirective> = Vec::new();
    let mut cur = InterpreterCursor {
        current_x: F32_ZERO_BITS,
        current_y: F32_ZERO_BITS,
        subpath_start_x: F32_ZERO_BITS,
        subpath_start_y: F32_ZERO_BITS,
        last_control_x: F32_ZERO_BITS,
        last_control_y: F32_ZERO_BITS,
        family: CommandFamily::Other,
        subpath_open: false,
    };
    let mut idx: usize = 0;
    while idx < cmds.len()
        invariant
            idx <= cmds@.len(),
            cur == cursor_after(cmds@.take(idx as int)),
            valid_directives(cmds@.take(idx as int), out@),
        decreases cmds@.len() - idx,
    {
        let ghost pre_out = out@;
        let ghost pre_cmds = cmds@.take(idx as int);
        let c = cmds[idx];
        apply_command(&mut cur, c, &mut out);
        idx += 1;
        proof {
            let now_cmds = cmds@.take(idx as int);
            assert(now_cmds.drop_last() =~= pre_cmds);
            assert(now_cmds.last() == c);
            let k = pre_out.len() as int;
            assert(out@.take(k) == pre_out);
            assert(valid_directives(now_cmds.drop_last(), out@.take(k)));
            assert(step_emits(cursor_after(now_cmds.drop_last()), now_cmds.last(), out@.skip(k)));
            assert(valid_directives(now_cmds, out@));
        }
    }
    proof {
        assert(cmds@.take(cmds@.len() as int) =~= cmds@);
    }
    out
}

/// Whether every step of a command sequence emits a known directive
/// block: true whenever no command is a curved arc.
pub open spec fn all_steps_known(cmds: Seq<PathCommand>) -> bool {
    forall|j: int|
        0 <= j < cmds.len() ==> (#[trigger] step_directives_known(
            cursor_after(cmds.take(j)),
            cmds[j],
        )) is Some
}

/// Law: away from curved arcs the interpreter is deterministic — any two
/// directive sequences valid for the same commands are equal.
pub proof fn lemma_directives_deterministic(
    cmds: Seq<PathCommand>,
    out1: Seq<GeometryDirective>,
    out2: Seq<GeometryDirective>,
)
    requires
        valid_directives(cmds, out1),
        valid_directives(cmds, out2),
        all_steps_known(cmds),
    ensures
        out1 == out2,
    decreases cmds.len(),
{
    if cmds.len() == 0 {
        assert(out1 =~= out2);
    } else {
        let rest = cmds.drop_last();
        let st = cursor_after(rest);
        let k1 = choose|k: int|
            #![trigger out1.take(k)]
            0 <= k <= out1.len() && valid_directives(rest, out1.take(k)) && step_emits(
                st,
                cmds.last(),
                out1.skip(k),
            );
        let k2 = choose|k: int|
            #![trigger out2.take(k)]
            0 <= k <= out2.len() && valid_directives(rest, out2.take(k)) && step_emits(
                st,
                cmds.last(),
                out2.skip(k),
            );
        assert(rest.take(cmds.len() - 1) =~= rest);
        assert(cmds.take(cmds.len() - 1) =~= rest);
        assert(forall|j: int|
            0 <= j < rest.len() ==> rest.take(j) =~= cmds.take(j) && rest[j] == cmds[j]);
        assert(all_steps_known(rest));
        lemma_directives_deterministic(rest, out1.take(k1), out2.take(k2));
        let e = step_directives_known(st, cmds.last())->Some_0;
        assert(out1.skip(k1) == e && out2.skip(k2) == e);
        assert(out1.len() - k1 == out2.len() - k2);
        assert(k1 == k2);
        assert(out1 =~= out1.take(k1) + out1.skip(k1));
        assert(out2 =~= out2.take(k2) + out2.skip(k2));
        assert(out1 =~= out2);
    }
}

/// Law: a `Close` resets the pen to the most recent subpath start.
pub proof fn lemma_close_resets_pen(st: InterpreterCursor)
    ensures
        step_cursor(st, PathCommand::Close).current_x == st.subpath_start_x,
        step_cursor(st, PathCommand::Close).current_y == st.subpath_start_y,
{
}

/// Law: a relative line emitted immediately after a `Close` begins a new
/// subpath at the subpath-start point and draws from there — never from
/// wherever the pen was before closing.
pub proof fn lemma_line_after_close(st: InterpreterCursor, dx: u32, dy: u32)
    ensures
        step_directives_known(
            step_cursor(st, PathCommand::Close),
            PathCommand::LineTo { x: dx, y: dy, relative: true },
        ) == Some(
            seq![
                GeometryDirective::BeginAt { x: st.subpath_start_x, y: st.subpath_start_y },
                GeometryDirective::LineTo {
                    x: spec_add_f32(st.subpath_start_x, dx),
                    y: spec_add_f32(st.subpath_start_y, dy),
                },
            ],
        ),
{
    let st1 = step_cursor(st, PathCommand::Close);
    assert(step_directives_known(
        st1,
        PathCommand::LineTo { x: dx, y: dy, relative: true },
    )->Some_0 =~= seq![
        GeometryDirective::BeginAt { x: st.subpath_start_x, y: st.subpath_start_y },
        GeometryDirective::LineTo {
            x: spec_add_f32(st.subpath_start_x, dx),
            y: spec_add_f32(st.subpath_start_y, dy),
        },
    ]);
}

/// Law: the first control point of a smooth cubic is the mirror
/// `2*current - lastControl` exactly when the immediately preceding command
/// is cubic-like; otherwise it is the current pen position exactly.
pub proof fn lemma_smooth_cubic_reflection(
    st: InterpreterCursor,
    x2: u32,
    y2: u32,
    x: u32,
    y: u32,
    relative: bool,
)
    ensures
        ({
            let ds = step_directives_known(
                st,
                PathCommand::SmoothCubicTo { x2, y2, x, y, relative },
            )->Some_0;
            &&& ds.len() == spec_begin_prefix(st).len() + 1
            &&& st.family == CommandFamily::CubicLike ==> ds.last()->CubicTo_c1x == spec_reflect(
                st.current_x,
                st.last_control_x,
            ) && ds.last()->CubicTo_c1y == spec_reflect(st.current_y, st.last_control_y)
            &&& st.family != CommandFamily::CubicLike ==> ds.last()->CubicTo_c1x == st.current_x
                && ds.last()->CubicTo_c1y == st.current_y
        }),
{
}

/// Law: the control point of a smooth quadratic is the mirror
/// `2*current - lastControl` exactly when the immediately preceding command
/// is quadratic-like; otherwise it is the current pen position exactly.
pub proof fn lemma_smooth_quad_reflection(
    st: InterpreterCursor,
    x: u32,
    y: u32,
    relative: bool,
)
    ensures
        ({
            let ds = step_directives_known(st, PathCommand::SmoothQuadTo { x, y, relative })->Some_0;
            &&& ds.len() == spec_begin_prefix(st).len() + 1
            &&& st.family == CommandFamily::QuadraticLike ==> ds.last()->QuadraticTo_cx
                == spec_reflect(st.current_x, st.last_control_x) && ds.last()->QuadraticTo_cy
                == spec_reflect(st.current_y, st.last_control_y)
            &&& st.family != CommandFamily::QuadraticLike ==> ds.last()->QuadraticTo_cx
                == st.current_x && ds.last()->QuadraticTo_cy == st.current_y
        }),
{
}

/// Law: an arc whose `rx` or `ry` is zero emits exactly one `LineTo` to
/// its target and no curve directive (beyond the begin a drawing command
/// inserts when no subpath is open).
pub proof fn lemma_zero_radius_arc(
    st: InterpreterCursor,
    rx: u32,
    ry: u32,
    rotation: u32,
    large_arc: bool,
    sweep: bool,
    x: u32,
    y: u32,
    relative: bool,
)
    requires
        is_zero_bits(rx) || is_zero_bits(ry),
    ensures
        step_directives_known(
            st,
            PathCommand::ArcTo { rx, ry, rotation, large_arc, sweep, x, y, relative },
        ) == Some(
            spec_begin_prefix(st) + seq![
                GeometryDirective::LineTo {
                    x: spec_resolve(relative, st.current_x, x),
                    y: spec_resolve(relative, st.current_y, y),
                },
            ],
        ),
{
}

} // verus!
