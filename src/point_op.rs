//! Geometry records and the grid arithmetic behind them.
//!
//! A polygon vertex is stored as a signed 16-bit offset from a movable
//! origin. Here all positions are measured in units of the file's coordinate
//! scale, relative to the item's first origin (the left/bottom corner of its
//! bounding box); turning units into radians is a multiplication by the scale
//! that callers do themselves.
use vstd::prelude::*;

use crate::enums::ByteOrder;
use crate::error::Error;
use crate::io::{i16_bytes, write_i16, write_u8};

verus! {

/// Flag byte of a [`PointOp::MoveOrigin`] record.
pub const POINT_OP_MOVE_ORIGIN: u8 = 0x81;

/// Flag byte of a [`PointOp::NewPoint`] record.
pub const POINT_OP_NEW_POINT: u8 = 0x01;

/// The largest accepted grid coordinate (in absolute value) for encoding.
pub const GRID_LIMIT: i64 = 0x3FFF_FFFF_FFFF_FFFF;

/// One geometry record: offsets in scale units.
#[derive(Debug, Clone, Copy, PartialEq, Eq, Structural)]
pub enum PointOp {
    /// Move the origin by this offset; no vertex.
    MoveOrigin { x: i16, y: i16 },
    /// A vertex at this offset from the current origin.
    NewPoint { x: i16, y: i16 },
}

/// A position on the grid of the coordinate scale: `x` counts longitude
/// units, `y` latitude units, both from the item's first origin.
#[derive(Debug, Clone, Copy, PartialEq, Eq, Structural)]
pub struct GridPoint {
    pub x: i64,
    pub y: i64,
}

/// The five bytes of a geometry record.
pub open spec fn op_bytes(op: PointOp, order: ByteOrder) -> Seq<u8> {
    match op {
        PointOp::MoveOrigin { x, y } => seq![POINT_OP_MOVE_ORIGIN] + i16_bytes(x, order) + i16_bytes(
            y,
            order,
        ),
        PointOp::NewPoint { x, y } => seq![POINT_OP_NEW_POINT] + i16_bytes(x, order) + i16_bytes(
            y,
            order,
        ),
    }
}

/// The bytes of a sequence of geometry records.
pub open spec fn ops_bytes(ops: Seq<PointOp>, order: ByteOrder) -> Seq<u8>
    decreases ops.len(),
{
    if ops.len() == 0 {
        Seq::empty()
    } else {
        ops_bytes(ops.drop_last(), order) + op_bytes(ops.last(), order)
    }
}

/// Whether an offset fits a signed 16-bit field.
pub open spec fn fits16(d: int) -> bool {
    -0x8000 <= d <= 0x7fff
}

/// `d` clamped to the signed 16-bit range.
pub open spec fn clamp16(d: int) -> int {
    if d < -0x8000 {
        -0x8000
    } else if d > 0x7fff {
        0x7fff
    } else {
        d
    }
}

/// `|d|`.
pub open spec fn abs(d: int) -> int {
    if d < 0 {
        -d
    } else {
        d
    }
}

/// The records that reach target `(tx, ty)` from origin `(ux, uy)`: while
/// the offset does not fit 16 bits, move the origin by the clamped offset;
/// then one vertex.
pub open spec fn steps(ux: int, uy: int, tx: int, ty: int) -> Seq<PointOp>
    decreases abs(tx - ux) + abs(ty - uy),
{
    let dx = tx - ux;
    let dy = ty - uy;
    if fits16(dx) && fits16(dy) {
        seq![PointOp::NewPoint { x: dx as i16, y: dy as i16 }]
    } else {
        seq![PointOp::MoveOrigin { x: clamp16(dx) as i16, y: clamp16(dy) as i16 }] + steps(
            ux + clamp16(dx),
            uy + clamp16(dy),
            tx,
            ty,
        )
    }
}

/// The origin from which [`steps`] places the vertex.
pub open spec fn settle(ux: int, uy: int, tx: int, ty: int) -> (int, int)
    decreases abs(tx - ux) + abs(ty - uy),
{
    let dx = tx - ux;
    let dy = ty - uy;
    if fits16(dx) && fits16(dy) {
        (ux, uy)
    } else {
        settle(ux + clamp16(dx), uy + clamp16(dy), tx, ty)
    }
}

/// The records that encode `pts` starting from origin `(ux, uy)`.
pub open spec fn plan(pts: Seq<GridPoint>, ux: int, uy: int) -> Seq<PointOp>
    decreases pts.len(),
{
    if pts.len() == 0 {
        Seq::empty()
    } else {
        let t = pts[0];
        let o = settle(ux, uy, t.x as int, t.y as int);
        steps(ux, uy, t.x as int, t.y as int) + plan(pts.drop_first(), o.0, o.1)
    }
}

/// The vertices that records give from origin `(ux, uy)`, left to right.
pub open spec fn resolve_ops(ops: Seq<PointOp>, ux: int, uy: int) -> Seq<(int, int)>
    decreases ops.len(),
{
    if ops.len() == 0 {
        Seq::empty()
    } else {
        match ops[0] {
            PointOp::MoveOrigin { x, y } => resolve_ops(ops.drop_first(), ux + x, uy + y),
            PointOp::NewPoint { x, y } => seq![(ux + x, uy + y)] + resolve_ops(
                ops.drop_first(),
                ux,
                uy,
            ),
        }
    }
}

/// Grid points as pairs of integers.
pub open spec fn grid_view(pts: Seq<GridPoint>) -> Seq<(int, int)> {
    pts.map_values(|p: GridPoint| (p.x as int, p.y as int))
}

/// Whether every point lies within [`GRID_LIMIT`] on both axes.
pub open spec fn grid_bounded(pts: Seq<GridPoint>) -> bool {
    forall|i: int|
        0 <= i < pts.len() ==> -GRID_LIMIT <= #[trigger] pts[i].x <= GRID_LIMIT && -GRID_LIMIT
            <= pts[i].y <= GRID_LIMIT
}

/// The records of [`steps`] resolve to the target, from where they leave
/// the origin.
proof fn lemma_steps_resolve(ux: int, uy: int, tx: int, ty: int, rest: Seq<PointOp>)
    ensures
        resolve_ops(steps(ux, uy, tx, ty) + rest, ux, uy) == seq![(tx, ty)] + resolve_ops(
            rest,
            settle(ux, uy, tx, ty).0,
            settle(ux, uy, tx, ty).1,
        ),
    decreases abs(tx - ux) + abs(ty - uy),
{
    let dx = tx - ux;
    let dy = ty - uy;
    let all = steps(ux, uy, tx, ty) + rest;
    if fits16(dx) && fits16(dy) {
        assert(all.drop_first() =~= rest);
    } else {
        let cx = clamp16(dx);
        let cy = clamp16(dy);
        assert(all.drop_first() =~= steps(ux + cx, uy + cy, tx, ty) + rest);
        lemma_steps_resolve(ux + cx, uy + cy, tx, ty, rest);
    }
}

/// Resolving a plan gives the planned points back.
proof fn lemma_plan_resolve(pts: Seq<GridPoint>, ux: int, uy: int)
    ensures
        resolve_ops(plan(pts, ux, uy), ux, uy) == grid_view(pts),
    decreases pts.len(),
{
    if pts.len() == 0 {
        assert(grid_view(pts) =~= Seq::<(int, int)>::empty());
    } else {
        let t = pts[0];
        let o = settle(ux, uy, t.x as int, t.y as int);
        lemma_steps_resolve(ux, uy, t.x as int, t.y as int, plan(pts.drop_first(), o.0, o.1));
        lemma_plan_resolve(pts.drop_first(), o.0, o.1);
        assert(grid_view(pts) =~= seq![(t.x as int, t.y as int)] + grid_view(pts.drop_first()));
    }
}

/// Geometry fidelity: encoding grid points and resolving the records gives
/// every point back exactly. (In radians the only loss is the rounding of a
/// coordinate to the grid, under one scale unit per axis.)
pub proof fn lemma_geometry_round_trip(pts: Seq<GridPoint>)
    ensures
        resolve_ops(plan(pts, 0, 0), 0, 0) == grid_view(pts),
{
    lemma_plan_resolve(pts, 0, 0);
}

/// Origin-move necessity: a target `k` times `i16::MAX` units away along
/// one axis, plus a remainder `r` with `0 < r <= i16::MAX`, takes exactly `k`
/// origin moves of `i16::MAX` before its vertex `r`.
pub proof fn lemma_origin_moves(ux: int, k: nat, r: int)
    requires
        0 < r <= 0x7fff,
    ensures
        steps(ux, 0, ux + k * 0x7fff + r, 0) == Seq::new(
            k,
            |i: int| PointOp::MoveOrigin { x: 0x7fff, y: 0 },
        ) + seq![PointOp::NewPoint { x: r as i16, y: 0 }],
    decreases k,
{
    if k == 0 {
        assert(Seq::new(k, |i: int| PointOp::MoveOrigin { x: 0x7fff, y: 0 }) + seq![
            PointOp::NewPoint { x: r as i16, y: 0 },
        ] =~= seq![PointOp::NewPoint { x: r as i16, y: 0 }]);
    } else {
        let k1 = (k - 1) as nat;
        assert(ux + k * 0x7fff + r == (ux + 0x7fff) + k1 * 0x7fff + r);
        lemma_origin_moves(ux + 0x7fff, k1, r);
        assert(Seq::new(k, |i: int| PointOp::MoveOrigin { x: 0x7fff, y: 0 }) + seq![
            PointOp::NewPoint { x: r as i16, y: 0 },
        ] =~= seq![PointOp::MoveOrigin { x: 0x7fff, y: 0 }] + (Seq::new(
            k1,
            |i: int| PointOp::MoveOrigin { x: 0x7fff, y: 0 },
        ) + seq![PointOp::NewPoint { x: r as i16, y: 0 }]));
    }
}

impl PointOp {
    /// Appends the five bytes of the record.
    pub fn write(&self, out: &mut Vec<u8>, byte_order: ByteOrder) -> (r: Result<(), Error>)
        ensures
            final(out)@ == old(out)@ + op_bytes(*self, byte_order),
            r is Ok,
    {
        match self {
            PointOp::MoveOrigin { x, y } => {
                let _ = write_u8(out, POINT_OP_MOVE_ORIGIN);
                let _ = write_i16(out, *x, byte_order);
                let _ = write_i16(out, *y, byte_order);
            },
            PointOp::NewPoint { x, y } => {
                let _ = write_u8(out, POINT_OP_NEW_POINT);
                let _ = write_i16(out, *x, byte_order);
                let _ = write_i16(out, *y, byte_order);
            },
        }
        assert(final(out)@ =~= old(out)@ + op_bytes(*self, byte_order));
        Ok(())
    }

    /// Encodes grid points as geometry records, starting from the grid's
    /// origin: each point gets one `NewPoint`, preceded by as many
    /// `MoveOrigin` records as its offset needs to fit 16 bits.
    pub fn from_points(points: &Vec<GridPoint>) -> (r: Vec<PointOp>)
        requires
            grid_bounded(points@),
        ensures
            r@ == plan(points@, 0, 0),
    {
        let mut ops: Vec<PointOp> = Vec::new();
        let mut ux: i64 = 0;
        let mut uy: i64 = 0;
        let mut i: usize = 0;
        assert(points@.subrange(0, points@.len() as int) =~= points@);
        assert(ops@ + plan(points@, 0, 0) =~= plan(points@, 0, 0));
        while i < points.len()
            invariant
                i <= points@.len(),
                grid_bounded(points@),
                -GRID_LIMIT <= ux <= GRID_LIMIT,
                -GRID_LIMIT <= uy <= GRID_LIMIT,
                ops@ + plan(points@.subrange(i as int, points@.len() as int), ux as int, uy as int)
                    == plan(points@, 0, 0),
            decreases points@.len() - i,
        {
            let t = points[i];
            let ghost tail = points@.subrange(i + 1, points@.len() as int);
            let ghost o = settle(ux as int, uy as int, t.x as int, t.y as int);
            assert(points@.subrange(i as int, points@.len() as int).drop_first() =~= tail);
            loop
                invariant_except_break
                    ops@ + steps(ux as int, uy as int, t.x as int, t.y as int) + plan(
                        tail,
                        o.0,
                        o.1,
                    ) == plan(points@, 0, 0),
                invariant
                    i < points@.len(),
                    t == points@[i as int],
                    -GRID_LIMIT <= ux <= GRID_LIMIT,
                    -GRID_LIMIT <= uy <= GRID_LIMIT,
                    -GRID_LIMIT <= t.x <= GRID_LIMIT,
                    -GRID_LIMIT <= t.y <= GRID_LIMIT,
                    settle(ux as int, uy as int, t.x as int, t.y as int) == o,
                ensures
                    ops@ + plan(tail, ux as int, uy as int) == plan(points@, 0, 0),
                    -GRID_LIMIT <= ux <= GRID_LIMIT,
                    -GRID_LIMIT <= uy <= GRID_LIMIT,
                decreases abs(t.x - ux) + abs(t.y - uy),
            {
                let dx = t.x - ux;
                let dy = t.y - uy;
                if -0x8000 <= dx && dx <= 0x7fff && -0x8000 <= dy && dy <= 0x7fff {
                    let ghost before = ops@;
                    ops.push(PointOp::NewPoint { x: dx as i16, y: dy as i16 });
                    assert(ops@ + plan(tail, o.0, o.1) =~= before + steps(
                        ux as int,
                        uy as int,
                        t.x as int,
                        t.y as int,
                    ) + plan(tail, o.0, o.1));
                    break ;
                }
                let cx: i64 = if dx < -0x8000 {
                    -0x8000
                } else if dx > 0x7fff {
                    0x7fff
                } else {
                    dx
                };
                let cy: i64 = if dy < -0x8000 {
                    -0x8000
                } else if dy > 0x7fff {
                    0x7fff
                } else {
                    dy
                };
                let ghost before = ops@;
                ops.push(PointOp::MoveOrigin { x: cx as i16, y: cy as i16 });
                assert(ops@ + steps(
                    (ux + cx) as int,
                    (uy + cy) as int,
                    t.x as int,
                    t.y as int,
                ) + plan(tail, o.0, o.1) =~= before + steps(
                    ux as int,
                    uy as int,
                    t.x as int,
                    t.y as int,
                ) + plan(tail, o.0, o.1));
                ux = ux + cx;
                uy = uy + cy;
            }
            i += 1;
        }
        assert(points@.subrange(i as int, points@.len() as int) =~= Seq::<GridPoint>::empty());
        assert(ops@ + Seq::<PointOp>::empty() =~= ops@);
        ops
    }

    /// Resolves geometry records into grid points: a `MoveOrigin` shifts the
    /// origin, a `NewPoint` yields the origin plus its offset.
    pub fn resolve(point_ops: &Vec<PointOp>) -> (r: Vec<GridPoint>)
        requires
            point_ops@.len() <= u32::MAX,
        ensures
            grid_view(r@) == resolve_ops(point_ops@, 0, 0),
    {
        let mut pts: Vec<GridPoint> = Vec::new();
        let mut ux: i64 = 0;
        let mut uy: i64 = 0;
        let mut i: usize = 0;
        assert(point_ops@.subrange(0, point_ops@.len() as int) =~= point_ops@);
        assert(grid_view(pts@) + resolve_ops(point_ops@, 0, 0) =~= resolve_ops(point_ops@, 0, 0));
        while i < point_ops.len()
            invariant
                i <= point_ops@.len() <= u32::MAX,
                -0x8000 * i <= ux <= 0x8000 * i,
                -0x8000 * i <= uy <= 0x8000 * i,
                grid_view(pts@) + resolve_ops(
                    point_ops@.subrange(i as int, point_ops@.len() as int),
                    ux as int,
                    uy as int,
                ) == resolve_ops(point_ops@, 0, 0),
            decreases point_ops@.len() - i,
        {
            let ghost rest = point_ops@.subrange(i as int, point_ops@.len() as int);
            assert(rest.drop_first() =~= point_ops@.subrange(i + 1, point_ops@.len() as int));
            let ghost before = pts@;
            match point_ops[i] {
                PointOp::MoveOrigin { x, y } => {
                    ux = ux + x as i64;
                    uy = uy + y as i64;
                },
                PointOp::NewPoint { x, y } => {
                    pts.push(GridPoint { x: ux + x as i64, y: uy + y as i64 });
                    assert(grid_view(pts@) =~= grid_view(before) + seq![
                        ((ux + x) as int, (uy + y) as int),
                    ]);
                },
            }
            i += 1;
        }
        assert(point_ops@.subrange(i as int, point_ops@.len() as int) =~= Seq::<PointOp>::empty());
        assert(grid_view(pts@) + Seq::<(int, int)>::empty() =~= grid_view(pts@));
        pts
    }
}

} // verus!
