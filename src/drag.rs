use vstd::prelude::*;
use crate::units::in_limit;
use crate::resolve::Size;
use crate::placement::{Bed, Placement, Point, scaled_size, in_coord_limit};

verus! {

/// Position on one bed axis of a pointer `p` pixels into a viewport `extent`
/// pixels long that shows `bed` quanta, rounded toward zero.
pub open spec fn to_bed_axis(p: int, extent: int, bed: int) -> int {
    if p >= 0 {
        p * bed / extent
    } else {
        -((-p) * bed / extent)
    }
}

/// The offset on one axis for a wanted position `c`, kept within
/// `[0, bed - extent]`; where the drawing is longer than the bed, the lower
/// bound wins and the offset is zero.
pub open spec fn clamp_axis(c: int, bed: int, extent: int) -> int {
    let hi = bed - extent;
    if c > hi {
        if hi < 0 {
            0
        } else {
            hi
        }
    } else if c < 0 {
        0
    } else {
        c
    }
}

/// Bound on the distance between a grabbed point and the drawing's offset.
pub open spec fn in_grab_limit(x: int) -> bool {
    -0x2_0000_0000_0000_0000_0000_0000_0000 <= x <= 0x2_0000_0000_0000_0000_0000_0000_0000
}

/// Footprint of a drawing of the given size at the given scale; a drawing of
/// unknown size takes no room.
pub open spec fn footprint_or_zero(size: Option<Size>, scale: int) -> (int, int) {
    match size {
        Some(s) => scaled_size(s, scale),
        None => (0, 0),
    }
}

fn to_bed_axis_exec(p: i32, extent: i32, bed: i128) -> (r: i128)
    requires
        extent > 0,
        0 < bed <= crate::units::LENGTH_LIMIT,
    ensures
        r == to_bed_axis(p as int, extent as int, bed as int),
        in_coord_limit(r as int),
{
    let n: i128 = if p >= 0 { p as i128 } else { -(p as i128) };
    assert(0 <= n * bed <= 0x8000_0000 * 0x1_0000_0000_0000_0000_0000) by (nonlinear_arith)
        requires
            0 <= n <= 0x8000_0000,
            0 < bed <= 0x1_0000_0000_0000_0000_0000,
    ;
    let q = n * bed / (extent as i128);
    assert(0 <= q <= n * bed) by (nonlinear_arith)
        requires
            0 <= n * bed,
            extent > 0,
            q == n * bed / (extent as int),
    ;
    if p >= 0 {
        q
    } else {
        -q
    }
}

/// Maps a pointer position, in pixels from the corner of a viewport that shows
/// the whole bed, to a point on the bed.
pub fn pointer_to_bed(
    pointer_x: i32,
    pointer_y: i32,
    viewport_width: i32,
    viewport_height: i32,
    bed: &Bed,
) -> (r: Point)
    requires
        viewport_width > 0,
        viewport_height > 0,
        bed.wf(),
    ensures
        r.x == to_bed_axis(pointer_x as int, viewport_width as int, bed.width as int),
        r.y == to_bed_axis(pointer_y as int, viewport_height as int, bed.height as int),
        in_coord_limit(r.x as int),
        in_coord_limit(r.y as int),
{
    Point {
        x: to_bed_axis_exec(pointer_x, viewport_width, bed.width),
        y: to_bed_axis_exec(pointer_y, viewport_height, bed.height),
    }
}

fn clamp_axis_exec(c: i128, bed: i128, extent: i128) -> (r: i128)
    requires
        -0x4_0000_0000_0000_0000_0000_0000_0000 <= c <= 0x4_0000_0000_0000_0000_0000_0000_0000,
        0 < bed <= crate::units::LENGTH_LIMIT,
        crate::placement::in_footprint_limit(extent as int),
    ensures
        in_coord_limit(r as int),
        r == clamp_axis(c as int, bed as int, extent as int),
{
    let hi = bed - extent;
    if c > hi {
        if hi < 0 {
            0
        } else {
            hi
        }
    } else if c < 0 {
        0
    } else {
        c
    }
}

/// The state of a drag of one drawing: while a drag is under way, the
/// distance from the drawing's offset to the point where it was grabbed.
#[derive(Clone, Copy, Debug, PartialEq, Eq, Structural)]
pub struct Drag {
    pub grab: Option<Point>,
}

impl Drag {
    pub open spec fn wf(&self) -> bool {
        self.grab matches Some(g) ==> in_grab_limit(g.x as int) && in_grab_limit(g.y as int)
    }

    /// No drag under way.
    pub fn new() -> (r: Drag)
        ensures
            r.wf(),
            r.grab is None,
    {
        Drag { grab: None }
    }

    pub fn is_dragging(&self) -> (r: bool)
        ensures
            r == self.grab is Some,
    {
        self.grab.is_some()
    }

    /// Starts a drag with the pointer at `pointer` on the bed and the drawing at
    /// `offset`, anchoring the drawing to the pointer where it was grabbed.
    pub fn start(&mut self, pointer: Point, offset: Point)
        requires
            in_coord_limit(pointer.x as int),
            in_coord_limit(pointer.y as int),
            in_coord_limit(offset.x as int),
            in_coord_limit(offset.y as int),
        ensures
            final(self).grab matches Some(g) && g.x == pointer.x - offset.x && g.y == pointer.y
                - offset.y,
            final(self).wf(),
    {
        self.grab = Some(Point { x: pointer.x - offset.x, y: pointer.y - offset.y });
    }

    /// Ends the drag; the drawing stays where it is.
    pub fn end(&mut self)
        ensures
            final(self).grab is None,
            final(self).wf(),
    {
        self.grab = None;
    }

    /// Moves the dragged drawing after the pointer, now at `pointer` on the bed,
    /// keeping it on the bed on each axis. Outside a drag nothing changes.
    pub fn drag_to(&self, placement: &mut Placement, pointer: Point, size: Option<Size>, bed: &Bed)
        requires
            self.wf(),
            old(placement).wf(),
            bed.wf(),
            in_coord_limit(pointer.x as int),
            in_coord_limit(pointer.y as int),
            size matches Some(s) ==> in_limit(s.width as int) && in_limit(s.height as int),
        ensures
            final(placement).wf(),
            final(placement).scale == old(placement).scale,
            match self.grab {
                None => final(placement).offset == old(placement).offset,
                Some(g) => {
                    let f = footprint_or_zero(size, old(placement).scale as int);
                    &&& final(placement).offset.x == clamp_axis(pointer.x - g.x, bed.width as int, f.0)
                    &&& final(placement).offset.y == clamp_axis(pointer.y - g.y, bed.height as int, f.1)
                },
            },
    {
        if let Some(g) = self.grab {
            let (fw, fh) = match placement.footprint(size) {
                Some(f) => (f.width, f.height),
                None => (0, 0),
            };
            let x = clamp_axis_exec(pointer.x - g.x, bed.width, fw);
            let y = clamp_axis_exec(pointer.y - g.y, bed.height, fh);
            placement.set_offset(Point { x, y });
        }
    }
}


/// Wherever the pointer goes, a dragged offset stays within `[0, bed - footprint]`
/// on each axis, and at zero where the footprint is longer than the bed.
pub proof fn dragged_offset_stays_on_bed(c: int, bed: int, extent: int)
    requires
        bed > 0,
    ensures
        clamp_axis(c, bed, extent) >= 0,
        extent <= bed ==> clamp_axis(c, bed, extent) + extent <= bed,
        extent > bed ==> clamp_axis(c, bed, extent) == 0,
        0 <= c <= bed - extent ==> clamp_axis(c, bed, extent) == c,
{
}


/// A drawing that fits the bed stays on it through a drag step, wherever the
/// pointer is, inside the viewport or not: each axis of the offset that
/// `drag_to` sets lies in `[0, bed - footprint]`.
pub proof fn drag_keeps_fitting_drawing_on_bed(pointer: Point, grab: Point, size: Option<Size>, scale: int, bed: Bed)
    requires
        bed.wf(),
        footprint_or_zero(size, scale).0 <= bed.width,
        footprint_or_zero(size, scale).1 <= bed.height,
    ensures
        ({
            let f = footprint_or_zero(size, scale);
            &&& 0 <= clamp_axis(pointer.x - grab.x, bed.width as int, f.0) <= bed.width - f.0
            &&& 0 <= clamp_axis(pointer.y - grab.y, bed.height as int, f.1) <= bed.height - f.1
        }),
{
    let f = footprint_or_zero(size, scale);
    dragged_offset_stays_on_bed(pointer.x - grab.x, bed.width as int, f.0);
    dragged_offset_stays_on_bed(pointer.y - grab.y, bed.height as int, f.1);
}

} // verus!
