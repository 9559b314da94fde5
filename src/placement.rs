use vstd::prelude::*;
use crate::units::{in_limit, LENGTH_LIMIT};
use crate::resolve::Size;
use crate::decimal::{decimal_milli, parse_decimal_milli, has_nonzero_digit, mantissa_of, mantissa_has_nonzero_digit};

verus! {

/// A point on the bed, in quanta from its origin corner.
#[derive(Clone, Copy, Debug, PartialEq, Eq, Structural)]
pub struct Point {
    pub x: i128,
    pub y: i128,
}

/// The work surface of the machine, in quanta.
#[derive(Clone, Copy, Debug, PartialEq, Eq, Structural)]
pub struct Bed {
    pub width: i128,
    pub height: i128,
}

impl Bed {
    pub open spec fn wf(&self) -> bool {
        0 < self.width <= LENGTH_LIMIT && 0 < self.height <= LENGTH_LIMIT
    }
}

/// Largest magnitude of a bed coordinate that the pointer can reach, and of a footprint.
pub const COORD_LIMIT: i128 = 0x1_0000_0000_0000_0000_0000_0000_0000;

pub open spec fn in_coord_limit(x: int) -> bool {
    -COORD_LIMIT <= x <= COORD_LIMIT
}

/// Largest magnitude of a footprint.
pub const FOOTPRINT_LIMIT: i128 = 0x80000000000000000000000000;

pub open spec fn in_footprint_limit(x: int) -> bool {
    -FOOTPRINT_LIMIT <= x <= FOOTPRINT_LIMIT
}

/// A scale of one, in thousandths.
pub const UNIT_SCALE: u32 = 1000;

/// How a drawing sits on the bed: a positive scale in thousandths and the
/// offset of its origin corner.
#[derive(Clone, Copy, Debug, PartialEq, Eq, Structural)]
pub struct Placement {
    pub scale: u32,
    pub offset: Point,
}

/// The scale, in thousandths, that typed text asks for: a positive decimal that
/// fits the scale's range, a positive one below a thousandth (a nonzero digit
/// in its mantissa) taken as one thousandth; `None` for anything else.
pub open spec fn scale_from_text(text: Seq<char>) -> Option<int> {
    match decimal_milli(text) {
        Some(v) => if 0 < v <= u32::MAX {
            Some(v)
        } else if v == 0 && text[0] != '-' && has_nonzero_digit(mantissa_of(text)) {
            Some(1)
        } else {
            None
        },
        None => None,
    }
}

/// `a / 1000` rounded up.
pub open spec fn ceil_milli(a: int) -> int {
    if a >= 0 {
        (a + 999) / 1000
    } else {
        -((-a) / 1000)
    }
}

pub open spec fn scaled_size(size: Size, scale: int) -> (int, int) {
    (ceil_milli(size.width * scale), ceil_milli(size.height * scale))
}

/// Whether a footprint lies within the bed on both axes, edges included.
pub open spec fn fits(footprint: (int, int), bed: Bed) -> bool {
    footprint.0 <= bed.width && footprint.1 <= bed.height
}

fn ceil_div_milli(a: i128) -> (r: i128)
    requires
        a > i128::MIN,
    ensures
        r == ceil_milli(a as int),
{
    if a >= 0 {
        (a / 1000) + if a % 1000 == 0 { 0 } else { 1 }
    } else {
        -((-a) / 1000)
    }
}

impl Placement {
    pub open spec fn wf(&self) -> bool {
        self.scale > 0 && in_coord_limit(self.offset.x as int) && in_coord_limit(self.offset.y as int)
    }

    /// Scale one, at the bed's origin.
    pub fn new() -> (r: Placement)
        ensures
            r.wf(),
            r.scale == UNIT_SCALE,
            r.offset == (Point { x: 0, y: 0 }),
    {
        Placement { scale: UNIT_SCALE, offset: Point { x: 0, y: 0 } }
    }

    /// Takes a new scale, in thousandths, if it is positive and representable;
    /// otherwise the placement is left as it was.
    pub fn set_scale(&mut self, milli: i64)
        requires
            old(self).wf(),
        ensures
            final(self).wf(),
            if 0 < milli <= u32::MAX {
                final(self).scale == milli && final(self).offset == old(self).offset
            } else {
                *final(self) == *old(self)
            },
    {
        if 0 < milli && milli <= u32::MAX as i64 {
            self.scale = milli as u32;
        }
    }

    /// Takes a scale typed as a decimal (`1.5` for one and a half); a positive
    /// scale below a thousandth counts as a thousandth. Text that is no number,
    /// or a number that is not positive, leaves the placement as it was.
    pub fn set_scale_text(&mut self, text: &str)
        requires
            old(self).wf(),
        ensures
            final(self).wf(),
            match scale_from_text(text@) {
                Some(v) => final(self).scale == v && final(self).offset == old(self).offset,
                None => *final(self) == *old(self),
            },
    {
        if let Some(v) = parse_decimal_milli(text) {
            if v == 0 {
                if text.get_char(0) != '-' && mantissa_has_nonzero_digit(text) {
                    self.set_scale(1);
                }
            } else {
                self.set_scale(v);
            }
        }
    }

    /// Moves the drawing to `offset`.
    pub fn set_offset(&mut self, offset: Point)
        requires
            old(self).wf(),
            in_coord_limit(offset.x as int),
            in_coord_limit(offset.y as int),
        ensures
            final(self).wf(),
            final(self).offset == offset,
            final(self).scale == old(self).scale,
    {
        self.offset = offset;
    }

    /// The physical size of the drawing as scaled, rounded up to whole quanta;
    /// unknown where its size is.
    pub fn footprint(&self, size: Option<Size>) -> (r: Option<Size>)
        requires
            size matches Some(s) ==> in_limit(s.width as int) && in_limit(s.height as int),
        ensures
            match size {
                Some(s) => r matches Some(f) && f@ == scaled_size(s, self.scale as int)
                    && in_footprint_limit(f.width as int) && in_footprint_limit(f.height as int),
                None => r is None,
            },
    {
        match size {
            Some(s) => {
                let k = self.scale as i128;
                assert(in_limit(s.width as int) && 0 <= k < 0x1_0000_0000);
                assert(-0x1_0000_0000_0000_0000_0000_0000_0000 <= s.width * k
                    <= 0x1_0000_0000_0000_0000_0000_0000_0000) by (nonlinear_arith)
                    requires
                        -0x1_0000_0000_0000_0000_0000 <= s.width <= 0x1_0000_0000_0000_0000_0000,
                        0 <= k < 0x1_0000_0000,
                ;
                assert(-0x1_0000_0000_0000_0000_0000_0000_0000 <= s.height * k
                    <= 0x1_0000_0000_0000_0000_0000_0000_0000) by (nonlinear_arith)
                    requires
                        -0x1_0000_0000_0000_0000_0000 <= s.height <= 0x1_0000_0000_0000_0000_0000,
                        0 <= k < 0x1_0000_0000,
                ;
                Some(Size { width: ceil_div_milli(s.width * k), height: ceil_div_milli(s.height * k) })
            },
            None => None,
        }
    }
}

/// Whether a footprint fits on the bed: neither axis exceeds the bed's.
pub fn fits_bed(footprint: &Size, bed: &Bed) -> (r: bool)
    ensures
        r == fits(footprint@, *bed),
{
    footprint.width <= bed.width && footprint.height <= bed.height
}


/// A scaled drawing fits the bed exactly when, on both axes, its exact scaled
/// length does not exceed the bed's; so one scaled to the bed's size fits.
pub proof fn fits_iff_scaled_length_within_bed(size: Size, scale: int, bed: Bed)
    ensures
        fits(scaled_size(size, scale), bed) <==> (size.width * scale <= bed.width * 1000
            && size.height * scale <= bed.height * 1000),
{
    lemma_ceil_milli_le(size.width * scale, bed.width as int);
    lemma_ceil_milli_le(size.height * scale, bed.height as int);
}

proof fn lemma_ceil_milli_le(a: int, b: int)
    ensures
        ceil_milli(a) <= b <==> a <= b * 1000,
{
    if a >= 0 {
        assert(((a + 999) / 1000 <= b) <==> (a <= b * 1000)) by (nonlinear_arith)
            requires a >= 0;
    } else {
        assert((-((-a) / 1000) <= b) <==> (a <= b * 1000)) by (nonlinear_arith)
            requires a < 0;
    }
}

} // verus!
