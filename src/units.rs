use vstd::prelude::*;

verus! {

/// One millimetre, in quanta.
pub const QUANTA_PER_MM: i128 = 1_440_000;

/// Units that a length in a drawing may be written in.
#[derive(Clone, Copy, Debug, PartialEq, Eq, Structural)]
pub enum LengthUnit {
    Unitless,
    Em,
    Ex,
    Px,
    In,
    Cm,
    Mm,
    Pt,
    Pc,
    Percent,
}

/// A length as written: a magnitude in thousandths of `unit`.
#[derive(Clone, Copy, Debug, PartialEq, Eq, Structural)]
pub struct Length {
    pub milli: i64,
    pub unit: LengthUnit,
}

/// Quanta in one thousandth of a unit, for the units with a fixed physical size.
/// A bare number counts as pixels at 96 pixels per inch.
pub open spec fn quanta_per_milli(unit: LengthUnit) -> Option<int> {
    match unit {
        LengthUnit::Mm => Some(1440),
        LengthUnit::Cm => Some(14400),
        LengthUnit::In => Some(36576),
        LengthUnit::Pt => Some(508),
        LengthUnit::Pc => Some(6096),
        LengthUnit::Px => Some(381),
        LengthUnit::Unitless => Some(381),
        _ => None,
    }
}

/// The physical size of a length in quanta, if its unit has one.
pub open spec fn length_quanta(len: Length) -> Option<int> {
    match quanta_per_milli(len.unit) {
        Some(q) => Some(len.milli * q),
        None => None,
    }
}

/// Largest magnitude that a physical length of this library may have.
pub const LENGTH_LIMIT: i128 = 0x1_0000_0000_0000_0000_0000;

pub open spec fn in_limit(x: int) -> bool {
    -LENGTH_LIMIT <= x <= LENGTH_LIMIT
}

/// Every length with a physical unit converts to a size within the limit.
pub proof fn lemma_length_quanta_in_limit(len: Length)
    ensures
        length_quanta(len) matches Some(q) ==> in_limit(q),
{
    if let Some(k) = quanta_per_milli(len.unit) {
        assert(0 < k <= 36576);
        assert(-0x8000_0000_0000_0000 <= len.milli <= 0x7fff_ffff_ffff_ffff);
        assert(-0x8000_0000_0000_0000 * 36576 <= len.milli * k <= 0x7fff_ffff_ffff_ffff * 36576)
            by (nonlinear_arith)
            requires
                0 < k <= 36576,
                -0x8000_0000_0000_0000 <= len.milli <= 0x7fff_ffff_ffff_ffff,
        ;
    }
}

/// Converts a length to quanta; `None` for units without a fixed physical size
/// (font-relative and percentage lengths).
pub fn to_quanta(len: Length) -> (r: Option<i128>)
    ensures
        r matches Some(q) ==> in_limit(q as int),
        match r {
            Some(q) => length_quanta(len) == Some(q as int),
            None => length_quanta(len) is None,
        },
{
    proof {
        lemma_length_quanta_in_limit(len);
    }
    let per: i128 = match len.unit {
        LengthUnit::Mm => 1440,
        LengthUnit::Cm => 14400,
        LengthUnit::In => 36576,
        LengthUnit::Pt => 508,
        LengthUnit::Pc => 6096,
        LengthUnit::Px | LengthUnit::Unitless => 381,
        LengthUnit::Em | LengthUnit::Ex | LengthUnit::Percent => {
            return None;
        },
    };
    Some(len.milli as i128 * per)
}


/// Each physical unit measures its nominal size in millimetres, exactly: a
/// length of `m` thousandths of the unit is `m / 1000 * n / d` millimetres for
/// millimetres (1/1), centimetres (10/1), inches (127/5, so 25.4), points
/// (127/360), picas (127/30), and pixels or bare numbers (127/480, at 96 per
/// inch).
pub proof fn unit_sizes_in_mm(m: i64)
    ensures
        length_quanta(Length { milli: m, unit: LengthUnit::Mm }).unwrap() * 1000 * 1 == m * 1 * QUANTA_PER_MM,
        length_quanta(Length { milli: m, unit: LengthUnit::Cm }).unwrap() * 1000 * 1 == m * 10 * QUANTA_PER_MM,
        length_quanta(Length { milli: m, unit: LengthUnit::In }).unwrap() * 1000 * 5 == m * 127 * QUANTA_PER_MM,
        length_quanta(Length { milli: m, unit: LengthUnit::Pt }).unwrap() * 1000 * 360 == m * 127 * QUANTA_PER_MM,
        length_quanta(Length { milli: m, unit: LengthUnit::Pc }).unwrap() * 1000 * 30 == m * 127 * QUANTA_PER_MM,
        length_quanta(Length { milli: m, unit: LengthUnit::Px }).unwrap() * 1000 * 480 == m * 127 * QUANTA_PER_MM,
        length_quanta(Length { milli: m, unit: LengthUnit::Unitless }).unwrap() * 1000 * 480 == m * 127 * QUANTA_PER_MM,
        length_quanta(Length { milli: m, unit: LengthUnit::Em }) is None,
        length_quanta(Length { milli: m, unit: LengthUnit::Ex }) is None,
        length_quanta(Length { milli: m, unit: LengthUnit::Percent }) is None,
{
}

} // verus!
