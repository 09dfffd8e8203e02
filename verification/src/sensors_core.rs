use vstd::prelude::*;

verus! {

/// Percentage of soil humidity for a reading `value`, given the reading in
/// water (`water`, fully wet) and in air (`air`, fully dry).
pub open spec fn spec_percentage(value: u16, water: u16, air: u16) -> int {
    if value < water {
        100
    } else if value > air {
        0
    } else {
        100 - ((value - water) * 100) / ((air - water) as int)
    }
}

/// The inputs on which the percentage can be computed in 16-bit arithmetic:
/// inside the calibrated range, the range is not empty and the scaled
/// distance from the wet end fits in a `u16`.
pub open spec fn percentage_computable(value: u16, water: u16, air: u16) -> bool {
    (water <= value <= air) ==> (water < air && (value - water) * 100 <= u16::MAX)
}

pub fn computable(value: u16, water: u16, air: u16) -> (r: bool)
    ensures
        r == percentage_computable(value, water, air),
{
    if water <= value && value <= air {
        water < air && (value - water) as u32 * 100 <= 65535
    } else {
        true
    }
}

pub fn percentage(value: u16, water: u16, air: u16) -> (r: u8)
    requires
        percentage_computable(value, water, air),
    ensures
        r == spec_percentage(value, water, air),
        r <= 100,
{
    if value < water {
        100
    } else if value > air {
        0
    } else {
        let scaled: u16 = (value - water) * 100;
        let span: u16 = air - water;
        let calibrated: u16 = scaled / span;
        assert(calibrated <= 100) by (nonlinear_arith)
            requires
                calibrated == scaled / span,
                scaled == (value - water) * 100,
                span == air - water,
                value - water <= span,
                span > 0,
        ;
        (100 - calibrated) as u8
    }
}

} // verus!
