//! The enable bit of the memory protection unit.

use vstd::prelude::*;

verus! {

/// The control word of the memory protection unit. Bit 0 enables the unit.
pub struct MPU;

impl MPU {
    /// The control word `ctrl` with the unit enabled.
    pub fn arm(ctrl: u32) -> (armed: u32)
        ensures
            armed == ctrl | 1,
            armed & 1 == 1,
            armed & !1u32 == ctrl & !1u32,
    {
        let armed = ctrl | 1;
        assert((ctrl | 1) & 1 == 1) by (bit_vector);
        assert((ctrl | 1) & !1u32 == ctrl & !1u32) by (bit_vector);
        armed
    }

    /// The control word `ctrl` with the unit disabled.
    pub fn disarm(ctrl: u32) -> (disarmed: u32)
        ensures
            disarmed == ctrl & !1u32,
            disarmed & 1 == 0,
            disarmed & !1u32 == ctrl & !1u32,
    {
        let disarmed = ctrl & !1u32;
        assert((ctrl & !1u32) & 1 == 0) by (bit_vector);
        assert((ctrl & !1u32) & !1u32 == ctrl & !1u32) by (bit_vector);
        disarmed
    }
}

} // verus!
