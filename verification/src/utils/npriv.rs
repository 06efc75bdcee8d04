//! The privilege level of thread mode, bit 0 of the CONTROL register.

use vstd::prelude::*;
use cortex_m::register::control::{Control, Npriv as Level};

verus! {

/// `cortex_m::register::control::Control::npriv`, on the register value
/// `control`: thread mode is privileged exactly when bit 0 is clear.
#[verifier::external_body]
fn control_is_privileged(control: u32) -> (privileged: bool)
    ensures
        privileged == (control & 1 == 0),
{
    match Control::from_bits(control).npriv() {
        Level::Privileged => true,
        Level::Unprivileged => false,
    }
}

/// `cortex_m::register::control::Control::set_npriv`, on the register value
/// `control`: bit 0 is cleared for privileged and set for unprivileged
/// thread mode, and no other bit changes.
#[verifier::external_body]
fn control_set_npriv(control: u32, privileged: bool) -> (updated: u32)
    ensures
        privileged ==> updated == control & !1u32,
        !privileged ==> updated == control | 1,
{
    let mut register = Control::from_bits(control);
    register.set_npriv(if privileged { Level::Privileged } else { Level::Unprivileged });
    register.bits()
}

/// The privilege level that a value of the CONTROL register stands for.
pub struct Npriv;

impl Npriv {
    /// Whether thread mode is privileged under the register value `control`.
    pub fn is_privileged(control: u32) -> (privileged: bool)
        ensures
            privileged == (control & 1 == 0),
    {
        control_is_privileged(control)
    }

    /// The register value `control` with thread mode privileged.
    pub fn set_privileged(control: u32) -> (updated: u32)
        ensures
            updated == control & !1u32,
            updated & 1 == 0,
    {
        let updated = control_set_npriv(control, true);
        assert((control & !1u32) & 1 == 0) by (bit_vector);
        updated
    }

    /// The register value `control` with thread mode unprivileged.
    pub fn set_unprivileged(control: u32) -> (updated: u32)
        ensures
            updated == control | 1,
            updated & 1 == 1,
    {
        let updated = control_set_npriv(control, false);
        assert((control | 1) & 1 == 1) by (bit_vector);
        updated
    }
}

} // verus!
