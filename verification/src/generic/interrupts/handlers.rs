//! Architecture-independent interrupt handling.
use vstd::prelude::*;
use crate::arch::x86_64::interrupts::ctx::Context;

verus! {

/// Handles an interrupt. No interrupt is acted on yet: the saved context is
/// left as it was.
pub fn handle_interrupt(context: &mut Context)
    ensures
        *final(context) == *old(context),
{
    return ;
}

} // verus!
