//! Startup device selection.
//!
//! The device collaborator enumerates adapters; this picks the first
//! hardware adapter that reports a raytracing-capable tier.  Absence of any
//! such adapter is fatal and surfaced to the user.

use vstd::prelude::*;

verus! {

/// What adapter enumeration reports about one adapter.
#[derive(Clone, Copy, Debug, PartialEq, Eq, Structural)]
pub struct AdapterInfo {
    /// A software rasterizer, never eligible.
    pub is_software: bool,
    /// The adapter reports a raytracing-capable tier.
    pub raytracing_supported: bool,
}

/// A failure that terminates the process before any state is created.
#[derive(Clone, Copy, Debug, PartialEq, Eq, Structural)]
pub enum FatalStartup {
    /// No hardware adapter reports a raytracing-capable tier.
    NoRaytracingDevice,
    /// The presentation surface (or its window class) could not be created.
    SurfaceCreation,
}

pub open spec fn eligible(a: AdapterInfo) -> bool {
    !a.is_software && a.raytracing_supported
}

/// Index of the first hardware adapter with a raytracing-capable tier, or
/// the fatal startup error when there is none.
pub fn select_adapter(adapters: &Vec<AdapterInfo>) -> (r: Result<usize, FatalStartup>)
    ensures
        r is Ok <==> exists|i: int| 0 <= i < adapters@.len() && eligible(#[trigger] adapters@[i]),
        r matches Ok(i) ==> i < adapters@.len() && eligible(adapters@[i as int]) && forall|j: int|
            0 <= j < i ==> !eligible(#[trigger] adapters@[j]),
        r is Err ==> r == Err::<usize, FatalStartup>(FatalStartup::NoRaytracingDevice),
{
    let mut i: usize = 0;
    while i < adapters.len()
        invariant
            i <= adapters@.len(),
            forall|j: int| 0 <= j < i ==> !eligible(#[trigger] adapters@[j]),
        decreases adapters@.len() - i,
    {
        let a = adapters[i];
        if !a.is_software && a.raytracing_supported {
            return Ok(i);
        }
        i = i + 1;
    }
    Err(FatalStartup::NoRaytracingDevice)
}

} // verus!
