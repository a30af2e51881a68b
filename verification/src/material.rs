//! Shading-mode switch shared by all materials.

use vstd::prelude::*;

verus! {

/// Diagnostic shading axis shared by every material: render the
/// material's own color, or false-color the surface normal.
#[allow(non_camel_case_types)]
#[derive(Clone)]
pub enum Shading {
    COLOR,
    NORMALS,
}

} // verus!
