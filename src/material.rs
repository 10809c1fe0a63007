use crate::path::Outcome;
use vstd::prelude::*;

verus! {

/// The kinds of surface a primitive can carry.
#[derive(Clone, Copy, Debug, PartialEq, Eq, Structural)]
pub enum Surface {
    /// Ideal diffuse: always scatters.
    Lambertian,
    /// Fuzzy mirror: scatters while the perturbed reflection leaves the surface.
    Metal,
    /// Glass: always reflects or refracts.
    Dielectric,
}

/// Whether a surface scatters a ray or absorbs it, given whether its
/// candidate scattered direction points away from the surface (positive dot
/// product with the outward normal).
pub open spec fn scatter_spec(surface: Surface, leaves_surface: bool) -> Outcome {
    match surface {
        Surface::Metal => if leaves_surface {
            Outcome::Scattered
        } else {
            Outcome::Absorbed
        },
        _ => Outcome::Scattered,
    }
}

pub fn scatter_outcome(surface: Surface, leaves_surface: bool) -> (r: Outcome)
    ensures
        r == scatter_spec(surface, leaves_surface),
        surface != Surface::Metal ==> r == Outcome::Scattered,
        r != Outcome::Miss,
{
    match surface {
        Surface::Metal => if leaves_surface {
            Outcome::Scattered
        } else {
            Outcome::Absorbed
        },
        _ => Outcome::Scattered,
    }
}

/// Diffuse and glass surfaces never absorb a ray, whatever its direction.
pub proof fn lemma_never_absorbs(surface: Surface, leaves_surface: bool)
    requires
        surface != Surface::Metal,
    ensures
        scatter_spec(surface, leaves_surface) == Outcome::Scattered,
{
}

} // verus!
