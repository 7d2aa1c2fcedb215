//! The choice of hit among the roots of the ray/sphere quadratic.
//!
//! Substituting a ray `o + t·d` into a sphere's equation `|P - c|² = r²` gives
//! `a·t² + 2b·t + c' = 0`, with discriminant `Δ = b² - a·c'` and, when
//! `Δ ≥ 0`, roots `t₁ = (-b - √Δ)/a ≤ t₂ = (-b + √Δ)/a`. The hit is the
//! smallest strictly positive root: a sphere wholly behind the ray, or one the
//! ray leaves from its surface, is not hit.
use vstd::prelude::*;

verus! {

/// One of the two roots of the intersection quadratic.
#[derive(Clone, Copy, Debug, PartialEq, Eq, Structural)]
pub enum Root {
    /// `t₁ = (-b - √Δ)/a`, the smaller root.
    Near,
    /// `t₂ = (-b + √Δ)/a`, the larger root.
    Far,
}

/// Chooses the root at which a ray hits a sphere, from the sign of the
/// discriminant and of each root: the near root where it is strictly
/// positive, else the far root where it is, and no hit where the
/// discriminant is negative or neither root is positive.
pub fn choose_root(discriminant_negative: bool, near_positive: bool, far_positive: bool) -> (r:
    Option<Root>)
    ensures
        r is Some <==> !discriminant_negative && (near_positive || far_positive),
        r == Some(Root::Near) <==> !discriminant_negative && near_positive,
        r == Some(Root::Far) <==> !discriminant_negative && !near_positive && far_positive,
{
    if discriminant_negative {
        None
    } else if near_positive {
        Some(Root::Near)
    } else if far_positive {
        Some(Root::Far)
    } else {
        None
    }
}

} // verus!
