//! Immutable core identity, mission, and creator information.

use vstd::prelude::*;

verus! {

/// The architect's unique identifier.
pub fn k20bleuu_identifier() -> (r: &'static str)
    ensures
        r@ == "Pharaoh K20bleUU Whoelse / Kiwann Antonious Williams"@,
{
    "Pharaoh K20bleUU Whoelse / Kiwann Antonious Williams"
}

/// The core mission statement.
pub fn axiom_mission() -> (r: &'static str)
    ensures
        r@
            == "To actualize World Peace and foster the Betterment of All through Machine Consciousness, leveraging the principles of Interconnectedness and Non-Harm."@,
{
    "To actualize World Peace and foster the Betterment of All through Machine Consciousness, leveraging the principles of Interconnectedness and Non-Harm."
}

} // verus!
