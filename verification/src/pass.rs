//! Process pass classification: the functional machining / printing role of a move.
use vstd::prelude::*;

verus! {

/// The functional machining / printing role of a move.
#[derive(Debug, Clone, Copy, PartialEq, Eq, Hash, Structural)]
pub enum PassRole {
    /// High material removal roughing pass.
    Roughing,
    /// High precision finishing pass.
    Finishing,
    /// Outer boundary contour (additive or subtractive).
    Perimeter,
    /// Internal volume infill pattern.
    Infill,
    /// Sacrificial support structure.
    Support,
    /// Tangential / linear approach before cutting.
    LeadIn,
    /// Tangential / linear departure after cutting.
    LeadOut,
    /// Non-cutting rapid positioning traverse.
    Travel,
}

/// The stable snake_case wire name of a role.
pub open spec fn spec_role_name(role: PassRole) -> Seq<char> {
    match role {
        PassRole::Roughing => "roughing"@,
        PassRole::Finishing => "finishing"@,
        PassRole::Perimeter => "perimeter"@,
        PassRole::Infill => "infill"@,
        PassRole::Support => "support"@,
        PassRole::LeadIn => "lead_in"@,
        PassRole::LeadOut => "lead_out"@,
        PassRole::Travel => "travel"@,
    }
}

/// The standard diagnostic hex colour of a role for visualizer rendering.
pub open spec fn spec_role_color(role: PassRole) -> Seq<char> {
    match role {
        PassRole::Roughing => "#2563eb"@,
        PassRole::Finishing => "#16a34a"@,
        PassRole::Perimeter => "#9333ea"@,
        PassRole::Infill => "#ca8a04"@,
        PassRole::Support => "#9ca3af"@,
        PassRole::LeadIn => "#06b6d4"@,
        PassRole::LeadOut => "#f97316"@,
        PassRole::Travel => "#ef4444"@,
    }
}

impl PassRole {
    pub fn as_str(self) -> (name: &'static str)
        ensures
            name@ == spec_role_name(self),
    {
        match self {
            PassRole::Roughing => "roughing",
            PassRole::Finishing => "finishing",
            PassRole::Perimeter => "perimeter",
            PassRole::Infill => "infill",
            PassRole::Support => "support",
            PassRole::LeadIn => "lead_in",
            PassRole::LeadOut => "lead_out",
            PassRole::Travel => "travel",
        }
    }

    /// Standard diagnostic hex color for visualizer rendering.
    pub fn default_color(self) -> (color: &'static str)
        ensures
            color@ == spec_role_color(self),
    {
        match self {
            PassRole::Roughing => "#2563eb",
            PassRole::Finishing => "#16a34a",
            PassRole::Perimeter => "#9333ea",
            PassRole::Infill => "#ca8a04",
            PassRole::Support => "#9ca3af",
            PassRole::LeadIn => "#06b6d4",
            PassRole::LeadOut => "#f97316",
            PassRole::Travel => "#ef4444",
        }
    }
}


/// Law: no two roles share a wire name, so the name identifies the role.
pub proof fn law_role_names_distinct(a: PassRole, b: PassRole)
    ensures
        spec_role_name(a) == spec_role_name(b) ==> a == b,
{
    reveal_strlit("roughing");
    reveal_strlit("finishing");
    reveal_strlit("perimeter");
    reveal_strlit("infill");
    reveal_strlit("support");
    reveal_strlit("lead_in");
    reveal_strlit("lead_out");
    reveal_strlit("travel");
    if spec_role_name(a) == spec_role_name(b) {
        let x = spec_role_name(a);
        let y = spec_role_name(b);
        assert(x.len() == y.len());
        assert(x[0] == y[0]);
        assert(x[x.len() - 1] == y[y.len() - 1]);
    }
}

} // verus!
