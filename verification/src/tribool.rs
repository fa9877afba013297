//! A switch with a third state that matches either of the other two, and the
//! settings of the debug markers that are compared through it.

use vstd::prelude::*;

verus! {

/// On, off, or whichever is asked for.
#[derive(Copy, Clone, Debug)]
pub enum TriBool {
    True,
    False,
    Wildcard,
}

/// Two switches match: one of them is the wildcard, or both are on, or both
/// are off.
pub open spec fn switches_match(left: TriBool, right: TriBool) -> bool {
    left is Wildcard || right is Wildcard || (left is True && right is True) || (left is False
        && right is False)
}

impl PartialEq for TriBool {
    /// A wildcard equals everything; otherwise on equals on and off equals
    /// off.
    fn eq(&self, other: &Self) -> (r: bool) {
        match (self, other) {
            (TriBool::Wildcard, _) | (_, TriBool::Wildcard) => true,
            (TriBool::True, TriBool::True) => true,
            (TriBool::False, TriBool::False) => true,
            _ => false,
        }
    }
}

impl vstd::std_specs::cmp::PartialEqSpecImpl for TriBool {
    open spec fn obeys_eq_spec() -> bool {
        true
    }

    open spec fn eq_spec(&self, other: &TriBool) -> bool {
        switches_match(*self, *other)
    }
}

impl From<TriBool> for bool {
    /// On and the wildcard are `true`, off is `false`.
    fn from(tri_bool: TriBool) -> (r: Self) {
        match tri_bool {
            TriBool::True => true,
            TriBool::False => false,
            TriBool::Wildcard => true,
        }
    }
}

impl vstd::std_specs::convert::FromSpecImpl<TriBool> for bool {
    open spec fn obeys_from_spec() -> bool {
        true
    }

    open spec fn from_spec(tri_bool: TriBool) -> bool {
        !(tri_bool is False)
    }
}

impl From<bool> for TriBool {
    /// `true` is on, `false` is off; a wildcard is never made.
    fn from(value: bool) -> (r: Self) {
        if value {
            TriBool::True
        } else {
            TriBool::False
        }
    }
}

impl vstd::std_specs::convert::FromSpecImpl<bool> for TriBool {
    open spec fn obeys_from_spec() -> bool {
        true
    }

    open spec fn from_spec(value: bool) -> TriBool {
        if value {
            TriBool::True
        } else {
            TriBool::False
        }
    }
}

impl TriBool {
    /// The switch as a plain `bool`: `false` only where it is off.
    pub open spec fn as_bool(self) -> bool {
        !(self is False)
    }

    /// The switch as a plain `bool`: on and the wildcard are `true`.
    pub fn to_bool(&self) -> (r: bool)
        ensures
            r == self.as_bool(),
    {
        match self {
            TriBool::True => true,
            TriBool::False => false,
            TriBool::Wildcard => true,
        }
    }
}

/// Turning a `bool` into a switch and back gives the `bool`.
pub proof fn lemma_bool_round_trip(value: bool)
    ensures
        <TriBool as vstd::std_specs::convert::FromSpec<bool>>::from_spec(value).as_bool() == value,
        <bool as vstd::std_specs::convert::FromSpec<TriBool>>::from_spec(
            <TriBool as vstd::std_specs::convert::FromSpec<bool>>::from_spec(value),
        ) == value,
{
}

/// Which debug markers are drawn.
#[derive(Copy, Clone, Debug)]
pub struct GizmoConfig {
    pub origin_gizmo: TriBool,
    pub chunks_gizmo: TriBool,
}

impl PartialEq for GizmoConfig {
    /// Two settings are equal where both of their switches are.
    fn eq(&self, other: &Self) -> (r: bool) {
        self.origin_gizmo == other.origin_gizmo && self.chunks_gizmo == other.chunks_gizmo
    }
}

impl vstd::std_specs::cmp::PartialEqSpecImpl for GizmoConfig {
    open spec fn obeys_eq_spec() -> bool {
        true
    }

    open spec fn eq_spec(&self, other: &GizmoConfig) -> bool {
        switches_match(self.origin_gizmo, other.origin_gizmo) && switches_match(
            self.chunks_gizmo,
            other.chunks_gizmo,
        )
    }
}

impl Default for GizmoConfig {
    /// The marker at the origin is drawn, the markers of the chunks are not.
    fn default() -> (config: Self)
        ensures
            config.origin_gizmo is True,
            config.chunks_gizmo is False,
    {
        GizmoConfig { origin_gizmo: TriBool::True, chunks_gizmo: TriBool::False }
    }
}

/// Whether the marker at the world's origin is drawn: where its switch is on,
/// whatever the other switch says.
pub fn origin_gizmo_enabled(config: &GizmoConfig) -> (enabled: bool)
    ensures
        enabled == !(config.origin_gizmo is False),
{
    *config == GizmoConfig { origin_gizmo: TriBool::True, chunks_gizmo: TriBool::Wildcard }
}

/// Whether the markers of the chunks are drawn: where their switch is on,
/// whatever the other switch says.
pub fn chunks_gizmo_enabled(config: &GizmoConfig) -> (enabled: bool)
    ensures
        enabled == !(config.chunks_gizmo is False),
{
    *config == GizmoConfig { origin_gizmo: TriBool::Wildcard, chunks_gizmo: TriBool::True }
}

} // verus!
