//! Labels of the shadow cascades of the global light.
use vstd::prelude::*;

verus! {

/// Number of shadow cascades of the global light.
pub const CASCADE_COUNT: usize = 4;

pub const GLOBAL_LIGHT: &'static str = "global_light";
pub const GLOBAL_LIGHT_SHADOW: &'static str = "global_light_shadow";
pub const GLOBAL_LIGHT_SHADOW_0: &'static str = "global_light_shadow_0";
pub const GLOBAL_LIGHT_SHADOW_1: &'static str = "global_light_shadow_1";
pub const GLOBAL_LIGHT_SHADOW_2: &'static str = "global_light_shadow_2";
pub const GLOBAL_LIGHT_SHADOW_3: &'static str = "global_light_shadow_3";

/// The label of the shadow pass of cascade `i`.
pub open spec fn spec_cascade_label(i: int) -> Seq<char> {
    if i == 0 {
        GLOBAL_LIGHT_SHADOW_0@
    } else if i == 1 {
        GLOBAL_LIGHT_SHADOW_1@
    } else if i == 2 {
        GLOBAL_LIGHT_SHADOW_2@
    } else {
        GLOBAL_LIGHT_SHADOW_3@
    }
}

/// The label of the shadow pass of cascade `i`; there are `CASCADE_COUNT`
/// cascades.
pub fn int_to_cascade(i: usize) -> (label: &'static str)
    requires
        i < CASCADE_COUNT,
    ensures
        label@ == spec_cascade_label(i as int),
{
    match i {
        0 => GLOBAL_LIGHT_SHADOW_0,
        1 => GLOBAL_LIGHT_SHADOW_1,
        2 => GLOBAL_LIGHT_SHADOW_2,
        _ => GLOBAL_LIGHT_SHADOW_3,
    }
}

} // verus!
