use vstd::prelude::*;

verus! {

/// Whether alert delivery is switched on when the configuration does not say.
pub fn default_slack_enabled() -> (r: bool)
    ensures
        r,
{
    true
}

} // verus!
