use vstd::prelude::*;

verus! {

/// The configuration of the lints. It has no settings yet.
#[derive(PartialEq, Eq, Debug, Clone, Default)]
pub struct Conf {}

/// Reads the configuration from the given settings; none is recognised yet,
/// so this always succeeds with the empty configuration.
pub fn read_conf(_conf: &[&str]) -> (r: Result<Conf, String>)
    ensures
        r is Ok,
{
    Ok(Conf {})
}

} // verus!
