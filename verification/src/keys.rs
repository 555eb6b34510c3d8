//! The composite key under which the state of one metric of one device is kept.

use vstd::prelude::*;

verus! {

/// The key of `metric` on `device`: the device's address, an underscore, the
/// metric's name.
pub open spec fn composite_key(device: Seq<char>, metric: Seq<char>) -> Seq<char> {
    device + seq!['_'] + metric
}

/// Builds the key of `metric` on `device_ip`.
pub fn make_key(device_ip: &str, metric: &str) -> (key: String)
    ensures
        key@ == composite_key(device_ip@, metric@),
{
    proof {
        reveal_strlit("_");
        assert("_"@ =~= seq!['_']);
    }
    let key = String::from_str(device_ip).concat("_").concat(metric);
    key
}

} // verus!
