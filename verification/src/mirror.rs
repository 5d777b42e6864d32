//! The mirror selector.

use rand::Rng;
use vstd::prelude::*;

use crate::errors::MariaDbVmError;
use crate::platform::HostOs;

verus! {

/// One download mirror.
#[derive(Debug)]
pub struct Mirror {
    pub mirror_id: String,
    pub mirror_name: String,
}

/// The mirrors of one region of the mirror list.
#[derive(Debug)]
pub struct MirrorCategory {
    pub region: String,
    pub mirrors: Vec<Mirror>,
}

/// Relies on rand::thread_rng and rand::Rng::gen_range: a random index below
/// `n`; gen_range panics only on an empty range, which `n > 0` rules out.
#[verifier::external_body]
fn rand_below(n: usize) -> (r: usize)
    requires
        n > 0,
    ensures
        r < n,
{
    rand::thread_rng().gen_range(0..n)
}

/// Picks the download mirror: none on a platform without mirror-qualified
/// downloads, the operator's choice when one is given (unvalidated), and a
/// random entry of a random region otherwise.  An empty mirror list, or an
/// empty chosen region, does not match the expected shape of the mirror
/// document and fails as such.
pub fn select_mirror(explicit: &Option<String>, os: HostOs, categories: &Vec<MirrorCategory>) -> (r:
    Result<String, MariaDbVmError>)
    ensures
        match r {
            Ok(id) => {
                if os == HostOs::FreeBsd {
                    id@ == Seq::<char>::empty()
                } else if explicit is Some {
                    id@ == explicit->Some_0@
                } else {
                    exists|k: int, j: int|
                        0 <= k < categories@.len() && 0 <= j < categories@[k].mirrors@.len() && id@
                            == (#[trigger] categories@[k].mirrors@[j]).mirror_id@
                }
            },
            Err(e) => os != HostOs::FreeBsd && explicit is None && (e
                matches MariaDbVmError::Parse { message } && ((categories@.len() == 0 && message@
                == "empty mirror list"@) || (exists|k: int|
                0 <= k < categories@.len() && (#[trigger] categories@[k]).mirrors@.len() == 0
                    && message@ == "empty mirror region"@))),
        },
{
    if matches!(os, HostOs::FreeBsd) {
        return Ok(String::new());
    }
    match explicit {
        Some(id) => Ok(id.clone()),
        None => {
            if categories.len() == 0 {
                return Err(
                    MariaDbVmError::Parse { message: String::from_str("empty mirror list") },
                );
            }
            let k = rand_below(categories.len());
            let region = &categories[k];
            if region.mirrors.len() == 0 {
                return Err(
                    MariaDbVmError::Parse { message: String::from_str("empty mirror region") },
                );
            }
            let j = rand_below(region.mirrors.len());
            Ok(region.mirrors[j].mirror_id.clone())
        },
    }
}

} // verus!
