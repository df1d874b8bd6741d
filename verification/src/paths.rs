//! Where a node keeps its data.

use vstd::prelude::*;
use vstd::string::StringExecFns;
use crate::config::Networks;

verus! {

/// The data directory name of each network; none for the invalid network.
pub open spec fn network_subdir(network: Networks) -> Option<Seq<char>> {
    match network {
        Networks::Invalid => None,
        Networks::NanoDevNetwork => Some("NanoDev"@),
        Networks::NanoBetaNetwork => Some("NanoBeta"@),
        Networks::NanoLiveNetwork => Some("Banano"@),
        Networks::NanoTestNetwork => Some("NanoTest"@),
    }
}

/// The data directory of the node: the override (from `NANO_APP_PATH`) when there is one;
/// else the network's directory under the home directory; none without a home directory
/// or for the invalid network.
pub fn working_path(path_override: Option<String>, home_dir: Option<String>, network: Networks) -> (r: Option<String>)
    ensures
        path_override matches Some(p) ==> r matches Some(q) && q@ == p@,
        path_override is None ==> match (home_dir, network_subdir(network)) {
            (Some(h), Some(sub)) => r matches Some(q) && q@ == h@ + "/"@ + sub,
            _ => r is None,
        },
{
    if let Some(p) = path_override {
        return Some(p);
    }
    match home_dir {
        None => None,
        Some(home) => {
            proof {
                reveal_strlit("NanoDev");
                reveal_strlit("NanoBeta");
                reveal_strlit("Banano");
                reveal_strlit("NanoTest");
                reveal_strlit("/");
            }
            let subdir: &str = match network {
                Networks::Invalid => {
                    return None;
                },
                Networks::NanoDevNetwork => "NanoDev",
                Networks::NanoBetaNetwork => "NanoBeta",
                Networks::NanoLiveNetwork => "Banano",
                Networks::NanoTestNetwork => "NanoTest",
            };
            let mut path = home;
            path.append("/");
            path.append(subdir);
            Some(path)
        },
    }
}

} // verus!
