//! Sample detection. Each candidate profile previews the head of a file with the same
//! parser and the match rates are compared; files are then grouped by their best
//! candidate's definition, never forcing one format on a whole folder.

use vstd::prelude::*;

use crate::model::{FormatProfile, ServerHint};
use crate::presets::{combined, common, iis_w3c, is_combined_profile, is_common_profile, is_w3c_profile};
use crate::text::str_eq;

verus! {

/// The default candidates: Combined before Common, so a tie picks the more specific one,
/// then IIS W3C.
pub fn default_candidates() -> (r: Vec<FormatProfile>)
    ensures
        r@.len() == 3,
        is_combined_profile(r@[0], ServerHint::Unknown),
        is_common_profile(r@[1], ServerHint::Unknown),
        is_w3c_profile(r@[2]),
{
    let mut v: Vec<FormatProfile> = Vec::new();
    v.push(combined(ServerHint::Unknown));
    v.push(common(ServerHint::Unknown));
    v.push(iis_w3c());
    v
}

/// Files whose best candidate is the same definition.
#[derive(Debug, Clone)]
pub struct FormatGroup {
    /// Profile name.
    pub profile_name: String,
    /// Definition hash.
    pub definition_hash: String,
    /// The files of this group.
    pub paths: Vec<std::path::PathBuf>,
}

/// Puts a file in the group of its best candidate's definition, making the group when it
/// is the first such file. Groups keep the order in which they were first met.
pub fn add_to_group(groups: &mut Vec<FormatGroup>, profile_name: &str, definition_hash: &str, path: std::path::PathBuf)
    ensures
        (exists|i: int| 0 <= i < old(groups)@.len() && (#[trigger] old(groups)@[i]).definition_hash@ == definition_hash@) ==> {
            let k = choose|i: int| 0 <= i < old(groups)@.len() && (#[trigger] old(groups)@[i]).definition_hash@ == definition_hash@
                && forall|j: int| 0 <= j < i ==> (#[trigger] old(groups)@[j]).definition_hash@ != definition_hash@;
            &&& final(groups)@.len() == old(groups)@.len()
            &&& forall|j: int| 0 <= j < old(groups)@.len() && j != k ==> final(groups)@[j] == old(groups)@[j]
            &&& final(groups)@[k].profile_name == old(groups)@[k].profile_name
            &&& final(groups)@[k].definition_hash == old(groups)@[k].definition_hash
            &&& final(groups)@[k].paths@ == old(groups)@[k].paths@.push(path)
        },
        !(exists|i: int| 0 <= i < old(groups)@.len() && (#[trigger] old(groups)@[i]).definition_hash@ == definition_hash@) ==> {
            &&& final(groups)@.len() == old(groups)@.len() + 1
            &&& final(groups)@.drop_last() == old(groups)@
            &&& final(groups)@.last().profile_name@ == profile_name@
            &&& final(groups)@.last().definition_hash@ == definition_hash@
            &&& final(groups)@.last().paths@ == seq![path]
        },
{
    let mut i: usize = 0;
    while i < groups.len()
        invariant
            i <= groups.len(),
            groups@ == old(groups)@,
            forall|j: int| 0 <= j < i ==> (#[trigger] groups@[j]).definition_hash@ != definition_hash@,
        decreases groups.len() - i,
    {
        if str_eq(groups[i].definition_hash.as_str(), definition_hash) {
            proof {
                let k = choose|x: int| 0 <= x < old(groups)@.len() && (#[trigger] old(groups)@[x]).definition_hash@ == definition_hash@
                    && forall|j: int| 0 <= j < x ==> (#[trigger] old(groups)@[j]).definition_hash@ != definition_hash@;
                assert(old(groups)@[i as int].definition_hash@ == definition_hash@);
                assert(k == i as int) by {
                    if k < i {
                        assert(groups@[k].definition_hash@ != definition_hash@);
                    }
                    if k > i {
                        assert(old(groups)@[i as int].definition_hash@ != definition_hash@);
                    }
                }
            }
            let mut g = groups.remove(i);
            g.paths.push(path);
            groups.insert(i, g);
            return;
        }
        i = i + 1;
    }
    let mut paths: Vec<std::path::PathBuf> = Vec::new();
    paths.push(path);
    groups.push(FormatGroup {
        profile_name: profile_name.to_owned(),
        definition_hash: definition_hash.to_owned(),
        paths,
    });
    assert(groups@.drop_last() =~= old(groups)@);
}

} // verus!
