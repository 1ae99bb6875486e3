//! Where the desktop shell keeps its files below the data root.

use crate::ext::{path_join, path_join_result};
use std::path::PathBuf;
use vstd::prelude::*;

verus! {

/// The locations of everything the application writes. Only `cases` appears in the
/// data root; the logs and the user presets live inside it.
pub struct Layout {
    /// Folder of the case databases.
    pub cases: PathBuf,
    /// Folder of the run and crash logs.
    pub logs: PathBuf,
    /// Folder of the user presets.
    pub presets: PathBuf,
}

/// The layout below `root`: `cases` joined to the root, `logs` and `presets` joined to
/// `cases`.
pub fn layout(root: &PathBuf) -> (r: Layout)
    ensures
        r.cases == path_join_result(*root, "cases"@),
        r.logs == path_join_result(r.cases, "logs"@),
        r.presets == path_join_result(r.cases, "presets"@),
{
    let cases = path_join(root, "cases");
    let logs = path_join(&cases, "logs");
    let presets = path_join(&cases, "presets");
    Layout { cases, logs, presets }
}

} // verus!
