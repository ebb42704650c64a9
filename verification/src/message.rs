//! The events the user-facing surface hands to the core.

use vstd::prelude::*;

verus! {

/// One user-interface event.
#[derive(Debug, Clone)]
pub enum Message {
    BaseFileChanged(String),
    FolderInputValueChange(String),
    FolderChanged,
    FileTreeItemToogled(String),
    FileSelected(String),
}

} // verus!
