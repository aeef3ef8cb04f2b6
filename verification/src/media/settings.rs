//! Settings kinds that the verified rules use.

use vstd::prelude::*;

verus! {

/// What happens to the cache when another video folder is opened.
#[derive(Debug, Clone, Copy, PartialEq, Eq, Structural)]
pub enum CacheSwitchPolicy {
    Keep,
    ClearOnFolderChange,
}

} // verus!
