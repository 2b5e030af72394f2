//! The cluster-wide platform override, as operators write it.

use vstd::prelude::*;

verus! {

/// What one platform override states: the platform, as `<os>/<architecture>`.
#[derive(Debug, Clone, PartialEq, Eq, Default)]
pub struct PlatformOverrideSpec {
    pub platform: String,
}

impl View for PlatformOverrideSpec {
    type V = Seq<char>;

    open spec fn view(&self) -> Seq<char> {
        self.platform@
    }
}

} // verus!
