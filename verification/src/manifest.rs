//! Manifests as a registry delivers them, and the choice of an index entry.

use crate::error::{ErrorView, ResolutionError};
use crate::platform::{PlatformView, TargetPlatform};
use crate::views::views;
use vstd::prelude::*;
use vstd::string::*;

verus! {

/// The platform that an entry of an image index is built for.
#[derive(Debug, Clone, PartialEq, Eq)]
pub struct Platform {
    pub os: String,
    pub architecture: String,
}

/// One entry of an image index.
#[derive(Debug, Clone, PartialEq, Eq)]
pub struct ManifestDescriptor {
    pub platform: Option<Platform>,
    pub digest: String,
}

/// The entries of a multi-platform image, in the order of the index.
#[derive(Debug, Clone, PartialEq, Eq)]
pub struct ImageIndex {
    pub manifests: Vec<ManifestDescriptor>,
}

/// What a registry holds under an image reference.
#[derive(Debug, Clone, PartialEq, Eq)]
pub enum Manifest {
    SinglePlatformImage,
    MultiPlatformIndex(ImageIndex),
}

/// A `ManifestDescriptor` as a mathematical value.
pub struct DescriptorView {
    pub platform: Option<PlatformView>,
    pub digest: Seq<char>,
}

/// A `Manifest` as a mathematical value.
pub enum ManifestView {
    SinglePlatformImage,
    MultiPlatformIndex(Seq<DescriptorView>),
}

impl View for Platform {
    type V = PlatformView;

    open spec fn view(&self) -> PlatformView {
        PlatformView { os: self.os@, architecture: self.architecture@ }
    }
}

impl View for ManifestDescriptor {
    type V = DescriptorView;

    open spec fn view(&self) -> DescriptorView {
        DescriptorView {
            platform: match self.platform {
                Some(platform) => Some(platform@),
                None => None,
            },
            digest: self.digest@,
        }
    }
}

impl View for ImageIndex {
    type V = Seq<DescriptorView>;

    open spec fn view(&self) -> Seq<DescriptorView> {
        views(self.manifests@)
    }
}

impl View for Manifest {
    type V = ManifestView;

    open spec fn view(&self) -> ManifestView {
        match *self {
            Manifest::SinglePlatformImage => ManifestView::SinglePlatformImage,
            Manifest::MultiPlatformIndex(index) => ManifestView::MultiPlatformIndex(index@),
        }
    }
}

/// The entry is for exactly the platform `target`.
pub open spec fn is_for(entry: DescriptorView, target: PlatformView) -> bool {
    entry.platform == Some(target)
}

/// The search for `target` ends at entry `i`: it is the first that is for
/// `target` or names no platform at all.
pub open spec fn search_ends_at(index: Seq<DescriptorView>, target: PlatformView, i: int) -> bool {
    &&& 0 <= i < index.len()
    &&& index[i].platform is None || is_for(index[i], target)
    &&& forall|j: int|
        0 <= j < i ==> (#[trigger] index[j]).platform is Some && !is_for(index[j], target)
}

/// The digest to which `target` resolves in `index`: that of the first entry
/// for `target`. The entries are read in their order, and one that names no
/// platform, met before an entry for `target`, is an error. So is an index
/// that holds no entry for `target`.
pub open spec fn matched_digest(index: Seq<DescriptorView>, target: PlatformView) -> Result<
    Seq<char>,
    ErrorView,
> {
    if exists|i: int| search_ends_at(index, target, i) {
        let i = choose|i: int| search_ends_at(index, target, i);
        if index[i].platform is None {
            Err(ErrorView::MissingPlatformMetadata)
        } else {
            Ok(index[i].digest)
        }
    } else {
        Err(ErrorView::NoMatchingPlatform)
    }
}

/// The entries of `index` that are for `target`, in their order.
pub open spec fn entries_for(index: Seq<DescriptorView>, target: PlatformView) -> Seq<
    DescriptorView,
> {
    index.filter(|entry: DescriptorView| is_for(entry, target))
}

/// Every entry of `index` names a platform.
pub open spec fn all_name_platforms(index: Seq<DescriptorView>) -> bool {
    forall|i: int| 0 <= i < index.len() ==> (#[trigger] index[i]).platform is Some
}

/// Where entry `i` is for `target` and every entry before it names another
/// platform, `target` resolves to the digest of entry `i`.
pub proof fn lemma_first_entry_wins(index: Seq<DescriptorView>, target: PlatformView, i: int)
    requires
        0 <= i < index.len(),
        is_for(index[i], target),
        forall|j: int|
            0 <= j < i ==> (#[trigger] index[j]).platform is Some && !is_for(index[j], target),
    ensures
        matched_digest(index, target) == Ok::<Seq<char>, ErrorView>(index[i].digest),
{
    lemma_search_decided_at(index, target, i);
}

/// Where every entry names a platform and none is for `target`, the
/// resolution fails for want of a matching platform.
pub proof fn lemma_no_entry_no_match(index: Seq<DescriptorView>, target: PlatformView)
    requires
        all_name_platforms(index),
        forall|i: int| 0 <= i < index.len() ==> !is_for(#[trigger] index[i], target),
    ensures
        matched_digest(index, target) == Err::<Seq<char>, ErrorView>(ErrorView::NoMatchingPlatform),
{
}

/// In an index whose entries all name a platform, the resolution is decided by
/// the entries for `target` alone: the digest of the first of them, or failure
/// where there is none.
pub proof fn lemma_decided_by_entries_for(index: Seq<DescriptorView>, target: PlatformView)
    requires
        all_name_platforms(index),
    ensures
        matched_digest(index, target) == (if entries_for(index, target).len() == 0 {
            Err::<Seq<char>, ErrorView>(ErrorView::NoMatchingPlatform)
        } else {
            Ok::<Seq<char>, ErrorView>(entries_for(index, target)[0].digest)
        }),
    decreases index.len(),
{
    reveal(Seq::filter);
    if index.len() == 0 {
    } else {
        let init = index.drop_last();
        assert(all_name_platforms(init)) by {
            assert forall|i: int| 0 <= i < init.len() implies (#[trigger] init[i]).platform
                is Some by {
                assert(init[i] == index[i]);
            }
        }
        lemma_decided_by_entries_for(init, target);
        assert(entries_for(index, target) == if is_for(index.last(), target) {
            entries_for(init, target).push(index.last())
        } else {
            entries_for(init, target)
        });
        if exists|i: int| search_ends_at(init, target, i) {
            let i = choose|i: int| search_ends_at(init, target, i);
            assert(init[i] == index[i]);
            assert(is_for(index[i], target));
            assert forall|j: int| 0 <= j < i implies (#[trigger] index[j]).platform is Some
                && !is_for(index[j], target) by {
                assert(init[j] == index[j]);
            }
            lemma_first_entry_wins(index, target, i);
        } else {
            assert forall|j: int| 0 <= j < init.len() implies !is_for(
                #[trigger] index[j],
                target,
            ) by {
                assert(init[j] == index[j]);
                if is_for(init[j], target) {
                    lemma_some_entry_ends_search(init, target, j);
                }
            }
            if is_for(index.last(), target) {
                lemma_first_entry_wins(index, target, index.len() - 1);
            } else {
                lemma_no_entry_no_match(index, target);
            }
        }
    }
}

proof fn lemma_some_entry_ends_search(index: Seq<DescriptorView>, target: PlatformView, k: int)
    requires
        0 <= k < index.len(),
        index[k].platform is None || is_for(index[k], target),
    ensures
        exists|i: int| search_ends_at(index, target, i),
    decreases k,
{
    if exists|j: int| 0 <= j < k && (index[j].platform is None || is_for(index[j], target)) {
        let j = choose|j: int|
            0 <= j < k && (index[j].platform is None || is_for(index[j], target));
        lemma_some_entry_ends_search(index, target, j);
    } else {
        assert(search_ends_at(index, target, k));
    }
}

/// The resolution does not depend on the entries for other platforms, nor on
/// where they stand: two indices whose entries all name a platform, and which
/// hold the same entries for `target` in the same order, resolve alike.
pub proof fn lemma_other_entries_do_not_matter(
    a: Seq<DescriptorView>,
    b: Seq<DescriptorView>,
    target: PlatformView,
)
    requires
        all_name_platforms(a),
        all_name_platforms(b),
        entries_for(a, target) == entries_for(b, target),
    ensures
        matched_digest(a, target) == matched_digest(b, target),
{
    lemma_decided_by_entries_for(a, target);
    lemma_decided_by_entries_for(b, target);
}

impl Platform {
    /// Whether this is exactly the platform `target`: both names equal, letter
    /// for letter.
    pub fn is(&self, target: &TargetPlatform) -> (b: bool)
        ensures
            b == (self@ == target@),
    {
        self.os == target.os && self.architecture == target.architecture
    }
}

impl ImageIndex {
    /// Finds the digest for `target`: that of the first entry whose operating
    /// system and architecture are those of `target`.
    pub fn match_platform(&self, target: &TargetPlatform) -> (r: Result<String, ResolutionError>)
        ensures
            match r {
                Ok(digest) => matched_digest(self@, target@) == Ok::<Seq<char>, ErrorView>(digest@),
                Err(e) => matched_digest(self@, target@) == Err::<Seq<char>, ErrorView>(e@),
            },
    {
        let n = self.manifests.len();
        let mut i: usize = 0;
        while i < n
            invariant
                n == self.manifests@.len(),
                i <= n,
                forall|j: int|
                    0 <= j < i ==> (#[trigger] self@[j]).platform is Some && !is_for(
                        self@[j],
                        target@,
                    ),
            decreases n - i,
        {
            let entry = &self.manifests[i];
            assert(self@[i as int] == entry@);
            match &entry.platform {
                None => {
                    proof {
                        lemma_search_decided_at(self@, target@, i as int);
                    }
                    return Err(ResolutionError::MissingPlatformMetadata);
                },
                Some(platform) => {
                    if platform.is(target) {
                        proof {
                            lemma_search_decided_at(self@, target@, i as int);
                        }
                        return Ok(entry.digest.clone());
                    }
                },
            }
            i += 1;
        }
        Err(ResolutionError::NoMatchingPlatform)
    }
}

/// Where the search ends at entry `i`, that entry decides: its digest if it
/// names a platform, which is then `target`, and an error if it names none.
pub proof fn lemma_search_decided_at(index: Seq<DescriptorView>, target: PlatformView, i: int)
    requires
        search_ends_at(index, target, i),
    ensures
        matched_digest(index, target) == (if index[i].platform is None {
            Err::<Seq<char>, ErrorView>(ErrorView::MissingPlatformMetadata)
        } else {
            Ok::<Seq<char>, ErrorView>(index[i].digest)
        }),
{
    let k = choose|k: int| search_ends_at(index, target, k);
    if k < i {
        assert(index[k].platform is Some && !is_for(index[k], target));
    } else if i < k {
        assert(index[i].platform is Some && !is_for(index[i], target));
    }
}

} // verus!
