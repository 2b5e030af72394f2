//! The target platform: an operating system and an architecture.

use crate::error::{ErrorView, ResolutionError};
use vstd::prelude::*;
use vstd::string::*;

verus! {

/// The platform to which a Pod's images are pinned.
#[derive(Debug, Clone, PartialEq, Eq)]
pub struct TargetPlatform {
    pub os: String,
    pub architecture: String,
}

/// A platform as a mathematical value.
pub struct PlatformView {
    pub os: Seq<char>,
    pub architecture: Seq<char>,
}

impl View for TargetPlatform {
    type V = PlatformView;

    open spec fn view(&self) -> PlatformView {
        PlatformView { os: self.os@, architecture: self.architecture@ }
    }
}

/// `i` is the place of the first `/` in `text`.
pub open spec fn is_first_slash(text: Seq<char>, i: int) -> bool {
    &&& 0 <= i < text.len()
    &&& text[i] == '/'
    &&& forall|j: int| 0 <= j < i ==> text[j] != '/'
}

/// The platform that `text` names: what stands before its first `/` is the
/// operating system, all that follows it the architecture. A text without `/`
/// names none.
pub open spec fn platform_of(text: Seq<char>) -> Option<PlatformView> {
    if exists|i: int| is_first_slash(text, i) {
        let i = choose|i: int| is_first_slash(text, i);
        Some(
            PlatformView {
                os: text.subrange(0, i),
                architecture: text.subrange(i + 1, text.len() as int),
            },
        )
    } else {
        None
    }
}

/// A text names a platform exactly when it holds a `/`.
pub proof fn lemma_platform_of_some(text: Seq<char>)
    ensures
        platform_of(text) is Some <==> text.contains('/'),
{
    if text.contains('/') {
        let k = choose|k: int| 0 <= k < text.len() && text[k] == '/';
        lemma_first_slash_exists(text, k);
    }
}

/// Where the first `/` of `text` stands at `i`, the operating system is what
/// stands before `i` and the architecture what stands behind it.
pub proof fn lemma_platform_split_at(text: Seq<char>, i: int)
    requires
        is_first_slash(text, i),
    ensures
        platform_of(text) == Some(
            PlatformView {
                os: text.subrange(0, i),
                architecture: text.subrange(i + 1, text.len() as int),
            },
        ),
{
    let k = choose|k: int| is_first_slash(text, k);
    if k < i {
        assert(text[k] != '/');
    } else if i < k {
        assert(text[i] != '/');
    }
}

proof fn lemma_first_slash_exists(text: Seq<char>, k: int)
    requires
        0 <= k < text.len(),
        text[k] == '/',
    ensures
        exists|i: int| is_first_slash(text, i),
    decreases k,
{
    if exists|j: int| 0 <= j < k && text[j] == '/' {
        let j = choose|j: int| 0 <= j < k && text[j] == '/';
        lemma_first_slash_exists(text, j);
    } else {
        assert(is_first_slash(text, k));
    }
}

impl TargetPlatform {
    /// Reads a platform written as `<os>/<architecture>`.
    pub fn parse(text: &str) -> (r: Result<TargetPlatform, ResolutionError>)
        ensures
            match r {
                Ok(platform) => platform_of(text@) == Some(platform@),
                Err(e) => platform_of(text@) is None && e@ == (ErrorView::Parse { input: text@ }),
            },
    {
        let n = text.unicode_len();
        let mut i: usize = 0;
        while i < n
            invariant
                n == text@.len(),
                i <= n,
                forall|j: int| 0 <= j < i ==> text@[j] != '/',
            decreases n - i,
        {
            if text.get_char(i) == '/' {
                proof {
                    lemma_platform_split_at(text@, i as int);
                }
                let os = String::from_str(text.substring_char(0, i));
                let architecture = String::from_str(text.substring_char(i + 1, n));
                return Ok(TargetPlatform { os, architecture });
            }
            i += 1;
        }
        Err(ResolutionError::Parse { input: String::from_str(text) })
    }
}

} // verus!
