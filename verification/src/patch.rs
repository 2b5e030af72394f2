//! The JSON Patch that pins images, and what it does to a Pod.

use crate::views::views;
use crate::reference::{pinned, ImageReference, ReferenceView};
use crate::text::{decimal, decimal_string, lemma_decimal_injective};
use vstd::prelude::*;
use vstd::string::*;

verus! {

/// One operation of the patch: `replace` the image of container `index` by
/// `value`.
#[derive(Debug, Clone, PartialEq, Eq)]
pub struct PatchOperation {
    pub index: usize,
    pub value: String,
}

/// The operations that pin a Pod's images, in the order of its containers.
#[derive(Debug, Clone, PartialEq, Eq)]
pub struct PatchSet {
    pub operations: Vec<PatchOperation>,
}

/// A `PatchOperation` as a mathematical value.
pub struct PatchView {
    pub index: nat,
    pub value: Seq<char>,
}

impl View for PatchOperation {
    type V = PatchView;

    open spec fn view(&self) -> PatchView {
        PatchView { index: self.index as nat, value: self.value@ }
    }
}

impl View for PatchSet {
    type V = Seq<PatchView>;

    open spec fn view(&self) -> Seq<PatchView> {
        views(self.operations@)
    }
}

/// The JSON Pointer to the image of container `index`:
/// `/spec/containers/<index>/image`.
pub open spec fn image_path(index: nat) -> Seq<char> {
    "/spec/containers/"@ + decimal(index) + "/image"@
}

/// The operation that pins container `index`, whose image is `reference`, to
/// `digest`.
pub open spec fn pin(index: nat, reference: ReferenceView, digest: Seq<char>) -> PatchView {
    PatchView { index, value: pinned(reference, digest) }
}

/// Different containers have different paths.
pub proof fn lemma_image_path_injective(i: nat, j: nat)
    requires
        image_path(i) == image_path(j),
    ensures
        i == j,
{
    let head = "/spec/containers/"@;
    let tail = "/image"@;
    let a = decimal(i);
    let b = decimal(j);
    assert(image_path(i).len() == head.len() + a.len() + tail.len());
    assert(image_path(j).len() == head.len() + b.len() + tail.len());
    assert(a =~= b) by {
        assert forall|k: int| 0 <= k < a.len() implies a[k] == b[k] by {
            assert(image_path(i)[head.len() + k] == a[k]);
            assert(image_path(j)[head.len() + k] == b[k]);
        }
    }
    lemma_decimal_injective(i, j);
}

/// The images of a Pod's containers after one `replace` at `path`: the
/// container that `path` addresses has the image `value`. As JSON Patch has it,
/// the operation fails (`None`) where `path` addresses no container, or one
/// that has no image to replace.
pub open spec fn replaced(
    images: Seq<Option<Seq<char>>>,
    path: Seq<char>,
    value: Seq<char>,
) -> Option<Seq<Option<Seq<char>>>> {
    if exists|i: int| is_target(images, path, i) {
        Some(images.update(choose|i: int| is_target(images, path, i), Some(value)))
    } else {
        None
    }
}

/// `path` addresses container `i`, and that container has an image.
pub open spec fn is_target(images: Seq<Option<Seq<char>>>, path: Seq<char>, i: int) -> bool {
    0 <= i < images.len() && images[i] is Some && image_path(i as nat) == path
}

/// The images of a Pod's containers after the operations of a patch, applied
/// in their order; `None` where one of them fails.
pub open spec fn applied(images: Seq<Option<Seq<char>>>, patch: Seq<PatchView>) -> Option<
    Seq<Option<Seq<char>>>,
>
    decreases patch.len(),
{
    if patch.len() == 0 {
        Some(images)
    } else {
        match applied(images, patch.drop_last()) {
            Some(before) => replaced(before, image_path(patch.last().index), patch.last().value),
            None => None,
        }
    }
}

/// A `replace` at the path of a container that has an image gives that
/// container the new image and leaves the others as they are.
pub proof fn lemma_replaced_at(images: Seq<Option<Seq<char>>>, index: nat, value: Seq<char>)
    requires
        index < images.len(),
        images[index as int] is Some,
    ensures
        replaced(images, image_path(index), value) == Some(
            images.update(index as int, Some(value)),
        ),
{
    let path = image_path(index);
    assert(is_target(images, path, index as int));
    let k = choose|k: int| is_target(images, path, k);
    lemma_image_path_injective(k as nat, index);
}

impl PatchOperation {
    /// The operation that pins container `index`, whose image is `reference`,
    /// to `digest`. The reference's tag plays no part.
    pub fn replace_image(index: usize, reference: &ImageReference, digest: &str) -> (op:
        PatchOperation)
        ensures
            op@ == pin(index as nat, reference@, digest@),
    {
        PatchOperation { index, value: reference.pinned_to(digest) }
    }

    /// The kind of the operation, as JSON Patch names it.
    pub fn op(&self) -> (name: &'static str)
        ensures
            name@ == "replace"@,
    {
        "replace"
    }

    /// The JSON Pointer to what the operation replaces.
    pub fn path(&self) -> (path: String)
        ensures
            path@ == image_path(self@.index),
    {
        let mut path = String::from_str("/spec/containers/");
        let number = decimal_string(self.index);
        path.append(number.as_str());
        path.append("/image");
        path
    }
}

} // verus!
