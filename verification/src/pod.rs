//! What the library reads of a Pod: its annotations and its containers' images.

use crate::views::views;
use vstd::prelude::*;
use vstd::string::*;

verus! {

/// One annotation of a Pod.
#[derive(Debug, Clone, PartialEq, Eq)]
pub struct Annotation {
    pub key: String,
    pub value: String,
}

/// One container of a Pod.
#[derive(Debug, Clone, PartialEq, Eq)]
pub struct Container {
    pub image: Option<String>,
}

/// A Pod as it arrives for admission. `containers` is `None` where the Pod has
/// no spec. A cluster annotates no key twice; of several annotations with one
/// key, the first counts.
#[derive(Debug, Clone, PartialEq, Eq)]
pub struct Pod {
    pub annotations: Vec<Annotation>,
    pub containers: Option<Vec<Container>>,
}

/// An `Annotation` as a mathematical value.
pub struct AnnotationView {
    pub key: Seq<char>,
    pub value: Seq<char>,
}

/// A `Pod` as a mathematical value: its annotations, and the image of each
/// container, if it has one.
pub struct PodView {
    pub annotations: Seq<AnnotationView>,
    pub containers: Option<Seq<Option<Seq<char>>>>,
}

impl View for Annotation {
    type V = AnnotationView;

    open spec fn view(&self) -> AnnotationView {
        AnnotationView { key: self.key@, value: self.value@ }
    }
}

impl View for Container {
    type V = Option<Seq<char>>;

    open spec fn view(&self) -> Option<Seq<char>> {
        match self.image {
            Some(image) => Some(image@),
            None => None,
        }
    }
}

impl View for Pod {
    type V = PodView;

    open spec fn view(&self) -> PodView {
        PodView {
            annotations: views(self.annotations@),
            containers: match self.containers {
                Some(containers) => Some(views(containers@)),
                None => None,
            },
        }
    }
}

/// Entry `i` is the first annotation with the key `key`.
pub open spec fn is_first_with_key(
    annotations: Seq<AnnotationView>,
    key: Seq<char>,
    i: int,
) -> bool {
    &&& 0 <= i < annotations.len()
    &&& annotations[i].key == key
    &&& forall|j: int| 0 <= j < i ==> (#[trigger] annotations[j]).key != key
}

/// The value annotated under `key`, if any.
pub open spec fn annotation_value(annotations: Seq<AnnotationView>, key: Seq<char>) -> Option<
    Seq<char>,
> {
    if exists|i: int| is_first_with_key(annotations, key, i) {
        Some(annotations[choose|i: int| is_first_with_key(annotations, key, i)].value)
    } else {
        None
    }
}

/// Something is annotated under `key` exactly when an annotation has that key.
pub proof fn lemma_annotation_present(annotations: Seq<AnnotationView>, key: Seq<char>)
    ensures
        annotation_value(annotations, key) is Some <==> exists|i: int|
            0 <= i < annotations.len() && (#[trigger] annotations[i]).key == key,
{
    if exists|i: int| 0 <= i < annotations.len() && (#[trigger] annotations[i]).key == key {
        let i = choose|i: int| 0 <= i < annotations.len() && (#[trigger] annotations[i]).key == key;
        lemma_first_with_key_exists(annotations, key, i);
    }
}

proof fn lemma_first_with_key_exists(annotations: Seq<AnnotationView>, key: Seq<char>, k: int)
    requires
        0 <= k < annotations.len(),
        annotations[k].key == key,
    ensures
        exists|i: int| is_first_with_key(annotations, key, i),
    decreases k,
{
    if exists|j: int| 0 <= j < k && (#[trigger] annotations[j]).key == key {
        let j = choose|j: int| 0 <= j < k && (#[trigger] annotations[j]).key == key;
        lemma_first_with_key_exists(annotations, key, j);
    } else {
        assert(is_first_with_key(annotations, key, k));
    }
}

/// Where entry `i` is the first annotation with the key `key`, its value is
/// what is annotated under `key`.
pub proof fn lemma_annotation_at(annotations: Seq<AnnotationView>, key: Seq<char>, i: int)
    requires
        is_first_with_key(annotations, key, i),
    ensures
        annotation_value(annotations, key) == Some(annotations[i].value),
{
    let k = choose|k: int| is_first_with_key(annotations, key, k);
    if k < i {
        assert(annotations[k].key != key);
    } else if i < k {
        assert(annotations[i].key != key);
    }
}

/// No key is annotated twice, as in the map that a cluster keeps of a Pod's
/// annotations.
pub open spec fn keys_are_distinct(annotations: Seq<AnnotationView>) -> bool {
    forall|i: int, j: int|
        0 <= i < j < annotations.len() ==> (#[trigger] annotations[i]).key
            != (#[trigger] annotations[j]).key
}

/// Where no key is annotated twice, the value under `key` is that of the
/// annotation with that key, wherever it stands.
pub proof fn lemma_annotation_of_map(annotations: Seq<AnnotationView>, key: Seq<char>, i: int)
    requires
        keys_are_distinct(annotations),
        0 <= i < annotations.len(),
        annotations[i].key == key,
    ensures
        annotation_value(annotations, key) == Some(annotations[i].value),
{
    assert(is_first_with_key(annotations, key, i)) by {
        assert forall|j: int| 0 <= j < i implies (#[trigger] annotations[j]).key != key by {
            assert(annotations[j].key != annotations[i].key);
        }
    }
    lemma_annotation_at(annotations, key, i);
}

impl Pod {
    /// Looks up the annotation `key`.
    pub fn annotation(&self, key: &str) -> (r: Option<&String>)
        ensures
            match r {
                Some(value) => annotation_value(self@.annotations, key@) == Some(value@),
                None => annotation_value(self@.annotations, key@) is None,
            },
    {
        let wanted = String::from_str(key);
        let n = self.annotations.len();
        let mut i: usize = 0;
        while i < n
            invariant
                wanted@ == key@,
                n == self.annotations@.len(),
                i <= n,
                forall|j: int| 0 <= j < i ==> (#[trigger] self@.annotations[j]).key != key@,
            decreases n - i,
        {
            let annotation = &self.annotations[i];
            assert(self@.annotations[i as int] == annotation@);
            if annotation.key == wanted {
                proof {
                    lemma_annotation_at(self@.annotations, key@, i as int);
                }
                return Some(&annotation.value);
            }
            i += 1;
        }
        None
    }
}

} // verus!
