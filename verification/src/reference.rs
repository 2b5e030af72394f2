//! Image references: which image of which repository on which registry.

use crate::error::{ErrorView, ResolutionError};
use vstd::prelude::*;
use vstd::string::*;

verus! {

/// What selects one image within a repository.
#[derive(Debug, PartialEq, Eq)]
pub enum TagOrDigest {
    Tag(String),
    Digest(String),
}

/// A parsed image reference. Where the image string gives both a tag and a
/// digest, the digest is kept: it is what a registry is asked for.
#[derive(Debug, PartialEq, Eq)]
pub struct ImageReference {
    pub registry: String,
    pub repository: String,
    pub tag_or_digest: TagOrDigest,
}

/// A `TagOrDigest` as a mathematical value.
pub enum TagOrDigestView {
    Tag(Seq<char>),
    Digest(Seq<char>),
}

/// An `ImageReference` as a mathematical value.
pub struct ReferenceView {
    pub registry: Seq<char>,
    pub repository: Seq<char>,
    pub tag_or_digest: TagOrDigestView,
}

impl View for TagOrDigest {
    type V = TagOrDigestView;

    open spec fn view(&self) -> TagOrDigestView {
        match *self {
            TagOrDigest::Tag(tag) => TagOrDigestView::Tag(tag@),
            TagOrDigest::Digest(digest) => TagOrDigestView::Digest(digest@),
        }
    }
}

impl View for ImageReference {
    type V = ReferenceView;

    open spec fn view(&self) -> ReferenceView {
        ReferenceView {
            registry: self.registry@,
            repository: self.repository@,
            tag_or_digest: self.tag_or_digest@,
        }
    }
}

impl Clone for TagOrDigest {
    fn clone(&self) -> (copy: Self)
        ensures
            copy == *self,
    {
        match self {
            TagOrDigest::Tag(tag) => TagOrDigest::Tag(tag.clone()),
            TagOrDigest::Digest(digest) => TagOrDigest::Digest(digest.clone()),
        }
    }
}

impl Clone for ImageReference {
    fn clone(&self) -> (copy: Self)
        ensures
            copy == *self,
    {
        ImageReference {
            registry: self.registry.clone(),
            repository: self.repository.clone(),
            tag_or_digest: self.tag_or_digest.clone(),
        }
    }
}

/// The four parts into which the reference grammar takes an image string apart.
pub struct ReferenceParts {
    pub registry: String,
    pub repository: String,
    pub tag: Option<String>,
    pub digest: Option<String>,
}

/// `ReferenceParts` as a mathematical value.
pub struct PartsView {
    pub registry: Seq<char>,
    pub repository: Seq<char>,
    pub tag: Option<Seq<char>>,
    pub digest: Option<Seq<char>>,
}

impl View for ReferenceParts {
    type V = PartsView;

    open spec fn view(&self) -> PartsView {
        PartsView {
            registry: self.registry@,
            repository: self.repository@,
            tag: match self.tag {
                Some(tag) => Some(tag@),
                None => None,
            },
            digest: match self.digest {
                Some(digest) => Some(digest@),
                None => None,
            },
        }
    }
}

/// The error of `oci_distribution`'s reference parser. Nothing is known of a
/// value of it but that it is one.
#[verifier::external_type_specification]
#[verifier::external_body]
pub struct ExParseError(oci_distribution::ParseError);

/// What `oci_distribution::Reference::try_from` makes of an image string: the
/// registry, repository, tag and digest of the reference it returns, or `None`
/// where it returns an error.
pub uninterp spec fn parsed_reference(image: Seq<char>) -> Option<PartsView>;

/// Calls `oci_distribution::Reference::try_from` on `image` and hands out, for
/// a reference, what its `registry()`, `repository()`, `tag()` and `digest()`
/// return. Nothing is claimed of the grammar: the result is `parsed_reference`
/// of the string, which only says that equal strings parse alike.
#[verifier::external_body]
fn parse_parts(image: &str) -> (r: Result<ReferenceParts, oci_distribution::ParseError>)
    ensures
        match r {
            Ok(parts) => parsed_reference(image@) == Some(parts@),
            Err(_) => parsed_reference(image@) is None,
        },
{
    match oci_distribution::Reference::try_from(image) {
        Ok(reference) => Ok(
            ReferenceParts {
                registry: reference.registry().to_owned(),
                repository: reference.repository().to_owned(),
                tag: reference.tag().map(str::to_owned),
                digest: reference.digest().map(str::to_owned),
            },
        ),
        Err(e) => Err(e),
    }
}

/// The reference that the parts stand for: the digest selects the image where
/// there is one, else the tag. Parts with neither stand for none.
pub open spec fn reference_from(parts: PartsView) -> Option<ReferenceView> {
    match parts.digest {
        Some(digest) => Some(
            ReferenceView {
                registry: parts.registry,
                repository: parts.repository,
                tag_or_digest: TagOrDigestView::Digest(digest),
            },
        ),
        None => match parts.tag {
            Some(tag) => Some(
                ReferenceView {
                    registry: parts.registry,
                    repository: parts.repository,
                    tag_or_digest: TagOrDigestView::Tag(tag),
                },
            ),
            None => None,
        },
    }
}

/// The reference that an image string denotes, if any. The empty string
/// denotes none, whatever the grammar makes of it.
pub open spec fn reference_of(image: Seq<char>) -> Option<ReferenceView> {
    if image.len() == 0 {
        None
    } else {
        match parsed_reference(image) {
            Some(parts) => reference_from(parts),
            None => None,
        }
    }
}

/// `<registry>/<repository>@<digest>`: the image of `reference`'s repository
/// with the content digest `digest`, whatever tag the reference has.
pub open spec fn pinned(reference: ReferenceView, digest: Seq<char>) -> Seq<char> {
    reference.registry + seq!['/'] + reference.repository + seq!['@'] + digest
}

impl ImageReference {
    /// Builds the reference that `parts` stand for.
    pub fn from_parts(parts: ReferenceParts) -> (r: Option<ImageReference>)
        ensures
            match r {
                Some(reference) => reference_from(parts@) == Some(reference@),
                None => reference_from(parts@) is None,
            },
    {
        let ReferenceParts { registry, repository, tag, digest } = parts;
        match digest {
            Some(digest) => Some(
                ImageReference { registry, repository, tag_or_digest: TagOrDigest::Digest(digest) },
            ),
            None => match tag {
                Some(tag) => Some(
                    ImageReference { registry, repository, tag_or_digest: TagOrDigest::Tag(tag) },
                ),
                None => None,
            },
        }
    }

    /// Parses an image string such as `registry.example.com/app:1.2`.
    pub fn parse(image: &str) -> (r: Result<ImageReference, ResolutionError>)
        ensures
            match r {
                Ok(reference) => reference_of(image@) == Some(reference@),
                Err(e) => reference_of(image@) is None && e@ == (ErrorView::Parse {
                    input: image@,
                }),
            },
    {
        if image.unicode_len() == 0 {
            return Err(ResolutionError::Parse { input: String::from_str(image) });
        }
        match parse_parts(image) {
            Ok(parts) => match ImageReference::from_parts(parts) {
                Some(reference) => Ok(reference),
                None => Err(ResolutionError::Parse { input: String::from_str(image) }),
            },
            Err(_) => Err(ResolutionError::Parse { input: String::from_str(image) }),
        }
    }

    /// The image string that pins this reference's repository to `digest`.
    pub fn pinned_to(&self, digest: &str) -> (s: String)
        ensures
            s@ == pinned(self@, digest@),
    {
        proof {
            reveal_strlit("/");
            reveal_strlit("@");
        }
        let mut s = self.registry.clone();
        s.append("/");
        s.append(self.repository.as_str());
        s.append("@");
        s.append(digest);
        assert("/"@ =~= seq!['/']);
        assert("@"@ =~= seq!['@']);
        s
    }
}

} // verus!
