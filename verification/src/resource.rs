//! The kinds of resource a request may ask for, and sets of them.

use vstd::prelude::*;
use crate::text::is_word;

verus! {

/// The kind of resource that a request asks for.
#[derive(Clone, Copy, PartialEq, Eq, Debug, Structural)]
pub enum ResourceType {
    Script,
    Image,
    Stylesheet,
    Xhr,
    Document,
    Other,
}

/// A set of resource kinds.
#[derive(Clone, Copy, PartialEq, Eq, Debug, Structural)]
pub struct TypeSet {
    pub script: bool,
    pub image: bool,
    pub stylesheet: bool,
    pub xhr: bool,
    pub document: bool,
    pub other: bool,
}

/// The kind that a name stands for in a rule's options; nothing for any other word.
pub open spec fn named_type(name: Seq<char>) -> Option<ResourceType> {
    if name == "script"@ {
        Some(ResourceType::Script)
    } else if name == "image"@ {
        Some(ResourceType::Image)
    } else if name == "stylesheet"@ {
        Some(ResourceType::Stylesheet)
    } else if name == "xhr"@ || name == "xmlhttprequest"@ {
        Some(ResourceType::Xhr)
    } else if name == "document"@ {
        Some(ResourceType::Document)
    } else if name == "other"@ {
        Some(ResourceType::Other)
    } else {
        None
    }
}

/// The kind that a request's resource name stands for: a name that is not
/// known stands for `Other`.
pub open spec fn resource_type_of(name: Seq<char>) -> ResourceType {
    match named_type(name) {
        Some(t) => t,
        None => ResourceType::Other,
    }
}

impl TypeSet {
    /// The set without any kind.
    pub open spec fn empty() -> TypeSet {
        TypeSet { script: false, image: false, stylesheet: false, xhr: false, document: false, other: false }
    }

    /// The set of all kinds.
    pub open spec fn full() -> TypeSet {
        TypeSet { script: true, image: true, stylesheet: true, xhr: true, document: true, other: true }
    }

    /// Whether the kind is in the set.
    pub open spec fn contains(self, t: ResourceType) -> bool {
        match t {
            ResourceType::Script => self.script,
            ResourceType::Image => self.image,
            ResourceType::Stylesheet => self.stylesheet,
            ResourceType::Xhr => self.xhr,
            ResourceType::Document => self.document,
            ResourceType::Other => self.other,
        }
    }

    /// Whether no kind is in the set.
    pub open spec fn is_empty(self) -> bool {
        self == TypeSet::empty()
    }

    /// The number of kinds in the set.
    pub open spec fn count(self) -> nat {
        let one = |b: bool| if b { 1nat } else { 0nat };
        one(self.script) + one(self.image) + one(self.stylesheet) + one(self.xhr) + one(self.document) + one(
            self.other,
        )
    }

    /// The set with `t` added.
    pub open spec fn with(self, t: ResourceType) -> TypeSet {
        match t {
            ResourceType::Script => TypeSet { script: true, ..self },
            ResourceType::Image => TypeSet { image: true, ..self },
            ResourceType::Stylesheet => TypeSet { stylesheet: true, ..self },
            ResourceType::Xhr => TypeSet { xhr: true, ..self },
            ResourceType::Document => TypeSet { document: true, ..self },
            ResourceType::Other => TypeSet { other: true, ..self },
        }
    }

    /// The kinds of `self` that are not in `other`.
    pub open spec fn minus(self, other: TypeSet) -> TypeSet {
        TypeSet {
            script: self.script && !other.script,
            image: self.image && !other.image,
            stylesheet: self.stylesheet && !other.stylesheet,
            xhr: self.xhr && !other.xhr,
            document: self.document && !other.document,
            other: self.other && !other.other,
        }
    }

    /// The set without any kind.
    pub fn none() -> (r: TypeSet)
        ensures
            r == TypeSet::empty(),
    {
        TypeSet { script: false, image: false, stylesheet: false, xhr: false, document: false, other: false }
    }

    /// The set of all kinds.
    pub fn all() -> (r: TypeSet)
        ensures
            r == TypeSet::full(),
    {
        TypeSet { script: true, image: true, stylesheet: true, xhr: true, document: true, other: true }
    }

    /// Whether the kind is in the set.
    pub fn has(&self, t: ResourceType) -> (r: bool)
        ensures
            r == self.contains(t),
    {
        match t {
            ResourceType::Script => self.script,
            ResourceType::Image => self.image,
            ResourceType::Stylesheet => self.stylesheet,
            ResourceType::Xhr => self.xhr,
            ResourceType::Document => self.document,
            ResourceType::Other => self.other,
        }
    }

    /// Whether no kind is in the set.
    pub fn has_none(&self) -> (r: bool)
        ensures
            r == self.is_empty(),
    {
        !self.script && !self.image && !self.stylesheet && !self.xhr && !self.document && !self.other
    }

    /// The number of kinds in the set.
    pub fn size(&self) -> (r: u8)
        ensures
            r == self.count(),
    {
        let mut n: u8 = 0;
        if self.script {
            n += 1;
        }
        if self.image {
            n += 1;
        }
        if self.stylesheet {
            n += 1;
        }
        if self.xhr {
            n += 1;
        }
        if self.document {
            n += 1;
        }
        if self.other {
            n += 1;
        }
        n
    }

    /// The set with `t` added.
    pub fn insert(&self, t: ResourceType) -> (r: TypeSet)
        ensures
            r == self.with(t),
    {
        let mut r = *self;
        match t {
            ResourceType::Script => {
                r.script = true;
            },
            ResourceType::Image => {
                r.image = true;
            },
            ResourceType::Stylesheet => {
                r.stylesheet = true;
            },
            ResourceType::Xhr => {
                r.xhr = true;
            },
            ResourceType::Document => {
                r.document = true;
            },
            ResourceType::Other => {
                r.other = true;
            },
        }
        r
    }

    /// The kinds of the set that are not in `other`.
    pub fn without(&self, other: &TypeSet) -> (r: TypeSet)
        ensures
            r == self.minus(*other),
    {
        TypeSet {
            script: self.script && !other.script,
            image: self.image && !other.image,
            stylesheet: self.stylesheet && !other.stylesheet,
            xhr: self.xhr && !other.xhr,
            document: self.document && !other.document,
            other: self.other && !other.other,
        }
    }
}

/// The kind that a word names in a rule's options.
pub fn type_named(name: &[char]) -> (r: Option<ResourceType>)
    ensures
        r == named_type(name@),
{
    if is_word(name, "script") {
        Some(ResourceType::Script)
    } else if is_word(name, "image") {
        Some(ResourceType::Image)
    } else if is_word(name, "stylesheet") {
        Some(ResourceType::Stylesheet)
    } else if is_word(name, "xhr") || is_word(name, "xmlhttprequest") {
        Some(ResourceType::Xhr)
    } else if is_word(name, "document") {
        Some(ResourceType::Document)
    } else if is_word(name, "other") {
        Some(ResourceType::Other)
    } else {
        None
    }
}

impl ResourceType {
    /// The kind that a request's resource name stands for.
    pub fn from_name(name: &[char]) -> (r: ResourceType)
        ensures
            r == resource_type_of(name@),
    {
        match type_named(name) {
            Some(t) => t,
            None => ResourceType::Other,
        }
    }
}

} // verus!
