//! Monikers: the names of component instances, from the root down.

use vstd::prelude::*;
use crate::search::{first_match, lemma_first_match_absent, lemma_first_match_found};

verus! {

/// The mathematical value of one moniker segment.
pub enum SegmentSpec {
    /// A child that its parent's manifest declares.
    Static { name: Seq<char> },
    /// A child created at run time in a collection of its parent.
    Dynamic { collection: Seq<char>, name: Seq<char> },
}

/// The mathematical value of a moniker: its segments, root first.
pub type MonikerSpec = Seq<SegmentSpec>;

/// One step from a realm to a child of it.
#[derive(Debug, PartialEq, Eq, Hash)]
pub enum ChildMoniker {
    /// A child that the parent's manifest declares, by its name.
    Static { name: String },
    /// A child created at run time: the collection it lives in, and its name there.
    Dynamic { collection: String, name: String },
}

impl View for ChildMoniker {
    type V = SegmentSpec;

    open spec fn view(&self) -> SegmentSpec {
        match self {
            ChildMoniker::Static { name } => SegmentSpec::Static { name: name@ },
            ChildMoniker::Dynamic { collection, name } => SegmentSpec::Dynamic {
                collection: collection@,
                name: name@,
            },
        }
    }
}

impl Clone for ChildMoniker {
    fn clone(&self) -> (copy: ChildMoniker)
        ensures
            copy == *self,
    {
        match self {
            ChildMoniker::Static { name } => ChildMoniker::Static { name: name.clone() },
            ChildMoniker::Dynamic { collection, name } => ChildMoniker::Dynamic {
                collection: collection.clone(),
                name: name.clone(),
            },
        }
    }
}

/// Accepts the character that parts a collection from a name.
pub open spec fn is_colon() -> spec_fn(char) -> bool {
    |c: char| c == ':'
}

/// The segment that `text` writes: `collection:name` for a dynamic child, split
/// at the first `:`; a static child's name otherwise.
pub open spec fn segment_of_text(text: Seq<char>) -> SegmentSpec {
    match first_match(text, is_colon()) {
        Some(at) => SegmentSpec::Dynamic {
            collection: text.take(at),
            name: text.skip(at + 1),
        },
        None => SegmentSpec::Static { name: text },
    }
}

impl ChildMoniker {
    /// Reads a segment from its text form.
    pub fn parse(text: &str) -> (segment: ChildMoniker)
        ensures
            segment@ == segment_of_text(text@),
    {
        let len: usize = text.unicode_len();
        let mut at: usize = 0;
        while at < len
            invariant
                len == text@.len(),
                at <= len,
                forall|j: int| 0 <= j < at ==> !is_colon()(#[trigger] text@[j]),
            decreases len - at,
        {
            if text.get_char(at) == ':' {
                proof {
                    lemma_first_match_found(text@, is_colon(), at as int);
                }
                let collection = text.substring_char(0, at);
                let name = text.substring_char(at + 1, len);
                assert(text@.subrange(0, at as int) == text@.take(at as int));
                assert(text@.subrange(at + 1, len as int) == text@.skip(at + 1));
                return ChildMoniker::Dynamic {
                    collection: collection.to_owned(),
                    name: name.to_owned(),
                };
            }
            at += 1;
        }
        proof {
            lemma_first_match_absent(text@, is_colon());
        }
        ChildMoniker::Static { name: text.to_owned() }
    }

    /// Whether two segments name the same child.
    pub fn same(&self, other: &ChildMoniker) -> (equal: bool)
        ensures
            equal == (self@ == other@),
    {
        match self {
            ChildMoniker::Static { name } => match other {
                ChildMoniker::Static { name: other_name } => *name == *other_name,
                ChildMoniker::Dynamic { .. } => false,
            },
            ChildMoniker::Dynamic { collection, name } => match other {
                ChildMoniker::Static { .. } => false,
                ChildMoniker::Dynamic { collection: other_collection, name: other_name } => {
                    *collection == *other_collection && *name == *other_name
                },
            },
        }
    }

    /// The segment's text form: `name`, or `collection:name`.
    pub fn text(&self) -> (text: String)
        ensures
            text@ == segment_text(self@),
    {
        match self {
            ChildMoniker::Static { name } => name.clone(),
            ChildMoniker::Dynamic { collection, name } => {
                let mut text = collection.clone();
                text.append(":");
                text.append(name.as_str());
                text
            },
        }
    }
}

/// The text form of a segment.
pub open spec fn segment_text(segment: SegmentSpec) -> Seq<char> {
    match segment {
        SegmentSpec::Static { name } => name,
        SegmentSpec::Dynamic { collection, name } => collection + ":"@ + name,
    }
}

/// The name of a component instance: the segments that lead to it from the root.
/// The root's moniker has no segment.
#[derive(Debug, PartialEq, Eq, Hash)]
pub struct Moniker {
    /// The segments, root first.
    pub segments: Vec<ChildMoniker>,
}

impl View for Moniker {
    type V = MonikerSpec;

    open spec fn view(&self) -> MonikerSpec {
        self.segments@.map_values(|segment: ChildMoniker| segment@)
    }
}

impl Clone for Moniker {
    fn clone(&self) -> (copy: Moniker)
        ensures
            copy@ == self@,
    {
        self.prefix(self.segments.len())
    }
}

/// Whether `prefix` is the start of `whole`: the realm that `prefix` names is
/// the one that `whole` names, or an ancestor of it.
pub open spec fn is_prefix(prefix: MonikerSpec, whole: MonikerSpec) -> bool {
    prefix.len() <= whole.len() && whole.take(prefix.len() as int) == prefix
}

impl Moniker {
    /// The moniker of the root.
    pub fn root() -> (moniker: Moniker)
        ensures
            moniker@ == Seq::<SegmentSpec>::empty(),
    {
        let moniker = Moniker { segments: Vec::new() };
        assert(moniker@ =~= Seq::<SegmentSpec>::empty());
        moniker
    }

    /// The moniker made of the given segments, root first.
    pub fn new(segments: Vec<ChildMoniker>) -> (moniker: Moniker)
        ensures
            moniker.segments == segments,
    {
        Moniker { segments }
    }

    /// How many segments lie between the root and this instance.
    pub fn len(&self) -> (len: usize)
        ensures
            len == self@.len(),
    {
        self.segments.len()
    }

    /// Whether this is the root's moniker.
    pub fn is_root(&self) -> (root: bool)
        ensures
            root == (self@.len() == 0),
    {
        self.segments.len() == 0
    }

    /// The first `len` segments: the moniker of the ancestor at that depth. A
    /// `len` beyond the moniker's own length gives the whole moniker.
    pub fn prefix(&self, len: usize) -> (ancestor: Moniker)
        ensures
            len <= self@.len() ==> ancestor@ == self@.take(len as int),
            len > self@.len() ==> ancestor@ == self@,
    {
        let wanted: usize = len;
        let len: usize = if wanted <= self.segments.len() {
            wanted
        } else {
            self.segments.len()
        };
        let mut segments: Vec<ChildMoniker> = Vec::new();
        let mut at: usize = 0;
        while at < len
            invariant
                at <= len <= self.segments.len(),
                segments.len() == at,
                forall|j: int| 0 <= j < at ==> segments[j]@ == self.segments[j]@,
            decreases len - at,
        {
            segments.push(self.segments[at].clone());
            at += 1;
        }
        let ancestor = Moniker { segments };
        assert(ancestor@ =~= self@.take(len as int));
        assert(self@.take(self@.len() as int) =~= self@);
        ancestor
    }

    /// The moniker of the parent; the root has none.
    pub fn parent(&self) -> (parent: Option<Moniker>)
        ensures
            match parent {
                Some(parent) => self@.len() > 0 && parent@ == self@.drop_last(),
                None => self@.len() == 0,
            },
    {
        if self.segments.len() == 0 {
            None
        } else {
            let parent = self.prefix(self.segments.len() - 1);
            assert(self@.take(self@.len() - 1) =~= self@.drop_last());
            Some(parent)
        }
    }

    /// The moniker of the child that `segment` names under this instance.
    pub fn child(&self, segment: ChildMoniker) -> (child: Moniker)
        ensures
            child@ == self@.push(segment@),
    {
        let mut child = self.clone();
        child.segments.push(segment);
        assert(child@ =~= self@.push(segment@));
        child
    }

    /// Whether the first `len` segments of this moniker spell `other`.
    pub fn prefix_is(&self, len: usize, other: &Moniker) -> (equal: bool)
        ensures
            equal == (len <= self@.len() && self@.take(len as int) == other@),
    {
        if len > self.segments.len() {
            return false;
        }
        if other.segments.len() != len {
            assert(self@.take(len as int).len() != other@.len());
            return false;
        }
        let mut at: usize = 0;
        while at < len
            invariant
                at <= len <= self.segments.len(),
                other.segments.len() == len,
                forall|j: int| 0 <= j < at ==> self.segments[j]@ == other.segments[j]@,
            decreases len - at,
        {
            if !self.segments[at].same(&other.segments[at]) {
                assert(self@.take(len as int)[at as int] != other@[at as int]);
                return false;
            }
            at += 1;
        }
        assert(self@.take(len as int) =~= other@);
        true
    }

    /// Whether two monikers name the same instance.
    pub fn same(&self, other: &Moniker) -> (equal: bool)
        ensures
            equal == (self@ == other@),
    {
        assert(self@.take(self@.len() as int) =~= self@);
        self.prefix_is(self.segments.len(), other)
    }

    /// Whether `ancestor` names this instance or one above it.
    pub fn starts_with(&self, ancestor: &Moniker) -> (under: bool)
        ensures
            under == is_prefix(ancestor@, self@),
    {
        if ancestor.segments.len() > self.segments.len() {
            return false;
        }
        self.prefix_is(ancestor.segments.len(), ancestor)
    }
}

} // verus!
