//! Borrowed-style objects of the odd kinds a fetch deals in directly: annotated
//! tags and commits, along with the errors their parsers report.
//!
//! Object payloads are modelled as plain byte strings and commit identifiers;
//! decoding the serialized forms is an object-store concern and out of scope.

use vstd::prelude::*;

verus! {

/// The kind of a git object.
#[derive(Copy, Clone, PartialEq, Eq, Structural, Debug, Hash)]
pub enum Kind {
    /// An annotated tag.
    Tag,
    /// A commit.
    Commit,
    /// A tree.
    Tree,
    /// A blob.
    Blob,
}

/// An annotated tag: a named pointer to another object.
#[derive(Clone, PartialEq, Eq, Debug, Hash)]
pub struct Tag {
    /// The id of the object this tag points to.
    pub target: u64,
    /// The name of the tag, e.g. `v1`.
    pub name: Vec<u8>,
    /// The message the tag was created with.
    pub message: Vec<u8>,
}

/// A commit: a snapshot of a tree with zero or more parents.
#[derive(Clone, PartialEq, Eq, Debug, Hash)]
pub struct Commit {
    /// The id of the tree this commit snapshots.
    pub tree: u64,
    /// The ids of the parent commits, oldest first.
    pub parents: Vec<u64>,
    /// The commit message.
    pub message: Vec<u8>,
}

/// An object of one of the kinds the fetch core inspects directly.
#[derive(PartialEq, Eq, Debug, Hash)]
pub enum Object {
    /// An annotated tag.
    Tag(Tag),
    /// A commit.
    Commit(Commit),
}

impl Object {
    /// The `Kind` of this object.
    pub fn kind(&self) -> (k: Kind)
        ensures
            k == (match self {
                Object::Tag(_) => Kind::Tag,
                Object::Commit(_) => Kind::Commit,
            }),
    {
        match self {
            Object::Tag(_) => Kind::Tag,
            Object::Commit(_) => Kind::Commit,
        }
    }
}

impl From<Tag> for Object {
    fn from(v: Tag) -> (r: Self)
        ensures
            r == Object::Tag(v),
    {
        Object::Tag(v)
    }
}

impl vstd::std_specs::convert::FromSpecImpl<Tag> for Object {
    open spec fn obeys_from_spec() -> bool {
        true
    }

    open spec fn from_spec(v: Tag) -> Self {
        Object::Tag(v)
    }
}

impl From<Commit> for Object {
    fn from(v: Commit) -> (r: Self)
        ensures
            r == Object::Commit(v),
    {
        Object::Commit(v)
    }
}

impl vstd::std_specs::convert::FromSpecImpl<Commit> for Object {
    open spec fn obeys_from_spec() -> bool {
        true
    }

    open spec fn from_spec(v: Commit) -> Self {
        Object::Commit(v)
    }
}

impl TryFrom<Object> for Tag {
    type Error = Object;

    fn try_from(value: Object) -> (r: Result<Self, Object>)
        ensures
            r == (match value {
                Object::Tag(v) => Ok::<Tag, Object>(v),
                _ => Err::<Tag, Object>(value),
            }),
    {
        match value {
            Object::Tag(v) => Ok(v),
            _ => Err(value),
        }
    }
}

impl vstd::std_specs::convert::TryFromSpecImpl<Object> for Tag {
    open spec fn obeys_try_from_spec() -> bool {
        true
    }

    open spec fn try_from_spec(value: Object) -> Result<Self, Object> {
        match value {
            Object::Tag(v) => Ok(v),
            _ => Err(value),
        }
    }
}

impl TryFrom<Object> for Commit {
    type Error = Object;

    fn try_from(value: Object) -> (r: Result<Self, Object>)
        ensures
            r == (match value {
                Object::Commit(v) => Ok::<Commit, Object>(v),
                _ => Err::<Commit, Object>(value),
            }),
    {
        match value {
            Object::Commit(v) => Ok(v),
            _ => Err(value),
        }
    }
}

impl vstd::std_specs::convert::TryFromSpecImpl<Object> for Commit {
    open spec fn obeys_try_from_spec() -> bool {
        true
    }

    open spec fn try_from_spec(value: Object) -> Result<Self, Object> {
        match value {
            Object::Commit(v) => Ok(v),
            _ => Err(value),
        }
    }
}


/// A timestamp with the zone offset it was recorded in.
#[derive(Copy, Clone, PartialEq, Eq, Structural, Debug, Hash)]
pub struct Time {
    /// Seconds since the unix epoch.
    pub seconds_since_unix_epoch: u64,
    /// The timezone offset, in seconds east of UTC; negative west of it.
    pub offset_in_seconds: i32,
}

/// The name, email and time an object records for its author or committer.
#[derive(Clone, PartialEq, Eq, Debug, Hash)]
pub struct Signature {
    /// The name of the person.
    pub name: Vec<u8>,
    /// The email address of the person.
    pub email: Vec<u8>,
    /// When the signature was made.
    pub time: Time,
}

/// An error while decoding an object, with enough context to say which part of
/// the input could not be understood.
#[derive(PartialEq, Eq, Debug)]
pub enum DecodeError {
    /// A field that should have held a number did not.
    ParseInteger {
        /// What the number was expected to describe.
        msg: &'static str,
        /// The bytes that failed to parse.
        number: Vec<u8>,
    },
    /// A parser failure that was already rendered into a message.
    Rendered {
        /// The rendered failure message.
        message: Vec<u8>,
    },
    /// A parser failure with the input that caused it.
    Detail {
        /// The input that could not be parsed.
        input: Vec<u8>,
        /// What the parser was looking for.
        message: &'static str,
    },
    /// The object's kind line named no known kind.
    ObjectKind,
}

impl DecodeError {
    /// Replace the description of a `Detail` failure with `ctx`, which names the
    /// production the parser was working on; every other error is returned unchanged.
    pub fn set_parse_context(self, ctx: &'static str) -> (r: Self)
        ensures
            r == (match self {
                DecodeError::Detail { input, .. } => DecodeError::Detail { input, message: ctx },
                _ => self,
            }),
    {
        match self {
            DecodeError::Detail { input, .. } => DecodeError::Detail { input, message: ctx },
            other => other,
        }
    }
}

} // verus!
