//! A shared trust model: how much a resource (typically a git repository) is
//! trusted, and whether an operation on it is allowed, denied or forbidden.

use vstd::prelude::*;

verus! {

/// A way to specify how 'safe' we feel about a resource, typically about a git repository.
#[derive(Copy, Clone, PartialOrd, Ord, PartialEq, Eq, Structural, Debug, Hash)]
pub enum Trust {
    /// Caution is warranted when using the resource.
    Reduced,
    /// We have no doubts that this resource means no harm and it can be used at will.
    Full,
}

impl Trust {
    /// Derive `Full` trust if the path in question is owned by the user executing the
    /// current process, or `Reduced` trust otherwise. Whether the path is so owned is a
    /// question for the platform's identity facilities; the caller passes the answer in.
    pub fn from_path_ownership(owned_by_current_user: bool) -> (t: Trust)
        ensures
            t == (if owned_by_current_user {
                Trust::Full
            } else {
                Trust::Reduced
            }),
    {
        if owned_by_current_user {
            Trust::Full
        } else {
            Trust::Reduced
        }
    }
}

/// A trait to help creating default values based on a trust level.
pub trait DefaultForLevel: Sized {
    /// The value that `default_for_level` produces for the given trust `level`.
    spec fn spec_default_for_level(level: Trust) -> Self;

    /// Produce a default value for the given trust `level`.
    fn default_for_level(level: Trust) -> (r: Self)
        ensures
            r == Self::spec_default_for_level(level),
    ;
}

/// Associate instructions for how to deal with various `Trust` levels as they are
/// encountered in the wild.
pub struct Mapping<T> {
    /// The value for fully trusted resources.
    pub full: T,
    /// The value for resources with reduced trust.
    pub reduced: T,
}

impl<T: DefaultForLevel> Default for Mapping<T> {
    fn default() -> (r: Self)
        ensures
            r.full == T::spec_default_for_level(Trust::Full),
            r.reduced == T::spec_default_for_level(Trust::Reduced),
    {
        Mapping {
            full: T::default_for_level(Trust::Full),
            reduced: T::default_for_level(Trust::Reduced),
        }
    }
}

impl<T> Mapping<T> {
    /// Obtain the value for the given trust `level`.
    pub fn by_level(&self, level: Trust) -> (r: &T)
        ensures
            level is Full ==> r == self.full,
            level is Reduced ==> r == self.reduced,
    {
        match level {
            Trust::Full => &self.full,
            Trust::Reduced => &self.reduced,
        }
    }

    /// Obtain the value for the given `level` once.
    pub fn into_value_by_level(self, level: Trust) -> (r: T)
        ensures
            level is Full ==> r == self.full,
            level is Reduced ==> r == self.reduced,
    {
        match level {
            Trust::Full => self.full,
            Trust::Reduced => self.reduced,
        }
    }
}

/// An error to use if an operation cannot proceed due to insufficient permissions.
///
/// It's up to the implementation to decide which permission is required for an
/// operation, and which one causes errors.
#[derive(Debug)]
pub struct Error<R, P> {
    /// The resource which cannot be used.
    pub resource: R,
    /// The permission causing it to be disallowed.
    pub permission: P,
}

/// Allow, deny or forbid using a resource or performing an action.
#[derive(Copy, Clone, PartialOrd, Ord, PartialEq, Eq, Structural, Debug, Hash)]
pub enum Permission {
    /// Fail outright when trying to load a resource or performing an action.
    Forbid,
    /// Ignore resources or try to avoid performing an operation.
    Deny,
    /// Allow loading a resource or performing an action.
    Allow,
}

impl Permission {
    /// Check this permission and produce a reply to indicate if the `resource` can be
    /// used and in which way.
    ///
    /// Only if this permission is set to `Allow` will the resource be usable.
    pub fn check<R>(&self, resource: R) -> (r: Result<Option<R>, Error<R, Permission>>)
        ensures
            match r {
                Ok(reply) => {
                    &&& *self != Permission::Forbid
                    &&& (*self == Permission::Allow <==> reply == Some(resource))
                    &&& (*self == Permission::Deny <==> reply is None)
                },
                Err(e) => {
                    &&& *self == Permission::Forbid
                    &&& e.resource == resource
                    &&& e.permission == Permission::Forbid
                },
            },
    {
        match self {
            Permission::Allow => Ok(Some(resource)),
            Permission::Deny => Ok(None),
            Permission::Forbid => Err(Error { resource, permission: *self }),
        }
    }

    /// The word this permission prints as: `allowed`, `denied` or `forbidden`.
    pub fn as_text(&self) -> (r: &'static str)
        ensures
            *self == Permission::Allow ==> r@ == "allowed"@,
            *self == Permission::Deny ==> r@ == "denied"@,
            *self == Permission::Forbid ==> r@ == "forbidden"@,
    {
        match self {
            Permission::Allow => "allowed",
            Permission::Deny => "denied",
            Permission::Forbid => "forbidden",
        }
    }
}


impl DefaultForLevel for Permission {
    /// A fully trusted resource may be used at will; one with reduced trust is
    /// denied by default.
    open spec fn spec_default_for_level(level: Trust) -> Self {
        match level {
            Trust::Full => Permission::Allow,
            Trust::Reduced => Permission::Deny,
        }
    }

    fn default_for_level(level: Trust) -> (r: Self) {
        match level {
            Trust::Full => Permission::Allow,
            Trust::Reduced => Permission::Deny,
        }
    }
}

} // verus!
