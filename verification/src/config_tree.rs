//! The `gitoxide` section of the configuration-key tree: the names, environment
//! overrides and value kinds of every key this library consults, grouped into
//! sub-sections.
//!
//! The tree is pure data: resolving actual configuration values against it is a
//! caller concern.

use vstd::prelude::*;

verus! {

/// How the value of a configuration key is interpreted.
#[derive(Copy, Clone, PartialEq, Eq, Structural, Debug)]
pub enum KeyKind {
    /// Any value is acceptable.
    Any,
    /// A file-system path.
    Path,
    /// Free-form text.
    Text,
    /// A boolean.
    Boolean,
    /// A duration in milliseconds.
    Duration,
    /// An SSL version name.
    SslVersion,
    /// A proxy authentication method.
    ProxyAuthMethod,
    /// An unsigned integer.
    UnsignedInteger,
    /// The path of a program to execute.
    Executable,
    /// A timestamp.
    Time,
}

/// One configuration key: its name within its section, the environment variable
/// that overrides it, how its value is read, and a note for documentation.
#[derive(Copy, Clone, Debug)]
pub struct Key {
    /// The name of the key within its section, e.g. `proxy`.
    pub name: &'static str,
    /// The environment variable that, when set, overrides the configured value.
    pub environment_override: Option<&'static str>,
    /// How the value is interpreted.
    pub kind: KeyKind,
    /// A remark on how the key behaves, if one is warranted.
    pub note: Option<&'static str>,
}

/// The `gitoxide` section.
#[derive(Copy, Clone, Default)]
pub struct Gitoxide;

/// The keys of the `gitoxide` section itself.
pub open spec fn gitoxide_keys() -> Seq<Key> {
    seq![
        Key {
            name: "userAgent",
            environment_override: None,
            kind: KeyKind::Any,
            note: Some(
                "The user agent presented on the git protocol layer, serving as fallback for when no `http.userAgent` is set",
            ),
        },
    ]
}

impl Gitoxide {
    /// The name of this section.
    pub fn name(&self) -> (r: &'static str)
        ensures
            r@ == "gitoxide"@,
    {
        "gitoxide"
    }

    /// The keys of this section, in declaration order.
    pub fn keys(&self) -> (r: Vec<Key>)
        ensures
            r@ =~= gitoxide_keys(),
    {
        let mut r: Vec<Key> = Vec::new();
        r.push(
            Key {
                name: "userAgent",
                environment_override: None,
                kind: KeyKind::Any,
                note: Some(
                    "The user agent presented on the git protocol layer, serving as fallback for when no `http.userAgent` is set",
                ),
            },
        );
        proof {
            assert(r@ =~= gitoxide_keys());
        }
        r
    }

    /// The names of the sub-sections of this section, in declaration order.
    pub fn sub_section_names(&self) -> (r: Vec<&'static str>)
        ensures
            r@.len() == 10,
            r@[0]@ == "allow"@,
            r@[1]@ == "author"@,
            r@[2]@ == "core"@,
            r@[3]@ == "commit"@,
            r@[4]@ == "committer"@,
            r@[5]@ == "http"@,
            r@[6]@ == "https"@,
            r@[7]@ == "objects"@,
            r@[8]@ == "ssh"@,
            r@[9]@ == "user"@,
    {
        let mut r: Vec<&'static str> = Vec::new();
        r.push("allow");
        r.push("author");
        r.push("core");
        r.push("commit");
        r.push("committer");
        r.push("http");
        r.push("https");
        r.push("objects");
        r.push("ssh");
        r.push("user");
        r
    }
}

/// The `Core` sub-section.
#[derive(Copy, Clone, Default)]
pub struct Core;

/// The keys of the `gitoxide.core` sub-section.
pub open spec fn core_keys() -> Seq<Key> {
    seq![
        Key {
            name: "shallowFile",
            environment_override: Some("GIT_SHALLOW_FILE"),
            kind: KeyKind::Path,
            note: Some(
                "relative file paths will always be made relative to the git-common-dir, whereas `git` keeps them as is.",
            ),
        },
    ]
}

impl Core {
    /// The name of this sub-section.
    pub fn name(&self) -> (r: &'static str)
        ensures
            r@ == "core"@,
    {
        "core"
    }

    /// The keys of this sub-section, in declaration order.
    pub fn keys(&self) -> (r: Vec<Key>)
        ensures
            r@ =~= core_keys(),
    {
        let mut r: Vec<Key> = Vec::new();
        r.push(
            Key {
                name: "shallowFile",
                environment_override: Some("GIT_SHALLOW_FILE"),
                kind: KeyKind::Path,
                note: Some(
                    "relative file paths will always be made relative to the git-common-dir, whereas `git` keeps them as is.",
                ),
            },
        );
        proof {
            assert(r@ =~= core_keys());
        }
        r
    }

    /// The name of the parent section.
    pub fn parent_name(&self) -> (r: Option<&'static str>)
        ensures
            r matches Some(p) && p@ == "gitoxide"@,
    {
        Some("gitoxide")
    }
}

/// The `Http` sub-section.
#[derive(Copy, Clone, Default)]
pub struct Http;

/// The keys of the `gitoxide.http` sub-section.
pub open spec fn http_keys() -> Seq<Key> {
    seq![
        Key {
            name: "proxy",
            environment_override: Some("http_proxy"),
            kind: KeyKind::Text,
            note: None,
        },
        Key {
            name: "allProxy",
            environment_override: Some("all_proxy"),
            kind: KeyKind::Text,
            note: Some("fallback environment is `ALL_PROXY`"),
        },
        Key {
            name: "verbose",
            environment_override: Some("GIT_CURL_VERBOSE"),
            kind: KeyKind::Boolean,
            note: Some(
                "we parse it as boolean for convenience (infallible) but git only checks the presence",
            ),
        },
        Key {
            name: "noProxy",
            environment_override: Some("no_proxy"),
            kind: KeyKind::Text,
            note: Some("fallback environment is `NO_PROXY`"),
        },
        Key {
            name: "connectTimeout",
            environment_override: None,
            kind: KeyKind::Duration,
            note: Some(
                "entirely new, and in milliseconds, to describe how long to wait until a connection attempt is aborted",
            ),
        },
        Key {
            name: "sslVersionMin",
            environment_override: None,
            kind: KeyKind::SslVersion,
            note: Some(
                "entirely new to set the lower bound for the allowed ssl version range. Overwrites the min bound of `http.sslVersion` if set. Min and Max must be set to become effective.",
            ),
        },
        Key {
            name: "sslVersionMax",
            environment_override: None,
            kind: KeyKind::SslVersion,
            note: Some(
                "entirely new to set the upper bound for the allowed ssl version range. Overwrites the max bound of `http.sslVersion` if set. Min and Max must be set to become effective.",
            ),
        },
        Key {
            name: "proxyAuthMethod",
            environment_override: Some("GIT_HTTP_PROXY_AUTHMETHOD"),
            kind: KeyKind::ProxyAuthMethod,
            note: None,
        },
    ]
}

impl Http {
    /// The name of this sub-section.
    pub fn name(&self) -> (r: &'static str)
        ensures
            r@ == "http"@,
    {
        "http"
    }

    /// The keys of this sub-section, in declaration order.
    pub fn keys(&self) -> (r: Vec<Key>)
        ensures
            r@ =~= http_keys(),
    {
        let mut r: Vec<Key> = Vec::new();
        r.push(
            Key {
                name: "proxy",
                environment_override: Some("http_proxy"),
                kind: KeyKind::Text,
                note: None,
            },
        );
        r.push(
            Key {
                name: "allProxy",
                environment_override: Some("all_proxy"),
                kind: KeyKind::Text,
                note: Some("fallback environment is `ALL_PROXY`"),
            },
        );
        r.push(
            Key {
                name: "verbose",
                environment_override: Some("GIT_CURL_VERBOSE"),
                kind: KeyKind::Boolean,
                note: Some(
                    "we parse it as boolean for convenience (infallible) but git only checks the presence",
                ),
            },
        );
        r.push(
            Key {
                name: "noProxy",
                environment_override: Some("no_proxy"),
                kind: KeyKind::Text,
                note: Some("fallback environment is `NO_PROXY`"),
            },
        );
        r.push(
            Key {
                name: "connectTimeout",
                environment_override: None,
                kind: KeyKind::Duration,
                note: Some(
                    "entirely new, and in milliseconds, to describe how long to wait until a connection attempt is aborted",
                ),
            },
        );
        r.push(
            Key {
                name: "sslVersionMin",
                environment_override: None,
                kind: KeyKind::SslVersion,
                note: Some(
                    "entirely new to set the lower bound for the allowed ssl version range. Overwrites the min bound of `http.sslVersion` if set. Min and Max must be set to become effective.",
                ),
            },
        );
        r.push(
            Key {
                name: "sslVersionMax",
                environment_override: None,
                kind: KeyKind::SslVersion,
                note: Some(
                    "entirely new to set the upper bound for the allowed ssl version range. Overwrites the max bound of `http.sslVersion` if set. Min and Max must be set to become effective.",
                ),
            },
        );
        r.push(
            Key {
                name: "proxyAuthMethod",
                environment_override: Some("GIT_HTTP_PROXY_AUTHMETHOD"),
                kind: KeyKind::ProxyAuthMethod,
                note: None,
            },
        );
        proof {
            assert(r@ =~= http_keys());
        }
        r
    }

    /// The name of the parent section.
    pub fn parent_name(&self) -> (r: Option<&'static str>)
        ensures
            r matches Some(p) && p@ == "gitoxide"@,
    {
        Some("gitoxide")
    }
}

/// The `Https` sub-section.
#[derive(Copy, Clone, Default)]
pub struct Https;

/// The keys of the `gitoxide.https` sub-section.
pub open spec fn https_keys() -> Seq<Key> {
    seq![
        Key {
            name: "proxy",
            environment_override: Some("HTTPS_PROXY"),
            kind: KeyKind::Text,
            note: Some("fallback environment variable is `https_proxy`"),
        },
    ]
}

impl Https {
    /// The name of this sub-section.
    pub fn name(&self) -> (r: &'static str)
        ensures
            r@ == "https"@,
    {
        "https"
    }

    /// The keys of this sub-section, in declaration order.
    pub fn keys(&self) -> (r: Vec<Key>)
        ensures
            r@ =~= https_keys(),
    {
        let mut r: Vec<Key> = Vec::new();
        r.push(
            Key {
                name: "proxy",
                environment_override: Some("HTTPS_PROXY"),
                kind: KeyKind::Text,
                note: Some("fallback environment variable is `https_proxy`"),
            },
        );
        proof {
            assert(r@ =~= https_keys());
        }
        r
    }

    /// The name of the parent section.
    pub fn parent_name(&self) -> (r: Option<&'static str>)
        ensures
            r matches Some(p) && p@ == "gitoxide"@,
    {
        Some("gitoxide")
    }
}

/// The `allow` sub-section.
#[derive(Copy, Clone, Default)]
pub struct Allow;

/// The keys of the `gitoxide.allow` sub-section.
pub open spec fn allow_keys() -> Seq<Key> {
    seq![
        Key {
            name: "protocolFromUser",
            environment_override: Some("GIT_PROTOCOL_FROM_USER"),
            kind: KeyKind::Any,
            note: None,
        },
    ]
}

impl Allow {
    /// The name of this sub-section.
    pub fn name(&self) -> (r: &'static str)
        ensures
            r@ == "allow"@,
    {
        "allow"
    }

    /// The keys of this sub-section, in declaration order.
    pub fn keys(&self) -> (r: Vec<Key>)
        ensures
            r@ =~= allow_keys(),
    {
        let mut r: Vec<Key> = Vec::new();
        r.push(
            Key {
                name: "protocolFromUser",
                environment_override: Some("GIT_PROTOCOL_FROM_USER"),
                kind: KeyKind::Any,
                note: None,
            },
        );
        proof {
            assert(r@ =~= allow_keys());
        }
        r
    }

    /// The name of the parent section.
    pub fn parent_name(&self) -> (r: Option<&'static str>)
        ensures
            r matches Some(p) && p@ == "gitoxide"@,
    {
        Some("gitoxide")
    }
}

/// The `author` sub-section.
#[derive(Copy, Clone, Default)]
pub struct Author;

/// The keys of the `gitoxide.author` sub-section.
pub open spec fn author_keys() -> Seq<Key> {
    seq![
        Key {
            name: "nameFallback",
            environment_override: Some("GIT_AUTHOR_NAME"),
            kind: KeyKind::Any,
            note: None,
        },
        Key {
            name: "emailFallback",
            environment_override: Some("GIT_AUTHOR_EMAIL"),
            kind: KeyKind::Any,
            note: None,
        },
    ]
}

impl Author {
    /// The name of this sub-section.
    pub fn name(&self) -> (r: &'static str)
        ensures
            r@ == "author"@,
    {
        "author"
    }

    /// The keys of this sub-section, in declaration order.
    pub fn keys(&self) -> (r: Vec<Key>)
        ensures
            r@ =~= author_keys(),
    {
        let mut r: Vec<Key> = Vec::new();
        r.push(
            Key {
                name: "nameFallback",
                environment_override: Some("GIT_AUTHOR_NAME"),
                kind: KeyKind::Any,
                note: None,
            },
        );
        r.push(
            Key {
                name: "emailFallback",
                environment_override: Some("GIT_AUTHOR_EMAIL"),
                kind: KeyKind::Any,
                note: None,
            },
        );
        proof {
            assert(r@ =~= author_keys());
        }
        r
    }

    /// The name of the parent section.
    pub fn parent_name(&self) -> (r: Option<&'static str>)
        ensures
            r matches Some(p) && p@ == "gitoxide"@,
    {
        Some("gitoxide")
    }
}

/// The `user` sub-section.
#[derive(Copy, Clone, Default)]
pub struct User;

/// The keys of the `gitoxide.user` sub-section.
pub open spec fn user_keys() -> Seq<Key> {
    seq![
        Key {
            name: "emailFallback",
            environment_override: Some("EMAIL"),
            kind: KeyKind::Any,
            note: None,
        },
    ]
}

impl User {
    /// The name of this sub-section.
    pub fn name(&self) -> (r: &'static str)
        ensures
            r@ == "user"@,
    {
        "user"
    }

    /// The keys of this sub-section, in declaration order.
    pub fn keys(&self) -> (r: Vec<Key>)
        ensures
            r@ =~= user_keys(),
    {
        let mut r: Vec<Key> = Vec::new();
        r.push(
            Key {
                name: "emailFallback",
                environment_override: Some("EMAIL"),
                kind: KeyKind::Any,
                note: None,
            },
        );
        proof {
            assert(r@ =~= user_keys());
        }
        r
    }

    /// The name of the parent section.
    pub fn parent_name(&self) -> (r: Option<&'static str>)
        ensures
            r matches Some(p) && p@ == "gitoxide"@,
    {
        Some("gitoxide")
    }
}

/// The `ssh` sub-section.
#[derive(Copy, Clone, Default)]
pub struct Ssh;

/// The keys of the `gitoxide.ssh` sub-section.
pub open spec fn ssh_keys() -> Seq<Key> {
    seq![
        Key {
            name: "commandWithoutShellFallback",
            environment_override: Some("GIT_SSH"),
            kind: KeyKind::Executable,
            note: Some("is always executed without shell and treated as fallback"),
        },
    ]
}

impl Ssh {
    /// The name of this sub-section.
    pub fn name(&self) -> (r: &'static str)
        ensures
            r@ == "ssh"@,
    {
        "ssh"
    }

    /// The keys of this sub-section, in declaration order.
    pub fn keys(&self) -> (r: Vec<Key>)
        ensures
            r@ =~= ssh_keys(),
    {
        let mut r: Vec<Key> = Vec::new();
        r.push(
            Key {
                name: "commandWithoutShellFallback",
                environment_override: Some("GIT_SSH"),
                kind: KeyKind::Executable,
                note: Some("is always executed without shell and treated as fallback"),
            },
        );
        proof {
            assert(r@ =~= ssh_keys());
        }
        r
    }

    /// The name of the parent section.
    pub fn parent_name(&self) -> (r: Option<&'static str>)
        ensures
            r matches Some(p) && p@ == "gitoxide"@,
    {
        Some("gitoxide")
    }
}

/// The `objects` sub-section.
#[derive(Copy, Clone, Default)]
pub struct Objects;

/// The keys of the `gitoxide.objects` sub-section.
pub open spec fn objects_keys() -> Seq<Key> {
    seq![
        Key {
            name: "cacheLimit",
            environment_override: Some("GITOXIDE_OBJECT_CACHE_MEMORY"),
            kind: KeyKind::UnsignedInteger,
            note: Some("If unset or 0, there is no object cache"),
        },
        Key {
            name: "noReplace",
            environment_override: Some("GIT_NO_REPLACE_OBJECTS"),
            kind: KeyKind::Boolean,
            note: None,
        },
        Key {
            name: "replaceRefBase",
            environment_override: Some("GIT_REPLACE_REF_BASE"),
            kind: KeyKind::Any,
            note: None,
        },
    ]
}

impl Objects {
    /// The name of this sub-section.
    pub fn name(&self) -> (r: &'static str)
        ensures
            r@ == "objects"@,
    {
        "objects"
    }

    /// The keys of this sub-section, in declaration order.
    pub fn keys(&self) -> (r: Vec<Key>)
        ensures
            r@ =~= objects_keys(),
    {
        let mut r: Vec<Key> = Vec::new();
        r.push(
            Key {
                name: "cacheLimit",
                environment_override: Some("GITOXIDE_OBJECT_CACHE_MEMORY"),
                kind: KeyKind::UnsignedInteger,
                note: Some("If unset or 0, there is no object cache"),
            },
        );
        r.push(
            Key {
                name: "noReplace",
                environment_override: Some("GIT_NO_REPLACE_OBJECTS"),
                kind: KeyKind::Boolean,
                note: None,
            },
        );
        r.push(
            Key {
                name: "replaceRefBase",
                environment_override: Some("GIT_REPLACE_REF_BASE"),
                kind: KeyKind::Any,
                note: None,
            },
        );
        proof {
            assert(r@ =~= objects_keys());
        }
        r
    }

    /// The name of the parent section.
    pub fn parent_name(&self) -> (r: Option<&'static str>)
        ensures
            r matches Some(p) && p@ == "gitoxide"@,
    {
        Some("gitoxide")
    }
}

/// The `committer` sub-section.
#[derive(Copy, Clone, Default)]
pub struct Committer;

/// The keys of the `gitoxide.committer` sub-section.
pub open spec fn committer_keys() -> Seq<Key> {
    seq![
        Key {
            name: "nameFallback",
            environment_override: Some("GIT_COMMITTER_NAME"),
            kind: KeyKind::Any,
            note: None,
        },
        Key {
            name: "emailFallback",
            environment_override: Some("GIT_COMMITTER_EMAIL"),
            kind: KeyKind::Any,
            note: None,
        },
    ]
}

impl Committer {
    /// The name of this sub-section.
    pub fn name(&self) -> (r: &'static str)
        ensures
            r@ == "committer"@,
    {
        "committer"
    }

    /// The keys of this sub-section, in declaration order.
    pub fn keys(&self) -> (r: Vec<Key>)
        ensures
            r@ =~= committer_keys(),
    {
        let mut r: Vec<Key> = Vec::new();
        r.push(
            Key {
                name: "nameFallback",
                environment_override: Some("GIT_COMMITTER_NAME"),
                kind: KeyKind::Any,
                note: None,
            },
        );
        r.push(
            Key {
                name: "emailFallback",
                environment_override: Some("GIT_COMMITTER_EMAIL"),
                kind: KeyKind::Any,
                note: None,
            },
        );
        proof {
            assert(r@ =~= committer_keys());
        }
        r
    }

    /// The name of the parent section.
    pub fn parent_name(&self) -> (r: Option<&'static str>)
        ensures
            r matches Some(p) && p@ == "gitoxide"@,
    {
        Some("gitoxide")
    }
}

/// The `commit` sub-section. Its keys describe overrides that are consulted
/// directly rather than listed, so `keys` is empty.
#[derive(Copy, Clone, Default)]
pub struct Commit;

impl Commit {
    /// The name of this sub-section.
    pub fn name(&self) -> (r: &'static str)
        ensures
            r@ == "commit"@,
    {
        "commit"
    }

    /// The keys of this sub-section, in declaration order.
    pub fn keys(&self) -> (r: Vec<Key>)
        ensures
            r@ =~= Seq::<Key>::empty(),
    {
        let r: Vec<Key> = Vec::new();
        proof {
            assert(r@ =~= Seq::<Key>::empty());
        }
        r
    }

    /// The name of the parent section.
    pub fn parent_name(&self) -> (r: Option<&'static str>)
        ensures
            r matches Some(p) && p@ == "gitoxide"@,
    {
        Some("gitoxide")
    }
}

/// Validation for the `gitoxide.allow.protocolFromUser` key.
pub struct ProtocolFromUser;

/// The only value `gitoxide.allow.protocolFromUser` accepts.
pub open spec fn protocol_from_user_accepted() -> Seq<u8> {
    seq![49u8]
}

impl ProtocolFromUser {
    /// Accept the value if and only if it is the single character `1`; any other
    /// value is rejected, as the key may only switch the behaviour on.
    pub fn validate(&self, value: &Vec<u8>) -> (r: Result<(), InvalidValue>)
        ensures
            r is Ok <==> value@ =~= protocol_from_user_accepted(),
    {
        if value.len() == 1 && value[0] == 49u8 {
            proof {
                assert(value@ =~= protocol_from_user_accepted());
            }
            Ok(())
        } else {
            proof {
                assert(value@ =~= protocol_from_user_accepted() ==> value@.len() == 1
                    && value@[0] == 49u8);
            }
            Err(InvalidValue {})
        }
    }
}

/// A configuration value did not pass a key's validation.
#[derive(Copy, Clone, PartialEq, Eq, Structural, Debug)]
pub struct InvalidValue {}

} // verus!
