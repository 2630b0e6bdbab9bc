//! Tri-state permission grants over the named permission scopes.
use vstd::prelude::*;
use crate::keyed::str_eq;

verus! {

/// The grant on one permission scope. `Unset` means no statement at all, and
/// is never written out.
#[derive(Debug, Clone, Copy, PartialEq, Eq, Structural)]
pub enum PermissionValue {
    Read,
    Write,
    Unset,
}

impl PermissionValue {
    pub fn is_none(&self) -> (r: bool)
        ensures
            r == (*self == PermissionValue::Unset),
    {
        match self {
            PermissionValue::Unset => true,
            _ => false,
        }
    }

    /// The lowercase token of the grant.
    pub open spec fn token_spec(self) -> Seq<char> {
        match self {
            PermissionValue::Read => "read"@,
            PermissionValue::Write => "write"@,
            PermissionValue::Unset => "none"@,
        }
    }

    /// The lowercase token of the grant: `read`, `write` or `none`.
    pub fn token(&self) -> (r: &'static str)
        ensures
            r@ == self.token_spec(),
    {
        match self {
            PermissionValue::Read => {
                proof {
                    reveal_strlit("read");
                }
                "read"
            },
            PermissionValue::Write => {
                proof {
                    reveal_strlit("write");
                }
                "write"
            },
            PermissionValue::Unset => {
                proof {
                    reveal_strlit("none");
                }
                "none"
            },
        }
    }
}

/// A permission token outside `read`, `write` and `none`.
#[derive(Debug, Clone, PartialEq, Eq)]
pub struct UnknownToken {
    pub token: String,
}

/// The grant that a token names, if it names one.
pub open spec fn parse_token(s: Seq<char>) -> Option<PermissionValue> {
    if s == "read"@ {
        Option::Some(PermissionValue::Read)
    } else if s == "write"@ {
        Option::Some(PermissionValue::Write)
    } else if s == "none"@ {
        Option::Some(PermissionValue::Unset)
    } else {
        Option::None
    }
}

impl PermissionValue {
    /// Reads a grant back from its token; any other token is refused.
    pub fn from_token(s: &str) -> (r: Result<PermissionValue, UnknownToken>)
        ensures
            parse_token(s@) is Some ==> r == Ok::<PermissionValue, UnknownToken>(parse_token(s@)->Some_0),
            parse_token(s@) is None ==> r is Err && r->Err_0.token@ == s@,
    {
        if str_eq(s, "read") {
            Ok(PermissionValue::Read)
        } else if str_eq(s, "write") {
            Ok(PermissionValue::Write)
        } else if str_eq(s, "none") {
            Ok(PermissionValue::Unset)
        } else {
            Err(UnknownToken { token: s.to_owned() })
        }
    }
}

/// Every grant reads back from its own token.
pub proof fn lemma_token_round_trip(v: PermissionValue)
    ensures
        parse_token(v.token_spec()) == Option::Some(v),
{
    reveal_strlit("read");
    reveal_strlit("write");
    reveal_strlit("none");
    assert("write"@.len() != "read"@.len());
    assert("none"@.len() != "write"@.len());
    assert("none"@[0] != "read"@[0]);
}

impl Default for PermissionValue {
    fn default() -> (r: Self)
        ensures
            r == PermissionValue::Unset,
    {
        PermissionValue::Unset
    }
}

/// One of the named permission scopes.
#[derive(Debug, Clone, Copy, PartialEq, Eq, Structural)]
pub enum Scope {
    Actions,
    Attestations,
    Checks,
    Contents,
    Deployments,
    Id,
    Issues,
    Discussions,
    Packages,
    Pages,
    Pull,
    Repository,
    Security,
    Statuses,
}

impl Scope {
    /// The key under which the scope is written.
    pub open spec fn key_spec(self) -> Seq<char> {
        match self {
            Scope::Actions => "actions"@,
            Scope::Attestations => "attestations"@,
            Scope::Checks => "checks"@,
            Scope::Contents => "contents"@,
            Scope::Deployments => "deployments"@,
            Scope::Id => "id"@,
            Scope::Issues => "issues"@,
            Scope::Discussions => "discussions"@,
            Scope::Packages => "packages"@,
            Scope::Pages => "pages"@,
            Scope::Pull => "pull"@,
            Scope::Repository => "repository"@,
            Scope::Security => "security"@,
            Scope::Statuses => "statuses"@,
        }
    }

    /// The key under which the scope is written.
    pub fn key(&self) -> (r: &'static str)
        ensures
            r@ == self.key_spec(),
    {
        match self {
            Scope::Actions => {
                proof {
                    reveal_strlit("actions");
                }
                "actions"
            },
            Scope::Attestations => {
                proof {
                    reveal_strlit("attestations");
                }
                "attestations"
            },
            Scope::Checks => {
                proof {
                    reveal_strlit("checks");
                }
                "checks"
            },
            Scope::Contents => {
                proof {
                    reveal_strlit("contents");
                }
                "contents"
            },
            Scope::Deployments => {
                proof {
                    reveal_strlit("deployments");
                }
                "deployments"
            },
            Scope::Id => {
                proof {
                    reveal_strlit("id");
                }
                "id"
            },
            Scope::Issues => {
                proof {
                    reveal_strlit("issues");
                }
                "issues"
            },
            Scope::Discussions => {
                proof {
                    reveal_strlit("discussions");
                }
                "discussions"
            },
            Scope::Packages => {
                proof {
                    reveal_strlit("packages");
                }
                "packages"
            },
            Scope::Pages => {
                proof {
                    reveal_strlit("pages");
                }
                "pages"
            },
            Scope::Pull => {
                proof {
                    reveal_strlit("pull");
                }
                "pull"
            },
            Scope::Repository => {
                proof {
                    reveal_strlit("repository");
                }
                "repository"
            },
            Scope::Security => {
                proof {
                    reveal_strlit("security");
                }
                "security"
            },
            Scope::Statuses => {
                proof {
                    reveal_strlit("statuses");
                }
                "statuses"
            },
        }
    }
}

/// The grant on each permission scope.
#[derive(Debug, Clone, Copy, PartialEq, Eq, Structural)]
pub struct Permissions {
    pub actions: PermissionValue,
    pub attestations: PermissionValue,
    pub checks: PermissionValue,
    pub contents: PermissionValue,
    pub deployments: PermissionValue,
    pub id: PermissionValue,
    pub issues: PermissionValue,
    pub discussions: PermissionValue,
    pub packages: PermissionValue,
    pub pages: PermissionValue,
    pub pull: PermissionValue,
    pub repository: PermissionValue,
    pub security: PermissionValue,
    pub statuses: PermissionValue,
}

/// The grants that result from granting `value` on `scope` to `current`,
/// creating the permission set first when there is none.
pub open spec fn granted(current: Option<Permissions>, scope: Scope, value: PermissionValue) -> Permissions {
    match current {
        Option::Some(p) => p.with_spec(scope, value),
        Option::None => Permissions::none_set().with_spec(scope, value),
    }
}

/// Grants `value` on `scope`, creating the permission set with every other
/// scope unset when there is none, and leaving every other scope as it was.
pub fn grant(perms: &mut Option<Permissions>, scope: Scope, value: PermissionValue)
    ensures
        *final(perms) == Option::Some(granted(*old(perms), scope, value)),
{
    match perms {
        Option::Some(p) => p.set(scope, value),
        Option::None => {
            let mut p = Permissions::default();
            p.set(scope, value);
            *perms = Option::Some(p);
        },
    }
}

/// Granting twice on one scope keeps the last grant alone: the first leaves
/// no trace, on that scope or any other.
#[verifier::spinoff_prover]
pub proof fn lemma_last_grant_wins(
    current: Option<Permissions>,
    scope: Scope,
    first: PermissionValue,
    second: PermissionValue,
)
    ensures
        granted(Option::Some(granted(current, scope, first)), scope, second) == granted(
            current,
            scope,
            second,
        ),
        granted(Option::Some(granted(current, scope, first)), scope, second).get_spec(scope)
            == second,
{
    let p = match current {
        Option::Some(p) => p,
        Option::None => Permissions::none_set(),
    };
    lemma_set_twice(p, scope, first, second);
}

#[verifier::spinoff_prover]
#[verifier::rlimit(100)]
proof fn lemma_set_twice(p: Permissions, scope: Scope, first: PermissionValue, second: PermissionValue)
    ensures
        p.with_spec(scope, first).with_spec(scope, second) == p.with_spec(scope, second),
        p.with_spec(scope, second).get_spec(scope) == second,
{
    match scope {
        Scope::Actions => {
        },
        Scope::Attestations => {
        },
        Scope::Checks => {
        },
        Scope::Contents => {
        },
        Scope::Deployments => {
        },
        Scope::Id => {
        },
        Scope::Issues => {
        },
        Scope::Discussions => {
        },
        Scope::Packages => {
        },
        Scope::Pages => {
        },
        Scope::Pull => {
        },
        Scope::Repository => {
        },
        Scope::Security => {
        },
        Scope::Statuses => {
        },
    }
}

impl Permissions {
    pub open spec fn none_set() -> Permissions {
        Permissions {
            actions: PermissionValue::Unset,
            attestations: PermissionValue::Unset,
            checks: PermissionValue::Unset,
            contents: PermissionValue::Unset,
            deployments: PermissionValue::Unset,
            id: PermissionValue::Unset,
            issues: PermissionValue::Unset,
            discussions: PermissionValue::Unset,
            packages: PermissionValue::Unset,
            pages: PermissionValue::Unset,
            pull: PermissionValue::Unset,
            repository: PermissionValue::Unset,
            security: PermissionValue::Unset,
            statuses: PermissionValue::Unset,
        }
    }

    pub open spec fn get_spec(self, scope: Scope) -> PermissionValue {
        match scope {
            Scope::Actions => self.actions,
            Scope::Attestations => self.attestations,
            Scope::Checks => self.checks,
            Scope::Contents => self.contents,
            Scope::Deployments => self.deployments,
            Scope::Id => self.id,
            Scope::Issues => self.issues,
            Scope::Discussions => self.discussions,
            Scope::Packages => self.packages,
            Scope::Pages => self.pages,
            Scope::Pull => self.pull,
            Scope::Repository => self.repository,
            Scope::Security => self.security,
            Scope::Statuses => self.statuses,
        }
    }

    pub open spec fn with_spec(self, scope: Scope, value: PermissionValue) -> Permissions {
        match scope {
            Scope::Actions => Permissions { actions: value, ..self },
            Scope::Attestations => Permissions { attestations: value, ..self },
            Scope::Checks => Permissions { checks: value, ..self },
            Scope::Contents => Permissions { contents: value, ..self },
            Scope::Deployments => Permissions { deployments: value, ..self },
            Scope::Id => Permissions { id: value, ..self },
            Scope::Issues => Permissions { issues: value, ..self },
            Scope::Discussions => Permissions { discussions: value, ..self },
            Scope::Packages => Permissions { packages: value, ..self },
            Scope::Pages => Permissions { pages: value, ..self },
            Scope::Pull => Permissions { pull: value, ..self },
            Scope::Repository => Permissions { repository: value, ..self },
            Scope::Security => Permissions { security: value, ..self },
            Scope::Statuses => Permissions { statuses: value, ..self },
        }
    }

    pub open spec fn is_empty_spec(self) -> bool {
        forall|s: Scope| #[trigger] self.get_spec(s) == PermissionValue::Unset
    }

    pub fn get(&self, scope: Scope) -> (r: PermissionValue)
        ensures
            r == self.get_spec(scope),
    {
        match scope {
            Scope::Actions => self.actions,
            Scope::Attestations => self.attestations,
            Scope::Checks => self.checks,
            Scope::Contents => self.contents,
            Scope::Deployments => self.deployments,
            Scope::Id => self.id,
            Scope::Issues => self.issues,
            Scope::Discussions => self.discussions,
            Scope::Packages => self.packages,
            Scope::Pages => self.pages,
            Scope::Pull => self.pull,
            Scope::Repository => self.repository,
            Scope::Security => self.security,
            Scope::Statuses => self.statuses,
        }
    }

    /// Sets the grant on one scope, leaving the others as they were.
    pub fn set(&mut self, scope: Scope, value: PermissionValue)
        ensures
            *final(self) == old(self).with_spec(scope, value),
    {
        match scope {
            Scope::Actions => self.actions = value,
            Scope::Attestations => self.attestations = value,
            Scope::Checks => self.checks = value,
            Scope::Contents => self.contents = value,
            Scope::Deployments => self.deployments = value,
            Scope::Id => self.id = value,
            Scope::Issues => self.issues = value,
            Scope::Discussions => self.discussions = value,
            Scope::Packages => self.packages = value,
            Scope::Pages => self.pages = value,
            Scope::Pull => self.pull = value,
            Scope::Repository => self.repository = value,
            Scope::Security => self.security = value,
            Scope::Statuses => self.statuses = value,
        }
    }

    /// Whether no scope holds a grant.
    pub fn is_empty(&self) -> (r: bool)
        ensures
            r == self.is_empty_spec(),
    {
        let r = self.actions.is_none()
            && self.attestations.is_none()
            && self.checks.is_none()
            && self.contents.is_none()
            && self.deployments.is_none()
            && self.id.is_none()
            && self.issues.is_none()
            && self.discussions.is_none()
            && self.packages.is_none()
            && self.pages.is_none()
            && self.pull.is_none()
            && self.repository.is_none()
            && self.security.is_none()
            && self.statuses.is_none();
        proof {
            if !r {
                assert(self.get_spec(Scope::Actions) == self.actions);
                assert(self.get_spec(Scope::Attestations) == self.attestations);
                assert(self.get_spec(Scope::Checks) == self.checks);
                assert(self.get_spec(Scope::Contents) == self.contents);
                assert(self.get_spec(Scope::Deployments) == self.deployments);
                assert(self.get_spec(Scope::Id) == self.id);
                assert(self.get_spec(Scope::Issues) == self.issues);
                assert(self.get_spec(Scope::Discussions) == self.discussions);
                assert(self.get_spec(Scope::Packages) == self.packages);
                assert(self.get_spec(Scope::Pages) == self.pages);
                assert(self.get_spec(Scope::Pull) == self.pull);
                assert(self.get_spec(Scope::Repository) == self.repository);
                assert(self.get_spec(Scope::Security) == self.security);
                assert(self.get_spec(Scope::Statuses) == self.statuses);
            }
        }
        r
    }
}

impl Default for Permissions {
    fn default() -> (r: Self)
        ensures
            r == Permissions::none_set(),
    {
        Permissions {
            actions: PermissionValue::Unset,
            attestations: PermissionValue::Unset,
            checks: PermissionValue::Unset,
            contents: PermissionValue::Unset,
            deployments: PermissionValue::Unset,
            id: PermissionValue::Unset,
            issues: PermissionValue::Unset,
            discussions: PermissionValue::Unset,
            packages: PermissionValue::Unset,
            pages: PermissionValue::Unset,
            pull: PermissionValue::Unset,
            repository: PermissionValue::Unset,
            security: PermissionValue::Unset,
            statuses: PermissionValue::Unset,
        }
    }
}

} // verus!
