//! Roles of the members of a space, from the least to the most powerful.

use vstd::prelude::*;
use crate::text::str_eq;

verus! {

/// The role of a member.
#[derive(Default, Debug, Clone, Copy, PartialEq, Eq, PartialOrd, Ord, Hash)]
pub enum Role {
    #[default]
    User,
    Moderator,
    Administrator,
    Owner,
}

/// The role that a word names, if any. Each role has its name and a few
/// synonyms.
pub open spec fn role_named(s: Seq<char>) -> Option<Role> {
    if s == "user"@ || s == "member"@ {
        Some(Role::User)
    } else if s == "moderator"@ || s == "mod"@ || s == "moder"@ {
        Some(Role::Moderator)
    } else if s == "administrator"@ || s == "admin"@ {
        Some(Role::Administrator)
    } else if s == "owner"@ || s == "creator"@ || s == "author"@ {
        Some(Role::Owner)
    } else {
        None
    }
}

impl Role {
    /// The rank of the role: a more powerful role has a higher rank.
    pub open spec fn rank(self) -> nat {
        match self {
            Role::User => 0,
            Role::Moderator => 1,
            Role::Administrator => 2,
            Role::Owner => 3,
        }
    }

    /// The name of the role.
    pub open spec fn name(self) -> Seq<char> {
        match self {
            Role::User => "user"@,
            Role::Moderator => "moderator"@,
            Role::Administrator => "administrator"@,
            Role::Owner => "owner"@,
        }
    }

    /// The name of the role, in lower case.
    pub fn as_str(&self) -> (r: &'static str)
        ensures
            r@ == self.name(),
    {
        match self {
            Role::User => "user",
            Role::Moderator => "moderator",
            Role::Administrator => "administrator",
            Role::Owner => "owner",
        }
    }

    /// The name of the role as an owned text.
    pub fn to_string(&self) -> (r: String)
        ensures
            r@ == self.name(),
    {
        self.as_str().to_owned()
    }

    /// The role that `s` names; the word itself where it names none.
    pub fn parse(s: &str) -> (r: Result<Role, String>)
        ensures
            match r {
                Ok(role) => role_named(s@) == Some(role),
                Err(word) => role_named(s@) is None && word@ == s@,
            },
    {
        if str_eq(s, "user") || str_eq(s, "member") {
            Ok(Role::User)
        } else if str_eq(s, "moderator") || str_eq(s, "mod") || str_eq(s, "moder") {
            Ok(Role::Moderator)
        } else if str_eq(s, "administrator") || str_eq(s, "admin") {
            Ok(Role::Administrator)
        } else if str_eq(s, "owner") || str_eq(s, "creator") || str_eq(s, "author") {
            Ok(Role::Owner)
        } else {
            Err(s.to_owned())
        }
    }

    /// Whether this role is less powerful than `other`.
    pub fn is_below(&self, other: &Role) -> (r: bool)
        ensures
            r == (self.rank() < other.rank()),
    {
        match (self, other) {
            (Role::User, Role::User) => false,
            (Role::User, _) => true,
            (Role::Moderator, Role::Administrator) => true,
            (Role::Moderator, Role::Owner) => true,
            (Role::Moderator, _) => false,
            (Role::Administrator, Role::Owner) => true,
            (Role::Administrator, _) => false,
            (Role::Owner, _) => false,
        }
    }
}

impl core::str::FromStr for Role {
    type Err = String;

    /// The role that `s` names; the word itself where it names none.
    fn from_str(s: &str) -> (r: Result<Self, Self::Err>)
        ensures
            match r {
                Ok(role) => role_named(s@) == Some(role),
                Err(word) => role_named(s@) is None && word@ == s@,
            },
    {
        Role::parse(s)
    }
}

/// The name of a role names that role.
pub proof fn lemma_role_name_parses(role: Role)
    ensures
        role_named(role.name()) == Some(role),
{
    reveal_strlit("user");
    reveal_strlit("member");
    reveal_strlit("moderator");
    reveal_strlit("mod");
    reveal_strlit("moder");
    reveal_strlit("administrator");
    reveal_strlit("admin");
    reveal_strlit("owner");
    reveal_strlit("creator");
    reveal_strlit("author");
    match role {
        Role::User => {},
        Role::Moderator => {
            assert("moderator"@.len() != "user"@.len());
            assert("moderator"@.len() != "member"@.len());
        },
        Role::Administrator => {
            assert("administrator"@.len() == 13);
        },
        Role::Owner => {
            assert("owner"@.len() == 5);
            assert("owner"@[0] == 'o');
            assert("moder"@[0] == 'm');
            assert("admin"@[0] == 'a');
        },
    }
}

} // verus!
