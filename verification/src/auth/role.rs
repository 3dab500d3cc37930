//! Roles and the hierarchy between them.

use vstd::prelude::*;

verus! {

/// A capability tag attached to an identity when its token is issued.
#[derive(Clone, Copy, Debug, PartialEq, Eq, Structural)]
pub enum UserRole {
    Unprivileged,
    NormalUser,
    Moderator,
    Admin,
}

impl UserRole {
    /// Position of the role in the hierarchy; a larger rank is more powerful.
    pub open spec fn rank(self) -> nat {
        match self {
            UserRole::Unprivileged => 0,
            UserRole::NormalUser => 1,
            UserRole::Moderator => 2,
            UserRole::Admin => 3,
        }
    }

    /// Whether a holder of `self` may act where `required` is asked for.
    pub open spec fn implies(self, required: UserRole) -> bool {
        self.rank() >= required.rank()
    }

    /// The number under which the user store keeps the role.
    pub open spec fn id(self) -> int {
        self.rank() as int + 1
    }

    /// The role that the user store keeps under the number `id`.
    pub open spec fn of_id(id: int) -> Option<UserRole> {
        if id == 1 {
            Some(UserRole::Unprivileged)
        } else if id == 2 {
            Some(UserRole::NormalUser)
        } else if id == 3 {
            Some(UserRole::Moderator)
        } else if id == 4 {
            Some(UserRole::Admin)
        } else {
            None
        }
    }

    /// The number under which the user store keeps the role: 1 for
    /// `Unprivileged` up to 4 for `Admin`.
    pub fn role_id(self) -> (id: i32)
        ensures
            id == self.id(),
            UserRole::of_id(id as int) == Some(self),
    {
        match self {
            UserRole::Unprivileged => 1,
            UserRole::NormalUser => 2,
            UserRole::Moderator => 3,
            UserRole::Admin => 4,
        }
    }

    /// The role that the user store keeps under the number `id`, if it is
    /// the number of a role.
    pub fn from_role_id(id: i32) -> (role: Option<UserRole>)
        ensures
            role == UserRole::of_id(id as int),
            role matches Some(r) ==> r.id() == id,
    {
        if id == 1 {
            Some(UserRole::Unprivileged)
        } else if id == 2 {
            Some(UserRole::NormalUser)
        } else if id == 3 {
            Some(UserRole::Moderator)
        } else if id == 4 {
            Some(UserRole::Admin)
        } else {
            None
        }
    }

    fn level(self) -> (l: u8)
        ensures
            l == self.rank(),
    {
        match self {
            UserRole::Unprivileged => 0,
            UserRole::NormalUser => 1,
            UserRole::Moderator => 2,
            UserRole::Admin => 3,
        }
    }

    /// Whether a holder of `self` may act where `required` is asked for:
    /// every role satisfies itself and all roles below it.
    pub fn satisfies(self, required: UserRole) -> (ok: bool)
        ensures
            ok == self.implies(required),
    {
        self.level() >= required.level()
    }
}

/// The role that the number `id` stands for in a user's record: the role
/// with that number, and the lowest role for a number that stands for none.
pub open spec fn role_of_record_id(id: int) -> UserRole {
    match UserRole::of_id(id) {
        Some(role) => role,
        None => UserRole::Unprivileged,
    }
}

/// The roles that the numbers in a user's record stand for, one for each
/// number and in their order.
pub open spec fn roles_of_ids(ids: Seq<i32>) -> Seq<UserRole> {
    ids.map_values(|id: i32| role_of_record_id(id as int))
}

/// The roles that the numbers in a user's record stand for, one for each
/// number and in their order. A number that stands for no role gives the
/// lowest role, `Unprivileged`.
pub fn roles_from_ids(ids: &Vec<i32>) -> (roles: Vec<UserRole>)
    ensures
        roles@ == roles_of_ids(ids@),
{
    let mut roles: Vec<UserRole> = Vec::new();
    let mut i: usize = 0;
    while i < ids.len()
        invariant
            i <= ids.len(),
            roles.len() == i,
            forall|j: int| 0 <= j < i ==> roles@[j] == role_of_record_id(#[trigger] ids@[j] as int),
        decreases ids.len() - i,
    {
        match UserRole::from_role_id(ids[i]) {
            Some(role) => roles.push(role),
            None => roles.push(UserRole::Unprivileged),
        }
        i += 1;
    }
    assert(roles@ =~= roles_of_ids(ids@));
    roles
}

/// Whether some role in `roles` satisfies `required`.
pub open spec fn any_implies(roles: Seq<UserRole>, required: UserRole) -> bool {
    exists|i: int| 0 <= i < roles.len() && (#[trigger] roles[i]).implies(required)
}

/// Whether some role in `roles` satisfies `required`.
pub fn any_satisfies(roles: &Vec<UserRole>, required: UserRole) -> (ok: bool)
    ensures
        ok == any_implies(roles@, required),
{
    let mut i: usize = 0;
    while i < roles.len()
        invariant
            i <= roles.len(),
            forall|j: int| 0 <= j < i ==> !(#[trigger] roles@[j]).implies(required),
        decreases roles.len() - i,
    {
        if roles[i].satisfies(required) {
            return true;
        }
        i += 1;
    }
    false
}

/// The hierarchy is a total order: every role satisfies itself, two roles
/// that satisfy each other are the same role, satisfaction carries over a
/// chain, and of any two roles one satisfies the other.
pub proof fn lemma_hierarchy_is_total_order(a: UserRole, b: UserRole, c: UserRole)
    ensures
        a.implies(a),
        a.implies(b) && b.implies(a) ==> a == b,
        a.implies(b) && b.implies(c) ==> a.implies(c),
        a.implies(b) || b.implies(a),
{
}

/// `Admin` satisfies every requirement and every role satisfies
/// `Unprivileged`.
pub proof fn lemma_hierarchy_bounds(a: UserRole)
    ensures
        UserRole::Admin.implies(a),
        a.implies(UserRole::Unprivileged),
{
}

/// A set of roles that satisfies a requirement also satisfies every weaker
/// one.
pub proof fn lemma_any_implies_weaker(roles: Seq<UserRole>, strong: UserRole, weak: UserRole)
    requires
        any_implies(roles, strong),
        strong.implies(weak),
    ensures
        any_implies(roles, weak),
{
    let i = choose|i: int| 0 <= i < roles.len() && (#[trigger] roles[i]).implies(strong);
    assert(roles[i].implies(weak));
}

} // verus!
