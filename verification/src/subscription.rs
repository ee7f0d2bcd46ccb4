//! Who counts as a subscriber.

use vstd::prelude::*;

verus! {

/// Whether one of `roles` is a subscription role.
pub open spec fn subscribed(roles: Seq<u64>, subscription_roles: Seq<u64>) -> bool {
    exists|i: int| 0 <= i < roles.len() && subscription_roles.contains(#[trigger] roles[i])
}

/// Whether `role` is among `roles`.
fn has_role(roles: &Vec<u64>, role: u64) -> (r: bool)
    ensures
        r == roles@.contains(role),
{
    let mut i: usize = 0;
    while i < roles.len()
        invariant
            i <= roles.len(),
            forall|j: int| 0 <= j < i ==> roles@[j] != role,
        decreases roles.len() - i,
    {
        if roles[i] == role {
            assert(roles@[i as int] == role);
            return true;
        }
        i = i + 1;
    }
    false
}

/// Whether one of `roles` is a subscription role.
pub fn holds_subscription_role(roles: &Vec<u64>, subscription_roles: &Vec<u64>) -> (r: bool)
    ensures
        r == subscribed(roles@, subscription_roles@),
{
    let mut i: usize = 0;
    while i < roles.len()
        invariant
            i <= roles.len(),
            forall|j: int| 0 <= j < i ==> !subscription_roles@.contains(#[trigger] roles@[j]),
        decreases roles.len() - i,
    {
        if has_role(subscription_roles, roles[i]) {
            assert(subscription_roles@.contains(roles@[i as int]));
            return true;
        }
        i = i + 1;
    }
    false
}

/// Whether a user counts as a subscriber. Where no subscription guild is
/// set, everybody does. Else the user must be a member of that guild, with
/// `member_roles` as the roles held there, and hold one of the subscription
/// roles; a user whose membership could not be read holds none.
pub fn check_subscription(
    subscription_guild: Option<u64>,
    member_roles: Option<&Vec<u64>>,
    subscription_roles: &Vec<u64>,
) -> (r: bool)
    ensures
        r == (match subscription_guild {
            None => true,
            Some(_) => match member_roles {
                Some(roles) => subscribed(roles@, subscription_roles@),
                None => false,
            },
        }),
{
    match subscription_guild {
        None => true,
        Some(_) => match member_roles {
            Some(roles) => holds_subscription_role(roles, subscription_roles),
            None => false,
        },
    }
}

} // verus!
