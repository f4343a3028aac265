use crate::error::Error;
use vstd::prelude::*;

verus! {

/// The role that the privileged form of an operation asks for.
pub open spec fn admin_role() -> Seq<char> {
    "admin"@
}

/// The text of the error for a caller without the required role.
pub open spec fn missing_role_text() -> Seq<char> {
    "Unauthorized: The caller lacks the required role."@
}

/// The roles that a caller claims, as a set of names.
pub open spec fn role_names(roles: Seq<String>) -> Set<Seq<char>> {
    Set::new(|name: Seq<char>| exists|i: int| 0 <= i < roles.len() && roles[i]@ == name)
}

/// The roles that accompany a call, if any do.
pub open spec fn claimed_roles(caller_roles: Option<&Vec<String>>) -> Option<Set<Seq<char>>> {
    match caller_roles {
        None => None,
        Some(roles) => Some(role_names(roles@)),
    }
}

/// Whether the access gate lets a call pass. A call without a role set is the open form of
/// the operation; one with a role set is its privileged form and needs the admin role.
pub open spec fn access_granted(roles: Option<Set<Seq<char>>>) -> bool {
    roles matches Some(names) ==> names.contains(admin_role())
}

/// Whether the caller claims the role.
pub fn has_role(caller_roles: &Vec<String>, role: &str) -> (r: bool)
    ensures
        r == role_names(caller_roles@).contains(role@),
{
    let wanted = role.to_string();
    let mut i: usize = 0;
    while i < caller_roles.len()
        invariant
            i <= caller_roles@.len(),
            wanted@ == role@,
            forall|j: int| 0 <= j < i ==> caller_roles@[j]@ != role@,
        decreases caller_roles@.len() - i,
    {
        if caller_roles[i] == wanted {
            return true;
        }
        i += 1;
    }
    false
}

/// Lets the call pass if the caller claims the role, and refuses it as `Unauthorized` if not.
pub fn require_role(caller_roles: &Vec<String>, role: &str) -> (r: Result<(), Error>)
    ensures
        match r {
            Ok(()) => role_names(caller_roles@).contains(role@),
            Err(Error::Unauthorized { msg }) => !role_names(caller_roles@).contains(role@) && msg@
                == missing_role_text(),
            Err(_) => false,
        },
{
    if has_role(caller_roles, role) {
        Ok(())
    } else {
        Err(
            Error::Unauthorized {
                msg: "Unauthorized: The caller lacks the required role.".to_string(),
            },
        )
    }
}

/// The access gate of every operation. A call without a role set passes; a call with one
/// passes only if the set holds the admin role.
pub fn access_gate(caller_roles: Option<&Vec<String>>) -> (r: Result<(), Error>)
    ensures
        match r {
            Ok(()) => access_granted(claimed_roles(caller_roles)),
            Err(Error::Unauthorized { msg }) => !access_granted(claimed_roles(caller_roles))
                && msg@ == missing_role_text(),
            Err(_) => false,
        },
{
    match caller_roles {
        None => Ok(()),
        Some(roles) => require_role(roles, "admin"),
    }
}

} // verus!
