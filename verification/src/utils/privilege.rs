//! Dropping the privileges of the process.
//!
//! The library changes no identity. It decides which changes are made, in
//! which order, and where the dropping ends in failure.

use vstd::prelude::*;

use crate::utils::text::{contains_nul, has_nul, UtilError};

verus! {

/// One change of the identity of the process.
#[derive(Clone, Debug, PartialEq, Eq)]
pub enum IdentityChange {
    /// Take the group of this name.
    Group(String),
    /// Take the user of this name.
    User(String),
}

/// The mathematical value of a change of identity.
pub enum IdentityChangeView {
    Group(Seq<char>),
    User(Seq<char>),
}

impl View for IdentityChange {
    type V = IdentityChangeView;

    open spec fn view(&self) -> IdentityChangeView {
        match self {
            IdentityChange::Group(name) => IdentityChangeView::Group(name@),
            IdentityChange::User(name) => IdentityChangeView::User(name@),
        }
    }
}

/// How privileges are dropped: the changes to make, in order, each only if
/// those before it succeeded, and how the dropping ends once they are made.
#[derive(Debug, PartialEq, Eq)]
pub struct DropPlan {
    pub changes: Vec<IdentityChange>,
    pub outcome: Result<(), UtilError>,
}

/// The changes of a list, each by its view.
pub open spec fn changes_view(changes: Seq<IdentityChange>) -> Seq<IdentityChangeView> {
    Seq::new(changes.len(), |i: int| changes[i]@)
}

/// The characters of an optional name.
pub open spec fn name_view(name: Option<&String>) -> Option<Seq<char>> {
    match name {
        Some(name) => Some(name@),
        None => None,
    }
}

/// The changes that drop the privileges to a user, a group or both.
///
/// The group comes first: once the user has been given up, the process may
/// no longer change its group. A name that holds a NUL character names
/// nothing, and the changes end in front of it.
pub open spec fn drop_changes(user: Option<Seq<char>>, group: Option<Seq<char>>) -> Seq<
    IdentityChangeView,
> {
    match group {
        Some(g) => if has_nul(g) {
            Seq::empty()
        } else {
            match user {
                Some(u) => if has_nul(u) {
                    seq![IdentityChangeView::Group(g)]
                } else {
                    seq![IdentityChangeView::Group(g), IdentityChangeView::User(u)]
                },
                None => seq![IdentityChangeView::Group(g)],
            }
        },
        None => match user {
            Some(u) => if has_nul(u) {
                Seq::empty()
            } else {
                seq![IdentityChangeView::User(u)]
            },
            None => Seq::empty(),
        },
    }
}

/// How the dropping ends when every change has succeeded: in failure where
/// nothing was named or a name holds a NUL character, the group judged
/// before the user.
pub open spec fn drop_outcome(user: Option<Seq<char>>, group: Option<Seq<char>>) -> Result<
    (),
    UtilError,
> {
    if user is None && group is None {
        Err(UtilError::NoIdentity)
    } else if group is Some && has_nul(group->0) {
        Err(UtilError::BadGroupName)
    } else if user is Some && has_nul(user->0) {
        Err(UtilError::BadUserName)
    } else {
        Ok(())
    }
}

/// Plans the dropping of privileges to the given user and group.
pub fn privdrop(optuser: Option<&String>, optgroup: Option<&String>) -> (plan: DropPlan)
    ensures
        changes_view(plan.changes@) == drop_changes(name_view(optuser), name_view(optgroup)),
        plan.outcome == drop_outcome(name_view(optuser), name_view(optgroup)),
{
    let mut changes: Vec<IdentityChange> = Vec::new();
    assert(changes_view(changes@) =~= Seq::<IdentityChangeView>::empty());
    if optuser.is_none() && optgroup.is_none() {
        return DropPlan { changes, outcome: Err(UtilError::NoIdentity) };
    }
    if let Some(group) = optgroup {
        if contains_nul(group.as_str()) {
            return DropPlan { changes, outcome: Err(UtilError::BadGroupName) };
        }
        changes.push(IdentityChange::Group(group.clone()));
    }
    let ghost after_group = changes_view(changes@);
    assert(after_group =~= match optgroup {
        Some(g) => seq![IdentityChangeView::Group(g@)],
        None => Seq::<IdentityChangeView>::empty(),
    });
    if let Some(user) = optuser {
        if contains_nul(user.as_str()) {
            assert(after_group =~= drop_changes(name_view(optuser), name_view(optgroup)));
            return DropPlan { changes, outcome: Err(UtilError::BadUserName) };
        }
        changes.push(IdentityChange::User(user.clone()));
    }
    assert(changes_view(changes@) =~= drop_changes(name_view(optuser), name_view(optgroup)));
    DropPlan { changes, outcome: Ok(()) }
}

} // verus!
