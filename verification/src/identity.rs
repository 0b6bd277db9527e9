//! Who a message is attributed to: a display name and an avatar.

use vstd::prelude::*;

verus! {

/// The name and avatar under which a message is shown.
///
/// Both are plain text, fixed when the value is made: later changes on the
/// platform do not reach an `Identity` that was already taken.
#[derive(Debug, PartialEq, Eq)]
pub struct Identity {
    pub name: String,
    pub avatar_url: String,
}

/// What an [`Identity`] stands for in contracts.
#[verifier::ext_equal]
pub struct IdentityView {
    pub name: Seq<char>,
    pub avatar_url: Seq<char>,
}

impl View for Identity {
    type V = IdentityView;

    open spec fn view(&self) -> IdentityView {
        IdentityView { name: self.name@, avatar_url: self.avatar_url@ }
    }
}

impl DeepView for Identity {
    type V = IdentityView;

    open spec fn deep_view(&self) -> IdentityView {
        self@
    }
}

impl Clone for Identity {
    fn clone(&self) -> (copy: Self)
        ensures
            copy@ == self@,
    {
        Identity { name: self.name.clone(), avatar_url: self.avatar_url.clone() }
    }
}

impl Identity {
    /// An identity with the given name and avatar.
    pub fn new(name: String, avatar_url: String) -> (identity: Self)
        ensures
            identity@ == (IdentityView { name: name@, avatar_url: avatar_url@ }),
    {
        Identity { name, avatar_url }
    }
}

/// The identity a message is attributed to: the member's where the author
/// was resolved as a member, the raw author's otherwise.
pub open spec fn resolved(member: Option<IdentityView>, author: IdentityView) -> IdentityView {
    match member {
        Some(m) => m,
        None => author,
    }
}

/// Resolves the identity of a message's author. Prefers `member`, what the
/// platform knows of the author as a member, and falls back to `author`, the
/// name and avatar that came with the message itself.
pub fn resolve(member: &Option<Identity>, author: &Identity) -> (identity: Identity)
    ensures
        identity@ == resolved(member.deep_view(), author@),
{
    match member {
        Some(m) => m.clone(),
        None => author.clone(),
    }
}

/// The outcome that counts among several member lookups made in order: the
/// last one that found the author, if any did.
pub open spec fn last_found(lookups: Seq<Option<IdentityView>>) -> Option<IdentityView>
    decreases lookups.len(),
{
    if lookups.len() == 0 {
        None
    } else if lookups.last() is Some {
        lookups.last()
    } else {
        last_found(lookups.drop_last())
    }
}

/// Picks the member identity out of the results of looking the author up in
/// one place after another. A failed lookup is no error, it only leaves the
/// earlier result standing; with no success at all nothing is picked.
pub fn pick_member(lookups: Vec<Option<Identity>>) -> (member: Option<Identity>)
    ensures
        member.deep_view() == last_found(lookups.deep_view()),
{
    let mut rest = lookups;
    loop
        invariant
            last_found(rest.deep_view()) == last_found(lookups.deep_view()),
        decreases rest@.len(),
    {
        let ghost before = rest.deep_view();
        match rest.pop() {
            None => {
                return None;
            },
            Some(Some(found)) => {
                assert(before.last() == Some(found@));
                return Some(found);
            },
            Some(None) => {
                assert(before.last() is None);
                assert(rest.deep_view() =~= before.drop_last());
            },
        }
    }
}

} // verus!
