//! Properties of the registry that span operations, stated over the state
//! transitions that the operations' contracts are written in.

use vstd::prelude::*;
use crate::address::zero_address;
use crate::contract::{
    after_delete, after_init, after_set_links, after_transfer, after_update, initial_state,
    links_at, profile_at, updated_profile, with_links, with_profile, LinkethView, MAX_QUICK_LINKS,
};
use crate::profile::{empty_profile, links_from_pairs, shown_pairs, ProfileView, QuickLinkView};

verus! {

/// The (title, url) pairs among `pairs` whose title is not empty, in order.
pub open spec fn titled_pairs(pairs: Seq<(Seq<char>, Seq<char>)>) -> Seq<(Seq<char>, Seq<char>)>
    decreases pairs.len(),
{
    if pairs.len() == 0 {
        Seq::empty()
    } else {
        let rest = titled_pairs(pairs.drop_last());
        if pairs.last().0.len() > 0 {
            rest.push(pairs.last())
        } else {
            rest
        }
    }
}

/// A fresh registry has the zero ENS registry address, and every account
/// reads as an empty profile with no quick links.
pub proof fn law_fresh_registry_is_empty(owner: Seq<u8>)
    ensures
        initial_state().ens_registry == zero_address(),
        profile_at(initial_state(), owner) == empty_profile(),
        links_at(initial_state(), owner) == Seq::<QuickLinkView>::empty(),
        shown_pairs(links_at(initial_state(), owner)) == Seq::<(Seq<char>, Seq<char>)>::empty(),
{
}

/// Setting the ENS registry address changes nothing else, and reading it
/// back gives the address set.
pub proof fn law_init_sets_registry(s: LinkethView, registry: Seq<u8>, owner: Seq<u8>)
    ensures
        after_init(s, registry).ens_registry == registry,
        profile_at(after_init(s, registry), owner) == profile_at(s, owner),
        links_at(after_init(s, registry), owner) == links_at(s, owner),
{
}

/// Reading a profile back after it was written gives what was written.
pub proof fn law_profile_read_after_write(s: LinkethView, owner: Seq<u8>, p: ProfileView)
    ensures
        profile_at(with_profile(s, owner, p), owner) == p,
{
}

/// An update keeps the ENS name, keeps each field that is not given and
/// writes each field that is.
pub proof fn law_update_fields(
    s: LinkethView,
    sender: Seq<u8>,
    cid: Option<Seq<char>>,
    display: Option<Seq<char>>,
    avatar: Option<Seq<char>>,
)
    ensures
        ({
            let old_p = profile_at(s, sender);
            let new_p = profile_at(after_update(s, sender, cid, display, avatar), sender);
            &&& new_p == updated_profile(old_p, cid, display, avatar)
            &&& new_p.ens == old_p.ens
            &&& (cid is None ==> new_p.cid == old_p.cid)
            &&& (cid matches Some(c) ==> new_p.cid == c)
            &&& (display is None ==> new_p.display_name == old_p.display_name)
            &&& (display matches Some(d) ==> new_p.display_name == d)
            &&& (avatar is None ==> new_p.avatar_cid == old_p.avatar_cid)
            &&& (avatar matches Some(a) ==> new_p.avatar_cid == a)
        }),
{
}

/// After a delete the sender reads as an empty profile with no quick links.
pub proof fn law_delete_clears(s: LinkethView, sender: Seq<u8>)
    ensures
        profile_at(after_delete(s, sender), sender) == empty_profile(),
        links_at(after_delete(s, sender), sender) == Seq::<QuickLinkView>::empty(),
        shown_pairs(links_at(after_delete(s, sender), sender)) == Seq::<(Seq<char>, Seq<char>)>::empty(),
{
}

/// The shown pairs of links stored from `pairs` are the pairs of `pairs`
/// whose title is not empty, in order.
pub proof fn law_shown_links_of_pairs(pairs: Seq<(Seq<char>, Seq<char>)>)
    ensures
        shown_pairs(links_from_pairs(pairs)) == titled_pairs(pairs),
        titled_pairs(pairs).len() <= pairs.len(),
    decreases pairs.len(),
{
    if pairs.len() > 0 {
        law_shown_links_of_pairs(pairs.drop_last());
        assert(links_from_pairs(pairs).drop_last() =~= links_from_pairs(pairs.drop_last()));
    } else {
        assert(links_from_pairs(pairs) =~= Seq::<QuickLinkView>::empty());
    }
}

/// Reading quick links back after they were set gives the pairs set whose
/// title is not empty, in order: all of them when every title is given, and
/// never more than `MAX_QUICK_LINKS` when the set was accepted.
pub proof fn law_links_read_after_set(s: LinkethView, sender: Seq<u8>, pairs: Seq<(Seq<char>, Seq<char>)>)
    ensures
        shown_pairs(links_at(after_set_links(s, sender, pairs), sender)) == titled_pairs(pairs),
        (forall|i: int| 0 <= i < pairs.len() ==> (#[trigger] pairs[i]).0.len() > 0) ==> shown_pairs(
            links_at(after_set_links(s, sender, pairs), sender),
        ) == pairs,
        pairs.len() <= MAX_QUICK_LINKS ==> shown_pairs(
            links_at(after_set_links(s, sender, pairs), sender),
        ).len() <= MAX_QUICK_LINKS,
{
    law_shown_links_of_pairs(pairs);
    if forall|i: int| 0 <= i < pairs.len() ==> (#[trigger] pairs[i]).0.len() > 0 {
        lemma_all_titled(pairs);
    }
}

proof fn lemma_all_titled(pairs: Seq<(Seq<char>, Seq<char>)>)
    requires
        forall|i: int| 0 <= i < pairs.len() ==> (#[trigger] pairs[i]).0.len() > 0,
    ensures
        titled_pairs(pairs) == pairs,
    decreases pairs.len(),
{
    if pairs.len() > 0 {
        let init = pairs.drop_last();
        assert forall|i: int| 0 <= i < init.len() implies (#[trigger] init[i]).0.len() > 0 by {
            assert(init[i] == pairs[i]);
        }
        lemma_all_titled(init);
        assert(pairs[pairs.len() - 1].0.len() > 0);
        assert(init.push(pairs.last()) =~= pairs);
    } else {
        assert(pairs =~= Seq::<(Seq<char>, Seq<char>)>::empty());
    }
}

/// A transfer moves the sender's profile and quick links to `new_owner`:
/// the new owner reads what the sender had, and the sender reads as an
/// empty profile with no quick links. Transferring to oneself changes
/// nothing.
pub proof fn law_transfer_moves(s: LinkethView, sender: Seq<u8>, new_owner: Seq<u8>)
    ensures
        sender != new_owner ==> profile_at(after_transfer(s, sender, new_owner), new_owner)
            == profile_at(s, sender),
        sender != new_owner ==> links_at(after_transfer(s, sender, new_owner), new_owner) == links_at(
            s,
            sender,
        ),
        sender != new_owner ==> profile_at(after_transfer(s, sender, new_owner), sender)
            == empty_profile(),
        sender != new_owner ==> links_at(after_transfer(s, sender, new_owner), sender)
            == Seq::<QuickLinkView>::empty(),
        sender == new_owner ==> after_transfer(s, sender, new_owner) == s,
{
}

/// Accounts are independent: what one account does changes neither the
/// profile nor the quick links of any other account (for a transfer, of
/// any account but the receiving one), and no operation but `init` changes
/// the ENS registry address.
pub proof fn law_accounts_independent(
    s: LinkethView,
    sender: Seq<u8>,
    other: Seq<u8>,
    new_owner: Seq<u8>,
    p: ProfileView,
    links: Seq<QuickLinkView>,
    pairs: Seq<(Seq<char>, Seq<char>)>,
    cid: Option<Seq<char>>,
    display: Option<Seq<char>>,
    avatar: Option<Seq<char>>,
)
    requires
        other != sender,
    ensures
        profile_at(with_profile(s, sender, p), other) == profile_at(s, other),
        links_at(with_profile(s, sender, p), other) == links_at(s, other),
        with_profile(s, sender, p).ens_registry == s.ens_registry,
        profile_at(with_links(s, sender, links), other) == profile_at(s, other),
        links_at(with_links(s, sender, links), other) == links_at(s, other),
        with_links(s, sender, links).ens_registry == s.ens_registry,
        profile_at(after_update(s, sender, cid, display, avatar), other) == profile_at(s, other),
        links_at(after_update(s, sender, cid, display, avatar), other) == links_at(s, other),
        after_update(s, sender, cid, display, avatar).ens_registry == s.ens_registry,
        profile_at(after_delete(s, sender), other) == profile_at(s, other),
        links_at(after_delete(s, sender), other) == links_at(s, other),
        after_delete(s, sender).ens_registry == s.ens_registry,
        profile_at(after_set_links(s, sender, pairs), other) == profile_at(s, other),
        links_at(after_set_links(s, sender, pairs), other) == links_at(s, other),
        after_set_links(s, sender, pairs).ens_registry == s.ens_registry,
        other != new_owner ==> profile_at(after_transfer(s, sender, new_owner), other) == profile_at(
            s,
            other,
        ),
        other != new_owner ==> links_at(after_transfer(s, sender, new_owner), other) == links_at(
            s,
            other,
        ),
        after_transfer(s, sender, new_owner).ens_registry == s.ens_registry,
{
}

/// Removing the last quick link undoes appending one: the appended link is
/// the one removed, and the links are as before.
pub proof fn law_pop_undoes_push(s: LinkethView, owner: Seq<u8>, q: QuickLinkView)
    ensures
        ({
            let pushed = with_links(s, owner, links_at(s, owner).push(q));
            &&& links_at(pushed, owner).len() > 0
            &&& links_at(pushed, owner).last() == q
            &&& links_at(pushed, owner).drop_last() == links_at(s, owner)
        }),
{
    assert(links_at(s, owner).push(q).drop_last() =~= links_at(s, owner));
}

/// Profiles and quick links are separate records: creating, storing or
/// updating a profile leaves the quick links of every account, the writer's
/// own included, as they were.
pub proof fn law_profile_writes_keep_links(
    s: LinkethView,
    owner: Seq<u8>,
    p: ProfileView,
    cid: Option<Seq<char>>,
    display: Option<Seq<char>>,
    avatar: Option<Seq<char>>,
    any: Seq<u8>,
)
    ensures
        links_at(with_profile(s, owner, p), any) == links_at(s, any),
        shown_pairs(links_at(with_profile(s, owner, p), any)) == shown_pairs(links_at(s, any)),
        links_at(after_update(s, owner, cid, display, avatar), any) == links_at(s, any),
        shown_pairs(links_at(after_update(s, owner, cid, display, avatar), any)) == shown_pairs(
            links_at(s, any),
        ),
{
}

/// Setting, appending or removing quick links leaves the profile of every
/// account, the writer's own included, as it was.
pub proof fn law_link_writes_keep_profiles(
    s: LinkethView,
    owner: Seq<u8>,
    pairs: Seq<(Seq<char>, Seq<char>)>,
    links: Seq<QuickLinkView>,
    any: Seq<u8>,
)
    ensures
        profile_at(after_set_links(s, owner, pairs), any) == profile_at(s, any),
        profile_at(with_links(s, owner, links), any) == profile_at(s, any),
{
}

} // verus!
