//! The profile registry: one profile and one list of quick links per
//! account, and the ENS registry that vouches for profile creation.
//!
//! Every operation takes the account that sends it as an argument, and the
//! operations that the chain records hand back the event to emit. Reading
//! the sender, asking the ENS registry who owns a name, and emitting events
//! are left to the caller.

use vstd::prelude::*;
use vstd::utf8::encode_utf8;
use crate::address::{Address, zero_address};
use crate::ens::{ens_namehash, namehash_of};
use crate::keccak::KeccakImpl;
use crate::profile::{
    empty_profile, lemma_shown_pairs_len, links_from_pairs, shown_pairs, Profile, ProfileView, QuickLink,
    QuickLinkView,
};
use crate::store::AddrMap;

verus! {

/// The most quick links an account may set at once.
pub const MAX_QUICK_LINKS: usize = 5;

/// Why an operation was refused.
#[derive(Clone, Copy, Debug, PartialEq, Eq, Structural)]
pub enum LinkethError {
    /// The sender does not own the ENS name it tried to create a profile for.
    NotEnsOwner,
    /// More than `MAX_QUICK_LINKS` quick links were given.
    TooManyQuickLinks,
}

impl LinkethError {
    /// The revert message of the refusal.
    pub fn message(&self) -> (m: &'static str)
        ensures
            *self == LinkethError::NotEnsOwner ==> m@ == "You do not own this ENS"@,
            *self == LinkethError::TooManyQuickLinks ==> m@ == "Max 5 quick links"@,
    {
        match self {
            LinkethError::NotEnsOwner => "You do not own this ENS",
            LinkethError::TooManyQuickLinks => "Max 5 quick links",
        }
    }
}

/// An event that an operation asks to be emitted.
#[derive(Debug)]
pub enum Event {
    ProfileCreated {
        owner: Address,
        ens: String,
        cid: String,
        display_name: String,
        avatar_cid: String,
    },
    ProfileUpdated { owner: Address, cid: String, display_name: String, avatar_cid: String },
    ProfileDeleted { owner: Address },
    QuickLinksUpdated { owner: Address },
}

/// The content of an event.
pub enum EventView {
    ProfileCreated {
        owner: Seq<u8>,
        ens: Seq<char>,
        cid: Seq<char>,
        display_name: Seq<char>,
        avatar_cid: Seq<char>,
    },
    ProfileUpdated {
        owner: Seq<u8>,
        cid: Seq<char>,
        display_name: Seq<char>,
        avatar_cid: Seq<char>,
    },
    ProfileDeleted { owner: Seq<u8> },
    QuickLinksUpdated { owner: Seq<u8> },
}

impl DeepView for Event {
    type V = EventView;

    open spec fn deep_view(&self) -> EventView {
        match self {
            Event::ProfileCreated { owner, ens, cid, display_name, avatar_cid } => {
                EventView::ProfileCreated {
                    owner: owner@,
                    ens: ens@,
                    cid: cid@,
                    display_name: display_name@,
                    avatar_cid: avatar_cid@,
                }
            },
            Event::ProfileUpdated { owner, cid, display_name, avatar_cid } => {
                EventView::ProfileUpdated {
                    owner: owner@,
                    cid: cid@,
                    display_name: display_name@,
                    avatar_cid: avatar_cid@,
                }
            },
            Event::ProfileDeleted { owner } => EventView::ProfileDeleted { owner: owner@ },
            Event::QuickLinksUpdated { owner } => EventView::QuickLinksUpdated { owner: owner@ },
        }
    }
}

/// What must be asked of the ENS registry before a profile is created: the
/// owner of `node` in the registry at `registry`.
#[derive(Debug)]
pub struct EnsQuery {
    pub registry: Address,
    pub node: [u8; 32],
}

/// The whole state: the ENS registry address, the stored profiles and the
/// stored quick links, each by account.
pub struct LinkethView {
    pub ens_registry: Seq<u8>,
    pub profiles: Map<Seq<u8>, ProfileView>,
    pub quick_links: Map<Seq<u8>, Seq<QuickLinkView>>,
}

/// The state of a freshly deployed registry: the zero registry address and
/// nothing stored.
pub open spec fn initial_state() -> LinkethView {
    LinkethView {
        ens_registry: zero_address(),
        profiles: Map::empty(),
        quick_links: Map::empty(),
    }
}

/// The profile that reading `owner` gives: what is stored, or four empty
/// strings.
pub open spec fn profile_at(s: LinkethView, owner: Seq<u8>) -> ProfileView {
    if s.profiles.contains_key(owner) {
        s.profiles[owner]
    } else {
        empty_profile()
    }
}

/// The quick links stored for `owner`, or none.
pub open spec fn links_at(s: LinkethView, owner: Seq<u8>) -> Seq<QuickLinkView> {
    if s.quick_links.contains_key(owner) {
        s.quick_links[owner]
    } else {
        Seq::empty()
    }
}

/// The text of an optional string.
pub open spec fn opt_text(o: Option<String>) -> Option<Seq<char>> {
    match o {
        Some(s) => Some(s@),
        None => None,
    }
}

/// `new` where it is given, else `old`.
pub open spec fn or_keep(new: Option<Seq<char>>, old: Seq<char>) -> Seq<char> {
    match new {
        Some(t) => t,
        None => old,
    }
}

/// The state after the registry address is set.
pub open spec fn after_init(s: LinkethView, registry: Seq<u8>) -> LinkethView {
    LinkethView { ens_registry: registry, ..s }
}

/// The state after profile `p` is stored for `owner`.
pub open spec fn with_profile(s: LinkethView, owner: Seq<u8>, p: ProfileView) -> LinkethView {
    LinkethView { profiles: s.profiles.insert(owner, p), ..s }
}

/// The state after the quick links of `owner` are replaced by `links`.
pub open spec fn with_links(s: LinkethView, owner: Seq<u8>, links: Seq<QuickLinkView>) -> LinkethView {
    LinkethView { quick_links: s.quick_links.insert(owner, links), ..s }
}

/// `p` with each given field replaced; the ENS name is kept.
pub open spec fn updated_profile(
    p: ProfileView,
    cid: Option<Seq<char>>,
    display: Option<Seq<char>>,
    avatar: Option<Seq<char>>,
) -> ProfileView {
    ProfileView {
        ens: p.ens,
        cid: or_keep(cid, p.cid),
        display_name: or_keep(display, p.display_name),
        avatar_cid: or_keep(avatar, p.avatar_cid),
    }
}

/// The state after `sender` updates the given fields of its profile.
pub open spec fn after_update(
    s: LinkethView,
    sender: Seq<u8>,
    cid: Option<Seq<char>>,
    display: Option<Seq<char>>,
    avatar: Option<Seq<char>>,
) -> LinkethView {
    LinkethView {
        profiles: s.profiles.insert(sender, updated_profile(profile_at(s, sender), cid, display, avatar)),
        ..s
    }
}

/// The state after `sender` deletes its profile and its quick links.
pub open spec fn after_delete(s: LinkethView, sender: Seq<u8>) -> LinkethView {
    LinkethView {
        profiles: s.profiles.remove(sender),
        quick_links: s.quick_links.remove(sender),
        ..s
    }
}

/// The state after `sender` replaces its quick links by `pairs`.
pub open spec fn after_set_links(
    s: LinkethView,
    sender: Seq<u8>,
    pairs: Seq<(Seq<char>, Seq<char>)>,
) -> LinkethView {
    LinkethView { quick_links: s.quick_links.insert(sender, links_from_pairs(pairs)), ..s }
}

/// The state after `sender` moves its profile and quick links to
/// `new_owner`: the new owner's records are replaced by the sender's, and
/// the sender is left with none. Moving to oneself changes nothing.
pub open spec fn after_transfer(s: LinkethView, sender: Seq<u8>, new_owner: Seq<u8>) -> LinkethView {
    if sender == new_owner {
        s
    } else {
        LinkethView {
            profiles: s.profiles.remove(sender).insert(new_owner, profile_at(s, sender)),
            quick_links: s.quick_links.remove(sender).insert(new_owner, links_at(s, sender)),
            ..s
        }
    }
}

/// No account holds more than `MAX_QUICK_LINKS` quick links.
pub open spec fn links_bounded(s: LinkethView) -> bool {
    bounded_link_map(s.quick_links)
}

/// No entry of `m` holds more than `MAX_QUICK_LINKS` links.
pub open spec fn bounded_link_map(m: Map<Seq<u8>, Seq<QuickLinkView>>) -> bool {
    forall|owner: Seq<u8>| #[trigger] m.contains_key(owner) ==> m[owner].len() <= MAX_QUICK_LINKS
}

/// Storing a list of at most `MAX_QUICK_LINKS` links, or removing one,
/// keeps every entry bounded.
pub proof fn lemma_bounded_update(
    m: Map<Seq<u8>, Seq<QuickLinkView>>,
    owner: Seq<u8>,
    links: Seq<QuickLinkView>,
)
    requires
        bounded_link_map(m),
        links.len() <= MAX_QUICK_LINKS,
    ensures
        bounded_link_map(m.insert(owner, links)),
        bounded_link_map(m.remove(owner)),
{
    assert forall|k: Seq<u8>| #[trigger] m.insert(owner, links).contains_key(k) implies m.insert(
        owner,
        links,
    )[k].len() <= MAX_QUICK_LINKS by {
        if k != owner {
            assert(m.contains_key(k));
        }
    }
    assert forall|k: Seq<u8>| #[trigger] m.remove(owner).contains_key(k) implies m.remove(
        owner,
    )[k].len() <= MAX_QUICK_LINKS by {
        assert(m.contains_key(k));
    }
}

/// In a state whose quick links are bounded, every account reads at most
/// `MAX_QUICK_LINKS` of them.
pub proof fn lemma_bounded_at(s: LinkethView, owner: Seq<u8>)
    requires
        links_bounded(s),
    ensures
        links_at(s, owner).len() <= MAX_QUICK_LINKS,
{
    if s.quick_links.contains_key(owner) {
    }
}

/// The registry.
pub struct Linketh {
    ens_registry: Address,
    profiles: AddrMap<Profile>,
    quick_links: AddrMap<Vec<QuickLink>>,
}

/// Another name for the registry type; its operations are declared on it.
pub type Linktree = Linketh;

impl View for Linketh {
    type V = LinkethView;

    closed spec fn view(&self) -> LinkethView {
        LinkethView {
            ens_registry: self.ens_registry@,
            profiles: self.profiles.map(),
            quick_links: self.quick_links.map(),
        }
    }
}

impl Linktree {
    /// The stores keep one entry per account.
    pub closed spec fn wf(&self) -> bool {
        &&& self.profiles.wf()
        &&& self.quick_links.wf()
        &&& bounded_link_map(self.quick_links.map())
    }

    /// No account of a well-formed registry holds more than
    /// `MAX_QUICK_LINKS` quick links.
    pub proof fn lemma_links_bounded(&self, owner: Seq<u8>)
        requires
            self.wf(),
        ensures
            links_at(self@, owner).len() <= MAX_QUICK_LINKS,
    {
        lemma_bounded_at(self@, owner);
    }

    /// A freshly deployed registry.
    pub fn new() -> (r: Linketh)
        ensures
            r.wf(),
            r@ == initial_state(),
    {
        Linketh { ens_registry: Address::zero(), profiles: AddrMap::new(), quick_links: AddrMap::new() }
    }

    /// Sets the address of the ENS registry that profile creation consults.
    pub fn init(&mut self, ens_registry_address: Address)
        requires
            old(self).wf(),
        ensures
            final(self).wf(),
            final(self)@.profiles == old(self)@.profiles,
            final(self)@.quick_links == old(self)@.quick_links,
            final(self)@ == after_init(old(self)@, ens_registry_address@),
    {
        self.ens_registry = ens_registry_address;
    }

    /// The address of the ENS registry.
    pub fn ens_registry(&self) -> (a: Address)
        ensures
            a@ == self@.ens_registry,
    {
        self.ens_registry
    }

    /// What to ask the ENS registry before `ens_name` can get a profile: the
    /// owner of the name's namehash in the registry set by `init`.
    pub fn ens_owner_query(&self, ens_name: String) -> (q: EnsQuery)
        ensures
            q.registry@ == self@.ens_registry,
            q.node@ == namehash_of(encode_utf8(ens_name@), KeccakImpl::Sha3),
    {
        EnsQuery { registry: self.ens_registry, node: ens_namehash(ens_name) }
    }

    /// Creates (or overwrites) the profile of `sender`. `ens_owner` is the
    /// owner of `ens_name` according to the ENS registry; the profile is
    /// written only when that owner is the sender.
    pub fn create_profile(
        &mut self,
        sender: Address,
        ens_owner: Address,
        ens_name: String,
        cid: String,
        display: String,
        avatar: String,
    ) -> (r: Result<Event, LinkethError>)
        requires
            old(self).wf(),
        ensures
            final(self).wf(),
            final(self)@.quick_links == old(self)@.quick_links,
            final(self)@.ens_registry == old(self)@.ens_registry,
            r is Ok <==> ens_owner@ == sender@,
            r is Err ==> r == Err::<Event, LinkethError>(LinkethError::NotEnsOwner)
                && final(self)@ == old(self)@,
            r matches Ok(e) ==> final(self)@ == with_profile(
                old(self)@,
                sender@,
                ProfileView { ens: ens_name@, cid: cid@, display_name: display@, avatar_cid: avatar@ },
            ) && e.deep_view() == (EventView::ProfileCreated {
                owner: sender@,
                ens: ens_name@,
                cid: cid@,
                display_name: display@,
                avatar_cid: avatar@,
            }),
    {
        if !ens_owner.same_as(&sender) {
            return Err(LinkethError::NotEnsOwner);
        }
        let event = Event::ProfileCreated {
            owner: sender,
            ens: ens_name.clone(),
            cid: cid.clone(),
            display_name: display.clone(),
            avatar_cid: avatar.clone(),
        };
        let p = Profile { ens: ens_name, cid, display_name: display, avatar_cid: avatar };
        self.profiles.insert(sender, p);
        Ok(event)
    }

    /// Replaces each given field of the sender's profile; the ENS name and
    /// the fields not given are kept. An account without a profile gets one
    /// with an empty ENS name.
    pub fn update_profile(
        &mut self,
        sender: Address,
        cid: Option<String>,
        display: Option<String>,
        avatar: Option<String>,
    ) -> (e: Event)
        requires
            old(self).wf(),
        ensures
            final(self).wf(),
            final(self)@.quick_links == old(self)@.quick_links,
            final(self)@.ens_registry == old(self)@.ens_registry,
            final(self)@ == after_update(
                old(self)@,
                sender@,
                opt_text(cid),
                opt_text(display),
                opt_text(avatar),
            ),
            e.deep_view() == ({
                let p = profile_at(final(self)@, sender@);
                EventView::ProfileUpdated {
                    owner: sender@,
                    cid: p.cid,
                    display_name: p.display_name,
                    avatar_cid: p.avatar_cid,
                }
            }),
    {
        let ghost before = self@;
        let current = match self.profiles.take(&sender) {
            Some(p) => p,
            None => Profile::empty(),
        };
        assert(current@ == profile_at(before, sender@));
        let Profile { ens, cid: old_cid, display_name: old_display, avatar_cid: old_avatar } = current;
        let new_cid = match cid {
            Some(c) => c,
            None => old_cid,
        };
        let new_display = match display {
            Some(d) => d,
            None => old_display,
        };
        let new_avatar = match avatar {
            Some(a) => a,
            None => old_avatar,
        };
        let event = Event::ProfileUpdated {
            owner: sender,
            cid: new_cid.clone(),
            display_name: new_display.clone(),
            avatar_cid: new_avatar.clone(),
        };
        let p = Profile { ens, cid: new_cid, display_name: new_display, avatar_cid: new_avatar };
        let ghost pv = p@;
        self.profiles.insert(sender, p);
        assert(self@.profiles =~= before.profiles.insert(sender@, pv));
        event
    }

    /// Deletes the sender's profile and quick links.
    pub fn delete_profile(&mut self, sender: Address) -> (e: Event)
        requires
            old(self).wf(),
        ensures
            final(self).wf(),
            final(self)@.ens_registry == old(self)@.ens_registry,
            final(self)@ == after_delete(old(self)@, sender@),
            e.deep_view() == (EventView::ProfileDeleted { owner: sender@ }),
    {
        let _ = self.profiles.take(&sender);
        let _ = self.quick_links.take(&sender);
        Event::ProfileDeleted { owner: sender }
    }

    /// Replaces the sender's quick links by `links`, (title, url) pairs in
    /// order; refused when more than `MAX_QUICK_LINKS` are given.
    pub fn set_quick_links(&mut self, sender: Address, links: Vec<(String, String)>) -> (r: Result<
        Event,
        LinkethError,
    >)
        requires
            old(self).wf(),
        ensures
            final(self).wf(),
            final(self)@.profiles == old(self)@.profiles,
            final(self)@.ens_registry == old(self)@.ens_registry,
            r is Ok <==> links@.len() <= MAX_QUICK_LINKS,
            r is Err ==> r == Err::<Event, LinkethError>(LinkethError::TooManyQuickLinks)
                && final(self)@ == old(self)@,
            r matches Ok(e) ==> final(self)@ == after_set_links(old(self)@, sender@, links.deep_view())
                && e.deep_view() == (EventView::QuickLinksUpdated { owner: sender@ }),
    {
        if links.len() > MAX_QUICK_LINKS {
            return Err(LinkethError::TooManyQuickLinks);
        }
        let mut stored: Vec<QuickLink> = Vec::new();
        let mut i: usize = 0;
        while i < links.len()
            invariant
                i <= links@.len(),
                stored@.len() == i,
                forall|j: int|
                    0 <= j < i ==> (#[trigger] stored@[j])@ == links_from_pairs(links.deep_view())[j],
            decreases links@.len() - i,
        {
            let q = QuickLink { title: links[i].0.clone(), url: links[i].1.clone() };
            stored.push(q);
            i += 1;
        }
        assert(stored.deep_view() =~= links_from_pairs(links.deep_view()));
        self.quick_links.insert(sender, stored);
        Ok(Event::QuickLinksUpdated { owner: sender })
    }

    /// The profile of `owner` as (ENS name, content id, display name, avatar
    /// content id); empty strings where nothing is stored.
    pub fn get_profile(&self, owner: Address) -> (r: (String, String, String, String))
        requires
            self.wf(),
        ensures
            r.deep_view() == ({
                let p = profile_at(self@, owner@);
                (p.ens, p.cid, p.display_name, p.avatar_cid)
            }),
    {
        match self.profiles.get(&owner) {
            Some(p) => (p.ens.clone(), p.cid.clone(), p.display_name.clone(), p.avatar_cid.clone()),
            None => (String::new(), String::new(), String::new(), String::new()),
        }
    }

    /// The (title, url) pairs of the quick links of `owner` whose title is
    /// not empty, in stored order.
    pub fn get_quick_links(&self, owner: Address) -> (r: Vec<(String, String)>)
        requires
            self.wf(),
        ensures
            r.deep_view() == shown_pairs(links_at(self@, owner@)),
            r@.len() <= MAX_QUICK_LINKS,
    {
        proof {
            self.lemma_links_bounded(owner@);
            lemma_shown_pairs_len(links_at(self@, owner@));
        }
        let mut out: Vec<(String, String)> = Vec::new();
        match self.quick_links.get(&owner) {
            None => {
                assert(out.deep_view() =~= shown_pairs(links_at(self@, owner@)));
            },
            Some(links) => {
                let ghost all = links.deep_view();
                let mut i: usize = 0;
                assert(all.take(0) =~= Seq::<QuickLinkView>::empty());
                assert(out.deep_view() =~= shown_pairs(all.take(0)));
                while i < links.len()
                    invariant
                        i <= links@.len(),
                        all == links.deep_view(),
                        out.deep_view() == shown_pairs(all.take(i as int)),
                    decreases links@.len() - i,
                {
                    assert(all.take(i + 1).drop_last() =~= all.take(i as int));
                    assert(all.take(i + 1).last() == links@[i as int]@);
                    let ghost before = out.deep_view();
                    if !links[i].title.as_str().is_empty() {
                        out.push((links[i].title.clone(), links[i].url.clone()));
                        assert(out.deep_view() =~= before.push(
                            (links@[i as int].title@, links@[i as int].url@),
                        ));
                    }
                    i += 1;
                }
                assert(all.take(i as int) =~= all);
            },
        }
        out
    }

    /// Moves the sender's profile and quick links to `new_owner`, replacing
    /// what `new_owner` had; the sender is left with an empty profile and no
    /// quick links. Moving to oneself changes nothing.
    pub fn transfer_profile(&mut self, sender: Address, new_owner: Address)
        requires
            old(self).wf(),
        ensures
            final(self).wf(),
            final(self)@.ens_registry == old(self)@.ens_registry,
            final(self)@ == after_transfer(old(self)@, sender@, new_owner@),
    {
        if sender.same_as(&new_owner) {
            return;
        }
        let ghost before = self@;
        let p = match self.profiles.take(&sender) {
            Some(p) => p,
            None => Profile::empty(),
        };
        let q = match self.quick_links.take(&sender) {
            Some(links) => links,
            None => Vec::new(),
        };
        proof {
            assert(q.deep_view() =~= links_at(before, sender@));
            assert(p@ == profile_at(before, sender@));
            lemma_bounded_at(before, sender@);
        }
        self.profiles.insert(new_owner, p);
        self.quick_links.insert(new_owner, q);
        assert(self@.profiles =~= before.profiles.remove(sender@).insert(new_owner@, profile_at(before, sender@)));
        assert(self@.quick_links =~= before.quick_links.remove(sender@).insert(new_owner@, links_at(before, sender@)));
    }

    /// The profile stored for `owner`, or an empty one.
    pub fn profile(&self, owner: Address) -> (p: Profile)
        requires
            self.wf(),
        ensures
            p@ == profile_at(self@, owner@),
    {
        match self.profiles.get(&owner) {
            Some(p) => p.duplicate(),
            None => Profile::empty(),
        }
    }

    /// Stores `profile` for `owner`, whatever was there.
    pub fn set_profile(&mut self, owner: Address, profile: Profile)
        requires
            old(self).wf(),
        ensures
            final(self).wf(),
            final(self)@.quick_links == old(self)@.quick_links,
            final(self)@.ens_registry == old(self)@.ens_registry,
            final(self)@ == with_profile(old(self)@, owner@, profile@),
    {
        self.profiles.insert(owner, profile);
    }

    /// The number of quick links stored for `owner`, shown or not.
    pub fn quick_links_len(&self, owner: Address) -> (n: usize)
        requires
            self.wf(),
        ensures
            n == links_at(self@, owner@).len(),
            n <= MAX_QUICK_LINKS,
    {
        proof {
            self.lemma_links_bounded(owner@);
        }
        match self.quick_links.get(&owner) {
            Some(links) => links.len(),
            None => 0,
        }
    }

    /// The quick link of `owner` at `index`, if there is one.
    pub fn quick_link(&self, owner: Address, index: usize) -> (r: Option<QuickLink>)
        requires
            self.wf(),
        ensures
            r is Some <==> index < links_at(self@, owner@).len(),
            r matches Some(q) ==> q@ == links_at(self@, owner@)[index as int],
    {
        match self.quick_links.get(&owner) {
            Some(links) => {
                if index < links.len() {
                    Some(links[index].duplicate())
                } else {
                    None
                }
            },
            None => None,
        }
    }

    /// Appends `link` to the quick links of `owner`; refused when `owner`
    /// already holds `MAX_QUICK_LINKS` of them.
    pub fn push_quick_link(&mut self, owner: Address, link: QuickLink) -> (r: Result<(), LinkethError>)
        requires
            old(self).wf(),
        ensures
            final(self).wf(),
            final(self)@.profiles == old(self)@.profiles,
            final(self)@.ens_registry == old(self)@.ens_registry,
            r is Ok <==> links_at(old(self)@, owner@).len() < MAX_QUICK_LINKS,
            r is Err ==> r == Err::<(), LinkethError>(LinkethError::TooManyQuickLinks)
                && final(self)@ == old(self)@,
            r is Ok ==> final(self)@ == with_links(
                old(self)@,
                owner@,
                links_at(old(self)@, owner@).push(link@),
            ),
    {
        if self.quick_links_len(owner) >= MAX_QUICK_LINKS {
            return Err(LinkethError::TooManyQuickLinks);
        }
        let ghost start = self@;
        let mut links = match self.quick_links.take(&owner) {
            Some(links) => links,
            None => Vec::new(),
        };
        let ghost before = links.deep_view();
        assert(before =~= links_at(start, owner@));
        links.push(link);
        assert(links.deep_view() =~= before.push(link@));
        self.quick_links.insert(owner, links);
        assert(self@.quick_links =~= start.quick_links.insert(owner@, before.push(link@)));
        Ok(())
    }

    /// Removes and returns the last quick link of `owner`, if there is one.
    pub fn pop_quick_link(&mut self, owner: Address) -> (r: Option<QuickLink>)
        requires
            old(self).wf(),
        ensures
            final(self).wf(),
            final(self)@.profiles == old(self)@.profiles,
            final(self)@.ens_registry == old(self)@.ens_registry,
            r is Some <==> links_at(old(self)@, owner@).len() > 0,
            r is None ==> final(self)@ == old(self)@,
            r matches Some(q) ==> q@ == links_at(old(self)@, owner@).last() && final(self)@ == with_links(
                old(self)@,
                owner@,
                links_at(old(self)@, owner@).drop_last(),
            ),
    {
        let ghost before = self@;
        match self.quick_links.take(&owner) {
            Some(mut links) => {
                let ghost all = links.deep_view();
                let r = links.pop();
                if r.is_some() {
                    assert(links.deep_view() =~= all.drop_last());
                } else {
                    assert(links.deep_view() =~= all);
                }
                self.quick_links.insert(owner, links);
                assert(self@.quick_links =~= before.quick_links.insert(owner@, links.deep_view()));
                if r.is_none() {
                    assert(self@.quick_links =~= before.quick_links);
                }
                r
            },
            None => {
                assert(self@.quick_links =~= before.quick_links);
                None
            },
        }
    }
}

} // verus!
