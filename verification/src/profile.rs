//! The records stored for each account: its profile and its quick links.

use vstd::prelude::*;

verus! {

/// A profile: the ENS name it was created under, the content identifier of
/// the profile data, the display name and the content identifier of the
/// avatar. Every field reads as the empty string until it is written.
#[derive(Debug)]
pub struct Profile {
    pub ens: String,
    pub cid: String,
    pub display_name: String,
    pub avatar_cid: String,
}

/// The text of a profile's four fields.
pub struct ProfileView {
    pub ens: Seq<char>,
    pub cid: Seq<char>,
    pub display_name: Seq<char>,
    pub avatar_cid: Seq<char>,
}

/// The profile of an account that has none: four empty strings.
pub open spec fn empty_profile() -> ProfileView {
    ProfileView {
        ens: Seq::empty(),
        cid: Seq::empty(),
        display_name: Seq::empty(),
        avatar_cid: Seq::empty(),
    }
}

impl DeepView for Profile {
    type V = ProfileView;

    open spec fn deep_view(&self) -> ProfileView {
        ProfileView {
            ens: self.ens@,
            cid: self.cid@,
            display_name: self.display_name@,
            avatar_cid: self.avatar_cid@,
        }
    }
}

impl View for Profile {
    type V = ProfileView;

    open spec fn view(&self) -> ProfileView {
        self.deep_view()
    }
}

impl Profile {
    /// A profile whose four fields are empty.
    pub fn empty() -> (p: Profile)
        ensures
            p@ == empty_profile(),
    {
        Profile {
            ens: String::new(),
            cid: String::new(),
            display_name: String::new(),
            avatar_cid: String::new(),
        }
    }

    /// A copy of this profile.
    pub fn duplicate(&self) -> (p: Profile)
        ensures
            p@ == self@,
    {
        Profile {
            ens: self.ens.clone(),
            cid: self.cid.clone(),
            display_name: self.display_name.clone(),
            avatar_cid: self.avatar_cid.clone(),
        }
    }
}

/// A link shown on a profile: a title and the URL it points to. A link
/// whose title is empty is not shown.
#[derive(Debug)]
pub struct QuickLink {
    pub title: String,
    pub url: String,
}

/// The text of a quick link.
pub struct QuickLinkView {
    pub title: Seq<char>,
    pub url: Seq<char>,
}

impl DeepView for QuickLink {
    type V = QuickLinkView;

    open spec fn deep_view(&self) -> QuickLinkView {
        QuickLinkView { title: self.title@, url: self.url@ }
    }
}

impl View for QuickLink {
    type V = QuickLinkView;

    open spec fn view(&self) -> QuickLinkView {
        self.deep_view()
    }
}

impl QuickLink {
    /// A copy of this link.
    pub fn duplicate(&self) -> (q: QuickLink)
        ensures
            q@ == self@,
    {
        QuickLink { title: self.title.clone(), url: self.url.clone() }
    }
}

/// Whether a link is shown: its title is not empty.
pub open spec fn is_shown(q: QuickLinkView) -> bool {
    q.title.len() > 0
}

/// The (title, url) pairs of the shown links, in their stored order.
pub open spec fn shown_pairs(links: Seq<QuickLinkView>) -> Seq<(Seq<char>, Seq<char>)>
    decreases links.len(),
{
    if links.len() == 0 {
        Seq::empty()
    } else {
        let rest = shown_pairs(links.drop_last());
        let q = links.last();
        if is_shown(q) {
            rest.push((q.title, q.url))
        } else {
            rest
        }
    }
}

/// There are never more shown pairs than links.
pub proof fn lemma_shown_pairs_len(links: Seq<QuickLinkView>)
    ensures
        shown_pairs(links).len() <= links.len(),
    decreases links.len(),
{
    if links.len() > 0 {
        lemma_shown_pairs_len(links.drop_last());
    }
}

/// The links stored for a list of (title, url) pairs.
pub open spec fn links_from_pairs(pairs: Seq<(Seq<char>, Seq<char>)>) -> Seq<QuickLinkView> {
    pairs.map_values(|p: (Seq<char>, Seq<char>)| QuickLinkView { title: p.0, url: p.1 })
}

} // verus!
