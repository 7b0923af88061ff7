use linketh::{ens_namehash, Address, Event, Linketh, LinkethError, Profile, QuickLink, MAX_QUICK_LINKS};

fn s(x: &str) -> String {
    x.to_string()
}

fn profile(ens: &str, cid: &str, display: &str, avatar: &str) -> Profile {
    Profile { ens: s(ens), cid: s(cid), display_name: s(display), avatar_cid: s(avatar) }
}

fn link(title: &str, url: &str) -> QuickLink {
    QuickLink { title: s(title), url: s(url) }
}

fn empty4() -> (String, String, String, String) {
    (s(""), s(""), s(""), s(""))
}

#[test]
fn test_profile() {
    let contract = Linketh::new();
    let owner = Address([1u8; 20]);
    assert_eq!(contract.get_profile(owner), empty4());
    assert_eq!(contract.quick_links_len(owner), 0);
}

#[test]
fn test_init_ens_registry() {
    let mut contract = Linketh::new();
    let registry_addr = Address([1u8; 20]);
    contract.init(registry_addr);
    assert_eq!(contract.ens_registry(), registry_addr);
}

#[test]
fn test_profile_storage_operations() {
    let mut contract = Linketh::new();
    let owner = Address([1u8; 20]);
    contract.set_profile(owner, profile("test.eth", "QmTest123", "Test User", "QmAvatar456"));
    let (ens, cid, display, avatar) = contract.get_profile(owner);
    assert_eq!(ens, "test.eth");
    assert_eq!(cid, "QmTest123");
    assert_eq!(display, "Test User");
    assert_eq!(avatar, "QmAvatar456");
}

#[test]
fn test_profile_field_updates() {
    let mut contract = Linketh::new();
    let owner = Address([1u8; 20]);
    contract.set_profile(owner, profile("test.eth", "QmOld", "Old Name", "QmOldAvatar"));
    let mut p = contract.profile(owner);
    p.cid = s("QmNew");
    p.display_name = s("New Name");
    p.avatar_cid = s("QmNewAvatar");
    contract.set_profile(owner, p);
    let (ens, cid, display, avatar) = contract.get_profile(owner);
    assert_eq!(ens, "test.eth");
    assert_eq!(cid, "QmNew");
    assert_eq!(display, "New Name");
    assert_eq!(avatar, "QmNewAvatar");
}

#[test]
fn test_quick_links_storage() {
    let mut contract = Linketh::new();
    let owner = Address([1u8; 20]);
    contract.push_quick_link(owner, link("Twitter", "https://twitter.com/user")).unwrap();
    contract.push_quick_link(owner, link("GitHub", "https://github.com/user")).unwrap();
    let retrieved_links = contract.get_quick_links(owner);
    assert_eq!(retrieved_links.len(), 2);
    assert_eq!(retrieved_links[0], ("Twitter".to_string(), "https://twitter.com/user".to_string()));
    assert_eq!(retrieved_links[1], ("GitHub".to_string(), "https://github.com/user".to_string()));
}

#[test]
fn test_profile_field_clearing() {
    let mut contract = Linketh::new();
    let owner = Address([1u8; 20]);
    contract.set_profile(owner, profile("test.eth", "QmTest", "Test User", "QmAvatar"));
    contract.set_profile(owner, Profile::empty());
    let (ens, cid, display, avatar) = contract.get_profile(owner);
    assert_eq!(ens, "");
    assert_eq!(cid, "");
    assert_eq!(display, "");
    assert_eq!(avatar, "");
}

#[test]
fn test_multiple_users_independence() {
    let mut contract = Linketh::new();
    let user1 = Address([1u8; 20]);
    let user2 = Address([2u8; 20]);
    contract.set_profile(user1, profile("user1.eth", "QmUser1", "User One", "QmAvatar1"));
    contract.set_profile(user2, profile("user2.eth", "QmUser2", "User Two", "QmAvatar2"));
    let (ens1, cid1, _, _) = contract.get_profile(user1);
    let (ens2, cid2, _, _) = contract.get_profile(user2);
    assert_eq!(ens1, "user1.eth");
    assert_eq!(cid1, "QmUser1");
    assert_eq!(ens2, "user2.eth");
    assert_eq!(cid2, "QmUser2");
}

#[test]
fn test_empty_profile_retrieval() {
    let contract = Linketh::new();
    let non_existent_user = Address([99u8; 20]);
    let (ens, cid, display, avatar) = contract.get_profile(non_existent_user);
    assert_eq!(ens, "");
    assert_eq!(cid, "");
    assert_eq!(display, "");
    assert_eq!(avatar, "");
    let links = contract.get_quick_links(non_existent_user);
    assert_eq!(links.len(), 0);
}

#[test]
fn test_ens_registry_initialization() {
    let contract = Linketh::new();
    assert!(contract.ens_registry().is_zero());
}

#[test]
fn test_quick_links_empty_filtering() {
    let mut contract = Linketh::new();
    let owner = Address([1u8; 20]);
    contract.push_quick_link(owner, link("GitHub", "https://github.com/user")).unwrap();
    contract.push_quick_link(owner, link("", "")).unwrap();
    let retrieved_links = contract.get_quick_links(owner);
    assert_eq!(retrieved_links.len(), 1);
    assert_eq!(retrieved_links[0], ("GitHub".to_string(), "https://github.com/user".to_string()));
}

#[test]
fn test_storage_string_operations() {
    let mut contract = Linketh::new();
    let owner = Address([1u8; 20]);
    let mut p = contract.profile(owner);
    p.ens = s("example.eth");
    contract.set_profile(owner, p);
    assert_eq!(contract.profile(owner).ens, "example.eth");
    let mut p = contract.profile(owner);
    p.cid = s("");
    contract.set_profile(owner, p);
    assert_eq!(contract.profile(owner).cid, "");
    let long_string = "QmVeryLongIPFSHashThatCouldPotentiallyBeUsedForStoringLargeAmountsOfData";
    let mut p = contract.profile(owner);
    p.display_name = s(long_string);
    contract.set_profile(owner, p);
    assert_eq!(contract.profile(owner).display_name, long_string);
    let mut p = contract.profile(owner);
    p.avatar_cid = s("QmAvatar-123_with.special/chars");
    contract.set_profile(owner, p);
    assert_eq!(contract.profile(owner).avatar_cid, "QmAvatar-123_with.special/chars");
}

#[test]
fn test_vec_operations() {
    let mut contract = Linketh::new();
    let owner = Address([1u8; 20]);
    assert_eq!(contract.quick_links_len(owner), 0);
    contract.push_quick_link(owner, link("Link1", "url1")).unwrap();
    assert_eq!(contract.quick_links_len(owner), 1);
    contract.push_quick_link(owner, link("Link2", "url2")).unwrap();
    assert_eq!(contract.quick_links_len(owner), 2);
    contract.pop_quick_link(owner);
    assert_eq!(contract.quick_links_len(owner), 1);
    let remaining_link = contract.quick_link(owner, 0).unwrap();
    assert_eq!(remaining_link.title, "Link1");
    assert_eq!(remaining_link.url, "url1");
}

// ---- operations and their rules ----

#[test]
fn create_profile_by_the_ens_owner_is_stored() {
    let mut c = Linketh::new();
    let alice = Address([1u8; 20]);
    let e = c.create_profile(alice, alice, s("alice.eth"), s("QmA"), s("Alice"), s("QmAv")).unwrap();
    match e {
        Event::ProfileCreated { owner, ens, cid, display_name, avatar_cid } => {
            assert_eq!(owner, alice);
            assert_eq!((ens.as_str(), cid.as_str(), display_name.as_str(), avatar_cid.as_str()),
                ("alice.eth", "QmA", "Alice", "QmAv"));
        }
        other => panic!("unexpected event {:?}", other),
    }
    assert_eq!(c.get_profile(alice), (s("alice.eth"), s("QmA"), s("Alice"), s("QmAv")));
}

#[test]
fn create_profile_by_someone_else_is_refused_and_changes_nothing() {
    let mut c = Linketh::new();
    let alice = Address([1u8; 20]);
    let mallory = Address([2u8; 20]);
    let r = c.create_profile(mallory, alice, s("alice.eth"), s("QmM"), s("M"), s("QmMv"));
    assert_eq!(r.unwrap_err(), LinkethError::NotEnsOwner);
    assert_eq!(LinkethError::NotEnsOwner.message(), "You do not own this ENS");
    assert_eq!(c.get_profile(mallory), empty4());
    assert_eq!(c.get_profile(alice), empty4());
}

#[test]
fn update_profile_changes_only_given_fields() {
    let mut c = Linketh::new();
    let a = Address([1u8; 20]);
    c.create_profile(a, a, s("a.eth"), s("cid0"), s("name0"), s("av0")).unwrap();
    let e = c.update_profile(a, Some(s("cid1")), None, Some(s("av1")));
    match e {
        Event::ProfileUpdated { owner, cid, display_name, avatar_cid } => {
            assert_eq!(owner, a);
            assert_eq!((cid.as_str(), display_name.as_str(), avatar_cid.as_str()), ("cid1", "name0", "av1"));
        }
        other => panic!("unexpected event {:?}", other),
    }
    assert_eq!(c.get_profile(a), (s("a.eth"), s("cid1"), s("name0"), s("av1")));
}

#[test]
fn update_profile_without_profile_starts_from_empty() {
    let mut c = Linketh::new();
    let a = Address([3u8; 20]);
    c.update_profile(a, None, Some(s("Name")), None);
    assert_eq!(c.get_profile(a), (s(""), s(""), s("Name"), s("")));
}

#[test]
fn delete_profile_clears_profile_and_links() {
    let mut c = Linketh::new();
    let a = Address([1u8; 20]);
    let b = Address([2u8; 20]);
    c.create_profile(a, a, s("a.eth"), s("c"), s("d"), s("v")).unwrap();
    c.create_profile(b, b, s("b.eth"), s("c"), s("d"), s("v")).unwrap();
    c.set_quick_links(a, vec![(s("t"), s("u"))]).unwrap();
    match c.delete_profile(a) {
        Event::ProfileDeleted { owner } => assert_eq!(owner, a),
        other => panic!("unexpected event {:?}", other),
    }
    assert_eq!(c.get_profile(a), empty4());
    assert!(c.get_quick_links(a).is_empty());
    assert_eq!(c.get_profile(b).0, "b.eth");
}

#[test]
fn set_quick_links_accepts_up_to_five() {
    let mut c = Linketh::new();
    let a = Address([1u8; 20]);
    let five: Vec<(String, String)> = (0..MAX_QUICK_LINKS).map(|i| (format!("t{i}"), format!("u{i}"))).collect();
    match c.set_quick_links(a, five.clone()).unwrap() {
        Event::QuickLinksUpdated { owner } => assert_eq!(owner, a),
        other => panic!("unexpected event {:?}", other),
    }
    assert_eq!(c.get_quick_links(a), five);
}

#[test]
fn set_quick_links_refuses_six_and_keeps_old_links() {
    let mut c = Linketh::new();
    let a = Address([1u8; 20]);
    c.set_quick_links(a, vec![(s("keep"), s("me"))]).unwrap();
    let six: Vec<(String, String)> = (0..6).map(|i| (format!("t{i}"), format!("u{i}"))).collect();
    assert_eq!(c.set_quick_links(a, six).unwrap_err(), LinkethError::TooManyQuickLinks);
    assert_eq!(LinkethError::TooManyQuickLinks.message(), "Max 5 quick links");
    assert_eq!(c.get_quick_links(a), vec![(s("keep"), s("me"))]);
}

#[test]
fn set_quick_links_replaces_and_hides_untitled() {
    let mut c = Linketh::new();
    let a = Address([1u8; 20]);
    c.set_quick_links(a, vec![(s("x"), s("1")), (s("y"), s("2")), (s("z"), s("3"))]).unwrap();
    c.set_quick_links(a, vec![(s(""), s("hidden")), (s("w"), s("4"))]).unwrap();
    assert_eq!(c.get_quick_links(a), vec![(s("w"), s("4"))]);
    assert_eq!(c.quick_links_len(a), 2);
}

#[test]
fn transfer_profile_moves_profile_and_links() {
    let mut c = Linketh::new();
    let a = Address([1u8; 20]);
    let b = Address([2u8; 20]);
    c.create_profile(a, a, s("a.eth"), s("c"), s("d"), s("v")).unwrap();
    c.set_quick_links(a, vec![(s("t"), s("u"))]).unwrap();
    c.create_profile(b, b, s("b.eth"), s("cb"), s("db"), s("vb")).unwrap();
    c.transfer_profile(a, b);
    assert_eq!(c.get_profile(b), (s("a.eth"), s("c"), s("d"), s("v")));
    assert_eq!(c.get_quick_links(b), vec![(s("t"), s("u"))]);
    assert_eq!(c.get_profile(a), empty4());
    assert!(c.get_quick_links(a).is_empty());
    assert_eq!(c.quick_links_len(a), 0);
}

#[test]
fn transfer_profile_to_oneself_changes_nothing() {
    let mut c = Linketh::new();
    let a = Address([1u8; 20]);
    c.create_profile(a, a, s("a.eth"), s("c"), s("d"), s("v")).unwrap();
    c.set_quick_links(a, vec![(s("t"), s("u")), (s("t2"), s("u2"))]).unwrap();
    c.transfer_profile(a, a);
    assert_eq!(c.get_profile(a), (s("a.eth"), s("c"), s("d"), s("v")));
    assert_eq!(c.get_quick_links(a), vec![(s("t"), s("u")), (s("t2"), s("u2"))]);
}

#[test]
fn transfer_from_an_account_without_profile_clears_the_target() {
    let mut c = Linketh::new();
    let a = Address([1u8; 20]);
    let b = Address([2u8; 20]);
    c.create_profile(b, b, s("b.eth"), s("cb"), s("db"), s("vb")).unwrap();
    c.transfer_profile(a, b);
    assert_eq!(c.get_profile(b), empty4());
}

#[test]
fn push_quick_link_refuses_a_sixth_link() {
    let mut c = Linketh::new();
    let a = Address([1u8; 20]);
    for i in 0..MAX_QUICK_LINKS {
        c.push_quick_link(a, link(&format!("t{i}"), "u")).unwrap();
    }
    assert_eq!(c.push_quick_link(a, link("extra", "x")).unwrap_err(), LinkethError::TooManyQuickLinks);
    assert_eq!(c.quick_links_len(a), MAX_QUICK_LINKS);
    assert_eq!(c.get_quick_links(a).len(), MAX_QUICK_LINKS);
}

#[test]
fn pop_undoes_push() {
    let mut c = Linketh::new();
    let a = Address([1u8; 20]);
    c.push_quick_link(a, link("one", "1")).unwrap();
    c.push_quick_link(a, link("two", "2")).unwrap();
    let popped = c.pop_quick_link(a).unwrap();
    assert_eq!((popped.title.as_str(), popped.url.as_str()), ("two", "2"));
    assert_eq!(c.get_quick_links(a), vec![(s("one"), s("1"))]);
    assert!(c.quick_link(a, 1).is_none());
    c.pop_quick_link(a);
    assert!(c.pop_quick_link(a).is_none());
}

#[test]
fn ens_owner_query_names_registry_and_namehash() {
    let mut c = Linketh::new();
    let registry = Address([0xee; 20]);
    c.init(registry);
    let q = c.ens_owner_query(s("vitalik.eth"));
    assert_eq!(q.registry, registry);
    assert_eq!(q.node, ens_namehash(s("vitalik.eth")));
}

#[test]
fn addresses_compare_by_bytes() {
    let a = Address([5u8; 20]);
    let mut bytes = [5u8; 20];
    assert!(a.same_as(&Address(bytes)));
    bytes[19] = 6;
    assert!(!a.same_as(&Address(bytes)));
    assert!(Address::zero().is_zero());
    assert!(!a.is_zero());
}
