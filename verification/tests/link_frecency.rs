use telepad::cache::{sync_report, AccountCache, Entry, Folder, Topic};
use telepad::frecency::{Record, Store};
use telepad::link::{build, build_topic, open_archive, switch_account, tdesktop_peer_id};

fn entry(name: &str, username: Option<&str>, id: i64, kind: &str) -> Entry {
    Entry {
        name: name.to_string(),
        username: username.map(|s| s.to_string()),
        id,
        kind: kind.to_string(),
        topics: Vec::new(),
    }
}

#[test]
fn peer_ids_are_packed_with_their_kind() {
    assert_eq!(tdesktop_peer_id(42), 42);
    assert_eq!(tdesktop_peer_id(0), 0);
    assert_eq!(tdesktop_peer_id(-123), 281474976710779);
    assert_eq!(tdesktop_peer_id(-1001234567890), 562951187989202);
    assert_eq!(tdesktop_peer_id(-1_000_000_000_000), 2 << 48);
    assert_eq!(tdesktop_peer_id(-999_999_999_999), 999_999_999_999 | (1 << 48));
    assert_eq!(tdesktop_peer_id(-123) >> 48, 1);
    assert_eq!(tdesktop_peer_id(-1001234567890) >> 48, 2);
    assert_eq!(tdesktop_peer_id(-1001234567890) & 0xffff_ffff_ffff, 1234567890);
}

#[test]
fn public_peers_open_by_username() {
    assert_eq!(build(&entry("Rust", Some("rustlang"), -1001234567890, "channel")), "tg://resolve?domain=rustlang");
    assert_eq!(build(&entry("Al", Some("al"), 42, "user")), "tg://resolve?domain=al");
}

#[test]
fn private_channels_open_by_privatepost() {
    assert_eq!(build(&entry("Secret", None, -1001234567890, "channel")), "tg://privatepost?channel=1234567890");
    assert_eq!(build(&entry("Edge", None, -1_000_000_000_000, "group")), "tg://privatepost?channel=0");
}

#[test]
fn users_and_basic_groups_open_by_packed_id() {
    assert_eq!(build(&entry("Bob", None, 42, "user")), "tg://chat?id=42");
    assert_eq!(build(&entry("Old group", None, -123, "group")), "tg://chat?id=281474976710779");
}

#[test]
fn topics_open_with_a_topic_parameter() {
    assert_eq!(
        build_topic(&entry("Forum", Some("forum"), -1001234567890, "group"), 7),
        "tg://resolve?domain=forum&topic=7"
    );
    assert_eq!(
        build_topic(&entry("Forum", None, -1001234567890, "group"), 7),
        "tg://privatepost?channel=1234567890&topic=7"
    );
}

#[test]
fn switching_needs_a_key() {
    assert!(switch_account("", "i3-msg [class=\"{class}\"] focus", "TelegramDesktop").is_none());
    let plan = switch_account("alt+2", "i3-msg [class=\"{class}\"] focus", "TelegramDesktop").unwrap();
    assert_eq!(plan.focus, "i3-msg [class=\"TelegramDesktop\"] focus");
    assert_eq!(plan.keys, vec!["alt+2".to_string()]);
    let plan = switch_account("alt+1", "wmctrl -xa {class}", "AyuGramDesktop").unwrap();
    assert_eq!(plan.focus, "wmctrl -xa AyuGramDesktop");
}

#[test]
fn archive_is_opened_with_ctrl_9_after_the_switch_key() {
    let plan = open_archive("alt+1", "wmctrl -xa {class}", "AyuGramDesktop");
    assert_eq!(plan.focus, "wmctrl -xa AyuGramDesktop");
    assert_eq!(plan.keys, vec!["alt+1".to_string(), "ctrl+9".to_string()]);
    let plan = open_archive("", "wmctrl -xa {class}", "AyuGramDesktop");
    assert_eq!(plan.keys, vec!["ctrl+9".to_string()]);
}

#[test]
fn unseen_peers_have_no_record() {
    let store = Store::new();
    assert_eq!(store.visit(42), None);
    assert!(store.entries().is_empty());
}

#[test]
fn bump_counts_visits_and_keeps_others() {
    let mut store = Store::new();
    store.bump_at(42, 1000);
    store.bump_at(42, 2000);
    store.bump_at(-7, 1500);
    assert_eq!(store.visit(42), Some(Record { count: 2, last: 2000 }));
    assert_eq!(store.visit(-7), Some(Record { count: 1, last: 1500 }));
    assert_eq!(store.visit(7), None);
    let mut keys: Vec<String> = store.entries().into_iter().map(|(k, _)| k).collect();
    keys.sort();
    assert_eq!(keys, vec!["-7".to_string(), "42".to_string()]);
}

#[test]
fn bump_saturates_the_count() {
    let mut store = Store::new();
    store.insert("5".to_string(), Record { count: u32::MAX, last: 1 });
    store.bump_at(5, 9);
    assert_eq!(store.visit(5), Some(Record { count: u32::MAX, last: 9 }));
}

#[test]
fn bump_records_the_current_time() {
    let mut store = Store::new();
    let before = std::time::SystemTime::now().duration_since(std::time::UNIX_EPOCH).unwrap().as_secs() as i64;
    store.bump(11);
    let after = std::time::SystemTime::now().duration_since(std::time::UNIX_EPOCH).unwrap().as_secs() as i64;
    let r = store.visit(11).unwrap();
    assert_eq!(r.count, 1);
    assert!(before <= r.last && r.last <= after);
}

#[test]
fn insert_replaces_and_entries_lists_each_key_once() {
    let mut store = Store::new();
    store.insert("1".to_string(), Record { count: 3, last: 10 });
    store.insert("1".to_string(), Record { count: 4, last: 11 });
    store.insert("x".to_string(), Record { count: 1, last: 1 });
    assert_eq!(store.visit(1), Some(Record { count: 4, last: 11 }));
    let e = store.entries();
    assert_eq!(e.len(), 2);
    assert_eq!(e[0], ("1".to_string(), Record { count: 4, last: 11 }));
}

#[test]
fn sync_report_counts_the_cache() {
    let cache = AccountCache {
        acc: 1,
        label: "Work".to_string(),
        me_id: 5,
        me_username: None,
        entries: vec![entry("a", None, 1, "user"), entry("b", None, 2, "user")],
        archived: vec![entry("c", None, 3, "user")],
        folders: vec![Folder { title: "F".to_string(), entries: vec![] }],
    };
    assert_eq!(sync_report("Work", &cache), "synced 'Work' (2 chats, 1 archived, 1 folders)");
}

#[test]
fn entries_clone_whole() {
    let mut e = entry("Forum", Some("f"), -100, "group");
    e.topics.push(Topic { id: 3, title: "General".to_string() });
    let c = e.clone();
    assert_eq!(c.name, "Forum");
    assert_eq!(c.username.as_deref(), Some("f"));
    assert_eq!(c.topics.len(), 1);
    assert_eq!(c.topics[0].title, "General");
}
