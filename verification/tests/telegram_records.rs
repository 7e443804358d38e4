use telepad::cache::{Entry, Topic};
use telepad::telegram::{
    build_peer_entry, contacts_to_entries, dialog_entry, forum_input_peer, input_peer_bot_id,
    input_peer_for, merge_contacts, peer_bot_id, peer_id_value, resolve_folders, topics_from,
    ArchiveScan, ChatRecord, DialogPeer, DialogRecord, DialogsData, DialogsPage, FilterRecord,
    InputPeerRef, MessageRecord, PeerKind, PeerRef, TopicRecord, UserInfo, UserRecord,
};

fn user(id: i64, first: Option<&str>, last: Option<&str>, username: Option<&str>, hash: Option<i64>) -> UserRecord {
    UserRecord::User(UserInfo {
        id,
        access_hash: hash,
        deleted: false,
        first_name: first.map(|s| s.to_string()),
        last_name: last.map(|s| s.to_string()),
        username: username.map(|s| s.to_string()),
    })
}

fn deleted(id: i64) -> UserRecord {
    UserRecord::User(UserInfo { id, access_hash: None, deleted: true, first_name: Some("Gone".to_string()), last_name: None, username: None })
}

fn channel(id: i64, title: &str, username: Option<&str>, broadcast: bool, hash: Option<i64>, forum: bool) -> ChatRecord {
    ChatRecord::Channel {
        id,
        access_hash: hash,
        title: title.to_string(),
        username: username.map(|s| s.to_string()),
        broadcast,
        forum,
    }
}

fn entry(name: &str, id: i64) -> Entry {
    Entry { name: name.to_string(), username: None, id, kind: "user".to_string(), topics: Vec::new() }
}

fn names(es: &[Entry]) -> Vec<String> {
    es.iter().map(|e| e.name.clone()).collect()
}

#[test]
fn bot_api_ids_of_peers() {
    assert_eq!(peer_bot_id(&PeerRef::User(5)), 5);
    assert_eq!(peer_bot_id(&PeerRef::Chat(123)), -123);
    assert_eq!(peer_bot_id(&PeerRef::Channel(1234567890)), -1001234567890);
    assert_eq!(input_peer_bot_id(&InputPeerRef::User { user_id: 5, access_hash: 1 }), Some(5));
    assert_eq!(input_peer_bot_id(&InputPeerRef::Chat { chat_id: 123 }), Some(-123));
    assert_eq!(input_peer_bot_id(&InputPeerRef::Channel { channel_id: 9, access_hash: 0 }), Some(-1000000000009));
    assert_eq!(input_peer_bot_id(&InputPeerRef::Empty), None);
    assert_eq!(input_peer_bot_id(&InputPeerRef::Other), None);
}

#[test]
fn users_are_named_by_first_and_last_name() {
    let users = vec![
        user(1, Some("Ann"), Some("Lee"), Some("ann"), None),
        user(2, None, Some("Solo"), None, None),
        user(3, None, None, Some("handle"), None),
        user(4, None, None, None, None),
        deleted(5),
        UserRecord::Empty,
    ];
    let chats = vec![];
    let e = build_peer_entry(&PeerRef::User(1), &users, &chats).unwrap();
    assert_eq!((e.name.as_str(), e.username.as_deref(), e.id, e.kind.as_str()), ("Ann Lee", Some("ann"), 1, "user"));
    assert_eq!(build_peer_entry(&PeerRef::User(2), &users, &chats).unwrap().name, "Solo");
    assert_eq!(build_peer_entry(&PeerRef::User(3), &users, &chats).unwrap().name, "handle");
    assert_eq!(build_peer_entry(&PeerRef::User(4), &users, &chats).unwrap().name, "(no name)");
    assert!(build_peer_entry(&PeerRef::User(5), &users, &chats).is_none());
    assert!(build_peer_entry(&PeerRef::User(6), &users, &chats).is_none());
}

#[test]
fn chats_and_channels_become_groups_and_channels() {
    let users = vec![];
    let chats = vec![
        ChatRecord::Chat { id: 123, title: "Old group".to_string() },
        channel(9, "News", Some("news"), true, Some(1), false),
        channel(10, "Super", None, false, None, true),
        ChatRecord::Other,
    ];
    let e = build_peer_entry(&PeerRef::Chat(123), &users, &chats).unwrap();
    assert_eq!((e.name.as_str(), e.id, e.kind.as_str(), e.username.is_none()), ("Old group", -123, "group", true));
    let e = build_peer_entry(&PeerRef::Channel(9), &users, &chats).unwrap();
    assert_eq!((e.name.as_str(), e.id, e.kind.as_str(), e.username.as_deref()), ("News", -1000000000009, "channel", Some("news")));
    let e = build_peer_entry(&PeerRef::Channel(10), &users, &chats).unwrap();
    assert_eq!(e.kind, "group");
    assert!(build_peer_entry(&PeerRef::Chat(9), &users, &chats).is_none());
    assert!(build_peer_entry(&PeerRef::Channel(123), &users, &chats).is_none());
}

#[test]
fn paging_offsets_carry_the_first_known_access_hash() {
    let users = vec![user(1, None, None, None, None), user(1, None, None, None, Some(77))];
    let chats = vec![channel(9, "a", None, true, None, false), channel(9, "b", None, true, Some(88), false)];
    assert_eq!(input_peer_for(&PeerRef::User(1), &users, &chats), InputPeerRef::User { user_id: 1, access_hash: 77 });
    assert_eq!(input_peer_for(&PeerRef::User(2), &users, &chats), InputPeerRef::User { user_id: 2, access_hash: 0 });
    assert_eq!(input_peer_for(&PeerRef::Chat(3), &users, &chats), InputPeerRef::Chat { chat_id: 3 });
    assert_eq!(input_peer_for(&PeerRef::Channel(9), &users, &chats), InputPeerRef::Channel { channel_id: 9, access_hash: 88 });
}

#[test]
fn contacts_skip_deleted_accounts() {
    let users = vec![user(1, Some("A"), None, None, None), deleted(2), UserRecord::Empty, user(3, None, None, Some("c"), None)];
    let es = contacts_to_entries(&users);
    assert_eq!(names(&es), vec!["A", "c"]);
    assert_eq!(es[1].id, 3);
}

#[test]
fn deleted_topics_are_dropped() {
    let list = vec![
        TopicRecord::Topic { id: 1, title: "General".to_string() },
        TopicRecord::Deleted,
        TopicRecord::Topic { id: 5, title: "Help".to_string() },
    ];
    let ts: Vec<(i64, String)> = topics_from(&list).into_iter().map(|t| (t.id, t.title)).collect();
    assert_eq!(ts, vec![(1, "General".to_string()), (5, "Help".to_string())]);
}

#[test]
fn only_forum_groups_have_topics() {
    let forum = DialogPeer { kind: PeerKind::Group, name: None, id: "-1000000000010".to_string(), username: None, raw: Some(channel(10, "S", None, false, None, true)) };
    assert_eq!(forum_input_peer(&forum), Some(InputPeerRef::Channel { channel_id: 10, access_hash: 0 }));
    let plain = DialogPeer { kind: PeerKind::Group, name: None, id: "-1".to_string(), username: None, raw: Some(channel(11, "S", None, false, Some(3), false)) };
    assert_eq!(forum_input_peer(&plain), None);
    let basic = DialogPeer { kind: PeerKind::Group, name: None, id: "-1".to_string(), username: None, raw: Some(ChatRecord::Chat { id: 1, title: "x".to_string() }) };
    assert_eq!(forum_input_peer(&basic), None);
    let chan = DialogPeer { kind: PeerKind::Channel, name: None, id: "-1".to_string(), username: None, raw: Some(channel(12, "S", None, false, Some(3), true)) };
    assert_eq!(forum_input_peer(&chan), None);
}

#[test]
fn dialogs_become_entries() {
    let p = DialogPeer { kind: PeerKind::Channel, name: Some("News".to_string()), id: "-1000000000009".to_string(), username: Some("news".to_string()), raw: None };
    let e = dialog_entry(&p, vec![Topic { id: 1, title: "t".to_string() }]);
    assert_eq!((e.name.as_str(), e.id, e.kind.as_str(), e.username.as_deref(), e.topics.len()), ("News", -1000000000009, "channel", Some("news"), 1));
    let p = DialogPeer { kind: PeerKind::User, name: None, id: "<self-user>".to_string(), username: None, raw: None };
    let e = dialog_entry(&p, vec![]);
    assert_eq!((e.name.as_str(), e.id, e.kind.as_str()), ("(no name)", 0, "user"));
    assert_eq!(peer_id_value("42"), 42);
    assert_eq!(peer_id_value("x"), 0);
}

#[test]
fn contacts_are_added_once_after_the_dialogs() {
    let merged = merge_contacts(vec![entry("A", 1), entry("B", 2)], &vec![entry("B'", 2), entry("C", 3), entry("C'", 3)]);
    assert_eq!(names(&merged), vec!["A", "B", "C"]);
}

#[test]
fn folders_resolve_listed_peers_once() {
    let main = vec![entry("A", 1), entry("G", -123)];
    let archived = vec![entry("A archived", 1), entry("Z", 26)];
    let filters = vec![
        FilterRecord::Default,
        FilterRecord::Filter {
            title: "Work".to_string(),
            pinned: vec![InputPeerRef::Chat { chat_id: 123 }],
            included: vec![
                InputPeerRef::User { user_id: 1, access_hash: 0 },
                InputPeerRef::Chat { chat_id: 123 },
                InputPeerRef::Other,
                InputPeerRef::User { user_id: 99, access_hash: 0 },
            ],
        },
        FilterRecord::Chatlist { title: "Empty".to_string(), pinned: vec![], included: vec![InputPeerRef::User { user_id: 99, access_hash: 0 }] },
        FilterRecord::Chatlist { title: "Shared".to_string(), pinned: vec![], included: vec![InputPeerRef::User { user_id: 26, access_hash: 0 }] },
    ];
    let folders = resolve_folders(&filters, &main, &archived);
    assert_eq!(folders.len(), 2);
    assert_eq!(folders[0].title, "Work");
    // The archived entry wins for an id present in both lists.
    assert_eq!(names(&folders[0].entries), vec!["G", "A archived"]);
    assert_eq!(folders[1].title, "Shared");
    assert_eq!(names(&folders[1].entries), vec!["Z"]);
}

fn dialog(peer: PeerRef, top: i32, folder: Option<i32>) -> DialogRecord {
    DialogRecord::Dialog { peer, top_message: top, folder_id: folder }
}

fn page(dialogs: Vec<DialogRecord>, messages: Vec<MessageRecord>, users: Vec<UserRecord>, chats: Vec<ChatRecord>) -> DialogsData {
    DialogsData { dialogs, messages, chats, users }
}

#[test]
fn archive_scan_pages_until_a_short_page() {
    let mut scan = ArchiveScan::new();
    let first = scan.next_request().unwrap();
    assert_eq!((first.folder_id, first.limit, first.offset_date, first.offset_id, first.offset_peer), (1, 100, 0, 0, InputPeerRef::Empty));
    // A full slice of 100 dialogs: 99 archived users and one channel.
    let mut dialogs = Vec::new();
    let mut users = Vec::new();
    for i in 1..=99 {
        dialogs.push(dialog(PeerRef::User(i), i as i32, Some(1)));
        users.push(user(i, Some("U"), None, None, Some(i * 10)));
    }
    dialogs.push(dialog(PeerRef::Channel(9), 500, Some(1)));
    let chats = vec![channel(9, "Ch", None, true, Some(42), false)];
    let messages = vec![MessageRecord::Empty, MessageRecord::Service { id: 500, date: 1700 }, MessageRecord::Message { id: 500, date: 1 }];
    scan.feed(DialogsPage::Slice(page(dialogs, messages, users, chats)));
    let next = scan.next_request().unwrap();
    assert_eq!((next.offset_id, next.offset_date, next.offset_peer), (500, 1700, InputPeerRef::Channel { channel_id: 9, access_hash: 42 }));
    assert!(!scan.finished());
    // A short page ends the scan; repeats, other folders and unknown peers are skipped.
    let dialogs = vec![
        dialog(PeerRef::User(1), 1, Some(1)),
        dialog(PeerRef::User(200), 2, None),
        dialog(PeerRef::User(300), 3, Some(1)),
        dialog(PeerRef::Chat(7), 4, Some(1)),
        DialogRecord::Other,
    ];
    let chats = vec![ChatRecord::Chat { id: 7, title: "G".to_string() }];
    scan.feed(DialogsPage::Slice(page(dialogs, vec![], vec![], chats)));
    assert!(scan.finished());
    assert!(scan.next_request().is_none());
    let entries = scan.into_entries();
    assert_eq!(entries.len(), 101);
    assert_eq!(entries[99].name, "Ch");
    assert_eq!(entries[99].id, -1000000000009);
    assert_eq!(entries[100].name, "G");
    assert_eq!(entries[100].id, -7);
}

#[test]
fn archive_scan_stops_on_failure_empty_page_or_no_progress() {
    let mut scan = ArchiveScan::new();
    scan.feed(DialogsPage::Failed);
    assert!(scan.next_request().is_none());

    let mut scan = ArchiveScan::new();
    scan.feed(DialogsPage::Complete(page(vec![], vec![], vec![], vec![])));
    assert!(scan.next_request().is_none());

    // A complete answer is never followed by another request.
    let mut scan = ArchiveScan::new();
    scan.feed(DialogsPage::Complete(page(vec![dialog(PeerRef::User(1), 1, Some(1))], vec![], vec![user(1, Some("A"), None, None, None)], vec![])));
    assert!(scan.next_request().is_none());
    assert_eq!(names(&scan.into_entries()), vec!["A"]);

    // A full slice that adds nothing new stops the scan.
    let mut scan = ArchiveScan::new();
    let dialogs: Vec<DialogRecord> = (0..100).map(|i| dialog(PeerRef::User(1), i, Some(1))).collect();
    scan.feed(DialogsPage::Slice(page(dialogs.clone(), vec![], vec![user(1, Some("A"), None, None, None)], vec![])));
    assert!(scan.next_request().is_some());
    scan.feed(DialogsPage::Slice(page(dialogs, vec![], vec![user(1, Some("A"), None, None, None)], vec![])));
    assert!(scan.next_request().is_none());
}

#[test]
fn archive_scan_asks_for_at_most_fifty_pages() {
    let mut scan = ArchiveScan::new();
    let mut asked = 0;
    let mut next_id: i64 = 1;
    while scan.next_request().is_some() {
        asked += 1;
        let mut dialogs = Vec::new();
        let mut users = Vec::new();
        for _ in 0..100 {
            dialogs.push(dialog(PeerRef::User(next_id), 1, Some(1)));
            users.push(user(next_id, Some("U"), None, None, None));
            next_id += 1;
        }
        scan.feed(DialogsPage::Slice(page(dialogs, vec![], users, vec![])));
    }
    assert_eq!(asked, 50);
    assert!(!scan.finished());
    assert_eq!(scan.into_entries().len(), 5000);
}

#[test]
fn out_of_range_ids_elsewhere_do_not_matter() {
    let users = vec![user(5, Some("Eve"), None, None, None)];
    let chats = vec![ChatRecord::Chat { id: i64::MIN, title: "Odd".to_string() }];
    let e = build_peer_entry(&PeerRef::User(5), &users, &chats).unwrap();
    assert_eq!((e.name.as_str(), e.id), ("Eve", 5));

    let mut scan = ArchiveScan::new();
    let dialogs = vec![
        dialog(PeerRef::Channel(i64::MAX), 1, None),
        dialog(PeerRef::User(5), 2, Some(1)),
    ];
    scan.feed(DialogsPage::Complete(page(dialogs, vec![], users, chats)));
    assert_eq!(names(&scan.into_entries()), vec!["Eve"]);
}
