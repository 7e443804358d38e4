use telepad::cache::{AccountCache, Entry, Folder, Topic};
use telepad::cli::{parse_command, Command, CommandError};
use telepad::config::Account;
use telepad::login::{login_step, LoginAction, LoginEvent, LoginState};
use telepad::menu::{
    account_rows, answer, badge, build_rows, entry_line, handle, icon_line, open_entry, row_icon,
    select, Icon, Pending, Row, Step, Target,
};
use telepad::rofi::{menu_input, parse_pick};

fn entry(name: &str, username: Option<&str>, id: i64, kind: &str) -> Entry {
    Entry {
        name: name.to_string(),
        username: username.map(|s| s.to_string()),
        id,
        kind: kind.to_string(),
        topics: Vec::new(),
    }
}

fn forum() -> Entry {
    let mut e = entry("Rustaceans", None, -1001234567890, "group");
    e.topics.push(Topic { id: 1, title: "General".to_string() });
    e.topics.push(Topic { id: 9, title: "Help".to_string() });
    e
}

fn account(label: &str, key: &str) -> Account {
    Account {
        acc: 1,
        label: label.to_string(),
        session: label.to_lowercase(),
        phone: String::new(),
        switch_key: key.to_string(),
    }
}

fn cache() -> AccountCache {
    AccountCache {
        acc: 1,
        label: "Work".to_string(),
        me_id: 77,
        me_username: Some("me".to_string()),
        entries: vec![
            entry("Alice", Some("alice"), 10, "user"),
            entry("Me", Some("me"), 77, "user"),
            forum(),
            entry("News", None, -1009, "channel"),
        ],
        archived: vec![entry("Old", None, 11, "user")],
        folders: vec![Folder { title: "Team".to_string(), entries: vec![entry("Alice", Some("alice"), 10, "user")] }],
    }
}

fn lines(rows: &[Row]) -> Vec<String> {
    rows.iter().map(|r| r.line.clone()).collect()
}

#[test]
fn handles_and_badges() {
    assert_eq!(handle(&entry("A", Some("a"), 1, "user")), "  ·  @a");
    assert_eq!(handle(&entry("A", None, 1, "user")), "");
    assert_eq!(badge(&entry("A", None, 1, "user")), "dm");
    assert_eq!(badge(&entry("A", None, 1, "channel")), "channel");
    assert_eq!(badge(&entry("A", None, 1, "group")), "group");
    assert_eq!(badge(&entry("A", None, 1, "other")), "group");
    assert_eq!(badge(&forum()), "forum ▸");
    assert_eq!(entry_line(&entry("Alice", Some("alice"), 10, "user")), "Alice  ·  @alice  ·  dm");
}

#[test]
fn account_rows_list_saved_messages_chats_topics_folders_and_archive() {
    let rows = account_rows(&account("Work", "alt+2"), &cache());
    assert_eq!(
        lines(&rows),
        vec![
            "[Work] ⭐ Saved Messages",
            "[Work] Alice  ·  @alice  ·  dm",
            "[Work] Rustaceans  ·  forum ▸",
            "[Work] Rustaceans ▸ General  ·  topic",
            "[Work] Rustaceans ▸ Help  ·  topic",
            "[Work] News  ·  channel",
            "[Work] 📁 Team  ·  1 ▸",
            "[Work] 🗄 Archived  ·  1 ▸",
        ]
    );
    let ids: Vec<Option<i64>> = rows.iter().map(|r| r.id).collect();
    assert_eq!(ids, vec![Some(77), Some(10), Some(-1001234567890), Some(-1001234567890), Some(-1001234567890), Some(-1009), None, None]);
    match &rows[0].target {
        Target::Chat { switch_key, entry } => {
            assert_eq!(switch_key, "alt+2");
            assert_eq!(entry.name, "Saved Messages");
            assert_eq!(entry.username.as_deref(), Some("me"));
            assert_eq!(entry.kind, "user");
            assert_eq!(entry.id, 77);
        }
        _ => panic!("first row is the Saved Messages chat"),
    }
    match &rows[3].target {
        Target::Topic { topic_id, entry, .. } => {
            assert_eq!(*topic_id, 1);
            assert_eq!(entry.name, "Rustaceans");
        }
        _ => panic!("a topic row"),
    }
}

#[test]
fn unknown_self_id_omits_saved_messages() {
    let mut c = cache();
    c.me_id = 0;
    c.archived.clear();
    c.folders.clear();
    let rows = account_rows(&account("Work", ""), &c);
    assert_eq!(rows[0].line, "[Work] Alice  ·  @alice  ·  dm");
    assert_eq!(rows.len(), 6);
}

#[test]
fn build_rows_skips_accounts_without_a_cache() {
    let accounts = vec![account("Home", "alt+1"), account("Work", "alt+2")];
    let rows = build_rows(&accounts, &vec![None, Some(cache())]);
    assert_eq!(rows.len(), 8);
    assert!(rows.iter().all(|r| r.line.starts_with("[Work] ")));
    let none = build_rows(&accounts, &vec![None, None]);
    assert!(none.is_empty());
}

#[test]
fn choosing_a_plain_chat_jumps_and_records_the_visit() {
    match open_entry("alt+2".to_string(), entry("Bob", None, 42, "user")) {
        Step::Jump { switch_key, url, visit } => {
            assert_eq!(switch_key, "alt+2");
            assert_eq!(url, "tg://chat?id=42");
            assert_eq!(visit, 42);
        }
        _ => panic!("a plain chat jumps directly"),
    }
}

#[test]
fn choosing_a_forum_offers_its_topics_first() {
    let step = select(Target::Chat { switch_key: "k".to_string(), entry: forum() });
    let pending = match step {
        Step::Menu { prompt, lines, pending } => {
            assert_eq!(prompt, "Rustaceans ▸ topic");
            assert_eq!(lines, vec!["↩  open group (no topic)", "General", "Help"]);
            pending
        }
        _ => panic!("a forum opens its topic submenu"),
    };
    match answer(pending, Some(2)) {
        Step::Jump { url, visit, .. } => {
            assert_eq!(url, "tg://privatepost?channel=1234567890&topic=9");
            assert_eq!(visit, -1001234567890);
        }
        _ => panic!("a topic jumps"),
    }
    let pending = Pending::Topics { switch_key: "k".to_string(), entry: forum() };
    match answer(pending, Some(0)) {
        Step::Jump { url, .. } => assert_eq!(url, "tg://privatepost?channel=1234567890"),
        _ => panic!("the whole group jumps"),
    }
    let pending = Pending::Topics { switch_key: "k".to_string(), entry: forum() };
    assert!(matches!(answer(pending, None), Step::Done));
}

#[test]
fn a_topic_row_jumps_straight_to_its_topic() {
    match select(Target::Topic { switch_key: "k".to_string(), entry: forum(), topic_id: 1 }) {
        Step::Jump { url, visit, switch_key } => {
            assert_eq!(url, "tg://privatepost?channel=1234567890&topic=1");
            assert_eq!(visit, -1001234567890);
            assert_eq!(switch_key, "k");
        }
        _ => panic!("topic rows jump"),
    }
}

#[test]
fn the_archive_submenu_opens_the_folder_or_a_chat() {
    let target = Target::Archive {
        switch_key: "alt+1".to_string(),
        label: "Home".to_string(),
        entries: vec![entry("Old", Some("old"), 11, "user"), forum()],
    };
    let pending = match select(target) {
        Step::Menu { prompt, lines, pending } => {
            assert_eq!(prompt, "Home ▸ archived");
            assert_eq!(lines, vec!["🗄 Open Archive folder in AyuGram", "Old  ·  @old  ·  dm", "Rustaceans  ·  forum ▸"]);
            pending
        }
        _ => panic!("the archive opens a submenu"),
    };
    match answer(pending, Some(0)) {
        Step::OpenArchive { switch_key } => assert_eq!(switch_key, "alt+1"),
        _ => panic!("line 0 opens the archive folder"),
    }
    let pending = Pending::Archived { switch_key: "alt+1".to_string(), entries: vec![entry("Old", Some("old"), 11, "user"), forum()] };
    match answer(pending, Some(1)) {
        Step::Jump { url, visit, .. } => {
            assert_eq!(url, "tg://resolve?domain=old");
            assert_eq!(visit, 11);
        }
        _ => panic!("line 1 opens the first archived chat"),
    }
    let pending = Pending::Archived { switch_key: "alt+1".to_string(), entries: vec![entry("Old", Some("old"), 11, "user"), forum()] };
    assert!(matches!(answer(pending, Some(2)), Step::Menu { .. }));
}

#[test]
fn a_folder_submenu_lists_its_chats() {
    let target = Target::Folder {
        switch_key: "".to_string(),
        title: "Team".to_string(),
        entries: vec![entry("Alice", Some("alice"), 10, "user")],
    };
    let pending = match select(target) {
        Step::Menu { prompt, lines, pending } => {
            assert_eq!(prompt, "📁 Team");
            assert_eq!(lines, vec!["Alice  ·  @alice  ·  dm"]);
            pending
        }
        _ => panic!("a folder opens a submenu"),
    };
    match answer(pending, Some(0)) {
        Step::Jump { url, .. } => assert_eq!(url, "tg://resolve?domain=alice"),
        _ => panic!("line 0 is the first chat"),
    }
}

#[test]
fn icons_only_once_some_avatar_exists() {
    assert_eq!(row_icon(Some(5), false, false), Icon::Plain);
    assert_eq!(row_icon(Some(5), true, true), Icon::Avatar(5));
    assert_eq!(row_icon(Some(5), false, true), Icon::Placeholder);
    assert_eq!(row_icon(None, false, true), Icon::Placeholder);
    assert_eq!(icon_line("[W] A", "/x/5.jpg"), "[W] A\0icon\u{1f}/x/5.jpg");
}

#[test]
fn rofi_input_and_answer() {
    assert_eq!(menu_input(&vec!["a".to_string(), "b".to_string()]), "a\nb");
    assert_eq!(parse_pick("3\n"), Some(3));
    assert_eq!(parse_pick("  12 \n"), Some(12));
    assert_eq!(parse_pick(""), None);
    assert_eq!(parse_pick("\n"), None);
    assert_eq!(parse_pick("+4"), Some(4));
    assert_eq!(parse_pick("-1"), None);
    assert_eq!(parse_pick("x"), None);
    assert_eq!(parse_pick("\u{3000}7\u{a0}"), Some(7));
    assert_eq!(parse_pick("99999999999999999999999"), None);
}

#[test]
fn command_line_forms() {
    let args = |v: &[&str]| v.iter().map(|s| s.to_string()).collect::<Vec<String>>();
    assert!(matches!(parse_command(&args(&[])), Ok(Command::Menu)));
    assert!(matches!(parse_command(&args(&["menu", "x"])), Ok(Command::Menu)));
    match parse_command(&args(&["login", "work"])) {
        Ok(Command::Login { key }) => assert_eq!(key, "work"),
        _ => panic!("login with an account"),
    }
    assert!(matches!(parse_command(&args(&["login"])), Err(CommandError::LoginNeedsAccount)));
    match parse_command(&args(&["sync"])) {
        Ok(Command::Sync { target, avatars }) => {
            assert_eq!(target, "all");
            assert!(!avatars);
        }
        _ => panic!("plain sync"),
    }
    match parse_command(&args(&["sync", "--avatars", "work"])) {
        Ok(Command::Sync { target, avatars }) => {
            assert_eq!(target, "work");
            assert!(avatars);
        }
        _ => panic!("sync with avatars"),
    }
    match parse_command(&args(&["frobnicate"])) {
        Err(CommandError::Unknown(c)) => assert_eq!(c, "frobnicate"),
        _ => panic!("unknown command"),
    }
}

#[test]
fn login_steps_in_order() {
    let (s, a) = login_step(LoginState::Begin, LoginEvent::Start { has_phone: false });
    assert_eq!((s, a), (LoginState::Finished, LoginAction::RejectNoPhone));
    let (s, a) = login_step(LoginState::Begin, LoginEvent::Start { has_phone: true });
    assert_eq!(a, LoginAction::CheckAuthorization);
    assert_eq!(login_step(s, LoginEvent::Authorized(true)), (LoginState::Finished, LoginAction::ReportAlreadyLoggedIn));
    let (s, a) = login_step(s, LoginEvent::Authorized(false));
    assert_eq!(a, LoginAction::RequestCode);
    let (s, a) = login_step(s, LoginEvent::CodeSent);
    assert_eq!(a, LoginAction::PromptCode);
    assert_eq!(login_step(s, LoginEvent::SignedIn), (LoginState::Finished, LoginAction::ReportLoggedIn));
    assert_eq!(login_step(s, LoginEvent::SignInFailed), (LoginState::Finished, LoginAction::FailSignIn));
    let (s, a) = login_step(s, LoginEvent::PasswordRequired);
    assert_eq!(a, LoginAction::PromptPassword);
    assert_eq!(login_step(s, LoginEvent::PasswordAccepted), (LoginState::Finished, LoginAction::ReportLoggedInWithPassword));
    assert_eq!(login_step(s, LoginEvent::PasswordRejected), (LoginState::Finished, LoginAction::FailPassword));
    assert_eq!(login_step(LoginState::Finished, LoginEvent::CodeSent), (LoginState::Finished, LoginAction::Ignore));
}


#[test]
fn every_row_is_tagged_and_switches_to_its_account() {
    let rows = account_rows(&account("Work", "alt+2"), &cache());
    assert!(!rows.is_empty());
    for r in &rows {
        assert!(r.line.starts_with("[Work] "), "{}", r.line);
        let key = match &r.target {
            Target::Chat { switch_key, .. }
            | Target::Topic { switch_key, .. }
            | Target::Archive { switch_key, .. }
            | Target::Folder { switch_key, .. } => switch_key.clone(),
        };
        assert_eq!(key, "alt+2");
    }
}

#[test]
fn submenus_show_as_many_lines_as_they_accept() {
    let archive = Target::Archive {
        switch_key: "alt+1".to_string(),
        label: "Home".to_string(),
        entries: vec![entry("Old", None, 11, "user"), forum()],
    };
    match select(archive) {
        Step::Menu { lines, pending, .. } => {
            assert_eq!(lines.len(), 3);
            let next = answer(pending, Some(2));
            match next {
                Step::Menu { lines, .. } => assert_eq!(lines.len(), 3),
                _ => panic!("the forum offers its topics"),
            }
        }
        _ => panic!("the archive opens a submenu"),
    }
    match open_entry("k".to_string(), forum()) {
        Step::Menu { lines, .. } => assert_eq!(lines.len(), forum().topics.len() + 1),
        _ => panic!("a forum offers its topics"),
    }
}
