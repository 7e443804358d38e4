use telepad::config::{
    config_path, config_path_in, data_dir, data_dir_in, default_client, default_focus_cmd,
    join_path, avatar_path, avatars_dir, cache_path, frecency_path, placeholder_avatar_path,
    session_path, Account, Config, ConfigError,
};
use telepad::parse::{parse_i64_str, parse_usize_str};
use telepad::text::{decimal_string, join_strings, replace, str_eq};

fn account(acc: i32, label: &str, session: &str, key: &str) -> Account {
    Account {
        acc,
        label: label.to_string(),
        session: session.to_string(),
        phone: String::new(),
        switch_key: key.to_string(),
    }
}

fn config(client: &str, window_class: Option<&str>, dbus_service: Option<&str>, accounts: Vec<Account>) -> Config {
    Config {
        api_id: 12345,
        api_hash: "hash".to_string(),
        client: client.to_string(),
        window_class: window_class.map(|s| s.to_string()),
        dbus_service: dbus_service.map(|s| s.to_string()),
        focus_cmd: default_focus_cmd(),
        accounts,
    }
}

#[test]
fn decimal_renders_like_display() {
    assert_eq!(decimal_string(0), "0");
    assert_eq!(decimal_string(42), "42");
    assert_eq!(decimal_string(-7), "-7");
    assert_eq!(decimal_string(1_000_000_000_000), "1000000000000");
    assert_eq!(decimal_string(i64::MIN as i128), i64::MIN.to_string());
    assert_eq!(decimal_string(i128::MIN), i128::MIN.to_string());
    assert_eq!(decimal_string(i128::MAX), i128::MAX.to_string());
}

#[test]
fn replace_matches_std_replace() {
    for (s, p, r) in [
        ("org.telegram.desktop", ".", "/"),
        ("aaa", "aa", "b"),
        ("i3-msg [class=\"{class}\"] focus", "{class}", "TelegramDesktop"),
        ("{class}{class}", "{class}", "X"),
        ("no match", "zz", "y"),
        ("", ".", "/"),
        ("ends with {cla", "{class}", "x"),
    ] {
        assert_eq!(replace(s, p, r), s.replace(p, r), "replacing {p:?} in {s:?}");
    }
}

#[test]
fn join_and_concat_and_eq() {
    let parts = vec!["a".to_string(), "".to_string(), "c".to_string()];
    assert_eq!(join_strings(&parts, "\n"), "a\n\nc");
    assert_eq!(join_strings(&Vec::new(), "\n"), "");
    assert_eq!(telepad::text::concat("tg://", "x"), "tg://x");
    assert!(str_eq("⭐ x", "⭐ x"));
    assert!(!str_eq("a", "ab"));
}

#[test]
fn parse_numbers_like_std() {
    for s in ["0", "17", "+5", "", "+", "-", "-1", " 3", "3 ", "00012", "18446744073709551615", "18446744073709551616", "9x"] {
        assert_eq!(parse_usize_str(s), s.parse::<usize>().ok(), "usize {s:?}");
        assert_eq!(parse_i64_str(s), s.parse::<i64>().ok(), "i64 {s:?}");
    }
    for s in ["-9223372036854775808", "-9223372036854775809", "9223372036854775807", "9223372036854775808", "-1001234567890", "<self-user>"] {
        assert_eq!(parse_i64_str(s), s.parse::<i64>().ok(), "i64 {s:?}");
    }
}

#[test]
fn defaults_are_vanilla_telegram_and_i3() {
    assert_eq!(default_client(), "telegram");
    assert_eq!(default_focus_cmd(), r#"i3-msg [class="{class}"] focus"#);
}

#[test]
fn client_presets_give_service_class_and_path() {
    let c = config("telegram", None, None, vec![account(1, "P", "p", "")]);
    assert_eq!(c.dbus_service(), "org.telegram.desktop");
    assert_eq!(c.window_class(), "TelegramDesktop");
    assert_eq!(c.dbus_object_path(), "/org/telegram/desktop");
    let a = config("ayugram", None, None, vec![account(1, "P", "p", "")]);
    assert_eq!(a.dbus_service(), "com.ayugram.desktop");
    assert_eq!(a.window_class(), "AyuGramDesktop");
    assert_eq!(a.dbus_object_path(), "/com/ayugram/desktop");
}

#[test]
fn overrides_win_over_presets() {
    let c = config("ayugram", Some("MyClass"), Some("org.fork.desk"), vec![account(1, "P", "p", "")]);
    assert_eq!(c.window_class(), "MyClass");
    assert_eq!(c.dbus_service(), "org.fork.desk");
    assert_eq!(c.dbus_object_path(), "/org/fork/desk");
    let unknown = config("fork", None, None, vec![account(1, "P", "p", "")]);
    assert_eq!(unknown.window_class(), "");
    assert_eq!(unknown.dbus_service(), "");
    assert_eq!(unknown.dbus_object_path(), "/");
}

#[test]
fn validate_refuses_missing_accounts_and_unknown_client() {
    assert_eq!(config("telegram", None, None, vec![]).validate(), Err(ConfigError::NoAccounts));
    assert_eq!(config("fork", None, None, vec![]).validate(), Err(ConfigError::NoAccounts));
    assert_eq!(
        config("fork", Some("X"), None, vec![account(1, "P", "p", "")]).validate(),
        Err(ConfigError::UnknownClient)
    );
    assert_eq!(config("fork", None, Some("org.fork"), vec![account(1, "P", "p", "")]).validate(), Ok(()));
    assert_eq!(config("ayugram", None, None, vec![account(1, "P", "p", "")]).validate(), Ok(()));
}

#[test]
fn account_is_found_by_session_label_or_number() {
    let c = config(
        "telegram",
        None,
        None,
        vec![account(1, "Personal", "personal", "alt+1"), account(2, "Work", "work", "alt+2"), account(3, "2", "x", "")],
    );
    assert_eq!(c.account("work").unwrap().acc, 2);
    assert_eq!(c.account("Personal").unwrap().acc, 1);
    assert_eq!(c.account("1").unwrap().session, "personal");
    // "2" is account 2's number before it is account 3's label: the first match wins.
    assert_eq!(c.account("2").unwrap().session, "work");
    assert!(c.account("nobody").is_none());
    assert_eq!(c.account_index("x"), Some(2));
}

#[test]
fn sync_targets_all_one_or_none() {
    let c = config("telegram", None, None, vec![account(1, "A", "a", ""), account(2, "B", "b", "")]);
    assert_eq!(c.sync_targets("all"), Some(vec![0, 1]));
    assert_eq!(c.sync_targets("b"), Some(vec![1]));
    assert_eq!(c.sync_targets("B"), Some(vec![1]));
    assert_eq!(c.sync_targets("zzz"), None);
}

#[test]
fn path_join_follows_unix_rules() {
    assert_eq!(join_path("/home/u", "telepad"), "/home/u/telepad");
    assert_eq!(join_path("/home/u/", "telepad"), "/home/u/telepad");
    assert_eq!(join_path("", "telepad"), "telepad");
    assert_eq!(join_path("/home/u", "/etc"), "/etc");
    for (b, c) in [("/a/b", "c.json"), ("a", "b/c"), ("/", "x"), ("", ""), ("x", "")] {
        let expected = std::path::Path::new(b).join(c);
        assert_eq!(join_path(b, c), expected.to_str().unwrap());
    }
}

#[test]
fn directories_fall_back_to_the_working_directory() {
    assert_eq!(config_path_in(None), "./telepad/config.toml");
    assert_eq!(config_path_in(Some("/home/u/.config".to_string())), "/home/u/.config/telepad/config.toml");
    assert_eq!(data_dir_in(None), "./telepad");
    assert_eq!(data_dir_in(Some("/home/u/.local/share".to_string())), "/home/u/.local/share/telepad");
}

#[test]
fn files_live_under_the_data_dir() {
    let expected_data = data_dir_in(dirs::data_dir().map(|p| p.to_string_lossy().into_owned()));
    let d = data_dir();
    assert_eq!(d, expected_data);
    assert!(d.ends_with("telepad"));
    assert_eq!(config_path(), config_path_in(dirs::config_dir().map(|p| p.to_string_lossy().into_owned())));
    assert_eq!(session_path("work"), format!("{d}/work.session"));
    assert_eq!(cache_path("work"), format!("{d}/cache/work.json"));
    assert_eq!(frecency_path(), format!("{d}/frecency.json"));
    assert_eq!(avatars_dir(), format!("{d}/avatars"));
    assert_eq!(avatar_path(-1001234567890), format!("{d}/avatars/-1001234567890.jpg"));
    assert_eq!(placeholder_avatar_path(), format!("{d}/placeholder-avatar.svg"));
}

#[test]
fn one_file_per_account_and_per_avatar() {
    assert_ne!(cache_path("work"), cache_path("home"));
    assert_ne!(session_path("work"), session_path("home"));
    assert_eq!(cache_path("work"), cache_path("work"));
    let ids = [0i64, 1, 10, -10, 77, -1001234567890];
    for a in ids {
        assert_ne!(avatar_path(a), placeholder_avatar_path());
        for b in ids {
            assert_eq!(avatar_path(a) == avatar_path(b), a == b);
        }
    }
}
