//! Configuration: the accounts, the client preset, and where files live.
//! Reading and parsing `config.toml` is done by the program around the library.

use vstd::prelude::*;

use crate::text::{
    concat, decimal, decimal_string, lemma_decimal_injective, owned, push_str, replace, replace_all,
    str_eq,
};

verus! {

/// The settings of `~/.config/telepad/config.toml`.
pub struct Config {
    /// Telegram API id from https://my.telegram.org (one app is fine for all accounts).
    pub api_id: i32,
    /// Telegram API hash that pairs with `api_id`.
    pub api_hash: String,
    /// Which Telegram Desktop client to drive: "telegram" (default) or
    /// "ayugram". Selects the D-Bus service name and X11 window class.
    pub client: String,
    /// Override of the X11 window class (else derived from `client`).
    pub window_class: Option<String>,
    /// Override of the D-Bus service name (else derived from `client`).
    pub dbus_service: Option<String>,
    /// Shell command that focuses the client window; `{class}` is replaced with
    /// the window class.
    pub focus_cmd: String,
    /// Accounts to index, in the same order as the client's account switcher.
    pub accounts: Vec<Account>,
}

/// One Telegram account.
pub struct Account {
    /// 1-based position in the client's account list (kept for display/ordering).
    pub acc: i32,
    /// Human label shown in the menu (e.g. "Personal", "Work").
    pub label: String,
    /// Session file name (stored under the data dir as `<session>.session`).
    pub session: String,
    /// Phone number in international format, used only for the initial `login`.
    pub phone: String,
    /// xdotool key sequence that switches to this account in the client; empty
    /// means never switch.
    pub switch_key: String,
}

/// Why a configuration is refused.
#[derive(Debug, PartialEq, Eq, Structural)]
pub enum ConfigError {
    /// No `[[accounts]]` block.
    NoAccounts,
    /// `client` names no preset and no `dbus_service` is given.
    UnknownClient,
}

/// Built-in D-Bus service name and X11 window class for a known client.
struct ClientProfile {
    dbus_service: &'static str,
    window_class: &'static str,
}

/// The preset of a client name: its D-Bus service name and window class.
pub open spec fn client_preset(client: Seq<char>) -> Option<(Seq<char>, Seq<char>)> {
    if client == "telegram"@ {
        Some(("org.telegram.desktop"@, "TelegramDesktop"@))
    } else if client == "ayugram"@ {
        Some(("com.ayugram.desktop"@, "AyuGramDesktop"@))
    } else {
        None
    }
}

/// The client driven when the configuration names none.
pub fn default_client() -> (r: String)
    ensures
        r@ == "telegram"@,
{
    owned("telegram")
}

/// The focus command used when the configuration gives none (targets i3).
pub fn default_focus_cmd() -> (r: String)
    ensures
        r@ == "i3-msg [class=\"{class}\"] focus"@,
{
    owned("i3-msg [class=\"{class}\"] focus")
}

/// The clients that have presets. Any other TDesktop fork works by setting
/// `dbus_service` / `window_class` in the config instead.
fn client_profile(client: &str) -> (r: Option<ClientProfile>)
    ensures
        match client_preset(client@) {
            Some((d, w)) => (r matches Some(p) && p.dbus_service@ == d && p.window_class@ == w),
            None => r is None,
        },
{
    if str_eq(client, "telegram") {
        Some(ClientProfile { dbus_service: "org.telegram.desktop", window_class: "TelegramDesktop" })
    } else if str_eq(client, "ayugram") {
        Some(ClientProfile { dbus_service: "com.ayugram.desktop", window_class: "AyuGramDesktop" })
    } else {
        None
    }
}

/// Whether `key` names the account, by session, label or account number.
pub open spec fn account_matches(a: Account, key: Seq<char>) -> bool {
    a.session@ == key || a.label@ == key || decimal(a.acc as int) == key
}

/// The window class of a configuration: the override if given, else the
/// preset's, else empty.
pub open spec fn spec_window_class(client: Seq<char>, over: Option<Seq<char>>) -> Seq<char> {
    match over {
        Some(w) => w,
        None => match client_preset(client) {
            Some((_, w)) => w,
            None => Seq::empty(),
        },
    }
}

/// The D-Bus service of a configuration: the override if given, else the
/// preset's, else empty.
pub open spec fn spec_dbus_service(client: Seq<char>, over: Option<Seq<char>>) -> Seq<char> {
    match over {
        Some(d) => d,
        None => match client_preset(client) {
            Some((d, _)) => d,
            None => Seq::empty(),
        },
    }
}

/// The D-Bus object path of a service name: a leading slash, then the name
/// with each dot turned into a slash.
pub open spec fn object_path_of(service: Seq<char>) -> Seq<char> {
    seq!['/'] + replace_all(service, seq!['.'], seq!['/'])
}

impl Config {
    /// Checks a freshly read configuration: it needs at least one account, and
    /// an unknown `client` is only accepted when the D-Bus name is given
    /// explicitly.
    pub fn validate(&self) -> (r: Result<(), ConfigError>)
        ensures
            self.accounts@.len() == 0 ==> r == Err::<(), ConfigError>(ConfigError::NoAccounts),
            self.accounts@.len() > 0 && client_preset(self.client@) is None
                && self.dbus_service.deep_view() is None ==> r == Err::<(), ConfigError>(
                ConfigError::UnknownClient,
            ),
            r is Ok <==> self.accounts@.len() > 0 && (client_preset(self.client@) is Some
                || self.dbus_service.deep_view() is Some),
    {
        if self.accounts.len() == 0 {
            return Err(ConfigError::NoAccounts);
        }
        if client_profile(self.client.as_str()).is_none() && self.dbus_service.is_none() {
            return Err(ConfigError::UnknownClient);
        }
        Ok(())
    }

    /// The first account that `key` names, by session, label or account number.
    pub fn account(&self, key: &str) -> (r: Option<&Account>)
        ensures
            r is None <==> forall|i: int|
                0 <= i < self.accounts@.len() ==> !account_matches(
                    #[trigger] self.accounts@[i],
                    key@,
                ),
            r matches Some(a) ==> exists|i: int|
                0 <= i < self.accounts@.len() && *a == self.accounts@[i] && account_matches(
                    self.accounts@[i],
                    key@,
                ) && forall|j: int| 0 <= j < i ==> !account_matches(#[trigger] self.accounts@[j], key@),
    {
        match self.account_index(key) {
            Some(i) => Some(&self.accounts[i]),
            None => None,
        }
    }

    /// The position of the first account that `key` names.
    pub fn account_index(&self, key: &str) -> (r: Option<usize>)
        ensures
            r is None <==> forall|i: int|
                0 <= i < self.accounts@.len() ==> !account_matches(
                    #[trigger] self.accounts@[i],
                    key@,
                ),
            r matches Some(i) ==> i < self.accounts@.len() && account_matches(
                self.accounts@[i as int],
                key@,
            ) && forall|j: int| 0 <= j < i ==> !account_matches(#[trigger] self.accounts@[j], key@),
    {
        let n = self.accounts.len();
        for i in 0..n
            invariant
                n == self.accounts@.len(),
                forall|j: int| 0 <= j < i ==> !account_matches(#[trigger] self.accounts@[j], key@),
        {
            let a = &self.accounts[i];
            let num = decimal_string(a.acc as i128);
            if str_eq(a.session.as_str(), key) || str_eq(a.label.as_str(), key) || str_eq(
                num.as_str(),
                key,
            ) {
                return Some(i);
            }
        }
        None
    }

    /// The accounts a `sync` of `target` covers, by position: all of them for
    /// "all", else the one that `target` names; `None` if it names none.
    pub fn sync_targets(&self, target: &str) -> (r: Option<Vec<usize>>)
        ensures
            target@ == "all"@ ==> (r matches Some(v) && v@ == Seq::new(
                self.accounts@.len(),
                |i: int| i as usize,
            )),
            target@ != "all"@ ==> match r {
                Some(v) => v@.len() == 1 && v@[0] < self.accounts@.len() && account_matches(
                    self.accounts@[v@[0] as int],
                    target@,
                ) && forall|j: int|
                    0 <= j < v@[0] ==> !account_matches(#[trigger] self.accounts@[j], target@),
                None => forall|i: int|
                    0 <= i < self.accounts@.len() ==> !account_matches(
                        #[trigger] self.accounts@[i],
                        target@,
                    ),
            },
    {
        if str_eq(target, "all") {
            let mut v: Vec<usize> = Vec::new();
            let n = self.accounts.len();
            for i in 0..n
                invariant
                    n == self.accounts@.len(),
                    v@ == Seq::new(i as nat, |k: int| k as usize),
            {
                v.push(i);
                assert(v@ =~= Seq::new((i + 1) as nat, |k: int| k as usize));
            }
            Some(v)
        } else {
            match self.account_index(target) {
                Some(i) => {
                    let mut v: Vec<usize> = Vec::new();
                    v.push(i);
                    Some(v)
                },
                None => None,
            }
        }
    }

    /// X11 window class of the client, focused before injecting the switch key.
    /// The explicit `window_class` override wins; otherwise it's the `client`
    /// preset's class.
    pub fn window_class(&self) -> (r: String)
        ensures
            r@ == spec_window_class(self.client@, self.window_class.deep_view()),
    {
        match &self.window_class {
            Some(w) => w.clone(),
            None => match client_profile(self.client.as_str()) {
                Some(p) => owned(p.window_class),
                None => String::new(),
            },
        }
    }

    /// D-Bus well-known name the client owns. Override wins over the `client`
    /// preset.
    pub fn dbus_service(&self) -> (r: String)
        ensures
            r@ == spec_dbus_service(self.client@, self.dbus_service.deep_view()),
    {
        match &self.dbus_service {
            Some(d) => d.clone(),
            None => match client_profile(self.client.as_str()) {
                Some(p) => owned(p.dbus_service),
                None => String::new(),
            },
        }
    }

    /// Object path for the D-Bus service: the well-known name with dots turned
    /// into slashes and a leading slash (e.g. `org.telegram.desktop` →
    /// `/org/telegram/desktop`).
    pub fn dbus_object_path(&self) -> (r: String)
        ensures
            r@ == object_path_of(spec_dbus_service(self.client@, self.dbus_service.deep_view())),
    {
        let service = self.dbus_service();
        proof {
            reveal_strlit(".");
            reveal_strlit("/");
            assert("."@ == seq!['.']);
            assert("/"@ == seq!['/']);
        }
        let dotted = replace(service.as_str(), ".", "/");
        let r = concat("/", dotted.as_str());
        proof {
            reveal_strlit("/");
        }
        r
    }
}

// ---------------------------------------------------------------------------
// Paths
// ---------------------------------------------------------------------------

/// `base` extended by the component `comp`, as a Unix path join does: an
/// absolute component replaces the base, otherwise a `/` separates the two
/// unless the base is empty or already ends with one.
pub open spec fn path_join(base: Seq<char>, comp: Seq<char>) -> Seq<char> {
    if comp.len() > 0 && comp[0] == '/' {
        comp
    } else if base.len() == 0 || base.last() == '/' {
        base + comp
    } else {
        base + seq!['/'] + comp
    }
}

/// Joins a path component onto a base path.
pub fn join_path(base: &str, comp: &str) -> (r: String)
    ensures
        r@ == path_join(base@, comp@),
{
    let b = crate::text::chars_of(base);
    let c = crate::text::chars_of(comp);
    if c.len() > 0 && c[0] == '/' {
        owned(comp)
    } else if b.len() == 0 || b[b.len() - 1] == '/' {
        concat(base, comp)
    } else {
        let mut s = owned(base);
        crate::text::push_char(&mut s, '/');
        push_str(&mut s, comp);
        s
    }
}

/// The user's configuration directory (`dirs::config_dir`), as a string.
/// Nothing is stated of the value: it comes from the environment. A
/// directory name that is not valid UTF-8 is converted lossily.
#[verifier::external_body]
fn user_config_dir() -> Option<String> {
    dirs::config_dir().map(|p| p.to_string_lossy().into_owned())
}

/// The user's data directory (`dirs::data_dir`), as a string.
/// Nothing is stated of the value: it comes from the environment. A
/// directory name that is not valid UTF-8 is converted lossily.
#[verifier::external_body]
fn user_data_dir() -> Option<String> {
    dirs::data_dir().map(|p| p.to_string_lossy().into_owned())
}

/// The base directory, or `.` when the platform has none.
pub open spec fn base_or_here(base: Option<Seq<char>>) -> Seq<char> {
    match base {
        Some(b) => b,
        None => "."@,
    }
}

/// The configuration file under a configuration directory.
pub open spec fn config_path_from(base: Option<Seq<char>>) -> Seq<char> {
    path_join(path_join(base_or_here(base), "telepad"@), "config.toml"@)
}

/// The data directory under a user data directory.
pub open spec fn data_dir_from(base: Option<Seq<char>>) -> Seq<char> {
    path_join(base_or_here(base), "telepad"@)
}

/// Whether `d` is the data directory for some user data directory.
pub open spec fn is_data_dir(d: Seq<char>) -> bool {
    exists|base: Option<Seq<char>>| d == data_dir_from(base)
}

fn base_dir(base: Option<String>) -> (r: String)
    ensures
        r@ == base_or_here(base.deep_view()),
{
    match base {
        Some(b) => b,
        None => owned("."),
    }
}

/// The configuration file path under the given configuration directory.
pub fn config_path_in(base: Option<String>) -> (r: String)
    ensures
        r@ == config_path_from(base.deep_view()),
{
    let b = base_dir(base);
    let t = join_path(b.as_str(), "telepad");
    join_path(t.as_str(), "config.toml")
}

/// The data directory path under the given user data directory.
pub fn data_dir_in(base: Option<String>) -> (r: String)
    ensures
        r@ == data_dir_from(base.deep_view()),
{
    let b = base_dir(base);
    join_path(b.as_str(), "telepad")
}

/// Path of `config.toml` in the user's configuration directory.
pub fn config_path() -> (r: String)
    ensures
        exists|base: Option<Seq<char>>| r@ == config_path_from(base),
{
    let base = user_config_dir();
    let r = config_path_in(base);
    r
}

/// Directory holding session files and the dialog cache.
pub fn data_dir() -> (r: String)
    ensures
        is_data_dir(r@),
{
    let base = user_data_dir();
    let ghost b = base.deep_view();
    let r = data_dir_in(base);
    assert(r@ == data_dir_from(b));
    r
}

/// The session file of `session` under data directory `d`.
pub open spec fn session_file(d: Seq<char>, session: Seq<char>) -> Seq<char> {
    path_join(d, session + ".session"@)
}

/// The cache file of `session` under data directory `d`.
pub open spec fn cache_file(d: Seq<char>, session: Seq<char>) -> Seq<char> {
    path_join(path_join(d, "cache"@), session + ".json"@)
}

/// The avatar file of peer `id` under data directory `d`.
pub open spec fn avatar_file(d: Seq<char>, id: int) -> Seq<char> {
    path_join(path_join(d, "avatars"@), decimal(id) + ".jpg"@)
}

/// Session file of an account.
pub fn session_path(session: &str) -> (r: String)
    ensures
        exists|d: Seq<char>| is_data_dir(d) && r@ == session_file(d, session@),
{
    let d = data_dir();
    let name = concat(session, ".session");
    join_path(d.as_str(), name.as_str())
}

/// Dialog cache file of an account.
pub fn cache_path(session: &str) -> (r: String)
    ensures
        exists|d: Seq<char>| is_data_dir(d) && r@ == cache_file(d, session@),
{
    let d = data_dir();
    let c = join_path(d.as_str(), "cache");
    let name = concat(session, ".json");
    join_path(c.as_str(), name.as_str())
}

/// The frecency store file.
pub fn frecency_path() -> (r: String)
    ensures
        exists|d: Seq<char>| is_data_dir(d) && r@ == path_join(d, "frecency.json"@),
{
    let d = data_dir();
    join_path(d.as_str(), "frecency.json")
}

/// Directory holding cached profile photos.
pub fn avatars_dir() -> (r: String)
    ensures
        exists|d: Seq<char>| is_data_dir(d) && r@ == path_join(d, "avatars"@),
{
    let d = data_dir();
    join_path(d.as_str(), "avatars")
}

/// Cached profile photo for a peer.
pub fn avatar_path(id: i64) -> (r: String)
    ensures
        exists|d: Seq<char>| is_data_dir(d) && r@ == avatar_file(d, id as int),
{
    let d = data_dir();
    let a = join_path(d.as_str(), "avatars");
    let mut name = decimal_string(id as i128);
    push_str(&mut name, ".jpg");
    join_path(a.as_str(), name.as_str())
}

/// Generic fallback icon shown for rows without a cached avatar.
pub fn placeholder_avatar_path() -> (r: String)
    ensures
        exists|d: Seq<char>| is_data_dir(d) && r@ == path_join(d, "placeholder-avatar.svg"@),
{
    let d = data_dir();
    join_path(d.as_str(), "placeholder-avatar.svg")
}

// ---------------------------------------------------------------------------
// Laws of the paths
// ---------------------------------------------------------------------------

/// What a relative component is appended to: the base, with a `/` added
/// unless it is empty or already ends with one.
pub open spec fn join_base(base: Seq<char>) -> Seq<char> {
    if base.len() == 0 || base.last() == '/' {
        base
    } else {
        base + seq!['/']
    }
}

proof fn lemma_join_relative(base: Seq<char>, comp: Seq<char>)
    requires
        comp.len() > 0,
        comp[0] != '/',
    ensures
        path_join(base, comp) == join_base(base) + comp,
{
}

proof fn lemma_prefix_cancel(b: Seq<char>, x: Seq<char>, y: Seq<char>)
    requires
        b + x == b + y,
    ensures
        x == y,
{
    assert((b + x).skip(b.len() as int) =~= x);
    assert((b + y).skip(b.len() as int) =~= y);
}

proof fn lemma_suffix_cancel(x: Seq<char>, y: Seq<char>, t: Seq<char>)
    requires
        x + t == y + t,
    ensures
        x == y,
{
    assert((x + t).len() == (y + t).len());
    assert((x + t).take(x.len() as int) =~= x);
    assert((y + t).take(y.len() as int) =~= y);
}

/// Whether a name holds no path separator.
pub open spec fn plain_name(s: Seq<char>) -> bool {
    !s.contains('/')
}

/// One file per account: under one data directory, sessions named without a
/// `/` have their session file and their cache file directly under the data
/// directory and its `cache` directory, and two such sessions share a
/// session file, or a cache file, only if they are the same session.
pub proof fn lemma_one_file_per_account(d: Seq<char>, s1: Seq<char>, s2: Seq<char>)
    requires
        plain_name(s1),
        plain_name(s2),
    ensures
        session_file(d, s1) == join_base(d) + s1 + ".session"@,
        cache_file(d, s1) == join_base(d) + "cache/"@ + s1 + ".json"@,
        session_file(d, s1) == session_file(d, s2) <==> s1 == s2,
        cache_file(d, s1) == cache_file(d, s2) <==> s1 == s2,
{
    reveal_strlit(".session");
    reveal_strlit(".json");
    reveal_strlit("cache");
    reveal_strlit("cache/");
    let c1 = s1 + ".session"@;
    let c2 = s2 + ".session"@;
    assert(c1[0] != '/') by {
        if s1.len() > 0 {
            assert(c1[0] == s1[0]);
        }
    }
    assert(c2[0] != '/') by {
        if s2.len() > 0 {
            assert(c2[0] == s2[0]);
        }
    }
    lemma_join_relative(d, c1);
    lemma_join_relative(d, c2);
    assert(session_file(d, s1) =~= join_base(d) + s1 + ".session"@);
    let j1 = s1 + ".json"@;
    let j2 = s2 + ".json"@;
    assert(j1[0] != '/') by {
        if s1.len() > 0 {
            assert(j1[0] == s1[0]);
        }
    }
    assert(j2[0] != '/') by {
        if s2.len() > 0 {
            assert(j2[0] == s2[0]);
        }
    }
    lemma_join_relative(d, "cache"@);
    let cd = join_base(d) + "cache"@;
    assert(join_base(cd) =~= join_base(d) + "cache/"@);
    lemma_join_relative(cd, j1);
    lemma_join_relative(cd, j2);
    assert(cache_file(d, s1) =~= join_base(d) + "cache/"@ + s1 + ".json"@);
    if session_file(d, s1) == session_file(d, s2) {
        lemma_prefix_cancel(join_base(d), c1, c2);
        lemma_suffix_cancel(s1, s2, ".session"@);
    }
    if cache_file(d, s1) == cache_file(d, s2) {
        lemma_prefix_cancel(join_base(cd), j1, j2);
        lemma_suffix_cancel(s1, s2, ".json"@);
    }
}

/// Under one data directory, each peer's avatar has a file of its own, in
/// the `avatars` directory, and no avatar file is the placeholder picture.
pub proof fn lemma_avatar_files_distinct(d: Seq<char>, id1: int, id2: int)
    ensures
        avatar_file(d, id1) == join_base(d) + "avatars/"@ + decimal(id1) + ".jpg"@,
        avatar_file(d, id1) == avatar_file(d, id2) <==> id1 == id2,
        avatar_file(d, id1) != path_join(d, "placeholder-avatar.svg"@),
{
    reveal_strlit("avatars");
    reveal_strlit("avatars/");
    reveal_strlit(".jpg");
    reveal_strlit("placeholder-avatar.svg");
    lemma_join_relative(d, "avatars"@);
    let ad = join_base(d) + "avatars"@;
    assert(join_base(ad) =~= join_base(d) + "avatars/"@);
    let n1 = decimal(id1) + ".jpg"@;
    let n2 = decimal(id2) + ".jpg"@;
    lemma_decimal_starts(id1);
    lemma_decimal_starts(id2);
    assert(n1[0] == decimal(id1)[0]);
    assert(n2[0] == decimal(id2)[0]);
    lemma_join_relative(ad, n1);
    lemma_join_relative(ad, n2);
    assert(avatar_file(d, id1) =~= join_base(d) + "avatars/"@ + decimal(id1) + ".jpg"@);
    assert(avatar_file(d, id2) =~= join_base(d) + "avatars/"@ + decimal(id2) + ".jpg"@);
    if avatar_file(d, id1) == avatar_file(d, id2) {
        lemma_prefix_cancel(join_base(ad), n1, n2);
        lemma_suffix_cancel(decimal(id1), decimal(id2), ".jpg"@);
        lemma_decimal_injective(id1, id2);
    }
    lemma_join_relative(d, "placeholder-avatar.svg"@);
    let b = join_base(d);
    let ph = b + "placeholder-avatar.svg"@;
    let av = b + "avatars/"@ + decimal(id1) + ".jpg"@;
    assert(av[b.len() as int] == 'a');
    assert(ph[b.len() as int] == 'p');
}

/// A decimal rendering is not empty and starts with `-` or a digit.
proof fn lemma_decimal_starts(n: int)
    ensures
        decimal(n).len() > 0,
        decimal(n)[0] != '/',
{
    crate::text::lemma_decimal_shape(n);
}

} // verus!
