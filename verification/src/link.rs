//! `tg://` deep links for cached chats, and the key presses that switch
//! accounts. Delivering a link over D-Bus and pressing the keys is done by the
//! program around the library.

use vstd::prelude::*;

use crate::cache::{Entry, EntryView};
use crate::text::{decimal, decimal_string, owned, push_decimal, push_str, replace, replace_all, views};

verus! {

/// Peer-type tag of a legacy basic group in tdesktop's packed `PeerId`
/// (shift 1 in bits 48..56).
pub const CHAT_SHIFT: u64 = 0x1_0000_0000_0000;

/// Peer-type tag of a channel or supergroup in tdesktop's packed `PeerId`
/// (shift 2 in bits 48..56).
pub const CHANNEL_SHIFT: u64 = 0x2_0000_0000_0000;

/// Offset of channel ids in Bot-API form: a channel's id is -(10^12 + bare).
pub const CHANNEL_OFFSET: i64 = 1_000_000_000_000;

/// tdesktop's internal `PeerId` for a Bot-API style id: users keep their id,
/// basic groups (-bare) and channels (-(10^12 + bare)) get their bare id with
/// the type tag or-ed in.
pub open spec fn spec_peer_id(bot_id: i64) -> u64 {
    if bot_id >= 0 {
        bot_id as u64
    } else if bot_id <= -CHANNEL_OFFSET {
        ((-bot_id - CHANNEL_OFFSET) as u64) | CHANNEL_SHIFT
    } else {
        ((-bot_id) as u64) | CHAT_SHIFT
    }
}

/// The bare channel id of a Bot-API channel id, -id - 10^12.
pub open spec fn raw_channel(id: i64) -> int {
    -id - CHANNEL_OFFSET
}

/// The `tg://` URL that opens an entry in the active account: the public
/// `@username` if there is one, else `privatepost` for a channel/supergroup,
/// else `chat?id=` with the packed peer id.
pub open spec fn spec_build(e: EntryView) -> Seq<char> {
    match e.username {
        Some(u) => "tg://resolve?domain="@ + u,
        None => if e.id <= -CHANNEL_OFFSET {
            "tg://privatepost?channel="@ + decimal(raw_channel(e.id))
        } else {
            "tg://chat?id="@ + decimal(spec_peer_id(e.id) as int)
        },
    }
}

/// The `tg://` URL that opens forum topic `topic_id` of an entry.
pub open spec fn spec_build_topic(e: EntryView, topic_id: i64) -> Seq<char> {
    match e.username {
        Some(u) => "tg://resolve?domain="@ + u + "&topic="@ + decimal(topic_id as int),
        None => "tg://privatepost?channel="@ + decimal(raw_channel(e.id)) + "&topic="@ + decimal(
            topic_id as int,
        ),
    }
}

/// Convert a Bot-API style id (as stored in the cache) to tdesktop's internal
/// `PeerId` value expected by the `tg://chat?id=` handler.
pub fn tdesktop_peer_id(bot_id: i64) -> (r: u64)
    ensures
        r == spec_peer_id(bot_id),
{
    if bot_id >= 0 {
        bot_id as u64
    } else if bot_id <= -CHANNEL_OFFSET {
        let bare = (-(bot_id + CHANNEL_OFFSET)) as u64;
        bare | CHANNEL_SHIFT
    } else {
        let bare = (-bot_id) as u64;
        bare | CHAT_SHIFT
    }
}

/// The bare channel id -id - 10^12, computed without overflow.
fn raw_channel_id(id: i64) -> (r: i128)
    ensures
        r == raw_channel(id),
{
    -(id as i128) - (CHANNEL_OFFSET as i128)
}

/// Build the `tg://` URL to open `entry` in the *currently active* account.
///
/// - Public peer → `resolve?domain=`.
/// - Username-less channel/supergroup → `privatepost?channel=<raw>`, which
///   resolves the channel even when the client hasn't loaded it.
/// - Username-less user / legacy basic group → `chat?id=<packed PeerId>`.
pub fn build(entry: &Entry) -> (r: String)
    ensures
        r@ == spec_build(entry@),
{
    match &entry.username {
        Some(username) => {
            let mut s = owned("tg://resolve?domain=");
            push_str(&mut s, username.as_str());
            s
        },
        None => {
            if entry.id <= -CHANNEL_OFFSET {
                let mut s = owned("tg://privatepost?channel=");
                push_decimal(&mut s, raw_channel_id(entry.id));
                s
            } else {
                let mut s = owned("tg://chat?id=");
                push_decimal(&mut s, tdesktop_peer_id(entry.id) as i128);
                s
            }
        },
    }
}

/// Build the URL to open a specific forum `topic_id` within `entry`: by
/// `@username` for a public forum, else by `privatepost` with the bare
/// channel id.
pub fn build_topic(entry: &Entry, topic_id: i64) -> (r: String)
    ensures
        r@ == spec_build_topic(entry@, topic_id),
{
    let mut s = match &entry.username {
        Some(username) => {
            let mut s = owned("tg://resolve?domain=");
            push_str(&mut s, username.as_str());
            s
        },
        None => {
            let mut s = owned("tg://privatepost?channel=");
            push_decimal(&mut s, raw_channel_id(entry.id));
            s
        },
    };
    push_str(&mut s, "&topic=");
    push_decimal(&mut s, topic_id as i128);
    s
}

/// The key presses that drive the client: first run `focus` (the focus
/// command with `{class}` filled in), then send each key in order.
pub struct KeyPlan {
    pub focus: String,
    pub keys: Vec<String>,
}

/// The focus command with every `{class}` replaced by the window class.
pub open spec fn focus_command(focus_cmd: Seq<char>, window_class: Seq<char>) -> Seq<char> {
    replace_all(focus_cmd, "{class}"@, window_class)
}

fn fill_focus(focus_cmd: &str, window_class: &str) -> (r: String)
    ensures
        r@ == focus_command(focus_cmd@, window_class@),
{
    proof {
        reveal_strlit("{class}");
    }
    replace(focus_cmd, "{class}", window_class)
}

/// Switch to an account by focusing the client and pressing the
/// user-configured key (e.g. "alt+1"). Nothing to do (`None`) if `key` is
/// empty.
pub fn switch_account(key: &str, focus_cmd: &str, window_class: &str) -> (r: Option<KeyPlan>)
    ensures
        r is None <==> key@.len() == 0,
        r matches Some(p) ==> p.focus@ == focus_command(focus_cmd@, window_class@) && views(
            p.keys@,
        ) == seq![key@],
{
    if key.is_empty() {
        return None;
    }
    let mut keys: Vec<String> = Vec::new();
    keys.push(owned(key));
    assert(views(keys@) =~= seq![key@]);
    Some(KeyPlan { focus: fill_focus(focus_cmd, window_class), keys })
}

/// The keys that open the archive folder view: the account's switch key (if
/// set), then Ctrl+9 (the client's `ShowArchive` shortcut).
pub open spec fn archive_keys(switch_key: Seq<char>) -> Seq<Seq<char>> {
    if switch_key.len() == 0 {
        seq!["ctrl+9"@]
    } else {
        seq![switch_key, "ctrl+9"@]
    }
}

/// Open the client's archive folder view: switch to the account (if a key is
/// set), then press Ctrl+9. There's no `tg://` for the archive folder.
pub fn open_archive(switch_key: &str, focus_cmd: &str, window_class: &str) -> (r: KeyPlan)
    ensures
        r.focus@ == focus_command(focus_cmd@, window_class@),
        views(r.keys@) == archive_keys(switch_key@),
{
    let mut keys: Vec<String> = Vec::new();
    if !switch_key.is_empty() {
        keys.push(owned(switch_key));
    }
    keys.push(owned("ctrl+9"));
    assert(views(keys@) =~= archive_keys(switch_key@));
    KeyPlan { focus: fill_focus(focus_cmd, window_class), keys }
}

/// The packed peer id keeps the peer's kind and bare id apart: for a bare id
/// below 10^12 (the range of basic-group ids), the bits from 48 up name the kind (0 user, 1 basic group,
/// 2 channel) and the bits below 48 are the bare id.
pub proof fn lemma_peer_id_packs_kind(bare: u64)
    requires
        0 < bare < CHANNEL_OFFSET,
    ensures
        ({
            let user = bare as i64;
            let group = (-(bare as int)) as i64;
            let channel = (-(CHANNEL_OFFSET + bare as int)) as i64;
            &&& spec_peer_id(user) >> 48u64 == 0
            &&& spec_peer_id(user) & 0xffff_ffff_ffffu64 == bare
            &&& spec_peer_id(group) >> 48u64 == 1
            &&& spec_peer_id(group) & 0xffff_ffff_ffffu64 == bare
            &&& spec_peer_id(channel) >> 48u64 == 2
            &&& spec_peer_id(channel) & 0xffff_ffff_ffffu64 == bare
        }),
{
    let user = bare as i64;
    let group = (-(bare as int)) as i64;
    let channel = (-(CHANNEL_OFFSET + bare as int)) as i64;
    assert(user as int == bare as int);
    assert(group as int == -(bare as int));
    assert(channel as int == -(CHANNEL_OFFSET + bare as int));
    assert(spec_peer_id(user) == bare);
    assert(-group as int == bare as int);
    assert((-group) as u64 == bare);
    assert(spec_peer_id(group) == bare | CHAT_SHIFT);
    assert((-channel - CHANNEL_OFFSET) as u64 == bare);
    assert(spec_peer_id(channel) == bare | CHANNEL_SHIFT);
    assert(bare >> 48u64 == 0 && bare & 0xffff_ffff_ffffu64 == bare) by (bit_vector)
        requires
            bare < 0x1_0000_0000_0000u64,
    ;
    assert((bare | 0x1_0000_0000_0000u64) >> 48u64 == 1 && (bare | 0x1_0000_0000_0000u64)
        & 0xffff_ffff_ffffu64 == bare) by (bit_vector)
        requires
            bare < 0x1_0000_0000_0000u64,
    ;
    assert((bare | 0x2_0000_0000_0000u64) >> 48u64 == 2 && (bare | 0x2_0000_0000_0000u64)
        & 0xffff_ffff_ffffu64 == bare) by (bit_vector)
        requires
            bare < 0x1_0000_0000_0000u64,
    ;
}

/// Which link opens a chat, by what the entry is: a public peer by its
/// `@username`; else a user (id >= 0) by its own id, a basic group
/// (-10^12 < id < 0) by its bare id with the basic-group tag 2^48 added, and
/// a channel or supergroup (id <= -10^12) by `privatepost` with its bare
/// channel number, which is never negative.
pub proof fn lemma_build_by_peer_kind(e: EntryView)
    ensures
        e.username matches Some(u) ==> spec_build(e) == "tg://resolve?domain="@ + u,
        e.username is None && e.id >= 0 ==> spec_build(e) == "tg://chat?id="@ + decimal(
            e.id as int,
        ),
        e.username is None && -1_000_000_000_000 < e.id < 0 ==> spec_build(e) == "tg://chat?id="@
            + decimal(-e.id + 0x1_0000_0000_0000),
        e.username is None && e.id <= -1_000_000_000_000 ==> spec_build(e)
            == "tg://privatepost?channel="@ + decimal(-e.id - 1_000_000_000_000) && -e.id
            - 1_000_000_000_000 >= 0,
{
    if e.username is None && -1_000_000_000_000 < e.id < 0 {
        let b: u64 = (-e.id) as u64;
        assert(b as int == -e.id);
        assert(b < 0x1_0000_0000_0000u64);
        assert(b | 0x1_0000_0000_0000u64 == b + 0x1_0000_0000_0000u64) by (bit_vector)
            requires
                b < 0x1_0000_0000_0000u64,
        ;
        assert(spec_peer_id(e.id) == b | CHAT_SHIFT);
    }
}

} // verus!
