//! The chat list of an account, as read from Telegram: turning the raw
//! records that MTProto answers with into cache entries, resolving folders,
//! merging contacts, and paging through the archive. Talking to Telegram
//! (the grammers client, login, network) is done by the program around the
//! library, which hands the answers over as the plain records below.

use std::collections::{HashMap, HashSet};

use vstd::prelude::*;

use crate::cache::{clone_entries, clone_opt_string, Entry, EntryView, Folder, FolderView, Topic, TopicView};
use crate::link::CHANNEL_OFFSET;
use crate::parse::{parse_i64, parse_i64_str};
use crate::text::{owned, push_str};

verus! {

broadcast use vstd::std_specs::hash::group_hash_axioms;

// ---------------------------------------------------------------------------
// Raw records
// ---------------------------------------------------------------------------

/// A peer as MTProto names it (`Peer`): a user, a basic group or a channel,
/// by bare id.
#[derive(Clone, Copy, Debug, PartialEq, Eq, Structural)]
pub enum PeerRef {
    User(i64),
    Chat(i64),
    Channel(i64),
}

/// A peer with its access hash, as sent in requests (`InputPeer`).
#[derive(Clone, Copy, Debug, PartialEq, Eq, Structural)]
pub enum InputPeerRef {
    /// No peer (`inputPeerEmpty`).
    Empty,
    User { user_id: i64, access_hash: i64 },
    Chat { chat_id: i64 },
    Channel { channel_id: i64, access_hash: i64 },
    /// Any other kind (the own user, peers known from a message).
    Other,
}

/// The fields of a user (`user`) that the cache needs.
pub struct UserInfo {
    pub id: i64,
    pub access_hash: Option<i64>,
    pub deleted: bool,
    pub first_name: Option<String>,
    pub last_name: Option<String>,
    pub username: Option<String>,
}

/// A user record (`User`): a user, or an empty placeholder.
pub enum UserRecord {
    User(UserInfo),
    Empty,
}

/// A chat record (`Chat`): a basic group, a channel/supergroup, or another
/// kind (empty, forbidden, ...).
pub enum ChatRecord {
    Chat { id: i64, title: String },
    Channel {
        id: i64,
        access_hash: Option<i64>,
        title: String,
        username: Option<String>,
        broadcast: bool,
        forum: bool,
    },
    Other,
}

/// A message record (`Message`), by id and date.
#[derive(Clone, Copy, Debug, PartialEq, Eq, Structural)]
pub enum MessageRecord {
    Message { id: i32, date: i32 },
    Service { id: i32, date: i32 },
    Empty,
}

/// A dialog record (`Dialog`): a conversation, or another kind (a folder).
#[derive(Clone, Copy, Debug, PartialEq, Eq, Structural)]
pub enum DialogRecord {
    Dialog { peer: PeerRef, top_message: i32, folder_id: Option<i32> },
    Other,
}

/// A forum topic record (`ForumTopic`).
pub enum TopicRecord {
    Topic { id: i32, title: String },
    Deleted,
}

/// A chat folder record (`DialogFilter`).
pub enum FilterRecord {
    Filter { title: String, pinned: Vec<InputPeerRef>, included: Vec<InputPeerRef> },
    Chatlist { title: String, pinned: Vec<InputPeerRef>, included: Vec<InputPeerRef> },
    /// The built-in "All chats" folder.
    Default,
}

/// The kind of a dialog's peer.
#[derive(Clone, Copy, Debug, PartialEq, Eq, Structural)]
pub enum PeerKind {
    User,
    Group,
    Channel,
}

/// A dialog's peer as the client library describes it.
pub struct DialogPeer {
    pub kind: PeerKind,
    /// First name of a user, title of a group or channel.
    pub name: Option<String>,
    /// The peer id as the client library prints it.
    pub id: String,
    pub username: Option<String>,
    /// For a group, its raw chat record.
    pub raw: Option<ChatRecord>,
}

// ---------------------------------------------------------------------------
// Views
// ---------------------------------------------------------------------------

pub struct UserInfoView {
    pub id: i64,
    pub access_hash: Option<i64>,
    pub deleted: bool,
    pub first_name: Option<Seq<char>>,
    pub last_name: Option<Seq<char>>,
    pub username: Option<Seq<char>>,
}

pub enum UserRecordView {
    User(UserInfoView),
    Empty,
}

pub enum ChatRecordView {
    Chat { id: i64, title: Seq<char> },
    Channel {
        id: i64,
        access_hash: Option<i64>,
        title: Seq<char>,
        username: Option<Seq<char>>,
        broadcast: bool,
        forum: bool,
    },
    Other,
}

pub enum TopicRecordView {
    Topic { id: i32, title: Seq<char> },
    Deleted,
}

pub enum FilterRecordView {
    Filter { title: Seq<char>, pinned: Seq<InputPeerRef>, included: Seq<InputPeerRef> },
    Chatlist { title: Seq<char>, pinned: Seq<InputPeerRef>, included: Seq<InputPeerRef> },
    Default,
}

pub struct DialogPeerView {
    pub kind: PeerKind,
    pub name: Option<Seq<char>>,
    pub id: Seq<char>,
    pub username: Option<Seq<char>>,
    pub raw: Option<ChatRecordView>,
}

impl View for UserInfo {
    type V = UserInfoView;

    open spec fn view(&self) -> UserInfoView {
        UserInfoView {
            id: self.id,
            access_hash: self.access_hash,
            deleted: self.deleted,
            first_name: self.first_name.deep_view(),
            last_name: self.last_name.deep_view(),
            username: self.username.deep_view(),
        }
    }
}

impl View for UserRecord {
    type V = UserRecordView;

    open spec fn view(&self) -> UserRecordView {
        match self {
            UserRecord::User(u) => UserRecordView::User(u@),
            UserRecord::Empty => UserRecordView::Empty,
        }
    }
}

impl DeepView for UserRecord {
    type V = UserRecordView;

    open spec fn deep_view(&self) -> UserRecordView {
        self@
    }
}

impl View for ChatRecord {
    type V = ChatRecordView;

    open spec fn view(&self) -> ChatRecordView {
        match self {
            ChatRecord::Chat { id, title } => ChatRecordView::Chat { id: *id, title: title@ },
            ChatRecord::Channel { id, access_hash, title, username, broadcast, forum } =>
                ChatRecordView::Channel {
                id: *id,
                access_hash: *access_hash,
                title: title@,
                username: username.deep_view(),
                broadcast: *broadcast,
                forum: *forum,
            },
            ChatRecord::Other => ChatRecordView::Other,
        }
    }
}

impl DeepView for ChatRecord {
    type V = ChatRecordView;

    open spec fn deep_view(&self) -> ChatRecordView {
        self@
    }
}

impl View for TopicRecord {
    type V = TopicRecordView;

    open spec fn view(&self) -> TopicRecordView {
        match self {
            TopicRecord::Topic { id, title } => TopicRecordView::Topic { id: *id, title: title@ },
            TopicRecord::Deleted => TopicRecordView::Deleted,
        }
    }
}

impl DeepView for TopicRecord {
    type V = TopicRecordView;

    open spec fn deep_view(&self) -> TopicRecordView {
        self@
    }
}

impl View for FilterRecord {
    type V = FilterRecordView;

    open spec fn view(&self) -> FilterRecordView {
        match self {
            FilterRecord::Filter { title, pinned, included } => FilterRecordView::Filter {
                title: title@,
                pinned: pinned@,
                included: included@,
            },
            FilterRecord::Chatlist { title, pinned, included } => FilterRecordView::Chatlist {
                title: title@,
                pinned: pinned@,
                included: included@,
            },
            FilterRecord::Default => FilterRecordView::Default,
        }
    }
}

impl DeepView for FilterRecord {
    type V = FilterRecordView;

    open spec fn deep_view(&self) -> FilterRecordView {
        self@
    }
}

impl View for DialogPeer {
    type V = DialogPeerView;

    open spec fn view(&self) -> DialogPeerView {
        DialogPeerView {
            kind: self.kind,
            name: self.name.deep_view(),
            id: self.id@,
            username: self.username.deep_view(),
            raw: match &self.raw {
                Some(c) => Some(c@),
                None => None,
            },
        }
    }
}

// ---------------------------------------------------------------------------
// Bot-API ids
// ---------------------------------------------------------------------------

/// Whether a peer's Bot-API id fits in an `i64`.
pub open spec fn peer_fits(p: PeerRef) -> bool {
    match p {
        PeerRef::User(_) => true,
        PeerRef::Chat(c) => c > i64::MIN,
        PeerRef::Channel(c) => c <= i64::MAX - CHANNEL_OFFSET,
    }
}

/// Whether an input peer's Bot-API id fits in an `i64`.
pub open spec fn input_fits(p: InputPeerRef) -> bool {
    match p {
        InputPeerRef::Chat { chat_id } => chat_id > i64::MIN,
        InputPeerRef::Channel { channel_id, .. } => channel_id <= i64::MAX - CHANNEL_OFFSET,
        _ => true,
    }
}

/// Whether a chat record's Bot-API id fits in an `i64`.
pub open spec fn chat_fits(c: ChatRecordView) -> bool {
    match c {
        ChatRecordView::Chat { id, .. } => id > i64::MIN,
        ChatRecordView::Channel { id, .. } => id <= i64::MAX - CHANNEL_OFFSET,
        ChatRecordView::Other => true,
    }
}

/// Whether the entry of a peer has a Bot-API id that fits in an `i64`: a
/// user's always does; a basic group's or channel's does when the chat it
/// resolves to (the first record with its id, if any) fits.
pub open spec fn entry_fits(p: PeerRef, chats: Seq<ChatRecordView>) -> bool {
    match p {
        PeerRef::User(_) => true,
        PeerRef::Chat(c) => first_chat(chats, c) is Some ==> c > i64::MIN,
        PeerRef::Channel(c) => first_channel(chats, c) is Some ==> c <= i64::MAX - CHANNEL_OFFSET,
    }
}

/// The views of a list of chat records.
pub open spec fn chat_views(v: Seq<ChatRecord>) -> Seq<ChatRecordView> {
    v.map_values(|c: ChatRecord| c@)
}

/// The views of a list of user records.
pub open spec fn user_views(v: Seq<UserRecord>) -> Seq<UserRecordView> {
    v.map_values(|u: UserRecord| u@)
}

/// The Bot-API id of a peer: users keep their id, basic groups are negated,
/// channels are -(10^12 + id).
pub open spec fn spec_peer_bot_id(p: PeerRef) -> int {
    match p {
        PeerRef::User(u) => u as int,
        PeerRef::Chat(c) => -c,
        PeerRef::Channel(c) => -(CHANNEL_OFFSET + c),
    }
}

/// The Bot-API id of an input peer, for the kinds that name a chat.
pub open spec fn spec_input_bot_id(p: InputPeerRef) -> Option<int> {
    match p {
        InputPeerRef::User { user_id, .. } => Some(user_id as int),
        InputPeerRef::Chat { chat_id } => Some(-chat_id),
        InputPeerRef::Channel { channel_id, .. } => Some(-(CHANNEL_OFFSET + channel_id)),
        _ => None,
    }
}

/// The Bot-API id of a peer.
pub fn peer_bot_id(peer: &PeerRef) -> (r: i64)
    requires
        peer_fits(*peer),
    ensures
        r == spec_peer_bot_id(*peer),
{
    match peer {
        PeerRef::User(u) => *u,
        PeerRef::Chat(c) => -*c,
        PeerRef::Channel(c) => -(CHANNEL_OFFSET + *c),
    }
}

/// Bot-API id for an input peer, or `None` for kinds that don't name a chat.
pub fn input_peer_bot_id(peer: &InputPeerRef) -> (r: Option<i64>)
    requires
        input_fits(*peer),
    ensures
        r matches Some(v) ==> spec_input_bot_id(*peer) == Some(v as int),
        r is None <==> spec_input_bot_id(*peer) is None,
{
    match peer {
        InputPeerRef::User { user_id, .. } => Some(*user_id),
        InputPeerRef::Chat { chat_id } => Some(-*chat_id),
        InputPeerRef::Channel { channel_id, .. } => Some(-(CHANNEL_OFFSET + *channel_id)),
        _ => None,
    }
}

// ---------------------------------------------------------------------------
// Entries from raw records
// ---------------------------------------------------------------------------

/// A user's first and last name, joined by a space (whichever are present).
pub open spec fn full_name(first: Option<Seq<char>>, last: Option<Seq<char>>) -> Seq<char> {
    match (first, last) {
        (Some(f), Some(l)) => f + " "@ + l,
        (Some(f), None) => f,
        (None, Some(l)) => l,
        (None, None) => Seq::empty(),
    }
}

/// The name shown for a user: the full name, else the username, else
/// "(no name)".
pub open spec fn user_display_name(u: UserInfoView) -> Seq<char> {
    let n = full_name(u.first_name, u.last_name);
    if n.len() == 0 {
        match u.username {
            Some(h) => h,
            None => "(no name)"@,
        }
    } else {
        n
    }
}

/// The cache entry of a user.
pub open spec fn user_entry(u: UserInfoView) -> EntryView {
    EntryView {
        name: user_display_name(u),
        username: u.username,
        id: u.id,
        kind: "user"@,
        topics: Seq::empty(),
    }
}

/// The first user record with id `id`.
pub open spec fn first_user(users: Seq<UserRecordView>, id: i64) -> Option<UserInfoView>
    decreases users.len(),
{
    if users.len() == 0 {
        None
    } else {
        match users[0] {
            UserRecordView::User(u) => if u.id == id {
                Some(u)
            } else {
                first_user(users.skip(1), id)
            },
            UserRecordView::Empty => first_user(users.skip(1), id),
        }
    }
}

/// The first basic-group record with id `id`.
pub open spec fn first_chat(chats: Seq<ChatRecordView>, id: i64) -> Option<ChatRecordView>
    decreases chats.len(),
{
    if chats.len() == 0 {
        None
    } else {
        match chats[0] {
            ChatRecordView::Chat { id: cid, .. } => if cid == id {
                Some(chats[0])
            } else {
                first_chat(chats.skip(1), id)
            },
            _ => first_chat(chats.skip(1), id),
        }
    }
}

/// The first channel record with id `id`.
pub open spec fn first_channel(chats: Seq<ChatRecordView>, id: i64) -> Option<ChatRecordView>
    decreases chats.len(),
{
    if chats.len() == 0 {
        None
    } else {
        match chats[0] {
            ChatRecordView::Channel { id: cid, .. } => if cid == id {
                Some(chats[0])
            } else {
                first_channel(chats.skip(1), id)
            },
            _ => first_channel(chats.skip(1), id),
        }
    }
}

/// The cache entry of a chat record (basic group or channel).
pub open spec fn chat_entry(c: ChatRecordView) -> EntryView {
    match c {
        ChatRecordView::Chat { id, title } => EntryView {
            name: title,
            username: None,
            id: (-id) as i64,
            kind: "group"@,
            topics: Seq::empty(),
        },
        ChatRecordView::Channel { id, title, username, broadcast, .. } => EntryView {
            name: title,
            username: username,
            id: (-(CHANNEL_OFFSET + id)) as i64,
            kind: if broadcast {
                "channel"@
            } else {
                "group"@
            },
            topics: Seq::empty(),
        },
        ChatRecordView::Other => EntryView {
            name: Seq::empty(),
            username: None,
            id: 0,
            kind: Seq::empty(),
            topics: Seq::empty(),
        },
    }
}

/// The cache entry of a raw peer, resolved against the users and chats of
/// the same answer: `None` if the peer is not among them or is a deleted
/// account.
pub open spec fn spec_peer_entry(
    peer: PeerRef,
    users: Seq<UserRecordView>,
    chats: Seq<ChatRecordView>,
) -> Option<EntryView> {
    match peer {
        PeerRef::User(uid) => match first_user(users, uid) {
            Some(u) => if u.deleted {
                None
            } else {
                Some(user_entry(u))
            },
            None => None,
        },
        PeerRef::Chat(cid) => match first_chat(chats, cid) {
            Some(c) => Some(chat_entry(c)),
            None => None,
        },
        PeerRef::Channel(cid) => match first_channel(chats, cid) {
            Some(c) => Some(chat_entry(c)),
            None => None,
        },
    }
}

/// The name shown for a user.
fn user_name(u: &UserInfo) -> (r: String)
    ensures
        r@ == user_display_name(u@),
{
    let n = match (&u.first_name, &u.last_name) {
        (Some(f), Some(l)) => {
            let mut s = owned(f.as_str());
            push_str(&mut s, " ");
            push_str(&mut s, l.as_str());
            s
        },
        (Some(f), None) => f.clone(),
        (None, Some(l)) => l.clone(),
        (None, None) => String::new(),
    };
    if n.as_str().is_empty() {
        match &u.username {
            Some(h) => h.clone(),
            None => owned("(no name)"),
        }
    } else {
        n
    }
}

/// The cache entry of a user.
fn entry_of_user(u: &UserInfo) -> (r: Entry)
    ensures
        r@ == user_entry(u@),
{
    let e = Entry {
        name: user_name(u),
        username: clone_opt_string(&u.username),
        id: u.id,
        kind: owned("user"),
        topics: Vec::new(),
    };
    assert(e.topics.deep_view() =~= Seq::<TopicView>::empty());
    e
}

/// The cache entry of a basic group or channel record.
fn entry_of_chat(c: &ChatRecord) -> (r: Entry)
    requires
        chat_fits(c@),
        !(c@ is Other),
    ensures
        r@ == chat_entry(c@),
{
    let e = match c {
        ChatRecord::Chat { id, title } => Entry {
            name: title.clone(),
            username: None,
            id: -*id,
            kind: owned("group"),
            topics: Vec::new(),
        },
        ChatRecord::Channel { id, title, username, broadcast, .. } => Entry {
            name: title.clone(),
            username: clone_opt_string(username),
            id: -(CHANNEL_OFFSET + *id),
            kind: if *broadcast {
                owned("channel")
            } else {
                owned("group")
            },
            topics: Vec::new(),
        },
        ChatRecord::Other => Entry {
            name: String::new(),
            username: None,
            id: 0,
            kind: String::new(),
            topics: Vec::new(),
        },
    };
    assert(e.topics.deep_view() =~= Seq::<TopicView>::empty());
    e
}

proof fn lemma_first_user_skip(users: Seq<UserRecordView>, id: i64, i: int)
    requires
        0 <= i < users.len(),
    ensures
        first_user(users.skip(i), id) == match users[i] {
            UserRecordView::User(u) => if u.id == id {
                Some(u)
            } else {
                first_user(users.skip(i + 1), id)
            },
            UserRecordView::Empty => first_user(users.skip(i + 1), id),
        },
{
    let s = users.skip(i);
    assert(s[0] == users[i]);
    assert(s.skip(1) == users.skip(i + 1));
}

proof fn lemma_first_chat_skip(chats: Seq<ChatRecordView>, id: i64, i: int)
    requires
        0 <= i < chats.len(),
    ensures
        first_chat(chats.skip(i), id) == match chats[i] {
            ChatRecordView::Chat { id: cid, .. } => if cid == id {
                Some(chats[i])
            } else {
                first_chat(chats.skip(i + 1), id)
            },
            _ => first_chat(chats.skip(i + 1), id),
        },
        first_channel(chats.skip(i), id) == match chats[i] {
            ChatRecordView::Channel { id: cid, .. } => if cid == id {
                Some(chats[i])
            } else {
                first_channel(chats.skip(i + 1), id)
            },
            _ => first_channel(chats.skip(i + 1), id),
        },
{
    let s = chats.skip(i);
    assert(s[0] == chats[i]);
    assert(s.skip(1) == chats.skip(i + 1));
}

/// Position of the first user record with id `id`.
fn find_user(users: &Vec<UserRecord>, id: i64) -> (r: Option<usize>)
    ensures
        match r {
            Some(i) => i < users@.len() && (users@[i as int]@ matches UserRecordView::User(u)
                && first_user(user_views(users@), id) == Some(u)),
            None => first_user(user_views(users@), id) is None,
        },
{
    let n = users.len();
    let ghost uv = user_views(users@);
    assert(uv.skip(0) == uv);
    for i in 0..n
        invariant
            n == users@.len(),
            uv == user_views(users@),
            first_user(uv, id) == first_user(uv.skip(i as int), id),
    {
        proof {
            lemma_first_user_skip(uv, id, i as int);
            assert(uv[i as int] == users@[i as int]@);
        }
        match &users[i] {
            UserRecord::User(u) => {
                if u.id == id {
                    return Some(i);
                }
            },
            UserRecord::Empty => {},
        }
    }
    assert(uv.skip(n as int).len() == 0);
    None
}

/// Position of the first chat record (a basic group if `channel` is false,
/// else a channel) with id `id`.
fn find_chat(chats: &Vec<ChatRecord>, id: i64, channel: bool) -> (r: Option<usize>)
    ensures
        match r {
            Some(i) => i < chats@.len() && (if channel {
                first_channel(chat_views(chats@), id) == Some(chats@[i as int]@)
                    && chats@[i as int]@ is Channel
            } else {
                first_chat(chat_views(chats@), id) == Some(chats@[i as int]@)
                    && chats@[i as int]@ is Chat
            }),
            None => if channel {
                first_channel(chat_views(chats@), id) is None
            } else {
                first_chat(chat_views(chats@), id) is None
            },
        },
{
    let n = chats.len();
    let ghost cv = chat_views(chats@);
    assert(cv.skip(0) == cv);
    for i in 0..n
        invariant
            n == chats@.len(),
            cv == chat_views(chats@),
            !channel ==> first_chat(cv, id) == first_chat(cv.skip(i as int), id),
            channel ==> first_channel(cv, id) == first_channel(cv.skip(i as int), id),
    {
        proof {
            lemma_first_chat_skip(cv, id, i as int);
            assert(cv[i as int] == chats@[i as int]@);
        }
        match &chats[i] {
            ChatRecord::Chat { id: cid, .. } => {
                if !channel && *cid == id {
                    return Some(i);
                }
            },
            ChatRecord::Channel { id: cid, .. } => {
                if channel && *cid == id {
                    return Some(i);
                }
            },
            ChatRecord::Other => {},
        }
    }
    assert(cv.skip(n as int).len() == 0);
    None
}

/// Resolve a raw peer to a cache entry using the answer's user and chat
/// lists; `None` if it's not among them or is a deleted account.
pub fn build_peer_entry(peer: &PeerRef, users: &Vec<UserRecord>, chats: &Vec<ChatRecord>) -> (r: Option<Entry>)
    requires
        entry_fits(*peer, chat_views(chats@)),
    ensures
        match r {
            Some(e) => spec_peer_entry(*peer, user_views(users@), chat_views(chats@)) == Some(e@),
            None => spec_peer_entry(*peer, user_views(users@), chat_views(chats@)) is None,
        },
{
    match peer {
        PeerRef::User(uid) => match find_user(users, *uid) {
            Some(i) => match &users[i] {
                UserRecord::User(u) => {
                    if u.deleted {
                        None
                    } else {
                        Some(entry_of_user(u))
                    }
                },
                UserRecord::Empty => None,
            },
            None => None,
        },
        PeerRef::Chat(cid) => match find_chat(chats, *cid, false) {
            Some(i) => {
                proof {
                    assert(chat_views(chats@)[i as int] == chats@[i as int]@);
                    lemma_first_chat_id(chat_views(chats@), *cid);
                }
                Some(entry_of_chat(&chats[i]))
            },
            None => None,
        },
        PeerRef::Channel(cid) => match find_chat(chats, *cid, true) {
            Some(i) => {
                proof {
                    assert(chat_views(chats@)[i as int] == chats@[i as int]@);
                    lemma_first_chat_id(chat_views(chats@), *cid);
                }
                Some(entry_of_chat(&chats[i]))
            },
            None => None,
        },
    }
}

/// The access hash of the first user record with id `id` that carries one,
/// else 0.
pub open spec fn user_hash(users: Seq<UserRecordView>, id: i64) -> i64
    decreases users.len(),
{
    if users.len() == 0 {
        0
    } else {
        match users[0] {
            UserRecordView::User(u) => if u.id == id && u.access_hash is Some {
                u.access_hash->0
            } else {
                user_hash(users.skip(1), id)
            },
            UserRecordView::Empty => user_hash(users.skip(1), id),
        }
    }
}

/// The access hash of the first channel record with id `id` that carries
/// one, else 0.
pub open spec fn channel_hash(chats: Seq<ChatRecordView>, id: i64) -> i64
    decreases chats.len(),
{
    if chats.len() == 0 {
        0
    } else {
        match chats[0] {
            ChatRecordView::Channel { id: cid, access_hash, .. } => if cid == id
                && access_hash is Some {
                access_hash->0
            } else {
                channel_hash(chats.skip(1), id)
            },
            _ => channel_hash(chats.skip(1), id),
        }
    }
}

/// The input peer (with access hash) for a raw peer, used as a paging offset.
pub open spec fn spec_input_peer_for(
    peer: PeerRef,
    users: Seq<UserRecordView>,
    chats: Seq<ChatRecordView>,
) -> InputPeerRef {
    match peer {
        PeerRef::User(uid) => InputPeerRef::User { user_id: uid, access_hash: user_hash(users, uid) },
        PeerRef::Chat(cid) => InputPeerRef::Chat { chat_id: cid },
        PeerRef::Channel(cid) => InputPeerRef::Channel {
            channel_id: cid,
            access_hash: channel_hash(chats, cid),
        },
    }
}

fn find_user_hash(users: &Vec<UserRecord>, id: i64) -> (r: i64)
    ensures
        r == user_hash(user_views(users@), id),
{
    let n = users.len();
    let ghost uv = user_views(users@);
    assert(uv.skip(0) == uv);
    for i in 0..n
        invariant
            n == users@.len(),
            uv == user_views(users@),
            user_hash(uv, id) == user_hash(uv.skip(i as int), id),
    {
        proof {
            let s = uv.skip(i as int);
            assert(s[0] == uv[i as int]);
            assert(s.skip(1) == uv.skip(i + 1));
            assert(uv[i as int] == users@[i as int]@);
        }
        match &users[i] {
            UserRecord::User(u) => {
                if u.id == id {
                    match u.access_hash {
                        Some(h) => {
                            return h;
                        },
                        None => {},
                    }
                }
            },
            UserRecord::Empty => {},
        }
    }
    assert(uv.skip(n as int).len() == 0);
    0
}

fn find_channel_hash(chats: &Vec<ChatRecord>, id: i64) -> (r: i64)
    ensures
        r == channel_hash(chat_views(chats@), id),
{
    let n = chats.len();
    let ghost cv = chat_views(chats@);
    assert(cv.skip(0) == cv);
    for i in 0..n
        invariant
            n == chats@.len(),
            cv == chat_views(chats@),
            channel_hash(cv, id) == channel_hash(cv.skip(i as int), id),
    {
        proof {
            let s = cv.skip(i as int);
            assert(s[0] == cv[i as int]);
            assert(s.skip(1) == cv.skip(i + 1));
            assert(cv[i as int] == chats@[i as int]@);
        }
        match &chats[i] {
            ChatRecord::Channel { id: cid, access_hash, .. } => {
                if *cid == id {
                    match access_hash {
                        Some(h) => {
                            return *h;
                        },
                        None => {},
                    }
                }
            },
            _ => {},
        }
    }
    assert(cv.skip(n as int).len() == 0);
    0
}

/// Build an input peer (with access hash) for use as a paging offset; an
/// access hash that the answer doesn't carry is 0.
pub fn input_peer_for(peer: &PeerRef, users: &Vec<UserRecord>, chats: &Vec<ChatRecord>) -> (r: InputPeerRef)
    ensures
        r == spec_input_peer_for(*peer, user_views(users@), chat_views(chats@)),
{
    match peer {
        PeerRef::User(uid) => InputPeerRef::User { user_id: *uid, access_hash: find_user_hash(users, *uid) },
        PeerRef::Chat(cid) => InputPeerRef::Chat { chat_id: *cid },
        PeerRef::Channel(cid) => InputPeerRef::Channel {
            channel_id: *cid,
            access_hash: find_channel_hash(chats, *cid),
        },
    }
}

/// The views of a list of entries.
pub open spec fn entry_views(v: Seq<Entry>) -> Seq<EntryView> {
    v.map_values(|e: Entry| e@)
}

/// The cache entries of a contact list: every user that is not a deleted
/// account, in order.
pub open spec fn spec_contacts(users: Seq<UserRecordView>) -> Seq<EntryView>
    decreases users.len(),
{
    if users.len() == 0 {
        Seq::empty()
    } else {
        spec_contacts(users.drop_last()) + match users.last() {
            UserRecordView::User(u) => if u.deleted {
                Seq::empty()
            } else {
                seq![user_entry(u)]
            },
            UserRecordView::Empty => Seq::empty(),
        }
    }
}

/// The account's contacts as user entries, skipping deleted accounts.
pub fn contacts_to_entries(users: &Vec<UserRecord>) -> (r: Vec<Entry>)
    ensures
        entry_views(r@) == spec_contacts(user_views(users@)),
{
    let mut r: Vec<Entry> = Vec::new();
    let n = users.len();
    for i in 0..n
        invariant
            n == users@.len(),
            entry_views(r@) == spec_contacts(user_views(users@).take(i as int)),
    {
        let ghost uv = user_views(users@);
        proof {
            assert(uv.take(i + 1).drop_last() == uv.take(i as int));
            assert(uv.take(i + 1).last() == users@[i as int]@);
        }
        let ghost before = entry_views(r@);
        match &users[i] {
            UserRecord::User(u) => {
                if !u.deleted {
                    r.push(entry_of_user(u));
                    assert(entry_views(r@) =~= before.push(user_entry(u@)));
                }
            },
            UserRecord::Empty => {},
        }
        assert(entry_views(r@) =~= spec_contacts(uv.take(i + 1)));
    }
    assert(user_views(users@).take(n as int) == user_views(users@));
    r
}

/// The views of a list of topic records.
pub open spec fn topic_record_views(v: Seq<TopicRecord>) -> Seq<TopicRecordView> {
    v.map_values(|t: TopicRecord| t@)
}

/// The views of a list of topics.
pub open spec fn topic_views(v: Seq<Topic>) -> Seq<TopicView> {
    v.map_values(|t: Topic| t@)
}

/// A forum's topics: every topic that is not deleted, in order.
pub open spec fn spec_topics(list: Seq<TopicRecordView>) -> Seq<TopicView>
    decreases list.len(),
{
    if list.len() == 0 {
        Seq::empty()
    } else {
        spec_topics(list.drop_last()) + match list.last() {
            TopicRecordView::Topic { id, title } => seq![TopicView { id: id as i64, title }],
            TopicRecordView::Deleted => Seq::empty(),
        }
    }
}

/// A forum's topics from the topic records of its answer.
pub fn topics_from(list: &Vec<TopicRecord>) -> (r: Vec<Topic>)
    ensures
        topic_views(r@) == spec_topics(topic_record_views(list@)),
{
    let mut r: Vec<Topic> = Vec::new();
    let n = list.len();
    for i in 0..n
        invariant
            n == list@.len(),
            topic_views(r@) == spec_topics(topic_record_views(list@).take(i as int)),
    {
        let ghost tv = topic_record_views(list@);
        proof {
            assert(tv.take(i + 1).drop_last() == tv.take(i as int));
            assert(tv.take(i + 1).last() == list@[i as int]@);
        }
        let ghost before = topic_views(r@);
        match &list[i] {
            TopicRecord::Topic { id, title } => {
                r.push(Topic { id: *id as i64, title: title.clone() });
                assert(topic_views(r@) =~= before.push(TopicView { id: *id as i64, title: title@ }));
            },
            TopicRecord::Deleted => {},
        }
        assert(topic_views(r@) =~= spec_topics(tv.take(i + 1)));
    }
    assert(topic_record_views(list@).take(n as int) == topic_record_views(list@));
    r
}

/// The input peer for fetching a group's forum topics: only a group whose
/// raw record is a forum channel has one.
pub open spec fn spec_forum_input_peer(p: DialogPeerView) -> Option<InputPeerRef> {
    match p.kind {
        PeerKind::Group => match p.raw {
            Some(ChatRecordView::Channel { id, access_hash, forum, .. }) => if forum {
                Some(
                    InputPeerRef::Channel {
                        channel_id: id,
                        access_hash: match access_hash {
                            Some(h) => h,
                            None => 0,
                        },
                    },
                )
            } else {
                None
            },
            _ => None,
        },
        _ => None,
    }
}

/// If `peer` is a forum supergroup, the input peer for topic queries.
pub fn forum_input_peer(peer: &DialogPeer) -> (r: Option<InputPeerRef>)
    ensures
        r == spec_forum_input_peer(peer@),
{
    match peer.kind {
        PeerKind::Group => match &peer.raw {
            Some(ChatRecord::Channel { id, access_hash, forum, .. }) => {
                if *forum {
                    Some(
                        InputPeerRef::Channel {
                            channel_id: *id,
                            access_hash: match access_hash {
                                Some(h) => *h,
                                None => 0,
                            },
                        },
                    )
                } else {
                    None
                }
            },
            _ => None,
        },
        _ => None,
    }
}

/// The kind word of a peer kind.
pub open spec fn kind_word(k: PeerKind) -> Seq<char> {
    match k {
        PeerKind::User => "user"@,
        PeerKind::Group => "group"@,
        PeerKind::Channel => "channel"@,
    }
}

/// The cache entry of a dialog: its name (or "(no name)"), username, id (the
/// printed peer id read back as a number, 0 if it isn't one), kind and forum
/// topics.
pub open spec fn spec_dialog_entry(p: DialogPeerView, topics: Seq<TopicView>) -> EntryView {
    EntryView {
        name: match p.name {
            Some(n) => n,
            None => "(no name)"@,
        },
        username: p.username,
        id: match parse_i64(p.id) {
            Some(v) => v,
            None => 0,
        },
        kind: kind_word(p.kind),
        topics: topics,
    }
}

/// A printed peer id read back as a number, 0 if it isn't one (such as the
/// placeholder printed for the own user).
pub fn peer_id_value(printed: &str) -> (r: i64)
    ensures
        r == match parse_i64(printed@) {
            Some(v) => v,
            None => 0,
        },
{
    match parse_i64_str(printed) {
        Some(v) => v,
        None => 0,
    }
}

/// The cache entry of a dialog with its forum topics.
pub fn dialog_entry(peer: &DialogPeer, topics: Vec<Topic>) -> (r: Entry)
    ensures
        r@ == spec_dialog_entry(peer@, topics.deep_view()),
{
    let name = match &peer.name {
        Some(n) => n.clone(),
        None => owned("(no name)"),
    };
    let kind = match peer.kind {
        PeerKind::User => owned("user"),
        PeerKind::Group => owned("group"),
        PeerKind::Channel => owned("channel"),
    };
    Entry {
        name,
        username: clone_opt_string(&peer.username),
        id: peer_id_value(peer.id.as_str()),
        kind,
        topics,
    }
}

/// Whether some entry has id `id`.
pub open spec fn has_id(es: Seq<EntryView>, id: i64) -> bool {
    exists|i: int| 0 <= i < es.len() && (#[trigger] es[i]).id == id
}

/// The dialog entries followed by each contact whose id is not already
/// present (among the dialogs or the contacts added before it).
pub open spec fn spec_merge(es: Seq<EntryView>, cs: Seq<EntryView>) -> Seq<EntryView>
    decreases cs.len(),
{
    if cs.len() == 0 {
        es
    } else {
        let m = spec_merge(es, cs.drop_last());
        if has_id(m, cs.last().id) {
            m
        } else {
            m.push(cs.last())
        }
    }
}

/// The ids of the entries.
fn ids_of(es: &Vec<Entry>) -> (r: HashSet<i64>)
    ensures
        forall|x: i64| #[trigger] r@.contains(x) <==> has_id(entry_views(es@), x),
{
    let mut r: HashSet<i64> = HashSet::new();
    let n = es.len();
    for i in 0..n
        invariant
            n == es@.len(),
            forall|x: i64| #[trigger] r@.contains(x) <==> has_id(entry_views(es@.take(i as int)), x),
    {
        let ghost before = r@;
        r.insert(es[i].id);
        proof {
            let prev = entry_views(es@.take(i as int));
            let next = entry_views(es@.take(i + 1));
            assert(next =~= prev.push(es@[i as int]@));
            assert forall|x: i64| #[trigger] r@.contains(x) implies has_id(next, x) by {
                if x == es@[i as int].id {
                    assert(next[i as int].id == x);
                } else {
                    assert(before.contains(x));
                    let k = choose|k: int| 0 <= k < prev.len() && (#[trigger] prev[k]).id == x;
                    assert(next[k] == prev[k]);
                }
            }
            assert forall|x: i64| has_id(next, x) implies #[trigger] r@.contains(x) by {
                let k = choose|k: int| 0 <= k < next.len() && (#[trigger] next[k]).id == x;
                if k < i {
                    assert(next[k] == prev[k]);
                    assert(has_id(prev, x));
                }
            }
        }
    }
    assert(es@.take(n as int) == es@);
    r
}

/// Add the contacts to the dialog entries, skipping any already present.
pub fn merge_contacts(entries: Vec<Entry>, contacts: &Vec<Entry>) -> (r: Vec<Entry>)
    ensures
        entry_views(r@) == spec_merge(entry_views(entries@), entry_views(contacts@)),
{
    let mut seen = ids_of(&entries);
    let mut r = entries;
    let ghost es = entry_views(r@);
    let n = contacts.len();
    for i in 0..n
        invariant
            n == contacts@.len(),
            entry_views(r@) == spec_merge(es, entry_views(contacts@).take(i as int)),
            forall|x: i64| #[trigger] seen@.contains(x) <==> has_id(entry_views(r@), x),
    {
        let ghost cs = entry_views(contacts@);
        proof {
            assert(cs.take(i + 1).drop_last() == cs.take(i as int));
            assert(cs.take(i + 1).last() == contacts@[i as int]@);
        }
        let c = &contacts[i];
        let ghost before = entry_views(r@);
        let ghost seen_before = seen@;
        if seen.insert(c.id) {
            r.push(c.clone());
            proof {
                let after = entry_views(r@);
                assert(after =~= before.push(c@));
                assert forall|x: i64| #[trigger] seen@.contains(x) implies has_id(after, x) by {
                    if x == c.id {
                        assert(after[before.len() as int].id == x);
                    } else {
                        assert(seen_before.contains(x));
                        let k = choose|k: int| 0 <= k < before.len() && (#[trigger] before[k]).id == x;
                        assert(after[k] == before[k]);
                    }
                }
                assert forall|x: i64| has_id(after, x) implies #[trigger] seen@.contains(x) by {
                    let k = choose|k: int| 0 <= k < after.len() && (#[trigger] after[k]).id == x;
                    if k < before.len() {
                        assert(after[k] == before[k]);
                        assert(has_id(before, x));
                    }
                }
            }
        } else {
            assert(seen_before.contains(c.id));
        }
    }
    assert(entry_views(contacts@).take(n as int) == entry_views(contacts@));
    r
}

// ---------------------------------------------------------------------------
// Chat folders
// ---------------------------------------------------------------------------

/// The entry with id `id` that a lookup table filled from `pool` in order
/// holds: the last one with that id.
pub open spec fn lookup(pool: Seq<EntryView>, id: i64) -> Option<EntryView>
    decreases pool.len(),
{
    if pool.len() == 0 {
        None
    } else if pool.last().id == id {
        Some(pool.last())
    } else {
        lookup(pool.drop_last(), id)
    }
}

/// Resolving a folder's peers in order: each peer that names a chat is taken
/// the first time its id comes up, and contributes the pooled entry with
/// that id, if there is one. Returns the ids taken and the entries.
pub open spec fn resolve_peers(peers: Seq<InputPeerRef>, pool: Seq<EntryView>) -> (Seq<int>, Seq<EntryView>)
    decreases peers.len(),
{
    if peers.len() == 0 {
        (Seq::empty(), Seq::empty())
    } else {
        let prev = resolve_peers(peers.drop_last(), pool);
        match spec_input_bot_id(peers.last()) {
            None => prev,
            Some(id) => if prev.0.contains(id) {
                prev
            } else {
                (
                    prev.0.push(id),
                    match lookup(pool, id as i64) {
                        Some(e) => prev.1.push(e),
                        None => prev.1,
                    },
                )
            },
        }
    }
}

/// The title and peers (pinned first, then included) of a folder record;
/// `None` for the built-in "All chats".
pub open spec fn filter_parts(f: FilterRecordView) -> Option<(Seq<char>, Seq<InputPeerRef>)> {
    match f {
        FilterRecordView::Filter { title, pinned, included } => Some((title, pinned + included)),
        FilterRecordView::Chatlist { title, pinned, included } => Some((title, pinned + included)),
        FilterRecordView::Default => None,
    }
}

/// The folders of an account: each folder record other than "All chats",
/// with its explicitly listed peers resolved against `pool`; folders that
/// resolve to no chat are left out.
pub open spec fn spec_folders(filters: Seq<FilterRecordView>, pool: Seq<EntryView>) -> Seq<FolderView>
    decreases filters.len(),
{
    if filters.len() == 0 {
        Seq::empty()
    } else {
        spec_folders(filters.drop_last(), pool) + match filter_parts(filters.last()) {
            None => Seq::empty(),
            Some(parts) => {
                let es = resolve_peers(parts.1, pool).1;
                if es.len() > 0 {
                    seq![FolderView { title: parts.0, entries: es }]
                } else {
                    Seq::empty()
                }
            },
        }
    }
}

/// Whether every peer listed by every folder record has a Bot-API id that
/// fits in an `i64`.
pub open spec fn filters_fit(filters: Seq<FilterRecordView>) -> bool {
    forall|i: int|
        0 <= i < filters.len() ==> match #[trigger] filter_parts(filters[i]) {
            Some(parts) => forall|j: int| 0 <= j < parts.1.len() ==> input_fits(#[trigger] parts.1[j]),
            None => true,
        }
}

/// The views of a list of folder records.
pub open spec fn filter_views(v: Seq<FilterRecord>) -> Seq<FilterRecordView> {
    v.map_values(|f: FilterRecord| f@)
}

/// The views of a list of folders.
pub open spec fn folder_views(v: Seq<Folder>) -> Seq<FolderView> {
    v.map_values(|f: Folder| f@)
}

/// Whether `by_id` maps each id to the position in `pool` of the entry that
/// [`lookup`] finds for it, and holds no other id.
pub open spec fn indexes(by_id: Map<i64, usize>, pool: Seq<EntryView>) -> bool {
    forall|x: i64| #![trigger lookup(pool, x)] #![trigger by_id.contains_key(x)]
        match lookup(pool, x) {
            Some(e) => by_id.contains_key(x) && by_id[x] < pool.len() && pool[by_id[x] as int] == e,
            None => !by_id.contains_key(x),
        }
}

/// The lookup table of a pool of entries: each id to the position of its
/// last entry.
fn index_by_id(pool: &Vec<Entry>) -> (r: HashMap<i64, usize>)
    ensures
        indexes(r@, entry_views(pool@)),
{
    let mut r: HashMap<i64, usize> = HashMap::new();
    let n = pool.len();
    let ghost pv = entry_views(pool@);
    for k in 0..n
        invariant
            n == pool@.len(),
            pv == entry_views(pool@),
            indexes(r@, pv.take(k as int)),
    {
        let ghost before = r@;
        r.insert(pool[k].id, k);
        proof {
            let t = pv.take(k + 1);
            let p = pv.take(k as int);
            assert(t.drop_last() == p);
            assert(t.last() == pool@[k as int]@);
            assert forall|x: i64| #![trigger lookup(t, x)] #![trigger r@.contains_key(x)]
                match lookup(t, x) {
                    Some(e) => r@.contains_key(x) && r@[x] < t.len() && t[r@[x] as int] == e,
                    None => !r@.contains_key(x),
                } by {
                if x != pool@[k as int].id {
                    match lookup(p, x) {
                        Some(e) => {
                            assert(t[before[x] as int] == p[before[x] as int]);
                        },
                        None => {},
                    }
                }
            }
        }
    }
    assert(pv.take(n as int) == pv);
    r
}

/// The entries that a folder's peers resolve to, against a pool and its
/// lookup table.
fn resolve_folder_peers(peers: &Vec<InputPeerRef>, pool: &Vec<Entry>, by_id: &HashMap<i64, usize>) -> (r: Vec<Entry>)
    requires
        forall|j: int| 0 <= j < peers@.len() ==> input_fits(#[trigger] peers@[j]),
        indexes(by_id@, entry_views(pool@)),
    ensures
        entry_views(r@) == resolve_peers(peers@, entry_views(pool@)).1,
{
    let mut seen: HashSet<i64> = HashSet::new();
    let mut out: Vec<Entry> = Vec::new();
    let n = peers.len();
    let ghost pv = entry_views(pool@);
    for i in 0..n
        invariant
            n == peers@.len(),
            forall|j: int| 0 <= j < peers@.len() ==> input_fits(#[trigger] peers@[j]),
            pv == entry_views(pool@),
            indexes(by_id@, pv),
            forall|x: i64| #[trigger] seen@.contains(x) <==> resolve_peers(peers@.take(i as int), pv).0.contains(x as int),
            entry_views(out@) == resolve_peers(peers@.take(i as int), pv).1,
    {
        let ghost prev = resolve_peers(peers@.take(i as int), pv);
        proof {
            assert(peers@.take(i + 1).drop_last() == peers@.take(i as int));
            assert(peers@.take(i + 1).last() == peers@[i as int]);
        }
        match input_peer_bot_id(&peers[i]) {
            None => {},
            Some(id) => {
                let ghost seen_before = seen@;
                if seen.insert(id) {
                    proof {
                        let next = prev.0.push(id as int);
                        assert forall|x: i64| #[trigger] seen@.contains(x) <==> next.contains(x as int) by {
                            if x != id {
                                if next.contains(x as int) {
                                    let k = choose|k: int| 0 <= k < next.len() && next[k] == x as int;
                                    assert(k < prev.0.len());
                                    assert(prev.0[k] == x as int);
                                }
                                if prev.0.contains(x as int) {
                                    let k = choose|k: int| 0 <= k < prev.0.len() && prev.0[k] == x as int;
                                    assert(next[k] == x as int);
                                }
                            } else {
                                assert(next[prev.0.len() as int] == id as int);
                            }
                        }
                    }
                    match by_id.get(&id) {
                        Some(k) => {
                            let ghost before = entry_views(out@);
                            assert(lookup(pv, id) matches Some(_));
                            out.push(pool[*k].clone());
                            assert(entry_views(out@) =~= before.push(pool@[*k as int]@));
                        },
                        None => {
                            assert(lookup(pv, id) is None);
                        },
                    }
                } else {
                    assert(seen_before.contains(id));
                }
            },
        }
    }
    assert(peers@.take(n as int) == peers@);
    out
}

/// Fetch-side folder resolution: each folder record (dialog filter) becomes
/// a submenu of the chats it lists explicitly (pinned, then included),
/// matched against the already fetched chats (main dialogs and contacts, then
/// archived chats; for an id present in both, the archived entry). Folders
/// defined only by category flags resolve to nothing and are left out.
pub fn resolve_folders(filters: &Vec<FilterRecord>, main: &Vec<Entry>, archived: &Vec<Entry>) -> (r: Vec<Folder>)
    requires
        filters_fit(filter_views(filters@)),
    ensures
        folder_views(r@) == spec_folders(filter_views(filters@), entry_views(main@) + entry_views(archived@)),
{
    let mut pool = clone_entries(main);
    let mut more = clone_entries(archived);
    let ghost pm = entry_views(pool@);
    let ghost pa = entry_views(more@);
    assert(pm =~= entry_views(main@));
    assert(pa =~= entry_views(archived@));
    pool.append(&mut more);
    let ghost pv = entry_views(pool@);
    assert(pv =~= entry_views(main@) + entry_views(archived@));
    let by_id = index_by_id(&pool);
    let mut out: Vec<Folder> = Vec::new();
    let n = filters.len();
    for i in 0..n
        invariant
            n == filters@.len(),
            filters_fit(filter_views(filters@)),
            pv == entry_views(pool@),
            indexes(by_id@, pv),
            folder_views(out@) == spec_folders(filter_views(filters@).take(i as int), pv),
    {
        let ghost fv = filter_views(filters@);
        proof {
            assert(fv.take(i + 1).drop_last() == fv.take(i as int));
            assert(fv.take(i + 1).last() == filters@[i as int]@);
            assert(fv[i as int] == filters@[i as int]@);
        }
        let parts: Option<(&String, &Vec<InputPeerRef>, &Vec<InputPeerRef>)> = match &filters[i] {
            FilterRecord::Filter { title, pinned, included } => Some((title, pinned, included)),
            FilterRecord::Chatlist { title, pinned, included } => Some((title, pinned, included)),
            FilterRecord::Default => None,
        };
        match parts {
            None => {},
            Some((title, pinned, included)) => {
                let mut peers: Vec<InputPeerRef> = Vec::new();
                let np = pinned.len();
                for j in 0..np
                    invariant
                        np == pinned@.len(),
                        peers@ == pinned@.take(j as int),
                {
                    peers.push(pinned[j]);
                    assert(peers@ =~= pinned@.take(j + 1));
                }
                let ni = included.len();
                for j in 0..ni
                    invariant
                        ni == included@.len(),
                        np == pinned@.len(),
                        peers@ == pinned@ + included@.take(j as int),
                {
                    peers.push(included[j]);
                    assert(peers@ =~= pinned@ + included@.take(j + 1));
                }
                proof {
                    assert(pinned@.take(np as int) == pinned@);
                    assert(included@.take(ni as int) == included@);
                    assert(peers@ == (filter_parts(fv[i as int])->0).1);
                    assert(filter_parts(fv[i as int]) is Some);
                    let ps = (filter_parts(fv[i as int])->0).1;
                    assert forall|j: int| 0 <= j < peers@.len() implies input_fits(#[trigger] peers@[j]) by {
                        assert(peers@[j] == ps[j]);
                    }
                }
                let entries = resolve_folder_peers(&peers, &pool, &by_id);
                if entries.len() > 0 {
                    let ghost before = folder_views(out@);
                    let f = Folder { title: title.clone(), entries };
                    proof {
                        assert(entries.deep_view() =~= entry_views(entries@));
                    }
                    out.push(f);
                    assert(folder_views(out@) =~= before.push(f@));
                }
            },
        }
        assert(folder_views(out@) =~= spec_folders(fv.take(i + 1), pv));
    }
    assert(filter_views(filters@).take(n as int) == filter_views(filters@));
    out
}

// ---------------------------------------------------------------------------
// Paging through the archive
// ---------------------------------------------------------------------------

/// The archive's folder id.
pub const ARCHIVE_FOLDER: i32 = 1;

/// How many dialogs one page asks for.
pub const PAGE_SIZE: i32 = 100;

/// At most this many pages are requested.
pub const MAX_PAGES: u32 = 50;

/// One page of dialogs with the messages, chats and users it mentions.
pub struct DialogsData {
    pub dialogs: Vec<DialogRecord>,
    pub messages: Vec<MessageRecord>,
    pub chats: Vec<ChatRecord>,
    pub users: Vec<UserRecord>,
}

/// The answer to a request for a page of dialogs (`messages.Dialogs`).
pub enum DialogsPage {
    /// All the dialogs there are (`messages.dialogs`).
    Complete(DialogsData),
    /// Part of the dialogs (`messages.dialogsSlice`).
    Slice(DialogsData),
    /// Anything else: not modified, or the request failed.
    Failed,
}

/// The request for the next page of archived dialogs
/// (`messages.getDialogs`).
pub struct ArchiveRequest {
    pub folder_id: i32,
    pub offset_date: i32,
    pub offset_id: i32,
    pub offset_peer: InputPeerRef,
    pub limit: i32,
}

/// The state of a scan of the archive folder.
pub struct ArchiveScan {
    entries: Vec<Entry>,
    seen: HashSet<i64>,
    offset_date: i32,
    offset_id: i32,
    offset_peer: InputPeerRef,
    pages: u32,
    done: bool,
}

pub struct DialogsDataView {
    pub dialogs: Seq<DialogRecord>,
    pub messages: Seq<MessageRecord>,
    pub chats: Seq<ChatRecordView>,
    pub users: Seq<UserRecordView>,
}

pub enum DialogsPageView {
    Complete(DialogsDataView),
    Slice(DialogsDataView),
    Failed,
}

/// The abstract state of an archive scan.
pub struct ArchiveScanView {
    /// The archived chats found so far.
    pub entries: Seq<EntryView>,
    /// The ids of the archived dialogs met so far.
    pub seen: Set<i64>,
    pub offset_date: i32,
    pub offset_id: i32,
    pub offset_peer: InputPeerRef,
    /// Pages answered so far.
    pub pages: nat,
    /// Whether the scan has stopped.
    pub done: bool,
}

impl View for DialogsData {
    type V = DialogsDataView;

    open spec fn view(&self) -> DialogsDataView {
        DialogsDataView {
            dialogs: self.dialogs@,
            messages: self.messages@,
            chats: chat_views(self.chats@),
            users: user_views(self.users@),
        }
    }
}

impl View for DialogsPage {
    type V = DialogsPageView;

    open spec fn view(&self) -> DialogsPageView {
        match self {
            DialogsPage::Complete(d) => DialogsPageView::Complete(d@),
            DialogsPage::Slice(d) => DialogsPageView::Slice(d@),
            DialogsPage::Failed => DialogsPageView::Failed,
        }
    }
}

impl View for ArchiveScan {
    type V = ArchiveScanView;

    closed spec fn view(&self) -> ArchiveScanView {
        ArchiveScanView {
            entries: entry_views(self.entries@),
            seen: self.seen@,
            offset_date: self.offset_date,
            offset_id: self.offset_id,
            offset_peer: self.offset_peer,
            pages: self.pages as nat,
            done: self.done,
        }
    }
}

/// Whether an archived dialog's peer has a Bot-API id that fits in an `i64`.
pub open spec fn archived_peer_fits(d: DialogRecord) -> bool {
    match d {
        DialogRecord::Dialog { peer, folder_id, .. } => folder_id == Some(ARCHIVE_FOLDER)
            ==> peer_fits(peer),
        DialogRecord::Other => true,
    }
}

/// Whether the Bot-API id of every archived dialog's peer on a page (folder
/// 1; the others are skipped) fits in an `i64`.
pub open spec fn page_fits(d: DialogsDataView) -> bool {
    forall|i: int| 0 <= i < d.dialogs.len() ==> archived_peer_fits(#[trigger] d.dialogs[i])
}

/// Scanning a page's dialogs in order: each archived dialog (folder 1) is
/// taken the first time its id comes up, and contributes its resolved entry,
/// if any. Returns the ids met and the entries.
pub open spec fn scan_dialogs(
    ds: Seq<DialogRecord>,
    users: Seq<UserRecordView>,
    chats: Seq<ChatRecordView>,
    seen: Set<i64>,
    out: Seq<EntryView>,
) -> (Set<i64>, Seq<EntryView>)
    decreases ds.len(),
{
    if ds.len() == 0 {
        (seen, out)
    } else {
        let prev = scan_dialogs(ds.drop_last(), users, chats, seen, out);
        match ds.last() {
            DialogRecord::Dialog { peer, folder_id, .. } => if folder_id == Some(ARCHIVE_FOLDER) {
                let id = spec_peer_bot_id(peer) as i64;
                if prev.0.contains(id) {
                    prev
                } else {
                    (
                        prev.0.insert(id),
                        match spec_peer_entry(peer, users, chats) {
                            Some(e) => prev.1.push(e),
                            None => prev.1,
                        },
                    )
                }
            } else {
                prev
            },
            DialogRecord::Other => prev,
        }
    }
}

/// The peer and top message of the last dialog record of a page.
pub open spec fn last_dialog(ds: Seq<DialogRecord>) -> Option<(PeerRef, i32)>
    decreases ds.len(),
{
    if ds.len() == 0 {
        None
    } else {
        match ds.last() {
            DialogRecord::Dialog { peer, top_message, .. } => Some((peer, top_message)),
            DialogRecord::Other => last_dialog(ds.drop_last()),
        }
    }
}

/// The date of the first message with id `id`, else `default`.
pub open spec fn message_date(ms: Seq<MessageRecord>, id: i32, default: i32) -> i32
    decreases ms.len(),
{
    if ms.len() == 0 {
        default
    } else {
        match ms[0] {
            MessageRecord::Message { id: mid, date } => if mid == id {
                date
            } else {
                message_date(ms.skip(1), id, default)
            },
            MessageRecord::Service { id: mid, date } => if mid == id {
                date
            } else {
                message_date(ms.skip(1), id, default)
            },
            MessageRecord::Empty => message_date(ms.skip(1), id, default),
        }
    }
}

/// The scan before any page.
pub open spec fn initial_scan() -> ArchiveScanView {
    ArchiveScanView {
        entries: Seq::empty(),
        seen: Set::empty(),
        offset_date: 0,
        offset_id: 0,
        offset_peer: InputPeerRef::Empty,
        pages: 0,
        done: false,
    }
}

/// The scan after one more page: a failed request or an empty page stops
/// it; otherwise the page's archived dialogs are taken, the offsets move to
/// the page's last dialog, and the scan stops when the page was not a full
/// slice or added no chat.
pub open spec fn spec_feed(s: ArchiveScanView, page: DialogsPageView) -> ArchiveScanView {
    let stopped = ArchiveScanView { pages: s.pages + 1, done: true, ..s };
    let (d, more) = match page {
        DialogsPageView::Complete(d) => (d, false),
        DialogsPageView::Slice(d) => (d, d.dialogs.len() >= PAGE_SIZE),
        DialogsPageView::Failed => (
            DialogsDataView {
                dialogs: Seq::empty(),
                messages: Seq::empty(),
                chats: Seq::empty(),
                users: Seq::empty(),
            },
            false,
        ),
    };
    if d.dialogs.len() == 0 {
        stopped
    } else {
        let scanned = scan_dialogs(d.dialogs, d.users, d.chats, s.seen, s.entries);
        match last_dialog(d.dialogs) {
            None => ArchiveScanView { entries: scanned.1, seen: scanned.0, ..stopped },
            Some(last) => ArchiveScanView {
                entries: scanned.1,
                seen: scanned.0,
                offset_id: last.1,
                offset_date: message_date(d.messages, last.1, s.offset_date),
                offset_peer: spec_input_peer_for(last.0, d.users, d.chats),
                pages: s.pages + 1,
                done: !more || scanned.1.len() == s.entries.len(),
            },
        }
    }
}

fn last_dialog_index(ds: &Vec<DialogRecord>) -> (r: Option<usize>)
    ensures
        match r {
            Some(i) => i < ds@.len() && (ds@[i as int] matches DialogRecord::Dialog { peer, top_message, .. }
                && last_dialog(ds@) == Some((peer, top_message))),
            None => last_dialog(ds@) is None,
        },
{
    let n = ds.len();
    assert(ds@.take(n as int) == ds@);
    for k in 0..n
        invariant
            n == ds@.len(),
            last_dialog(ds@) == last_dialog(ds@.take(n - k)),
    {
        let i = n - 1 - k;
        proof {
            let t = ds@.take(n - k);
            assert(t.last() == ds@[i as int]);
            assert(t.drop_last() == ds@.take(n - k - 1));
        }
        match ds[i] {
            DialogRecord::Dialog { .. } => {
                return Some(i);
            },
            DialogRecord::Other => {},
        }
    }
    assert(ds@.take(0).len() == 0);
    None
}

fn find_message_date(ms: &Vec<MessageRecord>, id: i32, default: i32) -> (r: i32)
    ensures
        r == message_date(ms@, id, default),
{
    let n = ms.len();
    assert(ms@.skip(0) == ms@);
    for i in 0..n
        invariant
            n == ms@.len(),
            message_date(ms@, id, default) == message_date(ms@.skip(i as int), id, default),
    {
        proof {
            let t = ms@.skip(i as int);
            assert(t[0] == ms@[i as int]);
            assert(t.skip(1) == ms@.skip(i + 1));
        }
        match ms[i] {
            MessageRecord::Message { id: mid, date } => {
                if mid == id {
                    return date;
                }
            },
            MessageRecord::Service { id: mid, date } => {
                if mid == id {
                    return date;
                }
            },
            MessageRecord::Empty => {},
        }
    }
    assert(ms@.skip(n as int).len() == 0);
    default
}

impl ArchiveScan {
    #[verifier::type_invariant]
    closed spec fn scan_ok(&self) -> bool {
        &&& self.pages <= MAX_PAGES
        &&& !(self.offset_peer is Other)
    }

    /// A scan that has asked for nothing yet.
    pub fn new() -> (r: ArchiveScan)
        ensures
            r@ == initial_scan(),
    {
        let r = ArchiveScan {
            entries: Vec::new(),
            seen: HashSet::new(),
            offset_date: 0,
            offset_id: 0,
            offset_peer: InputPeerRef::Empty,
            pages: 0,
            done: false,
        };
        assert(entry_views(r.entries@) =~= Seq::<EntryView>::empty());
        r
    }

    /// Whether another page may be asked for.
    pub open spec fn wants_more(s: ArchiveScanView) -> bool {
        !s.done && s.pages < MAX_PAGES
    }

    /// The request for the next page of the archive (folder 1, 100 dialogs,
    /// from the current offsets), or `None` once the scan has stopped or has
    /// asked for its 50 pages.
    pub fn next_request(&self) -> (r: Option<ArchiveRequest>)
        ensures
            r is None <==> !Self::wants_more(self@),
            r matches Some(q) ==> q.folder_id == ARCHIVE_FOLDER && q.limit == PAGE_SIZE
                && q.offset_date == self@.offset_date && q.offset_id == self@.offset_id
                && q.offset_peer == self@.offset_peer && !(q.offset_peer is Other),
    {
        proof {
            use_type_invariant(self);
        }
        if self.done || self.pages >= MAX_PAGES {
            None
        } else {
            Some(
                ArchiveRequest {
                    folder_id: ARCHIVE_FOLDER,
                    offset_date: self.offset_date,
                    offset_id: self.offset_id,
                    offset_peer: self.offset_peer,
                    limit: PAGE_SIZE,
                },
            )
        }
    }

    /// Takes in the answer to the last request.
    pub fn feed(&mut self, page: DialogsPage)
        requires
            Self::wants_more(old(self)@),
            match page@ {
                DialogsPageView::Complete(d) => page_fits(d),
                DialogsPageView::Slice(d) => page_fits(d),
                DialogsPageView::Failed => true,
            },
        ensures
            final(self)@ == spec_feed(old(self)@, page@),
    {
        proof {
            use_type_invariant(&*self);
        }
        let ghost s = self@;
        let (d, more) = match page {
            DialogsPage::Complete(d) => (d, false),
            DialogsPage::Slice(d) => {
                let more = d.dialogs.len() >= PAGE_SIZE as usize;
                (d, more)
            },
            DialogsPage::Failed => {
                self.pages = self.pages + 1;
                self.done = true;
                return;
            },
        };
        if d.dialogs.len() == 0 {
            self.pages = self.pages + 1;
            self.done = true;
            return;
        }
        let ghost dv = d@;
        let before = self.entries.len();
        let mut entries: Vec<Entry> = Vec::new();
        let mut seen: HashSet<i64> = HashSet::new();
        std::mem::swap(&mut entries, &mut self.entries);
        std::mem::swap(&mut seen, &mut self.seen);
        let n = d.dialogs.len();
        for i in 0..n
            invariant
                n == d.dialogs@.len(),
                dv == d@,
                page_fits(dv),
                (seen@, entry_views(entries@)) == scan_dialogs(
                    d.dialogs@.take(i as int),
                    dv.users,
                    dv.chats,
                    s.seen,
                    s.entries,
                ),
        {
            proof {
                assert(d.dialogs@.take(i + 1).drop_last() == d.dialogs@.take(i as int));
                assert(d.dialogs@.take(i + 1).last() == d.dialogs@[i as int]);
                assert(dv.dialogs[i as int] == d.dialogs@[i as int]);
            }
            match d.dialogs[i] {
                DialogRecord::Dialog { peer, folder_id, .. } => {
                    if folder_id == Some(ARCHIVE_FOLDER) {
                        let id = peer_bot_id(&peer);
                        if seen.insert(id) {
                            match build_peer_entry(&peer, &d.users, &d.chats) {
                                Some(e) => {
                                    let ghost prior = entry_views(entries@);
                                    entries.push(e);
                                    assert(entry_views(entries@) =~= prior.push(e@));
                                },
                                None => {},
                            }
                        }
                    }
                },
                DialogRecord::Other => {},
            }
        }
        assert(d.dialogs@.take(n as int) == d.dialogs@);
        let found = entries.len();
        self.entries = entries;
        self.seen = seen;
        self.pages = self.pages + 1;
        match last_dialog_index(&d.dialogs) {
            None => {
                self.done = true;
            },
            Some(k) => {
                match d.dialogs[k] {
                    DialogRecord::Dialog { peer, top_message, .. } => {
                        self.offset_id = top_message;
                        self.offset_date = find_message_date(&d.messages, top_message, self.offset_date);
                        self.offset_peer = input_peer_for(&peer, &d.users, &d.chats);
                    },
                    DialogRecord::Other => {},
                }
                self.done = !more || found == before;
            },
        }
    }

    /// Whether the scan has stopped on its own (before its page limit).
    pub fn finished(&self) -> (r: bool)
        ensures
            r == self@.done,
    {
        self.done
    }

    /// The archived chats found, in the order they were met.
    pub fn into_entries(self) -> (r: Vec<Entry>)
        ensures
            entry_views(r@) == self@.entries,
    {
        self.entries
    }
}

// ---------------------------------------------------------------------------
// Laws
// ---------------------------------------------------------------------------

proof fn lemma_first_user_id(users: Seq<UserRecordView>, id: i64)
    ensures
        first_user(users, id) matches Some(u) ==> u.id == id,
    decreases users.len(),
{
    if users.len() > 0 {
        lemma_first_user_id(users.skip(1), id);
    }
}

proof fn lemma_first_chat_id(chats: Seq<ChatRecordView>, id: i64)
    ensures
        first_chat(chats, id) matches Some(c) ==> (c matches ChatRecordView::Chat { id: cid, .. }
            && cid == id),
        first_channel(chats, id) matches Some(c) ==> (c matches ChatRecordView::Channel { id: cid, .. }
            && cid == id),
    decreases chats.len(),
{
    if chats.len() > 0 {
        lemma_first_chat_id(chats.skip(1), id);
    }
}

/// A resolved peer's entry carries the peer's own Bot-API id.
pub proof fn lemma_peer_entry_id(peer: PeerRef, users: Seq<UserRecordView>, chats: Seq<ChatRecordView>)
    requires
        peer_fits(peer),
    ensures
        spec_peer_entry(peer, users, chats) matches Some(e) ==> e.id == spec_peer_bot_id(peer),
{
    match peer {
        PeerRef::User(uid) => lemma_first_user_id(users, uid),
        PeerRef::Chat(cid) => lemma_first_chat_id(chats, cid),
        PeerRef::Channel(cid) => lemma_first_chat_id(chats, cid),
    }
}

/// Whether no two entries share an id.
pub open spec fn distinct_ids(es: Seq<EntryView>) -> bool {
    forall|i: int, j: int| 0 <= i < j < es.len() ==> #[trigger] es[i].id != #[trigger] es[j].id
}

/// Merging contacts keeps the dialog entries as they are, in front; every
/// contact's id ends up present; and if the dialogs name each id once, so
/// does the result.
pub proof fn lemma_merge_contacts(es: Seq<EntryView>, cs: Seq<EntryView>)
    ensures
        spec_merge(es, cs).len() >= es.len(),
        spec_merge(es, cs).take(es.len() as int) == es,
        forall|k: int| 0 <= k < cs.len() ==> has_id(spec_merge(es, cs), #[trigger] cs[k].id),
        distinct_ids(es) ==> distinct_ids(spec_merge(es, cs)),
    decreases cs.len(),
{
    if cs.len() > 0 {
        let prev = spec_merge(es, cs.drop_last());
        lemma_merge_contacts(es, cs.drop_last());
        let m = spec_merge(es, cs);
        let c = cs.last();
        if !has_id(prev, c.id) {
            assert(m == prev.push(c));
            assert(m.take(es.len() as int) == prev.take(es.len() as int));
            assert(m[prev.len() as int].id == c.id);
        }
        assert forall|k: int| 0 <= k < cs.len() implies has_id(m, #[trigger] cs[k].id) by {
            if k < cs.len() - 1 {
                assert(cs.drop_last()[k] == cs[k]);
                assert(has_id(prev, cs[k].id));
                let w = choose|w: int| 0 <= w < prev.len() && (#[trigger] prev[w]).id == cs[k].id;
                assert(m[w] == prev[w]);
            } else if has_id(prev, c.id) {
                let w = choose|w: int| 0 <= w < prev.len() && (#[trigger] prev[w]).id == c.id;
                assert(m[w] == prev[w]);
            }
        }
        if distinct_ids(es) && !has_id(prev, c.id) {
            assert forall|i: int, j: int| 0 <= i < j < m.len() implies #[trigger] m[i].id != #[trigger] m[j].id by {
                if j == m.len() - 1 {
                    assert(m[i] == prev[i]);
                    if m[i].id == c.id {
                        assert(has_id(prev, c.id));
                    }
                } else {
                    assert(m[i] == prev[i] && m[j] == prev[j]);
                }
            }
        }
    }
}

proof fn lemma_lookup_id(pool: Seq<EntryView>, id: i64)
    ensures
        lookup(pool, id) matches Some(e) ==> e.id == id && pool.contains(e),
    decreases pool.len(),
{
    if pool.len() > 0 {
        lemma_lookup_id(pool.drop_last(), id);
        if pool.last().id != id {
            match lookup(pool.drop_last(), id) {
                Some(e) => {
                    let k = choose|k: int| 0 <= k < pool.drop_last().len() && pool.drop_last()[k] == e;
                    assert(pool[k] == e);
                },
                None => {},
            }
        } else {
            assert(pool[pool.len() - 1] == pool.last());
        }
    }
}

/// Resolving a folder's peers takes each chat once: the entries are all
/// from the pool, their ids are distinct, and each is one of the ids taken.
pub proof fn lemma_resolve_peers(peers: Seq<InputPeerRef>, pool: Seq<EntryView>)
    requires
        forall|j: int| 0 <= j < peers.len() ==> input_fits(#[trigger] peers[j]),
    ensures
        distinct_ids(resolve_peers(peers, pool).1),
        forall|k: int|
            0 <= k < resolve_peers(peers, pool).1.len() ==> pool.contains(
                #[trigger] resolve_peers(peers, pool).1[k],
            ) && resolve_peers(peers, pool).0.contains(resolve_peers(peers, pool).1[k].id as int),
    decreases peers.len(),
{
    if peers.len() > 0 {
        let prev = resolve_peers(peers.drop_last(), pool);
        assert forall|j: int| 0 <= j < peers.drop_last().len() implies input_fits(#[trigger] peers.drop_last()[j]) by {
            assert(peers.drop_last()[j] == peers[j]);
        }
        lemma_resolve_peers(peers.drop_last(), pool);
        let cur = resolve_peers(peers, pool);
        assert(input_fits(peers[peers.len() - 1]));
        assert(peers.last() == peers[peers.len() - 1]);
        match spec_input_bot_id(peers.last()) {
            None => {},
            Some(id) => {
                assert(i64::MIN <= id <= i64::MAX);
                if !prev.0.contains(id) {
                    lemma_lookup_id(pool, id as i64);
                    assert forall|k: int| 0 <= k < prev.1.len() implies cur.1[k] == prev.1[k] && (#[trigger] cur.0).contains(prev.1[k].id as int) by {
                        assert(prev.0.contains(prev.1[k].id as int));
                        let w = choose|w: int| 0 <= w < prev.0.len() && prev.0[w] == prev.1[k].id as int;
                        assert(cur.0[w] == prev.0[w]);
                    }
                    assert(cur.0[prev.0.len() as int] == id);
                    match lookup(pool, id as i64) {
                        Some(e) => {
                            assert(cur.1 == prev.1.push(e));
                            assert(e.id as int == id);
                            assert forall|i: int, j: int| 0 <= i < j < cur.1.len() implies #[trigger] cur.1[i].id != #[trigger] cur.1[j].id by {
                                if j == cur.1.len() - 1 {
                                    assert(cur.1[i] == prev.1[i]);
                                    assert(prev.0.contains(prev.1[i].id as int));
                                } else {
                                    assert(cur.1[i] == prev.1[i] && cur.1[j] == prev.1[j]);
                                }
                            }
                            assert(cur.0.contains(e.id as int));
                        },
                        None => {},
                    }
                }
            },
        }
    }
}

/// The archive scan lists each archived chat once: the entries found never
/// share an id, and each entry's id is among the ids met.
pub proof fn lemma_scan_dialogs(
    ds: Seq<DialogRecord>,
    users: Seq<UserRecordView>,
    chats: Seq<ChatRecordView>,
    seen: Set<i64>,
    out: Seq<EntryView>,
)
    requires
        distinct_ids(out),
        forall|k: int| 0 <= k < out.len() ==> seen.contains(#[trigger] out[k].id),
        forall|i: int| 0 <= i < ds.len() ==> archived_peer_fits(#[trigger] ds[i]),
    ensures
        distinct_ids(scan_dialogs(ds, users, chats, seen, out).1),
        forall|k: int|
            0 <= k < scan_dialogs(ds, users, chats, seen, out).1.len() ==> scan_dialogs(
                ds,
                users,
                chats,
                seen,
                out,
            ).0.contains(#[trigger] scan_dialogs(ds, users, chats, seen, out).1[k].id),
    decreases ds.len(),
{
    if ds.len() > 0 {
        let w = ds.drop_last();
        assert forall|i: int| 0 <= i < w.len() implies archived_peer_fits(#[trigger] w[i]) by {
            assert(w[i] == ds[i]);
        }
        lemma_scan_dialogs(w, users, chats, seen, out);
        let prev = scan_dialogs(w, users, chats, seen, out);
        let cur = scan_dialogs(ds, users, chats, seen, out);
        assert(ds.last() == ds[ds.len() - 1]);
        match ds.last() {
            DialogRecord::Dialog { peer, folder_id, .. } => {
                if folder_id == Some(ARCHIVE_FOLDER) {
                    let id = spec_peer_bot_id(peer) as i64;
                    if !prev.0.contains(id) {
                        lemma_peer_entry_id(peer, users, chats);
                        match spec_peer_entry(peer, users, chats) {
                            Some(e) => {
                                assert(e.id == id);
                                assert forall|i: int, j: int| 0 <= i < j < cur.1.len() implies #[trigger] cur.1[i].id != #[trigger] cur.1[j].id by {
                                    if j == cur.1.len() - 1 {
                                        assert(cur.1[i] == prev.1[i]);
                                        assert(prev.0.contains(prev.1[i].id));
                                    } else {
                                        assert(cur.1[i] == prev.1[i] && cur.1[j] == prev.1[j]);
                                    }
                                }
                                assert forall|k: int| 0 <= k < cur.1.len() implies cur.0.contains(#[trigger] cur.1[k].id) by {
                                    if k < prev.1.len() {
                                        assert(cur.1[k] == prev.1[k]);
                                    }
                                }
                            },
                            None => {},
                        }
                    }
                }
            },
            DialogRecord::Other => {},
        }
    }
}


/// What the archive scan keeps from page to page: no two entries share an
/// id, and each entry's id is among the ids met.
pub open spec fn lists_once(s: ArchiveScanView) -> bool {
    &&& distinct_ids(s.entries)
    &&& forall|k: int| 0 <= k < s.entries.len() ==> s.seen.contains(#[trigger] s.entries[k].id)
}

/// Across all its pages the archive scan lists each archived chat once: a
/// fresh scan does, and every page fed keeps it so; each page fed counts one
/// against the page limit.
pub proof fn lemma_scan_lists_once(s: ArchiveScanView, page: DialogsPageView)
    requires
        lists_once(s),
        match page {
            DialogsPageView::Complete(d) => page_fits(d),
            DialogsPageView::Slice(d) => page_fits(d),
            DialogsPageView::Failed => true,
        },
    ensures
        lists_once(initial_scan()),
        lists_once(spec_feed(s, page)),
        spec_feed(s, page).pages == s.pages + 1,
{
    match page {
        DialogsPageView::Complete(d) => {
            lemma_scan_dialogs(d.dialogs, d.users, d.chats, s.seen, s.entries);
        },
        DialogsPageView::Slice(d) => {
            lemma_scan_dialogs(d.dialogs, d.users, d.chats, s.seen, s.entries);
        },
        DialogsPageView::Failed => {},
    }
}

/// A dialog's cache entry names its peer's kind: a user gives "user", a
/// group "group" and a channel "channel", so peers of different kinds never
/// get the same kind word; a group without topics is badged "group" in the
/// menu and a channel "channel". The entry keeps the dialog's name (or
/// "(no name)"), username and topics.
pub proof fn lemma_dialog_entry_kind(p: DialogPeerView, q: DialogPeerView, topics: Seq<TopicView>)
    ensures
        p.kind == PeerKind::User ==> spec_dialog_entry(p, topics).kind == "user"@,
        p.kind == PeerKind::Group ==> spec_dialog_entry(p, topics).kind == "group"@,
        p.kind == PeerKind::Channel ==> spec_dialog_entry(p, topics).kind == "channel"@,
        p.kind != q.kind ==> spec_dialog_entry(p, topics).kind != spec_dialog_entry(q, topics).kind,
        topics.len() == 0 && p.kind == PeerKind::Group ==> crate::menu::spec_badge(
            spec_dialog_entry(p, topics),
        ) == "group"@,
        topics.len() == 0 && p.kind == PeerKind::Channel ==> crate::menu::spec_badge(
            spec_dialog_entry(p, topics),
        ) == "channel"@,
        spec_dialog_entry(p, topics).name == match p.name {
            Some(n) => n,
            None => "(no name)"@,
        },
        spec_dialog_entry(p, topics).username == p.username,
        spec_dialog_entry(p, topics).topics == topics,
{
    reveal_strlit("user");
    reveal_strlit("group");
    reveal_strlit("channel");
    assert("user"@ != "group"@ && "user"@ != "channel"@ && "group"@ != "channel"@) by {
        assert("user"@.len() != "group"@.len());
        assert("user"@[0] != "channel"@[0]);
        assert("group"@.len() != "channel"@.len());
    }
}

} // verus!
