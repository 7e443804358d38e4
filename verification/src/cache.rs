//! The dialog cache: what one account's chat list holds. Reading and writing
//! the JSON file is done by the program around the library.

use vstd::prelude::*;

use crate::text::{decimal, owned, push_decimal, push_str};

verus! {

/// A chat, group, channel or contact of one account.
pub struct Entry {
    /// Display name (user first name, or group/channel title).
    pub name: String,
    /// Public @username without the "@", if any. Preferred for deep links.
    pub username: Option<String>,
    /// Bot-API style id (positive for users). Used for username-less private chats.
    pub id: i64,
    /// "user" | "group" | "channel".
    pub kind: String,
    /// Forum topics, if this is a forum supergroup (empty otherwise).
    pub topics: Vec<Topic>,
}

/// A forum topic of a supergroup.
pub struct Topic {
    pub id: i64,
    pub title: String,
}

/// A Telegram chat folder (dialog filter), surfaced as a submenu of its chats.
pub struct Folder {
    pub title: String,
    pub entries: Vec<Entry>,
}

/// Full cache for a single account.
pub struct AccountCache {
    /// 1-based account index (mirrors config).
    pub acc: i32,
    /// Label shown in the menu.
    pub label: String,
    /// This account's own user id, used for the Saved Messages row; 0 when
    /// unknown (the row is then omitted).
    pub me_id: i64,
    /// This account's own @username, if any (for the Saved Messages deep link).
    pub me_username: Option<String>,
    pub entries: Vec<Entry>,
    /// Archived chats (folder 1), surfaced behind a separate menu item.
    pub archived: Vec<Entry>,
    /// User-defined chat folders (dialog filters), each a submenu of chats.
    pub folders: Vec<Folder>,
}

/// The abstract value of a [`Topic`].
pub struct TopicView {
    pub id: i64,
    pub title: Seq<char>,
}

/// The abstract value of an [`Entry`].
pub struct EntryView {
    pub name: Seq<char>,
    pub username: Option<Seq<char>>,
    pub id: i64,
    pub kind: Seq<char>,
    pub topics: Seq<TopicView>,
}

/// The abstract value of a [`Folder`].
pub struct FolderView {
    pub title: Seq<char>,
    pub entries: Seq<EntryView>,
}

/// The abstract value of an [`AccountCache`].
pub struct AccountCacheView {
    pub acc: i32,
    pub label: Seq<char>,
    pub me_id: i64,
    pub me_username: Option<Seq<char>>,
    pub entries: Seq<EntryView>,
    pub archived: Seq<EntryView>,
    pub folders: Seq<FolderView>,
}

impl View for Topic {
    type V = TopicView;

    open spec fn view(&self) -> TopicView {
        TopicView { id: self.id, title: self.title@ }
    }
}

impl DeepView for Topic {
    type V = TopicView;

    open spec fn deep_view(&self) -> TopicView {
        self@
    }
}

impl View for Entry {
    type V = EntryView;

    open spec fn view(&self) -> EntryView {
        EntryView {
            name: self.name@,
            username: self.username.deep_view(),
            id: self.id,
            kind: self.kind@,
            topics: self.topics.deep_view(),
        }
    }
}

impl DeepView for Entry {
    type V = EntryView;

    open spec fn deep_view(&self) -> EntryView {
        self@
    }
}

impl View for Folder {
    type V = FolderView;

    open spec fn view(&self) -> FolderView {
        FolderView { title: self.title@, entries: self.entries.deep_view() }
    }
}

impl DeepView for Folder {
    type V = FolderView;

    open spec fn deep_view(&self) -> FolderView {
        self@
    }
}

impl View for AccountCache {
    type V = AccountCacheView;

    open spec fn view(&self) -> AccountCacheView {
        AccountCacheView {
            acc: self.acc,
            label: self.label@,
            me_id: self.me_id,
            me_username: self.me_username.deep_view(),
            entries: self.entries.deep_view(),
            archived: self.archived.deep_view(),
            folders: self.folders.deep_view(),
        }
    }
}

/// A copy of an optional string.
pub fn clone_opt_string(s: &Option<String>) -> (r: Option<String>)
    ensures
        r.deep_view() == s.deep_view(),
{
    match s {
        Some(t) => Some(t.clone()),
        None => None,
    }
}

impl Clone for Topic {
    fn clone(&self) -> (r: Self)
        ensures
            r@ == self@,
    {
        Topic { id: self.id, title: self.title.clone() }
    }
}

/// A copy of a list of topics.
pub fn clone_topics(v: &Vec<Topic>) -> (r: Vec<Topic>)
    ensures
        r.deep_view() == v.deep_view(),
{
    let mut r: Vec<Topic> = Vec::new();
    let n = v.len();
    for i in 0..n
        invariant
            n == v@.len(),
            r@.len() == i,
            forall|j: int| 0 <= j < i ==> #[trigger] r@[j]@ == v@[j]@,
    {
        r.push(v[i].clone());
    }
    assert(r.deep_view() =~= v.deep_view());
    r
}

impl Clone for Entry {
    fn clone(&self) -> (r: Self)
        ensures
            r@ == self@,
    {
        Entry {
            name: self.name.clone(),
            username: clone_opt_string(&self.username),
            id: self.id,
            kind: self.kind.clone(),
            topics: clone_topics(&self.topics),
        }
    }
}

/// A copy of a list of entries.
pub fn clone_entries(v: &Vec<Entry>) -> (r: Vec<Entry>)
    ensures
        r.deep_view() == v.deep_view(),
        r@.len() == v@.len(),
        forall|i: int| 0 <= i < v@.len() ==> #[trigger] r@[i]@ == v@[i]@,
{
    let mut r: Vec<Entry> = Vec::new();
    let n = v.len();
    for i in 0..n
        invariant
            n == v@.len(),
            r@.len() == i,
            forall|j: int| 0 <= j < i ==> #[trigger] r@[j]@ == v@[j]@,
    {
        r.push(v[i].clone());
    }
    assert(r.deep_view() =~= v.deep_view());
    r
}

/// The line that reports a finished sync of an account.
pub open spec fn spec_sync_report(label: Seq<char>, c: AccountCacheView) -> Seq<char> {
    "synced '"@ + label + "' ("@ + decimal(c.entries.len() as int) + " chats, "@ + decimal(
        c.archived.len() as int,
    ) + " archived, "@ + decimal(c.folders.len() as int) + " folders)"@
}

/// The line that reports a finished sync: the account's label and how many
/// chats, archived chats and folders its cache holds.
pub fn sync_report(label: &str, cache: &AccountCache) -> (r: String)
    ensures
        r@ == spec_sync_report(label@, cache@),
{
    let mut s = owned("synced '");
    push_str(&mut s, label);
    push_str(&mut s, "' (");
    push_decimal(&mut s, cache.entries.len() as i128);
    push_str(&mut s, " chats, ");
    push_decimal(&mut s, cache.archived.len() as i128);
    push_str(&mut s, " archived, ");
    push_decimal(&mut s, cache.folders.len() as i128);
    push_str(&mut s, " folders)");
    s
}

} // verus!
