//! The quick-switcher menu: the flat, cross-account list of rows, the
//! submenus, and what a choice leads to. Showing rofi, ranking rows by
//! frecency score, switching accounts and opening links are done by the
//! program around the library, which feeds each answer back here.

use vstd::prelude::*;

use crate::cache::{
    clone_entries, clone_opt_string, AccountCache, AccountCacheView, Entry, EntryView, Folder,
    FolderView, Topic, TopicView,
};
use crate::config::Account;
use crate::link::{build, build_topic, spec_build, spec_build_topic};
use crate::text::{decimal, decimal_string, owned, push_decimal, push_str, str_eq, views};

verus! {

/// What a main-menu row jumps to.
pub enum Target {
    /// A chat/group/channel/contact (may itself expand into forum topics).
    Chat { switch_key: String, entry: Entry },
    /// A single forum topic, listed flat so it's searchable on first keystroke.
    Topic { switch_key: String, entry: Entry, topic_id: i64 },
    /// An account's archive folder; expands into a submenu of archived chats.
    Archive { switch_key: String, label: String, entries: Vec<Entry> },
    /// A chat folder (dialog filter); expands into a submenu of its chats.
    Folder { switch_key: String, title: String, entries: Vec<Entry> },
}

/// One selectable row: its display line, what it jumps to, and the peer id
/// used for frecency scoring (`None` for the folder/archive header rows).
pub struct Row {
    pub line: String,
    pub target: Target,
    pub id: Option<i64>,
}

/// The abstract value of a [`Target`].
pub enum TargetView {
    Chat { switch_key: Seq<char>, entry: EntryView },
    Topic { switch_key: Seq<char>, entry: EntryView, topic_id: i64 },
    Archive { switch_key: Seq<char>, label: Seq<char>, entries: Seq<EntryView> },
    Folder { switch_key: Seq<char>, title: Seq<char>, entries: Seq<EntryView> },
}

/// The abstract value of a [`Row`].
pub struct RowView {
    pub line: Seq<char>,
    pub target: TargetView,
    pub id: Option<i64>,
}

impl View for Target {
    type V = TargetView;

    open spec fn view(&self) -> TargetView {
        match self {
            Target::Chat { switch_key, entry } => TargetView::Chat {
                switch_key: switch_key@,
                entry: entry@,
            },
            Target::Topic { switch_key, entry, topic_id } => TargetView::Topic {
                switch_key: switch_key@,
                entry: entry@,
                topic_id: *topic_id,
            },
            Target::Archive { switch_key, label, entries } => TargetView::Archive {
                switch_key: switch_key@,
                label: label@,
                entries: entries.deep_view(),
            },
            Target::Folder { switch_key, title, entries } => TargetView::Folder {
                switch_key: switch_key@,
                title: title@,
                entries: entries.deep_view(),
            },
        }
    }
}

impl View for Row {
    type V = RowView;

    open spec fn view(&self) -> RowView {
        RowView { line: self.line@, target: self.target@, id: self.id }
    }
}

impl DeepView for Row {
    type V = RowView;

    open spec fn deep_view(&self) -> RowView {
        self@
    }
}

// ---------------------------------------------------------------------------
// Row text
// ---------------------------------------------------------------------------

/// A trailing `  ·  @handle` fragment, so rows are searchable by public
/// username too; empty when the peer has none.
pub open spec fn spec_handle(e: EntryView) -> Seq<char> {
    match e.username {
        Some(u) => "  ·  @"@ + u,
        None => Seq::empty(),
    }
}

/// The kind badge of an entry: forums first, then by kind.
pub open spec fn spec_badge(e: EntryView) -> Seq<char> {
    if e.topics.len() > 0 {
        "forum ▸"@
    } else if e.kind == "user"@ {
        "dm"@
    } else if e.kind == "channel"@ {
        "channel"@
    } else {
        "group"@
    }
}

/// An entry's line in a submenu: name, handle, badge.
pub open spec fn spec_entry_line(e: EntryView) -> Seq<char> {
    e.name + spec_handle(e) + "  ·  "@ + spec_badge(e)
}

/// The `[label] ` tag that starts every main-menu line.
pub open spec fn tag(label: Seq<char>) -> Seq<char> {
    "["@ + label + "] "@
}

/// A trailing `  ·  @handle` fragment for `entry`.
pub fn handle(entry: &Entry) -> (r: String)
    ensures
        r@ == spec_handle(entry@),
{
    match &entry.username {
        Some(u) => {
            let mut s = owned("  ·  @");
            push_str(&mut s, u.as_str());
            s
        },
        None => String::new(),
    }
}

/// The kind badge of `entry`.
pub fn badge(entry: &Entry) -> (r: &'static str)
    ensures
        r@ == spec_badge(entry@),
{
    if entry.topics.len() > 0 {
        return "forum ▸";
    }
    if str_eq(entry.kind.as_str(), "user") {
        "dm"
    } else if str_eq(entry.kind.as_str(), "channel") {
        "channel"
    } else {
        "group"
    }
}

/// An entry's line in a submenu.
pub fn entry_line(entry: &Entry) -> (r: String)
    ensures
        r@ == spec_entry_line(entry@),
{
    let mut s = owned(entry.name.as_str());
    let h = handle(entry);
    push_str(&mut s, h.as_str());
    push_str(&mut s, "  ·  ");
    push_str(&mut s, badge(entry));
    s
}

fn tagged(label: &str) -> (r: String)
    ensures
        r@ == tag(label@),
{
    let mut s = owned("[");
    push_str(&mut s, label);
    push_str(&mut s, "] ");
    s
}

// ---------------------------------------------------------------------------
// The main menu
// ---------------------------------------------------------------------------

/// The Saved Messages entry of an account.
pub open spec fn saved_entry(c: AccountCacheView) -> EntryView {
    EntryView {
        name: "Saved Messages"@,
        username: c.me_username,
        id: c.me_id,
        kind: "user"@,
        topics: Seq::empty(),
    }
}

/// The row of a chat.
pub open spec fn chat_row(label: Seq<char>, key: Seq<char>, e: EntryView) -> RowView {
    RowView {
        line: tag(label) + e.name + spec_handle(e) + "  ·  "@ + spec_badge(e),
        target: TargetView::Chat { switch_key: key, entry: e },
        id: Some(e.id),
    }
}

/// The row of a forum topic.
pub open spec fn topic_row(label: Seq<char>, key: Seq<char>, e: EntryView, t: TopicView) -> RowView {
    RowView {
        line: tag(label) + e.name + " ▸ "@ + t.title + "  ·  topic"@,
        target: TargetView::Topic { switch_key: key, entry: e, topic_id: t.id },
        id: Some(e.id),
    }
}

/// The rows of one cached entry: none for the account's own chat (it has its
/// Saved Messages row), else its row and one row per forum topic.
pub open spec fn rows_of_entry(label: Seq<char>, key: Seq<char>, me: i64, e: EntryView) -> Seq<RowView> {
    if e.id == me {
        Seq::empty()
    } else {
        seq![chat_row(label, key, e)] + Seq::new(
            e.topics.len(),
            |i: int| topic_row(label, key, e, e.topics[i]),
        )
    }
}

/// The rows of a list of entries, in order.
pub open spec fn entry_rows(label: Seq<char>, key: Seq<char>, me: i64, es: Seq<EntryView>) -> Seq<RowView>
    decreases es.len(),
{
    if es.len() == 0 {
        Seq::empty()
    } else {
        entry_rows(label, key, me, es.drop_last()) + rows_of_entry(label, key, me, es.last())
    }
}

/// The row of a chat folder.
pub open spec fn folder_row(label: Seq<char>, key: Seq<char>, f: FolderView) -> RowView {
    RowView {
        line: tag(label) + "📁 "@ + f.title + "  ·  "@ + decimal(f.entries.len() as int) + " ▸"@,
        target: TargetView::Folder { switch_key: key, title: f.title, entries: f.entries },
        id: None,
    }
}

/// The Saved Messages row of an account, when its own id is known.
pub open spec fn saved_rows(label: Seq<char>, key: Seq<char>, c: AccountCacheView) -> Seq<RowView> {
    if c.me_id != 0 {
        seq![
            RowView {
                line: tag(label) + "⭐ Saved Messages"@,
                target: TargetView::Chat { switch_key: key, entry: saved_entry(c) },
                id: Some(c.me_id),
            },
        ]
    } else {
        Seq::empty()
    }
}

/// The archive row of an account, when it has archived chats.
pub open spec fn archive_rows(label: Seq<char>, key: Seq<char>, c: AccountCacheView) -> Seq<RowView> {
    if c.archived.len() > 0 {
        seq![
            RowView {
                line: tag(label) + "🗄 Archived  ·  "@ + decimal(c.archived.len() as int) + " ▸"@,
                target: TargetView::Archive { switch_key: key, label: label, entries: c.archived },
                id: None,
            },
        ]
    } else {
        Seq::empty()
    }
}

/// All main-menu rows of one account, tagged with its label: Saved Messages,
/// then each chat with its forum topics, then the folders, then the archive.
pub open spec fn spec_account_rows(a: Account, c: AccountCacheView) -> Seq<RowView> {
    let label = a.label@;
    let key = a.switch_key@;
    saved_rows(label, key, c) + entry_rows(label, key, c.me_id, c.entries) + Seq::new(
        c.folders.len(),
        |i: int| folder_row(label, key, c.folders[i]),
    ) + archive_rows(label, key, c)
}

/// The views of a list of rows.
pub open spec fn row_views(v: Seq<Row>) -> Seq<RowView> {
    v.map_values(|r: Row| r@)
}

/// The views of a list of optional caches.
pub open spec fn cache_views(v: Seq<Option<AccountCache>>) -> Seq<Option<AccountCacheView>> {
    v.map_values(|o: Option<AccountCache>| match o {
        Some(c) => Some(c@),
        None => None,
    })
}

/// The rows of every account whose cache is present, in account order.
pub open spec fn spec_rows(accounts: Seq<Account>, caches: Seq<Option<AccountCacheView>>) -> Seq<RowView>
    decreases accounts.len(),
{
    if accounts.len() == 0 || caches.len() == 0 {
        Seq::empty()
    } else {
        spec_rows(accounts.drop_last(), caches.drop_last()) + match caches.last() {
            Some(c) => spec_account_rows(accounts.last(), c),
            None => Seq::empty(),
        }
    }
}

fn push_row(rows: &mut Vec<Row>, row: Row)
    ensures
        row_views(final(rows)@) == row_views(old(rows)@).push(row@),
{
    rows.push(row);
    assert(row_views(rows@) =~= row_views(old(rows)@).push(row@));
}

fn entry_rows_into(rows: &mut Vec<Row>, label: &str, key: &str, me: i64, entries: &Vec<Entry>)
    ensures
        row_views(final(rows)@) == row_views(old(rows)@) + entry_rows(
            label@,
            key@,
            me,
            entries.deep_view(),
        ),
{
    let n = entries.len();
    let ghost start = row_views(rows@);
    for i in 0..n
        invariant
            n == entries@.len(),
            row_views(rows@) == start + entry_rows(label@, key@, me, entries.deep_view().take(i as int)),
    {
        let ghost es = entries.deep_view();
        let ghost before = row_views(rows@);
        proof {
            assert(es.take(i + 1).drop_last() == es.take(i as int));
            assert(es.take(i + 1).last() == entries@[i as int]@);
        }
        let e = &entries[i];
        if e.id != me {
            let mut line = tagged(label);
            push_str(&mut line, e.name.as_str());
            let h = handle(e);
            push_str(&mut line, h.as_str());
            push_str(&mut line, "  ·  ");
            push_str(&mut line, badge(e));
            push_row(rows, Row { line, target: Target::Chat { switch_key: owned(key), entry: e.clone() }, id: Some(e.id) });
            let m = e.topics.len();
            let ghost mid = row_views(rows@);
            for j in 0..m
                invariant
                    m == e.topics@.len(),
                    e == &entries@[i as int],
                    row_views(rows@) == mid + Seq::new(
                        j as nat,
                        |k: int| topic_row(label@, key@, e@, e@.topics[k]),
                    ),
            {
                let t = &e.topics[j];
                let mut line = tagged(label);
                push_str(&mut line, e.name.as_str());
                push_str(&mut line, " ▸ ");
                push_str(&mut line, t.title.as_str());
                push_str(&mut line, "  ·  topic");
                push_row(rows, Row { line, target: Target::Topic { switch_key: owned(key), entry: e.clone(), topic_id: t.id }, id: Some(e.id) });
                proof {
                    assert(e@.topics[j as int] == t@);
                    assert(row_views(rows@) =~= mid + Seq::new(
                        (j + 1) as nat,
                        |k: int| topic_row(label@, key@, e@, e@.topics[k]),
                    ));
                }
            }
            proof {
                assert(row_views(rows@) =~= before + rows_of_entry(label@, key@, me, e@));
            }
        } else {
            proof {
                assert(rows_of_entry(label@, key@, me, e@) =~= Seq::empty());
                assert(row_views(rows@) =~= before + rows_of_entry(label@, key@, me, e@));
            }
        }
    }
    proof {
        assert(entries.deep_view().take(n as int) == entries.deep_view());
    }
}

fn clone_folder(f: &Folder) -> (r: Folder)
    ensures
        r@ == f@,
{
    Folder { title: f.title.clone(), entries: clone_entries(&f.entries) }
}

/// The main-menu rows of one account and its cache.
pub fn account_rows(account: &Account, cache: &AccountCache) -> (r: Vec<Row>)
    ensures
        row_views(r@) == spec_account_rows(*account, cache@),
{
    let label = account.label.as_str();
    let key = account.switch_key.as_str();
    let mut rows: Vec<Row> = Vec::new();
    let ghost c = cache@;
    if cache.me_id != 0 {
        let entry = Entry {
            name: owned("Saved Messages"),
            username: clone_opt_string(&cache.me_username),
            id: cache.me_id,
            kind: owned("user"),
            topics: Vec::new(),
        };
        assert(entry.topics.deep_view() =~= Seq::<TopicView>::empty());
        let mut line = tagged(label);
        push_str(&mut line, "⭐ Saved Messages");
        push_row(&mut rows, Row { line, target: Target::Chat { switch_key: owned(key), entry }, id: Some(cache.me_id) });
    }
    assert(row_views(rows@) =~= saved_rows(label@, key@, c));
    entry_rows_into(&mut rows, label, key, cache.me_id, &cache.entries);
    let ghost after_entries = row_views(rows@);
    let n = cache.folders.len();
    for i in 0..n
        invariant
            n == cache.folders@.len(),
            c == cache@,
            row_views(rows@) == after_entries + Seq::new(
                i as nat,
                |k: int| folder_row(label@, key@, c.folders[k]),
            ),
    {
        let f = &cache.folders[i];
        let mut line = tagged(label);
        push_str(&mut line, "📁 ");
        push_str(&mut line, f.title.as_str());
        push_str(&mut line, "  ·  ");
        push_decimal(&mut line, f.entries.len() as i128);
        push_str(&mut line, " ▸");
        let g = clone_folder(f);
        proof {
            assert(c.folders[i as int] == f@);
        }
        push_row(&mut rows, Row { line, target: Target::Folder { switch_key: owned(key), title: g.title, entries: g.entries }, id: None });
        assert(row_views(rows@) =~= after_entries + Seq::new(
            (i + 1) as nat,
            |k: int| folder_row(label@, key@, c.folders[k]),
        ));
    }
    let ghost after_folders = row_views(rows@);
    if cache.archived.len() > 0 {
        let mut line = tagged(label);
        push_str(&mut line, "🗄 Archived  ·  ");
        push_decimal(&mut line, cache.archived.len() as i128);
        push_str(&mut line, " ▸");
        push_row(&mut rows, Row { line, target: Target::Archive { switch_key: owned(key), label: owned(label), entries: clone_entries(&cache.archived) }, id: None });
    }
    assert(row_views(rows@) =~= after_folders + archive_rows(label@, key@, c));
    rows
}

/// The flat main menu across all accounts: for each account whose cache is
/// present (`caches[i]` belongs to `accounts[i]`), its rows, in account order.
pub fn build_rows(accounts: &Vec<Account>, caches: &Vec<Option<AccountCache>>) -> (r: Vec<Row>)
    requires
        accounts@.len() == caches@.len(),
    ensures
        row_views(r@) == spec_rows(accounts@, cache_views(caches@)),
{
    let mut rows: Vec<Row> = Vec::new();
    let n = accounts.len();
    for i in 0..n
        invariant
            n == accounts@.len(),
            n == caches@.len(),
            row_views(rows@) == spec_rows(accounts@.take(i as int), cache_views(caches@).take(i as int)),
    {
        proof {
            assert(accounts@.take(i + 1).drop_last() == accounts@.take(i as int));
            assert(cache_views(caches@).take(i + 1).drop_last() == cache_views(caches@).take(i as int));
            assert(accounts@.take(i + 1).last() == accounts@[i as int]);
            assert(cache_views(caches@).take(i + 1).last() == cache_views(caches@)[i as int]);
        }
        match &caches[i] {
            Some(c) => {
                let more = account_rows(&accounts[i], c);
                let ghost before = row_views(rows@);
                let mut more = more;
                rows.append(&mut more);
                assert(row_views(rows@) =~= before + spec_account_rows(accounts@[i as int], c@));
            },
            None => {},
        }
    }
    proof {
        assert(accounts@.take(n as int) == accounts@);
        assert(cache_views(caches@).take(n as int) == cache_views(caches@));
    }
    rows
}

// ---------------------------------------------------------------------------
// What a choice leads to
// ---------------------------------------------------------------------------

/// A submenu waiting for its answer.
pub enum Pending {
    /// The topic submenu of a forum.
    Topics { switch_key: String, entry: Entry },
    /// The archive submenu: its first line opens the archive folder view.
    Archived { switch_key: String, entries: Vec<Entry> },
    /// A chat folder's submenu.
    Folder { switch_key: String, entries: Vec<Entry> },
}

/// What to do next.
pub enum Step {
    /// Show a submenu with this prompt and these lines; hand the answer to
    /// [`answer`] with `pending`.
    Menu { prompt: String, lines: Vec<String>, pending: Pending },
    /// Record a visit to peer `visit`, switch account with `switch_key`, then
    /// open `url`.
    Jump { switch_key: String, url: String, visit: i64 },
    /// Switch account with `switch_key` and open its archive folder view.
    OpenArchive { switch_key: String },
    /// Nothing to do (the menu was cancelled).
    Done,
}

/// The abstract value of a [`Pending`].
pub enum PendingView {
    Topics { switch_key: Seq<char>, entry: EntryView },
    Archived { switch_key: Seq<char>, entries: Seq<EntryView> },
    Folder { switch_key: Seq<char>, entries: Seq<EntryView> },
}

/// The abstract value of a [`Step`].
pub enum StepView {
    Menu { prompt: Seq<char>, lines: Seq<Seq<char>>, pending: PendingView },
    Jump { switch_key: Seq<char>, url: Seq<char>, visit: i64 },
    OpenArchive { switch_key: Seq<char> },
    Done,
}

impl View for Pending {
    type V = PendingView;

    open spec fn view(&self) -> PendingView {
        match self {
            Pending::Topics { switch_key, entry } => PendingView::Topics {
                switch_key: switch_key@,
                entry: entry@,
            },
            Pending::Archived { switch_key, entries } => PendingView::Archived {
                switch_key: switch_key@,
                entries: entries.deep_view(),
            },
            Pending::Folder { switch_key, entries } => PendingView::Folder {
                switch_key: switch_key@,
                entries: entries.deep_view(),
            },
        }
    }
}

impl View for Step {
    type V = StepView;

    open spec fn view(&self) -> StepView {
        match self {
            Step::Menu { prompt, lines, pending } => StepView::Menu {
                prompt: prompt@,
                lines: views(lines@),
                pending: pending@,
            },
            Step::Jump { switch_key, url, visit } => StepView::Jump {
                switch_key: switch_key@,
                url: url@,
                visit: *visit,
            },
            Step::OpenArchive { switch_key } => StepView::OpenArchive { switch_key: switch_key@ },
            Step::Done => StepView::Done,
        }
    }
}

/// The first line of a forum's topic submenu.
pub open spec fn whole_group_line() -> Seq<char> {
    "↩  open group (no topic)"@
}

/// The first line of the archive submenu.
pub open spec fn archive_folder_line() -> Seq<char> {
    "🗄 Open Archive folder in AyuGram"@
}

/// The lines of a list of entries in a submenu.
pub open spec fn entry_lines(es: Seq<EntryView>) -> Seq<Seq<char>> {
    Seq::new(es.len(), |i: int| spec_entry_line(es[i]))
}

/// The titles of a list of topics.
pub open spec fn topic_titles(ts: Seq<TopicView>) -> Seq<Seq<char>> {
    Seq::new(ts.len(), |i: int| ts[i].title)
}

/// Opening an entry: jump to it directly, or, for a forum, first offer its
/// topics (the whole group first).
pub open spec fn spec_open_entry(key: Seq<char>, e: EntryView) -> StepView {
    if e.topics.len() == 0 {
        StepView::Jump { switch_key: key, url: spec_build(e), visit: e.id }
    } else {
        StepView::Menu {
            prompt: e.name + " ▸ topic"@,
            lines: seq![whole_group_line()] + topic_titles(e.topics),
            pending: PendingView::Topics { switch_key: key, entry: e },
        }
    }
}

/// What choosing a main-menu row leads to.
pub open spec fn spec_select(t: TargetView) -> StepView {
    match t {
        TargetView::Chat { switch_key, entry } => spec_open_entry(switch_key, entry),
        TargetView::Topic { switch_key, entry, topic_id } => StepView::Jump {
            switch_key,
            url: spec_build_topic(entry, topic_id),
            visit: entry.id,
        },
        TargetView::Archive { switch_key, label, entries } => StepView::Menu {
            prompt: label + " ▸ archived"@,
            lines: seq![archive_folder_line()] + entry_lines(entries),
            pending: PendingView::Archived { switch_key, entries },
        },
        TargetView::Folder { switch_key, title, entries } => StepView::Menu {
            prompt: "📁 "@ + title,
            lines: entry_lines(entries),
            pending: PendingView::Folder { switch_key, entries },
        },
    }
}

/// How many lines a submenu shows.
pub open spec fn pending_lines(p: PendingView) -> nat {
    match p {
        PendingView::Topics { entry, .. } => entry.topics.len() + 1,
        PendingView::Archived { entries, .. } => entries.len() + 1,
        PendingView::Folder { entries, .. } => entries.len(),
    }
}

/// What the answer to a submenu leads to: nothing if cancelled; in the topic
/// submenu, the whole group or a topic; in the archive submenu, the archive
/// folder view or an archived chat; in a folder, one of its chats.
pub open spec fn spec_choose(p: PendingView, choice: Option<usize>) -> StepView {
    match choice {
        None => StepView::Done,
        Some(i) => match p {
            PendingView::Topics { switch_key, entry } => if i == 0 {
                StepView::Jump { switch_key, url: spec_build(entry), visit: entry.id }
            } else {
                StepView::Jump {
                    switch_key,
                    url: spec_build_topic(entry, entry.topics[i - 1].id),
                    visit: entry.id,
                }
            },
            PendingView::Archived { switch_key, entries } => if i == 0 {
                StepView::OpenArchive { switch_key }
            } else {
                spec_open_entry(switch_key, entries[i - 1])
            },
            PendingView::Folder { switch_key, entries } => spec_open_entry(switch_key, entries[i as int]),
        },
    }
}

fn lines_of_entries(entries: &Vec<Entry>) -> (r: Vec<String>)
    ensures
        views(r@) == entry_lines(entries.deep_view()),
{
    let mut r: Vec<String> = Vec::new();
    let n = entries.len();
    for i in 0..n
        invariant
            n == entries@.len(),
            r@.len() == i,
            forall|j: int| 0 <= j < i ==> (#[trigger] r@[j])@ == spec_entry_line(entries@[j]@),
    {
        r.push(entry_line(&entries[i]));
    }
    assert(views(r@) =~= entry_lines(entries.deep_view()));
    r
}

/// Switch to the entry's account and open it, offering a topic submenu first
/// if it's a forum (shown before the account switch, so rofi keeps focus).
pub fn open_entry(switch_key: String, entry: Entry) -> (r: Step)
    ensures
        r@ == spec_open_entry(switch_key@, entry@),
{
    if entry.topics.len() == 0 {
        let url = build(&entry);
        let visit = entry.id;
        Step::Jump { switch_key, url, visit }
    } else {
        let mut prompt = owned(entry.name.as_str());
        push_str(&mut prompt, " ▸ topic");
        let mut lines: Vec<String> = Vec::new();
        lines.push(owned("↩  open group (no topic)"));
        let n = entry.topics.len();
        for i in 0..n
            invariant
                n == entry.topics@.len(),
                lines@.len() == i + 1,
                lines@[0]@ == whole_group_line(),
                forall|j: int| 0 <= j < i ==> (#[trigger] lines@[j + 1])@ == entry@.topics[j].title,
        {
            assert(entry@.topics[i as int].title == entry.topics@[i as int].title@);
            lines.push(entry.topics[i].title.clone());
        }
        assert(views(lines@) =~= seq![whole_group_line()] + topic_titles(entry@.topics)) by {
            assert forall|k: int| 0 < k < lines@.len() implies views(lines@)[k] == (seq![whole_group_line()] + topic_titles(entry@.topics))[k] by {
                assert(lines@[(k - 1) + 1]@ == entry@.topics[k - 1].title);
            }
        }
        Step::Menu { prompt, lines, pending: Pending::Topics { switch_key, entry } }
    }
}

/// What choosing a main-menu row leads to.
pub fn select(target: Target) -> (r: Step)
    ensures
        r@ == spec_select(target@),
{
    match target {
        Target::Chat { switch_key, entry } => open_entry(switch_key, entry),
        Target::Topic { switch_key, entry, topic_id } => {
            let url = build_topic(&entry, topic_id);
            Step::Jump { switch_key, url, visit: entry.id }
        },
        Target::Archive { switch_key, label, entries } => {
            let mut prompt = owned(label.as_str());
            push_str(&mut prompt, " ▸ archived");
            let mut lines: Vec<String> = Vec::new();
            lines.push(owned("🗄 Open Archive folder in AyuGram"));
            let mut rest = lines_of_entries(&entries);
            let ghost first = views(lines@);
            let ghost others = views(rest@);
            assert(first =~= seq![archive_folder_line()]);
            lines.append(&mut rest);
            assert(views(lines@) =~= first + others);
            Step::Menu { prompt, lines, pending: Pending::Archived { switch_key, entries } }
        },
        Target::Folder { switch_key, title, entries } => {
            let mut prompt = owned("📁 ");
            push_str(&mut prompt, title.as_str());
            let lines = lines_of_entries(&entries);
            Step::Menu { prompt, lines, pending: Pending::Folder { switch_key, entries } }
        },
    }
}

/// The entry at position `i`, moved out of the list.
fn take_entry(entries: Vec<Entry>, i: usize) -> (r: Entry)
    requires
        i < entries@.len(),
    ensures
        r@ == entries@[i as int]@,
{
    let mut entries = entries;
    entries.swap_remove(i)
}

/// What the answer to a submenu leads to. `choice` is the chosen line, or
/// `None` if the submenu was cancelled.
pub fn answer(pending: Pending, choice: Option<usize>) -> (r: Step)
    requires
        choice matches Some(i) ==> i < pending_lines(pending@),
    ensures
        r@ == spec_choose(pending@, choice),
{
    match choice {
        None => Step::Done,
        Some(i) => match pending {
            Pending::Topics { switch_key, entry } => {
                if i == 0 {
                    let url = build(&entry);
                    Step::Jump { switch_key, url, visit: entry.id }
                } else {
                    let topic_id = entry.topics[i - 1].id;
                    let url = build_topic(&entry, topic_id);
                    Step::Jump { switch_key, url, visit: entry.id }
                }
            },
            Pending::Archived { switch_key, entries } => {
                if i == 0 {
                    Step::OpenArchive { switch_key }
                } else {
                    let e = take_entry(entries, i - 1);
                    open_entry(switch_key, e)
                }
            },
            Pending::Folder { switch_key, entries } => {
                let e = take_entry(entries, i);
                open_entry(switch_key, e)
            },
        },
    }
}

// ---------------------------------------------------------------------------
// Row icons
// ---------------------------------------------------------------------------

/// The icon of a main-menu row.
#[derive(Clone, Copy, Debug, PartialEq, Eq, Structural)]
pub enum Icon {
    /// No icon: no avatar has been downloaded at all.
    Plain,
    /// The cached profile photo of this peer.
    Avatar(i64),
    /// The neutral placeholder picture.
    Placeholder,
}

/// The icon of a row: none while no avatar is cached at all; else the
/// peer's own cached photo, or the placeholder for rows without one.
pub open spec fn spec_row_icon(id: Option<i64>, cached: bool, any_cached: bool) -> Icon {
    if !any_cached {
        Icon::Plain
    } else {
        match id {
            Some(i) => if cached {
                Icon::Avatar(i)
            } else {
                Icon::Placeholder
            },
            None => Icon::Placeholder,
        }
    }
}

/// Chooses a row's icon; `cached` tells whether the row's peer has a cached
/// photo, `any_cached` whether any peer has one.
pub fn row_icon(id: Option<i64>, cached: bool, any_cached: bool) -> (r: Icon)
    ensures
        r == spec_row_icon(id, cached, any_cached),
{
    if !any_cached {
        Icon::Plain
    } else {
        match id {
            Some(i) => if cached {
                Icon::Avatar(i)
            } else {
                Icon::Placeholder
            },
            None => Icon::Placeholder,
        }
    }
}

/// A menu line carrying rofi's icon metadata for the picture at `icon`.
pub open spec fn spec_icon_line(line: Seq<char>, icon: Seq<char>) -> Seq<char> {
    line + "\u{0}icon\u{1f}"@ + icon
}

/// Attaches the picture at `icon` to a menu line, in rofi's
/// `\0icon\x1f<path>` row metadata.
pub fn icon_line(line: &str, icon: &str) -> (r: String)
    ensures
        r@ == spec_icon_line(line@, icon@),
{
    let mut s = owned(line);
    push_str(&mut s, "\u{0}icon\u{1f}");
    push_str(&mut s, icon);
    s
}

// ---------------------------------------------------------------------------
// Laws of the menu
// ---------------------------------------------------------------------------

/// A chat or topic row of some other peer than `me`, scored by its peer id.
pub open spec fn plain_row(r: RowView, me: i64) -> bool {
    match r.target {
        TargetView::Chat { entry, .. } => entry.id != me && r.id == Some(entry.id),
        TargetView::Topic { entry, .. } => entry.id != me && r.id == Some(entry.id),
        _ => false,
    }
}

proof fn lemma_entry_rows_plain(label: Seq<char>, key: Seq<char>, me: i64, es: Seq<EntryView>)
    ensures
        forall|i: int|
            0 <= i < entry_rows(label, key, me, es).len() ==> plain_row(
                #[trigger] entry_rows(label, key, me, es)[i],
                me,
            ),
    decreases es.len(),
{
    if es.len() > 0 {
        lemma_entry_rows_plain(label, key, me, es.drop_last());
        let front = entry_rows(label, key, me, es.drop_last());
        let back = rows_of_entry(label, key, me, es.last());
        assert forall|i: int| 0 <= i < back.len() implies plain_row(#[trigger] back[i], me) by {
            if i > 0 {
                assert(back[i] == topic_row(label, key, es.last(), es.last().topics[i - 1]));
            }
        }
        assert forall|i: int|
            0 <= i < entry_rows(label, key, me, es).len() implies plain_row(
                #[trigger] entry_rows(label, key, me, es)[i],
                me,
            ) by {
            if i < front.len() {
                assert(entry_rows(label, key, me, es)[i] == front[i]);
            } else {
                assert(entry_rows(label, key, me, es)[i] == back[i - front.len()]);
            }
        }
    }
}

/// Within one account's rows, the account's own chat appears once, as the
/// Saved Messages row at the top (only when its id is known); every other
/// chat or topic row is scored by its own peer id, and the folder and
/// archive rows carry no peer id.
pub proof fn lemma_account_rows_shape(a: Account, c: AccountCacheView)
    ensures
        c.me_id != 0 ==> spec_account_rows(a, c)[0].target == (TargetView::Chat {
            switch_key: a.switch_key@,
            entry: saved_entry(c),
        }),
        forall|i: int|
            0 <= i < spec_account_rows(a, c).len() ==> {
                let r = #[trigger] spec_account_rows(a, c)[i];
                match r.target {
                    TargetView::Chat { entry, .. } => r.id == Some(entry.id) && (entry.id == c.me_id
                        ==> i == 0 && c.me_id != 0 && entry == saved_entry(c)),
                    TargetView::Topic { entry, .. } => r.id == Some(entry.id) && entry.id
                        != c.me_id,
                    _ => r.id is None,
                }
            },
{
    let label = a.label@;
    let key = a.switch_key@;
    let s = saved_rows(label, key, c);
    let e = entry_rows(label, key, c.me_id, c.entries);
    let f = Seq::new(c.folders.len(), |i: int| folder_row(label, key, c.folders[i]));
    let ar = archive_rows(label, key, c);
    let all = spec_account_rows(a, c);
    assert(all == s + e + f + ar);
    lemma_entry_rows_plain(label, key, c.me_id, c.entries);
    assert forall|i: int| 0 <= i < all.len() implies {
        let r = #[trigger] all[i];
        match r.target {
            TargetView::Chat { entry, .. } => r.id == Some(entry.id) && (entry.id == c.me_id ==> i
                == 0 && c.me_id != 0 && entry == saved_entry(c)),
            TargetView::Topic { entry, .. } => r.id == Some(entry.id) && entry.id != c.me_id,
            _ => r.id is None,
        }
    } by {
        if i < s.len() {
            assert(all[i] == s[i]);
        } else if i < s.len() + e.len() {
            assert(all[i] == e[i - s.len()]);
            assert(plain_row(e[i - s.len()], c.me_id));
        } else if i < s.len() + e.len() + f.len() {
            assert(all[i] == f[i - s.len() - e.len()]);
        } else {
            assert(all[i] == ar[i - s.len() - e.len() - f.len()]);
        }
    }
    if c.me_id != 0 {
        assert(all[0] == s[0]);
    }
}

/// The account key a row switches to.
pub open spec fn row_switch_key(r: RowView) -> Seq<char> {
    match r.target {
        TargetView::Chat { switch_key, .. } => switch_key,
        TargetView::Topic { switch_key, .. } => switch_key,
        TargetView::Archive { switch_key, .. } => switch_key,
        TargetView::Folder { switch_key, .. } => switch_key,
    }
}

/// A row whose line starts with the `[label] ` tag and that switches with `key`.
pub open spec fn tagged_row(r: RowView, label: Seq<char>, key: Seq<char>) -> bool {
    &&& tag(label).len() <= r.line.len()
    &&& r.line.subrange(0, tag(label).len() as int) == tag(label)
    &&& row_switch_key(r) == key
}

proof fn lemma_prefix_tag(label: Seq<char>, rest: Seq<char>)
    ensures
        (tag(label) + rest).subrange(0, tag(label).len() as int) == tag(label),
{
    assert((tag(label) + rest).subrange(0, tag(label).len() as int) =~= tag(label));
}

proof fn lemma_entry_rows_tagged(label: Seq<char>, key: Seq<char>, me: i64, es: Seq<EntryView>)
    ensures
        forall|i: int|
            0 <= i < entry_rows(label, key, me, es).len() ==> tagged_row(
                #[trigger] entry_rows(label, key, me, es)[i],
                label,
                key,
            ),
    decreases es.len(),
{
    if es.len() > 0 {
        lemma_entry_rows_tagged(label, key, me, es.drop_last());
        let e = es.last();
        let front = entry_rows(label, key, me, es.drop_last());
        let back = rows_of_entry(label, key, me, e);
        assert forall|i: int| 0 <= i < back.len() implies tagged_row(#[trigger] back[i], label, key) by {
            if i == 0 {
                let rest = e.name + spec_handle(e) + "  ·  "@ + spec_badge(e);
                assert(back[0].line =~= tag(label) + rest);
                lemma_prefix_tag(label, rest);
            } else {
                let t = e.topics[i - 1];
                assert(back[i] == topic_row(label, key, e, t));
                let rest = e.name + " ▸ "@ + t.title + "  ·  topic"@;
                assert(back[i].line =~= tag(label) + rest);
                lemma_prefix_tag(label, rest);
            }
        }
        assert forall|i: int|
            0 <= i < entry_rows(label, key, me, es).len() implies tagged_row(
                #[trigger] entry_rows(label, key, me, es)[i],
                label,
                key,
            ) by {
            if i < front.len() {
                assert(entry_rows(label, key, me, es)[i] == front[i]);
            } else {
                assert(entry_rows(label, key, me, es)[i] == back[i - front.len()]);
            }
        }
    }
}

/// Every main-menu row of an account starts with the account's `[label] `
/// tag, so a search can be scoped by typing the account name, and every row
/// switches to that account before opening.
pub proof fn lemma_account_rows_tagged(a: Account, c: AccountCacheView)
    ensures
        forall|i: int|
            0 <= i < spec_account_rows(a, c).len() ==> tagged_row(
                #[trigger] spec_account_rows(a, c)[i],
                a.label@,
                a.switch_key@,
            ),
{
    let label = a.label@;
    let key = a.switch_key@;
    let s = saved_rows(label, key, c);
    let e = entry_rows(label, key, c.me_id, c.entries);
    let f = Seq::new(c.folders.len(), |i: int| folder_row(label, key, c.folders[i]));
    let ar = archive_rows(label, key, c);
    let all = spec_account_rows(a, c);
    assert(all == s + e + f + ar);
    lemma_entry_rows_tagged(label, key, c.me_id, c.entries);
    assert forall|i: int| 0 <= i < all.len() implies tagged_row(#[trigger] all[i], label, key) by {
        if i < s.len() {
            assert(all[i] == s[i]);
            lemma_prefix_tag(label, "⭐ Saved Messages"@);
        } else if i < s.len() + e.len() {
            assert(all[i] == e[i - s.len()]);
            assert(tagged_row(e[i - s.len()], label, key));
        } else if i < s.len() + e.len() + f.len() {
            let k = i - s.len() - e.len();
            assert(all[i] == f[k]);
            let fo = c.folders[k];
            let rest = "📁 "@ + fo.title + "  ·  "@ + decimal(fo.entries.len() as int) + " ▸"@;
            assert(f[k].line =~= tag(label) + rest);
            lemma_prefix_tag(label, rest);
        } else {
            assert(all[i] == ar[i - s.len() - e.len() - f.len()]);
            let rest = "🗄 Archived  ·  "@ + decimal(c.archived.len() as int) + " ▸"@;
            assert(ar[0].line =~= tag(label) + rest);
            lemma_prefix_tag(label, rest);
        }
    }
}

/// Whether a step is a jump that records a visit to `id`.
pub open spec fn jumps_to(s: StepView, id: i64) -> bool {
    match s {
        StepView::Jump { visit, .. } => visit == id,
        _ => false,
    }
}

/// Every jump that a chat or topic row leads to, directly or through its
/// topic submenu, records a visit to that row's own peer.
pub proof fn lemma_jump_visits_row_peer(t: TargetView, answer: Option<usize>)
    ensures
        match t {
            TargetView::Chat { entry, .. } => match spec_select(t) {
                StepView::Jump { visit, .. } => visit == entry.id,
                StepView::Menu { pending, .. } => pending is Topics && (answer matches Some(i)
                    ==> (i < pending_lines(pending) ==> jumps_to(spec_choose(pending, answer), entry.id))),
                _ => false,
            },
            TargetView::Topic { entry, .. } => jumps_to(spec_select(t), entry.id),
            _ => true,
        },
{
}

/// Every submenu shows exactly as many lines as its answer accepts, whether a
/// main-menu row or the answer to another submenu leads to it.
pub proof fn lemma_submenu_lines_match(t: TargetView, p: PendingView, choice: Option<usize>)
    ensures
        spec_select(t) matches StepView::Menu { lines, pending, .. } ==> lines.len()
            == pending_lines(pending),
        spec_choose(p, choice) matches StepView::Menu { lines, pending, .. } ==> lines.len()
            == pending_lines(pending),
{
}

/// How many rows the accounts with a present cache contribute, summed over
/// the accounts.
pub open spec fn row_count(accounts: Seq<Account>, caches: Seq<Option<AccountCacheView>>) -> nat
    decreases caches.len(),
{
    if accounts.len() == 0 || caches.len() == 0 {
        0
    } else {
        row_count(accounts.drop_last(), caches.drop_last()) + match caches.last() {
            Some(c) => spec_account_rows(accounts.last(), c).len(),
            None => 0,
        }
    }
}

/// The flat menu lists every synced account: its length is the sum of the
/// row counts of the accounts whose cache is present, and for each such
/// account `i` its rows stand, whole and in order, right after those of the
/// accounts before it; an account without a cache adds nothing.
pub proof fn lemma_rows_list_every_account(accounts: Seq<Account>, caches: Seq<Option<AccountCacheView>>)
    requires
        accounts.len() == caches.len(),
    ensures
        spec_rows(accounts, caches).len() == row_count(accounts, caches),
        forall|i: int|
            0 <= i < accounts.len() ==> match #[trigger] caches[i] {
                Some(c) => row_count(accounts.take(i + 1), caches.take(i + 1)) == row_count(
                    accounts.take(i),
                    caches.take(i),
                ) + spec_account_rows(accounts[i], c).len() && spec_rows(accounts, caches).subrange(
                    row_count(accounts.take(i), caches.take(i)) as int,
                    row_count(accounts.take(i + 1), caches.take(i + 1)) as int,
                ) == spec_account_rows(accounts[i], c),
                None => row_count(accounts.take(i + 1), caches.take(i + 1)) == row_count(
                    accounts.take(i),
                    caches.take(i),
                ),
            },
    decreases accounts.len(),
{
    let n = accounts.len() as int;
    if n > 0 {
        let a = accounts.drop_last();
        let c = caches.drop_last();
        lemma_rows_list_every_account(a, c);
        let front = spec_rows(a, c);
        let all = spec_rows(accounts, caches);
        assert(accounts.take(n) == accounts);
        assert(caches.take(n) == caches);
        assert(accounts.take(n - 1) == a);
        assert(caches.take(n - 1) == c);
        assert forall|i: int|
            0 <= i < accounts.len() implies match #[trigger] caches[i] {
                Some(x) => row_count(accounts.take(i + 1), caches.take(i + 1)) == row_count(
                    accounts.take(i),
                    caches.take(i),
                ) + spec_account_rows(accounts[i], x).len() && all.subrange(
                    row_count(accounts.take(i), caches.take(i)) as int,
                    row_count(accounts.take(i + 1), caches.take(i + 1)) as int,
                ) == spec_account_rows(accounts[i], x),
                None => row_count(accounts.take(i + 1), caches.take(i + 1)) == row_count(
                    accounts.take(i),
                    caches.take(i),
                ),
            } by {
            if i < n - 1 {
                assert(accounts.take(i) == a.take(i));
                assert(caches.take(i) == c.take(i));
                assert(accounts.take(i + 1) == a.take(i + 1));
                assert(caches.take(i + 1) == c.take(i + 1));
                assert(caches[i] == c[i]);
                assert(accounts[i] == a[i]);
                match caches[i] {
                    Some(x) => {
                        let lo = row_count(a.take(i), c.take(i)) as int;
                        let hi = row_count(a.take(i + 1), c.take(i + 1)) as int;
                        lemma_row_count_grows(a, c, i + 1);
                        assert(hi <= front.len());
                        assert(all.subrange(lo, hi) =~= front.subrange(lo, hi));
                    },
                    None => {},
                }
            } else {
                assert(i == n - 1);
                match caches[i] {
                    Some(x) => {
                        assert(all.subrange(front.len() as int, all.len() as int) =~= spec_account_rows(
                            accounts[i],
                            x,
                        ));
                    },
                    None => {},
                }
            }
        }
    }
}

proof fn lemma_row_count_grows(accounts: Seq<Account>, caches: Seq<Option<AccountCacheView>>, k: int)
    requires
        accounts.len() == caches.len(),
        0 <= k <= accounts.len(),
    ensures
        row_count(accounts.take(k), caches.take(k)) <= row_count(accounts, caches),
    decreases accounts.len(),
{
    let n = accounts.len() as int;
    if k < n {
        let a = accounts.drop_last();
        let c = caches.drop_last();
        lemma_row_count_grows(a, c, k);
        assert(a.take(k) == accounts.take(k));
        assert(c.take(k) == caches.take(k));
    } else {
        assert(accounts.take(k) == accounts);
        assert(caches.take(k) == caches);
    }
}

/// The account key a main-menu target switches with.
pub open spec fn target_key(t: TargetView) -> Seq<char> {
    match t {
        TargetView::Chat { switch_key, .. } => switch_key,
        TargetView::Topic { switch_key, .. } => switch_key,
        TargetView::Archive { switch_key, .. } => switch_key,
        TargetView::Folder { switch_key, .. } => switch_key,
    }
}

/// The account key a submenu switches with.
pub open spec fn pending_key(p: PendingView) -> Seq<char> {
    match p {
        PendingView::Topics { switch_key, .. } => switch_key,
        PendingView::Archived { switch_key, .. } => switch_key,
        PendingView::Folder { switch_key, .. } => switch_key,
    }
}

/// The account key a step acts with: a jump's or an archive opening's own,
/// a submenu's; none once done.
pub open spec fn step_key(s: StepView) -> Option<Seq<char>> {
    match s {
        StepView::Menu { pending, .. } => Some(pending_key(pending)),
        StepView::Jump { switch_key, .. } => Some(switch_key),
        StepView::OpenArchive { switch_key } => Some(switch_key),
        StepView::Done => None,
    }
}

/// Choosing never loses the account: the step that a main-menu row leads to
/// switches with that row's key, every step that answering a submenu leads to
/// switches with the submenu's key, and a cancelled submenu does nothing.
pub proof fn lemma_steps_keep_switch_key(t: TargetView, p: PendingView, choice: Option<usize>)
    ensures
        step_key(spec_select(t)) == Some(target_key(t)),
        choice matches Some(i) && i < pending_lines(p) ==> step_key(spec_choose(p, choice)) == Some(
            pending_key(p),
        ),
        choice is None ==> spec_choose(p, choice) == StepView::Done,
{
}

} // verus!
