//! The whole tray menu, line by line, as the host's menu toolkit is to show it.

use crate::label::label_of;
use crate::menu::{
    bookmark_id, bookmark_menu, bookmark_texts, bookmarks_as_menu_items_for_tray,
    history_as_menu_items_for_tray, history_id, history_menu, lemma_identifiers_distinct, Bookmark,
};
use vstd::prelude::*;

verus! {

/// One line of the tray menu.
#[derive(Clone, Debug, PartialEq, Eq)]
pub enum TrayMenuEntry {
    /// A disabled line that titles a section.
    Header { text: String },
    /// A bookmarked entry, shown with the bookmark icon.
    Bookmark { id: String, text: String },
    /// A line that parts two sections.
    Separator,
    /// An entry of the clipboard history: enabled, checkable, not checked.
    History { id: String, text: String },
    /// An enabled command of the application itself.
    Command { id: String, text: String },
}

/// What a [`TrayMenuEntry`] says, with its strings as sequences of characters.
pub ghost enum TrayMenuLine {
    Header { text: Seq<char> },
    Bookmark { id: Seq<char>, text: Seq<char> },
    Separator,
    History { id: Seq<char>, text: Seq<char> },
    Command { id: Seq<char>, text: Seq<char> },
}

impl View for TrayMenuEntry {
    type V = TrayMenuLine;

    open spec fn view(&self) -> TrayMenuLine {
        match self {
            TrayMenuEntry::Header { text } => TrayMenuLine::Header { text: text@ },
            TrayMenuEntry::Bookmark { id, text } => TrayMenuLine::Bookmark { id: id@, text: text@ },
            TrayMenuEntry::Separator => TrayMenuLine::Separator,
            TrayMenuEntry::History { id, text } => TrayMenuLine::History { id: id@, text: text@ },
            TrayMenuEntry::Command { id, text } => TrayMenuLine::Command { id: id@, text: text@ },
        }
    }
}

impl DeepView for TrayMenuEntry {
    type V = TrayMenuLine;

    open spec fn deep_view(&self) -> TrayMenuLine {
        self@
    }
}

/// The section of the bookmarks: one line for each menu entry.
pub open spec fn bookmark_lines(items: Seq<(Seq<char>, Seq<char>)>) -> Seq<TrayMenuLine> {
    Seq::new(items.len(), |i: int| (TrayMenuLine::Bookmark { id: items[i].0, text: items[i].1 }))
}

/// The section of the history: one line for each menu entry.
pub open spec fn history_lines(items: Seq<(Seq<char>, Seq<char>)>) -> Seq<TrayMenuLine> {
    Seq::new(items.len(), |i: int| (TrayMenuLine::History { id: items[i].0, text: items[i].1 }))
}

/// The lines that close every tray menu: a separator, then the command that
/// opens the settings and the command that quits.
pub open spec fn closing_lines() -> Seq<TrayMenuLine> {
    seq![
        TrayMenuLine::Separator,
        TrayMenuLine::Command { id: "show"@, text: "Settings"@ },
        TrayMenuLine::Command { id: "quit"@, text: "Quit"@ },
    ]
}

/// The tray menu for the given bookmarked texts and history: the bookmarks
/// under their title, a separator, the history under its title, and the
/// closing lines.
pub open spec fn tray_menu(bookmarks: Seq<Seq<char>>, history: Seq<Seq<char>>) -> Seq<
    TrayMenuLine,
> {
    seq![TrayMenuLine::Header { text: "BOOKMARKS"@ }] + bookmark_lines(bookmark_menu(bookmarks))
        + seq![TrayMenuLine::Separator, TrayMenuLine::Header { text: "CLIPBOARD"@ }]
        + history_lines(history_menu(history)) + closing_lines()
}

/// Where each line of the tray menu stands. With `b` bookmarks and `h`
/// history entries the menu has `b + h + 6` lines: the bookmarks' title, the
/// `b` bookmarks, a separator, the history's title, the `h` history entries,
/// a separator, and the two commands.
pub proof fn lemma_tray_menu_lines(bookmarks: Seq<Seq<char>>, history: Seq<Seq<char>>)
    ensures
        ({
            let menu = tray_menu(bookmarks, history);
            let b = bookmarks.len() as int;
            let h = history.len() as int;
            &&& menu.len() == b + h + 6
            &&& menu[0] == (TrayMenuLine::Header { text: "BOOKMARKS"@ })
            &&& forall|i: int|
                0 <= i < b ==> #[trigger] menu[1 + i] == (TrayMenuLine::Bookmark {
                    id: bookmark_id(i as nat),
                    text: label_of(bookmarks[i]),
                })
            &&& menu[b + 1] == TrayMenuLine::Separator
            &&& menu[b + 2] == (TrayMenuLine::Header { text: "CLIPBOARD"@ })
            &&& forall|i: int|
                0 <= i < h ==> #[trigger] menu[b + 3 + i] == (TrayMenuLine::History {
                    id: history_id(i as nat),
                    text: label_of(history[i]),
                })
            &&& menu[b + h + 3] == TrayMenuLine::Separator
            &&& menu[b + h + 4] == (TrayMenuLine::Command { id: "show"@, text: "Settings"@ })
            &&& menu[b + h + 5] == (TrayMenuLine::Command { id: "quit"@, text: "Quit"@ })
        }),
{
}

/// The identifier of a line, for the lines that have one: the entries and the
/// commands.
pub open spec fn line_id(line: TrayMenuLine) -> Option<Seq<char>> {
    match line {
        TrayMenuLine::Bookmark { id, text } => Some(id),
        TrayMenuLine::History { id, text } => Some(id),
        TrayMenuLine::Command { id, text } => Some(id),
        TrayMenuLine::Header { text } => None,
        TrayMenuLine::Separator => None,
    }
}

/// Within one tray menu no identifier occurs twice: two different lines that
/// have an identifier have different ones.
pub proof fn lemma_tray_menu_ids_distinct(
    bookmarks: Seq<Seq<char>>,
    history: Seq<Seq<char>>,
    i: int,
    j: int,
)
    requires
        0 <= i < j < tray_menu(bookmarks, history).len(),
        line_id(tray_menu(bookmarks, history)[i]) is Some,
        line_id(tray_menu(bookmarks, history)[j]) is Some,
    ensures
        line_id(tray_menu(bookmarks, history)[i]) != line_id(tray_menu(bookmarks, history)[j]),
{
    let menu = tray_menu(bookmarks, history);
    let b = bookmarks.len() as int;
    let h = history.len() as int;
    lemma_tray_menu_lines(bookmarks, history);
    lemma_command_ids_apart();
    assert(i != 0 && i != b + 1 && i != b + 2 && i != b + h + 3);
    assert(j != 0 && j != b + 1 && j != b + 2 && j != b + h + 3);
    if i <= b {
        let at = (i - 1) as nat;
        assert(menu[1 + (i - 1)] == menu[i]);
        lemma_entry_ids_are_no_commands(at);
        if j <= b {
            assert(menu[1 + (j - 1)] == menu[j]);
            lemma_identifiers_distinct(at, (j - 1) as nat);
        } else if j < b + h + 3 {
            assert(menu[b + 3 + (j - b - 3)] == menu[j]);
            lemma_identifiers_distinct((j - b - 3) as nat, at);
        }
    } else if i < b + h + 3 {
        let at = (i - b - 3) as nat;
        assert(menu[b + 3 + (i - b - 3)] == menu[i]);
        lemma_entry_ids_are_no_commands(at);
        if j < b + h + 3 {
            assert(menu[b + 3 + (j - b - 3)] == menu[j]);
            lemma_identifiers_distinct(at, (j - b - 3) as nat);
        }
    }
}

/// The two commands have different identifiers.
proof fn lemma_command_ids_apart()
    ensures
        "show"@ != "quit"@,
{
    reveal_strlit("show");
    reveal_strlit("quit");
    assert("show"@[0] == 's');
    assert("quit"@[0] == 'q');
}

/// No entry has the identifier of a command.
proof fn lemma_entry_ids_are_no_commands(index: nat)
    ensures
        history_id(index) != "show"@,
        history_id(index) != "quit"@,
        bookmark_id(index) != "show"@,
        bookmark_id(index) != "quit"@,
{
    reveal_strlit("show");
    reveal_strlit("quit");
    reveal_strlit("item_");
    reveal_strlit("item_bm_");
    assert(history_id(index)[0] == 'i');
    assert(bookmark_id(index)[0] == 'i');
    assert("show"@[0] == 's');
    assert("quit"@[0] == 'q');
}

/// Lays out the tray menu for the given bookmarks and history.
pub fn tray_menu_layout(bookmarks: &Vec<Bookmark>, history: &Vec<String>) -> (entries: Vec<
    TrayMenuEntry,
>)
    ensures
        entries.deep_view() == tray_menu(bookmark_texts(bookmarks@), history.deep_view()),
{
    let bookmark_items = bookmarks_as_menu_items_for_tray(bookmarks);
    let history_items = history_as_menu_items_for_tray(history);
    let mut entries: Vec<TrayMenuEntry> = Vec::new();
    entries.push(TrayMenuEntry::Header { text: String::from_str("BOOKMARKS") });
    let ghost head = entries.deep_view();
    assert(head =~= seq![TrayMenuLine::Header { text: "BOOKMARKS"@ }]);
    let mut at: usize = 0;
    while at < bookmark_items.len()
        invariant
            at <= bookmark_items@.len(),
            entries.deep_view() == head + bookmark_lines(bookmark_items.deep_view().take(at as int)),
        decreases bookmark_items@.len() - at,
    {
        let id = bookmark_items[at].0.clone();
        let text = bookmark_items[at].1.clone();
        let ghost before = entries.deep_view();
        entries.push(TrayMenuEntry::Bookmark { id, text });
        assert(entries.deep_view() =~= before.push(
            TrayMenuLine::Bookmark {
                id: bookmark_items@[at as int].0@,
                text: bookmark_items@[at as int].1@,
            },
        ));
        assert(entries.deep_view() =~= head + bookmark_lines(
            bookmark_items.deep_view().take(at + 1),
        ));
        at += 1;
    }
    assert(bookmark_items.deep_view().take(at as int) =~= bookmark_items.deep_view());
    let ghost before = entries.deep_view();
    entries.push(TrayMenuEntry::Separator);
    entries.push(TrayMenuEntry::Header { text: String::from_str("CLIPBOARD") });
    let ghost upper = entries.deep_view();
    assert(upper =~= before + seq![
        TrayMenuLine::Separator,
        TrayMenuLine::Header { text: "CLIPBOARD"@ },
    ]);
    let mut at: usize = 0;
    while at < history_items.len()
        invariant
            at <= history_items@.len(),
            entries.deep_view() == upper + history_lines(history_items.deep_view().take(at as int)),
        decreases history_items@.len() - at,
    {
        let id = history_items[at].0.clone();
        let text = history_items[at].1.clone();
        let ghost before = entries.deep_view();
        entries.push(TrayMenuEntry::History { id, text });
        assert(entries.deep_view() =~= before.push(
            TrayMenuLine::History {
                id: history_items@[at as int].0@,
                text: history_items@[at as int].1@,
            },
        ));
        assert(entries.deep_view() =~= upper + history_lines(
            history_items.deep_view().take(at + 1),
        ));
        at += 1;
    }
    assert(history_items.deep_view().take(at as int) =~= history_items.deep_view());
    let ghost before = entries.deep_view();
    entries.push(TrayMenuEntry::Separator);
    entries.push(
        TrayMenuEntry::Command { id: String::from_str("show"), text: String::from_str("Settings") },
    );
    entries.push(
        TrayMenuEntry::Command { id: String::from_str("quit"), text: String::from_str("Quit") },
    );
    assert(entries.deep_view() =~= before + closing_lines());
    entries
}

} // verus!
