//! From the stored lists to menu entries: an identifier and a label for each
//! position.

use crate::decimal::{
    decimal_digits, decimal_string, is_digit, lemma_decimal_digits_are_digits,
    lemma_decimal_digits_injective,
};
use crate::label::{display_label, label_of};
use vstd::prelude::*;

verus! {

/// A clipboard entry that the user has pinned.
#[derive(Clone, Debug, PartialEq, Eq)]
pub struct Bookmark {
    /// The pinned text.
    pub content: String,
}

/// The identifier of the history entry at position `index`.
pub open spec fn history_id(index: nat) -> Seq<char> {
    "item_"@ + decimal_digits(index)
}

/// The identifier of the bookmark at position `index`.
pub open spec fn bookmark_id(index: nat) -> Seq<char> {
    "item_bm_"@ + decimal_digits(index)
}

/// The menu entries of a history: one per text and in the same order, each
/// with the identifier of its position and the label of its text.
pub open spec fn history_menu(texts: Seq<Seq<char>>) -> Seq<(Seq<char>, Seq<char>)> {
    Seq::new(texts.len(), |i: int| (history_id(i as nat), label_of(texts[i])))
}

/// The menu entries of a list of bookmarked texts: as [`history_menu`], with
/// the bookmarks' identifiers.
pub open spec fn bookmark_menu(texts: Seq<Seq<char>>) -> Seq<(Seq<char>, Seq<char>)> {
    Seq::new(texts.len(), |i: int| (bookmark_id(i as nat), label_of(texts[i])))
}

/// The texts of a list of bookmarks, in order.
pub open spec fn bookmark_texts(bookmarks: Seq<Bookmark>) -> Seq<Seq<char>> {
    Seq::new(bookmarks.len(), |i: int| bookmarks[i].content@)
}

/// A history's menu has one entry for each text; the entry at position `i`
/// has the identifier `item_` followed by `i` in decimal notation, and the
/// label of the text at that position.
pub proof fn lemma_history_menu_entries(texts: Seq<Seq<char>>)
    ensures
        history_menu(texts).len() == texts.len(),
        forall|i: int|
            0 <= i < texts.len() ==> (#[trigger] history_menu(texts)[i]).0 == "item_"@
                + decimal_digits(i as nat) && history_menu(texts)[i].1 == label_of(texts[i]),
{
}

/// A bookmark menu has one entry for each text; the entry at position `i`
/// has the identifier `item_bm_` followed by `i` in decimal notation, and the
/// label of the text at that position.
pub proof fn lemma_bookmark_menu_entries(texts: Seq<Seq<char>>)
    ensures
        bookmark_menu(texts).len() == texts.len(),
        forall|i: int|
            0 <= i < texts.len() ==> (#[trigger] bookmark_menu(texts)[i]).0 == "item_bm_"@
                + decimal_digits(i as nat) && bookmark_menu(texts)[i].1 == label_of(texts[i]),
{
}

/// Projecting is repeatable: two lists of menu entries that were made from
/// the same history are equal, entry by entry.
pub proof fn lemma_history_projection_repeatable(
    history: Vec<String>,
    first: Vec<(String, String)>,
    second: Vec<(String, String)>,
)
    requires
        first.deep_view() == history_menu(history.deep_view()),
        second.deep_view() == history_menu(history.deep_view()),
    ensures
        first.deep_view() == second.deep_view(),
        first@.len() == second@.len(),
        forall|i: int|
            0 <= i < first@.len() ==> (#[trigger] first@[i]).0@ == second@[i].0@ && first@[i].1@
                == second@[i].1@,
{
    assert(first@.len() == first.deep_view().len());
    assert(second@.len() == second.deep_view().len());
    assert forall|i: int| 0 <= i < first@.len() implies (#[trigger] first@[i]).0@ == second@[i].0@
        && first@[i].1@ == second@[i].1@ by {
        assert(first.deep_view()[i] == second.deep_view()[i]);
    }
}

/// Projecting is repeatable for bookmarks too, and only their texts count:
/// two lists of menu entries that were made from bookmarks with the same
/// texts are equal, entry by entry.
pub proof fn lemma_bookmark_projection_repeatable(
    bookmarks: Vec<Bookmark>,
    again: Vec<Bookmark>,
    first: Vec<(String, String)>,
    second: Vec<(String, String)>,
)
    requires
        bookmark_texts(bookmarks@) == bookmark_texts(again@),
        first.deep_view() == bookmark_menu(bookmark_texts(bookmarks@)),
        second.deep_view() == bookmark_menu(bookmark_texts(again@)),
    ensures
        first.deep_view() == second.deep_view(),
{
}

/// The entries of a menu are told by what holds of each of them: a list that
/// has at every position the identifier and the label of that position is
/// the history's menu, and no other list is.
pub proof fn lemma_history_menu_unique(texts: Seq<Seq<char>>, menu: Seq<(Seq<char>, Seq<char>)>)
    ensures
        menu == history_menu(texts) <==> {
            &&& menu.len() == texts.len()
            &&& forall|i: int|
                0 <= i < texts.len() ==> (#[trigger] menu[i]).0 == history_id(i as nat)
                    && menu[i].1 == label_of(texts[i])
        },
{
    if menu.len() == texts.len() && (forall|i: int|
        0 <= i < texts.len() ==> (#[trigger] menu[i]).0 == history_id(i as nat) && menu[i].1
            == label_of(texts[i])) {
        assert(menu =~= history_menu(texts));
    }
}

/// An identifier starts with its prefix, and a digit follows.
proof fn lemma_id_shape(index: nat)
    ensures
        history_id(index).len() > 5,
        history_id(index).subrange(5, history_id(index).len() as int) == decimal_digits(index),
        is_digit(history_id(index)[5]),
        bookmark_id(index).len() > 8,
        bookmark_id(index).subrange(8, bookmark_id(index).len() as int) == decimal_digits(index),
        bookmark_id(index)[5] == 'b',
{
    reveal_strlit("item_");
    reveal_strlit("item_bm_");
    lemma_decimal_digits_are_digits(index);
    assert(history_id(index).subrange(5, history_id(index).len() as int) =~= decimal_digits(index));
    assert(bookmark_id(index).subrange(8, bookmark_id(index).len() as int) =~= decimal_digits(
        index,
    ));
    assert(history_id(index)[5] == decimal_digits(index)[0]);
}

/// Within one menu no identifier occurs twice: two positions of the history
/// have different identifiers, so have two positions of the bookmarks, and
/// no history entry has the identifier of a bookmark.
pub proof fn lemma_identifiers_distinct(i: nat, j: nat)
    ensures
        i != j ==> history_id(i) != history_id(j),
        i != j ==> bookmark_id(i) != bookmark_id(j),
        history_id(i) != bookmark_id(j),
{
    lemma_id_shape(i);
    lemma_id_shape(j);
    if history_id(i) == history_id(j) {
        lemma_decimal_digits_injective(i, j);
    }
    if bookmark_id(i) == bookmark_id(j) {
        lemma_decimal_digits_injective(i, j);
    }
    assert(!is_digit('b'));
}

fn numbered_id(prefix: &str, index: usize) -> (id: String)
    ensures
        id@ == prefix@ + decimal_digits(index as nat),
{
    let number = decimal_string(index);
    String::from_str(prefix).concat(number.as_str())
}

/// Turns the clipboard history into menu entries, each an identifier and a
/// label.
pub fn history_as_menu_items_for_tray(history: &Vec<String>) -> (menu_items: Vec<(String, String)>)
    ensures
        menu_items.deep_view() == history_menu(history.deep_view()),
        menu_items@.len() == history@.len(),
        forall|i: int|
            0 <= i < history@.len() ==> (#[trigger] menu_items@[i]).0@ == history_id(i as nat)
                && menu_items@[i].1@ == label_of(history@[i]@),
{
    let mut menu_items: Vec<(String, String)> = Vec::new();
    let mut index: usize = 0;
    while index < history.len()
        invariant
            index <= history@.len(),
            menu_items@.len() == index,
            forall|i: int|
                0 <= i < index ==> (#[trigger] menu_items@[i]).0@ == history_id(i as nat)
                    && menu_items@[i].1@ == label_of(history@[i]@),
        decreases history@.len() - index,
    {
        let display_text = display_label(history[index].as_str());
        menu_items.push((numbered_id("item_", index), display_text));
        index += 1;
    }
    assert(menu_items.deep_view() =~= history_menu(history.deep_view()));
    menu_items
}

/// Turns the bookmarks into menu entries, each an identifier and a label.
pub fn bookmarks_as_menu_items_for_tray(bookmarks: &Vec<Bookmark>) -> (menu_items: Vec<
    (String, String),
>)
    ensures
        menu_items.deep_view() == bookmark_menu(bookmark_texts(bookmarks@)),
        menu_items@.len() == bookmarks@.len(),
        forall|i: int|
            0 <= i < bookmarks@.len() ==> (#[trigger] menu_items@[i]).0@ == bookmark_id(i as nat)
                && menu_items@[i].1@ == label_of(bookmarks@[i].content@),
{
    let mut menu_items: Vec<(String, String)> = Vec::new();
    let mut index: usize = 0;
    while index < bookmarks.len()
        invariant
            index <= bookmarks@.len(),
            menu_items@.len() == index,
            forall|i: int|
                0 <= i < index ==> (#[trigger] menu_items@[i]).0@ == bookmark_id(i as nat)
                    && menu_items@[i].1@ == label_of(bookmarks@[i].content@),
        decreases bookmarks@.len() - index,
    {
        let display_text = display_label(bookmarks[index].content.as_str());
        menu_items.push((numbered_id("item_bm_", index), display_text));
        index += 1;
    }
    assert(menu_items.deep_view() =~= bookmark_menu(bookmark_texts(bookmarks@)));
    menu_items
}

} // verus!
