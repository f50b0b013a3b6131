//! The label of a menu line: the entry's text, cut where it is too long.

use vstd::prelude::*;

verus! {

/// The number of characters that a label shows of its text.
pub const LABEL_LIMIT: usize = 30;

/// The label under which `text` is shown: the text itself while it has at
/// most [`LABEL_LIMIT`] characters, else its first [`LABEL_LIMIT`] characters
/// followed by three dots. Length is counted in characters, not in bytes.
pub open spec fn label_of(text: Seq<char>) -> Seq<char> {
    if text.len() <= LABEL_LIMIT {
        text
    } else {
        text.subrange(0, LABEL_LIMIT as int) + "..."@
    }
}

/// Builds the label of `text`.
pub fn display_label(text: &str) -> (label: String)
    ensures
        label@ == label_of(text@),
        text@.len() <= LABEL_LIMIT ==> label@ == text@,
        text@.len() > LABEL_LIMIT ==> label@ == text@.subrange(0, LABEL_LIMIT as int) + "..."@,
{
    if text.unicode_len() > LABEL_LIMIT {
        String::from_str(text.substring_char(0, LABEL_LIMIT)).concat("...")
    } else {
        String::from_str(text)
    }
}

/// A label never has more than [`LABEL_LIMIT`] characters and three dots, and
/// it starts as its text does.
pub proof fn lemma_label_shape(text: Seq<char>)
    ensures
        label_of(text).len() <= LABEL_LIMIT + 3,
        text.len() <= LABEL_LIMIT ==> label_of(text).len() == text.len(),
        text.len() > LABEL_LIMIT ==> label_of(text).len() == LABEL_LIMIT + 3,
        forall|i: int|
            0 <= i < text.len() && i < LABEL_LIMIT ==> #[trigger] label_of(text)[i] == text[i],
        forall|i: int|
            text.len() > LABEL_LIMIT && LABEL_LIMIT <= i < LABEL_LIMIT + 3 ==> #[trigger] label_of(
                text,
            )[i] == '.',
{
    reveal_strlit("...");
}

/// Cutting a second time changes nothing: a label is its own label.
pub proof fn lemma_label_idempotent(text: Seq<char>)
    ensures
        label_of(label_of(text)) == label_of(text),
{
    reveal_strlit("...");
    if text.len() > LABEL_LIMIT {
        let label = label_of(text);
        assert(label.len() == LABEL_LIMIT + 3);
        assert(label.subrange(0, LABEL_LIMIT as int) =~= text.subrange(0, LABEL_LIMIT as int));
    }
}

} // verus!
