//! Choices a dialogue can offer. The dialogue window itself is the
//! client's business; only the option tree lives here.

use vstd::prelude::*;

verus! {

/// One selectable entry of a dialogue.
pub enum DialogueOption {
    /// Discontinue the dialogue.
    Leave,
    /// Show more text and offer further options.
    Info(String, Vec<(String, DialogueOption)>),
}

} // verus!
