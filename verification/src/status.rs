//! The lifecycle status of a stored swap note, and its text form.
use vstd::prelude::*;

verus! {

/// The status of a swap note in the order store.
#[derive(Clone, Copy, Debug, PartialEq, Eq, Structural)]
pub enum SwapNoteStatus {
    Open,
    PartiallyFilled,
    Filled,
    Cancelled,
}

/// A text that names no status.
#[derive(Debug)]
pub struct InvalidSwapNoteStatus {
    pub value: String,
}

/// The text form of a status: `open`, `partially_filled`, `filled` or `cancelled`.
pub open spec fn spec_status_text(status: SwapNoteStatus) -> Seq<char> {
    match status {
        SwapNoteStatus::Open => "open"@,
        SwapNoteStatus::PartiallyFilled => "partially_filled"@,
        SwapNoteStatus::Filled => "filled"@,
        SwapNoteStatus::Cancelled => "cancelled"@,
    }
}

/// The status that a text names, if any.
pub open spec fn spec_parse_status(text: Seq<char>) -> Option<SwapNoteStatus> {
    if text == "open"@ {
        Some(SwapNoteStatus::Open)
    } else if text == "partially_filled"@ {
        Some(SwapNoteStatus::PartiallyFilled)
    } else if text == "filled"@ {
        Some(SwapNoteStatus::Filled)
    } else if text == "cancelled"@ {
        Some(SwapNoteStatus::Cancelled)
    } else {
        None
    }
}

impl SwapNoteStatus {
    /// The text form of the status (see [`spec_status_text`]).
    pub fn to_status_string(&self) -> (r: String)
        ensures
            r@ == spec_status_text(*self),
    {
        match self {
            SwapNoteStatus::Open => "open".to_owned(),
            SwapNoteStatus::PartiallyFilled => "partially_filled".to_owned(),
            SwapNoteStatus::Filled => "filled".to_owned(),
            SwapNoteStatus::Cancelled => "cancelled".to_owned(),
        }
    }

    /// Reads a status from its text form; any other text is an error that
    /// carries the text.
    pub fn parse_status(s: &str) -> (r: Result<SwapNoteStatus, InvalidSwapNoteStatus>)
        ensures
            r matches Ok(status) ==> spec_parse_status(s@) == Some(status),
            r matches Err(e) ==> spec_parse_status(s@) is None && e.value@ == s@,
    {
        let text = s.to_owned();
        if text == "open".to_owned() {
            Ok(SwapNoteStatus::Open)
        } else if text == "partially_filled".to_owned() {
            Ok(SwapNoteStatus::PartiallyFilled)
        } else if text == "filled".to_owned() {
            Ok(SwapNoteStatus::Filled)
        } else if text == "cancelled".to_owned() {
            Ok(SwapNoteStatus::Cancelled)
        } else {
            Err(InvalidSwapNoteStatus { value: text })
        }
    }
}

/// Reading back the text form of a status gives the status.
pub proof fn lemma_status_text_roundtrip(status: SwapNoteStatus)
    ensures
        spec_parse_status(spec_status_text(status)) == Some(status),
{
    reveal_strlit("open");
    reveal_strlit("partially_filled");
    reveal_strlit("filled");
    reveal_strlit("cancelled");
    assert("open"@.len() == 4);
    assert("partially_filled"@.len() == 16);
    assert("filled"@.len() == 6);
    assert("cancelled"@.len() == 9);
    assert("open"@ != "partially_filled"@);
    assert("open"@ != "filled"@);
    assert("open"@ != "cancelled"@);
    assert("partially_filled"@ != "filled"@);
    assert("partially_filled"@ != "cancelled"@);
    assert("filled"@ != "cancelled"@);
}

/// A text names at most one status: the one whose text form it is.
pub proof fn lemma_parse_status_is_text(text: Seq<char>, status: SwapNoteStatus)
    requires
        spec_parse_status(text) == Some(status),
    ensures
        text == spec_status_text(status),
{
    lemma_status_text_roundtrip(status);
}

} // verus!
