//! Rules that accept or reject what the user typed into a field.
//!
//! A validator looks at the raw text of a field and either accepts it,
//! handing back the value it stands for, or rejects it with a message. Two
//! of the rules ask the file system whether the text is the path of an
//! existing entry; what they decide from the answer is stated for both
//! answers.

use vstd::prelude::*;
use crate::disk::is_on_disk;
use crate::text::{same_text, texts};

verus! {

/// The validated value of a field.
#[derive(Debug, PartialEq, Eq)]
pub enum Answer {
    /// A text.
    Text(String),
    /// A yes or a no.
    Flag(bool),
}

/// What an `Answer` holds.
pub enum AnswerView {
    Text(Seq<char>),
    Flag(bool),
}

impl View for Answer {
    type V = AnswerView;

    open spec fn view(&self) -> AnswerView {
        match self {
            Answer::Text(text) => AnswerView::Text(text@),
            Answer::Flag(flag) => AnswerView::Flag(*flag),
        }
    }
}

/// The message of `Validator::Required`.
pub open spec fn required_message() -> Seq<char> {
    "Field is required"@
}

/// The message of `Validator::OneOf`.
pub open spec fn one_of_message() -> Seq<char> {
    "Value must be one of the allowed values"@
}

/// The message of `Validator::FileExists`.
pub open spec fn file_exists_message() -> Seq<char> {
    "Path does not exist"@
}

/// The message of `Validator::PathFree`.
pub open spec fn path_free_message() -> Seq<char> {
    "Path is already used"@
}

/// A rule over the raw text of a field.
#[derive(Debug)]
pub enum Validator {
    /// Rejects the empty text.
    Required,
    /// Rejects a text that is none of the listed ones.
    OneOf(Vec<String>),
    /// Rejects a text that is not the path of an existing entry.
    FileExists,
    /// Rejects a text that is the path of an existing entry.
    PathFree,
}

impl Validator {
    /// Whether the rule asks the file system.
    pub open spec fn reads_disk(&self) -> bool {
        self is FileExists || self is PathFree
    }

    /// The message with which the rule rejects `raw`, if it rejects it.
    /// `on_disk` says whether `raw` is the path of an existing entry; only
    /// the rules that read the disk look at it.
    pub open spec fn rejection(&self, raw: Seq<char>, on_disk: bool) -> Option<Seq<char>> {
        match self {
            Validator::Required => if raw.len() == 0 {
                Some(required_message())
            } else {
                None
            },
            Validator::OneOf(allowed) => if texts(allowed@).contains(raw) {
                None
            } else {
                Some(one_of_message())
            },
            Validator::FileExists => if on_disk {
                None
            } else {
                Some(file_exists_message())
            },
            Validator::PathFree => if on_disk {
                Some(path_free_message())
            } else {
                None
            },
        }
    }

    /// What the rule makes of `raw`: the text itself where it accepts it,
    /// its message where it rejects it.
    pub open spec fn verdict(&self, raw: Seq<char>, on_disk: bool) -> Result<
        AnswerView,
        Seq<char>,
    > {
        match self.rejection(raw, on_disk) {
            Some(message) => Err(message),
            None => Ok(AnswerView::Text(raw)),
        }
    }

    /// Whether the rule asks the file system.
    pub fn needs_disk(&self) -> (needed: bool)
        ensures
            needed == self.reads_disk(),
    {
        match self {
            Validator::FileExists => true,
            Validator::PathFree => true,
            _ => false,
        }
    }

    /// Applies the rule to `raw`, of which the file system said `on_disk`.
    pub fn check(&self, raw: &str, on_disk: bool) -> (result: Result<Answer, String>)
        ensures
            outcome(result) == self.verdict(raw@, on_disk),
    {
        let rejected = match self {
            Validator::Required => {
                let empty = same_text(raw, "");
                proof {
                    reveal_strlit("");
                    assert(empty == (raw@.len() == 0)) by {
                        if raw@.len() == 0 {
                            assert(raw@ =~= ""@);
                        }
                    }
                }
                if empty {
                    Some("Field is required".to_owned())
                } else {
                    None
                }
            },
            Validator::OneOf(allowed) => {
                if listed(allowed, raw) {
                    None
                } else {
                    Some("Value must be one of the allowed values".to_owned())
                }
            },
            Validator::FileExists => {
                if on_disk {
                    None
                } else {
                    Some("Path does not exist".to_owned())
                }
            },
            Validator::PathFree => {
                if on_disk {
                    Some("Path is already used".to_owned())
                } else {
                    None
                }
            },
        };
        match rejected {
            Some(message) => Err(message),
            None => Ok(Answer::Text(raw.to_owned())),
        }
    }

    /// Applies the rule to `raw`. A rule that reads the disk asks the file
    /// system whether `raw` is the path of an existing entry, and decides
    /// as `verdict` says for the answer it gets.
    pub fn validate(&self, raw: &str) -> (result: Result<Answer, String>)
        ensures
            outcome(result) == self.verdict(raw@, true) || outcome(result) == self.verdict(
                raw@,
                false,
            ),
            !self.reads_disk() ==> outcome(result) == self.verdict(raw@, false),
    {
        let on_disk = if self.needs_disk() {
            is_on_disk(raw)
        } else {
            false
        };
        self.check(raw, on_disk)
    }
}

/// What a result of validation holds.
pub open spec fn outcome(result: Result<Answer, String>) -> Result<AnswerView, Seq<char>> {
    match result {
        Ok(value) => Ok(value@),
        Err(message) => Err(message@),
    }
}

/// Whether `raw` is one of the texts of `allowed`.
pub fn listed(allowed: &Vec<String>, raw: &str) -> (found: bool)
    ensures
        found == texts(allowed@).contains(raw@),
{
    let mut i: usize = 0;
    while i < allowed.len()
        invariant
            i <= allowed.len(),
            forall|j: int| 0 <= j < i ==> texts(allowed@)[j] != raw@,
        decreases allowed.len() - i,
    {
        if same_text(allowed[i].as_str(), raw) {
            assert(texts(allowed@)[i as int] == raw@);
            return true;
        }
        i += 1;
    }
    false
}

} // verus!
