//! Building blocks for forms in a terminal, each with a machine-checked
//! contract.
//!
//! * `feeders` answers "which completions fit this text?", from a list or
//!   from the file system, one page at a time.
//! * `validators` holds the rules that accept or reject the raw text of a
//!   field, and `fields` the field that applies them in order.
//! * `form` validates a list of fields as a whole, and says what an input
//!   event means to a form and what comes of it.
//! * `selection` keeps the text typed into a completing field, the
//!   candidates shown for it and the items confirmed.
//! * `json` and `text` carry the values: JSON objects of `serde_json`, and
//!   strings as sequences of characters.
//!
//! Nothing here draws on a screen. A front end shows the fields, hands the
//! form what the user did, and acts on what the form answers.

mod disk;
pub mod feeders;
pub mod fields;
pub mod form;
pub mod json;
pub mod selection;
pub mod text;
pub mod validators;
