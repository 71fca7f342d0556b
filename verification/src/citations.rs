//! References must resolve: every reference label needs a tag label. What is
//! wrong, if anything, is handed back as one text.

use crate::collections::LabelMap;
use crate::label::{label_views, Label};
use crate::references::{missing, missing_messages, missing_report};
use crate::text::join;
use vstd::prelude::*;
use vstd::string::*;

verus! {

/// Checks that every reference in `references` has its label among the keys
/// of `tags`. Returns nothing if so, and else one line for each reference
/// that does not.
pub fn check(tags: &LabelMap<Label>, references: &[Label]) -> (error: Option<String>)
    ensures
        match error {
            None => missing_messages(tags.labels(), label_views(references@)).len() == 0,
            Some(error) => missing_messages(tags.labels(), label_views(references@)).len() > 0
                && error@ == missing_report(tags.labels(), label_views(references@)),
        },
{
    let errors = missing(tags, references);
    if errors.len() == 0 {
        None
    } else {
        Some(join(&errors, "\n"))
    }
}

} // verus!
