//! The command that fills in a stored snippet.
//!
//! A snippet is a text with placeholders of the form `:name:`. The command
//! is given names and the values to put in their place.

use crate::command::store_failed;
use crate::errors::{CommandError, SlateError};
use crate::message::{Message, MessageView};
use crate::results::{command_result_view, CommandResult, CommandResultView, SlateResult};
use crate::session::{Reply, ReplyView};
use crate::text::{replace_all, replaced, trim_end, trim_right};
use vstd::prelude::*;

verus! {

/// The token that stands in a snippet for the placeholder `name`.
pub open spec fn token_of(name: Seq<char>) -> Seq<char> {
    seq![':'] + name + seq![':']
}

/// How many pairs of a placeholder and a value there are: a placeholder
/// without a value, or a value without a placeholder, makes none.
pub open spec fn pairs(placeholders: Seq<Seq<char>>, values: Seq<Seq<char>>) -> nat {
    if placeholders.len() <= values.len() {
        placeholders.len()
    } else {
        values.len()
    }
}

/// The snippet after the first `n` pairs were applied, one after the other:
/// each replaces every occurrence of its token in what the pairs before it
/// have left.
pub open spec fn filled(
    snippet: Seq<char>,
    placeholders: Seq<Seq<char>>,
    values: Seq<Seq<char>>,
    n: nat,
) -> Seq<char>
    decreases n,
{
    if n == 0 {
        snippet
    } else {
        replaced(
            filled(snippet, placeholders, values, (n - 1) as nat),
            token_of(placeholders[n - 1]),
            values[n - 1],
        )
    }
}

/// What the command shows: the stored value without the white space at its
/// end, with all pairs applied, and nothing added.
pub open spec fn result(
    placeholders: Seq<Seq<char>>,
    values: Seq<Seq<char>>,
    outcome: Result<ReplyView, SlateError>,
) -> CommandResultView {
    match outcome {
        Ok(reply) => Ok(
            Some(
                MessageView::Raw(
                    filled(
                        trim_end(reply.value()),
                        placeholders,
                        values,
                        pairs(placeholders, values),
                    ),
                ),
            ),
        ),
        Err(err) => store_failed(err),
    }
}

/// The token for a placeholder.
fn token(name: &str) -> (t: String)
    ensures
        t@ == token_of(name@),
{
    proof {
        reveal_strlit(":");
        assert(":"@ =~= seq![':']);
    }
    let mut t = String::from_str(":");
    t.append(name);
    t.append(":");
    t
}

/// Ends the command with the outcome of the store's get.
pub fn run(placeholders: &Vec<String>, values: &Vec<String>, outcome: SlateResult<Reply>) -> (r:
    CommandResult)
    ensures
        command_result_view(r) == result(
            placeholders.deep_view(),
            values.deep_view(),
            crate::session::result_view(outcome),
        ),
{
    match outcome {
        Ok(reply) => {
            let value = reply.into_value();
            let mut text = trim_right(value.as_str());
            let n = if placeholders.len() <= values.len() {
                placeholders.len()
            } else {
                values.len()
            };
            let mut i: usize = 0;
            while i < n
                invariant
                    n == pairs(placeholders.deep_view(), values.deep_view()),
                    i <= n,
                    text@ == filled(
                        trim_end(value@),
                        placeholders.deep_view(),
                        values.deep_view(),
                        i as nat,
                    ),
                decreases n - i,
            {
                let mark = token(placeholders[i].as_str());
                text = replace_all(text.as_str(), mark.as_str(), values[i].as_str());
                i += 1;
            }
            Ok(Some(Message::Raw(text)))
        },
        Err(err) => Err(CommandError::Slate(err)),
    }
}

} // verus!
