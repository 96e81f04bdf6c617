//! What a command hands back to be shown.

use crate::text::{lemma_trim_idempotent, lemma_trim_ignores_white_tail, trim_end, trim_right, white_space};
use vstd::prelude::*;

verus! {

/// A text to show to the user.
#[derive(Clone, Debug, PartialEq, Eq)]
pub enum Message {
    /// Shown as it is, with nothing added.
    Raw(String),
    /// Shown with exactly one line end after it, whatever white space the
    /// text itself ends in.
    Info(String),
}

/// A [`Message`] as the contracts speak of it.
pub ghost enum MessageView {
    Raw(Seq<char>),
    Info(Seq<char>),
}

impl View for Message {
    type V = MessageView;

    open spec fn view(&self) -> MessageView {
        match self {
            Message::Raw(text) => MessageView::Raw(text@),
            Message::Info(text) => MessageView::Info(text@),
        }
    }
}

impl Message {
    /// The characters that are written for the message.
    pub open spec fn shown(&self) -> Seq<char> {
        match self {
            Message::Raw(text) => text@,
            Message::Info(text) => trim_end(text@).push('\n'),
        }
    }

    /// The text that is written for the message.
    pub fn to_string(&self) -> (out: String)
        ensures
            out@ == self.shown(),
    {
        match self {
            Message::Raw(text) => text.clone(),
            Message::Info(text) => {
                let mut out = trim_right(text.as_str());
                proof {
                    reveal_strlit("\n");
                    assert(out@ + "\n"@ =~= out@.push('\n'));
                }
                out.append("\n");
                out
            },
        }
    }
}

/// Showing an informational message is idempotent: the text that was shown,
/// taken as an informational message again, is shown the same.
pub proof fn lemma_info_idempotent(first: Message, second: Message)
    requires
        first is Info,
        second is Info,
        second->Info_0@ == first.shown(),
    ensures
        second.shown() == first.shown(),
{
    let body = trim_end(first->Info_0@);
    assert(white_space('\n'));
    assert(body.push('\n') =~= body + seq!['\n']);
    lemma_trim_ignores_white_tail(body, seq!['\n']);
    lemma_trim_idempotent(first->Info_0@);
}

} // verus!
