//! Conversation transcripts for a chat backend: an ordered list of messages,
//! each carrying a role, its content, and the timestamp it was recorded at.

use vstd::prelude::*;

pub mod oai_convo;

verus! {

/// One message of a conversation.
pub struct Message {
    pub role: String,
    pub content: String,
    pub date_time: String,
}

/// A message reduced to what a completions endpoint receives: role and
/// content, the timestamp stripped.
pub struct FormattedMessage {
    pub role: String,
    pub content: String,
}

/// The transcript that a conversation accumulates.
pub struct LLMConvo {
    pub messages: Vec<Message>,
}

/// Relies on chrono's `Local::now` and `DateTime::format`: renders the local
/// wall-clock time as `%Y-%m-%d %H:%M:%S`. The result depends on the clock,
/// so nothing is promised of it.
#[verifier::external_body]
fn local_date_time_string() -> String {
    chrono::Local::now().format("%Y-%m-%d %H:%M:%S").to_string()
}

impl LLMConvo {
    /// A conversation with no messages.
    pub fn new() -> (r: Self)
        ensures
            r.messages@ == Seq::<Message>::empty(),
    {
        let r = LLMConvo { messages: Vec::new() };
        proof {
            assert(r.messages@ =~= Seq::<Message>::empty());
        }
        r
    }

    /// Removes every message from the transcript.
    pub fn clear_messages(&mut self)
        ensures
            final(self).messages@ == Seq::<Message>::empty(),
    {
        self.messages.clear();
    }

    /// The current local date and time, read from the system clock; no two
    /// calls need agree.
    pub fn current_date_time(&self) -> String {
        local_date_time_string()
    }
}

/// The operations every conversation backend offers. A backend keeps an
/// ordered transcript; adding a message appends exactly one entry with the
/// given role and content and a freshly read timestamp.
pub trait LLMConvoMethods {
    spec fn transcript(&self) -> Seq<Message>;

    fn add_system_message(&mut self, message: String)
        ensures
            final(self).transcript().drop_last() == old(self).transcript(),
            final(self).transcript().len() == old(self).transcript().len() + 1,
            final(self).transcript().last().role@ == "system"@,
            final(self).transcript().last().content@ == message@,
    ;

    fn add_assistant_message(&mut self, message: String)
        ensures
            final(self).transcript().drop_last() == old(self).transcript(),
            final(self).transcript().len() == old(self).transcript().len() + 1,
            final(self).transcript().last().role@ == "assistant"@,
            final(self).transcript().last().content@ == message@,
    ;

    fn add_user_message(&mut self, message: String)
        ensures
            final(self).transcript().drop_last() == old(self).transcript(),
            final(self).transcript().len() == old(self).transcript().len() + 1,
            final(self).transcript().last().role@ == "user"@,
            final(self).transcript().last().content@ == message@,
    ;

    /// The transcript with timestamps stripped, ready to be sent.
    fn formatted_messages(&self) -> (r: Vec<FormattedMessage>)
        ensures
            r@.len() == self.transcript().len(),
            forall|i: int|
                0 <= i < r@.len() ==> ((#[trigger] r@[i]).role@ == self.transcript()[i].role@
                    && r@[i].content@ == self.transcript()[i].content@),
    ;
}

} // verus!
