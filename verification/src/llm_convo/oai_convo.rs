//! A conversation against an OpenAI-style completions endpoint. The library
//! keeps the transcript and renders the request body; performing the HTTP
//! request and decoding the endpoint's reply are the caller's concern, and
//! the reply's content is recorded through `record_response`.

use vstd::prelude::*;

use crate::json::append_decimal;
use crate::json::append_quoted;
use crate::json::dec_digits;
use crate::json::quoted;
use crate::llm_convo::FormattedMessage;
use crate::llm_convo::LLMConvo;
use crate::llm_convo::LLMConvoMethods;
use crate::llm_convo::Message;

verus! {

/// The (role, content) views of a transcript.
pub open spec fn formatted_views(msgs: Seq<Message>) -> Seq<(Seq<char>, Seq<char>)> {
    Seq::new(msgs.len(), |i: int| (msgs[i].role@, msgs[i].content@))
}

/// The JSON object for one message, fields in alphabetical order.
pub open spec fn json_message(m: (Seq<char>, Seq<char>)) -> Seq<char> {
    "{\"content\":"@ + quoted(m.1) + ",\"role\":"@ + quoted(m.0) + "}"@
}

/// The comma-separated message objects, in transcript order.
pub open spec fn json_messages(msgs: Seq<(Seq<char>, Seq<char>)>) -> Seq<char>
    decreases msgs.len(),
{
    if msgs.len() == 0 {
        Seq::empty()
    } else if msgs.len() == 1 {
        json_message(msgs[0])
    } else {
        json_messages(msgs.drop_last()) + ","@ + json_message(msgs.last())
    }
}

/// The canonical completions request body, fields in alphabetical order.
pub open spec fn spec_request_body(
    model: Seq<char>,
    msgs: Seq<(Seq<char>, Seq<char>)>,
    max_tokens: nat,
) -> Seq<char> {
    "{\"frequency_penalty\":0,\"max_tokens\":"@ + dec_digits(max_tokens) + ",\"messages\":["@
        + json_messages(msgs) + "],\"model\":"@ + quoted(model)
        + ",\"presence_penalty\":0,\"temperature\":1,\"top_p\":1}"@
}

/// A transcript bound to a model name and an API key.
pub struct OAIConvo3_0_0 {
    pub llm_convo: LLMConvo,
    model: String,
    api_key: String,
}

impl OAIConvo3_0_0 {
    /// The model this conversation requests completions from.
    pub closed spec fn spec_model(&self) -> Seq<char> {
        self.model@
    }

    /// The API key the caller authenticates with.
    pub closed spec fn spec_api_key(&self) -> Seq<char> {
        self.api_key@
    }

    /// A fresh conversation. The HTTP client that will carry its requests
    /// lives with the caller.
    pub fn new(api_key: String, model: String) -> (r: Self)
        ensures
            r.transcript() == Seq::<Message>::empty(),
            r.spec_model() == model@,
            r.spec_api_key() == api_key@,
    {
        OAIConvo3_0_0 { llm_convo: LLMConvo::new(), model, api_key }
    }

    /// The model name, for the caller that performs the request.
    pub fn model(&self) -> (r: &String)
        ensures
            r@ == self.spec_model(),
    {
        &self.model
    }

    /// The API key, for the caller that performs the request.
    pub fn api_key(&self) -> (r: &String)
        ensures
            r@ == self.spec_api_key(),
    {
        &self.api_key
    }

    /// Appends one message with the given role, a freshly read timestamp
    /// attached.
    fn push_message(&mut self, role: String, content: String)
        ensures
            final(self).transcript().drop_last() == old(self).transcript(),
            final(self).transcript().len() == old(self).transcript().len() + 1,
            final(self).transcript().last().role@ == role@,
            final(self).transcript().last().content@ == content@,
            final(self).spec_model() == old(self).spec_model(),
            final(self).spec_api_key() == old(self).spec_api_key(),
    {
        let dt = self.llm_convo.current_date_time();
        self.llm_convo.messages.push(Message { role, content, date_time: dt });
        proof {
            assert(self.llm_convo.messages@.drop_last() =~= old(self).llm_convo.messages@);
        }
    }

    /// The request body for one completions call against this transcript.
    pub fn request_body_json(&self, max_tokens: usize) -> (r: String)
        ensures
            r@ == spec_request_body(
                self.spec_model(),
                formatted_views(self.transcript()),
                max_tokens as nat,
            ),
    {
        let ghost msgs = formatted_views(self.llm_convo.messages@);
        let mut out = String::new();
        out.append("{\"frequency_penalty\":0,\"max_tokens\":");
        append_decimal(&mut out, max_tokens);
        out.append(",\"messages\":[");
        let ghost base = out@;
        proof {
            assert(msgs.take(0) =~= Seq::<(Seq<char>, Seq<char>)>::empty());
            assert(out@ =~= base + json_messages(msgs.take(0)));
        }
        let mut i: usize = 0;
        while i < self.llm_convo.messages.len()
            invariant
                i <= self.llm_convo.messages.len(),
                out@ == base + json_messages(msgs.take(i as int)),
            decreases self.llm_convo.messages.len() - i,
        {
            if i > 0 {
                out.append(",");
            }
            out.append("{\"content\":");
            append_quoted(&mut out, self.llm_convo.messages[i].content.as_str());
            out.append(",\"role\":");
            append_quoted(&mut out, self.llm_convo.messages[i].role.as_str());
            out.append("}");
            proof {
                assert(msgs.take(i + 1).drop_last() =~= msgs.take(i as int));
                assert(msgs.take(i + 1).last() == msgs[i as int]);
                assert(msgs[i as int] == (
                    self.llm_convo.messages@[i as int].role@,
                    self.llm_convo.messages@[i as int].content@,
                ));
                assert(out@ =~= base + json_messages(msgs.take(i + 1)));
            }
            i = i + 1;
        }
        proof {
            assert(msgs.take(self.llm_convo.messages@.len() as int) =~= msgs);
        }
        out.append("],\"model\":");
        append_quoted(&mut out, self.model.as_str());
        out.append(",\"presence_penalty\":0,\"temperature\":1,\"top_p\":1}");
        proof {
            assert(out@ =~= spec_request_body(self.spec_model(), msgs, max_tokens as nat));
        }
        out
    }

    /// Records the content the endpoint returned, when asked to keep it in
    /// the transcript; with `add_to_convo` false the transcript is unchanged.
    pub fn record_response(&mut self, content: String, add_to_convo: bool)
        ensures
            final(self).spec_model() == old(self).spec_model(),
            final(self).spec_api_key() == old(self).spec_api_key(),
            add_to_convo ==> (final(self).transcript().drop_last() == old(self).transcript()
                && final(self).transcript().len() == old(self).transcript().len() + 1
                && final(self).transcript().last().role@ == "assistant"@
                && final(self).transcript().last().content@ == content@),
            !add_to_convo ==> final(self).transcript() == old(self).transcript(),
    {
        if add_to_convo {
            self.push_message("assistant".to_owned(), content);
        }
    }
}

impl LLMConvoMethods for OAIConvo3_0_0 {
    closed spec fn transcript(&self) -> Seq<Message> {
        self.llm_convo.messages@
    }

    fn add_system_message(&mut self, message: String)
        ensures
            final(self).spec_model() == old(self).spec_model(),
            final(self).spec_api_key() == old(self).spec_api_key(),
    {
        self.push_message("system".to_owned(), message);
    }

    fn add_assistant_message(&mut self, message: String)
        ensures
            final(self).spec_model() == old(self).spec_model(),
            final(self).spec_api_key() == old(self).spec_api_key(),
    {
        self.push_message("assistant".to_owned(), message);
    }

    fn add_user_message(&mut self, message: String)
        ensures
            final(self).spec_model() == old(self).spec_model(),
            final(self).spec_api_key() == old(self).spec_api_key(),
    {
        self.push_message("user".to_owned(), message);
    }

    fn formatted_messages(&self) -> (r: Vec<FormattedMessage>) {
        let mut r: Vec<FormattedMessage> = Vec::new();
        let mut i: usize = 0;
        while i < self.llm_convo.messages.len()
            invariant
                i <= self.llm_convo.messages.len(),
                r@.len() == i,
                forall|k: int|
                    0 <= k < i ==> ((#[trigger] r@[k]).role@ == self.llm_convo.messages@[k].role@
                        && r@[k].content@ == self.llm_convo.messages@[k].content@),
            decreases self.llm_convo.messages.len() - i,
        {
            r.push(
                FormattedMessage {
                    role: self.llm_convo.messages[i].role.clone(),
                    content: self.llm_convo.messages[i].content.clone(),
                },
            );
            i = i + 1;
        }
        r
    }
}

} // verus!
