//! Generation with the model's structured output, tried up to three times:
//! after a failed attempt the model sees its own answer and a correction
//! prompt.
use vstd::prelude::*;
use crate::messages::{assistant_view, duplicate_messages, messages_view, system_view, user_view, Message, MessageView};
use crate::text::{append_str, owned};

verus! {

/// The most attempts of one generation.
pub const MAX_ATTEMPTS: u8 = 3;

/// The conversation of one generation and how many attempts were made.
#[derive(Debug)]
pub struct Attempts {
    attempt: u8,
    messages: Vec<Message>,
}

pub struct AttemptsView {
    pub attempt: nat,
    pub messages: Seq<MessageView>,
}

impl View for Attempts {
    type V = AttemptsView;

    closed spec fn view(&self) -> AttemptsView {
        AttemptsView { attempt: self.attempt as nat, messages: messages_view(self.messages@) }
    }
}

fn push_message(v: &mut Vec<Message>, m: Message)
    ensures
        messages_view(final(v)@) == messages_view(old(v)@).push(m@),
{
    let ghost before = messages_view(v@);
    let ghost mv = m@;
    v.push(m);
    assert(messages_view(v@) =~= before.push(mv));
}

impl Attempts {
    /// No attempt yet; the conversation is the system prompt and the user prompt.
    pub fn new(system_prompt: &str, user_prompt: &str) -> (a: Attempts)
        ensures
            a@ == (AttemptsView {
                attempt: 0,
                messages: seq![system_view(system_prompt@), user_view(user_prompt@)],
            }),
    {
        let mut messages: Vec<Message> = Vec::new();
        push_message(&mut messages, Message::system(system_prompt));
        push_message(&mut messages, Message::user(user_prompt));
        let a = Attempts { attempt: 0, messages };
        assert(a@.messages =~= seq![system_view(system_prompt@), user_view(user_prompt@)]);
        a
    }

    /// Another attempt may be made.
    pub open spec fn can_try(&self) -> bool {
        self@.attempt < MAX_ATTEMPTS
    }

    /// How many attempts were made.
    pub fn attempt(&self) -> (n: u8)
        ensures
            n == self@.attempt,
    {
        self.attempt
    }

    /// Starts an attempt: the messages to send.
    pub fn begin(&mut self) -> (ms: Vec<Message>)
        requires
            old(self).can_try(),
        ensures
            final(self)@ == (AttemptsView { attempt: old(self)@.attempt + 1, ..old(self)@ }),
            messages_view(ms@) == old(self)@.messages,
    {
        self.attempt = self.attempt + 1;
        duplicate_messages(&self.messages)
    }

    /// The attempt's answer `raw_answer` failed. When another attempt may be
    /// made, the model's answer and the correction prompt join the
    /// conversation and true is returned; after the last attempt, false.
    pub fn retry(&mut self, raw_answer: &str, correction: &str) -> (again: bool)
        ensures
            again == old(self).can_try(),
            again ==> final(self)@ == (AttemptsView {
                messages: old(self)@.messages.push(assistant_view(Some(raw_answer@), None)).push(
                    user_view(correction@),
                ),
                ..old(self)@
            }),
            !again ==> final(self)@ == old(self)@,
    {
        if self.attempt < MAX_ATTEMPTS {
            push_message(&mut self.messages, Message::assistant(Some(owned(raw_answer)), None));
            push_message(&mut self.messages, Message::user(correction));
            true
        } else {
            false
        }
    }
}

pub const DATA_GENERATION_FAILED: &'static str = "AI failed to generate valid data after multiple attempts: ";

/// The error of a data generation whose last attempt failed with `message`.
pub fn data_generation_failed(message: &str) -> (s: String)
    ensures
        s@ == DATA_GENERATION_FAILED@ + message@,
{
    let mut s = owned(DATA_GENERATION_FAILED);
    append_str(&mut s, message);
    s
}

// ---------------------------------------------------------------------------
// The uploaded file
// ---------------------------------------------------------------------------

/// `std::str::from_utf8`: the text of the bytes when they are valid UTF-8
/// (as the documentation says, it fails exactly when they are not).
#[verifier::external_body]
fn utf8_text(bytes: &[u8]) -> (r: Option<String>)
    ensures
        r is Some <==> vstd::utf8::valid_utf8(bytes@),
        r matches Some(s) ==> s@ == vstd::utf8::decode_utf8(bytes@),
{
    match std::str::from_utf8(bytes) {
        Ok(s) => Some(s.to_owned()),
        Err(_) => None,
    }
}

/// The text of an uploaded file, which must be valid UTF-8.
pub fn file_text(content: &[u8]) -> (r: Option<String>)
    ensures
        r is Some <==> vstd::utf8::valid_utf8(content@),
        r matches Some(s) ==> s@ == vstd::utf8::decode_utf8(content@),
{
    utf8_text(content)
}

} // verus!
