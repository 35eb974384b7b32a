//! The non-streamed chat call: what a request carries, and what is read from
//! the provider's answer.
use vstd::prelude::*;
use crate::errors::OpenRouterClientError;
use crate::text::{opt_view, owned, strings_view};

verus! {

/// The plugin that repairs answers that break the requested JSON schema.
pub const RESPONSE_HEALING: &'static str = "response-healing";

/// The name under which a JSON schema is requested.
pub const SCHEMA_FORMAT_NAME: &'static str = "schema_generation";

pub const NO_CHOICES: &'static str = "No choices in OpenRouter response";

/// The plugins of a chat request: response healing when the answer must follow
/// a JSON schema, none otherwise.
pub fn chat_plugins(structured: bool) -> (v: Vec<String>)
    ensures
        strings_view(v@) == (if structured {
            seq![RESPONSE_HEALING@]
        } else {
            Seq::empty()
        }),
{
    let mut v: Vec<String> = Vec::new();
    if structured {
        v.push(owned(RESPONSE_HEALING));
        assert(strings_view(v@) =~= seq![RESPONSE_HEALING@]);
    } else {
        assert(strings_view(v@) =~= Seq::<Seq<char>>::empty());
    }
    v
}

/// The text of an answer: the content of its first choice, empty when that
/// choice has none; an answer without choices is malformed.
pub fn first_choice_content(choices: &Vec<Option<String>>) -> (r: Result<String, OpenRouterClientError>)
    ensures
        choices@.len() > 0 ==> (r matches Ok(c) && c@ == match opt_view(choices@[0]) {
            Some(t) => t,
            None => Seq::empty(),
        }),
        choices@.len() == 0 ==> (r matches Err(OpenRouterClientError::ResponseFormat { message })
            && message@ == NO_CHOICES@),
{
    if choices.len() == 0 {
        return Err(OpenRouterClientError::ResponseFormat { message: owned(NO_CHOICES) });
    }
    match &choices[0] {
        Some(c) => Ok(c.clone()),
        None => Ok(String::new()),
    }
}

} // verus!
