//! The Ollama text-generation service: where it is asked, what it is asked,
//! and what is made of its replies.

use crate::chat::usage::{UsageInfo, UsageView};
use crate::session::text_view;
use vstd::prelude::*;

verus! {

/// The address of the endpoint that generates text, given the service's base
/// address.
pub open spec fn generate_url_text(base_url: Seq<char>) -> Seq<char> {
    base_url + "/api/generate"@
}

/// The address of the endpoint that tells whether the service is up, given
/// the service's base address.
pub open spec fn health_url_text(base_url: Seq<char>) -> Seq<char> {
    base_url + "/api/tags"@
}

/// The mathematical value of an [`OllamaRequest`].
pub struct RequestView {
    pub model: Seq<char>,
    pub prompt: Seq<char>,
    pub stream: bool,
    pub system: Option<Seq<char>>,
}

/// What is sent to the service to have text generated.
#[derive(Debug)]
pub struct OllamaRequest {
    /// The model that is to answer.
    pub model: String,
    /// The text to answer.
    pub prompt: String,
    /// Whether the answer is to come in pieces. The library asks for it whole.
    pub stream: bool,
    /// The system prompt, where there is one.
    pub system: Option<String>,
}

impl View for OllamaRequest {
    type V = RequestView;

    open spec fn view(&self) -> RequestView {
        RequestView {
            model: self.model@,
            prompt: self.prompt@,
            stream: self.stream,
            system: text_view(self.system),
        }
    }
}

/// The mathematical value of a [`GenerateReply`].
pub enum ReplyView {
    Unsent(Seq<char>),
    Refused(Seq<char>),
    Unreadable(Seq<char>),
    Answered(Seq<char>),
}

impl ReplyView {
    /// What the caller is told of a reply: the generated text, or the text
    /// of the failure.
    pub open spec fn outcome(self) -> Result<Seq<char>, Seq<char>> {
        match self {
            ReplyView::Unsent(error) => Err("Failed to send request: "@ + error),
            ReplyView::Refused(status) => Err("Ollama returned error status: "@ + status),
            ReplyView::Unreadable(error) => Err("Failed to parse response: "@ + error),
            ReplyView::Answered(response) => Ok(response),
        }
    }
}

/// How a request to generate text ended.
#[derive(Debug)]
pub enum GenerateReply {
    /// The request could not be sent; the text says why.
    Unsent(String),
    /// The service answered with a status other than success; the text is
    /// that status.
    Refused(String),
    /// The service's answer could not be read; the text says why.
    Unreadable(String),
    /// The service generated this text.
    Answered(String),
}

impl View for GenerateReply {
    type V = ReplyView;

    open spec fn view(&self) -> ReplyView {
        match self {
            GenerateReply::Unsent(error) => ReplyView::Unsent(error@),
            GenerateReply::Refused(status) => ReplyView::Refused(status@),
            GenerateReply::Unreadable(error) => ReplyView::Unreadable(error@),
            GenerateReply::Answered(response) => ReplyView::Answered(response@),
        }
    }
}

/// The view of a result that holds texts.
pub open spec fn outcome_view(outcome: Result<String, String>) -> Result<Seq<char>, Seq<char>> {
    match outcome {
        Ok(text) => Ok(text@),
        Err(text) => Err(text@),
    }
}

/// The mathematical value of an [`OllamaChat`].
pub struct ChatView {
    pub base_url: Seq<char>,
    pub model: Seq<char>,
    pub usage: UsageView,
}

/// The settings of a conversation with an Ollama service, and the count of
/// the requests it has answered.
#[derive(Debug)]
pub struct OllamaChat {
    base_url: String,
    model: String,
    usage_info: UsageInfo,
}

impl View for OllamaChat {
    type V = ChatView;

    closed spec fn view(&self) -> ChatView {
        ChatView { base_url: self.base_url@, model: self.model@, usage: self.usage_info@ }
    }
}

impl OllamaChat {
    /// Creates the settings for the service at the given base address and
    /// the given model, with the counters at zero.
    pub fn new(base_url: String, model: String) -> (chat: Self)
        ensures
            chat@ == (ChatView { base_url: base_url@, model: model@, usage: UsageView::zero() }),
    {
        OllamaChat { base_url, model, usage_info: UsageInfo::default() }
    }

    /// Creates the settings for a service on this machine at its usual address,
    /// with the model `llama2`.
    pub fn default() -> (chat: Self)
        ensures
            chat@ == (ChatView {
                base_url: "http://localhost:11434"@,
                model: "llama2"@,
                usage: UsageView::zero(),
            }),
    {
        Self::new(String::from_str("http://localhost:11434"), String::from_str("llama2"))
    }

    /// The base address of the service.
    pub fn base_url(&self) -> (base_url: &str)
        ensures
            base_url@ == self@.base_url,
    {
        self.base_url.as_str()
    }

    /// Sets the model that is to answer.
    pub fn set_model(&mut self, model: &str)
        ensures
            final(self)@ == (ChatView { model: model@, ..old(self)@ }),
    {
        self.model = model.to_owned();
    }

    /// The model that is to answer.
    pub fn get_model(&self) -> (model: &str)
        ensures
            model@ == self@.model,
    {
        self.model.as_str()
    }

    /// The counters as they stand.
    pub fn get_usage_info(&self) -> (usage: UsageInfo)
        ensures
            usage@ == self@.usage,
    {
        self.usage_info.clone()
    }

    /// Sets the counters back to zero.
    pub fn reset_usage_info(&mut self)
        ensures
            final(self)@ == (ChatView { usage: UsageView::zero(), ..old(self)@ }),
    {
        self.usage_info = UsageInfo::default();
    }

    /// The address to which requests to generate text go.
    pub fn generate_url(&self) -> (url: String)
        ensures
            url@ == generate_url_text(self@.base_url),
    {
        let mut url = self.base_url.clone();
        url.append("/api/generate");
        url
    }

    /// The address that is asked whether the service is up.
    pub fn health_url(&self) -> (url: String)
        ensures
            url@ == health_url_text(self@.base_url),
    {
        let mut url = self.base_url.clone();
        url.append("/api/tags");
        url
    }

    /// The request that asks the current model for an answer to `message`,
    /// whole and not in pieces, under the system prompt if one is given.
    pub fn request(&self, message: &str, system_prompt: Option<&str>) -> (request: OllamaRequest)
        ensures
            request@ == (RequestView {
                model: self@.model,
                prompt: message@,
                stream: false,
                system: match system_prompt {
                    Some(text) => Some(text@),
                    None => None,
                },
            }),
    {
        let system = match system_prompt {
            Some(text) => Some(text.to_owned()),
            None => None,
        };
        OllamaRequest { model: self.model.clone(), prompt: message.to_owned(), stream: false, system }
    }

    /// Takes in how a request to generate text ended. An answer is counted
    /// and handed on; a failure is put into words and counts for nothing.
    pub fn finish_request(&mut self, reply: GenerateReply) -> (outcome: Result<String, String>)
        requires
            reply is Answered ==> old(self)@.usage.total_requests < u64::MAX,
        ensures
            outcome_view(outcome) == reply@.outcome(),
            final(self)@ == if reply is Answered {
                (ChatView { usage: old(self)@.usage.count_request(), ..old(self)@ })
            } else {
                old(self)@
            },
    {
        match reply {
            GenerateReply::Unsent(error) => {
                let mut text = String::from_str("Failed to send request: ");
                text.append(error.as_str());
                Err(text)
            },
            GenerateReply::Refused(status) => {
                let mut text = String::from_str("Ollama returned error status: ");
                text.append(status.as_str());
                Err(text)
            },
            GenerateReply::Unreadable(error) => {
                let mut text = String::from_str("Failed to parse response: ");
                text.append(error.as_str());
                Err(text)
            },
            GenerateReply::Answered(response) => {
                self.usage_info.total_requests += 1;
                Ok(response)
            },
        }
    }
}

/// The text that a failed health check is reported with.
pub open spec fn health_failure_text(error: Seq<char>) -> Seq<char> {
    "Health check failed: "@ + error
}

/// Reads the reply to a health check: whether the service answered with
/// success, or the failure to reach it put into words.
pub fn health_outcome(reply: Result<bool, String>) -> (outcome: Result<bool, String>)
    ensures
        match reply {
            Ok(success) => outcome == Ok::<bool, String>(success),
            Err(error) => outcome matches Err(text) && text@ == health_failure_text(error@),
        },
{
    match reply {
        Ok(success) => Ok(success),
        Err(error) => {
            let mut text = String::from_str("Health check failed: ");
            text.append(error.as_str());
            Err(text)
        },
    }
}

} // verus!
