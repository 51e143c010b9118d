//! Counters of the requests made to a language model.

use crate::session::text_view;
use vstd::prelude::*;

verus! {

/// The mathematical value of a [`UsageInfo`].
pub struct UsageView {
    pub total_requests: u64,
    pub prompt_tokens: Option<u64>,
    pub completion_tokens: Option<u64>,
    pub total_tokens: Option<u64>,
    pub metadata: Option<Seq<char>>,
}

impl UsageView {
    /// The counters before any request: none made, nothing else known.
    pub open spec fn zero() -> UsageView {
        UsageView {
            total_requests: 0,
            prompt_tokens: None,
            completion_tokens: None,
            total_tokens: None,
            metadata: None,
        }
    }

    /// The counters after one more request.
    pub open spec fn count_request(self) -> UsageView
        recommends
            self.total_requests < u64::MAX,
    {
        UsageView { total_requests: (self.total_requests + 1) as u64, ..self }
    }
}

/// What is known of the use made of a language model since the counters
/// were last reset.
#[derive(Debug)]
pub struct UsageInfo {
    /// The number of requests made.
    pub total_requests: u64,
    /// The prompt tokens used, where the service tells.
    pub prompt_tokens: Option<u64>,
    /// The completion tokens used, where the service tells.
    pub completion_tokens: Option<u64>,
    /// All tokens used, where the service tells.
    pub total_tokens: Option<u64>,
    /// Anything else the service tells.
    pub metadata: Option<String>,
}

impl View for UsageInfo {
    type V = UsageView;

    open spec fn view(&self) -> UsageView {
        UsageView {
            total_requests: self.total_requests,
            prompt_tokens: self.prompt_tokens,
            completion_tokens: self.completion_tokens,
            total_tokens: self.total_tokens,
            metadata: text_view(self.metadata),
        }
    }
}

impl Default for UsageInfo {
    fn default() -> (usage: Self)
        ensures
            usage@ == UsageView::zero(),
    {
        UsageInfo {
            total_requests: 0,
            prompt_tokens: None,
            completion_tokens: None,
            total_tokens: None,
            metadata: None,
        }
    }
}

impl Clone for UsageInfo {
    fn clone(&self) -> (copy: Self)
        ensures
            copy@ == self@,
    {
        let metadata = match &self.metadata {
            Some(text) => Some(text.clone()),
            None => None,
        };
        UsageInfo {
            total_requests: self.total_requests,
            prompt_tokens: self.prompt_tokens,
            completion_tokens: self.completion_tokens,
            total_tokens: self.total_tokens,
            metadata,
        }
    }
}

} // verus!
