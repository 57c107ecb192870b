use vstd::prelude::*;

use crate::text::str_eq;

verus! {

/// The provider profile that an agent session is built with.
#[derive(Debug, Clone, Copy, PartialEq, Eq, Structural)]
pub enum ProfileKind {
    OpenAi,
    Gemini,
    Anthropic,
}

/// The profile a provider name selects: `openai` and `gemini` their own,
/// anything else (and no name at all) Anthropic's.
pub open spec fn profile_for(provider: Option<Seq<char>>) -> ProfileKind {
    match provider {
        Some(p) => if p == "openai"@ {
            ProfileKind::OpenAi
        } else if p == "gemini"@ {
            ProfileKind::Gemini
        } else {
            ProfileKind::Anthropic
        },
        None => ProfileKind::Anthropic,
    }
}

/// Language-model backend that runs an agent session per stage.
pub struct AgentBackend {
    model: String,
    provider: Option<String>,
}

impl AgentBackend {
    pub closed spec fn model_spec(&self) -> Seq<char> {
        self.model@
    }

    pub closed spec fn provider_spec(&self) -> Option<Seq<char>> {
        match self.provider {
            Some(p) => Some(p@),
            None => None,
        }
    }

    /// A backend for `model`, with the provider if one is named.
    pub fn new(model: String, provider: Option<String>) -> (b: AgentBackend)
        ensures
            b.model_spec() == model@,
            b.provider_spec() == match provider {
                Some(p) => Some(p@),
                None => None::<Seq<char>>,
            },
    {
        AgentBackend { model, provider }
    }

    /// The model that sessions use.
    pub fn model(&self) -> (r: &str)
        ensures
            r@ == self.model_spec(),
    {
        self.model.as_str()
    }

    /// The provider profile that sessions are built with.
    pub fn profile_kind(&self) -> (k: ProfileKind)
        ensures
            k == profile_for(self.provider_spec()),
    {
        match &self.provider {
            Some(p) => {
                if str_eq(p.as_str(), "openai") {
                    ProfileKind::OpenAi
                } else if str_eq(p.as_str(), "gemini") {
                    ProfileKind::Gemini
                } else {
                    ProfileKind::Anthropic
                }
            },
            None => ProfileKind::Anthropic,
        }
    }
}

} // verus!
