//! Which model provider to use.

use vstd::prelude::*;
use crate::agent::model::{last_by, last_content, saying};
use crate::scan::{ascii_lowercase, ascii_lowercase_text};
use crate::text::same_text;
use crate::types::{CompletionRequest, CompletionResponse, MessageView, ResponseView, Role};

verus! {

/// A provider and the model to ask it for.
#[derive(Debug, PartialEq, Eq)]
pub enum ProviderChoice {
    Anthropic { model: String },
    OpenAi { model: String },
    /// No live provider.
    Offline,
}

/// The mathematical value of a [`ProviderChoice`].
pub enum ChoiceView {
    Anthropic { model: Seq<char> },
    OpenAi { model: Seq<char> },
    Offline,
}

impl View for ProviderChoice {
    type V = ChoiceView;

    open spec fn view(&self) -> ChoiceView {
        match self {
            ProviderChoice::Anthropic { model } => ChoiceView::Anthropic { model: model@ },
            ProviderChoice::OpenAi { model } => ChoiceView::OpenAi { model: model@ },
            ProviderChoice::Offline => ChoiceView::Offline,
        }
    }
}

/// The view of an optional setting.
pub open spec fn setting(o: Option<&str>) -> Option<Seq<char>> {
    match o {
        Some(s) => Some(s@),
        None => None,
    }
}

/// The setting, or another where there is none.
pub open spec fn or_else(o: Option<Seq<char>>, other: Seq<char>) -> Seq<char> {
    match o {
        Some(s) => s,
        None => other,
    }
}

/// The choice that the settings make. The provider's name counts without regard
/// to case. A model that is not set is the provider's default.
pub open spec fn chosen(
    provider: Option<Seq<char>>,
    model: Option<Seq<char>>,
    anthropic_default: Seq<char>,
) -> ChoiceView {
    let name = ascii_lowercase(or_else(provider, Seq::empty()));
    if name == "anthropic"@ {
        ChoiceView::Anthropic { model: or_else(model, anthropic_default) }
    } else if name == "openai"@ {
        ChoiceView::OpenAi { model: or_else(model, "gpt-4o"@) }
    } else {
        ChoiceView::Offline
    }
}

fn text_or(o: Option<&str>, other: &str) -> (r: String)
    ensures
        r@ == or_else(setting(o), other@),
{
    match o {
        Some(s) => s.to_owned(),
        None => other.to_owned(),
    }
}

/// The choice that the settings make. No letter outside ASCII is an upper-case
/// form of one in a provider's name, so folding ASCII letters is enough.
pub fn choose_provider(
    provider: Option<&str>,
    model: Option<&str>,
    anthropic_default: &str,
) -> (r: ProviderChoice)
    ensures
        r@ == chosen(setting(provider), setting(model), anthropic_default@),
{
    let given = match provider {
        Some(s) => s.to_owned(),
        None => {
            let none = String::new();
            assert(none@ =~= Seq::<char>::empty());
            none
        },
    };
    let name = ascii_lowercase_text(&given);
    if same_text(&name, "anthropic") {
        ProviderChoice::Anthropic { model: text_or(model, anthropic_default) }
    } else if same_text(&name, "openai") {
        ProviderChoice::OpenAi { model: text_or(model, "gpt-4o") }
    } else {
        ProviderChoice::Offline
    }
}

impl ChoiceView {
    /// The choice in words.
    pub open spec fn label(self) -> Seq<char> {
        match self {
            ChoiceView::Anthropic { model } => "anthropic ("@ + model + ")"@,
            ChoiceView::OpenAi { model } => "openai ("@ + model + ")"@,
            ChoiceView::Offline => "scripted (offline)"@,
        }
    }
}

impl ProviderChoice {
    /// The choice in words.
    pub fn label(&self) -> (r: String)
        ensures
            r@ == self@.label(),
    {
        match self {
            ProviderChoice::Anthropic { model } => {
                let mut s = "anthropic (".to_owned();
                s.append(model);
                s.append(")");
                s
            },
            ProviderChoice::OpenAi { model } => {
                let mut s = "openai (".to_owned();
                s.append(model);
                s.append(")");
                s
            },
            ProviderChoice::Offline => "scripted (offline)".to_owned(),
        }
    }
}

/// Stands in where no provider is configured: says back what the user said.
#[derive(Clone, Copy, Debug)]
pub struct EchoModel;

/// What the echo says.
pub open spec fn echoed(messages: Seq<MessageView>) -> ResponseView {
    saying("(offline echo) you said: "@ + last_by(messages, Role::User))
}

impl EchoModel {
    /// The model's name.
    pub fn name(&self) -> (r: &'static str)
        ensures
            r@ == "echo-offline"@,
    {
        "echo-offline"
    }

    /// The next turn.
    pub fn complete(&self, req: &CompletionRequest) -> (r: CompletionResponse)
        ensures
            r@ == echoed(req@.messages),
    {
        let mut s = "(offline echo) you said: ".to_owned();
        let last = last_content(&req.messages, Role::User);
        s.append(&last);
        CompletionResponse::say(s)
    }
}

} // verus!
