//! The command line of the `granite` program, as plain values.
use vstd::prelude::*;
use crate::text::str_eq;

verus! {

/// The whole command line.
#[derive(Debug, Clone)]
pub struct Cli {
    pub command: Option<Commands>,
}

/// The subcommands.
#[derive(Debug, Clone)]
pub enum Commands {
    /// Start an agent run (the default when no subcommand is given).
    Run(RunArgs),
    /// View or set configuration.
    Config(ConfigArgs),
}

/// Options of an agent run.
#[derive(Debug, Clone)]
pub struct RunArgs {
    /// LLM provider to use.
    pub provider: Option<Provider>,
    /// Model name override.
    pub model: Option<String>,
    /// API key; takes precedence over the environment and the config file.
    pub api_key: Option<String>,
    /// Prompt to run non-interactively; `None` for interactive mode.
    pub prompt: Option<String>,
}

/// Options of the `config` subcommand.
#[derive(Debug, Clone)]
pub struct ConfigArgs {
    pub action: ConfigAction,
}

/// What the `config` subcommand does.
#[derive(Debug, Clone)]
pub enum ConfigAction {
    /// Print the current configuration.
    Show,
    /// Set a configuration value.
    SetValue { key: String, value: String },
}

/// The LLM providers the program knows of.
#[derive(Debug, Clone, Copy, PartialEq, Eq, Structural)]
pub enum Provider {
    Groq,
    Gemini,
    Ollama,
    Mistral,
}

/// The name by which a provider is selected (`--provider`, `/provider`).
pub open spec fn provider_name(p: Provider) -> Seq<char> {
    match p {
        Provider::Groq => "groq"@,
        Provider::Gemini => "gemini"@,
        Provider::Ollama => "ollama"@,
        Provider::Mistral => "mistral"@,
    }
}

/// The provider selected by `name`, if any.
pub open spec fn provider_named(name: Seq<char>) -> Option<Provider> {
    if name == "groq"@ {
        Some(Provider::Groq)
    } else if name == "gemini"@ {
        Some(Provider::Gemini)
    } else if name == "ollama"@ {
        Some(Provider::Ollama)
    } else if name == "mistral"@ {
        Some(Provider::Mistral)
    } else {
        None
    }
}

impl Provider {
    /// The name by which this provider is selected.
    pub fn name(&self) -> (r: &'static str)
        ensures
            r@ == provider_name(*self),
    {
        match self {
            Provider::Groq => "groq",
            Provider::Gemini => "gemini",
            Provider::Ollama => "ollama",
            Provider::Mistral => "mistral",
        }
    }

    /// The provider selected by `name`, if any.
    pub fn from_name(name: &str) -> (r: Option<Provider>)
        ensures
            r == provider_named(name@),
    {
        if str_eq(name, "groq") {
            Some(Provider::Groq)
        } else if str_eq(name, "gemini") {
            Some(Provider::Gemini)
        } else if str_eq(name, "ollama") {
            Some(Provider::Ollama)
        } else if str_eq(name, "mistral") {
            Some(Provider::Mistral)
        } else {
            None
        }
    }
}

/// Selecting a provider by its own name gives that provider back.
pub proof fn law_provider_name_round_trip(p: Provider)
    ensures
        provider_named(provider_name(p)) == Some(p),
{
    reveal_strlit("groq");
    reveal_strlit("gemini");
    reveal_strlit("ollama");
    reveal_strlit("mistral");
    assert("gemini"@ != "groq"@) by {
        assert("gemini"@.len() != "groq"@.len());
    }
    assert("ollama"@ != "groq"@) by {
        assert("ollama"@.len() != "groq"@.len());
    }
    assert("ollama"@ != "gemini"@) by {
        assert("ollama"@[0] != "gemini"@[0]);
    }
    assert("mistral"@ != "groq"@) by {
        assert("mistral"@.len() != "groq"@.len());
    }
    assert("mistral"@ != "gemini"@) by {
        assert("mistral"@.len() != "gemini"@.len());
    }
    assert("mistral"@ != "ollama"@) by {
        assert("mistral"@.len() != "ollama"@.len());
    }
}

} // verus!
