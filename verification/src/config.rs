//! Configuration values, API key resolution and the display of secrets.
use vstd::prelude::*;
use crate::args::{Provider, RunArgs};
use crate::text::{chars_of, push_repeated, push_str, repeat_char, str_eq, string_of};

verus! {

/// Settings of one provider.
#[derive(Debug, Clone)]
pub struct ProviderConfig {
    pub api_key: Option<String>,
}

/// The configuration file's contents.
#[derive(Debug, Clone)]
pub struct Config {
    pub default_provider: Option<String>,
    pub default_model: Option<String>,
    pub groq: ProviderConfig,
    pub gemini: ProviderConfig,
    pub ollama: ProviderConfig,
    pub mistral: ProviderConfig,
}

/// Why a configuration change or a provider choice was refused.
#[derive(Debug)]
pub enum ConfigError {
    UnknownKey(String),
    ProviderNotImplemented(Provider),
}

/// The display name of a provider in messages.
pub open spec fn provider_title(p: Provider) -> Seq<char> {
    match p {
        Provider::Groq => "Groq"@,
        Provider::Gemini => "Gemini"@,
        Provider::Ollama => "Ollama"@,
        Provider::Mistral => "Mistral"@,
    }
}

/// The list of settable keys shown when a key is unknown.
pub open spec fn settable_keys_text() -> Seq<char> {
    "default_provider, default_model, groq.api_key, gemini.api_key, ollama.api_key, mistral.api_key"@
}

/// The text a user sees for a configuration error.
pub open spec fn config_error_text(e: ConfigError) -> Seq<char> {
    match e {
        ConfigError::UnknownKey(k) => "unknown config key '"@ + k@ + "' — expected one of: "@
            + settable_keys_text(),
        ConfigError::ProviderNotImplemented(p) => provider_title(p) + " provider not implemented yet"@,
    }
}

impl ConfigError {
    /// The text a user sees for this error.
    pub fn message(&self) -> (r: String)
        ensures
            r@ == config_error_text(*self),
    {
        let mut s = String::new();
        match self {
            ConfigError::UnknownKey(k) => {
                push_str(&mut s, "unknown config key '");
                push_str(&mut s, k.as_str());
                push_str(&mut s, "' — expected one of: ");
                push_str(
                    &mut s,
                    "default_provider, default_model, groq.api_key, gemini.api_key, ollama.api_key, mistral.api_key",
                );
            },
            ConfigError::ProviderNotImplemented(p) => {
                match p {
                    Provider::Groq => push_str(&mut s, "Groq"),
                    Provider::Gemini => push_str(&mut s, "Gemini"),
                    Provider::Ollama => push_str(&mut s, "Ollama"),
                    Provider::Mistral => push_str(&mut s, "Mistral"),
                }
                push_str(&mut s, " provider not implemented yet");
            },
        }
        s
    }
}

/// The API key stored for `p`, set or not, empty or not.
pub open spec fn stored_key(c: Config, p: Provider) -> Option<String> {
    match p {
        Provider::Groq => c.groq.api_key,
        Provider::Gemini => c.gemini.api_key,
        Provider::Ollama => c.ollama.api_key,
        Provider::Mistral => c.mistral.api_key,
    }
}

/// The API key the configuration offers for `p`: the stored one, unless it
/// is missing or empty.
pub open spec fn usable_key(c: Config, p: Provider) -> Option<Seq<char>> {
    match stored_key(c, p) {
        Some(k) => if k@.len() > 0 {
            Some(k@)
        } else {
            None
        },
        None => None,
    }
}

/// Whether `key` names a setting that `granite config set` can change.
pub open spec fn is_config_key(key: Seq<char>) -> bool {
    ||| key == "default_provider"@
    ||| key == "default_model"@
    ||| key == "groq.api_key"@
    ||| key == "gemini.api_key"@
    ||| key == "ollama.api_key"@
    ||| key == "mistral.api_key"@
}

/// The value stored under `key`, for the keys that can be set.
pub open spec fn value_at(c: Config, key: Seq<char>) -> Option<String> {
    if key == "default_provider"@ {
        c.default_provider
    } else if key == "default_model"@ {
        c.default_model
    } else if key == "groq.api_key"@ {
        c.groq.api_key
    } else if key == "gemini.api_key"@ {
        c.gemini.api_key
    } else if key == "ollama.api_key"@ {
        c.ollama.api_key
    } else if key == "mistral.api_key"@ {
        c.mistral.api_key
    } else {
        None
    }
}

impl Default for ProviderConfig {
    fn default() -> (r: Self)
        ensures
            r.api_key is None,
    {
        ProviderConfig { api_key: None }
    }
}

impl Default for Config {
    fn default() -> (r: Self)
        ensures
            r.default_provider is None,
            r.default_model is None,
            r.groq.api_key is None,
            r.gemini.api_key is None,
            r.ollama.api_key is None,
            r.mistral.api_key is None,
    {
        Config {
            default_provider: None,
            default_model: None,
            groq: ProviderConfig { api_key: None },
            gemini: ProviderConfig { api_key: None },
            ollama: ProviderConfig { api_key: None },
            mistral: ProviderConfig { api_key: None },
        }
    }
}

/// The key of `slot`, unless it is missing or empty.
fn nonempty_key(slot: &Option<String>) -> (r: Option<&str>)
    ensures
        match *slot {
            Some(k) => if k@.len() > 0 {
                r matches Some(x) && x@ == k@
            } else {
                r is None
            },
            None => r is None,
        },
{
    match slot {
        Some(k) => {
            if k.as_str().is_empty() {
                None
            } else {
                Some(k.as_str())
            }
        },
        None => None,
    }
}

impl Config {
    /// The API key configured for `provider`; an empty key counts as none.
    pub fn api_key_for(&self, provider: Provider) -> (r: Option<&str>)
        ensures
            match usable_key(*self, provider) {
                Some(k) => r matches Some(x) && x@ == k,
                None => r is None,
            },
    {
        match provider {
            Provider::Groq => nonempty_key(&self.groq.api_key),
            Provider::Gemini => nonempty_key(&self.gemini.api_key),
            Provider::Ollama => nonempty_key(&self.ollama.api_key),
            Provider::Mistral => nonempty_key(&self.mistral.api_key),
        }
    }

    /// Sets `key` to `value`. Refused, with nothing changed, when `key` is not
    /// one of the settable keys.
    pub fn set(&mut self, key: &str, value: &str) -> (r: Result<(), ConfigError>)
        ensures
            r is Ok <==> is_config_key(key@),
            r is Ok ==> {
                &&& value_at(*final(self), key@) matches Some(v) && v@ == value@
                &&& forall|k: Seq<char>|
                    is_config_key(k) && k != key@ ==> value_at(*final(self), k) == value_at(
                        *old(self),
                        k,
                    )
            },
            r is Err ==> {
                &&& *final(self) == *old(self)
                &&& r matches Err(ConfigError::UnknownKey(k)) && k@ == key@
            },
    {
        proof {
            reveal_strlit("default_provider");
            reveal_strlit("default_model");
            reveal_strlit("groq.api_key");
            reveal_strlit("gemini.api_key");
            reveal_strlit("ollama.api_key");
            reveal_strlit("mistral.api_key");
        }
        let v = value.to_owned();
        if str_eq(key, "default_provider") {
            self.default_provider = Some(v);
        } else if str_eq(key, "default_model") {
            self.default_model = Some(v);
        } else if str_eq(key, "groq.api_key") {
            self.groq.api_key = Some(v);
        } else if str_eq(key, "gemini.api_key") {
            self.gemini.api_key = Some(v);
        } else if str_eq(key, "ollama.api_key") {
            self.ollama.api_key = Some(v);
        } else if str_eq(key, "mistral.api_key") {
            self.mistral.api_key = Some(v);
        } else {
            return Err(ConfigError::UnknownKey(key.to_owned()));
        }
        Ok(())
    }
}

/// The settable key under which the API key of `p` is stored.
pub open spec fn api_key_setting(p: Provider) -> Seq<char> {
    match p {
        Provider::Groq => "groq.api_key"@,
        Provider::Gemini => "gemini.api_key"@,
        Provider::Ollama => "ollama.api_key"@,
        Provider::Mistral => "mistral.api_key"@,
    }
}

/// What `config set <provider>.api_key <key>` stores is the key the
/// configuration offers for that provider afterwards, unless it is empty.
pub proof fn law_stored_key_is_offered(c: Config, p: Provider, key: Seq<char>)
    requires
        value_at(c, api_key_setting(p)) matches Some(v) && v@ == key,
    ensures
        usable_key(c, p) == (if key.len() > 0 {
            Some(key)
        } else {
            None::<Seq<char>>
        }),
{
    reveal_strlit("default_provider");
    reveal_strlit("default_model");
    reveal_strlit("groq.api_key");
    reveal_strlit("gemini.api_key");
    reveal_strlit("ollama.api_key");
    reveal_strlit("mistral.api_key");
    assert("default_provider"@.len() == 16 && "default_model"@.len() == 13);
    assert("groq.api_key"@.len() == 12 && "mistral.api_key"@.len() == 15);
    assert("gemini.api_key"@.len() == 14 && "ollama.api_key"@.len() == 14);
    assert("gemini.api_key"@[0] != "ollama.api_key"@[0]);
    match p {
        Provider::Groq => assert(value_at(c, "groq.api_key"@) == c.groq.api_key),
        Provider::Gemini => assert(value_at(c, "gemini.api_key"@) == c.gemini.api_key),
        Provider::Ollama => assert(value_at(c, "ollama.api_key"@) == c.ollama.api_key),
        Provider::Mistral => assert(value_at(c, "mistral.api_key"@) == c.mistral.api_key),
    }
}

/// The environment variable holding the API key of `p`, if it has one.
pub open spec fn api_key_env_var(p: Provider) -> Option<Seq<char>> {
    match p {
        Provider::Groq => Some("GROQ_API_KEY"@),
        Provider::Gemini => Some("GEMINI_API_KEY"@),
        Provider::Ollama => None,
        Provider::Mistral => Some("MISTRAL_API_KEY"@),
    }
}

/// The environment variable holding the API key of `p`, if it has one.
pub fn api_key_var(p: Provider) -> (r: Option<&'static str>)
    ensures
        match api_key_env_var(p) {
            Some(n) => r matches Some(x) && x@ == n,
            None => r is None,
        },
{
    match p {
        Provider::Groq => Some("GROQ_API_KEY"),
        Provider::Gemini => Some("GEMINI_API_KEY"),
        Provider::Ollama => None,
        Provider::Mistral => Some("MISTRAL_API_KEY"),
    }
}

/// The key that wins among the one given on the command line, the one in the
/// environment and the one in the configuration, in that order of precedence.
pub open spec fn key_precedence(
    flag: Option<Seq<char>>,
    env: Option<Seq<char>>,
    config: Option<Seq<char>>,
) -> Option<Seq<char>> {
    match flag {
        Some(k) => Some(k),
        None => match env {
            Some(k) => Some(k),
            None => config,
        },
    }
}

/// The key used is the first one given among the command line, the
/// environment and the configuration: a key given earlier always wins, a
/// later one is used only when all earlier ones are missing, and there is no
/// key only when none is given.
pub proof fn law_first_given_key_wins(flag: Option<Seq<char>>, env: Option<Seq<char>>, config: Option<Seq<char>>)
    ensures
        flag matches Some(k) ==> key_precedence(flag, env, config) == Some(k),
        flag is None ==> (env matches Some(k) ==> key_precedence(flag, env, config) == Some(k)),
        flag is None && env is None ==> key_precedence(flag, env, config) == config,
        key_precedence(flag, env, config) is None <==> (flag is None && env is None && config is None),
{
}

/// The model the default provider uses when none is asked for.
pub open spec fn groq_default_model() -> Seq<char> {
    "openai/gpt-oss-20b"@
}

/// The provider, key and model a run is made with.
#[derive(Debug, Clone)]
pub struct ResolvedProvider {
    pub provider: Provider,
    pub api_key: String,
    pub model: String,
}

/// Resolves the provider, API key and model of a run. `env_key` is the value
/// of the chosen provider's key variable, if set. `Ok(None)` means that the
/// provider is available but no key was found: an interactive session can
/// still ask for one.
pub fn resolve_provider(args: &RunArgs, env_key: Option<String>, cfg: &Config) -> (r: Result<
    Option<ResolvedProvider>,
    ConfigError,
>)
    ensures
        ({
            let p = match args.provider {
                Some(p) => p,
                None => Provider::Groq,
            };
            let flag = match args.api_key {
                Some(k) => Some(k@),
                None => None,
            };
            let env = match env_key {
                Some(k) => Some(k@),
                None => None,
            };
            let model = match args.model {
                Some(m) => m@,
                None => groq_default_model(),
            };
            &&& p != Provider::Groq ==> (r matches Err(ConfigError::ProviderNotImplemented(q))
                && q == p)
            &&& p == Provider::Groq ==> match key_precedence(flag, env, usable_key(*cfg, p)) {
                Some(k) => r matches Ok(Some(rp)) && rp.provider == p && rp.api_key@ == k
                    && rp.model@ == model,
                None => r matches Ok(None),
            }
        }),
{
    let p = match args.provider {
        Some(p) => p,
        None => Provider::Groq,
    };
    if p != Provider::Groq {
        return Err(ConfigError::ProviderNotImplemented(p));
    }
    let key = match &args.api_key {
        Some(k) => Some(k.clone()),
        None => match env_key {
            Some(k) => Some(k),
            None => match cfg.api_key_for(p) {
                Some(k) => Some(k.to_owned()),
                None => None,
            },
        },
    };
    let model = match &args.model {
        Some(m) => m.clone(),
        None => "openai/gpt-oss-20b".to_owned(),
    };
    match key {
        Some(k) => Ok(Some(ResolvedProvider { provider: p, api_key: k, model })),
        None => Ok(None),
    }
}

/// A secret as it is shown: its first four characters kept, every further
/// character replaced by `*`; a secret of four characters or less is all
/// stars.
pub open spec fn masked(secret: Seq<char>) -> Seq<char> {
    if secret.len() <= 4 {
        repeat_char('*', secret.len())
    } else {
        secret.take(4) + repeat_char('*', (secret.len() - 4) as nat)
    }
}

/// A masked secret is as long as the secret and shows nothing of it but, for
/// a secret longer than four characters, its first four; every other
/// character is a star.
pub proof fn law_mask_shows_at_most_four(secret: Seq<char>)
    ensures
        masked(secret).len() == secret.len(),
        forall|i: int|
            0 <= i < secret.len() ==> #[trigger] masked(secret)[i] == if secret.len() > 4 && i < 4 {
                secret[i]
            } else {
                '*'
            },
{
}

/// Masks a secret for display: the first four characters are kept, the rest
/// replaced with `*`.
pub fn mask(secret: &str) -> (r: String)
    ensures
        r@ == masked(secret@),
{
    let v = chars_of(secret);
    let n = v.len();
    let mut s = String::new();
    if n <= 4 {
        push_repeated(&mut s, '*', n);
        assert(s@ =~= repeat_char('*', n as nat));
    } else {
        let head = string_of(v.as_slice(), 0, 4);
        push_str(&mut s, head.as_str());
        push_repeated(&mut s, '*', n - 4);
        assert(v@.subrange(0, 4) =~= secret@.take(4));
        assert(s@ =~= secret@.take(4) + repeat_char('*', (n - 4) as nat));
    }
    s
}

/// What `config show` prints for an API key: the masked key, or `<unset>`.
pub fn key_display(key: Option<&str>) -> (r: String)
    ensures
        key is None ==> r@ == "<unset>"@,
        key matches Some(k) ==> r@ == masked(k@),
{
    match key {
        Some(k) => mask(k),
        None => {
            let mut s = String::new();
            push_str(&mut s, "<unset>");
            s
        },
    }
}

} // verus!
