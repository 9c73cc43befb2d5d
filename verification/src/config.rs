//! The configuration, as the environment variables give it.
use vstd::prelude::*;

use crate::numbers::parse_unsigned;
use crate::text::same_text;

verus! {

use crate::numbers::parsed_unsigned;
use crate::text::{
    is_not_blank, lowercase, text_of, trimmed, trimming_takes_white_space_only,
};

/// The services that can be asked.
#[derive(Clone, Copy, Debug, PartialEq, Eq, Structural)]
pub enum Provider {
    Gemini,
    Groq,
}

/// How a service is asked.
#[derive(Debug, PartialEq, Eq)]
pub struct LlmConfig {
    pub provider: Provider,
    pub api_key: String,
    pub model: String,
    pub rate_limit_ms: u64,
    pub batch_size: usize,
}

/// The values of a `LlmConfig`.
pub ghost struct ConfigText {
    pub provider: Provider,
    pub api_key: Seq<char>,
    pub model: Seq<char>,
    pub rate_limit_ms: u64,
    pub batch_size: usize,
}

impl View for LlmConfig {
    type V = ConfigText;

    open spec fn view(&self) -> ConfigText {
        ConfigText {
            provider: self.provider,
            api_key: self.api_key@,
            model: self.model@,
            rate_limit_ms: self.rate_limit_ms,
            batch_size: self.batch_size,
        }
    }
}

/// What stops a configuration.
#[derive(Debug, PartialEq, Eq)]
pub enum ConfigError {
    /// `PROVIDER` names no service; the name is trimmed and in lower case.
    UnknownProvider(String),
    /// The variable for the service's key is not set, or is blank.
    MissingKey(String),
}

/// The values of a `ConfigError`.
pub ghost enum ConfigErrorText {
    UnknownProvider(Seq<char>),
    MissingKey(Seq<char>),
}

impl View for ConfigError {
    type V = ConfigErrorText;

    open spec fn view(&self) -> ConfigErrorText {
        match self {
            ConfigError::UnknownProvider(name) => ConfigErrorText::UnknownProvider(name@),
            ConfigError::MissingKey(var) => ConfigErrorText::MissingKey(var@),
        }
    }
}

impl ConfigErrorText {
    /// The message of an error.
    pub open spec fn message(self) -> Seq<char> {
        match self {
            ConfigErrorText::UnknownProvider(name) => "Unknown PROVIDER '"@ + name
                + "'. Use 'gemini' or 'groq'."@,
            ConfigErrorText::MissingKey(var) => var + " is not set (env var or .env file)."@,
        }
    }
}

impl ConfigError {
    /// The message of an error.
    pub fn message(&self) -> (r: String)
        ensures
            r@ == self@.message(),
    {
        match self {
            ConfigError::UnknownProvider(name) => {
                let mut s = "Unknown PROVIDER '".to_owned();
                s.append(name.as_str());
                s.append("'. Use 'gemini' or 'groq'.");
                s
            },
            ConfigError::MissingKey(var) => {
                let mut s = var.clone();
                s.append(" is not set (env var or .env file).");
                s
            },
        }
    }
}

/// The defaults that a photo or a video gets besides the model's metadata.
#[derive(Debug, PartialEq, Eq)]
pub struct ExtraTags {
    pub country: Option<String>,
    pub camera_make: Option<String>,
    pub camera_model: Option<String>,
}

/// The texts of an `ExtraTags`.
pub ghost struct ExtraText {
    pub country: Option<Seq<char>>,
    pub camera_make: Option<Seq<char>>,
    pub camera_model: Option<Seq<char>>,
}

impl View for ExtraTags {
    type V = ExtraText;

    open spec fn view(&self) -> ExtraText {
        ExtraText {
            country: text_of(self.country),
            camera_make: text_of(self.camera_make),
            camera_model: text_of(self.camera_model),
        }
    }
}

impl Clone for ExtraTags {
    fn clone(&self) -> (r: Self)
        ensures
            r@ == self@,
    {
        ExtraTags {
            country: self.country.clone(),
            camera_make: self.camera_make.clone(),
            camera_model: self.camera_model.clone(),
        }
    }
}

impl Default for ExtraTags {
    fn default() -> (r: Self)
        ensures
            r.country is None,
            r.camera_make is None,
            r.camera_model is None,
    {
        ExtraTags { country: None, camera_make: None, camera_model: None }
    }
}

/// The names and values of environment variables.
pub open spec fn variables(v: Seq<(String, String)>) -> Seq<(Seq<char>, Seq<char>)> {
    v.map_values(|p: (String, String)| (p.0@, p.1@))
}

/// The value of the variable `name`, if it is set.
pub open spec fn variable(vars: Seq<(Seq<char>, Seq<char>)>, name: Seq<char>) -> Option<Seq<char>>
    decreases vars.len(),
{
    if vars.len() == 0 {
        None
    } else if vars[0].0 == name {
        Some(vars[0].1)
    } else {
        variable(vars.drop_first(), name)
    }
}

/// The value of the variable `name`, if it is set and not blank.
pub open spec fn filled_variable(
    vars: Seq<(Seq<char>, Seq<char>)>,
    name: Seq<char>,
) -> Option<Seq<char>> {
    match variable(vars, name) {
        Some(v) if trimmed(v).len() > 0 => Some(v),
        _ => None,
    }
}

pub open spec fn or_default(o: Option<Seq<char>>, default: Seq<char>) -> Seq<char> {
    match o {
        Some(v) => v,
        None => default,
    }
}

/// The number that the variable `name` holds, if it is set to one of at most
/// `max`.
pub open spec fn number_variable(
    vars: Seq<(Seq<char>, Seq<char>)>,
    name: Seq<char>,
    max: nat,
) -> Option<nat> {
    match variable(vars, name) {
        Some(v) => parsed_unsigned(v, max),
        None => None,
    }
}

/// Looks a variable up.
pub fn get_variable(vars: &Vec<(String, String)>, name: &str) -> (r: Option<String>)
    ensures
        text_of(r) == variable(variables(vars@), name@),
{
    let ghost all = variables(vars@);
    assert(all.skip(0) == all);
    for i in 0..vars.len()
        invariant
            all == variables(vars@),
            variable(all, name@) == variable(all.skip(i as int), name@),
    {
        assert(all.skip(i as int)[0] == (vars[i as int].0@, vars[i as int].1@));
        assert(all.skip(i as int).drop_first() == all.skip(i + 1));
        if same_text(vars[i].0.as_str(), name) {
            return Some(vars[i].1.clone());
        }
    }
    None
}

/// Looks a variable up and takes a blank value for none.
pub fn get_filled_variable(vars: &Vec<(String, String)>, name: &str) -> (r: Option<String>)
    ensures
        text_of(r) == filled_variable(variables(vars@), name@),
{
    match get_variable(vars, name) {
        Some(v) => if v.as_str().trim().is_empty() {
            None
        } else {
            Some(v)
        },
        None => None,
    }
}

/// Looks a variable up, with a value for the case that it is not filled.
pub fn filled_variable_or(vars: &Vec<(String, String)>, name: &str, default: &str) -> (r: String)
    ensures
        r@ == or_default(filled_variable(variables(vars@), name@), default@),
{
    match get_filled_variable(vars, name) {
        Some(v) => v,
        None => default.to_owned(),
    }
}

fn get_number_variable(vars: &Vec<(String, String)>, name: &str, max: u64) -> (r: Option<u64>)
    ensures
        r is Some <==> number_variable(variables(vars@), name@, max as nat) is Some,
        r matches Some(n) ==> n == number_variable(variables(vars@), name@, max as nat)->0,
{
    match get_variable(vars, name) {
        Some(v) => parse_unsigned(v.as_str(), max),
        None => None,
    }
}

/// The service of a given name.
pub open spec fn named_provider(name: Seq<char>) -> Option<Provider> {
    if name == "gemini"@ {
        Some(Provider::Gemini)
    } else if name == "groq"@ {
        Some(Provider::Groq)
    } else {
        None
    }
}

/// The name under which the environment chooses a service: Gemini's if it
/// chooses none.
pub open spec fn chosen_name(vars: Seq<(Seq<char>, Seq<char>)>) -> Seq<char> {
    lowercase(trimmed(or_default(variable(vars, "PROVIDER"@), "gemini"@)))
}

/// Finds a service by its name.
pub fn provider_by_name(name: &str) -> (r: Result<Provider, ConfigError>)
    ensures
        named_provider(name@) matches Some(p) ==> r == Ok::<Provider, ConfigError>(p),
        named_provider(name@) is None ==> r is Err && r->Err_0@
            == ConfigErrorText::UnknownProvider(name@),
{
    if same_text(name, "gemini") {
        Ok(Provider::Gemini)
    } else if same_text(name, "groq") {
        Ok(Provider::Groq)
    } else {
        Err(ConfigError::UnknownProvider(name.to_owned()))
    }
}

impl Provider {
    /// The variable that holds the service's key.
    pub open spec fn spec_key_var(self) -> Seq<char> {
        match self {
            Provider::Gemini => "GEMINI_API_KEY"@,
            Provider::Groq => "GROQ_API_KEY"@,
        }
    }

    /// The variable that holds the service's model.
    pub open spec fn spec_model_var(self) -> Seq<char> {
        match self {
            Provider::Gemini => "GEMINI_MODEL"@,
            Provider::Groq => "GROQ_MODEL"@,
        }
    }

    /// The variable that holds the pause between two calls.
    pub open spec fn spec_rate_var(self) -> Seq<char> {
        match self {
            Provider::Gemini => "GEMINI_RATE_LIMIT_MS"@,
            Provider::Groq => "GROQ_RATE_LIMIT_MS"@,
        }
    }

    /// The model that is asked if none is chosen.
    pub open spec fn spec_default_model(self) -> Seq<char> {
        match self {
            Provider::Gemini => "gemini-3.5-flash-lite"@,
            Provider::Groq => "meta-llama/llama-4-scout-17b-16e-instruct"@,
        }
    }

    fn key_var(self) -> (r: &'static str)
        ensures
            r@ == self.spec_key_var(),
    {
        match self {
            Provider::Gemini => "GEMINI_API_KEY",
            Provider::Groq => "GROQ_API_KEY",
        }
    }

    fn model_var(self) -> (r: &'static str)
        ensures
            r@ == self.spec_model_var(),
    {
        match self {
            Provider::Gemini => "GEMINI_MODEL",
            Provider::Groq => "GROQ_MODEL",
        }
    }

    fn rate_var(self) -> (r: &'static str)
        ensures
            r@ == self.spec_rate_var(),
    {
        match self {
            Provider::Gemini => "GEMINI_RATE_LIMIT_MS",
            Provider::Groq => "GROQ_RATE_LIMIT_MS",
        }
    }

    fn default_model(self) -> (r: &'static str)
        ensures
            r@ == self.spec_default_model(),
    {
        match self {
            Provider::Gemini => "gemini-3.5-flash-lite",
            Provider::Groq => "meta-llama/llama-4-scout-17b-16e-instruct",
        }
    }
}

/// The configuration of a service by the environment. It needs a key; the rest
/// has defaults, which also stand in for a value that is no number, and for a
/// batch size of zero.
pub open spec fn provider_settings(
    p: Provider,
    vars: Seq<(Seq<char>, Seq<char>)>,
) -> Result<ConfigText, ConfigErrorText> {
    match filled_variable(vars, p.spec_key_var()) {
        None => Err(ConfigErrorText::MissingKey(p.spec_key_var())),
        Some(api_key) => Ok(
            ConfigText {
                provider: p,
                api_key,
                model: or_default(
                    filled_variable(vars, p.spec_model_var()),
                    p.spec_default_model(),
                ),
                rate_limit_ms: match number_variable(vars, p.spec_rate_var(), u64::MAX as nat) {
                    Some(n) => n as u64,
                    None => 2000,
                },
                batch_size: match number_variable(vars, "BATCH_SIZE"@, usize::MAX as nat) {
                    Some(n) if n > 0 => n as usize,
                    _ => 10,
                },
            },
        ),
    }
}

/// The configuration that the environment gives.
pub open spec fn settings(vars: Seq<(Seq<char>, Seq<char>)>) -> Result<
    ConfigText,
    ConfigErrorText,
> {
    match named_provider(chosen_name(vars)) {
        None => Err(ConfigErrorText::UnknownProvider(chosen_name(vars))),
        Some(p) => provider_settings(p, vars),
    }
}

pub open spec fn result_text(r: Result<LlmConfig, ConfigError>) -> Result<
    ConfigText,
    ConfigErrorText,
> {
    match r {
        Ok(c) => Ok(c@),
        Err(e) => Err(e@),
    }
}

/// Configures one service.
pub fn load_provider_config(
    provider: Provider,
    vars: &Vec<(String, String)>,
) -> (r: Result<LlmConfig, ConfigError>)
    ensures
        result_text(r) == provider_settings(provider, variables(vars@)),
{
    let api_key = match get_filled_variable(vars, provider.key_var()) {
        Some(v) => v,
        None => return Err(ConfigError::MissingKey(provider.key_var().to_owned())),
    };
    let model = filled_variable_or(vars, provider.model_var(), provider.default_model());
    let rate_limit_ms: u64 = match get_number_variable(vars, provider.rate_var(), u64::MAX) {
        Some(n) => n,
        None => 2000,
    };
    let batch_size: usize = match get_number_variable(vars, "BATCH_SIZE", usize::MAX as u64) {
        Some(n) => if n > 0 {
            n as usize
        } else {
            10
        },
        None => 10,
    };
    Ok(LlmConfig { provider, api_key, model, rate_limit_ms, batch_size })
}

/// Chooses and configures a service.
pub fn load_llm_config(vars: &Vec<(String, String)>) -> (r: Result<LlmConfig, ConfigError>)
    ensures
        result_text(r) == settings(variables(vars@)),
{
    let raw = match get_variable(vars, "PROVIDER") {
        Some(v) => v,
        None => "gemini".to_owned(),
    };
    let name = raw.as_str().trim().to_lowercase();
    match provider_by_name(name.as_str()) {
        Ok(provider) => load_provider_config(provider, vars),
        Err(e) => Err(e),
    }
}

/// The defaults that the environment gives photos and videos.
pub open spec fn extra_settings(vars: Seq<(Seq<char>, Seq<char>)>) -> ExtraText {
    ExtraText {
        country: Some(
            or_default(filled_variable(vars, "DEFAULT_COUNTRY"@), "United Kingdom"@),
        ),
        camera_make: Some(
            or_default(filled_variable(vars, "DEFAULT_CAMERA_MAKE"@), "Panasonic"@),
        ),
        camera_model: Some(
            or_default(filled_variable(vars, "DEFAULT_CAMERA_MODEL"@), "DC-S5M2X"@),
        ),
    }
}

/// Finds the country and camera that photos and videos get.
pub fn load_extra_tags(vars: &Vec<(String, String)>) -> (r: ExtraTags)
    ensures
        r@ == extra_settings(variables(vars@)),
{
    ExtraTags {
        country: Some(filled_variable_or(vars, "DEFAULT_COUNTRY", "United Kingdom")),
        camera_make: Some(filled_variable_or(vars, "DEFAULT_CAMERA_MAKE", "Panasonic")),
        camera_model: Some(filled_variable_or(vars, "DEFAULT_CAMERA_MODEL", "DC-S5M2X")),
    }
}

/// A configuration that is accepted can be worked with: its key is not blank
/// and its batches hold at least one photo.
pub proof fn accepted_settings_are_usable(vars: Seq<(Seq<char>, Seq<char>)>)
    ensures
        settings(vars) matches Ok(c) ==> trimmed(c.api_key).len() > 0 && c.batch_size > 0,
{
}

/// An environment that chooses no service and holds a Gemini key is accepted.
pub proof fn a_gemini_key_is_enough(vars: Seq<(Seq<char>, Seq<char>)>)
    requires
        variable(vars, "PROVIDER"@) is None,
        filled_variable(vars, "GEMINI_API_KEY"@) is Some,
    ensures
        settings(vars) matches Ok(c) && c.provider == Provider::Gemini && c.api_key
            == filled_variable(vars, "GEMINI_API_KEY"@)->0,
{
    reveal_strlit("gemini");
    let name = "gemini"@;
    assert(crate::text::is_ascii_text(name));
    assert(trimmed(name) == name);
    assert(lowercase(name) =~= name);
}

proof fn lemma_filled_variable(vars: Seq<(Seq<char>, Seq<char>)>, name: Seq<char>)
    ensures
        match variable(vars, name) {
            Some(v) if is_not_blank(v) => filled_variable(vars, name) == Some(v),
            _ => filled_variable(vars, name) is None,
        },
{
    if let Some(v) = variable(vars, name) {
        let at = trimming_takes_white_space_only(v);
    }
}

proof fn lemma_names_are_fixed()
    ensures
        lowercase(trimmed("gemini"@)) == "gemini"@,
        "gemini"@ != "groq"@,
{
    reveal_strlit("gemini");
    reveal_strlit("groq");
    let name = "gemini"@;
    assert(crate::text::is_ascii_text(name));
    assert(trimmed(name) == name);
    assert(lowercase(name) =~= name);
    assert(name.len() != "groq"@.len());
}

/// A variable has the value with which it is set first, and none if it is not
/// set.
pub proof fn the_first_setting_counts(
    vars: Seq<(Seq<char>, Seq<char>)>,
    name: Seq<char>,
    i: int,
)
    ensures
        (0 <= i < vars.len() && vars[i].0 == name && forall|j: int|
            0 <= j < i ==> (#[trigger] vars[j]).0 != name) ==> variable(vars, name) == Some(
            vars[i].1,
        ),
        (forall|j: int| 0 <= j < vars.len() ==> (#[trigger] vars[j]).0 != name) ==> variable(
            vars,
            name,
        ) is None,
    decreases vars.len(),
{
    if vars.len() > 0 {
        let rest = vars.drop_first();
        the_first_setting_counts(rest, name, i - 1);
        if 0 < i < vars.len() && vars[i].0 == name && forall|j: int|
            0 <= j < i ==> (#[trigger] vars[j]).0 != name {
            assert(vars[0].0 != name);
            assert forall|j: int| 0 <= j < i - 1 implies (#[trigger] rest[j]).0 != name by {
                assert(vars[j + 1].0 != name);
            }
        }
        if forall|j: int| 0 <= j < vars.len() ==> (#[trigger] vars[j]).0 != name {
            assert(vars[0].0 != name);
            assert forall|j: int| 0 <= j < rest.len() implies (#[trigger] rest[j]).0 != name by {
                assert(vars[j + 1].0 != name);
            }
        }
    }
}

/// The environment is seen as it is: every variable with its name and value.
pub proof fn variables_are_seen_whole(v: Seq<(String, String)>, i: int)
    ensures
        variables(v).len() == v.len(),
        0 <= i < v.len() ==> variables(v)[i] == (v[i].0@, v[i].1@),
{
}

/// The configuration for Gemini, which is asked if nothing else is chosen, variable by variable: its key is needed and taken
/// as it is; the model is taken as it is unless it is blank; the pause is the
/// number of milliseconds that is given, and two seconds if none is; the batch
/// size is the number that is given, and ten if none above zero is.
pub proof fn gemini_is_configured_by_its_variables(vars: Seq<(Seq<char>, Seq<char>)>)
    ensures
        match variable(vars, "GEMINI_API_KEY"@) {
            Some(key) if is_not_blank(key) => match provider_settings(Provider::Gemini, vars) {
                Ok(c) => {
                    &&& c.provider == Provider::Gemini
                    &&& c.api_key == key
                    &&& match variable(vars, "GEMINI_MODEL"@) {
                        Some(m) if is_not_blank(m) => c.model == m,
                        _ => c.model == "gemini-3.5-flash-lite"@,
                    }
                    &&& match variable(vars, "GEMINI_RATE_LIMIT_MS"@) {
                        Some(v) => match parsed_unsigned(v, u64::MAX as nat) {
                            Some(n) => c.rate_limit_ms == n,
                            None => c.rate_limit_ms == 2000,
                        },
                        None => c.rate_limit_ms == 2000,
                    }
                    &&& match variable(vars, "BATCH_SIZE"@) {
                        Some(v) => match parsed_unsigned(v, usize::MAX as nat) {
                            Some(n) => c.batch_size == (if n > 0 {
                                n
                            } else {
                                10
                            }),
                            None => c.batch_size == 10,
                        },
                        None => c.batch_size == 10,
                    }
                },
                Err(_) => false,
            },
            _ => provider_settings(Provider::Gemini, vars) == Err::<ConfigText, ConfigErrorText>(
                ConfigErrorText::MissingKey("GEMINI_API_KEY"@),
            ),
        },
        (match variable(vars, "PROVIDER"@) {
            Some(v) => lowercase(trimmed(v)) == "gemini"@,
            None => true,
        }) ==> settings(vars) == provider_settings(Provider::Gemini, vars),
{
    lemma_names_are_fixed();
    lemma_filled_variable(vars, "GEMINI_API_KEY"@);
    lemma_filled_variable(vars, "GEMINI_MODEL"@);
}

/// The configuration for Groq, variable by variable: its key is needed and taken
/// as it is; the model is taken as it is unless it is blank; the pause is the
/// number of milliseconds that is given, and two seconds if none is; the batch
/// size is the number that is given, and ten if none above zero is.
pub proof fn groq_is_configured_by_its_variables(vars: Seq<(Seq<char>, Seq<char>)>)
    ensures
        match variable(vars, "GROQ_API_KEY"@) {
            Some(key) if is_not_blank(key) => match provider_settings(Provider::Groq, vars) {
                Ok(c) => {
                    &&& c.provider == Provider::Groq
                    &&& c.api_key == key
                    &&& match variable(vars, "GROQ_MODEL"@) {
                        Some(m) if is_not_blank(m) => c.model == m,
                        _ => c.model == "meta-llama/llama-4-scout-17b-16e-instruct"@,
                    }
                    &&& match variable(vars, "GROQ_RATE_LIMIT_MS"@) {
                        Some(v) => match parsed_unsigned(v, u64::MAX as nat) {
                            Some(n) => c.rate_limit_ms == n,
                            None => c.rate_limit_ms == 2000,
                        },
                        None => c.rate_limit_ms == 2000,
                    }
                    &&& match variable(vars, "BATCH_SIZE"@) {
                        Some(v) => match parsed_unsigned(v, usize::MAX as nat) {
                            Some(n) => c.batch_size == (if n > 0 {
                                n
                            } else {
                                10
                            }),
                            None => c.batch_size == 10,
                        },
                        None => c.batch_size == 10,
                    }
                },
                Err(_) => false,
            },
            _ => provider_settings(Provider::Groq, vars) == Err::<ConfigText, ConfigErrorText>(
                ConfigErrorText::MissingKey("GROQ_API_KEY"@),
            ),
        },
        (variable(vars, "PROVIDER"@) matches Some(v) && lowercase(trimmed(v)) == "groq"@) ==> settings(vars) == provider_settings(Provider::Groq, vars),
{
    lemma_names_are_fixed();
    lemma_filled_variable(vars, "GROQ_API_KEY"@);
    lemma_filled_variable(vars, "GROQ_MODEL"@);
}

/// A service that is neither Gemini nor Groq is refused under the name by which it
/// was chosen, but for case and the white space around it. The messages say what
/// is wrong.
pub proof fn other_services_are_refused(vars: Seq<(Seq<char>, Seq<char>)>, name: Seq<char>)
    requires
        variable(vars, "PROVIDER"@) matches Some(v) && lowercase(trimmed(v)) == name,
        name != "gemini"@ && name != "groq"@,
    ensures
        settings(vars) == Err::<ConfigText, ConfigErrorText>(
            ConfigErrorText::UnknownProvider(name),
        ),
        named_provider(name) is None,
        named_provider("gemini"@) == Some(Provider::Gemini),
        named_provider("groq"@) == Some(Provider::Groq),
        ConfigErrorText::UnknownProvider(name).message() == "Unknown PROVIDER '"@ + name
            + "'. Use 'gemini' or 'groq'."@,
        ConfigErrorText::MissingKey(name).message() == name
            + " is not set (env var or .env file)."@,
{
    lemma_names_are_fixed();
}

/// Country and camera are those of the environment, taken as they are; a blank or
/// missing one has a default.
pub proof fn country_and_camera_have_defaults(vars: Seq<(Seq<char>, Seq<char>)>)
    ensures
        extra_settings(vars).country == (match variable(vars, "DEFAULT_COUNTRY"@) {
            Some(v) if is_not_blank(v) => Some(v),
            _ => Some("United Kingdom"@),
        }),
        extra_settings(vars).camera_make == (match variable(vars, "DEFAULT_CAMERA_MAKE"@) {
            Some(v) if is_not_blank(v) => Some(v),
            _ => Some("Panasonic"@),
        }),
        extra_settings(vars).camera_model == (match variable(vars, "DEFAULT_CAMERA_MODEL"@) {
            Some(v) if is_not_blank(v) => Some(v),
            _ => Some("DC-S5M2X"@),
        }),
{
    lemma_filled_variable(vars, "DEFAULT_COUNTRY"@);
    lemma_filled_variable(vars, "DEFAULT_CAMERA_MAKE"@);
    lemma_filled_variable(vars, "DEFAULT_CAMERA_MODEL"@);
}

/// A variable that is looked up for its text is taken as it is unless it is blank,
/// and one that is looked up for a number is read as one.
pub proof fn variables_are_taken_as_they_are(
    vars: Seq<(Seq<char>, Seq<char>)>,
    name: Seq<char>,
    default: Seq<char>,
    max: nat,
)
    ensures
        or_default(filled_variable(vars, name), default) == (match variable(vars, name) {
            Some(v) if is_not_blank(v) => v,
            _ => default,
        }),
        number_variable(vars, name, max) == (match variable(vars, name) {
            Some(v) => parsed_unsigned(v, max),
            None => None,
        }),
{
    lemma_filled_variable(vars, name);
}

/// Configurations, errors and defaults are seen as they are.
pub proof fn settings_are_seen_whole(c: LlmConfig, e: ConfigError, t: ExtraTags)
    ensures
        c@.provider == c.provider,
        c@.api_key == c.api_key@,
        c@.model == c.model@,
        c@.rate_limit_ms == c.rate_limit_ms,
        c@.batch_size == c.batch_size,
        e matches ConfigError::UnknownProvider(n) ==> e@ == ConfigErrorText::UnknownProvider(n@),
        e matches ConfigError::MissingKey(n) ==> e@ == ConfigErrorText::MissingKey(n@),
        t@.country == (match t.country {
            Some(s) => Some(s@),
            None => None,
        }),
        t@.camera_make == (match t.camera_make {
            Some(s) => Some(s@),
            None => None,
        }),
        t@.camera_model == (match t.camera_model {
            Some(s) => Some(s@),
            None => None,
        }),
        result_text(Ok(c)) == Ok::<ConfigText, ConfigErrorText>(c@),
        result_text(Err(e)) == Err::<ConfigText, ConfigErrorText>(e@),
{
}

} // verus!
