//! Configuration of the image client, read from environment variables.
//!
//! Every variable is required: a missing, empty (after trimming) or
//! non-UTF-8 value is an error. Values are stored trimmed.
use vstd::prelude::*;

use crate::text::{is_unicode_whitespace, lemma_trim_idempotent, trim, trim_ws};

verus! {

/// Why an environment variable could not be read (`std::env::VarError`).
#[derive(Debug, Clone, Copy, PartialEq, Eq, Structural)]
pub enum EnvVarError {
    /// The variable is not set.
    NotPresent,
    /// The variable is set but its value is not valid Unicode.
    NotUnicode,
}

/// A required environment variable that cannot be used.
#[derive(Debug, Clone, Copy, PartialEq, Eq)]
pub enum ConfigError {
    Missing { name: &'static str },
    Empty { name: &'static str },
    NotUnicode { name: &'static str },
}

/// A value that may be stored in the configuration: non-empty and without
/// surrounding whitespace.
pub open spec fn is_clean_value(v: Seq<char>) -> bool {
    v.len() > 0 && trim_ws(v) == v
}

/// The value of the variable `name` as the configuration takes it, or the
/// error that the variable gives.
pub open spec fn required_value(name: &'static str, value: Result<String, EnvVarError>) -> Result<
    Seq<char>,
    ConfigError,
> {
    match value {
        Err(EnvVarError::NotPresent) => Err(ConfigError::Missing { name }),
        Err(EnvVarError::NotUnicode) => Err(ConfigError::NotUnicode { name }),
        Ok(s) => if trim_ws(s@).len() == 0 {
            Err(ConfigError::Empty { name })
        } else {
            Ok(trim_ws(s@))
        },
    }
}

/// The five configuration values (API key, endpoint, model, size,
/// quality), or the error of the first variable, in that order, that
/// cannot be used.
pub open spec fn config_values(
    api_key: Result<String, EnvVarError>,
    endpoint: Result<String, EnvVarError>,
    model: Result<String, EnvVarError>,
    size: Result<String, EnvVarError>,
    quality: Result<String, EnvVarError>,
) -> Result<Seq<Seq<char>>, ConfigError> {
    match required_value("API_KEY", api_key) {
        Err(e) => Err(e),
        Ok(k) => match required_value("IMAGE_API_ENDPOINT", endpoint) {
            Err(e) => Err(e),
            Ok(ep) => match required_value("IMAGE_MODEL", model) {
                Err(e) => Err(e),
                Ok(m) => match required_value("IMAGE_SIZE", size) {
                    Err(e) => Err(e),
                    Ok(sz) => match required_value("IMAGE_QUALITY", quality) {
                        Err(e) => Err(e),
                        Ok(q) => Ok(seq![k, ep, m, sz, q]),
                    },
                },
            },
        },
    }
}

/// Checks the value of the required variable `name`: it must be present,
/// valid Unicode and not empty once trimmed; the trimmed value is returned.
pub fn validate_required_env(name: &'static str, value: Result<String, EnvVarError>) -> (res:
    Result<String, ConfigError>)
    ensures
        match required_value(name, value) {
            Ok(v) => res matches Ok(s) && s@ == v,
            Err(e) => res == Err::<String, ConfigError>(e),
        },
        res matches Ok(s) ==> is_clean_value(s@),
{
    let value = match value {
        Ok(v) => v,
        Err(EnvVarError::NotPresent) => return Err(ConfigError::Missing { name }),
        Err(EnvVarError::NotUnicode) => return Err(ConfigError::NotUnicode { name }),
    };
    let trimmed = trim(value.as_str());
    proof {
        lemma_trim_idempotent(value@);
    }
    if trimmed.is_empty() {
        return Err(ConfigError::Empty { name });
    }
    Ok(trimmed.to_owned())
}

/// Settings of the image client.
pub struct AppConfig {
    api_key: String,
    endpoint: String,
    model: String,
    size: String,
    quality: String,
}

/// `format!("{:?}", s)` for a string `s`: `s` quoted, with escapes.
pub uninterp spec fn str_debug(s: Seq<char>) -> Seq<char>;

/// Calls `<str as Debug>::fmt` (through `format!("{:?}", ..)`). The contract
/// names its result; the escaping rules of std are not restated.
#[verifier::external_body]
fn debug_str(s: &str) -> (quoted: String)
    ensures
        quoted@ == str_debug(s@),
{
    format!("{:?}", s)
}

/// Debug text of a configuration; the API key is shown as `[REDACTED]`.
pub open spec fn config_debug_text(
    endpoint: Seq<char>,
    model: Seq<char>,
    size: Seq<char>,
    quality: Seq<char>,
) -> Seq<char> {
    "AppConfig { api_key: \"[REDACTED]\", endpoint: "@ + str_debug(endpoint) + ", model: "@
        + str_debug(model) + ", size: "@ + str_debug(size) + ", quality: "@ + str_debug(quality)
        + " }"@
}

impl AppConfig {
    #[verifier::type_invariant]
    spec fn well_formed(self) -> bool {
        &&& is_clean_value(self.api_key@)
        &&& is_clean_value(self.endpoint@)
        &&& is_clean_value(self.model@)
        &&& is_clean_value(self.size@)
        &&& is_clean_value(self.quality@)
    }

    pub closed spec fn api_key_view(&self) -> Seq<char> {
        self.api_key@
    }

    pub closed spec fn endpoint_view(&self) -> Seq<char> {
        self.endpoint@
    }

    pub closed spec fn model_view(&self) -> Seq<char> {
        self.model@
    }

    pub closed spec fn size_view(&self) -> Seq<char> {
        self.size@
    }

    pub closed spec fn quality_view(&self) -> Seq<char> {
        self.quality@
    }

    /// Builds the configuration from the values of `API_KEY`,
    /// `IMAGE_API_ENDPOINT`, `IMAGE_MODEL`, `IMAGE_SIZE` and `IMAGE_QUALITY`
    /// (as `std::env::var` returns them); the first unusable one, in that
    /// order, is the error.
    pub fn from_env(
        api_key: Result<String, EnvVarError>,
        endpoint: Result<String, EnvVarError>,
        model: Result<String, EnvVarError>,
        size: Result<String, EnvVarError>,
        quality: Result<String, EnvVarError>,
    ) -> (res: Result<Self, ConfigError>)
        ensures
            match config_values(api_key, endpoint, model, size, quality) {
                Ok(vs) => res matches Ok(c) && c.api_key_view() == vs[0] && c.endpoint_view()
                    == vs[1] && c.model_view() == vs[2] && c.size_view() == vs[3]
                    && c.quality_view() == vs[4],
                Err(e) => res matches Err(e2) && e2 == e,
            },
    {
        let api_key = validate_required_env("API_KEY", api_key)?;
        let endpoint = validate_required_env("IMAGE_API_ENDPOINT", endpoint)?;
        let model = validate_required_env("IMAGE_MODEL", model)?;
        let size = validate_required_env("IMAGE_SIZE", size)?;
        let quality = validate_required_env("IMAGE_QUALITY", quality)?;
        Ok(AppConfig { api_key, endpoint, model, size, quality })
    }

    /// The API key.
    pub fn api_key(&self) -> (value: &str)
        ensures
            value@ == self.api_key_view(),
            is_clean_value(value@),
    {
        proof {
            use_type_invariant(self);
        }
        self.api_key.as_str()
    }

    /// The endpoint of the image API.
    pub fn endpoint(&self) -> (value: &str)
        ensures
            value@ == self.endpoint_view(),
            is_clean_value(value@),
    {
        proof {
            use_type_invariant(self);
        }
        self.endpoint.as_str()
    }

    /// The image model.
    pub fn model(&self) -> (value: &str)
        ensures
            value@ == self.model_view(),
            is_clean_value(value@),
    {
        proof {
            use_type_invariant(self);
        }
        self.model.as_str()
    }

    /// The image size, such as `1024x1536`.
    pub fn size(&self) -> (value: &str)
        ensures
            value@ == self.size_view(),
            is_clean_value(value@),
    {
        proof {
            use_type_invariant(self);
        }
        self.size.as_str()
    }

    /// The image quality, such as `high`.
    pub fn quality(&self) -> (value: &str)
        ensures
            value@ == self.quality_view(),
            is_clean_value(value@),
    {
        proof {
            use_type_invariant(self);
        }
        self.quality.as_str()
    }

    /// Debug text of the configuration, with the API key left out.
    pub fn redacted_debug(&self) -> (text: String)
        ensures
            text@ == config_debug_text(
                self.endpoint_view(),
                self.model_view(),
                self.size_view(),
                self.quality_view(),
            ),
    {
        let mut text = "AppConfig { api_key: \"[REDACTED]\", endpoint: ".to_owned();
        text.append(debug_str(self.endpoint.as_str()).as_str());
        text.append(", model: ");
        text.append(debug_str(self.model.as_str()).as_str());
        text.append(", size: ");
        text.append(debug_str(self.size.as_str()).as_str());
        text.append(", quality: ");
        text.append(debug_str(self.quality.as_str()).as_str());
        text.append(" }");
        text
    }
}

impl ConfigError {
    /// The name of the variable at fault.
    pub fn name(&self) -> (name: &'static str)
        ensures
            match *self {
                ConfigError::Missing { name: n } => name == n,
                ConfigError::Empty { name: n } => name == n,
                ConfigError::NotUnicode { name: n } => name == n,
            },
    {
        match *self {
            ConfigError::Missing { name } => name,
            ConfigError::Empty { name } => name,
            ConfigError::NotUnicode { name } => name,
        }
    }

    /// The message shown for the error.
    pub fn message(&self) -> (text: String)
        ensures
            text@ == match *self {
                ConfigError::Missing { name } => "环境变量 "@ + name@ + " 未配置"@,
                ConfigError::Empty { name } => "环境变量 "@ + name@ + " 不能为空"@,
                ConfigError::NotUnicode { name } => "环境变量 "@ + name@ + " 不是有效的 UTF-8"@,
            },
    {
        let mut text = "环境变量 ".to_owned();
        match *self {
            ConfigError::Missing { name } => {
                text.append(name);
                text.append(" 未配置");
            },
            ConfigError::Empty { name } => {
                text.append(name);
                text.append(" 不能为空");
            },
            ConfigError::NotUnicode { name } => {
                text.append(name);
                text.append(" 不是有效的 UTF-8");
            },
        }
        text
    }
}

/// The debug text of a configuration does not depend on its API key.
pub proof fn law_debug_text_hides_api_key(a: AppConfig, b: AppConfig)
    requires
        a.endpoint_view() == b.endpoint_view(),
        a.model_view() == b.model_view(),
        a.size_view() == b.size_view(),
        a.quality_view() == b.quality_view(),
    ensures
        config_debug_text(a.endpoint_view(), a.model_view(), a.size_view(), a.quality_view())
            == config_debug_text(b.endpoint_view(), b.model_view(), b.size_view(), b.quality_view()),
{
}

/// A variable is accepted exactly when it is present, valid Unicode and
/// not blank; what is kept is its trimmed value, which is then clean.
pub proof fn law_required_value_is_trimmed_and_non_empty(
    name: &'static str,
    value: Result<String, EnvVarError>,
)
    ensures
        required_value(name, value) matches Ok(v) ==> is_clean_value(v),
        required_value(name, value) is Ok <==> (value matches Ok(s) && exists|i: int|
            0 <= i < s@.len() && !is_unicode_whitespace(#[trigger] s@[i])),
{
    if let Ok(s) = value {
        lemma_trim_idempotent(s@);
        crate::text::lemma_trim_keeps_non_whitespace(s@);
    }
}

} // verus!
