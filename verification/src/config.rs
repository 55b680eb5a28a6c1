//! The portal's configuration, from the environment.

use crate::b64::{decode_standard, decode_url_safe};
use crate::numbers::{decimal_of, hex_value_of};
use crate::text::{join2, join3, replace_of, to_chars, trim_white_of};
use crate::weburl::Url;
use vstd::prelude::*;

verus! {

/// The environment variables the portal reads, each with its value if it is
/// set.
#[derive(Debug)]
pub struct Environment {
    pub bind_addr: Option<String>,
    pub metrics_addr: Option<String>,
    pub public_base_url: Option<String>,
    pub oidc_issuer: Option<String>,
    pub oidc_client_id: Option<String>,
    pub oidc_client_secret: Option<String>,
    pub oo_document_server_url: Option<String>,
    pub oo_jwt_secret: Option<String>,
    pub file_jwt_key: Option<String>,
    pub session_key: Option<String>,
    pub dav_base_url_template: Option<String>,
}

#[derive(Debug, Clone)]
pub struct Config {
    /// Listen address (public).
    pub bind: String,
    /// Listen address (metrics and health).
    pub metrics_bind: String,
    pub public_base_url: Url,
    pub oidc_issuer: Url,
    pub oidc_client_id: String,
    pub oidc_client_secret: String,
    pub oo_document_server_url: Url,
    pub oo_jwt_secret: String,
    pub file_jwt_key: [u8; 32],
    pub session_key: [u8; 32],
    pub dav_base_url_template: String,
}

/// A configuration, in specifications.
pub ghost struct ConfigModel {
    pub bind: Seq<char>,
    pub metrics_bind: Seq<char>,
    pub public_base_url: Seq<char>,
    pub oidc_issuer: Seq<char>,
    pub oidc_client_id: Seq<char>,
    pub oidc_client_secret: Seq<char>,
    pub oo_document_server_url: Seq<char>,
    pub oo_jwt_secret: Seq<char>,
    pub file_jwt_key: Seq<u8>,
    pub session_key: Seq<u8>,
    pub dav_base_url_template: Seq<char>,
}

impl View for Config {
    type V = ConfigModel;

    open spec fn view(&self) -> ConfigModel {
        ConfigModel {
            bind: self.bind@,
            metrics_bind: self.metrics_bind@,
            public_base_url: self.public_base_url@,
            oidc_issuer: self.oidc_issuer@,
            oidc_client_id: self.oidc_client_id@,
            oidc_client_secret: self.oidc_client_secret@,
            oo_document_server_url: self.oo_document_server_url@,
            oo_jwt_secret: self.oo_jwt_secret@,
            file_jwt_key: self.file_jwt_key@,
            session_key: self.session_key@,
            dav_base_url_template: self.dav_base_url_template@,
        }
    }
}

#[derive(Debug)]
pub enum ConfigError {
    Missing(String),
    Addr(String),
    Url(String),
    Key { var: String, reason: String },
}

/// A configuration error, in specifications.
pub ghost enum ConfigFault {
    Missing(Seq<char>),
    Addr(Seq<char>),
    Url(Seq<char>),
    Key { var: Seq<char>, reason: Seq<char> },
}

impl View for ConfigError {
    type V = ConfigFault;

    open spec fn view(&self) -> ConfigFault {
        match self {
            ConfigError::Missing(v) => ConfigFault::Missing(v@),
            ConfigError::Addr(e) => ConfigFault::Addr(e@),
            ConfigError::Url(e) => ConfigFault::Url(e@),
            ConfigError::Key { var, reason } => ConfigFault::Key { var: var@, reason: reason@ },
        }
    }
}

impl ConfigError {
    /// The error in words.
    pub fn message(&self) -> (out: String)
        ensures
            out@ == match self@ {
                ConfigFault::Missing(v) => "missing required env var "@ + v,
                ConfigFault::Addr(e) => "invalid socket address: "@ + e,
                ConfigFault::Url(e) => "invalid URL: "@ + e,
                ConfigFault::Key { var, reason } => "invalid key for "@ + var + ": "@ + reason,
            },
    {
        match self {
            ConfigError::Missing(v) => join2("missing required env var ", v.as_str()),
            ConfigError::Addr(e) => join2("invalid socket address: ", e.as_str()),
            ConfigError::Url(e) => join2("invalid URL: ", e.as_str()),
            ConfigError::Key { var, reason } => {
                let mut out = join3("invalid key for ", var.as_str(), ": ");
                out.append(reason.as_str());
                out
            },
        }
    }
}

/// The value of a variable, or its default.
pub open spec fn value_or(value: Option<Seq<char>>, default: Seq<char>) -> Seq<char> {
    match value {
        Some(v) => v,
        None => default,
    }
}

/// The value of a variable that has to be set.
pub open spec fn required(var: Seq<char>, value: Option<Seq<char>>) -> Result<
    Seq<char>,
    ConfigFault,
> {
    match value {
        Some(v) => Ok(v),
        None => Err(ConfigFault::Missing(var)),
    }
}

/// A URL in the configuration.
pub open spec fn configured_url(s: Seq<char>) -> Result<Seq<char>, ConfigFault> {
    match crate::weburl::url_parsed(s) {
        Ok(u) => Ok(u),
        Err(e) => Err(ConfigFault::Url(e)),
    }
}

/// Whether a key is written as 64 hexadecimal digits.
pub open spec fn is_hex_key(raw: Seq<char>) -> bool {
    raw.len() == 64 && forall|i: int|
        0 <= i < raw.len() ==> crate::numbers::hex_value(#[trigger] raw[i] as int) is Some
}

/// The bytes that pairs of hexadecimal digits stand for.
pub open spec fn hex_bytes(raw: Seq<char>) -> Seq<u8> {
    Seq::new(
        (raw.len() / 2) as nat,
        |i: int|
            (crate::numbers::hex_value(raw[2 * i] as int)->0 * 16 + crate::numbers::hex_value(
                raw[2 * i + 1] as int,
            )->0) as u8,
    )
}

/// The bytes of a key: from hexadecimal if it is 64 such digits, otherwise
/// from base64, standard or URL-safe, without the white space around it.
pub open spec fn key_bytes(raw: Seq<char>) -> Result<Seq<u8>, Seq<char>> {
    let trimmed = crate::text::trim_white(raw);
    if is_hex_key(raw) {
        Ok(hex_bytes(raw))
    } else {
        match (
            crate::b64::decoded(crate::b64::Form::Standard, trimmed),
            crate::b64::decoded(crate::b64::Form::UrlSafe, trimmed),
        ) {
            (Some(b), _) => Ok(b),
            (None, Some(b)) => Ok(b),
            (None, None) => Err(crate::b64::url_safe_refusal(trimmed)),
        }
    }
}

/// The 32-byte key that a variable holds.
pub open spec fn decoded_key(var: Seq<char>, value: Option<Seq<char>>) -> Result<
    Seq<u8>,
    ConfigFault,
> {
    match required(var, value) {
        Err(e) => Err(e),
        Ok(raw) => match key_bytes(raw) {
            Err(reason) => Err(ConfigFault::Key { var, reason }),
            Ok(b) => if b.len() == 32 {
                Ok(b)
            } else {
                Err(
                    ConfigFault::Key {
                        var,
                        reason: "expected 32 bytes, got "@ + crate::numbers::decimal_nat(b.len()),
                    },
                )
            },
        },
    }
}

/// The outcome of decoding a key, in specifications.
pub open spec fn key_outcome(r: Result<[u8; 32], ConfigError>) -> Result<Seq<u8>, ConfigFault> {
    match r {
        Ok(k) => Ok(k@),
        Err(e) => Err(e@),
    }
}

fn is_hex_key_of(cs: &Vec<char>) -> (yes: bool)
    ensures
        yes == is_hex_key(cs@),
{
    if cs.len() != 64 {
        return false;
    }
    let mut i: usize = 0;
    while i < cs.len()
        invariant
            i <= cs@.len() == 64,
            forall|j: int|
                0 <= j < i ==> crate::numbers::hex_value(#[trigger] cs@[j] as int) is Some,
        decreases cs@.len() - i,
    {
        let c: char = cs[i];
        if !('0' <= c && c <= 'f') {
            return false;
        }
        match hex_value_of(c as u8) {
            Some(_) => {},
            None => return false,
        }
        i = i + 1;
    }
    true
}

fn hex_bytes_of(cs: &Vec<char>) -> (out: Vec<u8>)
    requires
        is_hex_key(cs@),
    ensures
        out@ == hex_bytes(cs@),
{
    let mut out: Vec<u8> = Vec::new();
    let mut i: usize = 0;
    while i < 32
        invariant
            i <= 32,
            is_hex_key(cs@),
            out@.len() == i,
            forall|j: int| 0 <= j < i ==> out@[j] == hex_bytes(cs@)[j],
        decreases 32 - i,
    {
        let a: u8 = cs[2 * i] as u8;
        let b: u8 = cs[2 * i + 1] as u8;
        proof {
            assert(crate::numbers::hex_value(cs@[2 * i as int] as int) is Some);
            assert(crate::numbers::hex_value(cs@[2 * i + 1] as int) is Some);
        }
        if let (Some(h), Some(l)) = (hex_value_of(a), hex_value_of(b)) {
            out.push(h * 16 + l);
        }
        i = i + 1;
    }
    proof {
        assert(out@ =~= hex_bytes(cs@));
    }
    out
}

/// Decodes a 32-byte key from the value of a variable, in hexadecimal or
/// base64.
pub fn decode_key(var: &str, value: Option<String>) -> (r: Result<[u8; 32], ConfigError>)
    ensures
        key_outcome(r) == decoded_key(var@, crate::text::opt_view(value)),
{
    let raw = match value {
        Some(raw) => raw,
        None => return Err(ConfigError::Missing(var.to_owned())),
    };
    let cs = to_chars(raw.as_str());
    let bytes = if is_hex_key_of(&cs) {
        hex_bytes_of(&cs)
    } else {
        let trimmed = trim_white_of(raw.as_str());
        match decode_standard(trimmed.as_str()) {
            Some(b) => {
                proof {
                    crate::b64::decoded_inverts_encoded(crate::b64::Form::Standard, b@);
                }
                b
            },
            None => match decode_url_safe(trimmed.as_str()) {
                Ok(b) => {
                    proof {
                        crate::b64::decoded_inverts_encoded(crate::b64::Form::UrlSafe, b@);
                    }
                    b
                },
                Err(reason) => return Err(ConfigError::Key { var: var.to_owned(), reason }),
            },
        }
    };
    if bytes.len() != 32 {
        return Err(
            ConfigError::Key {
                var: var.to_owned(),
                reason: join2("expected 32 bytes, got ", decimal_of(bytes.len() as u64).as_str()),
            },
        );
    }
    let mut key: [u8; 32] = [0u8; 32];
    let mut i: usize = 0;
    while i < 32
        invariant
            i <= 32,
            bytes@.len() == 32,
            forall|j: int| 0 <= j < i ==> key@[j] == bytes@[j],
        decreases 32 - i,
    {
        key[i] = bytes[i];
        i = i + 1;
    }
    proof {
        assert(key@ =~= bytes@);
    }
    Ok(key)
}

/// Some bytes in hexadecimal, where `upper` says which digits are written with
/// capital letters.
pub open spec fn hex_text(key: Seq<u8>, upper: spec_fn(int) -> bool) -> Seq<char> {
    Seq::new(
        key.len() * 2,
        |i: int|
            {
                let v = if i % 2 == 0 {
                    key[i / 2] as int / 16
                } else {
                    key[i / 2] as int % 16
                };
                if upper(i) {
                    crate::numbers::hex_upper(v)
                } else {
                    crate::numbers::hex_lower(v)
                }
            },
    )
}

/// Every 32-byte key is read back from hexadecimal digits of either case.
pub proof fn hex_key_is_read(var: Seq<char>, key: Seq<u8>, upper: spec_fn(int) -> bool)
    requires
        key.len() == 32,
    ensures
        decoded_key(var, Some(hex_text(key, upper))) == Ok::<_, ConfigFault>(key),
{
    let raw = hex_text(key, upper);
    assert forall|i: int| 0 <= i < 64 implies crate::numbers::hex_value(#[trigger] raw[i] as int)
        == Some(
        if i % 2 == 0 {
            key[i / 2] as int / 16
        } else {
            key[i / 2] as int % 16
        },
    ) by {}
    assert(is_hex_key(raw));
    assert forall|i: int| 0 <= i < 32 implies hex_bytes(raw)[i] == key[i] by {
        assert(crate::numbers::hex_value(raw[2 * i] as int) == Some(key[i] as int / 16));
        assert(crate::numbers::hex_value(raw[2 * i + 1] as int) == Some(key[i] as int % 16));
    }
    assert(hex_bytes(raw) =~= key);
}

/// Every 32-byte key is read back from base64, standard or URL-safe, with or
/// without white space around it.
pub proof fn base64_key_is_read(
    var: Seq<char>,
    key: Seq<u8>,
    form: crate::b64::Form,
    before: Seq<char>,
    after: Seq<char>,
)
    requires
        key.len() == 32,
        crate::text::is_all_white(before),
        crate::text::is_all_white(after),
    ensures
        decoded_key(var, Some(before + crate::b64::encoded(form, key) + after)) == Ok::<
            _,
            ConfigFault,
        >(key),
{
    let text = crate::b64::encoded(form, key);
    let raw = before + text + after;
    crate::b64::encoded_shape(form, key);
    crate::b64::decoded_inverts_encoded(form, key);
    assert(' ' < text[0] < '\u{7f}' && ' ' < text.last() < '\u{7f}');
    crate::text::lemma_trim_white(before, text, after);
    if is_hex_key(raw) {
        if before.len() > 0 {
            assert(raw[0] == before[0]);
        } else {
            assert(raw.last() == after.last());
            assert(crate::numbers::hex_value(raw[raw.len() - 1] as int) is Some);
        }
    }
    if form is UrlSafe {
        if crate::b64::decoded(crate::b64::Form::Standard, text) is Some {
            let b = choose|b: Seq<u8>| crate::b64::encoded(crate::b64::Form::Standard, b) == text;
            crate::b64::encoded_shape(crate::b64::Form::Standard, b);
        }
    }
}

/// The listen address, before it is checked.
pub open spec fn bind_text(env: Environment) -> Seq<char> {
    value_or(crate::text::opt_view(env.bind_addr), "0.0.0.0:3000"@)
}

/// The listen address of metrics and health, before it is checked.
pub open spec fn metrics_text(env: Environment) -> Seq<char> {
    value_or(crate::text::opt_view(env.metrics_addr), "0.0.0.0:9090"@)
}

/// The configuration that an environment gives: the first fault found, in the
/// order of the fields, or all the fields. `bind_refusal` and
/// `metrics_refusal` say why the listen addresses are none, if they are none.
pub open spec fn configured(
    env: Environment,
    bind_refusal: Option<Seq<char>>,
    metrics_refusal: Option<Seq<char>>,
) -> Result<ConfigModel, ConfigFault> {
    let public_base_url = required(
        "PUBLIC_BASE_URL"@,
        crate::text::opt_view(env.public_base_url),
    );
    let issuer = value_or(crate::text::opt_view(env.oidc_issuer), "https://auth.example.com"@);
    let secret = required("OIDC_CLIENT_SECRET"@, crate::text::opt_view(env.oidc_client_secret));
    let document_server = required(
        "OO_DOCUMENT_SERVER_URL"@,
        crate::text::opt_view(env.oo_document_server_url),
    );
    let jwt_secret = required("OO_JWT_SECRET"@, crate::text::opt_view(env.oo_jwt_secret));
    let file_jwt_key = decoded_key("FILE_JWT_KEY"@, crate::text::opt_view(env.file_jwt_key));
    let session_key = decoded_key("SESSION_KEY"@, crate::text::opt_view(env.session_key));
    if bind_refusal is Some {
        Err(ConfigFault::Addr(bind_refusal->0))
    } else if metrics_refusal is Some {
        Err(ConfigFault::Addr(metrics_refusal->0))
    } else if public_base_url is Err {
        Err(public_base_url->Err_0)
    } else if configured_url(public_base_url->Ok_0) is Err {
        Err(configured_url(public_base_url->Ok_0)->Err_0)
    } else if configured_url(issuer) is Err {
        Err(configured_url(issuer)->Err_0)
    } else if secret is Err {
        Err(secret->Err_0)
    } else if document_server is Err {
        Err(document_server->Err_0)
    } else if configured_url(document_server->Ok_0) is Err {
        Err(configured_url(document_server->Ok_0)->Err_0)
    } else if jwt_secret is Err {
        Err(jwt_secret->Err_0)
    } else if file_jwt_key is Err {
        Err(file_jwt_key->Err_0)
    } else if session_key is Err {
        Err(session_key->Err_0)
    } else {
        Ok(
            ConfigModel {
                bind: bind_text(env),
                metrics_bind: metrics_text(env),
                public_base_url: configured_url(public_base_url->Ok_0)->Ok_0,
                oidc_issuer: configured_url(issuer)->Ok_0,
                oidc_client_id: value_or(
                    crate::text::opt_view(env.oidc_client_id),
                    "office-portal"@,
                ),
                oidc_client_secret: secret->Ok_0,
                oo_document_server_url: configured_url(document_server->Ok_0)->Ok_0,
                oo_jwt_secret: jwt_secret->Ok_0,
                file_jwt_key: file_jwt_key->Ok_0,
                session_key: session_key->Ok_0,
                dav_base_url_template: value_or(
                    crate::text::opt_view(env.dav_base_url_template),
                    "https://dav.{domain}"@,
                ),
            },
        )
    }
}

/// The outcome of reading a configuration, in specifications.
pub open spec fn config_outcome(r: Result<Config, ConfigError>) -> Result<
    ConfigModel,
    ConfigFault,
> {
    match r {
        Ok(c) => Ok(c@),
        Err(e) => Err(e@),
    }
}

fn env_or(value: &Option<String>, default: &str) -> (out: String)
    ensures
        out@ == value_or(crate::text::opt_view(*value), default@),
{
    match value {
        Some(v) => v.clone(),
        None => default.to_owned(),
    }
}

fn require_env(var: &str, value: &Option<String>) -> (r: Result<String, ConfigError>)
    ensures
        match r {
            Ok(v) => required(var@, crate::text::opt_view(*value)) == Ok::<_, ConfigFault>(v@),
            Err(e) => required(var@, crate::text::opt_view(*value)) == Err::<Seq<char>, _>(e@),
        },
{
    match value {
        Some(v) => Ok(v.clone()),
        None => Err(ConfigError::Missing(var.to_owned())),
    }
}

fn parse_url(s: &str) -> (r: Result<Url, ConfigError>)
    ensures
        match r {
            Ok(u) => configured_url(s@) == Ok::<_, ConfigFault>(u@),
            Err(e) => configured_url(s@) == Err::<Seq<char>, _>(e@),
        },
{
    match Url::parse(s) {
        Ok(u) => Ok(u),
        Err(e) => Err(ConfigError::Url(e)),
    }
}

impl Environment {
    /// The listen address, before it is checked.
    pub fn bind_address(&self) -> (out: String)
        ensures
            out@ == bind_text(*self),
    {
        env_or(&self.bind_addr, "0.0.0.0:3000")
    }

    /// The listen address of metrics and health, before it is checked.
    pub fn metrics_address(&self) -> (out: String)
        ensures
            out@ == metrics_text(*self),
    {
        env_or(&self.metrics_addr, "0.0.0.0:9090")
    }
}

impl Config {
    /// The configuration that an environment gives. `bind_refusal` and
    /// `metrics_refusal` say why the listen addresses are none, if they are
    /// none.
    pub fn from_env(
        env: Environment,
        bind_refusal: Option<String>,
        metrics_refusal: Option<String>,
    ) -> (r: Result<Config, ConfigError>)
        ensures
            config_outcome(r) == configured(
                env,
                crate::text::opt_view(bind_refusal),
                crate::text::opt_view(metrics_refusal),
            ),
    {
        if let Some(e) = bind_refusal {
            return Err(ConfigError::Addr(e));
        }
        if let Some(e) = metrics_refusal {
            return Err(ConfigError::Addr(e));
        }
        let bind = env.bind_address();
        let metrics_bind = env.metrics_address();
        let text = match require_env("PUBLIC_BASE_URL", &env.public_base_url) {
            Ok(v) => v,
            Err(e) => return Err(e),
        };
        let public_base_url = match parse_url(text.as_str()) {
            Ok(v) => v,
            Err(e) => return Err(e),
        };
        let text = env_or(&env.oidc_issuer, "https://auth.example.com");
        let oidc_issuer = match parse_url(text.as_str()) {
            Ok(v) => v,
            Err(e) => return Err(e),
        };
        let oidc_client_id = env_or(&env.oidc_client_id, "office-portal");
        let oidc_client_secret = match require_env("OIDC_CLIENT_SECRET", &env.oidc_client_secret) {
            Ok(v) => v,
            Err(e) => return Err(e),
        };
        let text = match require_env("OO_DOCUMENT_SERVER_URL", &env.oo_document_server_url) {
            Ok(v) => v,
            Err(e) => return Err(e),
        };
        let oo_document_server_url = match parse_url(text.as_str()) {
            Ok(v) => v,
            Err(e) => return Err(e),
        };
        let oo_jwt_secret = match require_env("OO_JWT_SECRET", &env.oo_jwt_secret) {
            Ok(v) => v,
            Err(e) => return Err(e),
        };
        let dav_base_url_template = env_or(&env.dav_base_url_template, "https://dav.{domain}");
        let file_jwt_key = match decode_key("FILE_JWT_KEY", env.file_jwt_key) {
            Ok(v) => v,
            Err(e) => return Err(e),
        };
        let session_key = match decode_key("SESSION_KEY", env.session_key) {
            Ok(v) => v,
            Err(e) => return Err(e),
        };
        Ok(
            Config {
                bind,
                metrics_bind,
                public_base_url,
                oidc_issuer,
                oidc_client_id,
                oidc_client_secret,
                oo_document_server_url,
                oo_jwt_secret,
                file_jwt_key,
                session_key,
                dav_base_url_template,
            },
        )
    }

    /// The WebDAV base URL for a user, given the domain of their email.
    pub fn dav_base_url(&self, email_domain: &str) -> (r: Result<Url, String>)
        ensures
            crate::weburl::url_outcome(r) == dav_base(self@, email_domain@),
    {
        proof {
            reveal_strlit("{domain}");
        }
        let text = replace_of(self.dav_base_url_template.as_str(), "{domain}", email_domain);
        Url::parse(text.as_str())
    }
}

/// The WebDAV base URL for a domain: the template with the domain put in.
pub open spec fn dav_base(c: ConfigModel, domain: Seq<char>) -> Result<Seq<char>, Seq<char>> {
    crate::weburl::url_parsed(
        crate::text::replace_all(c.dav_base_url_template, "{domain}"@, domain),
    )
}

} // verus!
