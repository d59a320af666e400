//! The agent's configuration and how it is resolved from its sources.
//!
//! The secret and the credential come from the environment or, where the
//! environment holds none, from a file, whose content is trimmed. The caller
//! reads both and hands over what it found; which of them counts is decided
//! here.

use crate::address::{bind_address_of, parse_bind_address, BindAddress, Host};
use crate::text::{trim, trimmed};
use vstd::prelude::*;
use vstd::string::*;

verus! {

/// Which parts of the agent are switched on.
#[derive(Clone, Copy, Debug, PartialEq, Eq, Structural)]
pub struct Options {
    /// Connections are encrypted.
    pub enable_tls: bool,
    /// Requests must carry the shared credential.
    pub require_auth: bool,
}

/// What the agent's surroundings hold at startup. `None` stands for a
/// variable that is not set or a file that could not be read.
#[derive(Clone, PartialEq, Eq)]
pub struct Sources {
    /// The secret as the variable `MONGODB_URI` gives it.
    pub secret_env: Option<String>,
    /// The content of the file that may hold the secret.
    pub secret_file: Option<String>,
    /// The credential as the variable `API_KEY` gives it.
    pub credential_env: Option<String>,
    /// The content of the file that may hold the credential.
    pub credential_file: Option<String>,
    /// The address to listen on as the variable `AGENT_BIND` gives it.
    pub agent_bind_env: Option<String>,
    /// The address to listen on as the variable `BIND` gives it.
    pub bind_env: Option<String>,
    /// The content of the certificate file.
    pub certificate_file: Option<Vec<u8>>,
    /// The content of the key file.
    pub key_file: Option<Vec<u8>>,
}

/// The agent's configuration: resolved once at startup and only read after.
#[derive(Clone, PartialEq, Eq)]
pub struct AgentConfig {
    /// The secret that the agent discloses.
    pub secret_value: String,
    /// The credential that a request must carry; `None` where none is asked
    /// for.
    pub api_credential: Option<String>,
    /// The address to listen on.
    pub bind_address: BindAddress,
    /// The certificates in their file's encoding; present only with TLS.
    pub certificate_material: Option<Vec<u8>>,
    /// The private key in its file's encoding; present only with TLS.
    pub key_material: Option<Vec<u8>>,
}

/// Why no configuration could be resolved.
#[derive(Clone, Copy, Debug, PartialEq, Eq, Structural)]
pub enum ConfigError {
    /// Neither the environment nor the file holds the secret.
    MissingSecret,
    /// A credential is asked for and neither the environment nor the file
    /// holds one.
    MissingCredential,
    /// The environment gives an address to listen on that writes none.
    InvalidBindAddress,
}

/// The text of an optional string.
pub open spec fn text_of(s: Option<String>) -> Option<Seq<char>> {
    match s {
        Some(t) => Some(t@),
        None => None,
    }
}

/// The bytes of an optional byte vector.
pub open spec fn bytes_of(b: Option<Vec<u8>>) -> Option<Seq<u8>> {
    match b {
        Some(v) => Some(v@),
        None => None,
    }
}

/// The mathematical content of [`Sources`].
pub struct SourcesView {
    pub secret_env: Option<Seq<char>>,
    pub secret_file: Option<Seq<char>>,
    pub credential_env: Option<Seq<char>>,
    pub credential_file: Option<Seq<char>>,
    pub agent_bind_env: Option<Seq<char>>,
    pub bind_env: Option<Seq<char>>,
    pub certificate_file: Option<Seq<u8>>,
    pub key_file: Option<Seq<u8>>,
}

/// The mathematical content of [`AgentConfig`].
pub struct AgentConfigView {
    pub secret_value: Seq<char>,
    pub api_credential: Option<Seq<char>>,
    pub bind_address: BindAddress,
    pub certificate_material: Option<Seq<u8>>,
    pub key_material: Option<Seq<u8>>,
}

impl View for Sources {
    type V = SourcesView;

    open spec fn view(&self) -> SourcesView {
        SourcesView {
            secret_env: text_of(self.secret_env),
            secret_file: text_of(self.secret_file),
            credential_env: text_of(self.credential_env),
            credential_file: text_of(self.credential_file),
            agent_bind_env: text_of(self.agent_bind_env),
            bind_env: text_of(self.bind_env),
            certificate_file: bytes_of(self.certificate_file),
            key_file: bytes_of(self.key_file),
        }
    }
}

impl View for AgentConfig {
    type V = AgentConfigView;

    open spec fn view(&self) -> AgentConfigView {
        AgentConfigView {
            secret_value: self.secret_value@,
            api_credential: text_of(self.api_credential),
            bind_address: self.bind_address,
            certificate_material: bytes_of(self.certificate_material),
            key_material: bytes_of(self.key_material),
        }
    }
}

/// The address that the agent listens on where the environment names none:
/// every IPv4 interface, port 8443.
pub open spec fn default_bind_address() -> BindAddress {
    BindAddress { host: Host::V4 { quad: 0 }, port: 8443 }
}

/// The value that two sources give: that of the environment where it has
/// one, else the trimmed content of the file, else none.
pub open spec fn sourced(env: Option<Seq<char>>, file: Option<Seq<char>>) -> Option<Seq<char>> {
    match env {
        Some(value) => Some(value),
        None => match file {
            Some(content) => Some(trimmed(content)),
            None => None,
        },
    }
}

/// The address to listen on: the one that the text of the first variable
/// writes where that variable is set, else the one of the second, else the
/// default. `None` where the text that counts writes no address.
pub open spec fn bind_choice(first: Option<Seq<char>>, second: Option<Seq<char>>) -> Option<
    BindAddress,
> {
    match first {
        Some(text) => bind_address_of(text),
        None => match second {
            Some(text) => bind_address_of(text),
            None => Some(default_bind_address()),
        },
    }
}

/// The configuration that `sources` give under `options`, or the first thing
/// that is wrong with them: the secret is looked at first, then the
/// credential, then the address.
pub open spec fn resolution(sources: SourcesView, options: Options) -> Result<
    AgentConfigView,
    ConfigError,
> {
    let secret = sourced(sources.secret_env, sources.secret_file);
    let credential = sourced(sources.credential_env, sources.credential_file);
    let bind = bind_choice(sources.agent_bind_env, sources.bind_env);
    if secret is None {
        Err(ConfigError::MissingSecret)
    } else if options.require_auth && credential is None {
        Err(ConfigError::MissingCredential)
    } else if bind is None {
        Err(ConfigError::InvalidBindAddress)
    } else {
        Ok(
            AgentConfigView {
                secret_value: secret->0,
                api_credential: if options.require_auth {
                    credential
                } else {
                    None
                },
                bind_address: bind->0,
                certificate_material: if options.enable_tls {
                    sources.certificate_file
                } else {
                    None
                },
                key_material: if options.enable_tls {
                    sources.key_file
                } else {
                    None
                },
            },
        )
    }
}

/// What a resolution gives, by view.
pub open spec fn resolved_view(r: Result<AgentConfig, ConfigError>) -> Result<
    AgentConfigView,
    ConfigError,
> {
    match r {
        Ok(config) => Ok(config@),
        Err(e) => Err(e),
    }
}

/// Picks the value of the environment, else the trimmed content of the file.
pub fn pick_source(env: Option<String>, file: Option<String>) -> (r: Option<String>)
    ensures
        text_of(r) == sourced(text_of(env), text_of(file)),
{
    match env {
        Some(value) => Some(value),
        None => match file {
            Some(content) => Some(trim(content.as_str())),
            None => None,
        },
    }
}

/// Picks the address to listen on: what the first variable writes where it
/// is set, else what the second writes, else the default.
pub fn pick_bind_address(first: &Option<String>, second: &Option<String>) -> (r: Option<
    BindAddress,
>)
    ensures
        r == bind_choice(text_of(*first), text_of(*second)),
{
    match first {
        Some(text) => parse_bind_address(text.as_str()),
        None => match second {
            Some(text) => parse_bind_address(text.as_str()),
            None => Some(BindAddress { host: Host::V4 { quad: 0 }, port: 8443 }),
        },
    }
}

/// Resolves the configuration from what the surroundings hold.
///
/// Fails with `MissingSecret` where neither source holds the secret, with
/// `MissingCredential` where a credential is asked for and neither source
/// holds one, and with `InvalidBindAddress` where the environment names an
/// address that cannot be read; where several of these hold, with the first.
/// Without `require_auth` the credential sources are ignored, without
/// `enable_tls` the certificate and key files.
pub fn resolve(sources: Sources, options: Options) -> (r: Result<AgentConfig, ConfigError>)
    ensures
        resolved_view(r) == resolution(sources@, options),
{
    let Sources {
        secret_env,
        secret_file,
        credential_env,
        credential_file,
        agent_bind_env,
        bind_env,
        certificate_file,
        key_file,
    } = sources;
    let secret = match pick_source(secret_env, secret_file) {
        Some(value) => value,
        None => {
            return Err(ConfigError::MissingSecret);
        },
    };
    let credential = if options.require_auth {
        match pick_source(credential_env, credential_file) {
            Some(value) => Some(value),
            None => {
                return Err(ConfigError::MissingCredential);
            },
        }
    } else {
        None
    };
    let bind = match pick_bind_address(&agent_bind_env, &bind_env) {
        Some(address) => address,
        None => {
            return Err(ConfigError::InvalidBindAddress);
        },
    };
    let (certificate_material, key_material) = if options.enable_tls {
        (certificate_file, key_file)
    } else {
        (None, None)
    };
    Ok(
        AgentConfig {
            secret_value: secret,
            api_credential: credential,
            bind_address: bind,
            certificate_material,
            key_material,
        },
    )
}

/// The words that tell an operator what is wrong with the configuration.
pub open spec fn config_error_text(e: ConfigError) -> Seq<char> {
    match e {
        ConfigError::MissingSecret => "the secret is not configured: set MONGODB_URI or provide the secret file"@,
        ConfigError::MissingCredential => "the credential is not configured: set API_KEY or provide the credential file"@,
        ConfigError::InvalidBindAddress => "the bind address does not have the form host:port"@,
    }
}

impl ConfigError {
    /// Says in words what is wrong.
    pub fn message(&self) -> (r: String)
        ensures
            r@ == config_error_text(*self),
    {
        let text = match self {
            ConfigError::MissingSecret => "the secret is not configured: set MONGODB_URI or provide the secret file",
            ConfigError::MissingCredential => "the credential is not configured: set API_KEY or provide the credential file",
            ConfigError::InvalidBindAddress => "the bind address does not have the form host:port",
        };
        String::from_str(text)
    }
}

} // verus!
