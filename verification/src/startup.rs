//! Startup: everything that must hold before the agent opens its socket.
//!
//! The configuration is resolved and, with TLS, the TLS material is loaded
//! from what the configuration holds. Any failure ends the startup: the
//! caller gets no [`Startup`] to listen with, only the reason.

use crate::config::{resolution, resolve, AgentConfig, AgentConfigView, ConfigError, Options,
    Sources, SourcesView};
use crate::tls::{key_of, load_tls, material_of, pem_pkcs8_keys, pem_rsa_keys, TlsError,
    TlsMaterialView, TlsServerContext};
use vstd::prelude::*;
use vstd::string::*;

verus! {

/// What the agent listens with.
pub struct Startup {
    pub config: AgentConfig,
    /// The TLS context; present where, and only where, TLS is switched on.
    pub tls: Option<TlsServerContext>,
}

/// The mathematical content of a [`Startup`].
pub struct StartupView {
    pub config: AgentConfigView,
    pub tls: Option<TlsMaterialView>,
}

/// Why the agent cannot start.
#[derive(Clone, Copy, Debug, PartialEq, Eq, Structural)]
pub enum StartupError {
    Config(ConfigError),
    Tls(TlsError),
}

impl View for Startup {
    type V = StartupView;

    open spec fn view(&self) -> StartupView {
        StartupView {
            config: self.config@,
            tls: match self.tls {
                Some(context) => Some(context@),
                None => None,
            },
        }
    }
}

/// Whether `r` is what preparing gives where the sources give `planned`:
/// the failure that the sources give; else a startup of what they give, or,
/// with TLS, `RejectedMaterial` where `rustls` does not take the material.
pub open spec fn startup_meets(
    r: Result<Startup, StartupError>,
    planned: Result<StartupView, StartupError>,
) -> bool {
    match planned {
        Err(e) => r == Err::<Startup, StartupError>(e),
        Ok(startup) => match r {
            Ok(made) => made@ == startup,
            Err(e) => startup.tls is Some && e == StartupError::Tls(TlsError::RejectedMaterial),
        },
    }
}

/// What `sources` give under `options`: the configuration, and with TLS the
/// material that its certificate and key give; or the first failure, the
/// configuration being resolved first. Whether `rustls` takes the material is
/// not part of this.
pub open spec fn preparation(sources: SourcesView, options: Options) -> Result<
    StartupView,
    StartupError,
> {
    match resolution(sources, options) {
        Err(e) => Err(StartupError::Config(e)),
        Ok(config) => if options.enable_tls {
            match material_of(config.certificate_material, config.key_material) {
                Err(e) => Err(StartupError::Tls(e)),
                Ok(material) => Ok(StartupView { config, tls: Some(material) }),
            }
        } else {
            Ok(StartupView { config, tls: None })
        },
    }
}

/// Whether the text of a key file holds no private key that can be read, in
/// PKCS#8 or in PKCS#1.
pub open spec fn holds_no_private_key(key_pem: Seq<u8>) -> bool {
    &&& pem_pkcs8_keys(key_pem) matches Some(pkcs8) ==> pkcs8.len() == 0
    &&& pem_rsa_keys(key_pem) matches Some(rsa) ==> rsa.len() == 0
}

/// Prepares the agent to listen: resolves the configuration and, with TLS,
/// loads the TLS context. Nothing is opened here; the caller opens its
/// socket only with what this returns.
///
/// Fails where the sources give a failure, with that failure, and with TLS
/// also where `rustls` does not take the material, with `RejectedMaterial`.
/// Without TLS it succeeds on every configuration that resolves.
pub fn prepare(sources: Sources, options: Options) -> (r: Result<Startup, StartupError>)
    ensures
        startup_meets(r, preparation(sources@, options)),
        r matches Ok(startup) ==> (startup.tls is Some <==> options.enable_tls),
        preparation(sources@, options) is Err ==> r is Err,
{
    let config = match resolve(sources, options) {
        Ok(config) => config,
        Err(e) => {
            return Err(StartupError::Config(e));
        },
    };
    if options.enable_tls {
        match load_tls(&config.certificate_material, &config.key_material) {
            Ok(context) => Ok(Startup { config, tls: Some(context) }),
            Err(e) => Err(StartupError::Tls(e)),
        }
    } else {
        Ok(Startup { config, tls: None })
    }
}

/// Where neither the environment nor the file holds the secret, the agent
/// does not start, whatever else is configured.
pub proof fn lemma_missing_secret_stops_startup(sources: SourcesView, options: Options)
    requires
        sources.secret_env is None,
        sources.secret_file is None,
    ensures
        resolution(sources, options) == Err::<AgentConfigView, ConfigError>(
            ConfigError::MissingSecret,
        ),
        preparation(sources, options) == Err::<StartupView, StartupError>(
            StartupError::Config(ConfigError::MissingSecret),
        ),
{
}

/// With TLS, where the key file cannot be read or holds no private key
/// that can be read in either encoding, the agent does not start.
pub proof fn lemma_missing_key_stops_startup(sources: SourcesView, options: Options)
    requires
        options.enable_tls,
        sources.key_file matches Some(key_pem) ==> holds_no_private_key(key_pem),
    ensures
        preparation(sources, options) is Err,
        sources.key_file matches Some(key_pem) ==> key_of(key_pem) is Err,
{
}

/// A startup that succeeds keeps to its sources: the secret is the one
/// that the sources give, a credential is held where, and only where, one
/// is asked for, and TLS material where, and only where, TLS is switched on.
pub proof fn lemma_startup_keeps_to_sources(sources: SourcesView, options: Options)
    requires
        preparation(sources, options) is Ok,
    ensures
        ({
            let startup = preparation(sources, options)->Ok_0;
            &&& Some(startup.config.secret_value) == crate::config::sourced(
                sources.secret_env,
                sources.secret_file,
            )
            &&& startup.config.api_credential is Some <==> options.require_auth
            &&& options.require_auth ==> startup.config.api_credential == crate::config::sourced(
                sources.credential_env,
                sources.credential_file,
            )
            &&& startup.tls is Some <==> options.enable_tls
            &&& startup.tls matches Some(material) ==> {
                &&& material.certificate_chain.len() > 0
                &&& startup.config.certificate_material is Some
                &&& startup.config.key_material is Some
                &&& Ok::<TlsMaterialView, TlsError>(material) == material_of(
                    sources.certificate_file,
                    sources.key_file,
                )
            }
            &&& Some(startup.config.bind_address) == crate::config::bind_choice(
                sources.agent_bind_env,
                sources.bind_env,
            )
        }),
{
}

/// The words that tell an operator why the agent cannot start.
pub open spec fn startup_error_text(e: StartupError) -> Seq<char> {
    match e {
        StartupError::Config(inner) => crate::config::config_error_text(inner),
        StartupError::Tls(inner) => crate::tls::tls_error_text(inner),
    }
}

impl StartupError {
    /// Says in words what is wrong.
    pub fn message(&self) -> (r: String)
        ensures
            r@ == startup_error_text(*self),
    {
        match self {
            StartupError::Config(inner) => inner.message(),
            StartupError::Tls(inner) => inner.message(),
        }
    }
}

} // verus!
