//! The material of the agent's TLS identity: a certificate chain and one
//! private key, taken from the text of two PEM files.
//!
//! The files are read by the caller. Their sections are decoded by the crate
//! `rustls_pemfile`; which of the decoded sections make the identity, and
//! what counts as a failure, is decided here. From the material `rustls`
//! makes the server's context, which only authenticates the server: no
//! client is asked for a certificate.

use std::sync::Arc;
use tokio_rustls::rustls::crypto::ring::default_provider;
use tokio_rustls::rustls::pki_types::{CertificateDer, PrivateKeyDer};
use tokio_rustls::rustls::ServerConfig;
use vstd::prelude::*;
use vstd::string::*;

verus! {

/// The error that the PEM decoder reports.
#[verifier::external_type_specification]
#[verifier::external_body]
pub struct ExIoError(std::io::Error);

/// The server configuration of `rustls`.
#[verifier::external_type_specification]
#[verifier::external_body]
pub struct ExServerConfig(tokio_rustls::rustls::ServerConfig);

/// The error that `rustls` reports.
#[verifier::external_type_specification]
#[verifier::external_body]
pub struct ExRustlsError(tokio_rustls::rustls::Error);

/// How a private key is encoded.
#[derive(Clone, Copy, Debug, PartialEq, Eq, Structural)]
pub enum KeyEncoding {
    /// PKCS#8, a `PRIVATE KEY` section.
    Pkcs8,
    /// PKCS#1, an `RSA PRIVATE KEY` section.
    Pkcs1,
}

/// A private key in DER.
#[derive(Clone, PartialEq, Eq)]
pub struct PrivateKey {
    pub encoding: KeyEncoding,
    pub der: Vec<u8>,
}

/// What a TLS server context is made from.
#[derive(Clone, PartialEq, Eq)]
pub struct TlsMaterial {
    /// The certificates in DER, in the order of the file, the server's own
    /// first. Never empty in a value that this module returns.
    pub certificate_chain: Vec<Vec<u8>>,
    /// The key to present the chain with.
    pub private_key: PrivateKey,
}

/// The TLS context of the server: made once at startup, then shared by all
/// connections and only read.
pub struct TlsServerContext {
    /// What the context was made from.
    pub material: TlsMaterial,
    /// The configuration that `rustls` made from it.
    pub config: ServerConfig,
}

/// Why no TLS context could be made.
#[derive(Clone, Copy, Debug, PartialEq, Eq, Structural)]
pub enum TlsError {
    /// The certificate file could not be read.
    UnreadableCertificate,
    /// The certificate file is not well-formed PEM.
    MalformedCertificate,
    /// The certificate file holds no certificate.
    MissingCertificate,
    /// The key file could not be read.
    UnreadableKey,
    /// The key file is not well-formed PEM.
    MalformedKey,
    /// The key file holds no private key in PKCS#8 or PKCS#1.
    MissingPrivateKey,
    /// The key cannot be used, or is not the key of the first certificate.
    RejectedMaterial,
}

/// The mathematical content of [`PrivateKey`].
pub struct PrivateKeyView {
    pub encoding: KeyEncoding,
    pub der: Seq<u8>,
}

/// The mathematical content of [`TlsMaterial`].
pub struct TlsMaterialView {
    pub certificate_chain: Seq<Seq<u8>>,
    pub private_key: PrivateKeyView,
}

impl View for PrivateKey {
    type V = PrivateKeyView;

    open spec fn view(&self) -> PrivateKeyView {
        PrivateKeyView { encoding: self.encoding, der: self.der@ }
    }
}

impl View for TlsMaterial {
    type V = TlsMaterialView;

    open spec fn view(&self) -> TlsMaterialView {
        TlsMaterialView {
            certificate_chain: blobs(self.certificate_chain@),
            private_key: self.private_key@,
        }
    }
}

impl View for TlsServerContext {
    type V = TlsMaterialView;

    open spec fn view(&self) -> TlsMaterialView {
        self.material@
    }
}

/// The byte strings that a sequence of byte vectors holds.
pub open spec fn blobs(items: Seq<Vec<u8>>) -> Seq<Seq<u8>> {
    items.map_values(|item: Vec<u8>| item@)
}

/// The `CERTIFICATE` sections of a PEM text, decoded, in the order of the
/// text; `None` where the text is not well-formed.
pub uninterp spec fn pem_certificates(pem: Seq<u8>) -> Option<Seq<Seq<u8>>>;

/// The `PRIVATE KEY` sections of a PEM text, decoded, in the order of the
/// text; `None` where the text is not well-formed.
pub uninterp spec fn pem_pkcs8_keys(pem: Seq<u8>) -> Option<Seq<Seq<u8>>>;

/// The `RSA PRIVATE KEY` sections of a PEM text, decoded, in the order of
/// the text; `None` where the text is not well-formed.
pub uninterp spec fn pem_rsa_keys(pem: Seq<u8>) -> Option<Seq<Seq<u8>>>;

/// Calls `rustls_pemfile::certs` on `pem` and collects what it yields up to
/// its first error. The result depends on the bytes alone and is named
/// [`pem_certificates`]; nothing more is claimed of it.
#[verifier::external_body]
fn read_certificates(pem: &[u8]) -> (r: Result<Vec<Vec<u8>>, std::io::Error>)
    ensures
        match r {
            Ok(found) => pem_certificates(pem@) == Some(blobs(found@)),
            Err(_) => pem_certificates(pem@) is None,
        },
{
    let mut reader: &[u8] = pem;
    rustls_pemfile::certs(&mut reader).map(|item| item.map(|der| der.as_ref().to_vec())).collect()
}

/// Calls `rustls_pemfile::pkcs8_private_keys` on `pem` and collects what it
/// yields up to its first error. The result depends on the bytes alone and is
/// named [`pem_pkcs8_keys`]; nothing more is claimed of it.
#[verifier::external_body]
fn read_pkcs8_keys(pem: &[u8]) -> (r: Result<Vec<Vec<u8>>, std::io::Error>)
    ensures
        match r {
            Ok(found) => pem_pkcs8_keys(pem@) == Some(blobs(found@)),
            Err(_) => pem_pkcs8_keys(pem@) is None,
        },
{
    let mut reader: &[u8] = pem;
    rustls_pemfile::pkcs8_private_keys(&mut reader).map(
        |item| item.map(|der| der.secret_pkcs8_der().to_vec()),
    ).collect()
}

/// Calls `rustls_pemfile::rsa_private_keys` on `pem` and collects what it
/// yields up to its first error. The result depends on the bytes alone and is
/// named [`pem_rsa_keys`]; nothing more is claimed of it.
#[verifier::external_body]
fn read_rsa_keys(pem: &[u8]) -> (r: Result<Vec<Vec<u8>>, std::io::Error>)
    ensures
        match r {
            Ok(found) => pem_rsa_keys(pem@) == Some(blobs(found@)),
            Err(_) => pem_rsa_keys(pem@) is None,
        },
{
    let mut reader: &[u8] = pem;
    rustls_pemfile::rsa_private_keys(&mut reader).map(
        |item| item.map(|der| der.secret_pkcs1_der().to_vec()),
    ).collect()
}

/// Has `rustls` make a server configuration that asks no client for a
/// certificate and presents `chain` with `key`, by `ServerConfig`'s builder
/// with the provider of `ring` and the default protocol versions. Nothing is
/// claimed of the outcome.
#[verifier::external_body]
fn build_server_config(chain: &Vec<Vec<u8>>, key: &PrivateKey) -> (r: Result<
    ServerConfig,
    tokio_rustls::rustls::Error,
>) {
    let certs = chain.iter().map(|der| CertificateDer::from(der.clone())).collect();
    let key_der = match key.encoding {
        KeyEncoding::Pkcs8 => PrivateKeyDer::Pkcs8(key.der.clone().into()),
        KeyEncoding::Pkcs1 => PrivateKeyDer::Pkcs1(key.der.clone().into()),
    };
    ServerConfig::builder_with_provider(Arc::new(default_provider()))
        .with_safe_default_protocol_versions()?
        .with_no_client_auth()
        .with_single_cert(certs, key_der)
}

/// The chain that the decoded certificates make: all of them in their order,
/// at least one.
pub open spec fn chain_choice(found: Seq<Seq<u8>>) -> Result<Seq<Seq<u8>>, TlsError> {
    if found.len() == 0 {
        Err(TlsError::MissingCertificate)
    } else {
        Ok(found)
    }
}

/// The key that the decoded keys give: the first in PKCS#8 where there is
/// one, else the first in PKCS#1.
pub open spec fn key_choice(pkcs8: Seq<Seq<u8>>, rsa: Seq<Seq<u8>>) -> Result<
    PrivateKeyView,
    TlsError,
> {
    if pkcs8.len() > 0 {
        Ok(PrivateKeyView { encoding: KeyEncoding::Pkcs8, der: pkcs8[0] })
    } else if rsa.len() > 0 {
        Ok(PrivateKeyView { encoding: KeyEncoding::Pkcs1, der: rsa[0] })
    } else {
        Err(TlsError::MissingPrivateKey)
    }
}

/// The chain that the text of a certificate file gives.
pub open spec fn chain_of(pem: Seq<u8>) -> Result<Seq<Seq<u8>>, TlsError> {
    match pem_certificates(pem) {
        Some(found) => chain_choice(found),
        None => Err(TlsError::MalformedCertificate),
    }
}

/// The key that the text of a key file gives. The text is looked through for
/// PKCS#8 first, and for PKCS#1 only where that found nothing.
pub open spec fn key_of(pem: Seq<u8>) -> Result<PrivateKeyView, TlsError> {
    match pem_pkcs8_keys(pem) {
        None => Err(TlsError::MalformedKey),
        Some(pkcs8) => if pkcs8.len() > 0 {
            key_choice(pkcs8, Seq::<Seq<u8>>::empty())
        } else {
            match pem_rsa_keys(pem) {
                None => Err(TlsError::MalformedKey),
                Some(rsa) => key_choice(pkcs8, rsa),
            }
        },
    }
}

/// The material that two files give; `None` stands for a file that could not
/// be read. The certificate file is looked at first.
pub open spec fn material_of(certificate_file: Option<Seq<u8>>, key_file: Option<Seq<u8>>) -> Result<
    TlsMaterialView,
    TlsError,
> {
    match certificate_file {
        None => Err(TlsError::UnreadableCertificate),
        Some(certificate_pem) => match chain_of(certificate_pem) {
            Err(e) => Err(e),
            Ok(chain) => match key_file {
                None => Err(TlsError::UnreadableKey),
                Some(key_pem) => match key_of(key_pem) {
                    Err(e) => Err(e),
                    Ok(key) => Ok(TlsMaterialView { certificate_chain: chain, private_key: key }),
                },
            },
        },
    }
}

/// A chain, by view.
pub open spec fn chain_view(r: Result<Vec<Vec<u8>>, TlsError>) -> Result<Seq<Seq<u8>>, TlsError> {
    match r {
        Ok(chain) => Ok(blobs(chain@)),
        Err(e) => Err(e),
    }
}

/// A key, by view.
pub open spec fn key_view(r: Result<PrivateKey, TlsError>) -> Result<PrivateKeyView, TlsError> {
    match r {
        Ok(key) => Ok(key@),
        Err(e) => Err(e),
    }
}

/// TLS material, by view.
pub open spec fn material_view(r: Result<TlsMaterial, TlsError>) -> Result<
    TlsMaterialView,
    TlsError,
> {
    match r {
        Ok(material) => Ok(material@),
        Err(e) => Err(e),
    }
}

/// Makes the chain from the decoded certificates: all of them, in their
/// order. Fails with `MissingCertificate` where there is none.
pub fn certificate_chain(found: Vec<Vec<u8>>) -> (r: Result<Vec<Vec<u8>>, TlsError>)
    ensures
        chain_view(r) == chain_choice(blobs(found@)),
{
    if found.len() == 0 {
        Err(TlsError::MissingCertificate)
    } else {
        Ok(found)
    }
}

/// Selects the private key from the decoded keys: the first in PKCS#8 where
/// there is one, else the first in PKCS#1. Fails with `MissingPrivateKey`
/// where there is neither.
pub fn select_private_key(pkcs8: Vec<Vec<u8>>, rsa: Vec<Vec<u8>>) -> (r: Result<
    PrivateKey,
    TlsError,
>)
    ensures
        key_view(r) == key_choice(blobs(pkcs8@), blobs(rsa@)),
{
    if pkcs8.len() > 0 {
        let mut keys = pkcs8;
        let der = keys.remove(0);
        Ok(PrivateKey { encoding: KeyEncoding::Pkcs8, der })
    } else if rsa.len() > 0 {
        let mut keys = rsa;
        let der = keys.remove(0);
        Ok(PrivateKey { encoding: KeyEncoding::Pkcs1, der })
    } else {
        Err(TlsError::MissingPrivateKey)
    }
}

/// Reads the certificate chain from the text of a certificate file. Fails
/// with `MalformedCertificate` where the text is not well-formed PEM and with
/// `MissingCertificate` where it holds no certificate.
pub fn load_certificates(pem: &[u8]) -> (r: Result<Vec<Vec<u8>>, TlsError>)
    ensures
        chain_view(r) == chain_of(pem@),
{
    match read_certificates(pem) {
        Ok(found) => certificate_chain(found),
        Err(_) => Err(TlsError::MalformedCertificate),
    }
}

/// Reads the private key from the text of a key file. Fails with
/// `MalformedKey` where the text is not well-formed PEM and with
/// `MissingPrivateKey` where it holds no key in PKCS#8 or PKCS#1.
pub fn load_private_key(pem: &[u8]) -> (r: Result<PrivateKey, TlsError>)
    ensures
        key_view(r) == key_of(pem@),
{
    match read_pkcs8_keys(pem) {
        Err(_) => Err(TlsError::MalformedKey),
        Ok(pkcs8) => {
            if pkcs8.len() > 0 {
                let none: Vec<Vec<u8>> = Vec::new();
                assert(blobs(none@) =~= Seq::<Seq<u8>>::empty());
                select_private_key(pkcs8, none)
            } else {
                match read_rsa_keys(pem) {
                    Err(_) => Err(TlsError::MalformedKey),
                    Ok(rsa) => select_private_key(pkcs8, rsa),
                }
            }
        },
    }
}

/// Loads the TLS material from the content of the certificate file and of
/// the key file. Either all of it is loaded or none: the first failure is
/// returned, the certificate file being looked at first.
pub fn load_material(certificate_file: &Option<Vec<u8>>, key_file: &Option<Vec<u8>>) -> (r: Result<
    TlsMaterial,
    TlsError,
>)
    ensures
        material_view(r) == material_of(
            crate::config::bytes_of(*certificate_file),
            crate::config::bytes_of(*key_file),
        ),
        r matches Ok(material) ==> material.certificate_chain.len() > 0,
{
    let certificate_pem = match certificate_file {
        Some(content) => content,
        None => {
            return Err(TlsError::UnreadableCertificate);
        },
    };
    let chain = match load_certificates(certificate_pem.as_slice()) {
        Ok(chain) => chain,
        Err(e) => {
            return Err(e);
        },
    };
    let key_pem = match key_file {
        Some(content) => content,
        None => {
            return Err(TlsError::UnreadableKey);
        },
    };
    match load_private_key(key_pem.as_slice()) {
        Ok(key) => Ok(TlsMaterial { certificate_chain: chain, private_key: key }),
        Err(e) => Err(e),
    }
}

/// Whether `r` is what loading gives where the files give `planned`: the
/// failure that the files give; else a context of the material that they
/// give, or `RejectedMaterial` where `rustls` does not take it.
pub open spec fn context_meets(
    r: Result<TlsServerContext, TlsError>,
    planned: Result<TlsMaterialView, TlsError>,
) -> bool {
    match planned {
        Err(e) => r == Err::<TlsServerContext, TlsError>(e),
        Ok(material) => match r {
            Ok(context) => context@ == material,
            Err(e) => e == TlsError::RejectedMaterial,
        },
    }
}

impl TlsServerContext {
    /// Makes the server's context from its material. Fails with
    /// `RejectedMaterial` where `rustls` does not take the material: the key
    /// cannot be used, or is not the key of the first certificate.
    pub fn build(material: TlsMaterial) -> (r: Result<TlsServerContext, TlsError>)
        ensures
            match r {
                Ok(context) => context.material == material,
                Err(e) => e == TlsError::RejectedMaterial,
            },
    {
        match build_server_config(&material.certificate_chain, &material.private_key) {
            Ok(config) => Ok(TlsServerContext { material, config }),
            Err(_) => Err(TlsError::RejectedMaterial),
        }
    }
}

/// Loads the server's TLS context from the content of the certificate file
/// and of the key file: the material first, then the context from it.
pub fn load_tls(certificate_file: &Option<Vec<u8>>, key_file: &Option<Vec<u8>>) -> (r: Result<
    TlsServerContext,
    TlsError,
>)
    ensures
        context_meets(
            r,
            material_of(
                crate::config::bytes_of(*certificate_file),
                crate::config::bytes_of(*key_file),
            ),
        ),
{
    match load_material(certificate_file, key_file) {
        Ok(material) => TlsServerContext::build(material),
        Err(e) => Err(e),
    }
}

/// The words that tell an operator what is wrong with the TLS files.
pub open spec fn tls_error_text(e: TlsError) -> Seq<char> {
    match e {
        TlsError::UnreadableCertificate => "the certificate file cannot be read"@,
        TlsError::MalformedCertificate => "the certificate file is not well-formed PEM"@,
        TlsError::MissingCertificate => "the certificate file holds no certificate"@,
        TlsError::UnreadableKey => "the key file cannot be read"@,
        TlsError::MalformedKey => "the key file is not well-formed PEM"@,
        TlsError::MissingPrivateKey => "the key file holds no private key in PKCS#8 or PKCS#1"@,
        TlsError::RejectedMaterial => "the private key cannot be used with the certificate"@,
    }
}

impl TlsError {
    /// Says in words what is wrong.
    pub fn message(&self) -> (r: String)
        ensures
            r@ == tls_error_text(*self),
    {
        let text = match self {
            TlsError::UnreadableCertificate => "the certificate file cannot be read",
            TlsError::MalformedCertificate => "the certificate file is not well-formed PEM",
            TlsError::MissingCertificate => "the certificate file holds no certificate",
            TlsError::UnreadableKey => "the key file cannot be read",
            TlsError::MalformedKey => "the key file is not well-formed PEM",
            TlsError::MissingPrivateKey => "the key file holds no private key in PKCS#8 or PKCS#1",
            TlsError::RejectedMaterial => "the private key cannot be used with the certificate",
        };
        String::from_str(text)
    }
}

} // verus!
