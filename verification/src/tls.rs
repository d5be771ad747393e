//! TLS material read from PEM files: the certificate chain and the private key.
use vstd::prelude::*;
use rustls::pki_types::PrivateKeyDer;

verus! {

/// The encoding of a private key.
#[derive(Clone, Copy, Debug, PartialEq, Eq, Structural)]
pub enum KeyKind {
    /// PKCS#1 (RSA).
    Pkcs1,
    /// SEC1 (elliptic curve).
    Sec1,
    /// PKCS#8.
    Pkcs8,
}

/// A private key: its encoding and its DER bytes.
pub struct TlsKey {
    pub kind: KeyKind,
    pub der: Vec<u8>,
}

/// What `rustls_pemfile::certs` yields for a PEM text: the DER bytes of each
/// certificate section in order, or the text of the first error.
pub uninterp spec fn pem_certs(pem: Seq<u8>) -> Result<Seq<Seq<u8>>, Seq<char>>;

/// What `rustls_pemfile::private_key` yields for a PEM text: the first private
/// key section (its encoding and DER bytes), no key, or the text of the error.
pub uninterp spec fn pem_key(pem: Seq<u8>) -> Result<Option<(KeyKind, Seq<u8>)>, Seq<char>>;

/// Calls `rustls_pemfile::certs` on the bytes and collects the certificates,
/// stopping at the first error as `collect` into a `Result` does. The result
/// is a function of the bytes alone; it is named [`pem_certs`].
#[verifier::external_body]
fn read_pem_certs(pem: &[u8]) -> (r: Result<Vec<Vec<u8>>, String>)
    ensures
        match r {
            Ok(v) => pem_certs(pem@) == Ok::<Seq<Seq<u8>>, Seq<char>>(v.deep_view()),
            Err(m) => pem_certs(pem@) == Err::<Seq<Seq<u8>>, Seq<char>>(m@),
        },
{
    let mut rd = pem;
    let mut out = Vec::new();
    for item in rustls_pemfile::certs(&mut rd) {
        match item {
            Ok(cert) => out.push(cert.as_ref().to_vec()),
            Err(e) => return Err(e.to_string()),
        }
    }
    Ok(out)
}

/// Calls `rustls_pemfile::private_key` on the bytes. The result is a function
/// of the bytes alone; it is named [`pem_key`]. That function yields only
/// PKCS#1, SEC1 and PKCS#8 keys.
#[verifier::external_body]
fn read_pem_key(pem: &[u8]) -> (r: Result<Option<TlsKey>, String>)
    ensures
        match r {
            Ok(Some(k)) => pem_key(pem@) == Ok::<Option<(KeyKind, Seq<u8>)>, Seq<char>>(Some((k.kind, k.der@))),
            Ok(None) => pem_key(pem@) == Ok::<Option<(KeyKind, Seq<u8>)>, Seq<char>>(None),
            Err(m) => pem_key(pem@) == Err::<Option<(KeyKind, Seq<u8>)>, Seq<char>>(m@),
        },
{
    let mut rd = pem;
    match rustls_pemfile::private_key(&mut rd) {
        Ok(Some(key)) => {
            let kind = if matches!(key, PrivateKeyDer::Pkcs1(_)) {
                KeyKind::Pkcs1
            } else if matches!(key, PrivateKeyDer::Sec1(_)) {
                KeyKind::Sec1
            } else {
                KeyKind::Pkcs8
            };
            Ok(Some(TlsKey { kind, der: key.secret_der().to_vec() }))
        },
        Ok(None) => Ok(None),
        Err(e) => Err(e.to_string()),
    }
}

/// Why TLS material could not be read.
#[derive(Debug)]
pub enum TlsSetupError {
    /// The certificate file is not valid PEM (the parser's message).
    Certificates(String),
    /// The key file is not valid PEM (the parser's message).
    Key(String),
    /// The key file holds no private key.
    KeyNotFound,
}

impl TlsSetupError {
    /// Human-readable description of the error.
    pub fn message(&self) -> (t: String)
        ensures
            *self matches TlsSetupError::Certificates(m) ==> t@ == m@,
            *self matches TlsSetupError::Key(m) ==> t@ == m@,
            *self is KeyNotFound ==> t@ == "private key not found"@,
    {
        match self {
            TlsSetupError::Certificates(m) => m.clone(),
            TlsSetupError::Key(m) => m.clone(),
            TlsSetupError::KeyNotFound => String::from_str("private key not found"),
        }
    }
}

/// What a certificate read comes to: the certificates, or the parser's
/// message as a certificate error.
pub fn certificates_outcome(read: Result<Vec<Vec<u8>>, String>) -> (r: Result<Vec<Vec<u8>>, TlsSetupError>)
    ensures
        read matches Ok(v) ==> (r matches Ok(w) && w.deep_view() == v.deep_view()),
        read matches Err(m) ==> (r matches Err(TlsSetupError::Certificates(t)) && t@ == m@),
{
    match read {
        Ok(v) => Ok(v),
        Err(m) => Err(TlsSetupError::Certificates(m)),
    }
}

/// What a key read comes to: the key, `KeyNotFound` when the text holds none,
/// or the parser's message as a key error.
pub fn key_outcome(read: Result<Option<TlsKey>, String>) -> (r: Result<TlsKey, TlsSetupError>)
    ensures
        read matches Ok(Some(k)) ==> (r matches Ok(k2) && k2.kind == k.kind && k2.der@ == k.der@),
        read matches Ok(None) ==> r matches Err(TlsSetupError::KeyNotFound),
        read matches Err(m) ==> (r matches Err(TlsSetupError::Key(t)) && t@ == m@),
{
    match read {
        Ok(Some(k)) => Ok(k),
        Ok(None) => Err(TlsSetupError::KeyNotFound),
        Err(m) => Err(TlsSetupError::Key(m)),
    }
}

/// Reads the certificate chain from the text of a PEM file: every certificate
/// section in order, or the parser's error.
pub fn parse_certificates(pem: &[u8]) -> (r: Result<Vec<Vec<u8>>, TlsSetupError>)
    ensures
        match pem_certs(pem@) {
            Ok(certs) => r matches Ok(v) && v.deep_view() == certs,
            Err(m) => r matches Err(TlsSetupError::Certificates(t)) && t@ == m,
        },
{
    certificates_outcome(read_pem_certs(pem))
}

/// Reads the private key from the text of a PEM file: its first key section,
/// `KeyNotFound` when there is none, or the parser's error.
pub fn parse_private_key(pem: &[u8]) -> (r: Result<TlsKey, TlsSetupError>)
    ensures
        match pem_key(pem@) {
            Ok(Some((kind, der))) => r matches Ok(k) && k.kind == kind && k.der@ == der,
            Ok(None) => r matches Err(TlsSetupError::KeyNotFound),
            Err(m) => r matches Err(TlsSetupError::Key(t)) && t@ == m,
        },
{
    key_outcome(read_pem_key(pem))
}

} // verus!
