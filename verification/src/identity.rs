//! The TLS identity as the core sees it: certificate and key material as
//! plain bytes, with the certificate fingerprint the advertisement carries.

use vstd::prelude::*;
use sha2::Digest;

verus! {

/// The SHA-256 digest of a byte sequence, named here and computed only by
/// the outside hasher.
pub uninterp spec fn sha256_of(data: Seq<u8>) -> Seq<u8>;

/// Relies on sha2's `Sha256`: the digest is 32 bytes and a function of the
/// input bytes alone.
#[verifier::external_body]
fn sha256(data: &Vec<u8>) -> (r: [u8; 32])
    ensures
        r@ == sha256_of(data@),
{
    sha2::Sha256::digest(data.as_slice()).into()
}

/// The certificates a PEM byte stream holds, each in DER bytes, named here
/// and computed only by the outside parser; absent when any section cannot
/// be read.
pub uninterp spec fn pem_certs_of(pem: Seq<u8>) -> Option<Seq<Seq<u8>>>;

/// Relies on rustls-pemfile's `certs`: which certificates a PEM byte stream
/// holds depends on the bytes alone; a read error on any section fails the
/// whole read.
#[verifier::external_body]
fn parse_pem_certs(pem: &Vec<u8>) -> (r: Option<Vec<Vec<u8>>>)
    ensures
        match r {
            Some(cs) => pem_certs_of(pem@) == Some(cs.deep_view()),
            None => pem_certs_of(pem@) is None,
        },
{
    rustls_pemfile::certs(&mut pem.as_slice())
        .map(|c| c.map(|der| der.as_ref().to_vec()))
        .collect::<Result<Vec<_>, _>>()
        .ok()
}

/// The PKCS#8 private keys a PEM byte stream holds, each in DER bytes,
/// named here and computed only by the outside parser; absent when any
/// section cannot be read.
pub uninterp spec fn pem_pkcs8_keys_of(pem: Seq<u8>) -> Option<Seq<Seq<u8>>>;

/// Relies on rustls-pemfile's `pkcs8_private_keys`: which keys a PEM byte
/// stream holds depends on the bytes alone; a read error on any section
/// fails the whole read.
#[verifier::external_body]
fn parse_pem_pkcs8_keys(pem: &Vec<u8>) -> (r: Option<Vec<Vec<u8>>>)
    ensures
        match r {
            Some(ks) => pem_pkcs8_keys_of(pem@) == Some(ks.deep_view()),
            None => pem_pkcs8_keys_of(pem@) is None,
        },
{
    rustls_pemfile::pkcs8_private_keys(&mut pem.as_slice())
        .map(|k| k.map(|der| der.secret_pkcs8_der().to_vec()))
        .collect::<Result<Vec<_>, _>>()
        .ok()
}

/// Why an identity could not be put together.
#[derive(Clone, Copy, Debug, PartialEq, Eq, Structural)]
pub enum IdentityError {
    /// No certificate to fingerprint.
    NoCertificate,
    /// The certificate PEM could not be read.
    UnreadableCertificates,
    /// The key PEM could not be read.
    UnreadableKeys,
    /// The key PEM held no private key.
    NoPrivateKey,
}

/// A TLS identity: the certificate chain and private key in DER bytes, and
/// the SHA-256 fingerprint of the leading certificate.
#[derive(Debug)]
pub struct Identity {
    /// The certificate chain, leading certificate first, each in DER bytes.
    pub certs: Vec<Vec<u8>>,
    /// The private key in DER bytes.
    pub key: Vec<u8>,
    /// SHA-256 fingerprint of the leading certificate.
    pub certs_hash: [u8; 32],
}

/// An identity is well formed when its fingerprint is the digest of its
/// leading certificate.
pub open spec fn identity_wf(id: Identity) -> bool {
    &&& id.certs@.len() > 0
    &&& id.certs_hash@ == sha256_of(id.certs@[0]@)
}

/// Builds the identity out of the two PEM files' bytes: the certificates
/// are parsed, the last of the parsed keys is taken, and the leading
/// certificate is fingerprinted — with an exact error for each way the
/// material can fall short, in that order.
pub fn identity_from_pem(cert_pem: &Vec<u8>, key_pem: &Vec<u8>) -> (r: Result<
    Identity,
    IdentityError,
>)
    ensures
        match pem_certs_of(cert_pem@) {
            None => r == Result::<Identity, IdentityError>::Err(
                IdentityError::UnreadableCertificates,
            ),
            Some(cs) => match pem_pkcs8_keys_of(key_pem@) {
                None => r == Result::<Identity, IdentityError>::Err(
                    IdentityError::UnreadableKeys,
                ),
                Some(ks) => {
                    if ks.len() == 0 {
                        r == Result::<Identity, IdentityError>::Err(IdentityError::NoPrivateKey)
                    } else if cs.len() == 0 {
                        r == Result::<Identity, IdentityError>::Err(IdentityError::NoCertificate)
                    } else {
                        match r {
                            Ok(id) => {
                                &&& identity_wf(id)
                                &&& id.certs.deep_view() == cs
                                &&& id.key@ == ks.last()
                            },
                            Err(_) => false,
                        }
                    }
                },
            },
        },
{
    let certs = match parse_pem_certs(cert_pem) {
        Some(cs) => cs,
        None => {
            return Err(IdentityError::UnreadableCertificates);
        },
    };
    let mut keys = match parse_pem_pkcs8_keys(key_pem) {
        Some(ks) => ks,
        None => {
            return Err(IdentityError::UnreadableKeys);
        },
    };
    let key = match keys.pop() {
        Some(k) => k,
        None => {
            return Err(IdentityError::NoPrivateKey);
        },
    };
    Identity::new(certs, key)
}

impl Identity {
    /// Builds an identity from certificate and key bytes, fingerprinting
    /// the leading certificate; with no certificate there is nothing to
    /// fingerprint and the input is refused.
    pub fn new(certs: Vec<Vec<u8>>, key: Vec<u8>) -> (r: Result<Identity, IdentityError>)
        ensures
            certs@.len() == 0 ==> r == Result::<Identity, IdentityError>::Err(
                IdentityError::NoCertificate,
            ),
            certs@.len() > 0 ==> match r {
                Ok(id) => {
                    &&& identity_wf(id)
                    &&& id.certs == certs
                    &&& id.key == key
                },
                Err(_) => false,
            },
    {
        let identity = Identity { certs, key, certs_hash: [0u8; 32] };
        match identity.fingerprint_sha256() {
            Ok(h) => {
                Ok(Identity { certs: identity.certs, key: identity.key, certs_hash: h })
            },
            Err(e) => Err(e),
        }
    }

    /// The SHA-256 fingerprint of the leading certificate, or the error
    /// when there is none.
    pub fn fingerprint_sha256(&self) -> (r: Result<[u8; 32], IdentityError>)
        ensures
            self.certs@.len() == 0 ==> r == Result::<[u8; 32], IdentityError>::Err(
                IdentityError::NoCertificate,
            ),
            self.certs@.len() > 0 ==> match r {
                Ok(h) => h@ == sha256_of(self.certs@[0]@),
                Err(_) => false,
            },
    {
        if self.certs.len() == 0 {
            return Err(IdentityError::NoCertificate);
        }
        let cert = &self.certs[0];
        Ok(sha256(cert))
    }
}

} // verus!
