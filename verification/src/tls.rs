//! TLS credential selection: picking the certificate chain and the first
//! RSA private key out of PEM material, and the ALPN protocol list, which
//! advertises `h2` only when HTTP/2 is enabled. Failure anywhere yields no
//! credentials, and the server then falls back to serving plaintext rather
//! than refusing to start.

use vstd::prelude::*;

verus! {

/// The DER certificates of a PEM file in the eyes of the PEM reader, or
/// nothing when the file cannot be read as PEM; the meaning of the name is
/// fixed by the contract of `read_pem_certificates` below.
pub uninterp spec fn pem_certificates_of(pem: Seq<u8>) -> Option<Seq<Seq<u8>>>;

/// The DER RSA private keys of a PEM file in the eyes of the PEM reader, or
/// nothing when the file cannot be read as PEM; the meaning of the name is
/// fixed by the contract of `read_pem_rsa_keys` below.
pub uninterp spec fn pem_rsa_keys_of(pem: Seq<u8>) -> Option<Seq<Seq<u8>>>;

/// Relies on `rustls_pemfile::certs`: collects the DER contents of every
/// X.509 certificate section, in order; the result depends on the bytes
/// alone.
#[verifier::external_body]
fn read_pem_certificates(pem: &Vec<u8>) -> (r: Option<Vec<Vec<u8>>>)
    ensures
        match r {
            Some(certificates) => pem_certificates_of(pem@) == Some(certificates.deep_view()),
            None => pem_certificates_of(pem@) is None,
        },
{
    rustls_pemfile::certs(&mut &pem[..]).ok()
}

/// Relies on `rustls_pemfile::rsa_private_keys`: collects the DER contents
/// of every RSA private key section, in order; the result depends on the
/// bytes alone.
#[verifier::external_body]
fn read_pem_rsa_keys(pem: &Vec<u8>) -> (r: Option<Vec<Vec<u8>>>)
    ensures
        match r {
            Some(keys) => pem_rsa_keys_of(pem@) == Some(keys.deep_view()),
            None => pem_rsa_keys_of(pem@) is None,
        },
{
    rustls_pemfile::rsa_private_keys(&mut &pem[..]).ok()
}

#[derive(Debug)]
pub enum TlsCredentialsError {
    /// The certificate file could not be read as PEM.
    CertificateUnreadable,
    /// The certificate file holds no certificate.
    CertificateNotFound,
    /// The private key file could not be read as PEM.
    PrivateKeyUnreadable,
    /// The private key file holds no RSA private key.
    PrivateKeyNotFound,
}

/// The advertised ALPN protocols: `h2`, `http/1.1`, `http/1.0`, with `h2`
/// removed when HTTP/2 is disabled.
pub open spec fn alpn_protocols_of(is_http2_enabled: bool) -> Seq<Seq<char>> {
    if is_http2_enabled {
        seq!["h2"@, "http/1.1"@, "http/1.0"@]
    } else {
        seq!["http/1.1"@, "http/1.0"@]
    }
}

/// Build the ALPN protocol list to advertise.
pub fn alpn_protocols(is_http2_enabled: bool) -> (r: Vec<String>)
    ensures
        r.deep_view() == alpn_protocols_of(is_http2_enabled),
{
    let mut protocols: Vec<String> = Vec::new();
    if is_http2_enabled {
        protocols.push(String::from_str("h2"));
    }
    protocols.push(String::from_str("http/1.1"));
    protocols.push(String::from_str("http/1.0"));
    proof {
        assert(protocols.deep_view() =~= alpn_protocols_of(is_http2_enabled));
    }
    protocols
}

/// Everything the transport layer needs to serve TLS: the DER certificate
/// chain, the DER private key, and the ALPN protocols to advertise.
pub struct ServerCredentials {
    pub certificate_chain: Vec<Vec<u8>>,
    pub private_key: Vec<u8>,
    pub alpn_protocols: Vec<String>,
}

/// The PEM material yields usable credentials: a readable, non-empty
/// certificate chain and at least one readable RSA private key.
pub open spec fn credentials_ok(cert_pem: Seq<u8>, key_pem: Seq<u8>) -> bool {
    &&& pem_certificates_of(cert_pem) matches Some(certificates) && certificates.len() > 0
    &&& pem_rsa_keys_of(key_pem) matches Some(keys) && keys.len() > 0
}

/// Select the server credentials out of PEM certificate and key material:
/// the whole certificate chain, the first private key when several are
/// present, and the ALPN list for the HTTP/2 setting. Fails with
/// `CertificateNotFound` on an empty chain and `PrivateKeyNotFound` when no
/// RSA key is present.
pub fn load_server_credentials(
    cert_pem: &Vec<u8>,
    key_pem: &Vec<u8>,
    is_http2_enabled: bool,
) -> (r: Result<ServerCredentials, TlsCredentialsError>)
    ensures
        (r is Ok) == credentials_ok(cert_pem@, key_pem@),
        match r {
            Ok(c) => {
                &&& pem_certificates_of(cert_pem@) == Some(c.certificate_chain.deep_view())
                &&& (match pem_rsa_keys_of(key_pem@) {
                    Some(keys) => c.private_key@ == keys[0],
                    None => false,
                })
                &&& c.alpn_protocols.deep_view() == alpn_protocols_of(is_http2_enabled)
            },
            Err(TlsCredentialsError::CertificateUnreadable) => pem_certificates_of(
                cert_pem@,
            ) is None,
            Err(TlsCredentialsError::CertificateNotFound) => pem_certificates_of(cert_pem@)
                == Some(Seq::<Seq<u8>>::empty()),
            Err(TlsCredentialsError::PrivateKeyUnreadable) => pem_rsa_keys_of(key_pem@) is None,
            Err(TlsCredentialsError::PrivateKeyNotFound) => pem_rsa_keys_of(key_pem@) == Some(
                Seq::<Seq<u8>>::empty(),
            ),
        },
{
    let certificates_option = read_pem_certificates(cert_pem);
    let certificates = match certificates_option {
        Some(certificates) => certificates,
        None => {
            return Err(TlsCredentialsError::CertificateUnreadable);
        },
    };
    if certificates.len() == 0 {
        proof {
            assert(certificates.deep_view() =~= Seq::<Seq<u8>>::empty());
        }
        return Err(TlsCredentialsError::CertificateNotFound);
    }
    let keys_option = read_pem_rsa_keys(key_pem);
    let keys = match keys_option {
        Some(keys) => keys,
        None => {
            return Err(TlsCredentialsError::PrivateKeyUnreadable);
        },
    };
    if keys.len() == 0 {
        proof {
            assert(keys.deep_view() =~= Seq::<Seq<u8>>::empty());
        }
        return Err(TlsCredentialsError::PrivateKeyNotFound);
    }
    let private_key = keys[0].clone();
    proof {
        assert(keys.deep_view()[0] == keys@[0]@);
        assert(certificates.deep_view().len() == certificates@.len());
        assert(keys.deep_view().len() == keys@.len());
    }
    Ok(
        ServerCredentials {
            certificate_chain: certificates,
            private_key,
            alpn_protocols: alpn_protocols(is_http2_enabled),
        },
    )
}

/// Decide the transport for a run: TLS only when it is enabled, both PEM
/// files could be read, and they yield usable credentials; in every other
/// case no credentials come back and the server serves plaintext. The PEM
/// arguments are the files' bytes, or nothing for a file that could not be
/// read.
pub fn plan_server_tls(
    is_tls_enabled: bool,
    cert_pem: Option<Vec<u8>>,
    key_pem: Option<Vec<u8>>,
    is_http2_enabled: bool,
) -> (r: Option<ServerCredentials>)
    ensures
        (r is Some) == (is_tls_enabled && (match (cert_pem, key_pem) {
            (Some(c), Some(k)) => credentials_ok(c@, k@),
            _ => false,
        })),
        match r {
            Some(credentials) => (match (cert_pem, key_pem) {
                (Some(c), Some(k)) => {
                    &&& pem_certificates_of(c@) == Some(credentials.certificate_chain.deep_view())
                    &&& (match pem_rsa_keys_of(k@) {
                        Some(keys) => credentials.private_key@ == keys[0],
                        None => false,
                    })
                    &&& credentials.alpn_protocols.deep_view() == alpn_protocols_of(
                        is_http2_enabled,
                    )
                },
                _ => false,
            }),
            None => true,
        },
{
    if !is_tls_enabled {
        return None;
    }
    let cert_bytes = match cert_pem {
        Some(bytes) => bytes,
        None => {
            return None;
        },
    };
    let key_bytes = match key_pem {
        Some(bytes) => bytes,
        None => {
            return None;
        },
    };
    let loaded = load_server_credentials(&cert_bytes, &key_bytes, is_http2_enabled);
    match loaded {
        Ok(credentials) => Some(credentials),
        Err(_) => None,
    }
}

} // verus!
