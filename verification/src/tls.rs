//! TLS certificate bookkeeping: per-domain certificates chosen by SNI with a
//! default fallback, PEM decoding, self-signed generation and ACME renewal
//! timing.
use vstd::prelude::*;

use vstd::string::StringSliceAdditionalSpecFns;

use crate::namemap::NameMap;
use crate::paths::{join, join_path};
use crate::text::{concat2, push_str, views};

verus! {

/// Per-domain TLS certificates, resolved by SNI, falling back to a default
/// certificate when the client sent no SNI or one without a certificate.
/// `K` is the loaded certificate-and-key type of the TLS stack.
pub struct CertStore<K> {
    by_domain: NameMap<K>,
    default: Option<K>,
}

impl<K> CertStore<K> {
    pub open spec fn wf(&self) -> bool {
        self.domains().wf()
    }

    pub closed spec fn domains(&self) -> NameMap<K> {
        self.by_domain
    }

    /// The certificates by domain.
    pub open spec fn certs(&self) -> Map<Seq<char>, K> {
        self.domains().map()
    }

    /// The fallback certificate.
    pub closed spec fn fallback(&self) -> Option<K> {
        self.default
    }

    pub fn new() -> (r: CertStore<K>)
        ensures
            r.wf(),
            r.certs() == Map::<Seq<char>, K>::empty(),
            r.fallback() is None,
    {
        CertStore { by_domain: NameMap::new(), default: None }
    }

    /// Installs the certificate for exact-match SNI lookups of `domain`.
    pub fn insert(&mut self, domain: &str, key: K)
        requires
            old(self).wf(),
        ensures
            final(self).wf(),
            final(self).certs() == old(self).certs().insert(domain@, key),
            final(self).fallback() == old(self).fallback(),
    {
        self.by_domain.insert(domain.to_string(), key);
    }

    /// Installs the fallback certificate.
    pub fn set_default(&mut self, key: K)
        requires
            old(self).wf(),
        ensures
            final(self).wf(),
            final(self).certs() == old(self).certs(),
            final(self).fallback() == Some(key),
    {
        self.default = Some(key);
    }

    /// Whether `domain` has its own certificate.
    pub fn has(&self, domain: &str) -> (r: bool)
        requires
            self.wf(),
        ensures
            r == self.certs().dom().contains(domain@),
    {
        self.by_domain.contains(domain)
    }

    /// The certificate for a TLS handshake with server name `sni`.
    pub fn resolve(&self, sni: Option<&str>) -> (r: Option<&K>)
        requires
            self.wf(),
        ensures
            r == match sni {
                Some(s) => if self.certs().dom().contains(s@) {
                    Some(&self.certs()[s@])
                } else {
                    match self.fallback() {
                        Some(k) => Some(&k),
                        None => None,
                    }
                },
                None => match self.fallback() {
                    Some(k) => Some(&k),
                    None => None,
                },
            },
    {
        if let Some(s) = sni {
            if let Some(k) = self.by_domain.get(s) {
                return Some(k);
            }
        }
        match &self.default {
            Some(k) => Some(k),
            None => None,
        }
    }
}

/// The format of a private key's DER encoding.
#[derive(Debug, Clone, Copy, PartialEq, Eq, Structural)]
pub enum KeyFormat {
    Pkcs1,
    Sec1,
    Pkcs8,
}

/// A private key: its format and DER bytes.
#[derive(Debug)]
pub struct PrivateKey {
    pub format: KeyFormat,
    pub der: Vec<u8>,
}

/// Why certificate material could not be used.
#[derive(Debug, Clone, PartialEq, Eq)]
pub enum TlsError {
    /// The certificate PEM could not be decoded.
    CertificatePem,
    /// The private key PEM could not be decoded.
    KeyPem,
    /// The private key PEM holds no private key.
    NoPrivateKey,
    /// Generating a self-signed certificate failed.
    Generation,
}

/// The DER certificates of the `CERTIFICATE` sections of a PEM text, in
/// order, or none when a section cannot be decoded: what
/// `rustls_pemfile::certs` yields.
pub uninterp spec fn pem_certificates(pem: Seq<u8>) -> Option<Seq<Seq<u8>>>;

/// The first private key section of a PEM text (`Some(None)` when it has
/// none), or none when a section cannot be decoded or holds a key of
/// another kind: what `rustls_pemfile::private_key` returns.
pub uninterp spec fn pem_private_key(pem: Seq<u8>) -> Option<Option<(KeyFormat, Seq<u8>)>>;

pub open spec fn byte_views(v: Seq<Vec<u8>>) -> Seq<Seq<u8>> {
    v.map_values(|x: Vec<u8>| x@)
}

/// Calls `rustls_pemfile::certs` on the PEM bytes and collects the DER of
/// each certificate; an I/O error while decoding yields `None`. The result
/// is named by `pem_certificates`, a function of the bytes alone.
#[verifier::external_body]
fn read_pem_certificates(pem: &[u8]) -> (r: Option<Vec<Vec<u8>>>)
    ensures
        match r {
            Some(v) => pem_certificates(pem@) == Some(byte_views(v@)),
            None => pem_certificates(pem@) is None,
        },
{
    let mut rd: &[u8] = pem;
    rustls_pemfile::certs(&mut rd).map(|c| c.map(|der| der.to_vec())).collect::<Result<Vec<_>, _>>().ok()
}

/// Calls `rustls_pemfile::private_key` on the PEM bytes and converts the
/// key it finds to its format and DER bytes; an I/O error (or a key of a
/// kind other than PKCS#1, SEC1 and PKCS#8) yields `None`. The result is
/// named by `pem_private_key`, a function of the bytes alone.
#[verifier::external_body]
fn read_pem_private_key(pem: &[u8]) -> (r: Option<Option<(KeyFormat, Vec<u8>)>>)
    ensures
        match r {
            Some(Some(k)) => pem_private_key(pem@) == Some(Some((k.0, k.1@))),
            Some(None) => pem_private_key(pem@) == Some(None::<(KeyFormat, Seq<u8>)>),
            None => pem_private_key(pem@) is None,
        },
{
    let mut rd: &[u8] = pem;
    match rustls_pemfile::private_key(&mut rd) {
        Ok(Some(rustls::pki_types::PrivateKeyDer::Pkcs1(k))) => Some(Some((KeyFormat::Pkcs1, k.secret_pkcs1_der().to_vec()))),
        Ok(Some(rustls::pki_types::PrivateKeyDer::Sec1(k))) => Some(Some((KeyFormat::Sec1, k.secret_sec1_der().to_vec()))),
        Ok(Some(rustls::pki_types::PrivateKeyDer::Pkcs8(k))) => Some(Some((KeyFormat::Pkcs8, k.secret_pkcs8_der().to_vec()))),
        Ok(Some(_)) => None,
        Ok(None) => Some(None),
        Err(_) => None,
    }
}

/// The DER certificates of a PEM certificate chain.
pub fn parse_cert_pem(pem: &str) -> (r: Result<Vec<Vec<u8>>, TlsError>)
    ensures
        match r {
            Ok(v) => pem_certificates(pem.spec_bytes()) == Some(byte_views(v@)),
            Err(e) => pem_certificates(pem.spec_bytes()) is None && e == TlsError::CertificatePem,
        },
{
    match read_pem_certificates(pem.as_bytes()) {
        Some(v) => Ok(v),
        None => Err(TlsError::CertificatePem),
    }
}

/// The first private key of a PEM text.
pub fn parse_key_pem(pem: &str) -> (r: Result<PrivateKey, TlsError>)
    ensures
        match r {
            Ok(k) => pem_private_key(pem.spec_bytes()) == Some(Some((k.format, k.der@))),
            Err(e) => match pem_private_key(pem.spec_bytes()) {
                None => e == TlsError::KeyPem,
                Some(None) => e == TlsError::NoPrivateKey,
                Some(Some(_)) => false,
            },
        },
{
    match read_pem_private_key(pem.as_bytes()) {
        Some(Some((format, der))) => Ok(PrivateKey { format, der }),
        Some(None) => Err(TlsError::NoPrivateKey),
        None => Err(TlsError::KeyPem),
    }
}

/// A certificate PEM with exactly one certificate section.
pub open spec fn one_certificate(pem: Seq<char>) -> bool {
    pem_certificates(vstd::utf8::encode_utf8(pem)) matches Some(v) && v.len() == 1
}

/// A key PEM whose first key is a PKCS#8 key.
pub open spec fn pkcs8_key(pem: Seq<char>) -> bool {
    pem_private_key(vstd::utf8::encode_utf8(pem)) matches Some(Some(k)) && k.0 == KeyFormat::Pkcs8
}

/// The certificate in `pem` was made for exactly `names`, in order: its
/// subject alternative names are these, each a DNS name or, where the text
/// is an IP address, that address.
pub uninterp spec fn certified_for(pem: Seq<char>, names: Seq<Seq<char>>) -> bool;

/// Calls `rcgen::generate_simple_self_signed` with the names and returns
/// the certificate's PEM (`Certificate::pem`, one `CERTIFICATE` section)
/// and its key's PEM (`KeyPair::serialize_pem`, one `PRIVATE KEY` section,
/// which is PKCS#8). The contract claims that these sections decode as
/// such and that the certificate is made for the given names (rcgen's
/// `CertificateParams::new` turns each into a subject alternative name);
/// the key and certificate bytes are random, and nothing is claimed of them
/// or of when generation fails.
#[verifier::external_body]
fn generate_self_signed(names: Vec<String>) -> (r: Result<(String, String), TlsError>)
    ensures
        r matches Ok(p) ==> one_certificate(p.0@) && pkcs8_key(p.1@) && certified_for(p.0@, views(names@)),
{
    match rcgen::generate_simple_self_signed(names) {
        Ok(ck) => Ok((ck.cert.pem(), ck.signing_key.serialize_pem())),
        Err(_) => Err(TlsError::Generation),
    }
}

/// A certificate and key in PEM form.
pub struct PemPair {
    pub cert_pem: String,
    pub key_pem: String,
    /// Freshly generated, so the caller persists it.
    pub generated: bool,
}

/// The certificate and key for `names`: the stored pair when both files
/// exist (`stored`), else a freshly generated self-signed pair.
pub fn load_or_generate_pem(stored: Option<(String, String)>, names: Vec<String>) -> (r: Result<PemPair, TlsError>)
    ensures
        match stored {
            Some(p) => r matches Ok(pair) && pair.cert_pem@ == p.0@ && pair.key_pem@ == p.1@ && !pair.generated,
            None => r matches Ok(pair) ==> pair.generated && one_certificate(pair.cert_pem@) && pkcs8_key(
                pair.key_pem@,
            ) && certified_for(pair.cert_pem@, views(names@)),
        },
{
    match stored {
        Some((cert_pem, key_pem)) => Ok(PemPair { cert_pem, key_pem, generated: false }),
        None => match generate_self_signed(names) {
            Ok((cert_pem, key_pem)) => Ok(PemPair { cert_pem, key_pem, generated: true }),
            Err(e) => Err(e),
        },
    }
}

/// The subject names of the fallback certificate.
pub fn default_cert_names() -> (r: Vec<String>)
    ensures
        r@.len() == 1,
        r@[0]@ == "localhost"@,
{
    let mut v: Vec<String> = Vec::new();
    v.push("localhost".to_string());
    v
}

/// `<dir>/cert.pem`.
pub fn cert_file(dir: &str) -> (r: String)
    ensures
        r@ == join_path(dir@, "cert.pem"@),
{
    join(dir, "cert.pem")
}

/// `<dir>/key.pem`.
pub fn key_file(dir: &str) -> (r: String)
    ensures
        r@ == join_path(dir@, "key.pem"@),
{
    join(dir, "key.pem")
}

/// `<dir>/acme-meta.json`: when an ACME certificate was issued.
pub fn acme_meta_file(dir: &str) -> (r: String)
    ensures
        r@ == join_path(dir@, "acme-meta.json"@),
{
    join(dir, "acme-meta.json")
}

/// An ACME-issued certificate is renewed after sixty days.
pub open spec fn renew_after_secs() -> nat {
    60 * 24 * 60 * 60
}

/// Whether a domain needs a certificate issued: when no issuance time is
/// recorded, or more than the renewal age has passed since it (`now` is
/// whole seconds and nanoseconds since the epoch; a recorded time in the
/// future never needs renewal).
pub open spec fn issuance_due(issued_at: Option<u64>, now_secs: u64, now_nanos: u32) -> bool {
    match issued_at {
        None => true,
        Some(t) => now_secs >= t && (now_secs - t > renew_after_secs() || (now_secs - t
            == renew_after_secs() && now_nanos > 0)),
    }
}

/// Whether a domain needs a certificate issued.
pub fn needs_issuance(issued_at: Option<u64>, now_secs: u64, now_nanos: u32) -> (r: bool)
    ensures
        r == issuance_due(issued_at, now_secs, now_nanos),
{
    match issued_at {
        None => true,
        Some(t) => {
            if now_secs < t {
                false
            } else {
                let age = now_secs - t;
                age > 5184000 || (age == 5184000 && now_nanos > 0)
            }
        },
    }
}

/// The ACME account contact list: `mailto:<email>` when an email is set.
pub fn acme_contact(email: Option<&str>) -> (r: Vec<String>)
    ensures
        match email {
            Some(e) => r@.len() == 1 && r@[0]@ == "mailto:"@ + e@,
            None => r@.len() == 0,
        },
{
    let mut v: Vec<String> = Vec::new();
    if let Some(e) = email {
        v.push(concat2("mailto:", e));
    }
    v
}

/// A certificate recorded as issued just now is not due; one without a
/// record always is.
pub proof fn law_issuance_due(t: u64, now_nanos: u32)
    ensures
        !issuance_due(Some(t), t, now_nanos),
        issuance_due(None, t, now_nanos),
{
}

/// The domains whose certificate is due, in order; `issued[i]` is when the
/// certificate of `domains[i]` was issued, if that is recorded.
pub open spec fn due(domains: Seq<Seq<char>>, issued: Seq<Option<u64>>, now_secs: u64, now_nanos: u32) -> Seq<
    Seq<char>,
>
    decreases domains.len(),
{
    if domains.len() == 0 {
        seq![]
    } else {
        let rest = due(domains.drop_last(), issued.take(domains.len() - 1), now_secs, now_nanos);
        if issuance_due(issued[domains.len() - 1], now_secs, now_nanos) {
            rest.push(domains.last())
        } else {
            rest
        }
    }
}

/// The domains that need a certificate issued.
pub fn due_domains(domains: &Vec<String>, issued: &Vec<Option<u64>>, now_secs: u64, now_nanos: u32) -> (r: Vec<
    String,
>)
    requires
        issued@.len() == domains@.len(),
    ensures
        views(r@) == due(views(domains@), issued@, now_secs, now_nanos),
{
    let mut out: Vec<String> = Vec::new();
    let mut i: usize = 0;
    proof {
        assert(views(domains@).take(0) =~= Seq::<Seq<char>>::empty());
        assert(views(out@) =~= due(views(domains@).take(0), issued@.take(0), now_secs, now_nanos));
    }
    while i < domains.len()
        invariant
            i <= domains@.len(),
            issued@.len() == domains@.len(),
            views(out@) == due(views(domains@).take(i as int), issued@.take(i as int), now_secs, now_nanos),
        decreases domains@.len() - i,
    {
        let ghost prev = out@;
        if needs_issuance(issued[i], now_secs, now_nanos) {
            out.push(domains[i].clone());
        }
        proof {
            let d2 = views(domains@).take(i + 1);
            let t2 = issued@.take(i + 1);
            assert(d2.drop_last() =~= views(domains@).take(i as int));
            assert(t2.take(d2.len() - 1) =~= issued@.take(i as int));
            assert(views(out@) =~= due(d2, t2, now_secs, now_nanos));
        }
        i = i + 1;
    }
    proof {
        assert(views(domains@).take(domains@.len() as int) =~= views(domains@));
        assert(issued@.take(domains@.len() as int) =~= issued@);
    }
    out
}

/// How often ACME issuance is retried for the domains that are due: once
/// a day.
pub open spec fn acme_recheck_interval() -> nat {
    24 * 60 * 60
}

/// Seconds between two ACME issuance rounds.
pub fn acme_recheck_seconds() -> (r: u64)
    ensures
        r == acme_recheck_interval(),
{
    86400
}

/// The pair stored in a certificate directory: both files' contents, when
/// both exist.
pub open spec fn stored_of(cert: Option<Seq<char>>, key: Option<Seq<char>>) -> Option<(Seq<char>, Seq<char>)> {
    match (cert, key) {
        (Some(c), Some(k)) => Some((c, k)),
        _ => None,
    }
}

/// The stored pair, given the contents of `cert.pem` and `key.pem` (`None`
/// for a file that does not exist).
pub fn stored_pem(cert: Option<String>, key: Option<String>) -> (r: Option<(String, String)>)
    ensures
        match r {
            Some(p) => stored_of(crate::app::opt_view(cert), crate::app::opt_view(key)) == Some((p.0@, p.1@)),
            None => stored_of(crate::app::opt_view(cert), crate::app::opt_view(key)) is None,
        },
{
    match (cert, key) {
        (Some(c), Some(k)) => Some((c, k)),
        _ => None,
    }
}

/// The files to write for a pair in the certificate directory `dir`: a
/// generated pair is persisted as `cert.pem` and `key.pem`; a stored one
/// needs no writing.
pub fn pem_writes(dir: &str, pair: &PemPair) -> (r: Vec<(String, String)>)
    ensures
        pair.generated ==> r@.len() == 2 && r@[0].0@ == join_path(dir@, "cert.pem"@) && r@[0].1@
            == pair.cert_pem@ && r@[1].0@ == join_path(dir@, "key.pem"@) && r@[1].1@ == pair.key_pem@,
        !pair.generated ==> r@.len() == 0,
{
    let mut v: Vec<(String, String)> = Vec::new();
    if pair.generated {
        v.push((cert_file(dir), pair.cert_pem.clone()));
        v.push((key_file(dir), pair.key_pem.clone()));
    }
    v
}

/// What a file map holds at `path`.
pub open spec fn lookup(files: Map<Seq<char>, Seq<char>>, path: Seq<char>) -> Option<Seq<char>> {
    if files.dom().contains(path) {
        Some(files[path])
    } else {
        None
    }
}

/// A generated pair, once written as `pem_writes` says, is what the next
/// start finds stored: reading `cert.pem` and `key.pem` back gives the same
/// certificate and key, which `load_or_generate_pem` then returns as they
/// are instead of generating another pair.
pub proof fn law_written_pair_is_loaded_again(
    files: Map<Seq<char>, Seq<char>>,
    dir: Seq<char>,
    cert: Seq<char>,
    key: Seq<char>,
)
    ensures
        ({
            let written = files.insert(join_path(dir, "cert.pem"@), cert).insert(join_path(dir, "key.pem"@), key);
            stored_of(lookup(written, join_path(dir, "cert.pem"@)), lookup(written, join_path(dir, "key.pem"@)))
                == Some((cert, key))
        }),
{
    reveal_strlit("cert.pem");
    reveal_strlit("key.pem");
    assert(join_path(dir, "cert.pem"@).len() != join_path(dir, "key.pem"@).len());
}

/// A recorded certificate is renewed once it is more than sixty days
/// (5,184,000 seconds) old, and not before; a certificate with no record is
/// always due.
pub proof fn law_renewal_age(issued: u64, now_secs: u64, now_nanos: u32)
    ensures
        issuance_due(None, now_secs, now_nanos),
        now_secs >= issued && now_secs - issued > 5184000 ==> issuance_due(Some(issued), now_secs, now_nanos),
        now_secs < issued || now_secs - issued < 5184000 ==> !issuance_due(Some(issued), now_secs, now_nanos),
        now_secs >= issued && now_secs - issued == 5184000 ==> (issuance_due(Some(issued), now_secs, now_nanos)
            <==> now_nanos > 0),
{
}

} // verus!
