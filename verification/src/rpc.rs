//! The gRPC side: the manual backfill service value, the stock gateway,
//! the TLS settings decision, the description of the served certificate,
//! error chains, and the job message the service sends.
use vstd::prelude::*;
use crate::job_board::{BackfillJob, status_text};
use crate::text::{joined, join, push_str, string_of, string_views};
use rustls_pki_types::pem::PemObject;

verus! {

broadcast use vstd::string::group_string_axioms;

/// The manual backfill gRPC service. It keeps no state of its own: every
/// job lives on the board shared with the web UI.
pub struct ManualBackfillServiceImpl {}

impl ManualBackfillServiceImpl {
    /// The service.
    pub fn new() -> (r: ManualBackfillServiceImpl) {
        ManualBackfillServiceImpl {  }
    }
}

/// Pushes stock information to the remote stock service over gRPC.
pub struct GrpcStockInfoGateway;

/// Which certificate and key the gRPC server uses: TLS only when both
/// paths are set, plaintext otherwise.
pub open spec fn tls_paths(cert_file: Seq<char>, key_file: Seq<char>) -> Option<(Seq<char>, Seq<char>)> {
    if cert_file.len() > 0 && key_file.len() > 0 {
        Some((cert_file, key_file))
    } else {
        None
    }
}

/// Decides the TLS configuration from the configured certificate and key
/// paths.
pub fn get_tls_config(cert_file: String, key_file: String) -> (r: Option<(String, String)>)
    ensures
        match r {
            Some((c, k)) => tls_paths(cert_file@, key_file@) == Some((c@, k@)),
            None => tls_paths(cert_file@, key_file@) is None,
        },
{
    if !cert_file.as_str().is_empty() && !key_file.as_str().is_empty() {
        Some((cert_file, key_file))
    } else {
        None
    }
}

/// An error and its sources, outermost first, as one line: the messages
/// joined by `: `.
pub fn format_error_chain(messages: &Vec<String>) -> (r: String)
    ensures
        r@ == joined(string_views(messages@), ": "@),
{
    join(messages, ": ")
}

/// What `rustls_pki_types::CertificateDer::pem_reader_iter` yields first
/// for the PEM text: the DER bytes of the first certificate, nothing when
/// there is none, or the error's text.
pub uninterp spec fn pem_first_certificate(pem: Seq<char>) -> Result<Option<Seq<u8>>, Seq<char>>;

/// The first certificate of a PEM text (`pem_reader_iter(..).next()`,
/// transposed), as DER bytes. The contract names the result.
#[verifier::external_body]
fn first_pem_certificate(pem: &str) -> (r: Result<Option<Vec<u8>>, String>)
    ensures
        pem_first_certificate(pem@) == match r {
            Ok(Some(d)) => Ok::<Option<Seq<u8>>, Seq<char>>(Some(d@)),
            Ok(None) => Ok::<Option<Seq<u8>>, Seq<char>>(None),
            Err(e) => Err::<Option<Seq<u8>>, Seq<char>>(e@),
        },
{
    let reader = std::io::BufReader::new(std::io::Cursor::new(pem.as_bytes()));
    match rustls_pki_types::CertificateDer::pem_reader_iter(reader).next().transpose() {
        Ok(Some(cert)) => Ok(Some(cert.as_ref().to_vec())),
        Ok(None) => Ok(None),
        Err(e) => Err(e.to_string()),
    }
}

/// What `x509_parser::parse_x509_certificate` gives for DER bytes: the
/// certificate's subject and `not_after` as displayed, or the error's text.
pub uninterp spec fn x509_subject_not_after(der: Seq<u8>) -> Result<(Seq<char>, Seq<char>), Seq<char>>;

/// Parses a DER certificate and displays its subject and expiry. The
/// contract names the result.
#[verifier::external_body]
fn x509_summary(der: &[u8]) -> (r: Result<(String, String), String>)
    ensures
        x509_subject_not_after(der@) == match r {
            Ok((s, t)) => Ok::<(Seq<char>, Seq<char>), Seq<char>>((s@, t@)),
            Err(e) => Err::<(Seq<char>, Seq<char>), Seq<char>>(e@),
        },
{
    match x509_parser::parse_x509_certificate(der) {
        Ok((_, parsed)) => Ok((parsed.subject().to_string(), parsed.validity().not_after.to_string())),
        Err(e) => Err(e.to_string()),
    }
}

/// The one-line description of a certificate for the startup log, from
/// the results of reading its PEM and parsing its DER.
pub open spec fn certificate_text(pem: Seq<char>) -> Seq<char> {
    match pem_first_certificate(pem) {
        Err(why) => "憑證 PEM 解析失敗: "@ + why,
        Ok(None) => "PEM 中找不到 CERTIFICATE 區塊"@,
        Ok(Some(der)) => match x509_subject_not_after(der) {
            Err(why) => "X.509 憑證解析失敗: "@ + why,
            Ok((subject, not_after)) => "subject="@ + subject + ", not_after="@ + not_after,
        },
    }
}

/// Describes the first certificate of a PEM text (its subject and expiry),
/// or says why it could not.
pub fn describe_certificate(cert_pem: &str) -> (r: String)
    ensures
        r@ == certificate_text(cert_pem@),
{
    let der = match first_pem_certificate(cert_pem) {
        Ok(Some(d)) => d,
        Ok(None) => {
            return string_of("PEM 中找不到 CERTIFICATE 區塊");
        },
        Err(why) => {
            let mut m = string_of("憑證 PEM 解析失敗: ");
            push_str(&mut m, why.as_str());
            return m;
        },
    };
    match x509_summary(der.as_slice()) {
        Ok((subject, not_after)) => {
            let mut m = string_of("subject=");
            push_str(&mut m, subject.as_str());
            push_str(&mut m, ", not_after=");
            push_str(&mut m, not_after.as_str());
            m
        },
        Err(why) => {
            let mut m = string_of("X.509 憑證解析失敗: ");
            push_str(&mut m, why.as_str());
            m
        },
    }
}

/// A job as the gRPC service sends it: the status as its label, and an
/// empty text for a job that has not finished.
#[derive(Debug)]
pub struct GrpcJob {
    pub id: String,
    pub kind: String,
    pub input: String,
    pub status: String,
    pub message: String,
    pub started_at: String,
    pub finished_at: String,
}

/// Converts a job for the gRPC service.
pub fn to_grpc_job(job: BackfillJob) -> (r: GrpcJob)
    ensures
        r.id == job.id,
        r.kind == job.kind,
        r.input == job.input,
        r.status@ == status_text(job.status),
        r.message == job.message,
        r.started_at == job.started_at,
        r.finished_at@ == match job.finished_at {
            Some(t) => t@,
            None => Seq::<char>::empty(),
        },
{
    let status = string_of(job.status_label());
    GrpcJob {
        id: job.id,
        kind: job.kind,
        input: job.input,
        status,
        message: job.message,
        started_at: job.started_at,
        finished_at: match job.finished_at {
            Some(t) => t,
            None => String::new(),
        },
    }
}

} // verus!
