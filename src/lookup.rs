//! Decisions of a certificate lookup that do not touch the network: whether
//! the server name may be used, which certificates to summarize, and how a
//! failure ends the process.

use vstd::prelude::*;

verus! {

/// Whether `webpki` accepts the text as a reference DNS name.
pub uninterp spec fn dns_name_accepted(name: Seq<char>) -> bool;

/// Why a lookup did not end with summaries.
#[derive(Debug)]
pub enum LookupError {
    /// The expected domain is not a syntactically valid DNS name.
    InvalidServerName,
    /// The TCP connection could not be established.
    Connection(String),
    /// The operating system's trust store could not be loaded at all.
    RootStoreLoad(String),
    /// The TLS handshake failed.
    Handshake(String),
    /// The handshake succeeded but the peer presented no certificate.
    EmptyCertificateChain,
    /// A certificate could not be decoded.
    Decode(String),
}

/// The process exit code for a failure.
pub open spec fn exit_code_of(e: LookupError) -> i32 {
    match e {
        LookupError::EmptyCertificateChain => 2,
        _ => 1,
    }
}

/// How many certificates of a chain of `count` to summarize, or why none.
pub open spec fn selection(count: nat, all: bool) -> Result<nat, LookupError> {
    if count == 0 {
        Err(LookupError::EmptyCertificateChain)
    } else if all {
        Ok(count)
    } else {
        Ok(1)
    }
}

impl LookupError {
    /// The process exit code: 2 for an empty chain, 1 for any other failure.
    pub fn exit_code(&self) -> (r: i32)
        ensures
            r == exit_code_of(*self),
    {
        match self {
            LookupError::EmptyCertificateChain => 2,
            _ => 1,
        }
    }
}

/// Relies on `webpki::DNSNameRef::try_from_ascii_str`: whether it accepts the
/// name.
#[verifier::external_body]
fn dns_name_is_valid(name: &str) -> (r: bool)
    ensures
        r == dns_name_accepted(name@),
{
    webpki::DNSNameRef::try_from_ascii_str(name).is_ok()
}

/// Checks, before any I/O, that the server name is a valid DNS name.
pub fn check_server_name(name: &str) -> (r: Result<(), LookupError>)
    ensures
        r is Ok <==> dns_name_accepted(name@),
        r matches Err(e) ==> e is InvalidServerName,
{
    if dns_name_is_valid(name) {
        Ok(())
    } else {
        Err(LookupError::InvalidServerName)
    }
}

/// How many certificates of a chain that the handshake returned to
/// summarize: all of them or only the first. An empty chain is its own
/// error.
pub fn certificates_to_summarize(count: usize, all: bool) -> (r: Result<usize, LookupError>)
    ensures
        count == 0 ==> r matches Err(LookupError::EmptyCertificateChain),
        count > 0 ==> (r matches Ok(n) && n as nat == selection(count as nat, all)->Ok_0),
{
    if count == 0 {
        Err(LookupError::EmptyCertificateChain)
    } else if all {
        Ok(count)
    } else {
        Ok(1)
    }
}

/// A handshake that returns no certificate is a success with an empty chain:
/// it ends in its own error, with an exit code that no handshake failure
/// has.
pub proof fn lemma_empty_chain_is_not_a_handshake_failure(all: bool, message: String)
    ensures
        selection(0, all) == Err::<nat, LookupError>(LookupError::EmptyCertificateChain),
        exit_code_of(LookupError::EmptyCertificateChain) != exit_code_of(LookupError::Handshake(message)),
{
}

} // verus!
