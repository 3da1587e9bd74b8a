//! Decoding of one DER-encoded X.509 certificate into a display-ready
//! summary: subject, issuer, validity window and Subject Alternative Names.

use vstd::prelude::*;
use x509_parser::extensions::GeneralName;
use crate::ip::{format_ip, ip_text};

verus! {

/// What the certificate parser reads from DER bytes: subject and issuer as
/// rendered distinguished names, and the validity bounds in whole seconds
/// since the Unix epoch; or the parser's diagnostic.
pub uninterp spec fn x509_fields(der: Seq<u8>) -> Result<(Seq<char>, Seq<char>, i64, i64), Seq<char>>;

/// The entries of the Subject Alternative Name extension that the parser
/// reads from DER bytes, in their order; none where the bytes do not decode
/// or the extension is absent.
pub uninterp spec fn x509_san_entries(der: Seq<u8>) -> Option<Seq<NameEntryView>>;

/// One Subject Alternative Name entry, as plain values.
#[derive(Debug)]
pub enum NameEntry {
    /// A DNS name, as written in the certificate.
    Dns(String),
    /// The raw bytes of an IP address.
    Ip(Vec<u8>),
    /// Any other kind of entry, already rendered in a debug form.
    Other(String),
}

/// The mathematical value of a [`NameEntry`].
pub enum NameEntryView {
    Dns(Seq<char>),
    Ip(Seq<u8>),
    Other(Seq<char>),
}

impl View for NameEntry {
    type V = NameEntryView;

    open spec fn view(&self) -> NameEntryView {
        match self {
            NameEntry::Dns(s) => NameEntryView::Dns(s@),
            NameEntry::Ip(b) => NameEntryView::Ip(b@),
            NameEntry::Other(s) => NameEntryView::Other(s@),
        }
    }
}

/// The fields of a certificate that the parser reads, as plain values.
#[derive(Debug)]
pub struct CertFields {
    pub subject: String,
    pub issuer: String,
    /// Start of the validity window, in seconds since the Unix epoch (UTC).
    pub not_before: i64,
    /// End of the validity window, in seconds since the Unix epoch (UTC).
    pub not_after: i64,
}

impl View for CertFields {
    type V = (Seq<char>, Seq<char>, i64, i64);

    open spec fn view(&self) -> (Seq<char>, Seq<char>, i64, i64) {
        (self.subject@, self.issuer@, self.not_before, self.not_after)
    }
}

/// A certificate's bytes could not be decoded as X.509.
#[derive(Debug)]
pub struct DecodeError {
    /// The parser's diagnostic.
    pub message: String,
}

/// Display-ready projection of one certificate.
#[derive(Debug)]
pub struct CertSummary {
    pub subject: String,
    pub issuer: String,
    /// Start of the validity window, in seconds since the Unix epoch (UTC).
    pub not_before: i64,
    /// End of the validity window, in seconds since the Unix epoch (UTC).
    pub not_after: i64,
    /// `(kind, value)` for each Subject Alternative Name, in certificate order.
    pub sans: Vec<(&'static str, String)>,
}

/// The kind tag of a SAN entry.
pub open spec fn san_kind(n: NameEntryView) -> Seq<char> {
    match n {
        NameEntryView::Dns(_) => "DNS"@,
        NameEntryView::Ip(_) => "IP"@,
        NameEntryView::Other(_) => "Unknown"@,
    }
}

/// The human-readable value of a SAN entry.
pub open spec fn san_value(n: NameEntryView) -> Seq<char> {
    match n {
        NameEntryView::Dns(s) => s,
        NameEntryView::Ip(b) => ip_text(b),
        NameEntryView::Other(s) => s,
    }
}

/// The summary pairs for a sequence of entries.
pub open spec fn san_pairs(names: Seq<NameEntryView>) -> Seq<(Seq<char>, Seq<char>)> {
    names.map_values(|n: NameEntryView| (san_kind(n), san_value(n)))
}

/// The summary pairs for an optional SAN extension: none when it is absent.
pub open spec fn san_pairs_of(names: Option<Seq<NameEntryView>>) -> Seq<(Seq<char>, Seq<char>)> {
    match names {
        Some(s) => san_pairs(s),
        None => Seq::empty(),
    }
}

/// The pairs of a summary, as sequences of characters.
pub open spec fn pairs_view(v: Seq<(&'static str, String)>) -> Seq<(Seq<char>, Seq<char>)> {
    v.map_values(|p: (&'static str, String)| (p.0@, p.1@))
}

impl CertSummary {
    pub open spec fn sans_view(&self) -> Seq<(Seq<char>, Seq<char>)> {
        pairs_view(self.sans@)
    }
}

/// Relies on `x509_parser::parse_x509_certificate` to decode the bytes, on
/// `Display` of `X509Name` for subject and issuer, on `ASN1Time::timestamp`
/// for the validity bounds, and on `Display` of `nom::Err` for the diagnostic.
#[verifier::external_body]
fn decode_fields(der: &[u8]) -> (r: Result<CertFields, String>)
    ensures
        r is Ok <==> x509_fields(der@) is Ok,
        r matches Ok(f) ==> x509_fields(der@)->Ok_0 == f@,
        r matches Err(e) ==> x509_fields(der@)->Err_0 == e@,
{
    match x509_parser::parse_x509_certificate(der) {
        Ok((_, c)) => Ok(CertFields {
            subject: c.subject().to_string(),
            issuer: c.issuer().to_string(),
            not_before: c.validity().not_before.timestamp(),
            not_after: c.validity().not_after.timestamp(),
        }),
        Err(e) => Err(e.to_string()),
    }
}

/// Relies on `x509_parser::parse_x509_certificate` and
/// `TbsCertificate::subject_alternative_name` for the entries of the
/// extension, in order; entries other than DNS names and IP addresses are
/// rendered with their `Debug` form.
#[verifier::external_body]
fn decode_san_entries(der: &[u8]) -> (r: Option<Vec<NameEntry>>)
    ensures
        r matches Some(v) ==> x509_san_entries(der@) == Some(v@.map_values(|n: NameEntry| n@)),
        r is None ==> x509_san_entries(der@) is None,
{
    let (_, c) = x509_parser::parse_x509_certificate(der).ok()?;
    let (_, san) = c.tbs_certificate.subject_alternative_name()?;
    Some(san.general_names.iter().map(|n| match n {
        GeneralName::DNSName(s) => NameEntry::Dns(s.to_string()),
        GeneralName::IPAddress(b) => NameEntry::Ip(b.to_vec()),
        other => NameEntry::Other(format!("{:?}", other)),
    }).collect())
}

/// The `(kind, value)` pair for one SAN entry.
pub fn summarize_name(n: &NameEntry) -> (r: (&'static str, String))
    ensures
        r.0@ == san_kind(n@),
        r.1@ == san_value(n@),
{
    match n {
        NameEntry::Dns(s) => ("DNS", s.clone()),
        NameEntry::Ip(b) => ("IP", format_ip(b.as_slice())),
        NameEntry::Other(s) => ("Unknown", s.clone()),
    }
}

/// The `(kind, value)` pairs for SAN entries, in order; none for an absent
/// extension.
pub fn summarize_names(names: &Option<Vec<NameEntry>>) -> (r: Vec<(&'static str, String)>)
    ensures
        pairs_view(r@) == san_pairs_of(match names {
            Some(v) => Some(v@.map_values(|n: NameEntry| n@)),
            None => None::<Seq<NameEntryView>>,
        }),
{
    let mut out: Vec<(&'static str, String)> = Vec::new();
    match names {
        None => {
            assert(pairs_view(out@) =~= Seq::<(Seq<char>, Seq<char>)>::empty());
        },
        Some(v) => {
            let ghost views = v@.map_values(|n: NameEntry| n@);
            let mut i: usize = 0;
            while i < v.len()
                invariant
                    i <= v@.len(),
                    views == v@.map_values(|n: NameEntry| n@),
                    pairs_view(out@) =~= san_pairs(views.take(i as int)),
                decreases v@.len() - i,
            {
                let p = summarize_name(&v[i]);
                out.push(p);
                proof {
                    assert(views.take(i + 1) =~= views.take(i as int).push(views[i as int]));
                    assert(pairs_view(out@) =~= san_pairs(views.take(i as int)).push(
                        (san_kind(views[i as int]), san_value(views[i as int])),
                    ));
                }
                i = i + 1;
            }
            assert(views.take(v@.len() as int) =~= views);
        },
    }
    out
}

impl CertSummary {
    /// Builds the summary from what the parser read: the fields, and the SAN
    /// entries (none when the certificate has no SAN extension).
    pub fn from_parts(fields: CertFields, names: Option<Vec<NameEntry>>) -> (r: CertSummary)
        ensures
            r.subject@ == fields.subject@,
            r.issuer@ == fields.issuer@,
            r.not_before == fields.not_before,
            r.not_after == fields.not_after,
            r.sans_view() == san_pairs_of(match names {
                Some(v) => Some(v@.map_values(|n: NameEntry| n@)),
                None => None::<Seq<NameEntryView>>,
            }),
            names is None ==> r.sans@.len() == 0,
    {
        let sans = summarize_names(&names);
        assert(pairs_view(sans@).len() == sans@.len());
        CertSummary {
            subject: fields.subject,
            issuer: fields.issuer,
            not_before: fields.not_before,
            not_after: fields.not_after,
            sans,
        }
    }

    /// Decodes one DER-encoded certificate. Fails exactly when the parser
    /// rejects the bytes, with its diagnostic and no partial summary.
    pub fn try_from(der: &[u8]) -> (r: Result<CertSummary, DecodeError>)
        ensures
            match x509_fields(der@) {
                Ok((subject, issuer, not_before, not_after)) => r matches Ok(c) && {
                    &&& c.subject@ == subject
                    &&& c.issuer@ == issuer
                    &&& c.not_before == not_before
                    &&& c.not_after == not_after
                    &&& c.sans_view() == san_pairs_of(x509_san_entries(der@))
                },
                Err(message) => r matches Err(e) && e.message@ == message,
            },
            r is Ok && x509_san_entries(der@) is None ==> r->Ok_0.sans@.len() == 0,
    {
        match decode_fields(der) {
            Err(message) => Err(DecodeError { message }),
            Ok(fields) => {
                let names = decode_san_entries(der);
                Ok(CertSummary::from_parts(fields, names))
            },
        }
    }
}

/// How many SAN entries are printed when listing is capped.
pub const MAX_LISTED_SANS: usize = 10;

/// How many of `n` SAN entries are printed.
pub open spec fn listed_count(n: nat, print_all_sans: bool) -> nat {
    if print_all_sans || n <= MAX_LISTED_SANS {
        n
    } else {
        MAX_LISTED_SANS as nat
    }
}

impl CertSummary {
    /// The SAN values to print, in order, and how many are left out: all of
    /// them with `print_all_sans`, else at most ten.
    pub fn listed_sans(&self, print_all_sans: bool) -> (r: (Vec<String>, usize))
        ensures
            r.0@.len() == listed_count(self.sans@.len(), print_all_sans),
            forall|i: int| 0 <= i < r.0@.len() ==> #[trigger] r.0@[i]@ == self.sans@[i].1@,
            r.1 == self.sans@.len() - listed_count(self.sans@.len(), print_all_sans),
            !print_all_sans && self.sans@.len() > MAX_LISTED_SANS ==> r.1 == self.sans@.len() - MAX_LISTED_SANS,
    {
        let n = self.sans.len();
        let shown = if print_all_sans || n <= MAX_LISTED_SANS {
            n
        } else {
            MAX_LISTED_SANS
        };
        let mut out: Vec<String> = Vec::new();
        let mut i: usize = 0;
        while i < shown
            invariant
                shown <= n == self.sans@.len(),
                i <= shown,
                out@.len() == i,
                forall|j: int| 0 <= j < i ==> #[trigger] out@[j]@ == self.sans@[j].1@,
            decreases shown - i,
        {
            out.push(self.sans[i].1.clone());
            i = i + 1;
        }
        (out, n - shown)
    }
}

} // verus!
