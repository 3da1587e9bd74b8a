use certpeek::cli::Command;
use certpeek::display::{common_name, days_between};
use certpeek::lookup::{certificates_to_summarize, check_server_name, LookupError};

fn command(domain: Option<&str>) -> Command {
    Command {
        host: "203.0.113.7".to_string(),
        port: 443,
        domain: domain.map(|d| d.to_string()),
        all: false,
        print_all_sans: false,
    }
}

#[test]
fn domain_defaults_to_host() {
    assert_eq!(command(None).domain(), "203.0.113.7");
    assert_eq!(command(Some("example.org")).domain(), "example.org");
}

#[test]
fn valid_server_name_is_accepted() {
    assert!(check_server_name("example.com").is_ok());
    assert!(check_server_name("sub.domain.example.co.uk").is_ok());
}

#[test]
fn invalid_server_name_is_rejected() {
    assert!(matches!(check_server_name("not a name!"), Err(LookupError::InvalidServerName)));
    assert!(matches!(check_server_name(""), Err(LookupError::InvalidServerName)));
}

#[test]
fn empty_chain_is_its_own_error() {
    let r = certificates_to_summarize(0, true);
    assert!(matches!(r, Err(LookupError::EmptyCertificateChain)));
    assert_eq!(r.unwrap_err().exit_code(), 2);
    assert_eq!(LookupError::Handshake("bad certificate".to_string()).exit_code(), 1);
}

#[test]
fn selection_is_first_or_all() {
    assert!(matches!(certificates_to_summarize(3, false), Ok(1)));
    assert!(matches!(certificates_to_summarize(3, true), Ok(3)));
    assert!(matches!(certificates_to_summarize(1, true), Ok(1)));
}

#[test]
fn other_failures_exit_with_one() {
    assert_eq!(LookupError::InvalidServerName.exit_code(), 1);
    assert_eq!(LookupError::Connection("refused".to_string()).exit_code(), 1);
    assert_eq!(LookupError::RootStoreLoad("none".to_string()).exit_code(), 1);
    assert_eq!(LookupError::Decode("short".to_string()).exit_code(), 1);
}

#[test]
fn common_name_is_extracted() {
    assert_eq!(
        common_name("C=US, O=Example Org, CN=example.com"),
        Some("example.com".to_string())
    );
    assert_eq!(common_name("CN=a, O=b"), Some("a, O=b".to_string()));
    assert_eq!(common_name("C=US, O=Example Org"), None);
}

#[test]
fn days_round_toward_zero() {
    assert_eq!(days_between(0, 86400), 1);
    assert_eq!(days_between(0, 86399), 0);
    assert_eq!(days_between(0, -86399), 0);
    assert_eq!(days_between(0, -86400 * 3 - 5), -3);
    assert_eq!(days_between(1577836800, 1893501015), 3653);
    assert_eq!(days_between(i64::MIN, i64::MAX), 213503982334601);
}
