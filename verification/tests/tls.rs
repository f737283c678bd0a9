use base64::engine::general_purpose::STANDARD as B64;
use base64::Engine as _;
use ferrum_ops::error::ErrorCode;
use ferrum_ops::tls::{
    certificate_files, certificate_present, certificate_request, is_datable, self_signed,
};

const NOW: i64 = 1_700_000_000;

fn der(pem: &str) -> Vec<u8> {
    let body: String = pem.lines().filter(|l| !l.starts_with("-----")).collect();
    B64.decode(body).unwrap()
}

fn holds(haystack: &[u8], needle: &[u8]) -> bool {
    haystack.windows(needle.len()).any(|w| w == needle)
}

fn written(names: &[&str]) -> Vec<(String, u32, String)> {
    let names: Vec<String> = names.iter().map(|n| n.to_string()).collect();
    let pair = self_signed(&names, NOW).unwrap();
    certificate_files(&pair).into_iter().map(|f| (f.name, f.mode, f.text)).collect()
}

#[test]
fn a_self_signed_pair_is_written_with_the_issued_layout() {
    let files = written(&["example.com"]);
    let names: Vec<String> = files.iter().map(|f| f.0.clone()).collect();
    assert!(certificate_present(&names));
    let text = |name: &str| files.iter().find(|f| f.0 == name).unwrap().2.clone();
    assert!(text("fullchain.pem").starts_with("-----BEGIN CERTIFICATE-----"));
    assert!(text("privkey.pem").contains("PRIVATE KEY"));
    assert!(
        names.contains(&"chain.pem".to_string()),
        "stapling needs a trusted-cert file"
    );
    assert!(holds(&der(&text("fullchain.pem")), b"example.com"));
    assert!(holds(&der(&text("fullchain.pem")), b"Ferrum (self-signed)"));
}

#[test]
fn the_certificate_has_a_plausible_validity_window() {
    let request = certificate_request(&vec!["example.com".to_string()], NOW);
    assert!(request.not_before <= NOW, "the certificate must already be valid");
    assert!(
        NOW - request.not_before < 7200,
        "backdated by an hour, not by fifty years"
    );
    let years = (request.not_after - NOW) / (365 * 24 * 3600);
    assert!(
        (9..=11).contains(&years),
        "expected roughly ten years, got {years}"
    );
    // And so it stands in the certificate.
    let files = written(&["example.com"]);
    let cert = der(&files[1].2);
    assert!(holds(&cert, b"231114211320Z"), "not before 2023-11-14T21:13:20Z");
    assert!(holds(&cert, b"331111221320Z"), "not after 2033-11-11T22:13:20Z");
}

#[test]
fn the_private_key_is_not_readable_by_anybody_else() {
    let files = written(&["example.com"]);
    let mode = |name: &str| files.iter().find(|f| f.0 == name).unwrap().1;
    assert_eq!(
        mode("privkey.pem"), 0o600,
        "a private key must never be group- or world-readable"
    );
    assert_eq!(mode("fullchain.pem"), 0o644);
}

#[test]
fn an_empty_name_list_still_produces_a_usable_certificate() {
    let files = written(&[]);
    let names: Vec<String> = files.iter().map(|f| f.0.clone()).collect();
    assert!(certificate_present(&names));
    assert!(holds(&der(&files[1].2), b"localhost"));
}

#[test]
fn regenerating_replaces_the_pair_atomically() {
    let first = written(&["a.example"]);
    let second = written(&["b.example"]);
    assert_ne!(first[1].2, second[1].2);
    assert_ne!(first[0].2, second[0].2);
    assert!(second.iter().all(|f| !f.0.ends_with(".tmp")));
}

#[test]
fn certificate_present_is_false_for_an_empty_directory() {
    assert!(!certificate_present(&vec![]));
    assert!(!certificate_present(&vec!["fullchain.pem".to_string()]));
    assert!(!certificate_present(&vec!["privkey.pem".to_string()]));
}

#[test]
fn a_name_that_is_not_ascii_is_refused() {
    let err = self_signed(&vec!["exämple.com".to_string()], NOW).unwrap_err();
    assert_eq!(err.code, ErrorCode::Internal);
    assert!(err.detail.starts_with("invalid certificate names: "), "{}", err.detail);
}

#[test]
fn a_certificate_can_be_made_in_any_year_that_it_can_express() {
    let names = vec!["example.com".to_string()];
    let (first, last) = (-62_167_215_600, 253_086_940_799);
    assert!(is_datable(NOW) && is_datable(first) && is_datable(last));
    assert!(!is_datable(first - 1) && !is_datable(last + 1));
    let cert = |now| der(&self_signed(&names, now).unwrap().chain);
    assert!(holds(&cert(first), b"00000101000000Z"));
    assert!(holds(&cert(last), b"99991231235959Z"));
}
