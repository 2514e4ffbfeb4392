use grpc_low_latency_proxy::authz::authorizer::Authorizer;
use grpc_low_latency_proxy::authz::document::{PolicyError, PolicyFault};
use grpc_low_latency_proxy::authz::identity::{
    identity_in_certificate, identity_of, identity_shown, AlternativeNames, Identity,
    IdentityExtractor, MAX_KNOWN,
};
use grpc_low_latency_proxy::authz::policy::{GrantEntry, Operation, Policy, WorkloadEntry};
use grpc_low_latency_proxy::status::{Code, Status};

const SAMPLE: &str = r#"
[[workloads]]
identity = "spiffe://local/ns/default/sa/payments"
grants = [
    { key_label = "demo-ec-p256", operations = ["sign", "verify"] },
]

[[workloads]]
identity = "spiffe://local/ns/default/sa/batch"
grants = [
    { key_label = "demo-ec-p256", operations = ["sign"] },
]
"#;

fn sample() -> Policy {
    match Policy::parse(SAMPLE) {
        Ok(policy) => policy,
        Err(_) => panic!("the sample is a policy file"),
    }
}

fn parses(text: &str) -> bool {
    Policy::parse(text).is_ok()
}

#[test]
fn grants_what_is_listed() {
    let policy = sample();
    assert!(policy.is_allowed(
        "spiffe://local/ns/default/sa/payments",
        "demo-ec-p256",
        Operation::Sign
    ));
}

#[test]
fn denies_operation_not_granted() {
    let policy = sample();
    assert!(!policy.is_allowed(
        "spiffe://local/ns/default/sa/batch",
        "demo-ec-p256",
        Operation::Verify
    ));
}

#[test]
fn denies_key_not_granted() {
    let policy = sample();
    assert!(!policy.is_allowed(
        "spiffe://local/ns/default/sa/batch",
        "demo-rsa-2048",
        Operation::Sign
    ));
}

#[test]
fn denies_unknown_identity() {
    let policy = sample();
    assert!(!policy.is_allowed(
        "spiffe://local/ns/default/sa/nobody",
        "demo-ec-p256",
        Operation::Sign
    ));
}

/// An empty policy must deny everything rather than fail open.
#[test]
fn empty_policy_denies_everything() {
    let policy = match Policy::parse("") {
        Ok(policy) => policy,
        Err(_) => panic!("an empty policy is a policy"),
    };
    assert!(!policy.is_allowed("anyone", "any-key", Operation::Sign));
}

/// A typo in an operation name must be a load-time error, not a silently dropped grant that
/// looks like it was applied.
#[test]
fn unknown_operation_is_rejected() {
    let bad = r#"
[[workloads]]
identity = "x"
grants = [{ key_label = "k", operations = ["singn"] }]
"#;
    assert!(Policy::parse(bad).is_err());
}

#[test]
fn counts_identities_and_grants() {
    let policy = sample();
    assert_eq!(policy.identity_count(), 2);
    assert_eq!(policy.grant_count(), 3);
}

#[test]
fn repeated_grants_count_once_and_entries_add_up() {
    let text = r#"
[[workloads]]
identity = "a"
description = "two entries for one identity"
grants = [
    { key_label = "k", operations = ["sign", "sign"] },
    { key_label = "k", operations = ["verify", "sign"] },
]

[[workloads]]
identity = "a"
grants = [{ key_label = "other", operations = ["get_public_key"] }]

[[workloads]]
identity = "without grants"
"#;
    let policy = match Policy::parse(text) {
        Ok(policy) => policy,
        Err(_) => panic!("this is a policy file"),
    };
    assert_eq!(policy.identity_count(), 2);
    assert_eq!(policy.grant_count(), 3);
    assert!(policy.is_allowed("a", "k", Operation::Sign));
    assert!(policy.is_allowed("a", "k", Operation::Verify));
    assert!(policy.is_allowed("a", "other", Operation::GetPublicKey));
    assert!(!policy.is_allowed("a", "other", Operation::Sign));
    assert!(!policy.is_allowed("without grants", "k", Operation::Sign));
}

#[test]
fn every_operation_has_its_name() {
    for (name, operation) in [
        ("sign", Operation::Sign),
        ("verify", Operation::Verify),
        ("encrypt", Operation::Encrypt),
        ("decrypt", Operation::Decrypt),
        ("get_public_key", Operation::GetPublicKey),
    ] {
        assert_eq!(operation.as_str(), name);
        let text = format!(
            "[[workloads]]\nidentity = \"x\"\ngrants = [{{ key_label = \"k\", operations = [\"{name}\"] }}]\n"
        );
        match Policy::parse(&text) {
            Ok(policy) => {
                assert!(policy.is_allowed("x", "k", operation));
                assert_eq!(policy.grant_count(), 1);
            }
            Err(_) => panic!("{name} is an operation"),
        }
    }
}

#[test]
fn malformed_files_are_rejected() {
    assert!(!parses("this is not toml"));
    assert!(!parses("workloads = 3"));
    assert!(!parses("[[workloads]]\ngrants = []"));
    assert!(!parses("[[workloads]]\nidentity = 3"));
    assert!(!parses("[[workloads]]\nidentity = \"x\"\ndescription = 3"));
    assert!(!parses("[[workloads]]\nidentity = \"x\"\ngrants = 3"));
    assert!(!parses(
        "[[workloads]]\nidentity = \"x\"\ngrants = [{ key_label = \"k\" }]"
    ));
    assert!(!parses(
        "[[workloads]]\nidentity = \"x\"\ngrants = [{ operations = [\"sign\"] }]"
    ));
    assert!(!parses(
        "[[workloads]]\nidentity = \"x\"\ngrants = [{ key_label = \"k\", operations = [3] }]"
    ));
    assert!(!parses(
        "[[workloads]]\nidentity = \"x\"\ngrants = [{ key_label = \"k\", operations = [{ sign = 3 }] }]"
    ));
    match Policy::parse("workloads = 3") {
        Ok(_) => panic!("a number is no list of workloads"),
        Err(error) => {
            assert!(matches!(
                error,
                PolicyError::NotAPolicy(PolicyFault::Workloads)
            ));
            assert_eq!(error.message(), "invalid TOML");
        }
    }
    for (text, fault) in [
        ("grants = []", PolicyFault::Identity),
        ("identity = \"x\"\ndescription = 3", PolicyFault::Description),
        ("identity = \"x\"\ngrants = 3", PolicyFault::Grants),
        ("identity = \"x\"\ngrants = [{ operations = [] }]", PolicyFault::KeyLabel),
        ("identity = \"x\"\ngrants = [{ key_label = \"k\" }]", PolicyFault::Operations),
        (
            "identity = \"x\"\ngrants = [{ key_label = \"k\", operations = [\"sing\"] }]",
            PolicyFault::Operation,
        ),
    ] {
        match Policy::parse(&format!("[[workloads]]\n{text}")) {
            Err(PolicyError::NotAPolicy(found)) => assert_eq!(found, fault),
            Err(error) => panic!("{error:?}"),
            Ok(_) => panic!("{text} is no workload"),
        }
        assert!(!fault.message().is_empty());
    }
    assert_eq!(
        PolicyFault::Operation.message(),
        "a grant lists an unknown operation"
    );
    match Policy::parse("this is not toml") {
        Ok(_) => panic!("a sentence is no document"),
        Err(PolicyError::NotToml(reason)) => assert!(reason.contains("line 1")),
        Err(error) => panic!("{error:?}"),
    }
}

#[test]
fn unknown_fields_are_passed_over() {
    assert!(parses("version = 3"));
    assert!(parses("version = 9223372036854775808"));
    assert!(parses("version = 340282366920938463463374607431768211455"));
    assert!(!parses("version = 340282366920938463463374607431768211456"));
    assert!(parses("since = 1979-05-27T07:32:00Z\nweight = 0.5"));
    assert!(!parses("weight = 1e999"));
    let huge = "9".repeat(40);
    let surplus = format!(r#"workloads = [["x", "a description", [], {huge}]]"#);
    assert!(parses(&surplus));
    for text in [
        format!("nested = [{{ deep = [{huge}] }}]"),
        format!("[[workloads]]\nidentity = \"x\"\nowner = {huge}"),
        format!(
            "[[workloads]]\nidentity = \"x\"\ngrants = [{{ key_label = \"k\", operations = [], weight = {huge} }}]"
        ),
    ] {
        assert!(matches!(
            Policy::parse(&text),
            Err(PolicyError::NotAPolicy(PolicyFault::TooLarge))
        ));
    }
    assert!(parses(
        "[[workloads]]\nidentity = \"x\"\nowner = \"someone\"\ngrants = []"
    ));
}

/// A record may be written as an array, with its fields in their order, and an operation as a
/// table with nothing under its name.
#[test]
fn records_may_be_written_as_arrays() {
    let text = r#"workloads = [["x", "a description", [["k", ["sign", { verify = {} }]]]]]"#;
    match Policy::parse(text) {
        Ok(policy) => {
            assert!(policy.is_allowed("x", "k", Operation::Sign));
            assert!(policy.is_allowed("x", "k", Operation::Verify));
            assert_eq!(policy.grant_count(), 2);
        }
        Err(_) => panic!("arrays may stand for records"),
    }
    assert!(!parses(
        r#"workloads = [["x", "a description", [["k", [{ sign = {}, verify = {} }]]]]]"#
    ));
    assert!(!parses(r#"workloads = [[]]"#));
}

#[test]
fn a_policy_is_made_of_entries() {
    let workloads = vec![WorkloadEntry {
        identity: "x".to_string(),
        grants: vec![GrantEntry {
            key_label: "k".to_string(),
            operations: vec![Operation::Encrypt, Operation::Decrypt],
        }],
    }];
    let policy = Policy::from_workloads(&workloads);
    assert!(policy.is_allowed("x", "k", Operation::Encrypt));
    assert!(!policy.is_allowed("x", "k", Operation::Sign));
    assert_eq!(policy.grant_count(), 2);
    assert_eq!(Policy::default().identity_count(), 0);
}

#[test]
fn the_authorizer_lets_the_permitted_pass_and_counts_each_check() {
    let mut authorizer = Authorizer::new(sample());
    let payments = "spiffe://local/ns/default/sa/payments";

    match authorizer.authorize(Ok(payments.to_string()), "demo-ec-p256", Operation::Sign) {
        Ok(identity) => assert_eq!(identity, payments),
        Err(_) => panic!("payments may sign"),
    }
    match authorizer.authorize(Ok(payments.to_string()), "demo-ec-p256", Operation::Decrypt) {
        Ok(_) => panic!("payments may not decrypt"),
        Err(status) => {
            assert_eq!(status.code, Code::PermissionDenied);
            assert_eq!(
                status.message,
                "identity 'spiffe://local/ns/default/sa/payments' is not permitted to decrypt key 'demo-ec-p256'"
            );
        }
    }
    let reason = Status {
        code: Code::Unauthenticated,
        message: "no client certificate".to_string(),
    };
    match authorizer.authorize(Err(reason), "demo-ec-p256", Operation::Sign) {
        Ok(_) => panic!("no one may sign"),
        Err(status) => {
            assert_eq!(status.code, Code::Unauthenticated);
            assert_eq!(status.message, "no client certificate");
        }
    }
    let metrics = authorizer.metrics();
    assert_eq!(metrics.allowed_total, 1);
    assert_eq!(metrics.denied_total, 1);
    assert_eq!(metrics.unauthenticated_total, 1);
    assert_eq!(authorizer.policy().identity_count(), 2);
}

#[test]
fn a_uri_names_the_caller_before_the_common_name() {
    let payments = Some("spiffe://local/ns/default/sa/payments".to_string());
    let names = vec![None, payments.clone(), Some("spiffe://other".to_string())];
    let common = vec![None, Some("payments.local".to_string())];
    assert!(matches!(
        identity_of(&names, &common),
        Some(Identity::Uri(uri)) if Some(&uri) == payments.as_ref()
    ));
    assert!(matches!(
        identity_of(&vec![None], &common),
        Some(Identity::CommonName(name)) if name == "payments.local"
    ));
    assert!(identity_of(&vec![None], &vec![]).is_none());
}

fn tlv(tag: u8, contents: &[u8]) -> Vec<u8> {
    let mut der = vec![tag];
    match contents.len() {
        len if len < 0x80 => der.push(len as u8),
        len if len < 0x100 => der.extend([0x81, len as u8]),
        len => der.extend([0x82, (len / 256) as u8, (len % 256) as u8]),
    }
    der.extend(contents);
    der
}

fn sequence(parts: &[Vec<u8>]) -> Vec<u8> {
    tlv(0x30, &parts.concat())
}

/// A certificate with these alternative names, and this common name if there is one. No one has
/// signed it.
fn certificate(alternative: &[Vec<u8>], common_name: Option<&str>) -> Vec<u8> {
    let algorithm = sequence(&[tlv(6, &[0x2a, 0x86, 0x48, 0xce, 0x3d, 4, 3, 2])]);
    let curve = sequence(&[tlv(6, &[0x2a, 0x86, 0x48, 0xce, 0x3d, 2, 1])]);
    let subject = match common_name {
        Some(name) => {
            let attribute = sequence(&[tlv(6, &[0x55, 4, 3]), tlv(0x0c, name.as_bytes())]);
            sequence(&[tlv(0x31, &attribute)])
        }
        None => sequence(&[]),
    };
    let names = sequence(&[
        tlv(6, &[0x55, 0x1d, 0x11]),
        tlv(4, &sequence(alternative)),
    ]);
    let mut parts = vec![
        tlv(0xa0, &tlv(2, &[2])),
        tlv(2, &[1]),
        algorithm.clone(),
        sequence(&[]),
        sequence(&[tlv(0x17, b"250101000000Z"), tlv(0x17, b"350101000000Z")]),
        subject,
        sequence(&[curve, tlv(3, &[0, 4])]),
    ];
    if !alternative.is_empty() {
        parts.push(tlv(0xa3, &sequence(&[names])));
    }
    sequence(&[sequence(&parts), algorithm, tlv(3, &[0, 1])])
}

fn shown(result: Result<Identity, Status>) -> String {
    match result {
        Ok(Identity::Uri(uri)) => format!("uri {uri}"),
        Ok(Identity::CommonName(name)) => format!("name {name}"),
        Err(status) => {
            assert_eq!(status.code, Code::Unauthenticated);
            status.message
        }
    }
}

#[test]
fn certificates_show_who_the_caller_is() {
    let host = tlv(0x82, b"payments.local");
    let uri = tlv(0x86, b"spiffe://local/ns/default/sa/payments");
    let both = certificate(&[host.clone(), uri], Some("payments"));
    let named = certificate(&[host], Some("payments"));
    let bare = certificate(&[], None);
    let broken = certificate(&[vec![0x86, 0x40, b'x']], Some("payments"));
    let expected = [
        (&both, "uri spiffe://local/ns/default/sa/payments"),
        (&named, "name payments"),
        (&bare, "client certificate carries no workload identity"),
        (&vec![1, 2, 3], "client certificate could not be parsed"),
        (&broken, "client certificate could not be parsed"),
    ];
    let mut extractor = IdentityExtractor::new();
    for _ in 0..2 {
        for (der, text) in expected.iter() {
            assert_eq!(shown(identity_in_certificate(der)), *text);
            assert_eq!(shown(extractor.identify(Some(der.as_slice()))), *text);
        }
    }
    assert_eq!(
        shown(extractor.identify(None)),
        "no client certificate presented"
    );
    match identity_in_certificate(&both) {
        Ok(identity) => assert_eq!(identity.name(), "spiffe://local/ns/default/sa/payments"),
        Err(status) => panic!("{status:?}"),
    }
}

#[test]
fn unreadable_names_are_not_passed_over() {
    let common = || Some(vec![Some("payments".to_string())]);
    assert_eq!(
        shown(identity_shown(AlternativeNames::NoExtension, common())),
        "name payments"
    );
    assert_eq!(
        shown(identity_shown(AlternativeNames::Listed(vec![None]), common())),
        "name payments"
    );
    for alternative in [AlternativeNames::Unreadable, AlternativeNames::NoCertificate] {
        assert_eq!(
            shown(identity_shown(alternative, common())),
            "client certificate could not be parsed"
        );
    }
}

/// What is remembered never changes what a certificate shows, not even when all is forgotten.
#[test]
fn certificates_may_be_forgotten() {
    let mut extractor = IdentityExtractor::new();
    for round in 0..2 {
        for i in 0..MAX_KNOWN / 2 + 1 + round {
            let name = format!("caller {i} of round {round}");
            let der = certificate(&[], Some(&name));
            assert_eq!(
                shown(extractor.identify(Some(der.as_slice()))),
                format!("name {name}")
            );
        }
    }
}
