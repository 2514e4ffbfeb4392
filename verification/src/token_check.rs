//! Checking that a token is fit to serve: that the keys are there, that the private ones are
//! protected, and that they sign.

use vstd::prelude::*;
use vstd::slice::slice_to_vec;

use crate::crypto::Mechanism;
use crate::pkcs11::provision::{is_protected, DEMO_AES_KEY, DEMO_EC_KEY, DEMO_RSA_KEY};
use crate::pkcs11::session;
use crate::pkcs11::token::{
    attribute_views, Attribute, AttributeType, AttributeView, ObjectClass, ObjectHandle,
};
use crate::primitives;
use crate::text;

verus! {

/// The key pairs that a provisioned token has.
pub fn expected_key_pairs() -> (labels: Vec<&'static str>)
    ensures
        labels@.len() == 2,
        labels@[0]@ == DEMO_EC_KEY@,
        labels@[1]@ == DEMO_RSA_KEY@,
{
    vec![DEMO_EC_KEY, DEMO_RSA_KEY]
}

/// The secret keys that a provisioned token has.
pub fn expected_secret_keys() -> (labels: Vec<&'static str>)
    ensures
        labels@.len() == 1,
        labels@[0]@ == DEMO_AES_KEY@,
{
    vec![DEMO_AES_KEY]
}

/// The two keys of a pair, or what is wrong.
pub fn require_pair(private: &Vec<ObjectHandle>, public: &Vec<ObjectHandle>) -> (result: Result<
    (ObjectHandle, ObjectHandle),
    &'static str,
>)
    ensures
        match result {
            Ok(pair) => private@.len() > 0 && public@.len() > 0 && pair == (
                private@[0],
                public@[0],
            ),
            Err(message) => (private@.len() == 0 || public@.len() == 0) && message@
                == "key pair not found; did softhsm-init run?"@,
        },
{
    match session::find_object_pair(private, public) {
        Some(pair) => Ok(pair),
        None => Err("key pair not found; did softhsm-init run?"),
    }
}

/// The attributes that say whether a key is protected.
pub fn protection_attributes() -> (types: Vec<AttributeType>)
    ensures
        types@ == seq![AttributeType::Sensitive, AttributeType::Extractable],
{
    let types: Vec<AttributeType> = vec![AttributeType::Sensitive, AttributeType::Extractable];
    assert(types@ =~= seq![AttributeType::Sensitive, AttributeType::Extractable]);
    types
}

/// What is wrong with a key of which this attribute is reported, if anything is.
pub open spec fn fault_of(attribute: AttributeView) -> Option<Seq<char>> {
    match attribute {
        AttributeView::Sensitive(false) => Some("private key is CKA_SENSITIVE=false"@),
        AttributeView::Extractable(true) => Some("private key is CKA_EXTRACTABLE=true"@),
        _ => None,
    }
}

/// Check that a private key cannot be read out; the first attribute that is wrong is reported.
///
/// That the key cannot be read out is the whole premise of a hardware security module, so it is
/// checked rather than taken on trust.
pub fn check_protection(attributes: &Vec<Attribute>) -> (result: Result<(), &'static str>)
    ensures
        match result {
            Ok(()) => forall|i: int|
                0 <= i < attributes@.len() ==> fault_of((#[trigger] attributes@[i])@) is None,
            Err(message) => exists|i: int|
                {
                    &&& 0 <= i < attributes@.len()
                    &&& fault_of((#[trigger] attributes@[i])@) == Some(message@)
                    &&& forall|j: int|
                        0 <= j < i ==> fault_of((#[trigger] attributes@[j])@) is None
                },
        },
{
    let mut i: usize = 0;
    while i < attributes.len()
        invariant
            i <= attributes@.len(),
            forall|j: int| 0 <= j < i ==> fault_of((#[trigger] attributes@[j])@) is None,
        decreases attributes@.len() - i,
    {
        match &attributes[i] {
            Attribute::Sensitive(false) => {
                assert(fault_of(attributes@[i as int]@) is Some);
                return Err("private key is CKA_SENSITIVE=false");
            },
            Attribute::Extractable(true) => {
                assert(fault_of(attributes@[i as int]@) is Some);
                return Err("private key is CKA_EXTRACTABLE=true");
            },
            _ => {},
        }
        i += 1;
    }
    Ok(())
}

/// Is a key with this label taken for an RSA key?
pub open spec fn is_rsa_label(label: Seq<char>) -> bool {
    text::occurs_in("rsa"@, label)
}

/// The mechanism and the payload by which a key is tried out on a message: an RSA key signs the
/// message, and any other its digest.
pub fn signing_probe(label: &str, message: &[u8]) -> (probe: (Mechanism, Vec<u8>))
    ensures
        if is_rsa_label(label@) {
            probe.0 == Mechanism::Sha256RsaPkcs && probe.1@ == message@
        } else {
            probe.0 == Mechanism::Ecdsa && probe.1@ == primitives::sha256(message@)
        },
{
    if text::contains(label, "rsa") {
        (Mechanism::Sha256RsaPkcs, slice_to_vec(message))
    } else {
        let digest: [u8; 32] = primitives::sha256_digest(message);
        (Mechanism::Ecdsa, slice_to_vec(digest.as_slice()))
    }
}

/// What is said of a key pair that passed, given the length of the signature that it made.
pub fn key_pair_note(signature_len: usize) -> (note: String)
    ensures
        note@ == "sensitive, non-extractable, signs ok ("@ + text::decimal(signature_len as nat)
            + " byte signature)"@,
{
    text::framed(
        "sensitive, non-extractable, signs ok (",
        signature_len as u64,
        " byte signature)",
    )
}

/// The session object by which it is tried out whether a session can write.
///
/// It is no token object, so the attempt leaves nothing behind.
pub open spec fn write_probe_template() -> Seq<AttributeView> {
    seq![
        AttributeView::Class(ObjectClass::Data),
        AttributeView::Token(false),
        AttributeView::Private(false),
        AttributeView::Label(vstd::utf8::encode_utf8("token-check-probe"@)),
        AttributeView::Value(vstd::utf8::encode_utf8("probe"@)),
    ]
}

/// The session object by which it is tried out whether a session can write.
pub fn write_probe() -> (template: Vec<Attribute>)
    ensures
        attribute_views(template@) == write_probe_template(),
{
    let template: Vec<Attribute> = vec![
        Attribute::Class(ObjectClass::Data),
        Attribute::Token(false),
        Attribute::Private(false),
        Attribute::Label("token-check-probe".as_bytes_vec()),
        Attribute::Value("probe".as_bytes_vec()),
    ];
    assert(attribute_views(template@) =~= write_probe_template());
    template
}

/// The failures, each on a line of its own behind a dash.
pub open spec fn listed(failures: Seq<String>) -> Seq<char>
    decreases failures.len(),
{
    if failures.len() == 0 {
        ""@
    } else {
        listed(failures.drop_last()) + "\n  - "@ + failures.last()@
    }
}

/// What the check comes to: it passes where nothing failed, and otherwise names every failure.
pub fn verdict(failures: &Vec<String>) -> (result: Result<(), String>)
    ensures
        match result {
            Ok(()) => failures@.len() == 0,
            Err(message) => failures@.len() > 0 && message@ == "token-check failed:"@ + listed(
                failures@,
            ),
        },
{
    if failures.len() == 0 {
        return Ok(());
    }
    let mut list = "".to_owned();
    let mut i: usize = 0;
    assert(failures@.take(0) =~= seq![]);
    while i < failures.len()
        invariant
            i <= failures@.len(),
            list@ == listed(failures@.take(i as int)),
        decreases failures@.len() - i,
    {
        assert(failures@.take(i + 1).drop_last() =~= failures@.take(i as int));
        list.append("\n  - ");
        list.append(failures[i].as_str());
        i += 1;
    }
    assert(failures@.take(i as int) =~= failures@);
    let mut message = "token-check failed:".to_owned();
    message.append(list.as_str());
    Err(message)
}

/// A key is at fault exactly where it can be read out: where it is not sensitive, or can be
/// extracted. No other attribute is.
pub proof fn law_a_key_is_at_fault_where_it_can_be_read(attribute: AttributeView)
    ensures
        fault_of(attribute) is Some <==> attribute == AttributeView::Sensitive(false) || attribute
            == AttributeView::Extractable(true),
        fault_of(AttributeView::Sensitive(false)) == Some("private key is CKA_SENSITIVE=false"@),
        fault_of(AttributeView::Extractable(true)) == Some("private key is CKA_EXTRACTABLE=true"@),
{
}

/// The keys that are provisioned pass: a template that protects its key has no attribute that is at
/// fault.
pub proof fn law_a_protected_key_passes(template: Seq<AttributeView>, at: int)
    requires
        is_protected(template),
        0 <= at < template.len(),
    ensures
        fault_of(template[at]) is None,
{
    assert(template.contains(template[at]));
}

/// A label with `rsa` in it, at whatever place, is taken for an RSA key's, and one without is not.
pub proof fn law_an_rsa_key_is_known_by_its_label(before: Seq<char>, after: Seq<char>)
    ensures
        is_rsa_label(before + "rsa"@ + after),
        is_rsa_label(DEMO_RSA_KEY@),
        !is_rsa_label(DEMO_EC_KEY@),
{
    let label = before + "rsa"@ + after;
    let at = before.len() as int;
    assert(label.subrange(at, at + "rsa"@.len()) =~= "rsa"@);
    assert(text::occurs_at("rsa"@, label, at));
    reveal_strlit("rsa");
    reveal_strlit("demo-rsa-2048");
    reveal_strlit("demo-ec-p256");
    assert("demo-rsa-2048"@.subrange(5, 8) =~= "rsa"@);
    assert(text::occurs_at("rsa"@, DEMO_RSA_KEY@, 5));
    assert forall|i: int| !#[trigger] text::occurs_at("rsa"@, DEMO_EC_KEY@, i) by {
        if text::occurs_at("rsa"@, DEMO_EC_KEY@, i) {
            assert(DEMO_EC_KEY@.subrange(i, i + 3)[0] == 'r');
            assert(DEMO_EC_KEY@[i] == 'r');
        }
    }
}

/// Every failure is reported: its text stands in the report, behind a dash of its own.
pub proof fn law_every_failure_is_reported(failures: Seq<String>, at: int)
    requires
        0 <= at < failures.len(),
    ensures
        text::occurs_in("\n  - "@ + failures[at]@, listed(failures)),
    decreases failures.len(),
{
    let entry = "\n  - "@ + failures[at]@;
    let before = listed(failures.drop_last());
    let whole = listed(failures);
    if at == failures.len() - 1 {
        let place = before.len() as int;
        assert(whole.subrange(place, place + entry.len()) =~= entry);
        assert(text::occurs_at(entry, whole, place));
    } else {
        law_every_failure_is_reported(failures.drop_last(), at);
        let place = choose|i: int| #[trigger] text::occurs_at(entry, before, i);
        assert(whole.subrange(place, place + entry.len()) =~= before.subrange(
            place,
            place + entry.len(),
        ));
        assert(text::occurs_at(entry, whole, place));
    }
}

/// The attempt to write leaves nothing behind, and touches no key: what it creates is data, and is
/// not kept on the token.
pub proof fn law_the_write_probe_leaves_nothing_behind()
    ensures
        write_probe_template().contains(AttributeView::Class(ObjectClass::Data)),
        write_probe_template().contains(AttributeView::Token(false)),
        !write_probe_template().contains(AttributeView::Token(true)),
{
    assert(write_probe_template().contains(write_probe_template()[0]));
    assert(write_probe_template().contains(write_probe_template()[1]));
}

} // verus!
