//! Creating the demo keys on a token.
//!
//! The templates stand in one place, so that every environment has keys with the same attributes.
//! The ones that matter are `CKA_SENSITIVE` and `CKA_EXTRACTABLE`: no private or secret key can
//! ever be read off the token.

use vstd::prelude::*;

use crate::pkcs11::session;
use crate::pkcs11::token::{
    attribute_views, Attribute, AttributeView, KeyType, ObjectClass, ObjectHandle,
};
use crate::primitives;

verus! {

/// The label of the demo EC key pair.
pub const DEMO_EC_KEY: &'static str = "demo-ec-p256";

/// The label of the demo RSA key pair.
pub const DEMO_RSA_KEY: &'static str = "demo-rsa-2048";

/// The label of the demo AES key.
pub const DEMO_AES_KEY: &'static str = "demo-aes-256";

/// The DER encoding of the secp256r1 named-curve OID (1.2.840.10045.3.1.7).
pub open spec fn secp256r1_oid() -> Seq<u8> {
    seq![0x06u8, 0x08, 0x2A, 0x86, 0x48, 0xCE, 0x3D, 0x03, 0x01, 0x07]
}

fn secp256r1_oid_der() -> (der: Vec<u8>)
    ensures
        der@ == secp256r1_oid(),
{
    let der: Vec<u8> = vec![0x06u8, 0x08, 0x2A, 0x86, 0x48, 0xCE, 0x3D, 0x03, 0x01, 0x07];
    assert(der@ =~= secp256r1_oid());
    der
}

/// Whether a key had to be created or was already there.
#[derive(Clone, Copy, Debug, PartialEq, Eq, Structural)]
pub enum Provisioned {
    Created,
    AlreadyPresent,
}

/// The keys that are provisioned.
#[derive(Clone, Copy, Debug, PartialEq, Eq, Structural)]
pub enum DemoKey {
    Ec,
    Rsa,
    Aes,
}

/// What has to be generated.
#[derive(Debug)]
pub enum Generation {
    /// A key pair, by `CKM_EC_KEY_PAIR_GEN`.
    EcKeyPair { public: Vec<Attribute>, private: Vec<Attribute> },
    /// A key pair, by `CKM_RSA_PKCS_KEY_PAIR_GEN`.
    RsaKeyPair { public: Vec<Attribute>, private: Vec<Attribute> },
    /// A secret key, by `CKM_AES_KEY_GEN`.
    AesKey { template: Vec<Attribute> },
}

/// The attributes that every private key has: the token must never hand the key back.
pub open spec fn private_base(label: Seq<char>) -> Seq<AttributeView> {
    seq![
        AttributeView::Token(true),
        AttributeView::Private(true),
        AttributeView::Sensitive(true),
        AttributeView::Extractable(false),
        AttributeView::Sign(true),
        AttributeView::Label(vstd::utf8::encode_utf8(label)),
    ]
}

/// The attributes that every public key has.
pub open spec fn public_base(label: Seq<char>) -> Seq<AttributeView> {
    seq![
        AttributeView::Token(true),
        AttributeView::Private(false),
        AttributeView::Verify(true),
        AttributeView::Label(vstd::utf8::encode_utf8(label)),
    ]
}

/// The public half of an EC key pair on P-256.
pub open spec fn ec_public(label: Seq<char>) -> Seq<AttributeView> {
    public_base(label) + seq![
        AttributeView::KeyType(KeyType::Ec),
        AttributeView::EcParams(secp256r1_oid()),
    ]
}

/// The public half of an RSA key pair of 2048 bits, with the exponent 65537.
pub open spec fn rsa_public(label: Seq<char>) -> Seq<AttributeView> {
    public_base(label) + seq![
        AttributeView::KeyType(KeyType::Rsa),
        AttributeView::ModulusBits(2048),
        AttributeView::PublicExponent(seq![0x01u8, 0x00, 0x01]),
        AttributeView::Encrypt(true),
    ]
}

/// The private half of an RSA key pair.
pub open spec fn rsa_private(label: Seq<char>) -> Seq<AttributeView> {
    private_base(label) + seq![AttributeView::Decrypt(true)]
}

/// An AES key of 256 bits.
pub open spec fn aes_secret(label: Seq<char>) -> Seq<AttributeView> {
    seq![
        AttributeView::Token(true),
        AttributeView::Private(true),
        AttributeView::Sensitive(true),
        AttributeView::Extractable(false),
        AttributeView::Encrypt(true),
        AttributeView::Decrypt(true),
        AttributeView::KeyType(KeyType::Aes),
        AttributeView::ValueLen(32),
        AttributeView::Label(vstd::utf8::encode_utf8(label)),
    ]
}

fn private_key_base(label: &str) -> (template: Vec<Attribute>)
    ensures
        attribute_views(template@) == private_base(label@),
{
    let template: Vec<Attribute> = vec![
        Attribute::Token(true),
        Attribute::Private(true),
        Attribute::Sensitive(true),
        Attribute::Extractable(false),
        Attribute::Sign(true),
        Attribute::Label(label.as_bytes_vec()),
    ];
    assert(attribute_views(template@) =~= private_base(label@));
    template
}

fn public_key_base(label: &str) -> (template: Vec<Attribute>)
    ensures
        attribute_views(template@) == public_base(label@),
{
    let template: Vec<Attribute> = vec![
        Attribute::Token(true),
        Attribute::Private(false),
        Attribute::Verify(true),
        Attribute::Label(label.as_bytes_vec()),
    ];
    assert(attribute_views(template@) =~= public_base(label@));
    template
}

fn push(template: &mut Vec<Attribute>, attribute: Attribute)
    ensures
        attribute_views(final(template)@) == attribute_views(old(template)@).push(attribute@),
{
    template.push(attribute);
    assert(attribute_views(template@) =~= attribute_views(old(template)@).push(attribute@));
}

impl DemoKey {
    /// The class of the object by which the key is known to be there.
    pub open spec fn spec_object_class(self) -> ObjectClass {
        match self {
            DemoKey::Ec | DemoKey::Rsa => ObjectClass::PrivateKey,
            DemoKey::Aes => ObjectClass::SecretKey,
        }
    }

    /// The class of the object by which the key is known to be there.
    pub fn object_class(self) -> (class: ObjectClass)
        ensures
            class == self.spec_object_class(),
    {
        match self {
            DemoKey::Ec | DemoKey::Rsa => ObjectClass::PrivateKey,
            DemoKey::Aes => ObjectClass::SecretKey,
        }
    }

    /// The label under which the key is provisioned.
    pub fn label(self) -> (label: &'static str)
        ensures
            label@ == (match self {
                DemoKey::Ec => DEMO_EC_KEY@,
                DemoKey::Rsa => DEMO_RSA_KEY@,
                DemoKey::Aes => DEMO_AES_KEY@,
            }),
    {
        match self {
            DemoKey::Ec => DEMO_EC_KEY,
            DemoKey::Rsa => DEMO_RSA_KEY,
            DemoKey::Aes => DEMO_AES_KEY,
        }
    }
}

/// The demo keys that every environment is expected to have, in the order in which they are
/// provisioned.
pub fn demo_keys() -> (keys: Vec<DemoKey>)
    ensures
        keys@ == seq![DemoKey::Ec, DemoKey::Rsa, DemoKey::Aes],
{
    let keys: Vec<DemoKey> = vec![DemoKey::Ec, DemoKey::Rsa, DemoKey::Aes];
    assert(keys@ =~= seq![DemoKey::Ec, DemoKey::Rsa, DemoKey::Aes]);
    keys
}

/// What has to be generated for an EC key pair under the label, given which private keys were
/// found there; nothing where there is one.
pub fn ensure_ec_key(found: &Vec<ObjectHandle>, label: &str) -> (plan: Option<Generation>)
    ensures
        if found@.len() > 0 {
            plan is None
        } else {
            plan matches Some(Generation::EcKeyPair { public, private }) && attribute_views(
                public@,
            ) == ec_public(label@) && attribute_views(private@) == private_base(label@)
        },
{
    if found.len() > 0 {
        return None;
    }
    let mut public = public_key_base(label);
    push(&mut public, Attribute::KeyType(KeyType::Ec));
    push(&mut public, Attribute::EcParams(secp256r1_oid_der()));
    assert(attribute_views(public@) =~= ec_public(label@));
    Some(Generation::EcKeyPair { public, private: private_key_base(label) })
}

/// What has to be generated for an RSA key pair under the label, given which private keys were
/// found there; nothing where there is one.
pub fn ensure_rsa_key(found: &Vec<ObjectHandle>, label: &str) -> (plan: Option<Generation>)
    ensures
        if found@.len() > 0 {
            plan is None
        } else {
            plan matches Some(Generation::RsaKeyPair { public, private }) && attribute_views(
                public@,
            ) == rsa_public(label@) && attribute_views(private@) == rsa_private(label@)
        },
{
    if found.len() > 0 {
        return None;
    }
    let exponent: Vec<u8> = vec![0x01u8, 0x00, 0x01];
    assert(exponent@ =~= seq![0x01u8, 0x00, 0x01]);
    let mut public = public_key_base(label);
    push(&mut public, Attribute::KeyType(KeyType::Rsa));
    push(&mut public, Attribute::ModulusBits(2048));
    push(&mut public, Attribute::PublicExponent(exponent));
    push(&mut public, Attribute::Encrypt(true));
    assert(attribute_views(public@) =~= rsa_public(label@));
    let mut private = private_key_base(label);
    push(&mut private, Attribute::Decrypt(true));
    assert(attribute_views(private@) =~= rsa_private(label@));
    Some(Generation::RsaKeyPair { public, private })
}

/// What has to be generated for an AES key under the label, given which secret keys were found
/// there; nothing where there is one.
pub fn ensure_aes_key(found: &Vec<ObjectHandle>, label: &str) -> (plan: Option<Generation>)
    ensures
        if found@.len() > 0 {
            plan is None
        } else {
            plan matches Some(Generation::AesKey { template }) && attribute_views(template@)
                == aes_secret(label@)
        },
{
    if found.len() > 0 {
        return None;
    }
    let template: Vec<Attribute> = vec![
        Attribute::Token(true),
        Attribute::Private(true),
        Attribute::Sensitive(true),
        Attribute::Extractable(false),
        Attribute::Encrypt(true),
        Attribute::Decrypt(true),
        Attribute::KeyType(KeyType::Aes),
        Attribute::ValueLen(32),
        Attribute::Label(label.as_bytes_vec()),
    ];
    assert(attribute_views(template@) =~= aes_secret(label@));
    Some(Generation::AesKey { template })
}

/// What has to be generated for a demo key under its label, given what was found there.
pub fn ensure_demo_key(key: DemoKey, found: &Vec<ObjectHandle>) -> (plan: Option<Generation>)
    ensures
        plan is None <==> found@.len() > 0,
        plan matches Some(generation) ==> match key {
            DemoKey::Ec => generation matches Generation::EcKeyPair { public, private }
                && attribute_views(public@) == ec_public(DEMO_EC_KEY@) && attribute_views(private@)
                == private_base(DEMO_EC_KEY@),
            DemoKey::Rsa => generation matches Generation::RsaKeyPair { public, private }
                && attribute_views(public@) == rsa_public(DEMO_RSA_KEY@) && attribute_views(
                private@,
            ) == rsa_private(DEMO_RSA_KEY@),
            DemoKey::Aes => generation matches Generation::AesKey { template } && attribute_views(
                template@,
            ) == aes_secret(DEMO_AES_KEY@),
        },
{
    match key {
        DemoKey::Ec => ensure_ec_key(found, key.label()),
        DemoKey::Rsa => ensure_rsa_key(found, key.label()),
        DemoKey::Aes => ensure_aes_key(found, key.label()),
    }
}

/// What provisioning a key came to, given whether anything had to be generated.
pub fn provisioned(plan: &Option<Generation>) -> (outcome: Provisioned)
    ensures
        outcome == (if plan is Some {
            Provisioned::Created
        } else {
            Provisioned::AlreadyPresent
        }),
{
    match plan {
        Some(_) => Provisioned::Created,
        None => Provisioned::AlreadyPresent,
    }
}

/// Is a key with these attributes one that the token never hands back?
pub open spec fn is_protected(template: Seq<AttributeView>) -> bool {
    &&& template.contains(AttributeView::Sensitive(true))
    &&& template.contains(AttributeView::Extractable(false))
    &&& template.contains(AttributeView::Private(true))
    &&& !template.contains(AttributeView::Sensitive(false))
    &&& !template.contains(AttributeView::Extractable(true))
    &&& !template.contains(AttributeView::Private(false))
}

/// No private or secret key that is ever generated can be read off the token.
pub proof fn law_generated_keys_are_protected(label: Seq<char>)
    ensures
        is_protected(private_base(label)),
        is_protected(rsa_private(label)),
        is_protected(aes_secret(label)),
{
    let base = private_base(label);
    assert(base[1] == AttributeView::Private(true));
    assert(base[2] == AttributeView::Sensitive(true));
    assert(base[3] == AttributeView::Extractable(false));
    let rsa = rsa_private(label);
    assert(rsa[1] == AttributeView::Private(true));
    assert(rsa[2] == AttributeView::Sensitive(true));
    assert(rsa[3] == AttributeView::Extractable(false));
    let aes = aes_secret(label);
    assert(aes[1] == AttributeView::Private(true));
    assert(aes[2] == AttributeView::Sensitive(true));
    assert(aes[3] == AttributeView::Extractable(false));
}

/// An EC key pair is one of P-256: its public half names the curve by 1.2.840.10045.3.1.7 and
/// verifies, its private half signs, and both stay on the token.
pub proof fn law_an_ec_key_is_on_p256(label: Seq<char>)
    ensures
        ec_public(label).contains(AttributeView::KeyType(KeyType::Ec)),
        ec_public(label).contains(
            AttributeView::EcParams(
                seq![6u8, 8, (40 + 2) as u8, 0x86, 0x48, 0xCE, 0x3D, 3, 1, 7],
            ),
        ),
        ec_public(label).contains(AttributeView::Verify(true)),
        ec_public(label).contains(AttributeView::Token(true)),
        private_base(label).contains(AttributeView::Sign(true)),
        private_base(label).contains(AttributeView::Token(true)),
{
    let public = ec_public(label);
    assert(secp256r1_oid() =~= seq![6u8, 8, (40 + 2) as u8, 0x86, 0x48, 0xCE, 0x3D, 3, 1, 7]);
    assert(public.contains(public[0]));
    assert(public.contains(public[2]));
    assert(public.contains(public[4]));
    assert(public.contains(public[5]));
    let private = private_base(label);
    assert(private.contains(private[0]));
    assert(private.contains(private[4]));
}

/// An RSA key pair has 2048 bits and the exponent 65537, verifies and signs, encrypts and decrypts,
/// and stays on the token.
pub proof fn law_an_rsa_key_has_2048_bits(label: Seq<char>)
    ensures
        rsa_public(label).contains(AttributeView::KeyType(KeyType::Rsa)),
        rsa_public(label).contains(AttributeView::ModulusBits(2048)),
        exists|exponent: Seq<u8>|
            {
                &&& #[trigger] rsa_public(label).contains(AttributeView::PublicExponent(exponent))
                &&& primitives::big_endian(exponent) == 65537
            },
        rsa_public(label).contains(AttributeView::Verify(true)),
        rsa_public(label).contains(AttributeView::Encrypt(true)),
        rsa_public(label).contains(AttributeView::Token(true)),
        rsa_private(label).contains(AttributeView::Sign(true)),
        rsa_private(label).contains(AttributeView::Decrypt(true)),
        rsa_private(label).contains(AttributeView::Token(true)),
{
    let public = rsa_public(label);
    let exponent = seq![0x01u8, 0x00, 0x01];
    assert(exponent.drop_last() =~= seq![1u8, 0u8]);
    assert(exponent.drop_last().drop_last() =~= seq![1u8]);
    assert(exponent.drop_last().drop_last().drop_last() =~= seq![]);
    reveal_with_fuel(primitives::big_endian, 5);
    assert(primitives::big_endian(exponent) == 65537);
    assert(public.contains(public[0]));
    assert(public.contains(public[2]));
    assert(public.contains(public[4]));
    assert(public.contains(public[5]));
    assert(public[6] == AttributeView::PublicExponent(exponent));
    assert(public.contains(AttributeView::PublicExponent(exponent)));
    assert(public.contains(public[7]));
    let private = rsa_private(label);
    assert(private.contains(private[0]));
    assert(private.contains(private[4]));
    assert(private.contains(private[6]));
}

/// An AES key has 256 bits, encrypts and decrypts, and stays on the token.
pub proof fn law_an_aes_key_has_256_bits(label: Seq<char>)
    ensures
        aes_secret(label).contains(AttributeView::KeyType(KeyType::Aes)),
        aes_secret(label).contains(AttributeView::ValueLen(32)),
        aes_secret(label).contains(AttributeView::Encrypt(true)),
        aes_secret(label).contains(AttributeView::Decrypt(true)),
        aes_secret(label).contains(AttributeView::Token(true)),
{
    let secret = aes_secret(label);
    assert(secret.contains(secret[0]));
    assert(secret.contains(secret[4]));
    assert(secret.contains(secret[5]));
    assert(secret.contains(secret[6]));
    assert(secret.contains(secret[7]));
}

/// What is generated under a label is found under it again: every template has the label that a
/// search for it asks for.
pub proof fn law_a_generated_key_is_found_under_its_label(label: Seq<char>, class: ObjectClass)
    ensures
        ({
            let asked = session::find_template_of(class, label)[1];
            &&& asked is Label
            &&& ec_public(label).contains(asked)
            &&& rsa_public(label).contains(asked)
            &&& private_base(label).contains(asked)
            &&& rsa_private(label).contains(asked)
            &&& aes_secret(label).contains(asked)
        }),
        session::find_template_of(class, label)[0] == AttributeView::Class(class),
{
    let asked = session::find_template_of(class, label)[1];
    assert(ec_public(label)[3] == asked);
    assert(rsa_public(label)[3] == asked);
    assert(private_base(label)[5] == asked);
    assert(rsa_private(label)[5] == asked);
    assert(aes_secret(label)[8] == asked);
}

/// A public key is open to everyone, and a key is known to be there by the half that only the token
/// has.
pub proof fn law_a_public_key_is_open(label: Seq<char>)
    ensures
        ec_public(label).contains(AttributeView::Private(false)),
        !ec_public(label).contains(AttributeView::Private(true)),
        rsa_public(label).contains(AttributeView::Private(false)),
        !rsa_public(label).contains(AttributeView::Private(true)),
        DemoKey::Ec.spec_object_class() is PrivateKey,
        DemoKey::Rsa.spec_object_class() is PrivateKey,
        DemoKey::Aes.spec_object_class() is SecretKey,
{
    let ec = ec_public(label);
    let rsa = rsa_public(label);
    assert(ec.contains(ec[1]));
    assert(rsa.contains(rsa[1]));
}

} // verus!
