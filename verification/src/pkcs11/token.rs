//! What the proxy says to a PKCS#11 token and hears back from it, as plain values.

use vstd::prelude::*;

verus! {

/// The class of an object on the token.
#[derive(Clone, Copy, Debug, PartialEq, Eq, Structural)]
pub enum ObjectClass {
    PrivateKey,
    PublicKey,
    SecretKey,
    Data,
}

/// The type of a key on the token.
#[derive(Clone, Copy, Debug, PartialEq, Eq, Structural)]
pub enum KeyType {
    Rsa,
    Ec,
    Aes,
    /// A type that the proxy has no use for, by its `CKK_` number.
    Other(u64),
}

impl KeyType {
    /// The `CKK_` number of the type.
    pub open spec fn spec_code(self) -> u64 {
        match self {
            KeyType::Rsa => 0,
            KeyType::Ec => 3,
            KeyType::Aes => 0x1f,
            KeyType::Other(code) => code,
        }
    }

    /// The `CKK_` number of the type.
    #[verifier::when_used_as_spec(spec_code)]
    pub fn code(self) -> (code: u64)
        ensures
            code == self.spec_code(),
    {
        match self {
            KeyType::Rsa => 0,
            KeyType::Ec => 3,
            KeyType::Aes => 0x1f,
            KeyType::Other(code) => code,
        }
    }
}

/// An attribute of an object on the token.
#[derive(Clone, Debug)]
pub enum Attribute {
    Class(ObjectClass),
    Token(bool),
    Private(bool),
    Sensitive(bool),
    Extractable(bool),
    Sign(bool),
    Verify(bool),
    Encrypt(bool),
    Decrypt(bool),
    Label(Vec<u8>),
    KeyType(KeyType),
    EcParams(Vec<u8>),
    EcPoint(Vec<u8>),
    ModulusBits(u64),
    Modulus(Vec<u8>),
    PublicExponent(Vec<u8>),
    ValueLen(u64),
    Value(Vec<u8>),
    /// An attribute that the proxy never reads.
    Other,
}

/// An attribute that the proxy asks the token for.
#[derive(Clone, Copy, Debug, PartialEq, Eq, Structural)]
pub enum AttributeType {
    KeyType,
    EcPoint,
    Modulus,
    PublicExponent,
    Sensitive,
    Extractable,
}

/// The value of an [`Attribute`].
#[verifier::ext_equal]
pub enum AttributeView {
    Class(ObjectClass),
    Token(bool),
    Private(bool),
    Sensitive(bool),
    Extractable(bool),
    Sign(bool),
    Verify(bool),
    Encrypt(bool),
    Decrypt(bool),
    Label(Seq<u8>),
    KeyType(KeyType),
    EcParams(Seq<u8>),
    EcPoint(Seq<u8>),
    ModulusBits(u64),
    Modulus(Seq<u8>),
    PublicExponent(Seq<u8>),
    ValueLen(u64),
    Value(Seq<u8>),
    Other,
}

impl View for Attribute {
    type V = AttributeView;

    open spec fn view(&self) -> AttributeView {
        match self {
            Attribute::Class(class) => AttributeView::Class(*class),
            Attribute::Token(on) => AttributeView::Token(*on),
            Attribute::Private(on) => AttributeView::Private(*on),
            Attribute::Sensitive(on) => AttributeView::Sensitive(*on),
            Attribute::Extractable(on) => AttributeView::Extractable(*on),
            Attribute::Sign(on) => AttributeView::Sign(*on),
            Attribute::Verify(on) => AttributeView::Verify(*on),
            Attribute::Encrypt(on) => AttributeView::Encrypt(*on),
            Attribute::Decrypt(on) => AttributeView::Decrypt(*on),
            Attribute::Label(bytes) => AttributeView::Label(bytes@),
            Attribute::KeyType(key_type) => AttributeView::KeyType(*key_type),
            Attribute::EcParams(bytes) => AttributeView::EcParams(bytes@),
            Attribute::EcPoint(bytes) => AttributeView::EcPoint(bytes@),
            Attribute::ModulusBits(bits) => AttributeView::ModulusBits(*bits),
            Attribute::Modulus(bytes) => AttributeView::Modulus(bytes@),
            Attribute::PublicExponent(bytes) => AttributeView::PublicExponent(bytes@),
            Attribute::ValueLen(len) => AttributeView::ValueLen(*len),
            Attribute::Value(bytes) => AttributeView::Value(bytes@),
            Attribute::Other => AttributeView::Other,
        }
    }
}

/// The values of a list of attributes.
pub open spec fn attribute_views(attributes: Seq<Attribute>) -> Seq<AttributeView> {
    attributes.map_values(|attribute: Attribute| attribute@)
}

/// What the token answered to the question for a key's type, and how the answer reads in a log.
#[derive(Clone, Debug)]
pub struct KeyTypeAnswer {
    pub attributes: Vec<Attribute>,
    pub text: String,
}

/// What a PKCS#11 call returned in place of `CKR_OK`.
#[derive(Clone, Copy, Debug, PartialEq, Eq, Structural)]
pub enum Rv {
    SessionHandleInvalid,
    SessionClosed,
    DeviceError,
    DeviceRemoved,
    TokenNotPresent,
    UserNotLoggedIn,
    UserAlreadyLoggedIn,
    SignatureInvalid,
    SignatureLenRange,
    EncryptedDataInvalid,
    EncryptedDataLenRange,
    /// Any other return value, and any failure that came before the call.
    Other,
}

/// A failed PKCS#11 call: what it returned, and how the failure reads in a log.
#[derive(Clone, Debug)]
pub struct TokenError {
    pub rv: Rv,
    pub text: String,
}

/// The value of a [`TokenError`].
#[verifier::ext_equal]
pub struct TokenErrorView {
    pub rv: Rv,
    pub text: Seq<char>,
}

impl View for TokenError {
    type V = TokenErrorView;

    open spec fn view(&self) -> TokenErrorView {
        TokenErrorView { rv: self.rv, text: self.text@ }
    }
}

/// An object on the token, as one session knows it.
///
/// The number means nothing in any other session.
#[derive(Clone, Copy, Debug, PartialEq, Eq, Structural)]
pub struct ObjectHandle {
    pub id: u64,
}

/// The parameters of AES-GCM.
#[derive(Clone, Debug)]
pub struct GcmParams {
    pub iv: Vec<u8>,
    pub associated_data: Vec<u8>,
    pub tag_bits: u64,
}

/// Each type of key has the number that PKCS#11 gives it, and a type that the proxy does not know
/// keeps its own.
pub proof fn law_a_key_type_has_its_number(code: u64)
    ensures
        KeyType::Rsa.spec_code() == 0,
        KeyType::Ec.spec_code() == 3,
        KeyType::Aes.spec_code() == 31,
        KeyType::Other(code).spec_code() == code,
{
}

/// An attribute is known by all of it.
pub proof fn law_an_attribute_is_known_by_all_of_it(one: Attribute, another: Attribute)
    requires
        one@ == another@,
    ensures
        match (one, another) {
            (Attribute::Label(a), Attribute::Label(b)) => a@ == b@,
            (Attribute::EcParams(a), Attribute::EcParams(b)) => a@ == b@,
            (Attribute::EcPoint(a), Attribute::EcPoint(b)) => a@ == b@,
            (Attribute::Modulus(a), Attribute::Modulus(b)) => a@ == b@,
            (Attribute::PublicExponent(a), Attribute::PublicExponent(b)) => a@ == b@,
            (Attribute::Value(a), Attribute::Value(b)) => a@ == b@,
            (Attribute::Label(_), _) | (Attribute::EcParams(_), _) | (Attribute::EcPoint(_), _)
            | (Attribute::Modulus(_), _) | (Attribute::PublicExponent(_), _)
            | (Attribute::Value(_), _) => false,
            _ => one == another,
        },
{
}

} // verus!
