//! Opening, authenticating to and searching a PKCS#11 token.

use vstd::prelude::*;

use crate::pkcs11::errors::{PoolError, PoolErrorView};
use crate::pkcs11::token::{
    attribute_views, Attribute, AttributeView, ObjectClass, ObjectHandle, Rv, TokenError,
};
use crate::text;

verus! {

/// Everything that is needed to reach a token.
///
/// The type has no `Debug`, so that the PIN cannot slip into a log.
#[derive(Clone)]
pub struct TokenConfig {
    pub module: String,
    pub token_label: String,
    pub user_pin: String,
}

/// The configuration that the environment describes: two of the settings have a default, and
/// the PIN has none.
pub open spec fn configured(
    config: TokenConfig,
    module: Option<String>,
    token_label: Option<String>,
    user_pin: String,
) -> bool {
    &&& config.module@ == (match module {
        Some(path) => path@,
        None => "/usr/lib/softhsm/libsofthsm2.so"@,
    })
    &&& config.token_label@ == (match token_label {
        Some(label) => label@,
        None => "grpc-low-latency"@,
    })
    &&& config.user_pin@ == user_pin@
}

impl TokenConfig {
    /// The configuration from the values of `PKCS11_MODULE`, `TOKEN_LABEL` and `USER_PIN`.
    ///
    /// `USER_PIN` has no default on purpose: a silent fallback PIN is how a demo credential ends
    /// up in production.
    pub fn from_env(
        module: Option<String>,
        token_label: Option<String>,
        user_pin: Option<String>,
    ) -> (result: Result<TokenConfig, String>)
        ensures
            match (user_pin, result) {
                (Some(pin), Ok(config)) => configured(config, module, token_label, pin),
                (None, Err(message)) => message@
                    == "USER_PIN is not set; refusing to guess a PIN"@,
                _ => false,
            },
    {
        let user_pin = match user_pin {
            Some(pin) => pin,
            None => return Err("USER_PIN is not set; refusing to guess a PIN".to_owned()),
        };
        Ok(
            TokenConfig {
                module: match module {
                    Some(path) => path,
                    None => "/usr/lib/softhsm/libsofthsm2.so".to_owned(),
                },
                token_label: match token_label {
                    Some(label) => label,
                    None => "grpc-low-latency".to_owned(),
                },
                user_pin,
            },
        )
    }

    /// The configuration as it may be shown: the PIN is replaced by a fixed word.
    pub fn redacted(&self) -> (shown: TokenConfig)
        ensures
            shown.module@ == self.module@,
            shown.token_label@ == self.token_label@,
            shown.user_pin@ == "<redacted>"@,
    {
        TokenConfig {
            module: self.module.clone(),
            token_label: self.token_label.clone(),
            user_pin: "<redacted>".to_owned(),
        }
    }
}

/// Does the slot at `index` hold the wanted token? One whose token could not be read does not.
pub open spec fn slot_matches(labels: Seq<Option<String>>, index: int, wanted: Seq<char>) -> bool {
    labels[index] matches Some(label) && text::trimmed(label@) == wanted
}

/// The first slot that holds the wanted token, given the label of each slot's token.
///
/// A token pads its label with blanks, so the label is trimmed before it is compared.
pub fn choose_slot(labels: &Vec<Option<String>>, wanted: &str) -> (slot: Option<usize>)
    ensures
        match slot {
            Some(index) => {
                &&& index < labels@.len()
                &&& slot_matches(labels@, index as int, wanted@)
                &&& forall|i: int| 0 <= i < index ==> !slot_matches(labels@, i, wanted@)
            },
            None => forall|i: int| 0 <= i < labels@.len() ==> !slot_matches(labels@, i, wanted@),
        },
{
    let mut index: usize = 0;
    while index < labels.len()
        invariant
            index <= labels@.len(),
            forall|i: int| 0 <= i < index ==> !slot_matches(labels@, i, wanted@),
        decreases labels@.len() - index,
    {
        if let Some(label) = &labels[index] {
            if text::same_text(text::trim_text(label.as_str()), wanted) {
                return Some(index);
            }
        }
        index += 1;
    }
    None
}

/// What is said where no slot holds the wanted token.
pub fn no_such_token(wanted: &str) -> (message: String)
    ensures
        message@ == "no slot holds a token labelled '"@ + wanted@
            + "'; has softhsm-init run?"@,
{
    text::joined("no slot holds a token labelled '", wanted, "'; has softhsm-init run?")
}

/// The attributes by which an object of a class is found under a label.
pub open spec fn find_template_of(class: ObjectClass, label: Seq<char>) -> Seq<AttributeView> {
    seq![AttributeView::Class(class), AttributeView::Label(vstd::utf8::encode_utf8(label))]
}

/// The attributes by which an object of a class is found under a label.
pub fn find_template(class: ObjectClass, label: &str) -> (template: Vec<Attribute>)
    ensures
        attribute_views(template@) == find_template_of(class, label@),
{
    let template: Vec<Attribute> = vec![
        Attribute::Class(class),
        Attribute::Label(label.as_bytes_vec()),
    ];
    assert(attribute_views(template@) =~= find_template_of(class, label@));
    template
}

/// The object that a search settles on: the first that it found.
pub fn find_object(found: &Vec<ObjectHandle>) -> (object: Option<ObjectHandle>)
    ensures
        object == (if found@.len() == 0 {
            None::<ObjectHandle>
        } else {
            Some(found@[0])
        }),
{
    if found.len() == 0 {
        None
    } else {
        Some(found[0])
    }
}

/// The private and the public object of a key pair, where a search for each found one.
pub fn find_object_pair(private: &Vec<ObjectHandle>, public: &Vec<ObjectHandle>) -> (pair: Option<
    (ObjectHandle, ObjectHandle),
>)
    ensures
        pair == (if private@.len() == 0 || public@.len() == 0 {
            None::<(ObjectHandle, ObjectHandle)>
        } else {
            Some((private@[0], public@[0]))
        }),
{
    match (find_object(private), find_object(public)) {
        (Some(private), Some(public)) => Some((private, public)),
        _ => None,
    }
}

/// The two calls by which a session is opened.
#[derive(Clone, Copy, Debug, PartialEq, Eq, Structural)]
pub enum LoginStep {
    OpenSession,
    Login,
}

impl LoginStep {
    /// How a failure of the call is introduced.
    pub open spec fn failure(self) -> Seq<char> {
        match self {
            LoginStep::OpenSession => "C_OpenSession(CKF_RW_SESSION) failed: "@,
            LoginStep::Login => "C_Login(CKU_USER) failed -- wrong USER_PIN?: "@,
        }
    }
}

/// After a session could not be opened with a login: is a session without one to be opened?
///
/// Login state belongs to the token and to the whole application, not to a session, so every
/// worker but the first finds itself logged in already. That is success, not an error.
pub fn recover_login(step: LoginStep, source: TokenError) -> (result: Result<(), PoolError>)
    ensures
        match result {
            Ok(()) => source.rv is UserAlreadyLoggedIn,
            Err(error) => {
                &&& !(source.rv is UserAlreadyLoggedIn)
                &&& error@ == PoolErrorView::Internal(step.failure() + source.text@)
            },
        },
{
    match source.rv {
        Rv::UserAlreadyLoggedIn => Ok(()),
        _ => {
            let mut message = match step {
                LoginStep::OpenSession => "C_OpenSession(CKF_RW_SESSION) failed: ".to_owned(),
                LoginStep::Login => "C_Login(CKU_USER) failed -- wrong USER_PIN?: ".to_owned(),
            };
            message.append(source.text.as_str());
            Err(PoolError::Internal(message))
        },
    }
}

/// The failure of the session without a login, which is then the failure of the worker.
pub fn plain_session_failure(source: TokenError) -> (error: PoolError)
    ensures
        error@ == (PoolErrorView::Hsm { operation: "C_OpenSession"@, source: source@ }),
{
    PoolError::hsm("C_OpenSession", source)
}

/// A token is found under its label, with whatever blanks it is padded with.
pub proof fn law_a_padded_label_matches(
    labels: Seq<Option<String>>,
    index: int,
    wanted: Seq<char>,
    padding: Seq<char>,
)
    requires
        0 <= index < labels.len(),
        labels[index] is Some,
        (labels[index]->0)@ == wanted + padding,
        wanted.len() > 0,
        !text::is_white(wanted[0]),
        !text::is_white(wanted.last()),
        forall|i: int| 0 <= i < padding.len() ==> text::is_white(#[trigger] padding[i]),
    ensures
        slot_matches(labels, index, wanted),
{
    text::law_trimming_takes_the_ends(seq![], wanted, padding);
    assert(seq![] + wanted + padding =~= wanted + padding);
}

/// A slot whose token could not be read holds no token.
pub proof fn law_an_unread_slot_holds_nothing(
    labels: Seq<Option<String>>,
    index: int,
    wanted: Seq<char>,
)
    requires
        labels[index] is None,
    ensures
        !slot_matches(labels, index, wanted),
{
}

/// What is configured is used as it is: the module, the label and the PIN that were given, and the
/// defaults for the first two alone.
pub proof fn law_the_configuration_is_what_was_given(
    config: TokenConfig,
    module: Option<String>,
    token_label: Option<String>,
    user_pin: String,
)
    requires
        configured(config, module, token_label, user_pin),
    ensures
        config.user_pin@ == user_pin@,
        module is Some ==> config.module@ == (module->0)@,
        token_label is Some ==> config.token_label@ == (token_label->0)@,
        module is None ==> config.module@ == "/usr/lib/softhsm/libsofthsm2.so"@,
        token_label is None ==> config.token_label@ == "grpc-low-latency"@,
{
}

} // verus!
