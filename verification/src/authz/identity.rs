//! Who a caller is, by the client certificate.
//!
//! `x509_parser` reads the names in a certificate. Which of them is the caller's identity is
//! decided here.

use vstd::prelude::*;
use vstd::slice::slice_to_vec;
use x509_parser::prelude::FromDer;

use crate::status::{status_of, Code, Status, StatusView};

verus! {

/// The identity of a caller, by the name in the certificate that it was taken from.
#[derive(Debug)]
pub enum Identity {
    /// A URI among the alternative names of the subject, as in
    /// `spiffe://local/ns/default/sa/payments`.
    Uri(String),
    /// The common name of the subject.
    CommonName(String),
}

/// The value of an [`Identity`].
#[verifier::ext_equal]
pub enum IdentityView {
    Uri(Seq<char>),
    CommonName(Seq<char>),
}

impl View for Identity {
    type V = IdentityView;

    open spec fn view(&self) -> IdentityView {
        match self {
            Identity::Uri(uri) => IdentityView::Uri(uri@),
            Identity::CommonName(name) => IdentityView::CommonName(name@),
        }
    }
}

impl IdentityView {
    /// The name itself.
    pub open spec fn name(self) -> Seq<char> {
        match self {
            IdentityView::Uri(uri) => uri,
            IdentityView::CommonName(name) => name,
        }
    }
}

impl Identity {
    /// The name itself.
    pub fn name(&self) -> (name: &str)
        ensures
            name@ == self@.name(),
    {
        match self {
            Identity::Uri(uri) => uri.as_str(),
            Identity::CommonName(name) => name.as_str(),
        }
    }

    fn copied(&self) -> (identity: Identity)
        ensures
            identity@ == self@,
    {
        match self {
            Identity::Uri(uri) => Identity::Uri(uri.as_str().to_owned()),
            Identity::CommonName(name) => Identity::CommonName(name.as_str().to_owned()),
        }
    }
}

/// What a DER certificate says of the alternative names of its subject.
#[derive(Debug)]
pub enum AlternativeNames {
    /// The bytes are no certificate.
    NoCertificate,
    /// The certificate has no such names.
    NoExtension,
    /// The certificate has such names, and they cannot be read.
    Unreadable,
    /// The names, in their order: the text of each that is a URI, and nothing for each that is
    /// not.
    Listed(Vec<Option<String>>),
}

/// The value of an [`AlternativeNames`].
#[verifier::ext_equal]
pub enum AlternativeNamesView {
    NoCertificate,
    NoExtension,
    Unreadable,
    Listed(Seq<Option<Seq<char>>>),
}

impl View for AlternativeNames {
    type V = AlternativeNamesView;

    open spec fn view(&self) -> AlternativeNamesView {
        match self {
            AlternativeNames::NoCertificate => AlternativeNamesView::NoCertificate,
            AlternativeNames::NoExtension => AlternativeNamesView::NoExtension,
            AlternativeNames::Unreadable => AlternativeNamesView::Unreadable,
            AlternativeNames::Listed(names) => AlternativeNamesView::Listed(name_views(names@)),
        }
    }
}

/// What a DER certificate says of the alternative names of its subject.
pub uninterp spec fn alternative_names_in(der: Seq<u8>) -> AlternativeNamesView;

/// The common names of the subject of a DER certificate, in their order: the text of each that
/// can be read as text, and nothing for each that cannot. No list at all where the bytes are no
/// certificate.
pub uninterp spec fn common_names_in(der: Seq<u8>) -> Option<Seq<Option<Seq<char>>>>;

/// The value of a name that may be missing.
pub open spec fn name_view(name: Option<String>) -> Option<Seq<char>> {
    match name {
        Some(name) => Some(name@),
        None => None,
    }
}

/// The values of a list of names.
pub open spec fn name_views(names: Seq<Option<String>>) -> Seq<Option<Seq<char>>> {
    names.map_values(|name: Option<String>| name_view(name))
}

/// The values of a list of names, where there is one.
pub open spec fn list_view(names: Option<Vec<Option<String>>>) -> Option<Seq<Option<Seq<char>>>> {
    match names {
        Some(names) => Some(name_views(names@)),
        None => None,
    }
}

/// `x509_parser`'s `X509Certificate::from_der` and `subject_alternative_name`: what they find is
/// named.
#[verifier::external_body]
fn alternative_names(der: &[u8]) -> (names: AlternativeNames)
    ensures
        names@ == alternative_names_in(der@),
{
    let Ok((_, certificate)) = x509_parser::certificate::X509Certificate::from_der(der) else {
        return AlternativeNames::NoCertificate;
    };
    let names = match certificate.subject_alternative_name() {
        Ok(Some(extension)) => &extension.value.general_names,
        Ok(None) => return AlternativeNames::NoExtension,
        Err(_) => return AlternativeNames::Unreadable,
    };
    AlternativeNames::Listed(names.iter().map(|name| match name {
        x509_parser::extensions::GeneralName::URI(uri) => Some(uri.to_string()),
        _ => None,
    }).collect())
}

/// `x509_parser`'s `X509Certificate::from_der` and the subject's `iter_common_name`: the names are
/// named.
#[verifier::external_body]
fn common_names(der: &[u8]) -> (names: Option<Vec<Option<String>>>)
    ensures
        list_view(names) == common_names_in(der@),
{
    let (_, certificate) = x509_parser::certificate::X509Certificate::from_der(der).ok()?;
    let names = certificate.subject().iter_common_name();
    Some(names.map(|name| name.as_str().ok().map(|text| text.to_string())).collect())
}

/// The first name in a list that is there.
pub open spec fn first_name(names: Seq<Option<Seq<char>>>) -> Option<Seq<char>>
    decreases names.len(),
{
    if names.len() == 0 {
        None
    } else if names[0] is Some {
        names[0]
    } else {
        first_name(names.skip(1))
    }
}

/// Is this the least place at which there is a name?
pub open spec fn is_least(names: Seq<Option<Seq<char>>>, at: int) -> bool {
    &&& 0 <= at < names.len()
    &&& names[at] is Some
    &&& forall|i: int| 0 <= i < at ==> names[i] is None
}

/// Is there no name at any place?
pub open spec fn none_of(names: Seq<Option<Seq<char>>>) -> bool {
    forall|i: int| 0 <= i < names.len() ==> names[i] is None
}

proof fn lemma_first_is_least(names: Seq<Option<Seq<char>>>, at: int)
    requires
        is_least(names, at),
    ensures
        first_name(names) == names[at],
    decreases names.len(),
{
    if at > 0 {
        lemma_first_is_least(names.skip(1), at - 1);
    }
}

proof fn lemma_first_of_none(names: Seq<Option<Seq<char>>>)
    requires
        none_of(names),
    ensures
        first_name(names) is None,
    decreases names.len(),
{
    if names.len() > 0 {
        lemma_first_of_none(names.skip(1));
    }
}

fn first_of(names: &Vec<Option<String>>) -> (name: Option<&String>)
    ensures
        match name {
            Some(name) => first_name(name_views(names@)) == Some(name@),
            None => first_name(name_views(names@)) is None,
        },
{
    let ghost all = name_views(names@);
    let mut i: usize = 0;
    assert(all.skip(0) =~= all);
    while i < names.len()
        invariant
            i <= names@.len(),
            all == name_views(names@),
            first_name(all) == first_name(all.skip(i as int)),
        decreases names@.len() - i,
    {
        assert(all.skip(i as int)[0] == name_view(names@[i as int]));
        if let Some(name) = &names[i] {
            return Some(name);
        }
        assert(all.skip(i as int).skip(1) =~= all.skip(i + 1));
        i += 1;
    }
    None
}

/// The identity among these alternative names and common names: the first URI, or the first common
/// name where there is none.
pub open spec fn identity_among(
    alternative: Seq<Option<Seq<char>>>,
    common: Seq<Option<Seq<char>>>,
) -> Option<IdentityView> {
    match (first_name(alternative), first_name(common)) {
        (Some(uri), _) => Some(IdentityView::Uri(uri)),
        (None, Some(name)) => Some(IdentityView::CommonName(name)),
        (None, None) => None,
    }
}

/// The identity among these alternative names, of which those that are no URI are missing, and
/// these common names.
pub fn identity_of(alternative: &Vec<Option<String>>, common: &Vec<Option<String>>) -> (identity:
    Option<Identity>)
    ensures
        match identity {
            Some(identity) => identity_among(name_views(alternative@), name_views(common@)) == Some(
                identity@,
            ),
            None => identity_among(name_views(alternative@), name_views(common@)) is None,
        },
        forall|i: int|
            is_least(name_views(alternative@), i) ==> (identity matches Some(Identity::Uri(uri))
                && alternative@[i] matches Some(name) && uri@ == name@),
        forall|i: int|
            none_of(name_views(alternative@)) && is_least(name_views(common@), i) ==> (
            identity matches Some(Identity::CommonName(found)) && common@[i] matches Some(name)
                && found@ == name@),
        none_of(name_views(alternative@)) && none_of(name_views(common@)) ==> identity is None,
{
    proof {
        let names = name_views(alternative@);
        let commons = name_views(common@);
        assert forall|i: int| is_least(names, i) implies first_name(names) == names[i] by {
            lemma_first_is_least(names, i);
        }
        assert forall|i: int| is_least(commons, i) implies first_name(commons) == commons[i] by {
            lemma_first_is_least(commons, i);
        }
        if none_of(names) {
            lemma_first_of_none(names);
        }
        if none_of(commons) {
            lemma_first_of_none(commons);
        }
    }
    if let Some(uri) = first_of(alternative) {
        return Some(Identity::Uri(uri.as_str().to_owned()));
    }
    match first_of(common) {
        Some(name) => Some(Identity::CommonName(name.as_str().to_owned())),
        None => None,
    }
}

/// What a caller is told who shows no certificate.
pub open spec fn no_certificate() -> StatusView {
    status_of(Code::Unauthenticated, "no client certificate presented"@)
}

/// What a caller is told whose certificate cannot be read.
pub open spec fn unreadable_certificate() -> StatusView {
    status_of(Code::Unauthenticated, "client certificate could not be parsed"@)
}

/// What a caller is told whose certificate names no one.
pub open spec fn nameless_certificate() -> StatusView {
    status_of(Code::Unauthenticated, "client certificate carries no workload identity"@)
}

/// The identity that these names show, or what the caller is told. Names that cannot be read are
/// not passed over in favour of others: they make the certificate unreadable.
pub open spec fn shown_among(
    alternative: AlternativeNamesView,
    common: Option<Seq<Option<Seq<char>>>>,
) -> Result<IdentityView, StatusView> {
    match (alternative, common) {
        (AlternativeNamesView::NoCertificate, _) => Err(unreadable_certificate()),
        (AlternativeNamesView::Unreadable, _) => Err(unreadable_certificate()),
        (_, None) => Err(unreadable_certificate()),
        (AlternativeNamesView::NoExtension, Some(common)) => named(
            identity_among(seq![], common),
        ),
        (AlternativeNamesView::Listed(names), Some(common)) => named(
            identity_among(names, common),
        ),
    }
}

/// The identity, or what the caller is told where there is none.
pub open spec fn named(identity: Option<IdentityView>) -> Result<IdentityView, StatusView> {
    match identity {
        Some(identity) => Ok(identity),
        None => Err(nameless_certificate()),
    }
}

/// The identity that a DER certificate shows, or what the caller is told.
pub open spec fn shown_by(der: Seq<u8>) -> Result<IdentityView, StatusView> {
    shown_among(alternative_names_in(der), common_names_in(der))
}

/// The value of an identity, or of the reason why there is none.
pub open spec fn shown_view(result: Result<Identity, Status>) -> Result<IdentityView, StatusView> {
    match result {
        Ok(identity) => Ok(identity@),
        Err(status) => Err(status@),
    }
}

/// The identity that these names show, which were read from a certificate, or what the caller is
/// told.
pub fn identity_shown(alternative: AlternativeNames, common: Option<Vec<Option<String>>>) -> (result:
    Result<Identity, Status>)
    ensures
        shown_view(result) == shown_among(alternative@, list_view(common)),
{
    let unreadable = Status::new(
        Code::Unauthenticated,
        "client certificate could not be parsed",
    );
    let names = match alternative {
        AlternativeNames::NoCertificate | AlternativeNames::Unreadable => return Err(unreadable),
        AlternativeNames::NoExtension => Vec::new(),
        AlternativeNames::Listed(names) => names,
    };
    assert(alternative is NoExtension ==> name_views(names@) =~= seq![]);
    let common = match common {
        Some(common) => common,
        None => return Err(unreadable),
    };
    match identity_of(&names, &common) {
        Some(identity) => Ok(identity),
        None => Err(
            Status::new(
                Code::Unauthenticated,
                "client certificate carries no workload identity",
            ),
        ),
    }
}

/// The identity that a DER certificate shows: a URI among its subject's alternative names, or its
/// subject's common name where there is none.
pub fn identity_in_certificate(der: &[u8]) -> (result: Result<Identity, Status>)
    ensures
        shown_view(result) == shown_by(der@),
{
    identity_shown(alternative_names(der), common_names(der))
}

/// A certificate that was read, and the identity that it shows.
struct Known {
    der: Vec<u8>,
    identity: Identity,
}

/// How many certificates are remembered; when there are as many, all are forgotten.
pub const MAX_KNOWN: usize = 1024;

/// Reads the identities of callers, and remembers what each certificate shows, so that a
/// certificate is read once rather than with every request.
pub struct IdentityExtractor {
    known: Vec<Known>,
}

/// Are the two byte strings the same?
fn same_bytes(a: &[u8], b: &[u8]) -> (same: bool)
    ensures
        same == (a@ == b@),
{
    if a.len() != b.len() {
        return false;
    }
    let mut i: usize = 0;
    while i < a.len()
        invariant
            i <= a@.len(),
            a@.len() == b@.len(),
            forall|k: int| 0 <= k < i ==> a@[k] == b@[k],
        decreases a@.len() - i,
    {
        if a[i] != b[i] {
            return false;
        }
        i += 1;
    }
    assert(a@ =~= b@);
    true
}

/// The certificates that are remembered after this one was shown, if one was: one that is not
/// remembered and shows an identity is added, beside the others while there is room, and in their
/// place where there is none.
pub open spec fn after_shown(
    remembered: Set<Seq<u8>>,
    certificate: Option<Seq<u8>>,
) -> Set<Seq<u8>> {
    match certificate {
        Some(der) if !remembered.contains(der) && shown_by(der) is Ok => if remembered.len()
            < MAX_KNOWN {
            remembered.insert(der)
        } else {
            set![der]
        },
        _ => remembered,
    }
}

spec fn ders(known: Seq<Known>) -> Seq<Seq<u8>> {
    known.map_values(|entry: Known| entry.der@)
}

impl IdentityExtractor {
    /// The certificates that are remembered.
    pub closed spec fn remembered(&self) -> Set<Seq<u8>> {
        ders(self.known@).to_set()
    }

    /// What is remembered of a certificate is what it shows, and it is remembered once.
    #[verifier::type_invariant]
    spec fn truthful(&self) -> bool {
        &&& self.known@.len() <= MAX_KNOWN
        &&& ders(self.known@).no_duplicates()
        &&& forall|i: int|
            0 <= i < self.known@.len() ==> shown_by((#[trigger] self.known@[i]).der@) == Ok::<
                _,
                StatusView,
            >(self.known@[i].identity@)
    }

    /// An extractor that has read nothing yet.
    pub fn new() -> (extractor: IdentityExtractor)
        ensures
            extractor.remembered() == Set::<Seq<u8>>::empty(),
    {
        let extractor = IdentityExtractor { known: Vec::new() };
        assert(extractor.remembered() =~= Set::<Seq<u8>>::empty());
        extractor
    }

    fn recall(&self, der: &[u8]) -> (identity: Option<Identity>)
        ensures
            match identity {
                Some(identity) => self.remembered().contains(der@) && shown_by(der@) == Ok::<
                    _,
                    StatusView,
                >(identity@),
                None => !self.remembered().contains(der@),
            },
    {
        proof {
            use_type_invariant(self);
        }
        let mut i: usize = 0;
        while i < self.known.len()
            invariant
                i <= self.known@.len(),
                self.truthful(),
                forall|k: int| 0 <= k < i ==> ders(self.known@)[k] != der@,
            decreases self.known@.len() - i,
        {
            if same_bytes(self.known[i].der.as_slice(), der) {
                assert(ders(self.known@)[i as int] == der@);
                return Some(self.known[i].identity.copied());
            }
            i += 1;
        }
        None
    }

    /// The identity of a caller who shows this DER certificate, if any.
    ///
    /// The answer is what the certificate shows, whether it is read now or remembered. A
    /// certificate that shows an identity is remembered afterwards, beside those that were.
    pub fn identify(&mut self, certificate: Option<&[u8]>) -> (result: Result<Identity, Status>)
        ensures
            shown_view(result) == (match certificate {
                Some(der) => shown_by(der@),
                None => Err(no_certificate()),
            }),
            final(self).remembered() == after_shown(
                old(self).remembered(),
                match certificate {
                    Some(der) => Some(der@),
                    None => None,
                },
            ),
    {
        let der = match certificate {
            Some(der) => der,
            None => return Err(
                Status::new(Code::Unauthenticated, "no client certificate presented"),
            ),
        };
        if let Some(identity) = self.recall(der) {
            return Ok(identity);
        }
        let identity = identity_in_certificate(der)?;
        proof {
            use_type_invariant(&*self);
            ders(self.known@).unique_seq_to_set();
        }
        let mut known: Vec<Known> = Vec::new();
        std::mem::swap(&mut known, &mut self.known);
        if known.len() >= MAX_KNOWN {
            known = Vec::new();
            assert(ders(known@) =~= seq![]);
        }
        let ghost kept = ders(known@);
        known.push(Known { der: slice_to_vec(der), identity: identity.copied() });
        proof {
            assert(ders(known@) =~= kept.push(der@));
            assert(!kept.contains(der@));
            assert(kept.push(der@).no_duplicates());
            assert(kept.push(der@).to_set() =~= kept.to_set().insert(der@)) by {
                assert forall|x: Seq<u8>| kept.push(der@).contains(x) <==> (kept.contains(x) || x
                    == der@) by {
                    if kept.contains(x) {
                        let i = kept.index_of(x);
                        assert(kept.push(der@)[i] == x);
                    }
                    assert(kept.push(der@)[kept.len() as int] == der@);
                }
            }
            if kept.len() == 0 {
                assert(kept.to_set().insert(der@) =~= set![der@]);
            }
        }
        self.known = known;
        Ok(identity)
    }
}

/// The certificates that are remembered after a run of them was shown.
pub open spec fn after_all_shown(
    remembered: Set<Seq<u8>>,
    certificates: Seq<Option<Seq<u8>>>,
) -> Set<Seq<u8>>
    decreases certificates.len(),
{
    if certificates.len() == 0 {
        remembered
    } else {
        after_shown(
            after_all_shown(remembered, certificates.drop_last()),
            certificates.last(),
        )
    }
}

/// A certificate is read once: while no more different ones are shown than are remembered, one that
/// shows an identity is remembered from the first time it is shown, whatever else is shown then.
pub proof fn law_a_certificate_is_read_once(
    certificates: Seq<Option<Seq<u8>>>,
    different: Set<Seq<u8>>,
    first: int,
)
    requires
        different.finite(),
        different.len() <= MAX_KNOWN,
        forall|i: int|
            0 <= i < certificates.len() ==> (#[trigger] certificates[i] matches Some(der)
                ==> different.contains(der)),
        0 <= first < certificates.len(),
        certificates[first] matches Some(der) && shown_by(der) is Ok,
    ensures
        after_all_shown(Set::empty(), certificates).contains(certificates[first]->0),
        after_all_shown(Set::empty(), certificates).subset_of(different),
    decreases certificates.len(),
{
    let before = certificates.drop_last();
    let remembered = after_all_shown(Set::empty(), before);
    lemma_only_what_was_shown(before, different);
    if first < before.len() {
        law_a_certificate_is_read_once(before, different, first);
    }
    if let Some(der) = certificates.last() {
        assert(certificates[certificates.len() - 1] == Some(der));
        if !remembered.contains(der) {
            assert(remembered.subset_of(different.remove(der)));
            vstd::set_lib::lemma_len_subset(remembered, different.remove(der));
        }
    }
}

proof fn lemma_only_what_was_shown(certificates: Seq<Option<Seq<u8>>>, different: Set<Seq<u8>>)
    requires
        forall|i: int|
            0 <= i < certificates.len() ==> (#[trigger] certificates[i] matches Some(der)
                ==> different.contains(der)),
    ensures
        after_all_shown(Set::empty(), certificates).subset_of(different),
    decreases certificates.len(),
{
    if certificates.len() > 0 {
        lemma_only_what_was_shown(certificates.drop_last(), different);
        assert(certificates[certificates.len() - 1] == certificates.last());
    }
}

/// The identity is a URI wherever any alternative name is one, at whatever place: the one at the
/// least such place, whatever the common names are.
pub proof fn law_the_first_uri_is_the_identity(
    alternative: Seq<Option<Seq<char>>>,
    common: Seq<Option<Seq<char>>>,
    at: int,
)
    requires
        0 <= at < alternative.len(),
        alternative[at] is Some,
        forall|i: int| 0 <= i < at ==> alternative[i] is None,
    ensures
        identity_among(alternative, common) == Some(IdentityView::Uri(alternative[at]->0)),
        shown_among(AlternativeNamesView::Listed(alternative), Some(common)) == Ok::<_, StatusView>(
            IdentityView::Uri(alternative[at]->0),
        ),
{
    lemma_first_is_least(alternative, at);
}

/// Only where no alternative name is a URI is the identity a common name: the one at the least place
/// at which there is one that can be read. A certificate without alternative names is no different.
pub proof fn law_a_common_name_is_the_last_resort(
    alternative: Seq<Option<Seq<char>>>,
    common: Seq<Option<Seq<char>>>,
    at: int,
)
    requires
        forall|i: int| 0 <= i < alternative.len() ==> alternative[i] is None,
        0 <= at < common.len(),
        common[at] is Some,
        forall|i: int| 0 <= i < at ==> common[i] is None,
    ensures
        identity_among(alternative, common) == Some(IdentityView::CommonName(common[at]->0)),
        shown_among(AlternativeNamesView::Listed(alternative), Some(common)) == Ok::<_, StatusView>(
            IdentityView::CommonName(common[at]->0),
        ),
        shown_among(AlternativeNamesView::NoExtension, Some(common)) == Ok::<_, StatusView>(
            IdentityView::CommonName(common[at]->0),
        ),
{
    lemma_first_of_none(alternative);
    lemma_first_is_least(common, at);
}

/// A certificate in which no name is one at all is refused, and so is one that cannot be read.
pub proof fn law_without_a_name_there_is_no_identity(
    alternative: Seq<Option<Seq<char>>>,
    common: Seq<Option<Seq<char>>>,
    read: Option<Seq<Option<Seq<char>>>>,
)
    requires
        forall|i: int| 0 <= i < alternative.len() ==> alternative[i] is None,
        forall|i: int| 0 <= i < common.len() ==> common[i] is None,
    ensures
        identity_among(alternative, common) is None,
        shown_among(AlternativeNamesView::Listed(alternative), Some(common)) == Err::<
            IdentityView,
            _,
        >(nameless_certificate()),
        shown_among(AlternativeNamesView::NoExtension, Some(common)) == Err::<IdentityView, _>(
            nameless_certificate(),
        ),
        shown_among(AlternativeNamesView::Unreadable, read) == Err::<IdentityView, _>(
            unreadable_certificate(),
        ),
        shown_among(AlternativeNamesView::NoCertificate, read) == Err::<IdentityView, _>(
            unreadable_certificate(),
        ),
        shown_among(AlternativeNamesView::Listed(alternative), None) is Err,
        nameless_certificate().code is Unauthenticated,
        unreadable_certificate().code is Unauthenticated,
        no_certificate().code is Unauthenticated,
        no_certificate().message == "no client certificate presented"@,
        unreadable_certificate().message == "client certificate could not be parsed"@,
        nameless_certificate().message == "client certificate carries no workload identity"@,
{
    lemma_first_of_none(alternative);
    lemma_first_of_none(common);
}

/// A caller goes by the name that stands in the certificate, letter for letter.
pub proof fn law_a_caller_goes_by_the_name_in_the_certificate(der: Seq<u8>, at: int)
    requires
        alternative_names_in(der) is Listed,
        common_names_in(der) is Some,
        0 <= at < alternative_names_in(der)->Listed_0.len(),
        alternative_names_in(der)->Listed_0[at] is Some,
        forall|i: int| 0 <= i < at ==> alternative_names_in(der)->Listed_0[i] is None,
    ensures
        shown_by(der) is Ok,
        shown_by(der)->Ok_0.name() == alternative_names_in(der)->Listed_0[at]->0,
{
    lemma_first_is_least(alternative_names_in(der)->Listed_0, at);
}

/// Showing certificates forgets none while there is room, and remembers only what shows an
/// identity. Where there is no room, one that is new and shows an identity takes the place of all
/// the others.
pub proof fn law_what_is_remembered(remembered: Set<Seq<u8>>, der: Seq<u8>, other: Seq<u8>)
    requires
        remembered.finite(),
        other != der,
    ensures
        after_shown(remembered, Some(der)).contains(der) <==> remembered.contains(der) || shown_by(
            der,
        ) is Ok,
        remembered.len() < MAX_KNOWN || remembered.contains(der) || shown_by(der) is Err ==> (
        after_shown(remembered, Some(der)).contains(other) <==> remembered.contains(other)),
        remembered.len() >= MAX_KNOWN && !remembered.contains(der) && shown_by(der) is Ok
            ==> !after_shown(remembered, Some(der)).contains(other),
        after_shown(remembered, None) == remembered,
{
}

/// A name is a name wherever it stood: the identity goes by the text of the URI or of the common
/// name, and by all of it.
pub proof fn law_an_identity_goes_by_its_whole_name(text: Seq<char>)
    ensures
        IdentityView::Uri(text).name() == text,
        IdentityView::CommonName(text).name() == text,
{
}

/// Every name is seen at its place, and none is left out: a list of names and its value have the
/// same names, letter for letter, at the same places.
pub proof fn law_every_name_is_seen_at_its_place(names: Seq<Option<String>>, at: int)
    requires
        0 <= at < names.len(),
    ensures
        name_views(names).len() == names.len(),
        names[at] matches Some(name) ==> name_views(names)[at] == Some(name@),
        names[at] is None ==> name_views(names)[at] is None,
{
}

} // verus!
