//! Reading a policy out of a TOML document.
//!
//! `toml` turns the text into a tree of values. What a policy file may look like, and what it
//! says, is decided here. A record is a table with named fields, or an array with the fields in
//! their order; fields that no record has are passed over.

use vstd::prelude::*;

use crate::authz::policy::{
    compiled, grant_views, workload_views, GrantEntry, GrantView, Operation, Policy, WorkloadEntry,
    WorkloadView,
};
use crate::text;

verus! {

/// `toml::de::DeValue`, of which nothing is known but by [`tree_of`].
#[verifier::external_type_specification]
#[verifier::external_body]
pub struct ExTomlValue<'i>(toml::de::DeValue<'i>);

/// `toml::de::Error`, of which nothing is known but by [`description_of`].
#[verifier::external_type_specification]
#[verifier::external_body]
pub struct ExTomlError(toml::de::Error);

/// A TOML value, as far as a policy file can use it.
#[verifier::ext_equal]
pub enum Tree {
    Text(Seq<char>),
    List(Seq<Tree>),
    Table(Map<Seq<char>, Tree>),
    /// A number, a truth value or a date.
    Other,
    /// A number that is too large for any type.
    TooLarge,
}

/// Can a reader pass over the value? Not where there is a number in it that is too large for any
/// type.
pub open spec fn can_be_passed_over(tree: Tree) -> bool
    decreases tree,
{
    match tree {
        Tree::Text(_) | Tree::Other => true,
        Tree::TooLarge => false,
        Tree::List(items) => forall|i: int|
            0 <= i < items.len() ==> can_be_passed_over(#[trigger] items[i]),
        Tree::Table(fields) => forall|name: Seq<char>| #[trigger]
            fields.contains_key(name) ==> can_be_passed_over(fields[name]),
    }
}

/// What a `toml::de::DeValue` holds.
pub uninterp spec fn tree_of(value: toml::de::DeValue) -> Tree;

/// What a TOML document holds, or how `toml` says what is wrong with it.
pub uninterp spec fn document_of(text: Seq<char>) -> Result<Tree, Seq<char>>;

/// How a `toml::de::Error` describes itself.
pub uninterp spec fn description_of(error: toml::de::Error) -> Seq<char>;

/// `toml::de::DeTable::parse`: whether the text is a document, what it holds, and how the error
/// describes itself where it is none, is named. What a document holds is a table.
#[verifier::external_body]
fn parse_document<'a>(text: &'a str) -> (result: Result<toml::de::DeValue<'a>, toml::de::Error>)
    ensures
        match result {
            Ok(value) => document_of(text@) == Ok::<_, Seq<char>>(tree_of(value)) && tree_of(
                value,
            ) is Table,
            Err(error) => document_of(text@) == Err::<Tree, _>(description_of(error)),
        },
{
    let table = toml::de::DeTable::parse(text)?;
    Ok(toml::de::DeValue::Table(table.into_inner()))
}

/// `to_string` of a `toml::de::Error`: how the error describes itself is named.
#[verifier::external_body]
fn reason(error: &toml::de::Error) -> (text: String)
    ensures
        text@ == description_of(*error),
{
    error.to_string()
}

/// `serde::de::IgnoredAny` read from a `toml::de::ValueDeserializer`: it takes every value but one
/// with a number in it that is too large for any type.
#[verifier::external_body]
fn pass_over(value: &toml::de::DeValue) -> (passed: bool)
    ensures
        passed == can_be_passed_over(tree_of(*value)),
{
    let spanned = toml::Spanned::new(0..0, value.clone());
    let reader = toml::de::ValueDeserializer::from(spanned);
    <serde::de::IgnoredAny as serde::Deserialize>::deserialize(reader).is_ok()
}

/// `toml::de::DeValue::as_table`, and the table's `keys`: the names of the value's fields, in some
/// order, where it is a table.
#[verifier::external_body]
fn field_names(value: &toml::de::DeValue) -> (result: Option<Vec<String>>)
    ensures
        match result {
            Some(names) => tree_of(*value) is Table && forall|name: Seq<char>|
                tree_of(*value)->Table_0.contains_key(name) <==> #[trigger] is_among(
                    name,
                    names@,
                ),
            None => !(tree_of(*value) is Table),
        },
{
    value.as_table().map(|table| table.keys().map(|name| name.get_ref().to_string()).collect())
}

/// Is the name one of these?
pub open spec fn is_among(name: Seq<char>, names: Seq<String>) -> bool {
    exists|i: int| 0 <= i < names.len() && (#[trigger] names[i])@ == name
}

/// `toml::de::DeValue::as_str`: the text, where the value is one.
#[verifier::external_body]
fn as_text<'a>(value: &'a toml::de::DeValue) -> (result: Option<&'a str>)
    ensures
        match result {
            Some(text) => tree_of(*value) == Tree::Text(text@),
            None => !(tree_of(*value) is Text),
        },
{
    value.as_str()
}

/// `toml::de::DeValue::as_array`, and the array's `len`: how many elements the value has, where it
/// is an array.
#[verifier::external_body]
fn item_count(value: &toml::de::DeValue) -> (result: Option<usize>)
    ensures
        match result {
            Some(count) => tree_of(*value) is List && tree_of(*value)->List_0.len() == count,
            None => !(tree_of(*value) is List),
        },
{
    value.as_array().map(|items| items.len())
}

/// `toml::de::DeValue::get` with an index: the element at that place, where the value is an array
/// with one.
#[verifier::external_body]
fn item<'a, 'i>(value: &'a toml::de::DeValue<'i>, place: usize) -> (result: Option<
    &'a toml::de::DeValue<'i>,
>)
    ensures
        match tree_of(*value) {
            Tree::List(items) => match result {
                Some(found) => place < items.len() && items[place as int] == tree_of(*found),
                None => place >= items.len(),
            },
            _ => result is None,
        },
{
    value.get(place).map(|found| found.get_ref())
}

/// `toml::de::DeValue::get` with a name: the field of that name, where the value is a table with
/// one.
#[verifier::external_body]
fn field<'a, 'i>(value: &'a toml::de::DeValue<'i>, name: &str) -> (result: Option<
    &'a toml::de::DeValue<'i>,
>)
    ensures
        match tree_of(*value) {
            Tree::Table(fields) => match result {
                Some(found) => fields.contains_key(name@) && fields[name@] == tree_of(*found),
                None => !fields.contains_key(name@),
            },
            _ => result is None,
        },
{
    value.get(name).map(|found| found.get_ref())
}

/// `toml::de::DeValue::as_table`, and the table's `len`: how many fields the value has, where it is
/// a table.
#[verifier::external_body]
fn field_count(value: &toml::de::DeValue) -> (result: Option<usize>)
    ensures
        match result {
            Some(count) => tree_of(*value) is Table && tree_of(*value)->Table_0.dom().finite()
                && tree_of(*value)->Table_0.dom().len() == count,
            None => !(tree_of(*value) is Table),
        },
{
    value.as_table().map(|table| table.len())
}

/// The value of a field of a record: by its name in a table, by its place in an array.
pub open spec fn member(record: Tree, name: Seq<char>, place: int) -> Option<Tree> {
    match record {
        Tree::Table(fields) => if fields.contains_key(name) {
            Some(fields[name])
        } else {
            None
        },
        Tree::List(items) => if place < items.len() {
            Some(items[place])
        } else {
            None
        },
        _ => None,
    }
}

/// Can every field of a record but those with these names be passed over? Behind the fields of a
/// record that is an array nothing is looked at.
pub open spec fn others_pass(record: Tree, known: Seq<Seq<char>>) -> bool {
    record matches Tree::Table(fields) ==> forall|name: Seq<char>| #[trigger]
        fields.contains_key(name) && !known.contains(name) ==> can_be_passed_over(fields[name])
}

/// The names of the fields of a policy file.
pub open spec fn file_fields() -> Seq<Seq<char>> {
    seq!["workloads"@]
}

/// The names of the fields of a workload's record.
pub open spec fn workload_fields() -> Seq<Seq<char>> {
    seq!["identity"@, "description"@, "grants"@]
}

/// The names of the fields of a grant's record.
pub open spec fn grant_fields() -> Seq<Seq<char>> {
    seq!["key_label"@, "operations"@]
}

/// Is the value a table or an array with nothing in it?
pub open spec fn is_nothing(tree: Tree) -> bool {
    match tree {
        Tree::List(items) => items.len() == 0,
        Tree::Table(fields) => fields.dom().finite() && fields.dom().len() == 0,
        _ => false,
    }
}

/// Does the value stand for the operation: its name, or a table with that name for its only
/// field and nothing under it?
pub open spec fn stands_for(tree: Tree, operation: Operation) -> bool {
    match tree {
        Tree::Text(name) => name == operation.name(),
        Tree::Table(fields) => fields.dom().finite() && fields.dom().len() == 1
            && fields.contains_key(operation.name()) && is_nothing(fields[operation.name()]),
        _ => false,
    }
}

/// Does the list of values stand for the operations, one for one?
pub open spec fn list_operations(trees: Seq<Tree>, operations: Seq<Operation>) -> bool {
    trees.len() == operations.len() && forall|i: int|
        0 <= i < trees.len() ==> stands_for(#[trigger] trees[i], operations[i])
}

/// Is the value the record of the grant?
pub open spec fn is_grant(tree: Tree, grant: GrantView) -> bool {
    &&& others_pass(tree, grant_fields())
    &&& member(tree, "key_label"@, 0) == Some(Tree::Text(grant.key_label))
    &&& member(tree, "operations"@, 1) matches Some(Tree::List(trees)) && list_operations(
        trees,
        grant.operations,
    )
}

/// Are the values the records of the grants, one for one?
pub open spec fn list_grants(trees: Seq<Tree>, grants: Seq<GrantView>) -> bool {
    trees.len() == grants.len() && forall|i: int|
        0 <= i < trees.len() ==> is_grant(#[trigger] trees[i], grants[i])
}

/// Is the value the record of the workload? It may leave its grants out, and then has none, and
/// its description, which says nothing.
pub open spec fn is_workload(tree: Tree, workload: WorkloadView) -> bool {
    &&& others_pass(tree, workload_fields())
    &&& member(tree, "identity"@, 0) == Some(Tree::Text(workload.identity))
    &&& member(tree, "description"@, 1) matches Some(description) ==> description is Text
    &&& match member(tree, "grants"@, 2) {
        None => workload.grants.len() == 0,
        Some(Tree::List(trees)) => list_grants(trees, workload.grants),
        Some(_) => false,
    }
}

/// Are the values the records of the workloads, one for one?
pub open spec fn list_workloads(trees: Seq<Tree>, workloads: Seq<WorkloadView>) -> bool {
    trees.len() == workloads.len() && forall|i: int|
        0 <= i < trees.len() ==> is_workload(#[trigger] trees[i], workloads[i])
}

/// Is the document a policy file with these workloads? One that names none has none.
pub open spec fn is_policy_file(tree: Tree, workloads: Seq<WorkloadView>) -> bool {
    &&& others_pass(tree, file_fields())
    &&& match tree {
        Tree::Table(fields) => if fields.contains_key("workloads"@) {
            fields["workloads"@] matches Tree::List(trees) && list_workloads(trees, workloads)
        } else {
            workloads.len() == 0
        },
        _ => false,
    }
}

/// What is wrong with a document that is no policy file.
#[derive(Clone, Copy, Debug, PartialEq, Eq, Structural)]
pub enum PolicyFault {
    /// The document is no table.
    Document,
    /// `workloads` is no array.
    Workloads,
    /// A workload has no `identity`, or one that is no text.
    Identity,
    /// A workload has a `description` that is no text.
    Description,
    /// A workload has `grants` that are no array.
    Grants,
    /// A grant has no `key_label`, or one that is no text.
    KeyLabel,
    /// A grant has no `operations`, or some that are no array.
    Operations,
    /// A grant lists an operation that there is not.
    Operation,
    /// A field that no record has holds a number that is too large for any type.
    TooLarge,
}

/// Is this wrong with a grant's record?
pub open spec fn grant_fault(tree: Tree, fault: PolicyFault) -> bool {
    match fault {
        PolicyFault::KeyLabel => !(member(tree, "key_label"@, 0) matches Some(Tree::Text(_))),
        PolicyFault::Operations => !(member(tree, "operations"@, 1) matches Some(Tree::List(_))),
        PolicyFault::Operation => member(tree, "operations"@, 1) matches Some(Tree::List(trees))
            && unknown_among(trees),
        PolicyFault::TooLarge => !others_pass(tree, grant_fields()),
        _ => false,
    }
}

/// Does one of the values stand for no operation?
pub open spec fn unknown_among(trees: Seq<Tree>) -> bool {
    exists|i: int| 0 <= i < trees.len() && stands_for_none(#[trigger] trees[i])
}

/// Does the value stand for no operation?
pub open spec fn stands_for_none(tree: Tree) -> bool {
    forall|operation: Operation| !stands_for(tree, operation)
}

/// Is this wrong with one of the grants' records?
pub open spec fn grants_fault(trees: Seq<Tree>, fault: PolicyFault) -> bool {
    exists|i: int| 0 <= i < trees.len() && grant_fault(#[trigger] trees[i], fault)
}

/// Is this wrong with a workload's record?
pub open spec fn workload_fault(tree: Tree, fault: PolicyFault) -> bool {
    match fault {
        PolicyFault::Identity => !(member(tree, "identity"@, 0) matches Some(Tree::Text(_))),
        PolicyFault::Description => member(tree, "description"@, 1) matches Some(found) && !(found
            is Text),
        PolicyFault::Grants => member(tree, "grants"@, 2) matches Some(found) && !(found is List),
        _ => {
            ||| fault is TooLarge && !others_pass(tree, workload_fields())
            ||| member(tree, "grants"@, 2) matches Some(Tree::List(trees)) && grants_fault(
                trees,
                fault,
            )
        },
    }
}

/// Is this wrong with one of the workloads' records?
pub open spec fn workloads_fault(trees: Seq<Tree>, fault: PolicyFault) -> bool {
    exists|i: int| 0 <= i < trees.len() && workload_fault(#[trigger] trees[i], fault)
}

/// Is this wrong with a document, as a policy file?
pub open spec fn file_fault(tree: Tree, fault: PolicyFault) -> bool {
    match tree {
        Tree::Table(fields) => {
            ||| fault is TooLarge && !others_pass(tree, file_fields())
            ||| fields.contains_key("workloads"@) && match fields["workloads"@] {
                Tree::List(trees) => workloads_fault(trees, fault),
                _ => fault is Workloads,
            }
        },
        _ => fault is Document,
    }
}

/// The values of a list of names.
spec fn name_views(names: Seq<&'static str>) -> Seq<Seq<char>> {
    names.map_values(|name: &'static str| name@)
}

fn is_one_of(name: &str, names: &Vec<&'static str>) -> (found: bool)
    ensures
        found == name_views(names@).contains(name@),
{
    let mut i: usize = 0;
    while i < names.len()
        invariant
            i <= names@.len(),
            forall|k: int| 0 <= k < i ==> name_views(names@)[k] != name@,
        decreases names@.len() - i,
    {
        if text::same_text(names[i], name) {
            assert(name_views(names@)[i as int] == name@);
            return true;
        }
        i += 1;
    }
    false
}

fn pass_over_others(record: &toml::de::DeValue, known: &Vec<&'static str>) -> (passed: bool)
    ensures
        passed == others_pass(tree_of(*record), name_views(known@)),
{
    let names = match field_names(record) {
        Some(names) => names,
        None => return true,
    };
    let ghost fields = tree_of(*record)->Table_0;
    let mut i: usize = 0;
    while i < names.len()
        invariant
            tree_of(*record) == Tree::Table(fields),
            forall|name: Seq<char>|
                fields.contains_key(name) <==> #[trigger] is_among(name, names@),
            i <= names@.len(),
            forall|k: int|
                #![trigger names@[k]]
                0 <= k < i ==> name_views(known@).contains(names@[k]@) || can_be_passed_over(
                    fields[names@[k]@],
                ),
        decreases names@.len() - i,
    {
        let name = names[i].as_str();
        assert(names@[i as int]@ == name@);
        assert(is_among(name@, names@));
        if !is_one_of(name, known) {
            let passed = match field(record, name) {
                Some(value) => pass_over(value),
                None => false,
            };
            if !passed {
                assert(fields.contains_key(name@));
                return false;
            }
        }
        i += 1;
    }
    assert forall|name: Seq<char>| #[trigger]
        fields.contains_key(name) && !name_views(known@).contains(name) implies can_be_passed_over(
        fields[name],
    ) by {
        assert(is_among(name, names@));
    }
    true
}

fn member_of<'a, 'i>(record: &'a toml::de::DeValue<'i>, name: &str, place: usize) -> (result: Option<
    &'a toml::de::DeValue<'i>,
>)
    ensures
        match result {
            Some(value) => member(tree_of(*record), name@, place as int) == Some(tree_of(*value)),
            None => member(tree_of(*record), name@, place as int) is None,
        },
{
    match item_count(record) {
        Some(_) => item(record, place),
        None => field(record, name),
    }
}

fn holds_nothing(value: &toml::de::DeValue) -> (nothing: bool)
    ensures
        nothing == is_nothing(tree_of(*value)),
{
    match item_count(value) {
        Some(count) => count == 0,
        None => match field_count(value) {
            Some(count) => count == 0,
            None => false,
        },
    }
}

fn names_operation(value: &toml::de::DeValue, operation: Operation) -> (found: bool)
    ensures
        found == stands_for(tree_of(*value), operation),
{
    if let Some(name) = as_text(value) {
        return text::same_text(name, operation.as_str());
    }
    match field_count(value) {
        Some(1) => match field(value, operation.as_str()) {
            Some(under) => holds_nothing(under),
            None => false,
        },
        _ => false,
    }
}

fn read_operation(value: &toml::de::DeValue) -> (result: Option<Operation>)
    ensures
        match result {
            Some(operation) => stands_for(tree_of(*value), operation),
            None => stands_for_none(tree_of(*value)),
        },
{
    if names_operation(value, Operation::Sign) {
        Some(Operation::Sign)
    } else if names_operation(value, Operation::Verify) {
        Some(Operation::Verify)
    } else if names_operation(value, Operation::Encrypt) {
        Some(Operation::Encrypt)
    } else if names_operation(value, Operation::Decrypt) {
        Some(Operation::Decrypt)
    } else if names_operation(value, Operation::GetPublicKey) {
        Some(Operation::GetPublicKey)
    } else {
        assert forall|operation: Operation| !stands_for(tree_of(*value), operation) by {
            match operation {
                Operation::Sign => {},
                Operation::Verify => {},
                Operation::Encrypt => {},
                Operation::Decrypt => {},
                Operation::GetPublicKey => {},
            }
        }
        None
    }
}

fn read_operations(list: &toml::de::DeValue) -> (result: Result<Vec<Operation>, PolicyFault>)
    ensures
        match (tree_of(*list), result) {
            (Tree::List(trees), Ok(operations)) => list_operations(trees, operations@),
            (Tree::List(trees), Err(fault)) => {
                &&& fault is Operation
                &&& unknown_among(trees)
                &&& forall|operations: Seq<Operation>| !list_operations(trees, operations)
            },
            (_, Err(fault)) => fault is Operations,
            _ => false,
        },
{
    let count: usize = match item_count(list) {
        Some(count) => count,
        None => return Err(PolicyFault::Operations),
    };
    let ghost trees = tree_of(*list)->List_0;
    let mut operations: Vec<Operation> = Vec::new();
    let mut i: usize = 0;
    while i < count
        invariant
            tree_of(*list) == Tree::List(trees),
            trees.len() == count,
            i <= count,
            operations@.len() == i,
            forall|k: int| 0 <= k < i ==> stands_for(#[trigger] trees[k], operations@[k]),
        decreases count - i,
    {
        let read = match item(list, i) {
            Some(value) => read_operation(value),
            None => None,
        };
        match read {
            Some(operation) => {
                operations.push(operation);
            },
            None => {
                assert(stands_for_none(trees[i as int]));
                assert forall|other: Seq<Operation>| !list_operations(trees, other) by {
                    if list_operations(trees, other) {
                        assert(stands_for(trees[i as int], other[i as int]));
                    }
                }
                return Err(PolicyFault::Operation);
            },
        }
        i += 1;
    }
    Ok(operations)
}

fn read_grant(value: &toml::de::DeValue) -> (result: Result<GrantEntry, PolicyFault>)
    ensures
        match result {
            Ok(grant) => is_grant(tree_of(*value), grant@),
            Err(fault) => {
                &&& grant_fault(tree_of(*value), fault)
                &&& forall|grant: GrantView| !is_grant(tree_of(*value), grant)
            },
        },
{
    let known: Vec<&'static str> = vec!["key_label", "operations"];
    assert(name_views(known@) =~= grant_fields());
    if !pass_over_others(value, &known) {
        return Err(PolicyFault::TooLarge);
    }
    let label = match member_of(value, "key_label", 0) {
        Some(found) => as_text(found),
        None => None,
    };
    let key_label = match label {
        Some(label) => label,
        None => return Err(PolicyFault::KeyLabel),
    };
    let operations = match member_of(value, "operations", 1) {
        Some(found) => read_operations(found)?,
        None => return Err(PolicyFault::Operations),
    };
    Ok(GrantEntry { key_label: key_label.to_owned(), operations })
}

fn read_grants(list: &toml::de::DeValue) -> (result: Result<Vec<GrantEntry>, PolicyFault>)
    ensures
        match (tree_of(*list), result) {
            (Tree::List(trees), Ok(grants)) => list_grants(trees, grant_views(grants@)),
            (Tree::List(trees), Err(fault)) => {
                &&& grants_fault(trees, fault)
                &&& forall|grants: Seq<GrantView>| !list_grants(trees, grants)
            },
            (_, Err(fault)) => fault is Grants,
            _ => false,
        },
{
    let count: usize = match item_count(list) {
        Some(count) => count,
        None => return Err(PolicyFault::Grants),
    };
    let ghost trees = tree_of(*list)->List_0;
    let mut grants: Vec<GrantEntry> = Vec::new();
    let mut i: usize = 0;
    while i < count
        invariant
            tree_of(*list) == Tree::List(trees),
            trees.len() == count,
            i <= count,
            grants@.len() == i,
            forall|k: int| 0 <= k < i ==> is_grant(#[trigger] trees[k], grants@[k]@),
        decreases count - i,
    {
        let value = match item(list, i) {
            Some(value) => value,
            None => return Err(PolicyFault::Grants),
        };
        match read_grant(value) {
            Ok(grant) => {
                grants.push(grant);
            },
            Err(fault) => {
                assert(grant_fault(trees[i as int], fault));
                assert forall|other: Seq<GrantView>| !list_grants(trees, other) by {
                    if list_grants(trees, other) {
                        assert(is_grant(trees[i as int], other[i as int]));
                    }
                }
                return Err(fault);
            },
        }
        i += 1;
    }
    Ok(grants)
}

fn read_workload(value: &toml::de::DeValue) -> (result: Result<WorkloadEntry, PolicyFault>)
    ensures
        match result {
            Ok(workload) => is_workload(tree_of(*value), workload@),
            Err(fault) => {
                &&& workload_fault(tree_of(*value), fault)
                &&& forall|workload: WorkloadView| !is_workload(tree_of(*value), workload)
            },
        },
{
    let known: Vec<&'static str> = vec!["identity", "description", "grants"];
    assert(name_views(known@) =~= workload_fields());
    if !pass_over_others(value, &known) {
        return Err(PolicyFault::TooLarge);
    }
    let name = match member_of(value, "identity", 0) {
        Some(found) => as_text(found),
        None => None,
    };
    let identity = match name {
        Some(name) => name,
        None => return Err(PolicyFault::Identity),
    };
    if let Some(description) = member_of(value, "description", 1) {
        if as_text(description).is_none() {
            return Err(PolicyFault::Description);
        }
    }
    let grants = match member_of(value, "grants", 2) {
        Some(found) => read_grants(found)?,
        None => Vec::new(),
    };
    Ok(WorkloadEntry { identity: identity.to_owned(), grants })
}

fn read_workloads(list: &toml::de::DeValue) -> (result: Result<Vec<WorkloadEntry>, PolicyFault>)
    ensures
        match (tree_of(*list), result) {
            (Tree::List(trees), Ok(workloads)) => list_workloads(
                trees,
                workload_views(workloads@),
            ),
            (Tree::List(trees), Err(fault)) => {
                &&& workloads_fault(trees, fault)
                &&& forall|workloads: Seq<WorkloadView>| !list_workloads(trees, workloads)
            },
            (_, Err(fault)) => fault is Workloads,
            _ => false,
        },
{
    let count: usize = match item_count(list) {
        Some(count) => count,
        None => return Err(PolicyFault::Workloads),
    };
    let ghost trees = tree_of(*list)->List_0;
    let mut workloads: Vec<WorkloadEntry> = Vec::new();
    let mut i: usize = 0;
    while i < count
        invariant
            tree_of(*list) == Tree::List(trees),
            trees.len() == count,
            i <= count,
            workloads@.len() == i,
            forall|k: int| 0 <= k < i ==> is_workload(#[trigger] trees[k], workloads@[k]@),
        decreases count - i,
    {
        let value = match item(list, i) {
            Some(value) => value,
            None => return Err(PolicyFault::Workloads),
        };
        match read_workload(value) {
            Ok(workload) => {
                workloads.push(workload);
            },
            Err(fault) => {
                assert(workload_fault(trees[i as int], fault));
                assert forall|other: Seq<WorkloadView>| !list_workloads(trees, other) by {
                    if list_workloads(trees, other) {
                        assert(is_workload(trees[i as int], other[i as int]));
                    }
                }
                return Err(fault);
            },
        }
        i += 1;
    }
    Ok(workloads)
}

/// The workloads of a policy file, where the document is one; else what is wrong with it.
pub fn read_policy_file(document: &toml::de::DeValue) -> (result: Result<
    Vec<WorkloadEntry>,
    PolicyFault,
>)
    ensures
        match result {
            Ok(workloads) => is_policy_file(tree_of(*document), workload_views(workloads@)),
            Err(fault) => {
                &&& file_fault(tree_of(*document), fault)
                &&& forall|workloads: Seq<WorkloadView>|
                    !is_policy_file(tree_of(*document), workloads)
            },
        },
{
    if field_count(document).is_none() {
        return Err(PolicyFault::Document);
    }
    let known: Vec<&'static str> = vec!["workloads"];
    assert(name_views(known@) =~= file_fields());
    if !pass_over_others(document, &known) {
        return Err(PolicyFault::TooLarge);
    }
    match field(document, "workloads") {
        Some(found) => read_workloads(found),
        None => Ok(Vec::new()),
    }
}

/// Why a policy could not be read.
#[derive(Clone, Debug)]
pub enum PolicyError {
    /// The text is no TOML document; `toml` says why.
    NotToml(String),
    /// The document is no policy file.
    NotAPolicy(PolicyFault),
}

impl PolicyFault {
    /// What is wrong, in words.
    pub open spec fn text(self) -> Seq<char> {
        match self {
            PolicyFault::Document => "the document is not a table"@,
            PolicyFault::Workloads => "`workloads` is not an array"@,
            PolicyFault::Identity => "a workload has no text for `identity`"@,
            PolicyFault::Description => "a workload's `description` is not text"@,
            PolicyFault::Grants => "a workload's `grants` is not an array"@,
            PolicyFault::KeyLabel => "a grant has no text for `key_label`"@,
            PolicyFault::Operations => "a grant has no array for `operations`"@,
            PolicyFault::Operation => "a grant lists an unknown operation"@,
            PolicyFault::TooLarge => "an unused field holds a number that is too large"@,
        }
    }

    /// What is wrong, in words.
    pub fn message(self) -> (message: &'static str)
        ensures
            message@ == self.text(),
    {
        match self {
            PolicyFault::Document => "the document is not a table",
            PolicyFault::Workloads => "`workloads` is not an array",
            PolicyFault::Identity => "a workload has no text for `identity`",
            PolicyFault::Description => "a workload's `description` is not text",
            PolicyFault::Grants => "a workload's `grants` is not an array",
            PolicyFault::KeyLabel => "a grant has no text for `key_label`",
            PolicyFault::Operations => "a grant has no array for `operations`",
            PolicyFault::Operation => "a grant lists an unknown operation",
            PolicyFault::TooLarge => "an unused field holds a number that is too large",
        }
    }
}

impl PolicyError {
    /// The text that introduces the failure.
    pub fn message(&self) -> (message: &'static str)
        ensures
            message@ == "invalid TOML"@,
    {
        "invalid TOML"
    }
}

/// Is the text a policy file with these workloads?
pub open spec fn says(text: Seq<char>, workloads: Seq<WorkloadView>) -> bool {
    document_of(text) matches Ok(tree) && is_policy_file(tree, workloads)
}

impl Policy {
    /// Read a policy file.
    ///
    /// A mistake in it is an error: a misspelt operation must not turn into a grant that looks
    /// as if it had been applied.
    pub fn parse(text: &str) -> (result: Result<Policy, PolicyError>)
        ensures
            match result {
                Ok(policy) => exists|workloads: Seq<WorkloadView>| #[trigger]
                    says(text@, workloads) && policy@ == compiled(workloads),
                Err(error) => {
                    &&& match error {
                        PolicyError::NotToml(reason) => document_of(text@) == Err::<Tree, _>(
                            reason@,
                        ),
                        PolicyError::NotAPolicy(fault) => document_of(text@) matches Ok(tree)
                            && file_fault(tree, fault),
                    }
                    &&& forall|workloads: Seq<WorkloadView>| !says(text@, workloads)
                },
            },
    {
        let document = match parse_document(text) {
            Ok(document) => document,
            Err(error) => return Err(PolicyError::NotToml(reason(&error))),
        };
        match read_policy_file(&document) {
            Ok(workloads) => {
                assert(says(text@, workload_views(workloads@)));
                Ok(Policy::from_workloads(&workloads))
            },
            Err(fault) => Err(PolicyError::NotAPolicy(fault)),
        }
    }
}

proof fn lemma_operation_names_differ(a: Operation, b: Operation)
    requires
        a.name() == b.name(),
    ensures
        a == b,
{
    reveal_strlit("sign");
    reveal_strlit("verify");
    reveal_strlit("encrypt");
    reveal_strlit("decrypt");
    reveal_strlit("get_public_key");
    assert("sign"@.len() == 4);
    assert("verify"@.len() == 6);
    assert("encrypt"@.len() == 7 && "encrypt"@[0] == 'e');
    assert("decrypt"@.len() == 7 && "decrypt"@[0] == 'd');
    assert("get_public_key"@.len() == 14);
}

proof fn lemma_one_operation(tree: Tree, a: Operation, b: Operation)
    requires
        stands_for(tree, a),
        stands_for(tree, b),
    ensures
        a == b,
{
    if let Tree::Table(fields) = tree {
        let names = fields.dom();
        if a.name() != b.name() {
            let rest = names.remove(a.name());
            assert(rest.contains(b.name()));
            assert(rest.remove(b.name()).len() == rest.len() - 1);
            assert(rest.len() == 0);
        }
    }
    lemma_operation_names_differ(a, b);
}

proof fn lemma_one_grant(tree: Tree, a: GrantView, b: GrantView)
    requires
        is_grant(tree, a),
        is_grant(tree, b),
    ensures
        a == b,
{
    let trees = (member(tree, "operations"@, 1)->0)->List_0;
    assert forall|i: int| 0 <= i < trees.len() implies a.operations[i] == b.operations[i] by {
        lemma_one_operation(trees[i], a.operations[i], b.operations[i]);
    }
    assert(a.operations =~= b.operations);
}

proof fn lemma_one_workload(tree: Tree, a: WorkloadView, b: WorkloadView)
    requires
        is_workload(tree, a),
        is_workload(tree, b),
    ensures
        a == b,
{
    if let Some(Tree::List(trees)) = member(tree, "grants"@, 2) {
        assert forall|i: int| 0 <= i < trees.len() implies a.grants[i] == b.grants[i] by {
            lemma_one_grant(trees[i], a.grants[i], b.grants[i]);
        }
    }
    assert(a.grants =~= b.grants);
}

/// A text says one thing: two readings of the same policy file are the same.
pub proof fn law_a_policy_file_has_one_reading(
    text: Seq<char>,
    a: Seq<WorkloadView>,
    b: Seq<WorkloadView>,
)
    requires
        says(text, a),
        says(text, b),
    ensures
        a == b,
{
    if let Tree::Table(fields) = document_of(text)->Ok_0 {
        if fields.contains_key("workloads"@) {
            let trees = fields["workloads"@]->List_0;
            assert forall|i: int| 0 <= i < trees.len() implies a[i] == b[i] by {
                lemma_one_workload(trees[i], a[i], b[i]);
            }
        }
    }
    assert(a =~= b);
}

/// An operation's name is no other text: a list of operations with any other word in it is no
/// list of operations at all.
pub proof fn law_a_misspelt_operation_is_no_operation(
    trees: Seq<Tree>,
    index: int,
    operations: Seq<Operation>,
)
    requires
        0 <= index < trees.len(),
        trees[index] matches Tree::Text(word) && forall|operation: Operation|
            word != #[trigger] operation.name(),
    ensures
        !list_operations(trees, operations),
{
    if list_operations(trees, operations) {
        assert(stands_for(trees[index], operations[index]));
    }
}

/// How an operation is written in a policy file.
pub open spec fn written_operation(operation: Operation) -> Tree {
    match operation {
        Operation::Sign => Tree::Text("sign"@),
        Operation::Verify => Tree::Text("verify"@),
        Operation::Encrypt => Tree::Text("encrypt"@),
        Operation::Decrypt => Tree::Text("decrypt"@),
        Operation::GetPublicKey => Tree::Text("get_public_key"@),
    }
}

/// How a grant is written in a policy file: a table with the key's label and the operations.
pub open spec fn written_grant(grant: GrantView) -> Tree {
    let operations = Tree::List(grant.operations.map_values(|o: Operation| written_operation(o)));
    Tree::Table(
        map!["key_label"@ => Tree::Text(grant.key_label), "operations"@ => operations],
    )
}

/// How a workload is written in a policy file: a table with its identity and its grants.
pub open spec fn written_workload(workload: WorkloadView) -> Tree {
    let grants = Tree::List(workload.grants.map_values(|g: GrantView| written_grant(g)));
    Tree::Table(map!["identity"@ => Tree::Text(workload.identity), "grants"@ => grants])
}

/// How a policy is written in a file: a table with the workloads.
pub open spec fn written_policy(workloads: Seq<WorkloadView>) -> Tree {
    let list = Tree::List(workloads.map_values(|w: WorkloadView| written_workload(w)));
    Tree::Table(map!["workloads"@ => list])
}

proof fn lemma_a_grant_reads_back(grant: GrantView)
    ensures
        is_grant(written_grant(grant), grant),
{
    let tree = written_grant(grant);
    let fields = tree->Table_0;
    reveal_strlit("key_label");
    reveal_strlit("operations");
    assert("key_label"@.len() != "operations"@.len());
    assert(grant_fields()[0] == "key_label"@);
    assert(grant_fields()[1] == "operations"@);
    assert(others_pass(tree, grant_fields())) by {
        assert forall|name: Seq<char>| #[trigger]
            fields.contains_key(name) && !grant_fields().contains(
            name,
        ) implies can_be_passed_over(fields[name]) by {
            assert(name == "key_label"@ || name == "operations"@);
            assert(grant_fields().contains(grant_fields()[0]));
            assert(grant_fields().contains(grant_fields()[1]));
        }
    }
    let trees = fields["operations"@]->List_0;
    assert forall|i: int| 0 <= i < trees.len() implies stands_for(
        #[trigger] trees[i],
        grant.operations[i],
    ) by {
        assert(trees[i] == written_operation(grant.operations[i]));
    }
}

proof fn lemma_a_workload_reads_back(workload: WorkloadView)
    ensures
        is_workload(written_workload(workload), workload),
{
    let tree = written_workload(workload);
    let fields = tree->Table_0;
    reveal_strlit("identity");
    reveal_strlit("description");
    reveal_strlit("grants");
    assert("identity"@.len() == 8);
    assert("description"@.len() == 11);
    assert("grants"@.len() == 6);
    assert(others_pass(tree, workload_fields())) by {
        assert forall|name: Seq<char>| #[trigger]
            fields.contains_key(name) && !workload_fields().contains(
            name,
        ) implies can_be_passed_over(fields[name]) by {
            assert(name == "identity"@ || name == "grants"@);
            assert(workload_fields().contains(workload_fields()[0]));
            assert(workload_fields().contains(workload_fields()[2]));
        }
    }
    let trees = fields["grants"@]->List_0;
    assert forall|i: int| 0 <= i < trees.len() implies is_grant(
        #[trigger] trees[i],
        workload.grants[i],
    ) by {
        assert(trees[i] == written_grant(workload.grants[i]));
        lemma_a_grant_reads_back(workload.grants[i]);
    }
}

/// A policy reads as it was written: a file that lists these workloads, with their grants and the
/// operations by their names, says exactly these workloads.
pub proof fn law_a_policy_reads_as_it_was_written(workloads: Seq<WorkloadView>)
    ensures
        is_policy_file(written_policy(workloads), workloads),
{
    let tree = written_policy(workloads);
    let fields = tree->Table_0;
    assert(others_pass(tree, file_fields())) by {
        assert forall|name: Seq<char>| #[trigger]
            fields.contains_key(name) && !file_fields().contains(name) implies can_be_passed_over(
            fields[name],
        ) by {
            assert(name == "workloads"@);
            assert(file_fields().contains(file_fields()[0]));
        }
    }
    let trees = fields["workloads"@]->List_0;
    assert forall|i: int| 0 <= i < trees.len() implies is_workload(
        #[trigger] trees[i],
        workloads[i],
    ) by {
        assert(trees[i] == written_workload(workloads[i]));
        lemma_a_workload_reads_back(workloads[i]);
    }
}

/// What a written policy grants is what the file that it is written in grants: whatever is read from
/// a text that holds it permits each listed operation on each listed key to its identity.
pub proof fn law_what_a_file_lists_is_granted(
    text: Seq<char>,
    workloads: Seq<WorkloadView>,
    read: Seq<WorkloadView>,
    entry: int,
    grant: int,
    place: int,
)
    requires
        document_of(text) == Ok::<_, Seq<char>>(written_policy(workloads)),
        says(text, read),
        0 <= entry < workloads.len(),
        0 <= grant < workloads[entry].grants.len(),
        0 <= place < workloads[entry].grants[grant].operations.len(),
    ensures
        compiled(read).allows(
            workloads[entry].identity,
            workloads[entry].grants[grant].key_label,
            workloads[entry].grants[grant].operations[place],
        ),
{
    law_a_policy_reads_as_it_was_written(workloads);
    assert(says(text, workloads));
    law_a_policy_file_has_one_reading(text, workloads, read);
    crate::authz::policy::law_what_is_listed_is_granted(workloads, entry, grant, place);
}

/// A file that says something has nothing wrong with it.
pub proof fn law_a_policy_file_has_no_fault(
    tree: Tree,
    workloads: Seq<WorkloadView>,
    fault: PolicyFault,
)
    requires
        is_policy_file(tree, workloads),
    ensures
        !file_fault(tree, fault),
{
    if let Tree::Table(fields) = tree {
        if fields.contains_key("workloads"@) {
            let trees = fields["workloads"@]->List_0;
            assert forall|i: int| 0 <= i < trees.len() implies !workload_fault(
                #[trigger] trees[i],
                fault,
            ) by {
                assert(is_workload(trees[i], workloads[i]));
                if let Some(Tree::List(grants)) = member(trees[i], "grants"@, 2) {
                    assert forall|j: int| 0 <= j < grants.len() implies !grant_fault(
                        #[trigger] grants[j],
                        fault,
                    ) by {
                        let grant = workloads[i].grants[j];
                        assert(is_grant(grants[j], grant));
                        if let Some(Tree::List(operations)) = member(grants[j], "operations"@, 1) {
                            assert forall|k: int| 0 <= k < operations.len() implies
                                !stands_for_none(#[trigger] operations[k]) by {
                                assert(stands_for(operations[k], grant.operations[k]));
                            }
                        }
                    }
                }
            }
        }
    }
}

/// A record is written by name or by place alike: a grant that is an array has its label first and
/// its operations second.
pub proof fn law_a_record_may_be_an_array(grant: GrantView, workload: WorkloadView, note: Seq<char>)
    ensures
        is_grant(
            Tree::List(
                seq![
                    Tree::Text(grant.key_label),
                    Tree::List(grant.operations.map_values(|o: Operation| written_operation(o))),
                ],
            ),
            grant,
        ),
        is_workload(
            Tree::List(
                seq![
                    Tree::Text(workload.identity),
                    Tree::Text(note),
                    Tree::List(workload.grants.map_values(|g: GrantView| written_grant(g))),
                ],
            ),
            workload,
        ),
{
    let operations = grant.operations.map_values(|o: Operation| written_operation(o));
    assert forall|i: int| 0 <= i < operations.len() implies stands_for(
        #[trigger] operations[i],
        grant.operations[i],
    ) by {
        assert(operations[i] == written_operation(grant.operations[i]));
    }
    let grants = workload.grants.map_values(|g: GrantView| written_grant(g));
    assert forall|i: int| 0 <= i < grants.len() implies is_grant(
        #[trigger] grants[i],
        workload.grants[i],
    ) by {
        assert(grants[i] == written_grant(workload.grants[i]));
        lemma_a_grant_reads_back(workload.grants[i]);
    }
}

/// What is left out is nothing: a file without workloads says that there are none, and a workload
/// without grants has none.
pub proof fn law_what_is_left_out_is_nothing(identity: Seq<char>)
    ensures
        is_policy_file(Tree::Table(Map::empty()), seq![]),
        is_workload(
            Tree::Table(map!["identity"@ => Tree::Text(identity)]),
            WorkloadView { identity, grants: seq![] },
        ),
{
    reveal_strlit("identity");
    reveal_strlit("description");
    reveal_strlit("grants");
    assert("identity"@.len() == 8);
    assert("description"@.len() == 11);
    assert("grants"@.len() == 6);
    let tree = Tree::Table(map!["identity"@ => Tree::Text(identity)]);
    assert(others_pass(tree, workload_fields())) by {
        assert forall|name: Seq<char>| #[trigger]
            tree->Table_0.contains_key(name) && !workload_fields().contains(
            name,
        ) implies can_be_passed_over(tree->Table_0[name]) by {
            assert(name == "identity"@);
            assert(workload_fields().contains(workload_fields()[0]));
        }
    }
}

/// An operation may be written as a table with nothing under its name.
pub proof fn law_an_operation_may_be_a_table(operation: Operation)
    ensures
        ({
            let name = written_operation(operation)->Text_0;
            &&& stands_for(Tree::Text(name), operation)
            &&& stands_for(Tree::Table(map![name => Tree::List(seq![])]), operation)
            &&& stands_for(Tree::Table(map![name => Tree::Table(Map::empty())]), operation)
            &&& !stands_for(Tree::Table(map![name => Tree::Other]), operation)
            &&& !stands_for(Tree::Other, operation)
        }),
{
    let name = written_operation(operation)->Text_0;
    let list = map![name => Tree::List(seq![])];
    assert(list.dom() =~= set![name]);
    let table = map![name => Tree::Table(Map::empty())];
    assert(table.dom() =~= set![name]);
    let other = map![name => Tree::Other];
    assert(other[name] == Tree::Other);
}

/// A field that no record has is passed over, whatever it holds, but for a number that is too large
/// for any type: with it or without it, a record says the same.
pub proof fn law_other_fields_say_nothing(
    fields: Map<Seq<char>, Tree>,
    name: Seq<char>,
    extra: Tree,
    grant: GrantView,
    workload: WorkloadView,
    workloads: Seq<WorkloadView>,
)
    requires
        !fields.contains_key(name),
        can_be_passed_over(extra),
    ensures
        ({
            let more = Tree::Table(fields.insert(name, extra));
            let less = Tree::Table(fields);
            &&& name != "key_label"@ && name != "operations"@ ==> is_grant(more, grant) == is_grant(
                less,
                grant,
            )
            &&& name != "identity"@ && name != "description"@ && name != "grants"@ ==> is_workload(
                more,
                workload,
            ) == is_workload(less, workload)
            &&& name != "workloads"@ ==> is_policy_file(more, workloads) == is_policy_file(
                less,
                workloads,
            )
        }),
{
    lemma_others_pass_alike(fields, name, extra, grant_fields());
    lemma_others_pass_alike(fields, name, extra, workload_fields());
    lemma_others_pass_alike(fields, name, extra, file_fields());
}

proof fn lemma_others_pass_alike(
    fields: Map<Seq<char>, Tree>,
    name: Seq<char>,
    extra: Tree,
    known: Seq<Seq<char>>,
)
    requires
        !fields.contains_key(name),
        can_be_passed_over(extra),
    ensures
        others_pass(Tree::Table(fields.insert(name, extra)), known) == others_pass(
            Tree::Table(fields),
            known,
        ),
{
    let less = Tree::Table(fields);
    let more = Tree::Table(fields.insert(name, extra));
    if others_pass(more, known) {
        assert forall|other: Seq<char>| #[trigger]
            less->Table_0.contains_key(other) && !known.contains(other) implies can_be_passed_over(
            less->Table_0[other],
        ) by {
            assert(more->Table_0.contains_key(other) && !known.contains(other));
            assert(can_be_passed_over(more->Table_0[other]));
            assert(more->Table_0[other] == less->Table_0[other]);
        }
        assert(others_pass(less, known));
    }
    if others_pass(less, known) {
        assert forall|other: Seq<char>| #[trigger]
            more->Table_0.contains_key(other) && !known.contains(other) implies can_be_passed_over(
            more->Table_0[other],
        ) by {
            if other == name {
                assert(more->Table_0[other] == extra);
            } else {
                assert(less->Table_0.contains_key(other) && !known.contains(other));
                assert(can_be_passed_over(less->Table_0[other]));
                assert(more->Table_0[other] == less->Table_0[other]);
            }
        }
        assert(others_pass(more, known));
    }
}

/// A grant with one thing wrong with it is at fault for that, and for nothing else: for its label,
/// for operations that are no list, or for an operation that there is not.
pub proof fn law_a_grant_is_at_fault_for_what_is_wrong(
    label: Seq<char>,
    operations: Seq<Operation>,
    word: Seq<char>,
    fault: PolicyFault,
)
    requires
        forall|operation: Operation| word != (#[trigger] written_operation(operation))->Text_0,
    ensures
        ({
            let listed = Tree::List(operations.map_values(|o: Operation| written_operation(o)));
            let misspelt = Tree::List(seq![Tree::Text(word)]);
            &&& grant_fault(Tree::List(seq![Tree::Other, listed]), fault) <==> fault is KeyLabel
            &&& grant_fault(Tree::List(seq![Tree::Text(label), Tree::Other]), fault) <==> fault
                is Operations
            &&& grant_fault(Tree::List(seq![Tree::Text(label)]), fault) <==> fault is Operations
            &&& grant_fault(Tree::List(seq![Tree::Text(label), misspelt]), fault) <==> fault
                is Operation
        }),
{
    let trees = operations.map_values(|o: Operation| written_operation(o));
    assert forall|i: int| 0 <= i < trees.len() implies !stands_for_none(#[trigger] trees[i]) by {
        assert(trees[i] == written_operation(operations[i]));
        assert(stands_for(trees[i], operations[i]));
    }
    let misspelt = seq![Tree::Text(word)];
    assert forall|operation: Operation| !stands_for(misspelt[0], operation) by {
        assert(written_operation(operation)->Text_0 == operation.name());
    }
    assert(stands_for_none(misspelt[0]));
}

/// A workload with one thing wrong with it is at fault for that, and for nothing else: for its
/// identity, for a description that is no text, or for grants that are no list.
pub proof fn law_a_workload_is_at_fault_for_what_is_wrong(
    identity: Seq<char>,
    note: Seq<char>,
    fault: PolicyFault,
)
    ensures
        ({
            let none = Tree::List(seq![]);
            let who = Tree::Text(identity);
            let what = Tree::Text(note);
            &&& workload_fault(Tree::List(seq![Tree::Other, what, none]), fault) <==> fault
                is Identity
            &&& workload_fault(Tree::List(seq![who, Tree::Other, none]), fault) <==> fault
                is Description
            &&& workload_fault(Tree::List(seq![who, what, Tree::Other]), fault) <==> fault is Grants
            &&& !workload_fault(Tree::List(seq![who, what, none]), fault)
        }),
{
}

/// What is wrong is named by the field that is wrong.
pub proof fn law_a_fault_names_its_field(fault: PolicyFault)
    ensures
        fault.text() == match fault {
            PolicyFault::Document => "the document is not a table"@,
            PolicyFault::Workloads => "`workloads` is not an array"@,
            PolicyFault::Identity => "a workload has no text for `identity`"@,
            PolicyFault::Description => "a workload's `description` is not text"@,
            PolicyFault::Grants => "a workload's `grants` is not an array"@,
            PolicyFault::KeyLabel => "a grant has no text for `key_label`"@,
            PolicyFault::Operations => "a grant has no array for `operations`"@,
            PolicyFault::Operation => "a grant lists an unknown operation"@,
            PolicyFault::TooLarge => "an unused field holds a number that is too large"@,
        },
{
}

} // verus!
