//! The authorization policy: identity, key and operation.

use vstd::hash_map::StringHashMap;
use vstd::prelude::*;

verus! {

/// The operations that a policy can grant: what a caller may ask for.
#[derive(Clone, Copy, Debug, PartialEq, Eq, Hash, Structural)]
pub enum Operation {
    Sign,
    Verify,
    Encrypt,
    Decrypt,
    GetPublicKey,
}

impl Operation {
    /// The operation's name.
    pub open spec fn name(self) -> Seq<char> {
        match self {
            Operation::Sign => "sign"@,
            Operation::Verify => "verify"@,
            Operation::Encrypt => "encrypt"@,
            Operation::Decrypt => "decrypt"@,
            Operation::GetPublicKey => "get_public_key"@,
        }
    }

    /// The operation's name.
    pub fn as_str(self) -> (name: &'static str)
        ensures
            name@ == self.name(),
    {
        match self {
            Operation::Sign => "sign",
            Operation::Verify => "verify",
            Operation::Encrypt => "encrypt",
            Operation::Decrypt => "decrypt",
            Operation::GetPublicKey => "get_public_key",
        }
    }
}

/// What a policy file grants on one key.
#[derive(Debug)]
pub struct GrantEntry {
    pub key_label: String,
    pub operations: Vec<Operation>,
}

/// The value of a [`GrantEntry`].
#[verifier::ext_equal]
pub struct GrantView {
    pub key_label: Seq<char>,
    pub operations: Seq<Operation>,
}

impl View for GrantEntry {
    type V = GrantView;

    open spec fn view(&self) -> GrantView {
        GrantView { key_label: self.key_label@, operations: self.operations@ }
    }
}

/// What a policy file grants to one identity.
#[derive(Debug)]
pub struct WorkloadEntry {
    pub identity: String,
    pub grants: Vec<GrantEntry>,
}

/// The value of a [`WorkloadEntry`].
#[verifier::ext_equal]
pub struct WorkloadView {
    pub identity: Seq<char>,
    pub grants: Seq<GrantView>,
}

impl View for WorkloadEntry {
    type V = WorkloadView;

    open spec fn view(&self) -> WorkloadView {
        WorkloadView { identity: self.identity@, grants: grant_views(self.grants@) }
    }
}

/// The values of a list of grants.
pub open spec fn grant_views(grants: Seq<GrantEntry>) -> Seq<GrantView> {
    grants.map_values(|grant: GrantEntry| grant@)
}

/// The values of a list of workloads.
pub open spec fn workload_views(workloads: Seq<WorkloadEntry>) -> Seq<WorkloadView> {
    workloads.map_values(|workload: WorkloadEntry| workload@)
}

/// Does one of the grants allow the operation on the key?
pub open spec fn grants_allow(
    grants: Seq<GrantView>,
    key_label: Seq<char>,
    operation: Operation,
) -> bool {
    exists|j: int|
        0 <= j < grants.len() && (#[trigger] grants[j]).key_label == key_label
            && grants[j].operations.contains(operation)
}

/// Does one of the workloads' entries allow the identity the operation on the key?
pub open spec fn workloads_allow(
    workloads: Seq<WorkloadView>,
    identity: Seq<char>,
    key_label: Seq<char>,
    operation: Operation,
) -> bool {
    exists|i: int|
        0 <= i < workloads.len() && (#[trigger] workloads[i]).identity == identity
            && grants_allow(workloads[i].grants, key_label, operation)
}

/// Do the workloads' entries name the identity?
pub open spec fn workloads_name(workloads: Seq<WorkloadView>, identity: Seq<char>) -> bool {
    exists|i: int| 0 <= i < workloads.len() && (#[trigger] workloads[i]).identity == identity
}

/// A set of operations.
#[derive(Clone, Copy, Debug, PartialEq, Eq, Structural)]
struct Operations {
    sign: bool,
    verify: bool,
    encrypt: bool,
    decrypt: bool,
    get_public_key: bool,
}

impl Operations {
    spec fn has(self, operation: Operation) -> bool {
        match operation {
            Operation::Sign => self.sign,
            Operation::Verify => self.verify,
            Operation::Encrypt => self.encrypt,
            Operation::Decrypt => self.decrypt,
            Operation::GetPublicKey => self.get_public_key,
        }
    }

    fn none() -> (operations: Operations)
        ensures
            forall|operation: Operation| !operations.has(operation),
    {
        Operations {
            sign: false,
            verify: false,
            encrypt: false,
            decrypt: false,
            get_public_key: false,
        }
    }

    fn contains(&self, operation: Operation) -> (found: bool)
        ensures
            found == self.has(operation),
    {
        match operation {
            Operation::Sign => self.sign,
            Operation::Verify => self.verify,
            Operation::Encrypt => self.encrypt,
            Operation::Decrypt => self.decrypt,
            Operation::GetPublicKey => self.get_public_key,
        }
    }

    fn insert(&mut self, operation: Operation)
        ensures
            forall|other: Operation| #[trigger]
                final(self).has(other) == (old(self).has(other) || other == operation),
    {
        match operation {
            Operation::Sign => {
                self.sign = true;
            },
            Operation::Verify => {
                self.verify = true;
            },
            Operation::Encrypt => {
                self.encrypt = true;
            },
            Operation::Decrypt => {
                self.decrypt = true;
            },
            Operation::GetPublicKey => {
                self.get_public_key = true;
            },
        }
    }
}

/// The identities' grants while a policy is put together.
struct Table {
    /// Where each identity's grants stand in `keys`.
    slots: StringHashMap<usize>,
    /// The operations that are granted on each key, for one identity after the other.
    keys: Vec<StringHashMap<Operations>>,
    /// How many operations are granted in all.
    count: usize,
}

/// A number as far as a machine word holds it.
pub open spec fn capped(n: nat) -> usize {
    if n <= usize::MAX {
        n as usize
    } else {
        usize::MAX
    }
}

impl Table {
    spec fn allows(self, identity: Seq<char>, key_label: Seq<char>, operation: Operation) -> bool {
        &&& self.slots@.contains_key(identity)
        &&& self.keys@[self.slots@[identity] as int]@.contains_key(key_label)
        &&& self.keys@[self.slots@[identity] as int]@[key_label].has(operation)
    }

    spec fn triples(self) -> Set<(Seq<char>, Seq<char>, Operation)> {
        Set::new(|t: (Seq<char>, Seq<char>, Operation)| self.allows(t.0, t.1, t.2))
    }

    /// Every identity has a slot of its own, and the count is right.
    spec fn well_formed(self) -> bool {
        &&& forall|identity: Seq<char>| #[trigger]
            self.slots@.contains_key(identity) ==> self.slots@[identity] < self.keys@.len()
        &&& forall|a: Seq<char>, b: Seq<char>|
            #![trigger self.slots@[a], self.slots@[b]]
            self.slots@.contains_key(a) && self.slots@.contains_key(b) && a != b ==> self.slots@[a]
                != self.slots@[b]
        &&& self.triples().finite()
        &&& self.count == capped(self.triples().len())
    }

    fn new() -> (table: Table)
        ensures
            table.well_formed(),
            table.slots@ == Map::<Seq<char>, usize>::empty(),
            forall|i: Seq<char>, k: Seq<char>, o: Operation| !table.allows(i, k, o),
    {
        let table = Table { slots: StringHashMap::new(), keys: Vec::new(), count: 0 };
        assert(table.triples() =~= Set::empty());
        table
    }

    /// The slot of an identity, which is given one where it has none.
    fn slot(&mut self, identity: &str) -> (slot: usize)
        requires
            old(self).well_formed(),
        ensures
            final(self).well_formed(),
            final(self).slots@.contains_key(identity@),
            final(self).slots@[identity@] == slot,
            final(self).slots@.dom() == old(self).slots@.dom().insert(identity@),
            forall|i: Seq<char>, k: Seq<char>, o: Operation| #[trigger]
                final(self).allows(i, k, o) == old(self).allows(i, k, o),
    {
        if let Some(slot) = self.slots.get(identity) {
            assert(self.slots@.dom().insert(identity@) =~= self.slots@.dom());
            return *slot;
        }
        let slot: usize = self.keys.len();
        self.keys.push(StringHashMap::new());
        self.slots.insert(identity.to_owned(), slot);
        assert forall|i: Seq<char>, k: Seq<char>, o: Operation| #[trigger]
            self.allows(i, k, o) == old(self).allows(i, k, o) by {
            if old(self).slots@.contains_key(i) {
                assert(self.slots@[i] == old(self).slots@[i]);
                assert(self.keys@[self.slots@[i] as int] == old(self).keys@[self.slots@[i] as int]);
            }
        }
        assert(self.triples() =~= old(self).triples());
        assert(self.slots@.dom() =~= old(self).slots@.dom().insert(identity@));
        slot
    }

    /// Grant an identity, whose slot is given, an operation on a key.
    fn grant(
        &mut self,
        identity: Ghost<Seq<char>>,
        slot: usize,
        key_label: &str,
        operation: Operation,
    )
        requires
            old(self).well_formed(),
            old(self).slots@.contains_key(identity@),
            old(self).slots@[identity@] == slot,
        ensures
            final(self).well_formed(),
            final(self).slots@ == old(self).slots@,
            forall|i: Seq<char>, k: Seq<char>, o: Operation| #[trigger]
                final(self).allows(i, k, o) == (old(self).allows(i, k, o) || (i == identity@ && k
                    == key_label@ && o == operation)),
    {
        let mut operations = match self.keys[slot].get(key_label) {
            Some(operations) => *operations,
            None => Operations::none(),
        };
        let granted = operations.contains(operation);
        operations.insert(operation);
        self.keys[slot].insert(key_label.to_owned(), operations);
        if !granted {
            self.count = self.count.saturating_add(1);
        }
        assert forall|i: Seq<char>, k: Seq<char>, o: Operation| #[trigger]
            self.allows(i, k, o) == (old(self).allows(i, k, o) || (i == identity@ && k
                == key_label@ && o == operation)) by {
            if self.slots@.contains_key(i) && i != identity@ {
                assert(self.slots@[i] != self.slots@[identity@]);
            }
        }
        let ghost triple = (identity@, key_label@, operation);
        assert(self.triples() =~= old(self).triples().insert(triple));
        assert(granted == old(self).triples().contains(triple));
    }

    /// Grant an identity, whose slot is given, what a list of grants says.
    fn grant_all(&mut self, identity: Ghost<Seq<char>>, slot: usize, grants: &Vec<GrantEntry>)
        requires
            old(self).well_formed(),
            old(self).slots@.contains_key(identity@),
            old(self).slots@[identity@] == slot,
        ensures
            final(self).well_formed(),
            final(self).slots@ == old(self).slots@,
            forall|i: Seq<char>, k: Seq<char>, o: Operation| #[trigger]
                final(self).allows(i, k, o) == (old(self).allows(i, k, o) || (i == identity@
                    && grants_allow(grant_views(grants@), k, o))),
    {
        let ghost views = grant_views(grants@);
        let mut j: usize = 0;
        while j < grants.len()
            invariant
                j <= grants@.len(),
                views == grant_views(grants@),
                self.well_formed(),
                self.slots@ == old(self).slots@,
                self.slots@.contains_key(identity@),
                self.slots@[identity@] == slot,
                forall|i: Seq<char>, k: Seq<char>, o: Operation| #[trigger]
                    self.allows(i, k, o) == (old(self).allows(i, k, o) || (i == identity@
                        && grants_allow(views.take(j as int), k, o))),
            decreases grants@.len() - j,
        {
            let grant = &grants[j];
            let ghost before = *self;
            let mut n: usize = 0;
            while n < grant.operations.len()
                invariant
                    n <= grant.operations@.len(),
                    self.well_formed(),
                    self.slots@ == before.slots@,
                    self.slots@.contains_key(identity@),
                    self.slots@[identity@] == slot,
                    forall|i: Seq<char>, k: Seq<char>, o: Operation| #[trigger]
                        self.allows(i, k, o) == (before.allows(i, k, o) || (i == identity@ && k
                            == grant.key_label@ && grant.operations@.take(n as int).contains(o))),
                decreases grant.operations@.len() - n,
            {
                self.grant(identity, slot, grant.key_label.as_str(), grant.operations[n]);
                proof {
                    let ops = grant.operations@;
                    assert(ops.take(n + 1) =~= ops.take(n as int).push(ops[n as int]));
                    assert forall|o: Operation| #[trigger]
                        ops.take(n + 1).contains(o) == (ops.take(n as int).contains(o) || o
                            == ops[n as int]) by {
                        lemma_contains_one_more(ops.take(n as int), ops[n as int], o);
                    }
                }
                n += 1;
            }
            proof {
                let ops = grant.operations@;
                assert(ops.take(n as int) =~= ops);
                assert(views[j as int] == grant@);
                assert forall|k: Seq<char>, o: Operation| #[trigger]
                    grants_allow(views.take(j + 1), k, o) == (grants_allow(
                        views.take(j as int),
                        k,
                        o,
                    ) || (k == grant.key_label@ && ops.contains(o))) by {
                    lemma_one_more_grant(views, j as int, k, o);
                }
            }
            j += 1;
        }
        assert(views.take(j as int) =~= views);
    }

    /// Enter what a list of workloads says.
    fn enter_all(&mut self, workloads: &Vec<WorkloadEntry>)
        requires
            old(self).well_formed(),
        ensures
            final(self).well_formed(),
            forall|i: Seq<char>| #[trigger]
                final(self).slots@.contains_key(i) == (old(self).slots@.contains_key(i)
                    || workloads_name(workload_views(workloads@), i)),
            forall|i: Seq<char>, k: Seq<char>, o: Operation| #[trigger]
                final(self).allows(i, k, o) == (old(self).allows(i, k, o) || workloads_allow(
                    workload_views(workloads@),
                    i,
                    k,
                    o,
                )),
    {
        let ghost views = workload_views(workloads@);
        let mut n: usize = 0;
        while n < workloads.len()
            invariant
                n <= workloads@.len(),
                views == workload_views(workloads@),
                self.well_formed(),
                forall|i: Seq<char>| #[trigger]
                    self.slots@.contains_key(i) == (old(self).slots@.contains_key(i)
                        || workloads_name(views.take(n as int), i)),
                forall|i: Seq<char>, k: Seq<char>, o: Operation| #[trigger]
                    self.allows(i, k, o) == (old(self).allows(i, k, o) || workloads_allow(
                        views.take(n as int),
                        i,
                        k,
                        o,
                    )),
            decreases workloads@.len() - n,
        {
            let workload = &workloads[n];
            let ghost identity = workload.identity@;
            let ghost before = *self;
            let slot = self.slot(workload.identity.as_str());
            let ghost between = *self;
            self.grant_all(Ghost(identity), slot, &workload.grants);
            proof {
                assert(views[n as int] == workload@);
                assert forall|i: Seq<char>| #[trigger]
                    self.slots@.contains_key(i) == (old(self).slots@.contains_key(i)
                        || workloads_name(views.take(n + 1), i)) by {
                    assert(between.slots@.dom().contains(i) == before.slots@.dom().insert(
                        identity,
                    ).contains(i));
                    assert(between.slots@.contains_key(i) == (before.slots@.contains_key(i) || i
                        == identity));
                    lemma_one_more_name(views, n as int, i);
                }
                assert forall|i: Seq<char>, k: Seq<char>, o: Operation| #[trigger]
                    self.allows(i, k, o) == (old(self).allows(i, k, o) || workloads_allow(
                        views.take(n + 1),
                        i,
                        k,
                        o,
                    )) by {
                    assert(between.allows(i, k, o) == before.allows(i, k, o));
                    lemma_one_more_workload(views, n as int, i, k, o);
                }
            }
            n += 1;
        }
        assert(views.take(n as int) =~= views);
    }
}

proof fn lemma_contains_one_more(operations: Seq<Operation>, last: Operation, operation: Operation)
    ensures
        operations.push(last).contains(operation) == (operations.contains(operation) || operation
            == last),
{
    let more = operations.push(last);
    if operations.contains(operation) {
        let at = choose|i: int| 0 <= i < operations.len() && operations[i] == operation;
        assert(more[at] == operation);
    }
    assert(more[operations.len() as int] == last);
}

proof fn lemma_one_more_grant(
    grants: Seq<GrantView>,
    count: int,
    key_label: Seq<char>,
    operation: Operation,
)
    requires
        0 <= count < grants.len(),
    ensures
        grants_allow(grants.take(count + 1), key_label, operation) == (grants_allow(
            grants.take(count),
            key_label,
            operation,
        ) || (grants[count].key_label == key_label && grants[count].operations.contains(
            operation,
        ))),
{
    let less = grants.take(count);
    let more = grants.take(count + 1);
    if grants_allow(less, key_label, operation) {
        let at = choose|j: int|
            0 <= j < less.len() && (#[trigger] less[j]).key_label == key_label
                && less[j].operations.contains(operation);
        assert(more[at] == less[at]);
    }
    if grants_allow(more, key_label, operation) {
        let at = choose|j: int|
            0 <= j < more.len() && (#[trigger] more[j]).key_label == key_label
                && more[j].operations.contains(operation);
        if at < count {
            assert(less[at] == more[at]);
        }
    }
    assert(more[count] == grants[count]);
}

proof fn lemma_one_more_workload(
    workloads: Seq<WorkloadView>,
    count: int,
    identity: Seq<char>,
    key_label: Seq<char>,
    operation: Operation,
)
    requires
        0 <= count < workloads.len(),
    ensures
        workloads_allow(workloads.take(count + 1), identity, key_label, operation) == (
        workloads_allow(workloads.take(count), identity, key_label, operation) || (
        workloads[count].identity == identity && grants_allow(
            workloads[count].grants,
            key_label,
            operation,
        ))),
{
    let less = workloads.take(count);
    let more = workloads.take(count + 1);
    if workloads_allow(less, identity, key_label, operation) {
        let at = choose|i: int|
            0 <= i < less.len() && (#[trigger] less[i]).identity == identity && grants_allow(
                less[i].grants,
                key_label,
                operation,
            );
        assert(more[at] == less[at]);
    }
    if workloads_allow(more, identity, key_label, operation) {
        let at = choose|i: int|
            0 <= i < more.len() && (#[trigger] more[i]).identity == identity && grants_allow(
                more[i].grants,
                key_label,
                operation,
            );
        if at < count {
            assert(less[at] == more[at]);
        }
    }
    assert(more[count] == workloads[count]);
}

proof fn lemma_one_more_name(workloads: Seq<WorkloadView>, count: int, identity: Seq<char>)
    requires
        0 <= count < workloads.len(),
    ensures
        workloads_name(workloads.take(count + 1), identity) == (workloads_name(
            workloads.take(count),
            identity,
        ) || workloads[count].identity == identity),
{
    let less = workloads.take(count);
    let more = workloads.take(count + 1);
    if workloads_name(less, identity) {
        let at = choose|i: int| 0 <= i < less.len() && (#[trigger] less[i]).identity == identity;
        assert(more[at] == less[at]);
    }
    if workloads_name(more, identity) {
        let at = choose|i: int| 0 <= i < more.len() && (#[trigger] more[i]).identity == identity;
        if at < count {
            assert(less[at] == more[at]);
        }
    }
    assert(more[count] == workloads[count]);
}

/// A policy: who may do what with which key.
pub struct Policy {
    table: Table,
}

/// What a [`Policy`] says: the identities that it names, and what it grants.
#[verifier::ext_equal]
pub struct PolicyView {
    pub identities: Set<Seq<char>>,
    pub grants: Set<(Seq<char>, Seq<char>, Operation)>,
}

impl PolicyView {
    /// Is the identity permitted to perform the operation on the key?
    pub open spec fn allows(
        self,
        identity: Seq<char>,
        key_label: Seq<char>,
        operation: Operation,
    ) -> bool {
        self.grants.contains((identity, key_label, operation))
    }
}

/// What a policy says that was made of these workloads' entries.
pub open spec fn compiled(workloads: Seq<WorkloadView>) -> PolicyView {
    PolicyView {
        identities: Set::new(|identity: Seq<char>| workloads_name(workloads, identity)),
        grants: Set::new(
            |t: (Seq<char>, Seq<char>, Operation)| workloads_allow(workloads, t.0, t.1, t.2),
        ),
    }
}

impl View for Policy {
    type V = PolicyView;

    closed spec fn view(&self) -> PolicyView {
        PolicyView { identities: self.table.slots@.dom(), grants: self.table.triples() }
    }
}

impl Policy {
    #[verifier::type_invariant]
    spec fn well_formed(self) -> bool {
        self.table.well_formed()
    }

    /// The policy that these workloads' entries make: what any of them grants is granted.
    pub fn from_workloads(workloads: &Vec<WorkloadEntry>) -> (policy: Policy)
        ensures
            policy@ == compiled(workload_views(workloads@)),
            forall|entry: int, grant: int, place: int|
                0 <= entry < workloads@.len() && 0 <= grant < workloads@[entry].grants@.len() && 0
                    <= place < workloads@[entry].grants@[grant].operations@.len()
                    ==> policy@.allows(
                    workloads@[entry].identity@,
                    workloads@[entry].grants@[grant].key_label@,
                    #[trigger] workloads@[entry].grants@[grant].operations@[place],
                ),
    {
        let mut table = Table::new();
        table.enter_all(workloads);
        let policy = Policy { table };
        assert(policy@ =~= compiled(workload_views(workloads@)));
        assert forall|entry: int, grant: int, place: int|
            0 <= entry < workloads@.len() && 0 <= grant < workloads@[entry].grants@.len() && 0
                <= place < workloads@[entry].grants@[grant].operations@.len() implies policy@.allows(
            workloads@[entry].identity@,
            workloads@[entry].grants@[grant].key_label@,
            #[trigger] workloads@[entry].grants@[grant].operations@[place],
        ) by {
            let views = workload_views(workloads@);
            assert(views[entry] == workloads@[entry]@);
            assert(views[entry].grants[grant] == workloads@[entry].grants@[grant]@);
            law_what_is_listed_is_granted(views, entry, grant, place);
        }
        policy
    }

    /// Is the identity permitted to perform the operation on the key?
    ///
    /// Absence is denial at every level: an unknown identity, a key that the identity has no
    /// grant on, and an operation that the grants on the key do not list.
    pub fn is_allowed(&self, identity: &str, key_label: &str, operation: Operation) -> (allowed:
        bool)
        ensures
            allowed == self@.allows(identity@, key_label@, operation),
    {
        proof {
            use_type_invariant(self);
        }
        match self.table.slots.get(identity) {
            Some(slot) => match self.table.keys[*slot].get(key_label) {
                Some(operations) => operations.contains(operation),
                None => false,
            },
            None => false,
        }
    }

    /// How many identities the policy names.
    pub fn identity_count(&self) -> (count: usize)
        ensures
            count == self@.identities.len(),
    {
        self.table.slots.len()
    }

    /// How many operations the policy grants, over all identities and keys, as far as a machine
    /// word can count them.
    pub fn grant_count(&self) -> (count: usize)
        ensures
            self@.grants.finite(),
            count == capped(self@.grants.len()),
    {
        proof {
            use_type_invariant(self);
        }
        self.table.count
    }
}

impl Default for Policy {
    /// A policy that grants nothing.
    fn default() -> (policy: Policy)
        ensures
            policy@ == compiled(Seq::<WorkloadView>::empty()),
    {
        let policy = Policy { table: Table::new() };
        assert(policy@ =~= compiled(Seq::<WorkloadView>::empty()));
        policy
    }
}

/// An empty policy denies everything.
pub proof fn law_an_empty_policy_denies(
    identity: Seq<char>,
    key_label: Seq<char>,
    operation: Operation,
)
    ensures
        !compiled(Seq::<WorkloadView>::empty()).allows(identity, key_label, operation),
{
}

/// Absence is denial: an identity that no entry names is permitted nothing, and neither is an
/// operation on a key that none of the identity's grants lists.
pub proof fn law_absence_is_denial(
    workloads: Seq<WorkloadView>,
    identity: Seq<char>,
    key_label: Seq<char>,
    operation: Operation,
)
    requires
        forall|i: int, j: int|
            #![trigger workloads[i].grants[j]]
            0 <= i < workloads.len() && 0 <= j < workloads[i].grants.len()
                && workloads[i].identity == identity && workloads[i].grants[j].key_label
                == key_label ==> !workloads[i].grants[j].operations.contains(operation),
    ensures
        !compiled(workloads).allows(identity, key_label, operation),
{
    if workloads_allow(workloads, identity, key_label, operation) {
        let i = choose|i: int|
            0 <= i < workloads.len() && (#[trigger] workloads[i]).identity == identity
                && grants_allow(workloads[i].grants, key_label, operation);
        let grants = workloads[i].grants;
        let j = choose|j: int|
            0 <= j < grants.len() && (#[trigger] grants[j]).key_label == key_label
                && grants[j].operations.contains(operation);
        assert(!workloads[i].grants[j].operations.contains(operation));
    }
}

/// Adding an entry never takes a permission away, and adds none to anyone but its identity.
pub proof fn law_an_entry_only_adds(
    workloads: Seq<WorkloadView>,
    entry: WorkloadView,
    identity: Seq<char>,
    key_label: Seq<char>,
    operation: Operation,
)
    ensures
        compiled(workloads).allows(identity, key_label, operation) ==> compiled(
            workloads.push(entry),
        ).allows(identity, key_label, operation),
        identity != entry.identity ==> compiled(workloads.push(entry)).allows(
            identity,
            key_label,
            operation,
        ) == compiled(workloads).allows(identity, key_label, operation),
{
    let more = workloads.push(entry);
    lemma_one_more_workload(more, workloads.len() as int, identity, key_label, operation);
    assert(more.take(workloads.len() as int) =~= workloads);
    assert(more.take(workloads.len() as int + 1) =~= more);
}

/// What is listed is granted: an operation in any grant on the key, at whatever place, in any entry
/// of the identity, at whatever place.
pub proof fn law_what_is_listed_is_granted(
    workloads: Seq<WorkloadView>,
    entry: int,
    grant: int,
    place: int,
)
    requires
        0 <= entry < workloads.len(),
        0 <= grant < workloads[entry].grants.len(),
        0 <= place < workloads[entry].grants[grant].operations.len(),
    ensures
        compiled(workloads).allows(
            workloads[entry].identity,
            workloads[entry].grants[grant].key_label,
            workloads[entry].grants[grant].operations[place],
        ),
        compiled(workloads).identities.contains(workloads[entry].identity),
{
    let grants = workloads[entry].grants;
    let operation = grants[grant].operations[place];
    assert(grants[grant].operations.contains(operation));
    assert(grants_allow(grants, grants[grant].key_label, operation));
    assert(workloads_allow(
        workloads,
        workloads[entry].identity,
        grants[grant].key_label,
        operation,
    ));
}

/// An identity is named exactly where an entry names it, whether or not anything is granted to it.
pub proof fn law_an_identity_is_named_by_its_entries(
    workloads: Seq<WorkloadView>,
    identity: Seq<char>,
)
    ensures
        (forall|i: int| 0 <= i < workloads.len() ==> (#[trigger] workloads[i]).identity != identity)
            <==> !compiled(workloads).identities.contains(identity),
{
}

/// A count is exact as far as a machine word goes.
pub proof fn law_a_count_is_exact_while_it_fits(n: nat)
    ensures
        n <= usize::MAX ==> capped(n) == n,
        n > usize::MAX ==> capped(n) == usize::MAX,
{
}

} // verus!
