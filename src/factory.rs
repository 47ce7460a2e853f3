//! The factory: a registry of named events, each provisioned as its own
//! contract instance in two phases (pending, then succeeded or failed).
use vstd::prelude::*;

use crate::error::ContractError;
use crate::event::EventDetails;
use crate::identity::ids;

verus! {

/// Where the provisioning of a named event stands.
#[derive(Debug, Clone, Copy, PartialEq, Eq, Structural)]
pub enum CreationStatus {
    Pending,
    Succeeded,
    Failed,
}

/// One registry entry as plain values.
pub ghost struct EntryModel {
    pub name: Seq<char>,
    pub status: CreationStatus,
    pub address: Option<Seq<char>>,
}

/// The registry as plain values: the factory's account and its entries.
pub ghost struct FactoryModel {
    pub account: Seq<char>,
    pub entries: Seq<EntryModel>,
}

/// A request to the runtime: create an event contract at `address`, hosted
/// by `host`, funded with `deposit`.
#[derive(Debug)]
pub struct Instantiation {
    pub address: String,
    pub host: String,
    pub details: EventDetails,
    pub deposit: u128,
}

/// The address of the event named `name` under the factory's account.
pub open spec fn address_for(name: Seq<char>, account: Seq<char>) -> Seq<char> {
    name + seq!['.'] + account
}

/// Some entry carries `name`.
pub open spec fn has_name(s: Seq<EntryModel>, name: Seq<char>) -> bool {
    exists|i: int| 0 <= i < s.len() && s[i].name == name
}

/// The slot that holds `name`; meaningful where `has_name` holds.
pub open spec fn slot_of(s: Seq<EntryModel>, name: Seq<char>) -> int {
    choose|i: int| 0 <= i < s.len() && s[i].name == name
}

/// The name is pending or in use, so it cannot be created again.
pub open spec fn name_taken(s: Seq<EntryModel>, name: Seq<char>) -> bool {
    exists|i: int| 0 <= i < s.len() && s[i].name == name && s[i].status != CreationStatus::Failed
}

/// A freshly registered entry.
pub open spec fn pending_entry(name: Seq<char>) -> EntryModel {
    EntryModel { name, status: CreationStatus::Pending, address: None }
}

/// Registering a name: a failed entry of that name is reused in place, any
/// other name is appended. The `Ok` value is the new event's address.
pub open spec fn create_event_step(s: Seq<EntryModel>, account: Seq<char>, name: Seq<char>) -> (
    Seq<EntryModel>,
    Result<Seq<char>, ContractError>,
) {
    if name_taken(s, name) {
        (s, Err(ContractError::NameTaken))
    } else if has_name(s, name) {
        (s.update(slot_of(s, name), pending_entry(name)), Ok(address_for(name, account)))
    } else {
        (s.push(pending_entry(name)), Ok(address_for(name, account)))
    }
}

/// Settling a pending name; a name that is not pending is left alone.
pub open spec fn on_event_created_step(
    s: Seq<EntryModel>,
    account: Seq<char>,
    name: Seq<char>,
    success: bool,
) -> Seq<EntryModel> {
    if has_name(s, name) && s[slot_of(s, name)].status == CreationStatus::Pending {
        s.update(
            slot_of(s, name),
            if success {
                EntryModel {
                    name,
                    status: CreationStatus::Succeeded,
                    address: Some(address_for(name, account)),
                }
            } else {
                EntryModel { name, status: CreationStatus::Failed, address: None }
            },
        )
    } else {
        s
    }
}

/// The names whose provisioning succeeded, in registry order.
pub open spec fn succeeded_names(s: Seq<EntryModel>) -> Seq<Seq<char>>
    decreases s.len(),
{
    if s.len() == 0 {
        Seq::empty()
    } else {
        let prev = succeeded_names(s.drop_last());
        if s.last().status == CreationStatus::Succeeded {
            prev.push(s.last().name)
        } else {
            prev
        }
    }
}

/// The address part of a creation result.
pub open spec fn instantiation_address(r: Result<Instantiation, ContractError>) -> Result<Seq<char>, ContractError> {
    match r {
        Ok(i) => Ok(i.address@),
        Err(e) => Err(e),
    }
}

/// No name occurs in two entries.
pub open spec fn names_unique(s: Seq<EntryModel>) -> bool {
    forall|i: int, j: int| 0 <= i < s.len() && 0 <= j < s.len() && i != j ==> s[i].name != s[j].name
}

proof fn lemma_unique_slot(s: Seq<EntryModel>, name: Seq<char>, i: int)
    requires
        names_unique(s),
        0 <= i < s.len(),
        s[i].name == name,
    ensures
        has_name(s, name),
        slot_of(s, name) == i,
{
    assert(has_name(s, name));
}

/// A creation that fails frees its name: right after it is reported, the
/// same name can be created again.
pub proof fn lemma_failed_creation_frees_name(s: Seq<EntryModel>, account: Seq<char>, name: Seq<char>)
    requires
        names_unique(s),
        create_event_step(s, account, name).1 is Ok,
    ensures
        create_event_step(
            on_event_created_step(create_event_step(s, account, name).0, account, name, false),
            account,
            name,
        ).1 is Ok,
{
    let s1 = create_event_step(s, account, name).0;
    let k = if has_name(s, name) {
        slot_of(s, name)
    } else {
        s.len() as int
    };
    assert(s1[k].name == name);
    assert(names_unique(s1)) by {
        assert forall|i: int, j: int| 0 <= i < s1.len() && 0 <= j < s1.len() && i != j implies s1[i].name
            != s1[j].name by {
            if i != k && j != k {
                assert(s[i].name != s[j].name);
            } else if i == k && has_name(s, name) {
                assert(s[j].name != s[k].name);
            } else if j == k && has_name(s, name) {
                assert(s[i].name != s[k].name);
            } else if i == k {
                assert(!(s[j].name == name));
            } else {
                assert(!(s[i].name == name));
            }
        }
    }
    lemma_unique_slot(s1, name, k);
    let s2 = on_event_created_step(s1, account, name, false);
    assert(s2 == s1.update(k, EntryModel { name, status: CreationStatus::Failed, address: None }));
    assert(!name_taken(s2, name)) by {
        if name_taken(s2, name) {
            let j = choose|j: int|
                0 <= j < s2.len() && s2[j].name == name && s2[j].status != CreationStatus::Failed;
            if j != k {
                assert(s1[j].name != s1[k].name);
            }
        }
    }
}

/// Reporting the same outcome twice changes no more than reporting it once.
pub proof fn lemma_creation_report_idempotent(s: Seq<EntryModel>, account: Seq<char>, name: Seq<char>, success: bool)
    requires
        names_unique(s),
    ensures
        on_event_created_step(on_event_created_step(s, account, name, success), account, name, success)
            == on_event_created_step(s, account, name, success),
{
    let s1 = on_event_created_step(s, account, name, success);
    if has_name(s, name) && s[slot_of(s, name)].status == CreationStatus::Pending {
        let k = slot_of(s, name);
        assert(names_unique(s1)) by {
            assert forall|i: int, j: int| 0 <= i < s1.len() && 0 <= j < s1.len() && i != j implies s1[i].name
                != s1[j].name by {
                assert(s[i].name != s[j].name);
            }
        }
        lemma_unique_slot(s1, name, k);
    }
}

struct RegistryEntry {
    name: String,
    status: CreationStatus,
    address: Option<String>,
}

impl RegistryEntry {
    spec fn model(&self) -> EntryModel {
        EntryModel {
            name: self.name@,
            status: self.status,
            address: match self.address {
                Some(a) => Some(a@),
                None => None,
            },
        }
    }
}

/// The factory contract, deployed under `account_id`.
pub struct FactoryContract {
    account_id: String,
    entries: Vec<RegistryEntry>,
}

impl View for FactoryContract {
    type V = FactoryModel;

    closed spec fn view(&self) -> FactoryModel {
        FactoryModel {
            account: self.account_id@,
            entries: self.entries@.map_values(|e: RegistryEntry| e.model()),
        }
    }
}

impl FactoryContract {
    /// Names are unique, and exactly the succeeded entries carry an address.
    pub closed spec fn wf(&self) -> bool {
        &&& forall|i: int, j: int|
            0 <= i < j < self.entries@.len() ==> self.entries@[i].name@ != self.entries@[j].name@
        &&& forall|i: int|
            0 <= i < self.entries@.len() ==> (self.entries@[i].status == CreationStatus::Succeeded
                <==> self.entries@[i].address is Some)
    }

    /// Every well-formed registry keeps its names unique.
    pub proof fn lemma_wf_unique(&self)
        requires
            self.wf(),
        ensures
            names_unique(self@.entries),
    {
        assert forall|i: int, j: int|
            0 <= i < self@.entries.len() && 0 <= j < self@.entries.len() && i != j implies self@.entries[i].name
            != self@.entries[j].name by {
            if i < j {
                assert(self.entries@[i].name@ != self.entries@[j].name@);
            } else {
                assert(self.entries@[j].name@ != self.entries@[i].name@);
            }
        }
    }

    /// An empty registry under `account_id`.
    pub fn new(account_id: String) -> (r: FactoryContract)
        ensures
            r.wf(),
            r@.account == account_id@,
            r@.entries == Seq::<EntryModel>::empty(),
    {
        let r = FactoryContract { account_id, entries: Vec::new() };
        assert(r@.entries =~= Seq::<EntryModel>::empty());
        r
    }

    fn address_of(&self, name: &String) -> (r: String)
        ensures
            r@ == address_for(name@, self@.account),
    {
        let dotted = name.clone().concat(".");
        proof {
            reveal_strlit(".");
        }
        dotted.concat(self.account_id.as_str())
    }

    /// The slot that holds `name`, if any.
    fn find(&self, name: &String) -> (r: Option<usize>)
        requires
            self.wf(),
        ensures
            match r {
                Some(i) => has_name(self@.entries, name@) && i == slot_of(self@.entries, name@) && i < self@.entries.len(),
                None => !has_name(self@.entries, name@),
            },
    {
        let mut i: usize = 0;
        while i < self.entries.len()
            invariant
                self.wf(),
                i <= self.entries@.len(),
                forall|j: int| 0 <= j < i ==> self.entries@[j].name@ != name@,
            decreases self.entries@.len() - i,
        {
            if self.entries[i].name == *name {
                proof {
                    assert(self@.entries[i as int].name == name@);
                    let k = slot_of(self@.entries, name@);
                    assert(self@.entries[k].name == self.entries@[k].name@);
                    if k < i {
                        assert(self.entries@[k].name@ != self.entries@[i as int].name@);
                    } else if k > i {
                        assert(self.entries@[i as int].name@ != self.entries@[k].name@);
                    }
                }
                return Some(i);
            }
            i = i + 1;
        }
        proof {
            if has_name(self@.entries, name@) {
                let k = slot_of(self@.entries, name@);
                assert(self@.entries[k].name == self.entries@[k].name@);
            }
        }
        None
    }

    /// Registers `name` as pending and asks for a new event contract hosted
    /// by `caller`; the attached deposit goes with it to pay for its storage.
    /// A name that is pending or in use is refused with `NameTaken`.
    pub fn create_event(&mut self, name: String, details: EventDetails, caller: &String, attached_deposit: u128) -> (r:
        Result<Instantiation, ContractError>)
        requires
            old(self).wf(),
        ensures
            final(self).wf(),
            final(self)@.account == old(self)@.account,
            (final(self)@.entries, instantiation_address(r)) == create_event_step(
                old(self)@.entries,
                old(self)@.account,
                name@,
            ),
            r matches Ok(inst) ==> (inst.host@ == caller@ && inst.details == details && inst.deposit
                == attached_deposit),
    {
        let slot = self.find(&name);
        let ghost before = self@.entries;
        proof {
            if let Some(i) = slot {
                assert(before[i as int].name == self.entries@[i as int].name@);
                assert(before[i as int].status == self.entries@[i as int].status);
            }
        }
        if let Some(i) = slot {
            if self.entries[i].status != CreationStatus::Failed {
                return Err(ContractError::NameTaken);
            }
        }
        proof {
            assert(!name_taken(before, name@)) by {
                if name_taken(before, name@) {
                    let j = choose|j: int|
                        0 <= j < before.len() && before[j].name == name@ && before[j].status
                            != CreationStatus::Failed;
                    assert(before[j].name == self.entries@[j].name@);
                    assert(before[j].status == self.entries@[j].status);
                    let i = slot->Some_0 as int;
                    if j < i {
                        assert(self.entries@[j].name@ != self.entries@[i].name@);
                    } else if j > i {
                        assert(self.entries@[i].name@ != self.entries@[j].name@);
                    }
                }
            }
        }
        let address = self.address_of(&name);
        let entry = RegistryEntry { name, status: CreationStatus::Pending, address: None };
        match slot {
            Some(i) => {
                self.entries.set(i, entry);
                assert(self@.entries =~= before.update(i as int, pending_entry(entry.name@)));
            },
            None => {
                self.entries.push(entry);
                assert(self@.entries =~= before.push(pending_entry(entry.name@)));
                assert forall|j: int| 0 <= j < before.len() implies self.entries@[j].name@ != entry.name@ by {
                    assert(before[j].name == self.entries@[j].name@);
                }
            },
        }
        Ok(Instantiation { address, host: caller.clone(), details, deposit: attached_deposit })
    }

    /// Settles a pending name once its contract was or was not created: on
    /// success the name is in use at its address, on failure it is free
    /// again. A name that is not pending is left alone, so a repeated call
    /// changes nothing.
    pub fn on_event_created(&mut self, name: &String, success: bool)
        requires
            old(self).wf(),
        ensures
            final(self).wf(),
            final(self)@.account == old(self)@.account,
            final(self)@.entries == on_event_created_step(
                old(self)@.entries,
                old(self)@.account,
                name@,
                success,
            ),
    {
        let ghost before = self@.entries;
        if let Some(i) = self.find(name) {
            assert(before[i as int].status == self.entries@[i as int].status);
            if self.entries[i].status == CreationStatus::Pending {
                let entry = if success {
                    RegistryEntry {
                        name: name.clone(),
                        status: CreationStatus::Succeeded,
                        address: Some(self.address_of(name)),
                    }
                } else {
                    RegistryEntry { name: name.clone(), status: CreationStatus::Failed, address: None }
                };
                self.entries.set(i, entry);
                assert(self@.entries =~= before.update(i as int, entry.model()));
            }
        }
    }

    /// The names of the events that were created, in registry order.
    pub fn get_event_names(&self) -> (r: Vec<String>)
        requires
            self.wf(),
        ensures
            ids(r@) == succeeded_names(self@.entries),
    {
        let mut r: Vec<String> = Vec::new();
        let mut i: usize = 0;
        while i < self.entries.len()
            invariant
                i <= self.entries@.len(),
                ids(r@) == succeeded_names(self@.entries.subrange(0, i as int)),
            decreases self.entries@.len() - i,
        {
            let ghost prefix = self@.entries.subrange(0, i as int + 1);
            assert(prefix.drop_last() =~= self@.entries.subrange(0, i as int));
            assert(prefix.last() == self.entries@[i as int].model());
            if self.entries[i].status == CreationStatus::Succeeded {
                let ghost old_r = r@;
                r.push(self.entries[i].name.clone());
                assert(ids(r@) =~= ids(old_r).push(self.entries@[i as int].name@));
            }
            i = i + 1;
        }
        assert(self@.entries.subrange(0, self@.entries.len() as int) =~= self@.entries);
        r
    }
}

} // verus!
