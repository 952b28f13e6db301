//! Published versions of named contracts.
//!
//! Whoever publishes under a free name becomes the owner of the name. Only
//! the owner publishes further versions under it; the attempt of anybody else
//! changes nothing. Versions are numbered from zero in the order of their
//! publication, and none is ever replaced.

use crate::types::Address;
use vstd::prelude::*;

verus! {

/// The number of a version of a named contract.
pub type Version = u32;

/// The number of a block of the host chain.
pub type BlockNumber = u32;

/// One published version of a contract.
#[derive(Debug, Default, PartialEq, Eq)]
pub struct PublishedContract {
    /// The block in which this version was published.
    pub publish_block: BlockNumber,
    /// The address of the published contract.
    pub address: Address,
    /// Where the metadata of this version is found.
    pub metadata_uri: String,
}

impl Clone for PublishedContract {
    fn clone(&self) -> (copy: Self)
        ensures
            copy == *self,
    {
        PublishedContract {
            publish_block: self.publish_block,
            address: self.address,
            metadata_uri: self.metadata_uri.clone(),
        }
    }
}

/// What is recorded about a contract name.
#[derive(Clone, Copy, Debug, Default, PartialEq, Eq)]
pub struct NamedContractInfo {
    /// The owner of the name.
    pub owner: Address,
    /// How many versions were published under the name; the latest has the
    /// number `version_count - 1`.
    pub version_count: Version,
}

/// A contract name with its owner and its versions, oldest first.
pub struct NamedContract {
    pub name: Seq<char>,
    pub owner: Address,
    pub versions: Seq<PublishedContract>,
}

/// The registered names, in the order of their registration.
pub struct RegistryState {
    pub entries: Seq<NamedContract>,
}

impl RegistryState {
    /// A registry without names.
    pub open spec fn empty() -> RegistryState {
        RegistryState { entries: Seq::empty() }
    }

    /// Whether `name` is registered.
    pub open spec fn registered(self, name: Seq<char>) -> bool {
        exists|i: int| 0 <= i < self.entries.len() && self.entries[i].name == name
    }

    /// The place of `name` among the entries.
    pub open spec fn position(self, name: Seq<char>) -> int {
        choose|i: int| 0 <= i < self.entries.len() && self.entries[i].name == name
    }

    /// The entry of a registered name.
    pub open spec fn entry(self, name: Seq<char>) -> NamedContract {
        self.entries[self.position(name)]
    }

    /// The registered names, in the order of their registration.
    pub open spec fn names(self) -> Seq<Seq<char>> {
        Seq::new(self.entries.len(), |i: int| self.entries[i].name)
    }

    /// What is recorded about `name`, if it is registered.
    pub open spec fn info(self, name: Seq<char>) -> Option<NamedContractInfo> {
        if self.registered(name) {
            Some(
                NamedContractInfo {
                    owner: self.entry(name).owner,
                    version_count: self.entry(name).versions.len() as Version,
                },
            )
        } else {
            None
        }
    }

    /// Version `version` of `name`, if it was published.
    pub open spec fn version(self, name: Seq<char>, version: Version) -> Option<PublishedContract> {
        if self.registered(name) && version < self.entry(name).versions.len() {
            Some(self.entry(name).versions[version as int])
        } else {
            None
        }
    }

    /// The latest version of `name`, if one was published.
    pub open spec fn latest(self, name: Seq<char>) -> Option<PublishedContract> {
        if self.registered(name) && self.entry(name).versions.len() > 0 {
            Some(self.entry(name).versions.last())
        } else {
            None
        }
    }

    /// The state after `caller` tried to publish `contract` under `name`. A
    /// free name is registered for the caller with `contract` as version
    /// zero. Under a name of their own the caller adds `contract` as the next
    /// version. Under a name of somebody else nothing changes.
    pub open spec fn published(self, name: Seq<char>, caller: Address, contract: PublishedContract)
        -> RegistryState {
        if !self.registered(name) {
            RegistryState {
                entries: self.entries.push(
                    NamedContract { name, owner: caller, versions: seq![contract] },
                ),
            }
        } else if self.entry(name).owner == caller {
            RegistryState {
                entries: self.entries.update(
                    self.position(name),
                    NamedContract {
                        versions: self.entry(name).versions.push(contract),
                        ..self.entry(name)
                    },
                ),
            }
        } else {
            self
        }
    }

    /// No name is registered twice, and the versions of each name can be
    /// counted in a `Version`.
    pub open spec fn wf(self) -> bool {
        &&& forall|i: int, j: int|
            0 <= i < self.entries.len() && 0 <= j < self.entries.len() && i != j ==> (
            #[trigger] self.entries[i]).name != (#[trigger] self.entries[j]).name
        &&& forall|i: int|
            0 <= i < self.entries.len() ==> 0 < (#[trigger] self.entries[i]).versions.len()
                <= Version::MAX
    }
}

/// A registered name as the registry stores it.
struct Entry {
    name: String,
    owner: Address,
    versions: Vec<PublishedContract>,
}

impl View for Entry {
    type V = NamedContract;

    closed spec fn view(&self) -> NamedContract {
        NamedContract { name: self.name@, owner: self.owner, versions: self.versions@ }
    }
}

/// The registry of named contracts and their published versions.
pub struct ContractRegistry {
    contracts: Vec<Entry>,
}

impl View for ContractRegistry {
    type V = RegistryState;

    closed spec fn view(&self) -> RegistryState {
        RegistryState { entries: Seq::new(self.contracts@.len(), |i: int| self.contracts@[i]@) }
    }
}

impl ContractRegistry {
    /// Whether the registry is consistent.
    pub open spec fn wf(&self) -> bool {
        self@.wf()
    }

    /// A registry without names.
    pub fn new() -> (registry: Self)
        ensures
            registry@ == RegistryState::empty(),
            registry.wf(),
    {
        let registry = ContractRegistry { contracts: Vec::new() };
        assert(registry@.entries =~= Seq::<NamedContract>::empty());
        registry
    }

    /// The place of `name` among the stored entries, if it is registered.
    fn find(&self, name: &String) -> (place: Option<usize>)
        requires
            self.wf(),
        ensures
            match place {
                Some(i) => self@.registered(name@) && i == self@.position(name@),
                None => !self@.registered(name@),
            },
    {
        let mut i: usize = 0;
        while i < self.contracts.len()
            invariant
                self.wf(),
                i <= self.contracts.len(),
                forall|j: int| 0 <= j < i ==> self@.entries[j].name != name@,
            decreases self.contracts.len() - i,
        {
            if self.contracts[i].name == *name {
                assert(self@.entries[i as int].name == name@);
                assert(self@.position(name@) == i) by {
                    let j = self@.position(name@);
                    assert(0 <= j < self@.entries.len() && self@.entries[j].name == name@);
                    assert(self@.entries[i as int].name == self@.entries[j].name);
                }
                return Some(i);
            }
            i += 1;
        }
        None
    }

    /// Whether `publish_latest` takes a contract under `contract_name` from
    /// `caller`: under the caller's own name there is room for one more
    /// version.
    pub fn can_publish(&self, contract_name: &String, caller: Address) -> (yes: bool)
        requires
            self.wf(),
        ensures
            yes == (self@.registered(contract_name@) && self@.entry(contract_name@).owner == caller
                ==> self@.entry(contract_name@).versions.len() < Version::MAX),
    {
        match self.find(contract_name) {
            Some(i) => {
                let stored = &self.contracts[i];
                assert(stored@ == self@.entry(contract_name@));
                stored.owner != caller || stored.versions.len() < Version::MAX as usize
            },
            None => true,
        }
    }

    /// Publishes a contract as the latest version under `contract_name`, on
    /// behalf of `caller`, in block `block`.
    ///
    /// A caller who publishes under a free name becomes its owner. The attempt
    /// to publish under the name of somebody else changes nothing. The caller's
    /// own name must have room for one more version.
    pub fn publish_latest(
        &mut self,
        contract_name: String,
        contract_address: Address,
        metadata_uri: String,
        caller: Address,
        block: BlockNumber,
    )
        requires
            old(self).wf(),
            old(self)@.registered(contract_name@) && old(self)@.entry(contract_name@).owner == caller
                ==> old(self)@.entry(contract_name@).versions.len() < Version::MAX,
        ensures
            final(self).wf(),
            final(self)@ == old(self)@.published(
                contract_name@,
                caller,
                PublishedContract { publish_block: block, address: contract_address, metadata_uri },
            ),
    {
        let latest = PublishedContract {
            publish_block: block,
            address: contract_address,
            metadata_uri,
        };
        let ghost goal = old(self)@.published(contract_name@, caller, latest);
        match self.find(&contract_name) {
            None => {
                let mut versions: Vec<PublishedContract> = Vec::new();
                versions.push(latest);
                assert(versions@ =~= seq![latest]);
                self.contracts.push(Entry { name: contract_name, owner: caller, versions });
                assert(self@.entries =~= goal.entries);
            },
            Some(i) => {
                if self.contracts[i].owner != caller {
                    return ;
                }
                let mut stored = self.contracts.remove(i);
                stored.versions.push(latest);
                self.contracts.insert(i, stored);
                assert(self@.entries =~= goal.entries);
            },
        }
    }

    /// The latest version published under `contract_name`, if the name is
    /// registered.
    pub fn get_latest(&self, contract_name: String) -> (latest: Option<PublishedContract>)
        requires
            self.wf(),
        ensures
            latest == self@.latest(contract_name@),
    {
        match self.find(&contract_name) {
            Some(i) => {
                let versions = &self.contracts[i].versions;
                assert(versions@ == self@.entry(contract_name@).versions);
                Some(versions[versions.len() - 1].clone())
            },
            None => None,
        }
    }

    /// Version `version` of `contract_name`, if it was published.
    pub fn get_version(&self, contract_name: String, version: Version) -> (found: Option<
        PublishedContract,
    >)
        requires
            self.wf(),
        ensures
            found == self@.version(contract_name@, version),
    {
        match self.find(&contract_name) {
            Some(i) => {
                let versions = &self.contracts[i].versions;
                assert(versions@ == self@.entry(contract_name@).versions);
                if (version as usize) < versions.len() {
                    Some(versions[version as usize].clone())
                } else {
                    None
                }
            },
            None => None,
        }
    }

    /// The owner of `contract_name` and the number of its versions, if the
    /// name is registered.
    pub fn get_info(&self, contract_name: String) -> (info: Option<NamedContractInfo>)
        requires
            self.wf(),
        ensures
            info == self@.info(contract_name@),
    {
        match self.find(&contract_name) {
            Some(i) => {
                let stored = &self.contracts[i];
                assert(stored@ == self@.entry(contract_name@));
                Some(
                    NamedContractInfo {
                        owner: stored.owner,
                        version_count: stored.versions.len() as Version,
                    },
                )
            },
            None => None,
        }
    }

    /// The number of registered names.
    pub fn name_count(&self) -> (count: usize)
        ensures
            count == self@.names().len(),
    {
        self.contracts.len()
    }

    /// The name registered at place `index`, counted from zero in the order
    /// of registration.
    pub fn get_name(&self, index: usize) -> (name: Option<String>)
        ensures
            match name {
                Some(n) => index < self@.names().len() && n@ == self@.names()[index as int],
                None => index >= self@.names().len(),
            },
    {
        if index < self.contracts.len() {
            Some(self.contracts[index].name.clone())
        } else {
            None
        }
    }
}

} // verus!
