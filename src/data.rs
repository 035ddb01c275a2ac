use vstd::prelude::*;
use crate::table::Table;
use crate::unit_config::UnitConfig;

verus! {

/// The shared tables through which loaders publish unit configurations:
/// the configurations by unit name, and the subscribers (by name, with an
/// id of the subscriber) that are told of changes.
pub struct DataManager {
    unit_config: Table<UnitConfig>,
    subscribers: Table<u64>,
}

impl DataManager {
    /// Both tables are well formed.
    pub open spec fn wf(&self) -> bool {
        self.configs().wf() && self.subs().wf()
    }

    /// The unit configurations by name.
    pub closed spec fn configs(&self) -> Table<UnitConfig> {
        self.unit_config
    }

    /// The subscribers by name.
    pub closed spec fn subs(&self) -> Table<u64> {
        self.subscribers
    }

    /// Empty tables.
    pub fn new() -> (d: DataManager)
        ensures
            d.wf(),
            d.configs()@ == Map::<Seq<char>, UnitConfig>::empty(),
            d.subs()@ == Map::<Seq<char>, u64>::empty(),
    {
        DataManager { unit_config: Table::new(), subscribers: Table::new() }
    }

    /// Publishes the configuration of `u_name`, returning the one replaced.
    pub fn insert_unit_config(&mut self, u_name: String, u_config: UnitConfig) -> (r: Option<
        UnitConfig,
    >)
        requires
            old(self).wf(),
        ensures
            final(self).wf(),
            final(self).configs()@ == old(self).configs()@.insert(u_name@, u_config),
            final(self).subs()@ == old(self).subs()@,
            r == (if old(self).configs()@.contains_key(u_name@) {
                Some(old(self).configs()@[u_name@])
            } else {
                None
            }),
    {
        self.unit_config.insert(u_name, u_config)
    }

    /// Withdraws the configuration of `u_name`, returning it.
    pub fn remove_unit_config(&mut self, u_name: &String) -> (r: Option<UnitConfig>)
        requires
            old(self).wf(),
        ensures
            final(self).wf(),
            final(self).configs()@ == old(self).configs()@.remove(u_name@),
            final(self).subs()@ == old(self).subs()@,
            r == (if old(self).configs()@.contains_key(u_name@) {
                Some(old(self).configs()@[u_name@])
            } else {
                None
            }),
    {
        self.unit_config.remove(u_name)
    }

    /// Registers subscriber `subscriber` under `name`, returning the one it
    /// replaced.
    pub fn register_unit_config(&mut self, name: String, subscriber: u64) -> (r: Option<u64>)
        requires
            old(self).wf(),
        ensures
            final(self).wf(),
            final(self).subs()@ == old(self).subs()@.insert(name@, subscriber),
            final(self).configs()@ == old(self).configs()@,
            r == (if old(self).subs()@.contains_key(name@) {
                Some(old(self).subs()@[name@])
            } else {
                None
            }),
    {
        self.subscribers.insert(name, subscriber)
    }
}

} // verus!
