//! The owned handle to both configuration tables. Whoever shares it across
//! concurrent callers guards it with one lock for each whole operation.

use vstd::prelude::*;
use crate::model_store::{ModelRow, SettingModelDbManager};
use crate::server_store::{ServerRow, SettingA2AServerDbManager};

verus! {

pub struct DbManager {
    pub name: String,
    pub models: SettingModelDbManager,
    pub servers: SettingA2AServerDbManager,
}

impl DbManager {
    pub open spec fn wf(&self) -> bool {
        self.models.wf() && self.servers.wf()
    }

    /// A handle named `name` over two empty tables.
    pub fn new(name: String) -> (r: Self)
        ensures
            r.wf(),
            r.name == name,
            r.models@ == Seq::<ModelRow>::empty(),
            r.servers@ == Seq::<ServerRow>::empty(),
    {
        DbManager { name, models: SettingModelDbManager::new(), servers: SettingA2AServerDbManager::new() }
    }
}

impl Default for DbManager {
    fn default() -> (r: Self)
        ensures
            r.wf(),
            r.name@ == Seq::<char>::empty(),
            r.models@ == Seq::<ModelRow>::empty(),
            r.servers@ == Seq::<ServerRow>::empty(),
    {
        DbManager::new(String::new())
    }
}

} // verus!
