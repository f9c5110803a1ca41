//! The table of model provider records.

use vstd::prelude::*;
use crate::error::StoreError;
use crate::model::{SettingModel, SettingModelParams, UpdateSettingModelParams};

verus! {

broadcast use vstd::seq_lib::group_seq_properties;

/// The stored state of one model provider record.
pub struct ModelRow {
    pub id: i32,
    pub model_key: Seq<char>,
    pub enabled: bool,
    pub api_url: Seq<char>,
    pub api_key: Seq<char>,
    pub created_at: Seq<char>,
    pub updated_at: Seq<char>,
}

/// Identities are ascending, lie in `[1, next_id)`, and keys are unique.
pub open spec fn model_rows_wf(rows: Seq<ModelRow>, next_id: int) -> bool {
    &&& 1 <= next_id <= i32::MAX
    &&& forall|i: int| 0 <= i < rows.len() ==> 1 <= #[trigger] rows[i].id < next_id
    &&& forall|i: int, j: int| 0 <= i < j < rows.len() ==> #[trigger] rows[i].id < #[trigger] rows[j].id
    &&& forall|i: int, j: int|
        0 <= i < rows.len() && 0 <= j < rows.len() && i != j
            ==> #[trigger] rows[i].model_key != #[trigger] rows[j].model_key
}

pub open spec fn model_key_taken(rows: Seq<ModelRow>, key: Seq<char>) -> bool {
    exists|i: int| 0 <= i < rows.len() && #[trigger] rows[i].model_key == key
}

pub open spec fn model_id_present(rows: Seq<ModelRow>, id: i32) -> bool {
    exists|i: int| 0 <= i < rows.len() && #[trigger] rows[i].id == id
}

/// The row a fresh insert stores.
pub open spec fn fresh_model_row(p: SettingModelParams, id: i32, now: Seq<char>) -> ModelRow {
    ModelRow {
        id,
        model_key: p.model_key@,
        enabled: p.enabled,
        api_url: p.api_url@,
        api_key: p.api_key@,
        created_at: now,
        updated_at: now,
    }
}

/// The row after a partial update: present fields replaced, the update time
/// advanced, everything else kept.
pub open spec fn updated_model_row(row: ModelRow, p: UpdateSettingModelParams, now: Seq<char>) -> ModelRow {
    ModelRow {
        enabled: match p.enabled { Some(e) => e, None => row.enabled },
        api_url: match p.api_url { Some(u) => u@, None => row.api_url },
        api_key: match p.api_key { Some(k) => k@, None => row.api_key },
        updated_at: now,
        ..row
    }
}

pub open spec fn toggled_model_row(row: ModelRow, now: Seq<char>) -> ModelRow {
    ModelRow { enabled: !row.enabled, updated_at: now, ..row }
}

/// Every enabled row other than `keep` is disabled.
pub open spec fn model_rows_disable_others(rows: Seq<ModelRow>, keep: i32, now: Seq<char>) -> Seq<ModelRow> {
    rows.map_values(|r: ModelRow|
        if r.id != keep && r.enabled { ModelRow { enabled: false, updated_at: now, ..r } } else { r })
}

/// The enabled rows, in table order.
pub open spec fn enabled_models(rows: Seq<ModelRow>) -> Seq<ModelRow> {
    rows.filter(|r: ModelRow| r.enabled)
}

/// How many rows other than `keep` are enabled.
pub open spec fn count_other_enabled_models(rows: Seq<ModelRow>, keep: i32) -> nat
    decreases rows.len(),
{
    if rows.len() == 0 {
        0
    } else {
        count_other_enabled_models(rows.drop_last(), keep) + if rows.last().id != keep
            && rows.last().enabled {
            1nat
        } else {
            0nat
        }
    }
}

/// How a returned record shows a stored row.
pub open spec fn shows_model(m: SettingModel, row: ModelRow) -> bool {
    &&& m.id == Some(row.id)
    &&& m.model_key@ == row.model_key
    &&& m.enabled == row.enabled
    &&& m.api_url@ == row.api_url
    &&& m.api_key@ == row.api_key
}

pub open spec fn shows_models(ms: Seq<SettingModel>, rows: Seq<ModelRow>) -> bool {
    &&& ms.len() == rows.len()
    &&& forall|i: int| 0 <= i < rows.len() ==> shows_model(#[trigger] ms[i], rows[i])
}

/// After a first insert of key `k` into a table that lacked it, the table
/// holds exactly one record with key `k`, so a second insert of `k` is
/// refused.
pub proof fn lemma_model_key_stored_once(
    rows: Seq<ModelRow>,
    next_id: int,
    p: SettingModelParams,
    now: Seq<char>,
)
    requires
        model_rows_wf(rows, next_id),
        next_id < i32::MAX,
        !model_key_taken(rows, p.model_key@),
    ensures
        ({
            let after = rows.push(fresh_model_row(p, next_id as i32, now));
            &&& model_rows_wf(after, next_id + 1)
            &&& model_key_taken(after, p.model_key@)
            &&& after[rows.len() as int].model_key == p.model_key@
            &&& forall|j: int|
                0 <= j < after.len() && j != rows.len() ==> #[trigger] after[j].model_key
                    != p.model_key@
        }),
{
    let after = rows.push(fresh_model_row(p, next_id as i32, now));
    assert(after[rows.len() as int].model_key == p.model_key@);
    assert forall|j: int| 0 <= j < after.len() && j != rows.len() implies #[trigger] after[j].model_key
        != p.model_key@ by {
        assert(after[j] == rows[j]);
    }
}

/// An update carrying only the enabled flag rewrites that flag and the
/// update time and leaves every other field as it was; the update time
/// changes whenever the new stamp differs from the old one.
pub proof fn lemma_model_enabled_only_update(row: ModelRow, p: UpdateSettingModelParams, now: Seq<char>)
    requires
        p.enabled is Some,
        p.api_url is None,
        p.api_key is None,
    ensures
        ({
            let after = updated_model_row(row, p, now);
            &&& after == ModelRow { enabled: p.enabled->0, updated_at: now, ..row }
            &&& after.id == row.id && after.model_key == row.model_key && after.api_url == row.api_url
            &&& after.api_key == row.api_key && after.created_at == row.created_at
            &&& now != row.updated_at ==> after.updated_at != row.updated_at
        }),
{
}

proof fn lemma_model_enabled_at_most_one(s: Seq<ModelRow>, keep: i32)
    requires
        forall|i: int| 0 <= i < s.len() && s[i].enabled ==> s[i].id == keep,
        forall|i: int, j: int| 0 <= i < j < s.len() ==> s[i].id < s[j].id,
    ensures
        enabled_models(s).len() <= 1,
        forall|k: int| 0 <= k < enabled_models(s).len() ==> (#[trigger] enabled_models(s)[k]).id == keep,
        (exists|i: int| 0 <= i < s.len() && s[i].enabled) ==> enabled_models(s).len() == 1,
        (forall|i: int| 0 <= i < s.len() ==> !s[i].enabled) ==> enabled_models(s).len() == 0,
    decreases s.len(),
{
    reveal(Seq::filter);
    if s.len() > 0 {
        let init = s.drop_last();
        lemma_model_enabled_at_most_one(init, keep);
        assert(enabled_models(s) == if s.last().enabled {
            enabled_models(init).push(s.last())
        } else {
            enabled_models(init)
        });
        if s.last().enabled {
            assert forall|i: int| 0 <= i < init.len() implies !init[i].enabled by {
                assert(s[i].id < s[s.len() - 1].id);
            }
        } else {
            assert forall|i: int| 0 <= i < s.len() && s[i].enabled implies exists|j: int|
                0 <= j < init.len() && init[j].enabled by {
                assert(i < s.len() - 1);
                assert(init[i] == s[i]);
            }
        }
    }
}

/// After every record but `keep` is disabled, at most one record is enabled:
/// a record is enabled exactly when it is `keep` and was enabled before, and
/// that record is left as it was.
pub proof fn lemma_model_single_enabled(rows: Seq<ModelRow>, next_id: int, keep: i32, now: Seq<char>)
    requires
        model_rows_wf(rows, next_id),
    ensures
        ({
            let after = model_rows_disable_others(rows, keep, now);
            &&& after.len() == rows.len()
            &&& enabled_models(after).len() <= 1
            &&& forall|k: int|
                0 <= k < enabled_models(after).len() ==> (#[trigger] enabled_models(after)[k]).id
                    == keep
            &&& forall|i: int|
                0 <= i < rows.len() ==> (#[trigger] after[i].enabled <==> rows[i].id == keep
                    && rows[i].enabled)
            &&& forall|i: int| 0 <= i < rows.len() && rows[i].id == keep ==> #[trigger] after[i] == rows[i]
            &&& (exists|i: int| 0 <= i < rows.len() && rows[i].id == keep && rows[i].enabled)
                ==> enabled_models(after).len() == 1
        }),
{
    let after = model_rows_disable_others(rows, keep, now);
    assert forall|i: int| 0 <= i < after.len() && after[i].enabled implies after[i].id == keep by {}
    assert forall|i: int, j: int| 0 <= i < j < after.len() implies after[i].id < after[j].id by {
        assert(after[i].id == rows[i].id && after[j].id == rows[j].id);
    }
    lemma_model_enabled_at_most_one(after, keep);
    if exists|i: int| 0 <= i < rows.len() && rows[i].id == keep && rows[i].enabled {
        let i = choose|i: int| 0 <= i < rows.len() && rows[i].id == keep && rows[i].enabled;
        assert(after[i].enabled);
    }
}

/// A record read back by the identity its insert returned shows exactly the
/// inserted key, flag, URL and credential.
pub proof fn lemma_model_insert_then_get(
    rows: Seq<ModelRow>,
    next_id: int,
    p: SettingModelParams,
    now: Seq<char>,
)
    requires
        model_rows_wf(rows, next_id),
        next_id < i32::MAX,
        !model_key_taken(rows, p.model_key@),
    ensures
        ({
            let after = rows.push(fresh_model_row(p, next_id as i32, now));
            &&& model_id_present(after, next_id as i32)
            &&& forall|i: int, m: SettingModel|
                0 <= i < after.len() && after[i].id == next_id as i32 && #[trigger] shows_model(
                    m,
                    after[i],
                ) ==> {
                    &&& m.id == Some(next_id as i32)
                    &&& m.model_key@ == p.model_key@
                    &&& m.enabled == p.enabled
                    &&& m.api_url@ == p.api_url@
                    &&& m.api_key@ == p.api_key@
                }
        }),
{
    let after = rows.push(fresh_model_row(p, next_id as i32, now));
    assert(after[rows.len() as int].id == next_id as i32);
    assert forall|i: int| 0 <= i < after.len() && after[i].id == next_id as i32 implies i == rows.len() by {
        if i < rows.len() {
            assert(after[i] == rows[i]);
        }
    }
}

struct StoredModel {
    id: i32,
    model_key: String,
    enabled: bool,
    api_url: String,
    api_key: String,
    created_at: String,
    updated_at: String,
}

impl StoredModel {
    spec fn row(&self) -> ModelRow {
        ModelRow {
            id: self.id,
            model_key: self.model_key@,
            enabled: self.enabled,
            api_url: self.api_url@,
            api_key: self.api_key@,
            created_at: self.created_at@,
            updated_at: self.updated_at@,
        }
    }

    fn to_record(&self) -> (m: SettingModel)
        ensures
            shows_model(m, self.row()),
    {
        SettingModel {
            id: Some(self.id),
            model_key: self.model_key.clone(),
            enabled: self.enabled,
            api_url: self.api_url.clone(),
            api_key: self.api_key.clone(),
        }
    }
}

/// The model provider table, owned by whoever holds the connection to it.
pub struct SettingModelDbManager {
    rows: Vec<StoredModel>,
    next_id: i32,
}

impl View for SettingModelDbManager {
    type V = Seq<ModelRow>;

    closed spec fn view(&self) -> Seq<ModelRow> {
        self.rows@.map_values(|s: StoredModel| s.row())
    }
}

impl SettingModelDbManager {
    /// The identity the next insert hands out.
    pub closed spec fn next_id(&self) -> int {
        self.next_id as int
    }

    pub open spec fn wf(&self) -> bool {
        model_rows_wf(self@, self.next_id())
    }

    pub fn new() -> (r: Self)
        ensures
            r.wf(),
            r@ == Seq::<ModelRow>::empty(),
            r.next_id() == 1,
    {
        let r = SettingModelDbManager { rows: Vec::new(), next_id: 1 };
        assert(r@ =~= Seq::<ModelRow>::empty());
        r
    }

    fn position_of_id(&self, id: i32) -> (r: Option<usize>)
        ensures
            match r {
                Some(i) => i < self@.len() && self@[i as int].id == id,
                None => !model_id_present(self@, id),
            },
    {
        let mut i: usize = 0;
        while i < self.rows.len()
            invariant
                i <= self.rows.len(),
                forall|j: int| 0 <= j < i ==> self@[j].id != id,
            decreases self.rows.len() - i,
        {
            if self.rows[i].id == id {
                return Some(i);
            }
            i += 1;
        }
        None
    }

    fn position_of_key(&self, key: &String) -> (r: Option<usize>)
        ensures
            match r {
                Some(i) => i < self@.len() && self@[i as int].model_key == key@,
                None => !model_key_taken(self@, key@),
            },
    {
        let mut i: usize = 0;
        while i < self.rows.len()
            invariant
                i <= self.rows.len(),
                forall|j: int| 0 <= j < i ==> self@[j].model_key != key@,
            decreases self.rows.len() - i,
        {
            if self.rows[i].model_key == *key {
                return Some(i);
            }
            i += 1;
        }
        None
    }

    /// Stores a new record and returns its identity. A key that is already
    /// stored is refused and nothing changes.
    pub fn insert(&mut self, params: &SettingModelParams, now: &str) -> (r: Result<i64, StoreError>)
        requires
            old(self).wf(),
        ensures
            final(self).wf(),
            model_key_taken(old(self)@, params.model_key@) ==> {
                &&& r matches Err(StoreError::DuplicateKey(k)) && k@ == params.model_key@
                &&& final(self)@ == old(self)@
                &&& final(self).next_id() == old(self).next_id()
            },
            !model_key_taken(old(self)@, params.model_key@) && old(self).next_id() < i32::MAX ==> {
                &&& r == Ok::<i64, StoreError>(old(self).next_id() as i64)
                &&& final(self)@ == old(self)@.push(
                    fresh_model_row(*params, old(self).next_id() as i32, now@),
                )
                &&& final(self).next_id() == old(self).next_id() + 1
            },
            !model_key_taken(old(self)@, params.model_key@) && old(self).next_id() == i32::MAX ==> {
                &&& r matches Err(StoreError::IdsExhausted)
                &&& final(self)@ == old(self)@
            },
    {
        if let Some(_) = self.position_of_key(&params.model_key) {
            return Err(StoreError::DuplicateKey(params.model_key.clone()));
        }
        if self.next_id == i32::MAX {
            return Err(StoreError::IdsExhausted);
        }
        let id = self.next_id;
        let stamp = String::from_str(now);
        let row = StoredModel {
            id,
            model_key: params.model_key.clone(),
            enabled: params.enabled,
            api_url: params.api_url.clone(),
            api_key: params.api_key.clone(),
            created_at: stamp.clone(),
            updated_at: stamp,
        };
        self.rows.push(row);
        self.next_id = id + 1;
        assert(self@ =~= old(self)@.push(fresh_model_row(*params, id, now@)));
        Ok(id as i64)
    }

    /// Rewrites the present fields of the record `params.id` and advances its
    /// update time; returns the number of records changed. With no field
    /// present nothing changes and 0 is returned.
    pub fn update(&mut self, params: &UpdateSettingModelParams, now: &str) -> (r: usize)
        requires
            old(self).wf(),
        ensures
            final(self).wf(),
            final(self).next_id() == old(self).next_id(),
            params.touches_nothing() || !model_id_present(old(self)@, params.id) ==> {
                &&& r == 0
                &&& final(self)@ == old(self)@
            },
            !params.touches_nothing() && model_id_present(old(self)@, params.id) ==> {
                &&& r == 1
                &&& exists|i: int|
                    0 <= i < old(self)@.len() && old(self)@[i].id == params.id
                        && final(self)@ == old(self)@.update(
                        i,
                        updated_model_row(old(self)@[i], *params, now@),
                    )
            },
    {
        if params.enabled.is_none() && params.api_url.is_none() && params.api_key.is_none() {
            return 0;
        }
        match self.position_of_id(params.id) {
            None => 0,
            Some(i) => {
                if let Some(enabled) = params.enabled {
                    self.rows[i].enabled = enabled;
                }
                if let Some(api_url) = &params.api_url {
                    self.rows[i].api_url = api_url.clone();
                }
                if let Some(api_key) = &params.api_key {
                    self.rows[i].api_key = api_key.clone();
                }
                self.rows[i].updated_at = String::from_str(now);
                assert(self@ =~= old(self)@.update(
                    i as int,
                    updated_model_row(old(self)@[i as int], *params, now@),
                ));
                1
            },
        }
    }

    /// Every record, by ascending identity.
    pub fn get_all(&self) -> (r: Vec<SettingModel>)
        ensures
            shows_models(r@, self@),
    {
        let mut out: Vec<SettingModel> = Vec::new();
        let mut i: usize = 0;
        while i < self.rows.len()
            invariant
                i <= self.rows.len(),
                shows_models(out@, self@.take(i as int)),
            decreases self.rows.len() - i,
        {
            let m = self.rows[i].to_record();
            out.push(m);
            i += 1;
        }
        assert(self@.take(self@.len() as int) =~= self@);
        out
    }

    /// The record with identity `id`, if one is stored.
    pub fn get_by_id(&self, id: i32) -> (r: Option<SettingModel>)
        ensures
            match r {
                Some(m) => exists|i: int|
                    0 <= i < self@.len() && self@[i].id == id && shows_model(m, #[trigger] self@[i]),
                None => !model_id_present(self@, id),
            },
    {
        match self.position_of_id(id) {
            Some(i) => Some(self.rows[i].to_record()),
            None => None,
        }
    }

    /// The record whose key is `model_key`, if one is stored.
    pub fn get_by_model_key(&self, model_key: &str) -> (r: Option<SettingModel>)
        ensures
            match r {
                Some(m) => exists|i: int|
                    0 <= i < self@.len() && self@[i].model_key == model_key@ && shows_model(
                        m,
                        #[trigger] self@[i],
                    ),
                None => !model_key_taken(self@, model_key@),
            },
    {
        let key = String::from_str(model_key);
        match self.position_of_key(&key) {
            Some(i) => Some(self.rows[i].to_record()),
            None => None,
        }
    }

    /// The enabled records, by ascending identity.
    pub fn get_enabled(&self) -> (r: Vec<SettingModel>)
        ensures
            shows_models(r@, enabled_models(self@)),
    {
        let mut out: Vec<SettingModel> = Vec::new();
        let mut i: usize = 0;
        while i < self.rows.len()
            invariant
                i <= self.rows.len(),
                shows_models(out@, enabled_models(self@.take(i as int))),
            decreases self.rows.len() - i,
        {
            proof {
                assert(self@.take(i as int + 1) =~= self@.take(i as int).push(self@[i as int]));
                self@.take(i as int).lemma_filter_push(self@[i as int], |r: ModelRow| r.enabled);
            }
            if self.rows[i].enabled {
                let m = self.rows[i].to_record();
                out.push(m);
            }
            i += 1;
        }
        assert(self@.take(self@.len() as int) =~= self@);
        out
    }

    /// Removes the record with identity `id`; returns the number removed.
    pub fn delete_by_id(&mut self, id: i32) -> (r: usize)
        requires
            old(self).wf(),
        ensures
            final(self).wf(),
            final(self).next_id() == old(self).next_id(),
            !model_id_present(old(self)@, id) ==> r == 0 && final(self)@ == old(self)@,
            model_id_present(old(self)@, id) ==> {
                &&& r == 1
                &&& exists|i: int|
                    0 <= i < old(self)@.len() && old(self)@[i].id == id && final(self)@
                        == old(self)@.remove(i)
            },
    {
        match self.position_of_id(id) {
            None => 0,
            Some(i) => {
                self.rows.remove(i);
                assert(self@ =~= old(self)@.remove(i as int));
                1
            },
        }
    }

    /// Removes the record whose key is `model_key`; returns the number
    /// removed.
    pub fn delete_by_model_key(&mut self, model_key: &str) -> (r: usize)
        requires
            old(self).wf(),
        ensures
            final(self).wf(),
            final(self).next_id() == old(self).next_id(),
            !model_key_taken(old(self)@, model_key@) ==> r == 0 && final(self)@ == old(self)@,
            model_key_taken(old(self)@, model_key@) ==> {
                &&& r == 1
                &&& exists|i: int|
                    0 <= i < old(self)@.len() && old(self)@[i].model_key == model_key@
                        && final(self)@ == old(self)@.remove(i)
            },
    {
        let key = String::from_str(model_key);
        match self.position_of_key(&key) {
            None => 0,
            Some(i) => {
                self.rows.remove(i);
                assert(self@ =~= old(self)@.remove(i as int));
                1
            },
        }
    }

    /// Flips the enabled flag of the record `id`; returns the number of
    /// records changed.
    pub fn toggle_enabled(&mut self, id: i32, now: &str) -> (r: usize)
        requires
            old(self).wf(),
        ensures
            final(self).wf(),
            final(self).next_id() == old(self).next_id(),
            !model_id_present(old(self)@, id) ==> r == 0 && final(self)@ == old(self)@,
            model_id_present(old(self)@, id) ==> {
                &&& r == 1
                &&& exists|i: int|
                    0 <= i < old(self)@.len() && old(self)@[i].id == id && final(self)@
                        == old(self)@.update(i, toggled_model_row(old(self)@[i], now@))
            },
    {
        match self.position_of_id(id) {
            None => 0,
            Some(i) => {
                let flipped = !self.rows[i].enabled;
                self.rows[i].enabled = flipped;
                self.rows[i].updated_at = String::from_str(now);
                assert(self@ =~= old(self)@.update(
                    i as int,
                    toggled_model_row(old(self)@[i as int], now@),
                ));
                1
            },
        }
    }

    /// Disables every enabled record other than `enabled_id`; returns how many
    /// were disabled. This is a step of its own: a caller that toggles one
    /// record and then disables the others makes two calls, and another
    /// caller may act between them.
    pub fn ensure_single_enabled(&mut self, enabled_id: i32, now: &str) -> (r: usize)
        requires
            old(self).wf(),
        ensures
            final(self).wf(),
            final(self).next_id() == old(self).next_id(),
            final(self)@ == model_rows_disable_others(old(self)@, enabled_id, now@),
            r == count_other_enabled_models(old(self)@, enabled_id),
    {
        let stamp = String::from_str(now);
        let mut count: usize = 0;
        let mut i: usize = 0;
        while i < self.rows.len()
            invariant
                i <= self.rows.len(),
                self@.len() == old(self)@.len(),
                self.next_id == old(self).next_id,
                stamp@ == now@,
                count <= i,
                count == count_other_enabled_models(old(self)@.take(i as int), enabled_id),
                forall|j: int|
                    0 <= j < i ==> #[trigger] self@[j] == model_rows_disable_others(
                        old(self)@,
                        enabled_id,
                        now@,
                    )[j],
                forall|j: int| i <= j < self@.len() ==> #[trigger] self@[j] == old(self)@[j],
            decreases self.rows.len() - i,
        {
            let ghost before = self@;
            proof {
                let t = old(self)@.take(i as int + 1);
                assert(t.drop_last() =~= old(self)@.take(i as int));
                assert(t.last() == old(self)@[i as int]);
                assert(before[i as int] == old(self)@[i as int]);
                assert(model_rows_disable_others(old(self)@, enabled_id, now@)[i as int] == (
                if old(self)@[i as int].id != enabled_id && old(self)@[i as int].enabled {
                    ModelRow { enabled: false, updated_at: now@, ..old(self)@[i as int] }
                } else {
                    old(self)@[i as int]
                }));
            }
            if self.rows[i].id != enabled_id && self.rows[i].enabled {
                self.rows[i].enabled = false;
                self.rows[i].updated_at = stamp.clone();
                count += 1;
                assert(self@ =~= before.update(i as int, model_rows_disable_others(old(self)@, enabled_id, now@)[i as int]));
            }
            i += 1;
        }
        assert(self@ =~= model_rows_disable_others(old(self)@, enabled_id, now@));
        assert(old(self)@.take(old(self)@.len() as int) =~= old(self)@);
        count
    }
}

} // verus!
