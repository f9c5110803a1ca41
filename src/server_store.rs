//! The table of agent server records.

use vstd::prelude::*;
use crate::error::StoreError;
use crate::model::{
    clone_opt_text, opt_text, SettingA2AServer, SettingA2AServerParams,
    UpdateSettingA2AServerParams,
};

verus! {

broadcast use vstd::seq_lib::group_seq_properties;

/// The stored state of one agent server record.
pub struct ServerRow {
    pub id: i32,
    pub name: Seq<char>,
    pub agent_card_url: Seq<char>,
    pub agent_card_json: Option<Seq<char>>,
    pub custom_header_json: Option<Seq<char>>,
    pub protocol_data_object_settings: Option<Seq<char>>,
    pub enabled: bool,
    pub created_at: Seq<char>,
    pub updated_at: Seq<char>,
}

/// Identities are ascending, lie in `[1, next_id)`, and agent card URLs are
/// unique.
pub open spec fn server_rows_wf(rows: Seq<ServerRow>, next_id: int) -> bool {
    &&& 1 <= next_id <= i32::MAX
    &&& forall|i: int| 0 <= i < rows.len() ==> 1 <= #[trigger] rows[i].id < next_id
    &&& forall|i: int, j: int| 0 <= i < j < rows.len() ==> #[trigger] rows[i].id < #[trigger] rows[j].id
    &&& forall|i: int, j: int|
        0 <= i < rows.len() && 0 <= j < rows.len() && i != j
            ==> #[trigger] rows[i].agent_card_url != #[trigger] rows[j].agent_card_url
}

pub open spec fn url_taken(rows: Seq<ServerRow>, url: Seq<char>) -> bool {
    exists|i: int| 0 <= i < rows.len() && #[trigger] rows[i].agent_card_url == url
}

/// Some record other than `id` holds `url`.
pub open spec fn url_taken_by_other(rows: Seq<ServerRow>, url: Seq<char>, id: i32) -> bool {
    exists|i: int| 0 <= i < rows.len() && #[trigger] rows[i].agent_card_url == url && rows[i].id != id
}

pub open spec fn server_id_present(rows: Seq<ServerRow>, id: i32) -> bool {
    exists|i: int| 0 <= i < rows.len() && #[trigger] rows[i].id == id
}

pub open spec fn name_present(rows: Seq<ServerRow>, name: Seq<char>) -> bool {
    exists|i: int| 0 <= i < rows.len() && #[trigger] rows[i].name == name
}

/// The row a fresh insert stores.
pub open spec fn fresh_server_row(p: SettingA2AServerParams, id: i32, now: Seq<char>) -> ServerRow {
    ServerRow {
        id,
        name: p.name@,
        agent_card_url: p.agent_card_url@,
        agent_card_json: opt_text(p.agent_card_json),
        custom_header_json: opt_text(p.custom_header_json),
        protocol_data_object_settings: opt_text(p.protocol_data_object_settings),
        enabled: p.enabled,
        created_at: now,
        updated_at: now,
    }
}

/// The row after a partial update: present fields replaced, the update time
/// advanced, everything else kept.
pub open spec fn updated_server_row(
    row: ServerRow,
    p: UpdateSettingA2AServerParams,
    now: Seq<char>,
) -> ServerRow {
    ServerRow {
        name: match p.name { Some(v) => v@, None => row.name },
        agent_card_url: match p.agent_card_url { Some(v) => v@, None => row.agent_card_url },
        agent_card_json: match p.agent_card_json { Some(v) => Some(v@), None => row.agent_card_json },
        custom_header_json: match p.custom_header_json {
            Some(v) => Some(v@),
            None => row.custom_header_json,
        },
        protocol_data_object_settings: match p.protocol_data_object_settings {
            Some(v) => Some(v@),
            None => row.protocol_data_object_settings,
        },
        enabled: match p.enabled { Some(e) => e, None => row.enabled },
        updated_at: now,
        ..row
    }
}

pub open spec fn toggled_server_row(row: ServerRow, now: Seq<char>) -> ServerRow {
    ServerRow { enabled: !row.enabled, updated_at: now, ..row }
}

/// Every enabled row other than `keep` is disabled.
pub open spec fn server_rows_disable_others(rows: Seq<ServerRow>, keep: i32, now: Seq<char>) -> Seq<ServerRow> {
    rows.map_values(|r: ServerRow|
        if r.id != keep && r.enabled { ServerRow { enabled: false, updated_at: now, ..r } } else { r })
}

/// How many rows other than `keep` are enabled.
pub open spec fn count_other_enabled_servers(rows: Seq<ServerRow>, keep: i32) -> nat
    decreases rows.len(),
{
    if rows.len() == 0 {
        0
    } else {
        count_other_enabled_servers(rows.drop_last(), keep) + if rows.last().id != keep
            && rows.last().enabled {
            1nat
        } else {
            0nat
        }
    }
}

/// The enabled rows, in table order.
pub open spec fn enabled_servers(rows: Seq<ServerRow>) -> Seq<ServerRow> {
    rows.filter(|r: ServerRow| r.enabled)
}

/// The rows whose name is not `name`, in table order.
pub open spec fn servers_not_named(rows: Seq<ServerRow>, name: Seq<char>) -> Seq<ServerRow>
    decreases rows.len(),
{
    if rows.len() == 0 {
        rows
    } else {
        let kept = servers_not_named(rows.drop_last(), name);
        if rows.last().name == name {
            kept
        } else {
            kept.push(rows.last())
        }
    }
}

/// How a returned record shows a stored row.
pub open spec fn shows_server(m: SettingA2AServer, row: ServerRow) -> bool {
    &&& m.id == Some(row.id)
    &&& m.name@ == row.name
    &&& m.agent_card_url@ == row.agent_card_url
    &&& opt_text(m.agent_card_json) == row.agent_card_json
    &&& opt_text(m.custom_header_json) == row.custom_header_json
    &&& opt_text(m.protocol_data_object_settings) == row.protocol_data_object_settings
    &&& m.enabled == row.enabled
    &&& opt_text(m.created_at) == Some(row.created_at)
    &&& opt_text(m.updated_at) == Some(row.updated_at)
}

pub open spec fn shows_servers(ms: Seq<SettingA2AServer>, rows: Seq<ServerRow>) -> bool {
    &&& ms.len() == rows.len()
    &&& forall|i: int| 0 <= i < rows.len() ==> shows_server(#[trigger] ms[i], rows[i])
}

/// The rows kept by a delete by name form a subsequence of the table, so the
/// table's order and uniqueness carry over.
proof fn lemma_not_named_sub(rows: Seq<ServerRow>, name: Seq<char>, next_id: int)
    requires
        server_rows_wf(rows, next_id),
    ensures
        server_rows_wf(servers_not_named(rows, name), next_id),
        servers_not_named(rows, name).len() <= rows.len(),
        forall|k: int|
            0 <= k < servers_not_named(rows, name).len() ==> exists|i: int|
                0 <= i < rows.len() && #[trigger] servers_not_named(rows, name)[k] == rows[i],
    decreases rows.len(),
{
    if rows.len() > 0 {
        let init = rows.drop_last();
        lemma_not_named_sub(init, name, next_id);
        let kept = servers_not_named(init, name);
        if rows.last().name != name {
            let last = rows.last();
            assert forall|k: int| 0 <= k < kept.len() implies #[trigger] kept[k].id < last.id && kept[k].agent_card_url != last.agent_card_url by {
                let i = choose|i: int| 0 <= i < init.len() && kept[k] == init[i];
                assert(rows[i] == init[i]);
                assert(rows[rows.len() - 1] == last);
            }
            let out = kept.push(last);
            assert forall|k: int| 0 <= k < out.len() implies exists|i: int|
                0 <= i < rows.len() && #[trigger] out[k] == rows[i] by {
                if k < kept.len() {
                    let i = choose|i: int| 0 <= i < init.len() && kept[k] == init[i];
                    assert(out[k] == rows[i]);
                } else {
                    assert(out[k] == rows[rows.len() - 1]);
                }
            }
        } else {
            assert forall|k: int| 0 <= k < kept.len() implies exists|i: int|
                0 <= i < rows.len() && #[trigger] kept[k] == rows[i] by {
                let i = choose|i: int| 0 <= i < init.len() && kept[k] == init[i];
                assert(kept[k] == rows[i]);
            }
        }
    }
}

/// After a first insert of agent card URL `u` into a table that lacked it,
/// the table holds exactly one record with URL `u`, so a second insert of
/// `u` is refused.
pub proof fn lemma_server_url_stored_once(
    rows: Seq<ServerRow>,
    next_id: int,
    p: SettingA2AServerParams,
    now: Seq<char>,
)
    requires
        server_rows_wf(rows, next_id),
        next_id < i32::MAX,
        !url_taken(rows, p.agent_card_url@),
    ensures
        ({
            let after = rows.push(fresh_server_row(p, next_id as i32, now));
            &&& server_rows_wf(after, next_id + 1)
            &&& url_taken(after, p.agent_card_url@)
            &&& after[rows.len() as int].agent_card_url == p.agent_card_url@
            &&& forall|j: int|
                0 <= j < after.len() && j != rows.len() ==> #[trigger] after[j].agent_card_url
                    != p.agent_card_url@
        }),
{
    let after = rows.push(fresh_server_row(p, next_id as i32, now));
    assert(after[rows.len() as int].agent_card_url == p.agent_card_url@);
    assert forall|j: int| 0 <= j < after.len() && j != rows.len() implies #[trigger] after[j].agent_card_url
        != p.agent_card_url@ by {
        assert(after[j] == rows[j]);
    }
}

/// An update carrying only the enabled flag rewrites that flag and the
/// update time and leaves every other field as it was; the update time
/// changes whenever the new stamp differs from the old one.
pub proof fn lemma_server_enabled_only_update(
    row: ServerRow,
    p: UpdateSettingA2AServerParams,
    now: Seq<char>,
)
    requires
        p.enabled is Some,
        p.name is None,
        p.agent_card_url is None,
        p.agent_card_json is None,
        p.custom_header_json is None,
        p.protocol_data_object_settings is None,
    ensures
        ({
            let after = updated_server_row(row, p, now);
            &&& after == ServerRow { enabled: p.enabled->0, updated_at: now, ..row }
            &&& after.id == row.id && after.name == row.name && after.agent_card_url
                == row.agent_card_url
            &&& after.agent_card_json == row.agent_card_json && after.custom_header_json
                == row.custom_header_json
            &&& after.protocol_data_object_settings == row.protocol_data_object_settings
            &&& after.created_at == row.created_at
            &&& now != row.updated_at ==> after.updated_at != row.updated_at
        }),
{
}

proof fn lemma_server_enabled_at_most_one(s: Seq<ServerRow>, keep: i32)
    requires
        forall|i: int| 0 <= i < s.len() && s[i].enabled ==> s[i].id == keep,
        forall|i: int, j: int| 0 <= i < j < s.len() ==> s[i].id < s[j].id,
    ensures
        enabled_servers(s).len() <= 1,
        forall|k: int| 0 <= k < enabled_servers(s).len() ==> (#[trigger] enabled_servers(s)[k]).id == keep,
        (exists|i: int| 0 <= i < s.len() && s[i].enabled) ==> enabled_servers(s).len() == 1,
        (forall|i: int| 0 <= i < s.len() ==> !s[i].enabled) ==> enabled_servers(s).len() == 0,
    decreases s.len(),
{
    reveal(Seq::filter);
    if s.len() > 0 {
        let init = s.drop_last();
        lemma_server_enabled_at_most_one(init, keep);
        assert(enabled_servers(s) == if s.last().enabled {
            enabled_servers(init).push(s.last())
        } else {
            enabled_servers(init)
        });
        if s.last().enabled {
            assert forall|i: int| 0 <= i < init.len() implies !init[i].enabled by {
                assert(s[i].id < s[s.len() - 1].id);
            }
        } else {
            assert forall|i: int| 0 <= i < s.len() && s[i].enabled implies exists|j: int|
                0 <= j < init.len() && init[j].enabled by {
                assert(i < s.len() - 1);
                assert(init[i] == s[i]);
            }
        }
    }
}

/// After every record but `keep` is disabled, at most one record is enabled:
/// a record is enabled exactly when it is `keep` and was enabled before, and
/// that record is left as it was.
pub proof fn lemma_server_single_enabled(rows: Seq<ServerRow>, next_id: int, keep: i32, now: Seq<char>)
    requires
        server_rows_wf(rows, next_id),
    ensures
        ({
            let after = server_rows_disable_others(rows, keep, now);
            &&& after.len() == rows.len()
            &&& enabled_servers(after).len() <= 1
            &&& forall|k: int|
                0 <= k < enabled_servers(after).len() ==> (#[trigger] enabled_servers(after)[k]).id
                    == keep
            &&& forall|i: int|
                0 <= i < rows.len() ==> (#[trigger] after[i].enabled <==> rows[i].id == keep
                    && rows[i].enabled)
            &&& forall|i: int| 0 <= i < rows.len() && rows[i].id == keep ==> #[trigger] after[i] == rows[i]
            &&& (exists|i: int| 0 <= i < rows.len() && rows[i].id == keep && rows[i].enabled)
                ==> enabled_servers(after).len() == 1
        }),
{
    let after = server_rows_disable_others(rows, keep, now);
    assert forall|i: int| 0 <= i < after.len() && after[i].enabled implies after[i].id == keep by {}
    assert forall|i: int, j: int| 0 <= i < j < after.len() implies after[i].id < after[j].id by {
        assert(after[i].id == rows[i].id && after[j].id == rows[j].id);
    }
    lemma_server_enabled_at_most_one(after, keep);
    if exists|i: int| 0 <= i < rows.len() && rows[i].id == keep && rows[i].enabled {
        let i = choose|i: int| 0 <= i < rows.len() && rows[i].id == keep && rows[i].enabled;
        assert(after[i].enabled);
    }
}

/// A record read back by the identity its insert returned shows exactly the
/// inserted fields; an absent optional field stays absent and a present one,
/// even an empty one, stays present with the same text.
pub proof fn lemma_server_insert_then_get(
    rows: Seq<ServerRow>,
    next_id: int,
    p: SettingA2AServerParams,
    now: Seq<char>,
)
    requires
        server_rows_wf(rows, next_id),
        next_id < i32::MAX,
        !url_taken(rows, p.agent_card_url@),
    ensures
        ({
            let after = rows.push(fresh_server_row(p, next_id as i32, now));
            &&& server_id_present(after, next_id as i32)
            &&& forall|i: int, m: SettingA2AServer|
                0 <= i < after.len() && after[i].id == next_id as i32 && #[trigger] shows_server(
                    m,
                    after[i],
                ) ==> {
                    &&& m.id == Some(next_id as i32)
                    &&& m.name@ == p.name@
                    &&& m.agent_card_url@ == p.agent_card_url@
                    &&& opt_text(m.agent_card_json) == opt_text(p.agent_card_json)
                    &&& opt_text(m.custom_header_json) == opt_text(p.custom_header_json)
                    &&& opt_text(m.protocol_data_object_settings) == opt_text(
                        p.protocol_data_object_settings,
                    )
                    &&& m.enabled == p.enabled
                    &&& m.agent_card_json is Some <==> p.agent_card_json is Some
                    &&& m.custom_header_json is Some <==> p.custom_header_json is Some
                    &&& m.protocol_data_object_settings is Some
                        <==> p.protocol_data_object_settings is Some
                }
        }),
{
    let after = rows.push(fresh_server_row(p, next_id as i32, now));
    assert(after[rows.len() as int].id == next_id as i32);
    assert forall|i: int| 0 <= i < after.len() && after[i].id == next_id as i32 implies i == rows.len() by {
        if i < rows.len() {
            assert(after[i] == rows[i]);
        }
    }
}

struct StoredServer {
    id: i32,
    name: String,
    agent_card_url: String,
    agent_card_json: Option<String>,
    custom_header_json: Option<String>,
    protocol_data_object_settings: Option<String>,
    enabled: bool,
    created_at: String,
    updated_at: String,
}

impl StoredServer {
    spec fn row(&self) -> ServerRow {
        ServerRow {
            id: self.id,
            name: self.name@,
            agent_card_url: self.agent_card_url@,
            agent_card_json: opt_text(self.agent_card_json),
            custom_header_json: opt_text(self.custom_header_json),
            protocol_data_object_settings: opt_text(self.protocol_data_object_settings),
            enabled: self.enabled,
            created_at: self.created_at@,
            updated_at: self.updated_at@,
        }
    }

    fn to_record(&self) -> (m: SettingA2AServer)
        ensures
            shows_server(m, self.row()),
    {
        SettingA2AServer {
            id: Some(self.id),
            name: self.name.clone(),
            agent_card_url: self.agent_card_url.clone(),
            agent_card_json: clone_opt_text(&self.agent_card_json),
            custom_header_json: clone_opt_text(&self.custom_header_json),
            protocol_data_object_settings: clone_opt_text(&self.protocol_data_object_settings),
            enabled: self.enabled,
            created_at: Some(self.created_at.clone()),
            updated_at: Some(self.updated_at.clone()),
        }
    }

    fn duplicate(&self) -> (r: StoredServer)
        ensures
            r.row() == self.row(),
    {
        StoredServer {
            id: self.id,
            name: self.name.clone(),
            agent_card_url: self.agent_card_url.clone(),
            agent_card_json: clone_opt_text(&self.agent_card_json),
            custom_header_json: clone_opt_text(&self.custom_header_json),
            protocol_data_object_settings: clone_opt_text(&self.protocol_data_object_settings),
            enabled: self.enabled,
            created_at: self.created_at.clone(),
            updated_at: self.updated_at.clone(),
        }
    }
}

/// The agent server table, owned by whoever holds the connection to it.
pub struct SettingA2AServerDbManager {
    rows: Vec<StoredServer>,
    next_id: i32,
}

impl View for SettingA2AServerDbManager {
    type V = Seq<ServerRow>;

    closed spec fn view(&self) -> Seq<ServerRow> {
        self.rows@.map_values(|s: StoredServer| s.row())
    }
}

impl SettingA2AServerDbManager {
    /// The identity the next insert hands out.
    pub closed spec fn next_id(&self) -> int {
        self.next_id as int
    }

    pub open spec fn wf(&self) -> bool {
        server_rows_wf(self@, self.next_id())
    }

    pub fn new() -> (r: Self)
        ensures
            r.wf(),
            r@ == Seq::<ServerRow>::empty(),
            r.next_id() == 1,
    {
        let r = SettingA2AServerDbManager { rows: Vec::new(), next_id: 1 };
        assert(r@ =~= Seq::<ServerRow>::empty());
        r
    }

    fn position_of_id(&self, id: i32) -> (r: Option<usize>)
        ensures
            match r {
                Some(i) => i < self@.len() && self@[i as int].id == id,
                None => !server_id_present(self@, id),
            },
    {
        let mut i: usize = 0;
        while i < self.rows.len()
            invariant
                i <= self.rows.len(),
                forall|j: int| 0 <= j < i ==> self@[j].id != id,
            decreases self.rows.len() - i,
        {
            if self.rows[i].id == id {
                return Some(i);
            }
            i += 1;
        }
        None
    }

    /// The first position holding `url` whose identity is not `exclude_id`.
    fn url_exists(&self, url: &String, exclude_id: Option<i32>) -> (r: Option<usize>)
        ensures
            match r {
                Some(i) => i < self@.len() && self@[i as int].agent_card_url == url@ && Some(
                    self@[i as int].id,
                ) != exclude_id,
                None => match exclude_id {
                    Some(id) => !url_taken_by_other(self@, url@, id),
                    None => !url_taken(self@, url@),
                },
            },
    {
        let mut i: usize = 0;
        while i < self.rows.len()
            invariant
                i <= self.rows.len(),
                forall|j: int|
                    0 <= j < i ==> self@[j].agent_card_url != url@ || Some(self@[j].id)
                        == exclude_id,
            decreases self.rows.len() - i,
        {
            if self.rows[i].agent_card_url == *url {
                let excluded = match exclude_id {
                    Some(id) => self.rows[i].id == id,
                    None => false,
                };
                if !excluded {
                    return Some(i);
                }
            }
            i += 1;
        }
        None
    }

    fn position_of_name(&self, name: &String) -> (r: Option<usize>)
        ensures
            match r {
                Some(i) => i < self@.len() && self@[i as int].name == name@ && forall|j: int|
                    0 <= j < i ==> self@[j].name != name@,
                None => !name_present(self@, name@),
            },
    {
        let mut i: usize = 0;
        while i < self.rows.len()
            invariant
                i <= self.rows.len(),
                forall|j: int| 0 <= j < i ==> self@[j].name != name@,
            decreases self.rows.len() - i,
        {
            if self.rows[i].name == *name {
                return Some(i);
            }
            i += 1;
        }
        None
    }

    /// Stores a new record and returns its identity. An agent card URL that
    /// is already stored is refused and nothing changes.
    pub fn insert(&mut self, params: &SettingA2AServerParams, now: &str) -> (r: Result<i64, StoreError>)
        requires
            old(self).wf(),
        ensures
            final(self).wf(),
            url_taken(old(self)@, params.agent_card_url@) ==> {
                &&& r matches Err(StoreError::DuplicateKey(k)) && k@ == params.agent_card_url@
                &&& final(self)@ == old(self)@
                &&& final(self).next_id() == old(self).next_id()
            },
            !url_taken(old(self)@, params.agent_card_url@) && old(self).next_id() < i32::MAX ==> {
                &&& r == Ok::<i64, StoreError>(old(self).next_id() as i64)
                &&& final(self)@ == old(self)@.push(
                    fresh_server_row(*params, old(self).next_id() as i32, now@),
                )
                &&& final(self).next_id() == old(self).next_id() + 1
            },
            !url_taken(old(self)@, params.agent_card_url@) && old(self).next_id() == i32::MAX ==> {
                &&& r matches Err(StoreError::IdsExhausted)
                &&& final(self)@ == old(self)@
            },
    {
        if let Some(_) = self.url_exists(&params.agent_card_url, None) {
            return Err(StoreError::DuplicateKey(params.agent_card_url.clone()));
        }
        if self.next_id == i32::MAX {
            return Err(StoreError::IdsExhausted);
        }
        let id = self.next_id;
        let stamp = String::from_str(now);
        let row = StoredServer {
            id,
            name: params.name.clone(),
            agent_card_url: params.agent_card_url.clone(),
            agent_card_json: clone_opt_text(&params.agent_card_json),
            custom_header_json: clone_opt_text(&params.custom_header_json),
            protocol_data_object_settings: clone_opt_text(&params.protocol_data_object_settings),
            enabled: params.enabled,
            created_at: stamp.clone(),
            updated_at: stamp,
        };
        self.rows.push(row);
        self.next_id = id + 1;
        assert(self@ =~= old(self)@.push(fresh_server_row(*params, id, now@)));
        Ok(id as i64)
    }

    /// Rewrites the present fields of the record `params.id` and advances its
    /// update time; returns the number of records changed. A new agent card
    /// URL held by another record is refused and nothing changes. With no
    /// field present nothing changes and 0 is returned.
    pub fn update(&mut self, params: &UpdateSettingA2AServerParams, now: &str) -> (r: Result<usize, StoreError>)
        requires
            old(self).wf(),
        ensures
            final(self).wf(),
            final(self).next_id() == old(self).next_id(),
            (params.agent_card_url matches Some(u) && url_taken_by_other(old(self)@, u@, params.id)) ==> {
                &&& r matches Err(StoreError::DuplicateKey(k)) && params.agent_card_url == Some(k)
                &&& final(self)@ == old(self)@
            },
            !(params.agent_card_url matches Some(u) && url_taken_by_other(old(self)@, u@, params.id))
                ==> {
                &&& (params.touches_nothing() || !server_id_present(old(self)@, params.id)) ==> {
                    &&& r == Ok::<usize, StoreError>(0)
                    &&& final(self)@ == old(self)@
                }
                &&& (!params.touches_nothing() && server_id_present(old(self)@, params.id)) ==> {
                    &&& r == Ok::<usize, StoreError>(1)
                    &&& exists|i: int|
                        0 <= i < old(self)@.len() && old(self)@[i].id == params.id
                            && final(self)@ == old(self)@.update(
                            i,
                            updated_server_row(old(self)@[i], *params, now@),
                        )
                }
            },
    {
        if let Some(url) = &params.agent_card_url {
            if let Some(_) = self.url_exists(url, Some(params.id)) {
                return Err(StoreError::DuplicateKey(url.clone()));
            }
        }
        if params.name.is_none() && params.agent_card_url.is_none() && params.agent_card_json.is_none()
            && params.custom_header_json.is_none() && params.protocol_data_object_settings.is_none()
            && params.enabled.is_none() {
            return Ok(0);
        }
        match self.position_of_id(params.id) {
            None => Ok(0),
            Some(i) => {
                if let Some(name) = &params.name {
                    self.rows[i].name = name.clone();
                }
                if let Some(url) = &params.agent_card_url {
                    self.rows[i].agent_card_url = url.clone();
                }
                if let Some(v) = &params.agent_card_json {
                    self.rows[i].agent_card_json = Some(v.clone());
                }
                if let Some(v) = &params.custom_header_json {
                    self.rows[i].custom_header_json = Some(v.clone());
                }
                if let Some(v) = &params.protocol_data_object_settings {
                    self.rows[i].protocol_data_object_settings = Some(v.clone());
                }
                if let Some(enabled) = params.enabled {
                    self.rows[i].enabled = enabled;
                }
                self.rows[i].updated_at = String::from_str(now);
                assert(self@ =~= old(self)@.update(
                    i as int,
                    updated_server_row(old(self)@[i as int], *params, now@),
                ));
                proof {
                    if let Some(u) = &params.agent_card_url {
                        assert forall|j: int| 0 <= j < self@.len() && j != i implies #[trigger] self@[j].agent_card_url != u@ by {
                            assert(old(self)@[j].id != params.id);
                        }
                    }
                }
                Ok(1)
            },
        }
    }

    /// Every record, by ascending identity.
    pub fn get_all(&self) -> (r: Vec<SettingA2AServer>)
        ensures
            shows_servers(r@, self@),
    {
        let mut out: Vec<SettingA2AServer> = Vec::new();
        let mut i: usize = 0;
        while i < self.rows.len()
            invariant
                i <= self.rows.len(),
                shows_servers(out@, self@.take(i as int)),
            decreases self.rows.len() - i,
        {
            let m = self.rows[i].to_record();
            out.push(m);
            i += 1;
        }
        assert(self@.take(self@.len() as int) =~= self@);
        out
    }

    /// The record with identity `id`, if one is stored.
    pub fn get_by_id(&self, id: i32) -> (r: Option<SettingA2AServer>)
        ensures
            match r {
                Some(m) => exists|i: int|
                    0 <= i < self@.len() && self@[i].id == id && shows_server(m, #[trigger] self@[i]),
                None => !server_id_present(self@, id),
            },
    {
        match self.position_of_id(id) {
            Some(i) => Some(self.rows[i].to_record()),
            None => None,
        }
    }

    /// The first record (by identity) named `name`, if any.
    pub fn get_by_name(&self, name: &str) -> (r: Option<SettingA2AServer>)
        ensures
            match r {
                Some(m) => exists|i: int|
                    0 <= i < self@.len() && self@[i].name == name@ && shows_server(
                        m,
                        #[trigger] self@[i],
                    ) && forall|j: int| 0 <= j < i ==> self@[j].name != name@,
                None => !name_present(self@, name@),
            },
    {
        let key = String::from_str(name);
        match self.position_of_name(&key) {
            Some(i) => Some(self.rows[i].to_record()),
            None => None,
        }
    }

    /// The record whose agent card URL is `url`, if one is stored.
    pub fn get_by_url(&self, url: &str) -> (r: Option<SettingA2AServer>)
        ensures
            match r {
                Some(m) => exists|i: int|
                    0 <= i < self@.len() && self@[i].agent_card_url == url@ && shows_server(
                        m,
                        #[trigger] self@[i],
                    ),
                None => !url_taken(self@, url@),
            },
    {
        let key = String::from_str(url);
        match self.url_exists(&key, None) {
            Some(i) => Some(self.rows[i].to_record()),
            None => None,
        }
    }

    /// The enabled records, by ascending identity.
    pub fn get_enabled(&self) -> (r: Vec<SettingA2AServer>)
        ensures
            shows_servers(r@, enabled_servers(self@)),
    {
        let mut out: Vec<SettingA2AServer> = Vec::new();
        let mut i: usize = 0;
        while i < self.rows.len()
            invariant
                i <= self.rows.len(),
                shows_servers(out@, enabled_servers(self@.take(i as int))),
            decreases self.rows.len() - i,
        {
            proof {
                assert(self@.take(i as int + 1) =~= self@.take(i as int).push(self@[i as int]));
                self@.take(i as int).lemma_filter_push(self@[i as int], |r: ServerRow| r.enabled);
            }
            if self.rows[i].enabled {
                let m = self.rows[i].to_record();
                out.push(m);
            }
            i += 1;
        }
        assert(self@.take(self@.len() as int) =~= self@);
        out
    }

    /// Removes the record with identity `id`; returns the number removed.
    pub fn delete_by_id(&mut self, id: i32) -> (r: usize)
        requires
            old(self).wf(),
        ensures
            final(self).wf(),
            final(self).next_id() == old(self).next_id(),
            !server_id_present(old(self)@, id) ==> r == 0 && final(self)@ == old(self)@,
            server_id_present(old(self)@, id) ==> {
                &&& r == 1
                &&& exists|i: int|
                    0 <= i < old(self)@.len() && old(self)@[i].id == id && final(self)@
                        == old(self)@.remove(i)
            },
    {
        match self.position_of_id(id) {
            None => 0,
            Some(i) => {
                self.rows.remove(i);
                assert(self@ =~= old(self)@.remove(i as int));
                1
            },
        }
    }

    /// Removes every record named `name`; returns the number removed.
    pub fn delete_by_name(&mut self, name: &str) -> (r: usize)
        requires
            old(self).wf(),
        ensures
            final(self).wf(),
            final(self).next_id() == old(self).next_id(),
            final(self)@ == servers_not_named(old(self)@, name@),
            r == old(self)@.len() - servers_not_named(old(self)@, name@).len(),
    {
        let key = String::from_str(name);
        let mut kept: Vec<StoredServer> = Vec::new();
        let mut i: usize = 0;
        while i < self.rows.len()
            invariant
                i <= self.rows.len(),
                self@ == old(self)@,
                key@ == name@,
                kept@.len() <= i,
                kept@.map_values(|s: StoredServer| s.row()) == servers_not_named(
                    old(self)@.take(i as int),
                    name@,
                ),
            decreases self.rows.len() - i,
        {
            proof {
                let t = old(self)@.take(i as int + 1);
                assert(t.drop_last() =~= old(self)@.take(i as int));
                assert(t.last() == old(self)@[i as int]);
            }
            if self.rows[i].name != key {
                let copy = self.rows[i].duplicate();
                let ghost before = kept@;
                kept.push(copy);
                assert(kept@.map_values(|s: StoredServer| s.row()) =~= before.map_values(
                    |s: StoredServer| s.row(),
                ).push(copy.row()));
            }
            i += 1;
        }
        assert(old(self)@.take(old(self)@.len() as int) =~= old(self)@);
        let removed = self.rows.len() - kept.len();
        self.rows = kept;
        proof {
            lemma_not_named_sub(old(self)@, name@, self.next_id());
        }
        removed
    }

    /// Flips the enabled flag of the record `id`; returns the number of
    /// records changed.
    pub fn toggle_enabled(&mut self, id: i32, now: &str) -> (r: usize)
        requires
            old(self).wf(),
        ensures
            final(self).wf(),
            final(self).next_id() == old(self).next_id(),
            !server_id_present(old(self)@, id) ==> r == 0 && final(self)@ == old(self)@,
            server_id_present(old(self)@, id) ==> {
                &&& r == 1
                &&& exists|i: int|
                    0 <= i < old(self)@.len() && old(self)@[i].id == id && final(self)@
                        == old(self)@.update(i, toggled_server_row(old(self)@[i], now@))
            },
    {
        match self.position_of_id(id) {
            None => 0,
            Some(i) => {
                let flipped = !self.rows[i].enabled;
                self.rows[i].enabled = flipped;
                self.rows[i].updated_at = String::from_str(now);
                assert(self@ =~= old(self)@.update(
                    i as int,
                    toggled_server_row(old(self)@[i as int], now@),
                ));
                1
            },
        }
    }

    /// Disables every enabled record other than `enabled_id`; returns how many
    /// were disabled. This is a step of its own: a caller that toggles one
    /// record and then disables the others makes two calls, and another
    /// caller may act between them.
    pub fn ensure_single_enabled(&mut self, enabled_id: i32, now: &str) -> (r: usize)
        requires
            old(self).wf(),
        ensures
            final(self).wf(),
            final(self).next_id() == old(self).next_id(),
            final(self)@ == server_rows_disable_others(old(self)@, enabled_id, now@),
            r == count_other_enabled_servers(old(self)@, enabled_id),
    {
        let stamp = String::from_str(now);
        let mut count: usize = 0;
        let mut i: usize = 0;
        while i < self.rows.len()
            invariant
                i <= self.rows.len(),
                self@.len() == old(self)@.len(),
                self.next_id == old(self).next_id,
                stamp@ == now@,
                count <= i,
                count == count_other_enabled_servers(old(self)@.take(i as int), enabled_id),
                forall|j: int|
                    0 <= j < i ==> #[trigger] self@[j] == server_rows_disable_others(
                        old(self)@,
                        enabled_id,
                        now@,
                    )[j],
                forall|j: int| i <= j < self@.len() ==> #[trigger] self@[j] == old(self)@[j],
            decreases self.rows.len() - i,
        {
            let ghost before = self@;
            proof {
                let t = old(self)@.take(i as int + 1);
                assert(t.drop_last() =~= old(self)@.take(i as int));
                assert(t.last() == old(self)@[i as int]);
                assert(before[i as int] == old(self)@[i as int]);
                assert(server_rows_disable_others(old(self)@, enabled_id, now@)[i as int] == (
                if old(self)@[i as int].id != enabled_id && old(self)@[i as int].enabled {
                    ServerRow { enabled: false, updated_at: now@, ..old(self)@[i as int] }
                } else {
                    old(self)@[i as int]
                }));
            }
            if self.rows[i].id != enabled_id && self.rows[i].enabled {
                self.rows[i].enabled = false;
                self.rows[i].updated_at = stamp.clone();
                count += 1;
                assert(self@ =~= before.update(
                    i as int,
                    server_rows_disable_others(old(self)@, enabled_id, now@)[i as int],
                ));
            }
            i += 1;
        }
        assert(self@ =~= server_rows_disable_others(old(self)@, enabled_id, now@));
        assert(old(self)@.take(old(self)@.len() as int) =~= old(self)@);
        count
    }
}

} // verus!
