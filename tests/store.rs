use a2a_client::db::DbManager;
use a2a_client::error::{to_invoke_response, StoreError};
use a2a_client::model::{
    SettingA2AServerParams, SettingModelParams, UpdateSettingA2AServerParams,
    UpdateSettingModelParams,
};
use a2a_client::model_store::SettingModelDbManager;
use a2a_client::server_store::SettingA2AServerDbManager;

fn model_params(key: &str, enabled: bool) -> SettingModelParams {
    SettingModelParams {
        model_key: key.to_string(),
        enabled,
        api_url: format!("https://{key}.example/v1"),
        api_key: format!("SECRET-{key}"),
    }
}

fn server_params(name: &str, url: &str, enabled: bool) -> SettingA2AServerParams {
    SettingA2AServerParams {
        name: name.to_string(),
        agent_card_url: url.to_string(),
        agent_card_json: None,
        custom_header_json: None,
        protocol_data_object_settings: None,
        enabled,
    }
}

fn no_model_update(id: i32) -> UpdateSettingModelParams {
    UpdateSettingModelParams { id, enabled: None, api_url: None, api_key: None }
}

fn no_server_update(id: i32) -> UpdateSettingA2AServerParams {
    UpdateSettingA2AServerParams {
        id,
        name: None,
        agent_card_url: None,
        agent_card_json: None,
        custom_header_json: None,
        protocol_data_object_settings: None,
        enabled: None,
    }
}

#[test]
fn model_duplicate_key_is_refused() {
    let mut store = SettingModelDbManager::new();
    assert_eq!(store.insert(&model_params("gpt", true), "t1").ok(), Some(1));
    match store.insert(&model_params("gpt", false), "t2") {
        Err(StoreError::DuplicateKey(k)) => assert_eq!(k, "gpt"),
        _ => panic!("second insert of the same key must fail"),
    }
    assert_eq!(store.get_all().len(), 1);
    assert!(store.get_all()[0].enabled);
}

#[test]
fn model_insert_then_get_round_trip() {
    let mut store = SettingModelDbManager::new();
    store.insert(&model_params("a", false), "t0").ok().unwrap();
    let id = store.insert(&model_params("deep", true), "t1").ok().unwrap();
    assert_eq!(id, 2);
    let m = store.get_by_id(2).unwrap();
    assert_eq!(m.id, Some(2));
    assert_eq!(m.model_key, "deep");
    assert!(m.enabled);
    assert_eq!(m.api_url, "https://deep.example/v1");
    assert_eq!(m.api_key, "SECRET-deep");
    let by_key = store.get_by_model_key("deep").unwrap();
    assert_eq!(by_key.id, Some(2));
    assert!(store.get_by_id(7).is_none());
    assert!(store.get_by_model_key("nope").is_none());
}

#[test]
fn model_update_only_enabled_keeps_other_fields() {
    let mut store = SettingModelDbManager::new();
    let id = store.insert(&model_params("m", false), "t1").ok().unwrap() as i32;
    let mut p = no_model_update(id);
    p.enabled = Some(true);
    assert_eq!(store.update(&p, "t2"), 1);
    let m = store.get_by_id(id).unwrap();
    assert!(m.enabled);
    assert_eq!(m.model_key, "m");
    assert_eq!(m.api_url, "https://m.example/v1");
    assert_eq!(m.api_key, "SECRET-m");
}

#[test]
fn model_update_with_no_fields_changes_nothing() {
    let mut store = SettingModelDbManager::new();
    let id = store.insert(&model_params("m", false), "t1").ok().unwrap() as i32;
    assert_eq!(store.update(&no_model_update(id), "t2"), 0);
    assert!(!store.get_by_id(id).unwrap().enabled);
    let mut p = no_model_update(99);
    p.api_key = Some("x".to_string());
    assert_eq!(store.update(&p, "t3"), 0);
}

#[test]
fn model_update_rewrites_url_and_key() {
    let mut store = SettingModelDbManager::new();
    let id = store.insert(&model_params("m", true), "t1").ok().unwrap() as i32;
    let mut p = no_model_update(id);
    p.api_url = Some("https://other/v2".to_string());
    p.api_key = Some(String::new());
    assert_eq!(store.update(&p, "t2"), 1);
    let m = store.get_by_id(id).unwrap();
    assert_eq!(m.api_url, "https://other/v2");
    assert_eq!(m.api_key, "");
    assert!(m.enabled);
}

#[test]
fn model_disable_others_leaves_one_enabled() {
    let mut store = SettingModelDbManager::new();
    for key in ["a", "b", "c"] {
        store.insert(&model_params(key, true), "t1").ok().unwrap();
    }
    assert_eq!(store.ensure_single_enabled(2, "t2"), 2);
    let enabled = store.get_enabled();
    assert_eq!(enabled.len(), 1);
    assert_eq!(enabled[0].id, Some(2));
    assert_eq!(store.ensure_single_enabled(2, "t3"), 0);
}

#[test]
fn model_disable_others_when_kept_record_was_disabled() {
    let mut store = SettingModelDbManager::new();
    store.insert(&model_params("a", true), "t1").ok().unwrap();
    store.insert(&model_params("b", false), "t1").ok().unwrap();
    assert_eq!(store.ensure_single_enabled(2, "t2"), 1);
    assert!(store.get_enabled().is_empty());
}

#[test]
fn model_toggle_and_delete() {
    let mut store = SettingModelDbManager::new();
    store.insert(&model_params("a", false), "t1").ok().unwrap();
    store.insert(&model_params("b", false), "t1").ok().unwrap();
    assert_eq!(store.toggle_enabled(1, "t2"), 1);
    assert!(store.get_by_id(1).unwrap().enabled);
    assert_eq!(store.toggle_enabled(1, "t3"), 1);
    assert!(!store.get_by_id(1).unwrap().enabled);
    assert_eq!(store.toggle_enabled(5, "t3"), 0);
    assert_eq!(store.delete_by_id(1), 1);
    assert_eq!(store.delete_by_id(1), 0);
    assert_eq!(store.delete_by_model_key("b"), 1);
    assert_eq!(store.delete_by_model_key("b"), 0);
    assert!(store.get_all().is_empty());
    let id = store.insert(&model_params("a", false), "t4").ok().unwrap();
    assert_eq!(id, 3);
}

#[test]
fn model_get_all_is_ordered_by_id() {
    let mut store = SettingModelDbManager::new();
    for key in ["z", "y", "x"] {
        store.insert(&model_params(key, false), "t").ok().unwrap();
    }
    let ids: Vec<Option<i32>> = store.get_all().iter().map(|m| m.id).collect();
    assert_eq!(ids, vec![Some(1), Some(2), Some(3)]);
}

#[test]
fn server_duplicate_url_is_refused() {
    let mut store = SettingA2AServerDbManager::new();
    store.insert(&server_params("one", "localhost:1", false), "t1").ok().unwrap();
    match store.insert(&server_params("two", "localhost:1", true), "t2") {
        Err(StoreError::DuplicateKey(k)) => assert_eq!(k, "localhost:1"),
        _ => panic!("duplicate agent card URL must fail"),
    }
    assert_eq!(store.get_all().len(), 1);
    assert_eq!(store.get_all()[0].name, "one");
}

#[test]
fn server_round_trip_keeps_absent_and_empty_fields_apart() {
    let mut store = SettingA2AServerDbManager::new();
    let mut p = server_params("agent", "http://h/card", true);
    p.agent_card_json = Some(String::new());
    p.custom_header_json = Some("{\"X-Key\":\"v\"}".to_string());
    let id = store.insert(&p, "2024-01-01 00:00:00").ok().unwrap() as i32;
    let s = store.get_by_id(id).unwrap();
    assert_eq!(s.id, Some(id));
    assert_eq!(s.name, "agent");
    assert_eq!(s.agent_card_url, "http://h/card");
    assert_eq!(s.agent_card_json, Some(String::new()));
    assert_eq!(s.custom_header_json, Some("{\"X-Key\":\"v\"}".to_string()));
    assert_eq!(s.protocol_data_object_settings, None);
    assert!(s.enabled);
    assert_eq!(s.created_at.as_deref(), Some("2024-01-01 00:00:00"));
    assert_eq!(s.updated_at.as_deref(), Some("2024-01-01 00:00:00"));
}

#[test]
fn server_update_only_enabled_advances_updated_at() {
    let mut store = SettingA2AServerDbManager::new();
    let mut p = server_params("agent", "u1", false);
    p.protocol_data_object_settings = Some("{}".to_string());
    let id = store.insert(&p, "t1").ok().unwrap() as i32;
    let mut u = no_server_update(id);
    u.enabled = Some(true);
    assert_eq!(store.update(&u, "t2").ok(), Some(1));
    let s = store.get_by_id(id).unwrap();
    assert!(s.enabled);
    assert_eq!(s.name, "agent");
    assert_eq!(s.agent_card_url, "u1");
    assert_eq!(s.agent_card_json, None);
    assert_eq!(s.protocol_data_object_settings, Some("{}".to_string()));
    assert_eq!(s.created_at.as_deref(), Some("t1"));
    assert_eq!(s.updated_at.as_deref(), Some("t2"));
}

#[test]
fn server_update_with_no_fields_is_a_no_op() {
    let mut store = SettingA2AServerDbManager::new();
    let id = store.insert(&server_params("a", "u1", false), "t1").ok().unwrap() as i32;
    assert_eq!(store.update(&no_server_update(id), "t2").ok(), Some(0));
    assert_eq!(store.get_by_id(id).unwrap().updated_at.as_deref(), Some("t1"));
}

#[test]
fn server_update_url_conflict_is_refused() {
    let mut store = SettingA2AServerDbManager::new();
    store.insert(&server_params("a", "u1", false), "t1").ok().unwrap();
    store.insert(&server_params("b", "u2", false), "t1").ok().unwrap();
    let mut u = no_server_update(2);
    u.agent_card_url = Some("u1".to_string());
    u.name = Some("renamed".to_string());
    assert!(matches!(store.update(&u, "t2"), Err(StoreError::DuplicateKey(_))));
    assert_eq!(store.get_by_id(2).unwrap().name, "b");
    let mut own = no_server_update(2);
    own.agent_card_url = Some("u2".to_string());
    assert_eq!(store.update(&own, "t3").ok(), Some(1));
    let mut moved = no_server_update(2);
    moved.agent_card_url = Some("u3".to_string());
    assert_eq!(store.update(&moved, "t4").ok(), Some(1));
    assert_eq!(store.get_by_url("u3").unwrap().id, Some(2));
    assert!(store.get_by_url("u2").is_none());
}

#[test]
fn server_disable_others_then_get_enabled() {
    let mut store = SettingA2AServerDbManager::new();
    store.insert(&server_params("a", "u1", true), "t1").ok().unwrap();
    store.insert(&server_params("b", "u2", true), "t1").ok().unwrap();
    store.insert(&server_params("c", "u3", false), "t1").ok().unwrap();
    assert_eq!(store.ensure_single_enabled(1, "t2"), 1);
    let enabled = store.get_enabled();
    assert_eq!(enabled.len(), 1);
    assert_eq!(enabled[0].id, Some(1));
    assert_eq!(enabled[0].updated_at.as_deref(), Some("t1"));
    assert_eq!(store.get_by_id(2).unwrap().updated_at.as_deref(), Some("t2"));
}

#[test]
fn server_name_lookups_and_deletes() {
    let mut store = SettingA2AServerDbManager::new();
    store.insert(&server_params("twin", "u1", false), "t").ok().unwrap();
    store.insert(&server_params("solo", "u2", false), "t").ok().unwrap();
    store.insert(&server_params("twin", "u3", false), "t").ok().unwrap();
    assert_eq!(store.get_by_name("twin").unwrap().id, Some(1));
    assert!(store.get_by_name("none").is_none());
    assert_eq!(store.delete_by_name("twin"), 2);
    assert_eq!(store.delete_by_name("twin"), 0);
    let left = store.get_all();
    assert_eq!(left.len(), 1);
    assert_eq!(left[0].name, "solo");
    assert_eq!(store.toggle_enabled(2, "t2"), 1);
    assert!(store.get_by_id(2).unwrap().enabled);
    assert_eq!(store.delete_by_id(2), 1);
    assert!(store.get_all().is_empty());
}

#[test]
fn db_manager_starts_empty() {
    let db = DbManager::default();
    assert_eq!(db.name, "");
    assert!(db.models.get_all().is_empty());
    assert!(db.servers.get_all().is_empty());
    let named = DbManager::new("index".to_string());
    assert_eq!(named.name, "index");
}

#[test]
fn store_error_becomes_failure_envelope() {
    let r = to_invoke_response::<i64>(StoreError::DuplicateKey("k".to_string()));
    assert_eq!(r.code, 1);
    assert_eq!(r.message, "a record with key 'k' already exists");
    assert!(r.data.is_none());
    assert_eq!(StoreError::IdsExhausted.message(), "no record identity is left");
}
