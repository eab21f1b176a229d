//! The datastore lookup decision and value constructors.

use tokio_gcp::svc::datastore::{lookup_one_pick, Entity, EntityResult, Value};

fn result_with(props: Option<Vec<(String, Value)>>) -> EntityResult {
    EntityResult {
        cursor: None,
        version: Some("1".to_string()),
        entity: Some(Entity { properties: props, key: None }),
    }
}

#[test]
fn lookup_pick_returns_the_single_entity_properties() {
    let props = vec![("name".to_string(), Value::of_string("x".to_string()))];
    let picked = lookup_one_pick(Some(vec![result_with(Some(props))])).expect("one entity");
    assert_eq!(picked.len(), 1);
    assert_eq!(picked[0].0, "name");
    assert_eq!(picked[0].1.string_value.as_deref(), Some("x"));
}

#[test]
fn lookup_pick_rejects_every_other_shape() {
    // no response list
    assert!(lookup_one_pick(None).is_none());
    // an empty list
    assert!(lookup_one_pick(Some(Vec::new())).is_none());
    // two entities
    let two = vec![result_with(Some(Vec::new())), result_with(Some(Vec::new()))];
    assert!(lookup_one_pick(Some(two)).is_none());
    // an entry without properties
    assert!(lookup_one_pick(Some(vec![result_with(None)])).is_none());
    // an entry without an entity
    let bare = EntityResult { cursor: None, version: None, entity: None };
    assert!(lookup_one_pick(Some(vec![bare])).is_none());
}

#[test]
fn value_constructors_set_one_member() {
    let v = Value::of_integer(7);
    assert_eq!(v.integer_value, Some(7));
    assert!(v.string_value.is_none() && v.double_value.is_none());
    let v = Value::of_string("s".to_string());
    assert_eq!(v.string_value.as_deref(), Some("s"));
    assert!(v.integer_value.is_none());
}
