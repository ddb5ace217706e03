use onigiri::definition::{Catalog, StoreError, TunnelDefinition, TunnelParams};

fn params(name: &str, local_port: u16, remote_port: u16) -> TunnelParams {
    TunnelParams {
        name: name.to_string(),
        ssh_server: "db-host".to_string(),
        local_ip: "127.0.0.1".to_string(),
        local_port,
        remote_ip: "localhost".to_string(),
        remote_port,
    }
}

#[test]
fn create_then_list_active_yields_the_definition() {
    let mut c = Catalog::new();
    assert_eq!(c.next_id(), Some(1));
    let id = c.create(params("db", 3306, 3306)).unwrap();
    assert_eq!(id, 1);
    let rows = c.list_active();
    assert_eq!(rows.len(), 1);
    assert_eq!(rows[0].id, 1);
    assert!(!rows[0].deleted);
    assert_eq!(rows[0].params.name, "db");
    assert_eq!(rows[0].params.ssh_server, "db-host");
    assert_eq!(rows[0].params.local_port, 3306);
    assert_eq!(rows[0].params.remote_port, 3306);
}

#[test]
fn identifiers_are_assigned_in_order_and_listing_keeps_it() {
    let mut c = Catalog::new();
    let a = c.create(params("a", 1, 1)).unwrap();
    let b = c.create(params("b", 2, 2)).unwrap();
    let d = c.create(params("c", 3, 3)).unwrap();
    assert_eq!((a, b, d), (1, 2, 3));
    let names: Vec<String> = c.list_active().into_iter().map(|r| r.params.name).collect();
    assert_eq!(names, vec!["a", "b", "c"]);
}

#[test]
fn soft_delete_excludes_from_listing_and_is_idempotent() {
    let mut c = Catalog::new();
    let a = c.create(params("a", 1, 1)).unwrap();
    let b = c.create(params("b", 2, 2)).unwrap();
    assert_eq!(c.soft_delete(a), Ok(()));
    let rows = c.list_active();
    assert_eq!(rows.len(), 1);
    assert_eq!(rows[0].id, b);
    assert_eq!(c.soft_delete(a), Ok(()));
    assert_eq!(c.list_active().len(), 1);
    assert!(c.get(a).is_none());
    assert_eq!(c.next_id(), Some(3));
}

#[test]
fn soft_delete_of_unknown_id_is_not_found() {
    let mut c = Catalog::new();
    c.create(params("a", 1, 1)).unwrap();
    assert_eq!(c.soft_delete(42), Err(StoreError::NotFound));
    assert_eq!(c.list_active().len(), 1);
}

#[test]
fn update_rewrites_parameters_keeping_identifier() {
    let mut c = Catalog::new();
    let id = c.create(params("db", 3306, 3306)).unwrap();
    assert_eq!(c.update(id, params("db2", 3306, 3307)), Ok(()));
    let d = c.get(id).unwrap();
    assert_eq!(d.id, id);
    assert_eq!(d.params.name, "db2");
    assert_eq!(d.params.remote_port, 3307);
}

#[test]
fn update_of_missing_or_deleted_is_not_found() {
    let mut c = Catalog::new();
    let id = c.create(params("db", 3306, 3306)).unwrap();
    assert_eq!(c.update(9, params("x", 1, 1)), Err(StoreError::NotFound));
    c.soft_delete(id).unwrap();
    assert_eq!(c.update(id, params("x", 1, 1)), Err(StoreError::NotFound));
}

#[test]
fn restore_rejects_duplicates_and_advances_next_id() {
    let mut c = Catalog::new();
    let row = TunnelDefinition { id: 7, params: params("seven", 7, 7), deleted: false };
    assert_eq!(c.restore(row), Ok(()));
    assert_eq!(c.next_id(), Some(8));
    let again = TunnelDefinition { id: 7, params: params("again", 7, 7), deleted: false };
    assert_eq!(c.restore(again), Err(StoreError::DuplicateId));
    let gone = TunnelDefinition { id: 3, params: params("gone", 3, 3), deleted: true };
    assert_eq!(c.restore(gone), Ok(()));
    assert_eq!(c.next_id(), Some(8));
    assert_eq!(c.list_active().len(), 1);
    let bad = TunnelDefinition { id: 0, params: params("zero", 1, 1), deleted: false };
    assert_eq!(c.restore(bad), Err(StoreError::DuplicateId));
    assert_eq!(c.create(params("next", 8, 8)), Ok(8));
}

#[test]
fn ids_exhausted_when_next_id_is_largest() {
    let mut c = Catalog::new();
    let row = TunnelDefinition { id: i64::MAX - 1, params: params("last", 1, 1), deleted: false };
    assert_eq!(c.restore(row), Ok(()));
    assert_eq!(c.next_id(), None);
    assert_eq!(c.create(params("more", 1, 1)), Err(StoreError::IdsExhausted));
    assert_eq!(c.list_active().len(), 1);
}
