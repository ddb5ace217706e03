use onigiri::definition::{Catalog, TunnelDefinition, TunnelParams};
use onigiri::manager::Tunneler;
use onigiri::search::{contains_str, filter_by_name, matches_folded, matches_search};

fn def(id: i64, name: &str) -> TunnelDefinition {
    TunnelDefinition {
        id,
        params: TunnelParams {
            name: name.to_string(),
            ssh_server: "h".to_string(),
            local_ip: "127.0.0.1".to_string(),
            local_port: 1,
            remote_ip: "x".to_string(),
            remote_port: 1,
        },
        deleted: false,
    }
}

#[test]
fn contains_str_examples() {
    assert!(contains_str("local mysql", "mysql"));
    assert!(contains_str("abc", ""));
    assert!(contains_str("abc", "abc"));
    assert!(!contains_str("abc", "abcd"));
    assert!(!contains_str("abc", "ac"));
    assert!(contains_str("ééa", "éa"));
}

#[test]
fn matches_folded_needs_both_in_lower_case() {
    assert!(matches_folded("", "anything"));
    assert!(matches_folded("sql", "local mysql"));
    assert!(!matches_folded("SQL", "local mysql"));
}

#[test]
fn matches_search_ignores_case() {
    assert!(matches_search("", "Local MySQL"));
    assert!(matches_search("mysql", "Local MySQL"));
    assert!(matches_search("LOCAL", "Local MySQL"));
    assert!(!matches_search("mongo", "Local MySQL"));
}

#[test]
fn filter_by_name_keeps_order() {
    let defs = vec![def(1, "Local MySQL"), def(2, "Dev MongoDB"), def(3, "Staging API"), def(4, "mysql replica")];
    let ids: Vec<i64> = filter_by_name(&defs, "MySQL").iter().map(|d| d.id).collect();
    assert_eq!(ids, vec![1, 4]);
    assert_eq!(filter_by_name(&defs, "").len(), 4);
    assert!(filter_by_name(&defs, "redis").is_empty());
}

#[test]
fn visible_tunnels_skips_deleted_and_filters() {
    let mut m = Tunneler::new(Catalog::new());
    let a = m.create(def(0, "Local MySQL").params).unwrap();
    let b = m.create(def(0, "Dev MongoDB").params).unwrap();
    m.create(def(0, "mysql replica").params).unwrap();
    m.delete_tunnel(a).unwrap();
    let names: Vec<String> = m.visible_tunnels("mysql").into_iter().map(|d| d.params.name).collect();
    assert_eq!(names, vec!["mysql replica"]);
    let all: Vec<i64> = m.visible_tunnels("").into_iter().map(|d| d.id).collect();
    assert_eq!(all[0], b);
    assert_eq!(all.len(), 2);
}
