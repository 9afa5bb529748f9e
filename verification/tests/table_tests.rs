use odproxy::table::{generate_host_table, get_host, HostTable, ProxyItem, Root};

fn item(host: &str, target: &str) -> ProxyItem {
    ProxyItem {
        host: host.to_string(),
        target: target.to_string(),
        socket: None,
    }
}

fn two_entry_conf() -> Root {
    Root {
        proxy: vec![
            item("a.local", "http://127.0.0.1:3000"),
            item("b.local", "http://127.0.0.1:3001"),
        ],
    }
}

#[test]
fn table_maps_each_host_to_its_index() {
    let c = two_entry_conf();
    let table = generate_host_table(&c);
    assert_eq!(
        table.entries,
        vec![("a.local".to_string(), 0), ("b.local".to_string(), 1)]
    );
}

#[test]
fn get_host_resolves_bare_and_ported_hosts_alike() {
    let c = two_entry_conf();
    let table = generate_host_table(&c);
    let bare = "b.local".to_string();
    let ported = "b.local:8080".to_string();
    let r1 = get_host(Some(&bare), &c, &table).expect("expected an entry");
    let r2 = get_host(Some(&ported), &c, &table).expect("expected an entry");
    assert_eq!(r1.target, "http://127.0.0.1:3001".to_string());
    assert_eq!(r2.target, r1.target);
}

#[test]
fn get_host_unknown_or_missing_is_none() {
    let c = two_entry_conf();
    let table = generate_host_table(&c);
    assert!(get_host(Some(&"c.local".to_string()), &c, &table).is_none());
    assert!(get_host(None, &c, &table).is_none());
}

#[test]
fn duplicate_host_goes_to_the_later_entry() {
    let c = Root {
        proxy: vec![
            item("dup.local", "http://127.0.0.1:3000"),
            item("dup.local", "http://127.0.0.1:3001"),
        ],
    };
    let table = generate_host_table(&c);
    let r = get_host(Some(&"dup.local".to_string()), &c, &table).expect("expected an entry");
    assert_eq!(r.target, "http://127.0.0.1:3001".to_string());
}

#[test]
fn get_host_out_of_range_index_is_none() {
    let c = two_entry_conf();
    let table = HostTable { entries: vec![("a.local".to_string(), 9)] };
    assert!(get_host(Some(&"a.local".to_string()), &c, &table).is_none());
}
