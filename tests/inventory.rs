use fleet_exec::address::AddressError;
use fleet_exec::inventory::{
    list_active_monitors, monitor_is_up, select_targets, Monitor, MonitorAttributes,
};

fn monitor(id: &str, url: &str, port: Option<&str>, status: &str) -> Monitor {
    Monitor {
        id: id.to_string(),
        type_field: "monitor".to_string(),
        attributes: MonitorAttributes {
            url: url.to_string(),
            port: port.map(|p| p.to_string()),
            status: status.to_string(),
        },
    }
}

#[test]
fn only_up_monitors_are_listed() {
    let monitors = vec![
        monitor("1", "a.example", Some("22"), "up"),
        monitor("2", "b.example", Some("22"), "down"),
        monitor("3", "c.example", None, "up"),
        monitor("4", "d.example", Some("22"), "paused"),
        monitor("5", "e.example", Some("2222"), "up"),
    ];
    let listed = list_active_monitors(monitors);
    let ids: Vec<&str> = listed.iter().map(|m| m.id.as_str()).collect();
    assert_eq!(ids, vec!["1", "3", "5"]);
}

#[test]
fn status_must_be_exactly_up() {
    assert!(monitor_is_up(&monitor("1", "h", None, "up")));
    assert!(!monitor_is_up(&monitor("1", "h", None, "Up")));
    assert!(!monitor_is_up(&monitor("1", "h", None, "upp")));
    assert!(!monitor_is_up(&monitor("1", "h", None, "")));
}

#[test]
fn empty_inventory_lists_nothing() {
    assert!(list_active_monitors(Vec::new()).is_empty());
    assert!(select_targets(&Vec::new()).is_empty());
}

#[test]
fn monitors_without_port_are_not_targets() {
    let monitors = vec![
        monitor("1", "a.example", Some("22"), "up"),
        monitor("2", "b.example", None, "up"),
        monitor("3", "c.example", Some("2222"), "up"),
        monitor("4", "d.example", Some("ssh"), "up"),
    ];
    let targets = select_targets(&monitors);
    assert_eq!(targets.len(), 3);
    let t0 = targets[0].as_ref().unwrap();
    assert_eq!((t0.host.as_str(), t0.port), ("a.example", 22));
    let t1 = targets[1].as_ref().unwrap();
    assert_eq!((t1.host.as_str(), t1.port), ("c.example", 2222));
    assert_eq!(targets[2].as_ref().err(), Some(&AddressError::InvalidPort));
}

#[test]
fn same_monitor_twice_gives_two_targets() {
    let monitors = vec![
        monitor("1", "a.example", Some("22"), "up"),
        monitor("1", "a.example", Some("22"), "up"),
    ];
    assert_eq!(select_targets(&monitors).len(), 2);
}
