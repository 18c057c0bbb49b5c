use pw_cast::device::{parse_cast_devices, CastDevice, IpAddr, Record, RecordKind};

const SERVICE: &str = "._googlecast._tcp.local";

fn ip(a: u8, b: u8, c: u8, d: u8) -> u32 {
    u32::from_be_bytes([a, b, c, d])
}

fn srv(id: &str, target: &str) -> Record {
    Record {
        name: format!("{id}{SERVICE}"),
        kind: RecordKind::SRV { target: target.to_string() },
    }
}

fn txt(id: &str, values: &[&str]) -> Record {
    Record {
        name: format!("{id}{SERVICE}"),
        kind: RecordKind::TXT(values.iter().map(|v| v.to_string()).collect()),
    }
}

fn a(host: &str, bits: u32) -> Record {
    Record { name: host.to_string(), kind: RecordKind::A(bits) }
}

fn other(name: &str) -> Record {
    Record { name: name.to_string(), kind: RecordKind::Other }
}

fn show(devices: &[CastDevice]) -> Vec<(IpAddr, String, String, Option<String>)> {
    devices
        .iter()
        .map(|d| (d.ip_addr, d.model.clone(), d.name.clone(), d.status.clone()))
        .collect()
}

fn row(bits: u32, model: &str, name: &str, status: Option<&str>) -> (IpAddr, String, String, Option<String>) {
    (IpAddr::V4(bits), model.to_string(), name.to_string(), status.map(|s| s.to_string()))
}

#[test]
fn one_full_device() {
    let records = vec![
        other("_googlecast._tcp.local"),
        txt("tv", &["id=1", "md=Chromecast", "fn=Living Room", "rs=Playing", "novalue"]),
        srv("tv", "tv.local"),
        a("tv.local", ip(192, 168, 0, 7)),
    ];
    assert_eq!(
        show(&parse_cast_devices(&records)),
        vec![row(ip(192, 168, 0, 7), "Chromecast", "Living Room", Some("Playing"))]
    );
}

#[test]
fn txt_may_come_last_or_be_missing() {
    let records = vec![
        srv("tv", "tv.local"),
        srv("hub", "hub.local"),
        a("hub.local", 2),
        a("tv.local", 1),
        txt("tv", &["fn=TV"]),
    ];
    assert_eq!(
        show(&parse_cast_devices(&records)),
        vec![row(2, "", "", None), row(1, "", "TV", None)]
    );
}

#[test]
fn txt_position_changes_nothing() {
    let early = vec![
        txt("tv", &["fn=TV"]),
        srv("tv", "tv.local"),
        a("tv.local", 1),
    ];
    let late = vec![
        srv("tv", "tv.local"),
        a("tv.local", 1),
        txt("tv", &["fn=TV"]),
    ];
    assert_eq!(show(&parse_cast_devices(&early)), show(&parse_cast_devices(&late)));
}

#[test]
fn address_before_srv_is_lost() {
    let records = vec![a("tv.local", 1), srv("tv", "tv.local")];
    assert!(parse_cast_devices(&records).is_empty());
}

#[test]
fn address_of_unknown_host_is_ignored() {
    let records = vec![srv("tv", "tv.local"), a("printer.local", 1)];
    assert!(parse_cast_devices(&records).is_empty());
}

#[test]
fn later_address_replaces_earlier() {
    let records = vec![
        srv("tv", "tv.local"),
        srv("hub", "hub.local"),
        a("tv.local", 1),
        a("hub.local", 2),
        a("tv.local", 3),
    ];
    assert_eq!(
        show(&parse_cast_devices(&records)),
        vec![row(3, "", "", None), row(2, "", "", None)]
    );
}

#[test]
fn other_services_are_ignored() {
    let records = vec![
        Record {
            name: "tv._airplay._tcp.local".to_string(),
            kind: RecordKind::SRV { target: "tv.local".to_string() },
        },
        a("tv.local", 1),
        Record {
            name: "tv._airplay._tcp.local".to_string(),
            kind: RecordKind::TXT(vec!["fn=TV".to_string()]),
        },
        // Of the service's name only a part.
        Record {
            name: "x._googlecast".to_string(),
            kind: RecordKind::SRV { target: "x.local".to_string() },
        },
        a("x.local", 2),
    ];
    assert!(parse_cast_devices(&records).is_empty());
}

#[test]
fn irrelevant_records_change_nothing() {
    let with = vec![
        other("a"),
        srv("tv", "tv.local"),
        other("tv.local"),
        a("tv.local", 1),
        other("tv._googlecast._tcp.local"),
    ];
    let without = vec![srv("tv", "tv.local"), a("tv.local", 1)];
    assert_eq!(show(&parse_cast_devices(&with)), show(&parse_cast_devices(&without)));
}

#[test]
fn values_may_hold_equals_signs() {
    let records = vec![
        srv("tv", "h"),
        a("h", 1),
        txt("tv", &["fn=a=b", "md=", "=lost", "fn2=x"]),
    ];
    assert_eq!(show(&parse_cast_devices(&records)), vec![row(1, "", "a=b", None)]);
}

#[test]
fn later_attribute_and_later_txt_count() {
    let records = vec![
        txt("tv", &["fn=old", "md=old model"]),
        srv("tv", "h"),
        a("h", 1),
        txt("tv", &["fn=first", "fn=second"]),
    ];
    assert_eq!(show(&parse_cast_devices(&records)), vec![row(1, "", "second", None)]);
}

#[test]
fn empty_status_is_none() {
    let records = vec![srv("tv", "h"), a("h", 1), txt("tv", &["rs="])];
    assert_eq!(show(&parse_cast_devices(&records)), vec![row(1, "", "", None)]);
}

#[test]
fn last_srv_of_a_host_counts() {
    let records = vec![srv("one", "h"), srv("two", "h"), a("h", 1), txt("two", &["fn=Two"]), txt("one", &["fn=One"])];
    assert_eq!(show(&parse_cast_devices(&records)), vec![row(1, "", "Two", None)]);
}

#[test]
fn no_records_no_devices() {
    assert!(parse_cast_devices(&Vec::new()).is_empty());
}

#[test]
fn devices_can_be_cloned() {
    let records = vec![srv("tv", "h"), a("h", 1), txt("tv", &["fn=TV", "rs=on"])];
    let devices = parse_cast_devices(&records);
    assert_eq!(show(&[devices[0].clone()]), show(&devices));
}

#[test]
fn unnamed_hosts_change_nothing() {
    let with = vec![
        a("pc.local", ip(10, 0, 0, 1)),
        srv("tv", "tv.local"),
        a("pc.local", ip(10, 0, 0, 2)),
        a("tv.local", ip(10, 0, 0, 3)),
        a("printer.local", ip(10, 0, 0, 4)),
    ];
    let without = vec![srv("tv", "tv.local"), a("tv.local", ip(10, 0, 0, 3))];
    assert_eq!(show(&parse_cast_devices(&with)), vec![row(ip(10, 0, 0, 3), "", "", None)]);
    assert_eq!(show(&parse_cast_devices(&with)), show(&parse_cast_devices(&without)));
}
