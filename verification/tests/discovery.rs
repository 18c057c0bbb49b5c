use pw_cast::device::{CastDevice, IpAddr, Record, RecordKind};
use pw_cast::discovery::{select_device, Discovery, Heard, SelectionError};

fn announced(hosts: &[(&str, u32)]) -> Vec<Record> {
    let mut records = Vec::new();
    for (id, bits) in hosts {
        records.push(Record {
            name: format!("{id}._googlecast._tcp.local"),
            kind: RecordKind::SRV { target: format!("{id}.local") },
        });
        records.push(Record { name: format!("{id}.local"), kind: RecordKind::A(*bits) });
    }
    records
}

fn addresses(devices: &[CastDevice]) -> Vec<IpAddr> {
    devices.iter().map(|d| d.ip_addr).collect()
}

#[test]
fn collects_until_an_address_comes_back() {
    let mut d = Discovery::new();
    d.step(Heard::Answer(announced(&[("a", 1)])));
    assert!(d.is_listening());
    d.step(Heard::Answer(announced(&[("b", 2), ("c", 3)])));
    assert!(d.is_listening());
    d.step(Heard::Answer(announced(&[("d", 4), ("a2", 1), ("e", 5)])));
    assert!(!d.is_listening());
    assert_eq!(
        addresses(&d.into_devices()),
        vec![IpAddr::V4(1), IpAddr::V4(2), IpAddr::V4(3), IpAddr::V4(4)]
    );
}

#[test]
fn repeated_answer_ends_the_search() {
    let mut d = Discovery::new();
    d.step(Heard::Answer(announced(&[("a", 1), ("b", 2)])));
    d.step(Heard::Answer(announced(&[("a", 1), ("b", 2)])));
    assert!(!d.is_listening());
    assert_eq!(addresses(&d.into_devices()), vec![IpAddr::V4(1), IpAddr::V4(2)]);
}

#[test]
fn one_address_twice_in_one_answer() {
    let mut d = Discovery::new();
    d.step(Heard::Answer(announced(&[("a", 1), ("group", 1)])));
    assert!(!d.is_listening());
    assert_eq!(addresses(&d.into_devices()), vec![IpAddr::V4(1)]);
}

#[test]
fn answers_without_devices_go_on() {
    let mut d = Discovery::new();
    d.step(Heard::Answer(Vec::new()));
    assert!(d.is_listening());
    assert!(d.into_devices().is_empty());
}

#[test]
fn closed_ends_and_nothing_is_added_then() {
    let mut d = Discovery::new();
    d.step(Heard::Answer(announced(&[("a", 1)])));
    d.step(Heard::Closed);
    assert!(!d.is_listening());
    d.step(Heard::Answer(announced(&[("b", 2)])));
    d.step(Heard::Closed);
    assert!(!d.is_listening());
    assert_eq!(addresses(&d.into_devices()), vec![IpAddr::V4(1)]);
}

fn device(bits: u32, model: &str, name: &str) -> CastDevice {
    CastDevice {
        ip_addr: IpAddr::V4(bits),
        model: model.to_string(),
        name: name.to_string(),
        status: None,
    }
}

fn some_devices() -> Vec<CastDevice> {
    vec![
        device(1, "Google Home Mini", "Kitchen"),
        device(2, "Chromecast Ultra", "Living Room"),
        device(3, "Chromecast", "Bedroom"),
    ]
}

#[test]
fn without_text_the_first_is_chosen() {
    assert_eq!(select_device(&some_devices(), None).unwrap().ip_addr, IpAddr::V4(1));
}

#[test]
fn text_in_name_or_model_chooses() {
    let devices = some_devices();
    assert_eq!(select_device(&devices, Some("room")).unwrap().ip_addr, IpAddr::V4(2));
    assert_eq!(select_device(&devices, Some("CHROMECAST")).unwrap().ip_addr, IpAddr::V4(2));
    assert_eq!(select_device(&devices, Some("bed")).unwrap().ip_addr, IpAddr::V4(3));
    assert_eq!(select_device(&devices, Some("mini")).unwrap().ip_addr, IpAddr::V4(1));
    assert_eq!(select_device(&devices, Some("")).unwrap().ip_addr, IpAddr::V4(1));
}

#[test]
fn no_match_says_how_many_and_what() {
    match select_device(&some_devices(), Some("GARAGE")) {
        Err(error) => {
            assert_eq!(error.message(), "none of the 3 Cast devices matches “garage”");
            assert!(matches!(error, SelectionError::NoMatch { length: 3, .. }));
        }
        Ok(_) => panic!("a device was chosen"),
    }
}

#[test]
fn text_without_devices_is_no_match() {
    match select_device(&Vec::new(), Some("x")) {
        Err(error) => assert_eq!(error.message(), "none of the 0 Cast devices matches “x”"),
        Ok(_) => panic!("a device was chosen"),
    }
}

#[test]
fn no_devices() {
    match select_device(&Vec::new(), None) {
        Err(error) => {
            assert!(matches!(error, SelectionError::NoDevices));
            assert_eq!(error.message(), "no Cast devices found");
        }
        Ok(_) => panic!("a device was chosen"),
    }
}
