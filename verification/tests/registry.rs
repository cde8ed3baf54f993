use ratfist::comm::{CommChannel, CommChannelTx};
use ratfist::id_range::{IdRange, IdRangeError};
use ratfist::inventory::{global_structure, to_public_u32, NodeSensors, Sensor};
use ratfist::messages::SensorTypeEnum;
use ratfist::node::{LogicalNode, SerialNode};
use ratfist::registry::{Node, RegistryError, RouteTypes, SensorNodeRegistry};

fn node(public_id: i32, route_type: &str, route_param: Option<&str>) -> Node {
    Node {
        id: public_id + 100,
        public_id,
        name: format!("node {}", public_id).into_bytes(),
        route_type: route_type.as_bytes().to_vec(),
        route_param: route_param.map(|p| p.as_bytes().to_vec()),
    }
}

#[test]
fn registry_resolves_both_route_types() {
    let nodes = vec![
        node(1, "serial", Some("0")),
        node(2, "serial", Some("0")),
        node(3, "envirophat", Some("1")),
        node(4, "serial", Some("5")),
    ];
    let registry = SensorNodeRegistry::new(&nodes).unwrap();
    assert_eq!(
        registry.get_node(1),
        Ok(LogicalNode::SerialBacked(SerialNode { node_public_id: 1, comm_channel: CommChannelTx { path_id: 0 } }))
    );
    assert_eq!(
        registry.get_node(2),
        Ok(LogicalNode::SerialBacked(SerialNode { node_public_id: 2, comm_channel: CommChannelTx { path_id: 0 } }))
    );
    match registry.get_node(3) {
        Ok(LogicalNode::I2cBacked(phat)) => {
            assert_eq!(phat.bmp.comm_path, CommChannel { path_id: 1 });
            assert_eq!(phat.tcs.comm_path, CommChannel { path_id: 1 });
        }
        other => panic!("unexpected {:?}", other),
    }
    assert_eq!(registry.get_node(0), Err(RegistryError::UnknownNode { node_id: 0 }));
    assert_eq!(registry.get_node(5), Err(RegistryError::UnknownNode { node_id: 5 }));
    assert_eq!(registry.serial_paths(), &vec![0, 5]);
    assert_eq!(registry.i2c_paths(), &vec![1]);
}

#[test]
fn registry_of_nothing() {
    let registry = SensorNodeRegistry::new(&Vec::new()).unwrap();
    assert_eq!(registry.get_node(0), Err(RegistryError::UnknownNode { node_id: 0 }));
    assert!(registry.serial_paths().is_empty());
    assert!(registry.i2c_paths().is_empty());
}

#[test]
fn registry_build_is_repeatable() {
    let nodes = vec![
        node(1, "serial", Some("0")),
        node(1, "envirophat", Some("2")),
        node(7, "serial", Some("+3")),
    ];
    let first = SensorNodeRegistry::new(&nodes).unwrap();
    let second = SensorNodeRegistry::new(&nodes.clone()).unwrap();
    let mut twice = nodes.clone();
    twice.extend(nodes.clone());
    let doubled = SensorNodeRegistry::new(&twice).unwrap();
    for id in 0..10 {
        assert_eq!(first.get_node(id), second.get_node(id));
        assert_eq!(first.get_node(id), doubled.get_node(id));
    }
    assert!(matches!(first.get_node(1), Ok(LogicalNode::I2cBacked(_))));
    assert_eq!(first.serial_paths(), second.serial_paths());
    assert_eq!(first.serial_paths(), doubled.serial_paths());
    assert_eq!(first.i2c_paths(), doubled.i2c_paths());
    assert_eq!(first.serial_paths(), &vec![0, 3]);
}

#[test]
fn registry_refuses_bad_descriptors() {
    assert_eq!(
        SensorNodeRegistry::new(&vec![node(1, "udp", Some("0"))]).err(),
        Some(RegistryError::InvalidRouteType { public_id: 1 })
    );
    assert_eq!(
        SensorNodeRegistry::new(&vec![node(1, "Serial", Some("0"))]).err(),
        Some(RegistryError::InvalidRouteType { public_id: 1 })
    );
    assert_eq!(
        SensorNodeRegistry::new(&vec![node(2, "serial", None)]).err(),
        Some(RegistryError::MissingRouteParam { public_id: 2 })
    );
    assert_eq!(
        SensorNodeRegistry::new(&vec![node(2, "envirophat", None)]).err(),
        Some(RegistryError::MissingRouteParam { public_id: 2 })
    );
    assert_eq!(
        SensorNodeRegistry::new(&vec![node(3, "serial", Some("usb0"))]).err(),
        Some(RegistryError::InvalidRouteParam { public_id: 3 })
    );
    assert_eq!(
        SensorNodeRegistry::new(&vec![node(3, "envirophat", Some("-1"))]).err(),
        Some(RegistryError::InvalidRouteParam { public_id: 3 })
    );
    assert_eq!(
        SensorNodeRegistry::new(&vec![node(-4, "serial", Some("0"))]).err(),
        Some(RegistryError::InvalidPublicId { raw_public_id: -4 })
    );
    assert_eq!(
        SensorNodeRegistry::new(&vec![node(-4, "udp", None)]).err(),
        Some(RegistryError::InvalidPublicId { raw_public_id: -4 })
    );
}

#[test]
fn registry_reports_the_first_bad_descriptor() {
    let nodes = vec![
        node(1, "serial", Some("0")),
        node(2, "serial", None),
        node(3, "udp", Some("0")),
    ];
    assert_eq!(
        SensorNodeRegistry::new(&nodes).err(),
        Some(RegistryError::MissingRouteParam { public_id: 2 })
    );
}

#[test]
fn id_range_single_ids_and_ranges() {
    let range = IdRange::from_param(b"1,3:5,9").unwrap();
    assert_eq!(range.iter(), vec![1, 3, 4, 5, 9]);
    for id in [1u32, 3, 4, 5, 9] {
        assert!(range.contains(id));
    }
    for id in [0u32, 2, 6, 8, 10] {
        assert!(!range.contains(id));
    }
}

#[test]
fn id_range_reversed_and_overlapping() {
    assert_eq!(IdRange::from_param(b"5:3").unwrap().iter(), vec![3, 4, 5]);
    assert_eq!(IdRange::from_param(b"1:3,2:4,3").unwrap().iter(), vec![1, 2, 3, 4]);
    assert_eq!(IdRange::from_param(b"7,7,7").unwrap().iter(), vec![7]);
    assert_eq!(IdRange::from_param(b"4294967295").unwrap().iter(), vec![u32::MAX]);
    assert_eq!(
        IdRange::from_param(b"4294967294:4294967295").unwrap().iter(),
        vec![u32::MAX - 1, u32::MAX]
    );
    assert_eq!(IdRange::from_param(b"0:0").unwrap().iter(), vec![0]);
}

#[test]
fn id_range_reads_terms_leniently() {
    assert_eq!(IdRange::from_param(b"abc12def").unwrap().iter(), vec![12]);
    assert_eq!(IdRange::from_param(b"1:").unwrap().iter(), vec![1]);
    assert_eq!(IdRange::from_param(b":5").unwrap().iter(), vec![5]);
    assert_eq!(IdRange::from_param(b"1:2:9").unwrap().iter(), vec![1, 2]);
    assert_eq!(IdRange::from_param(b"1 :3").unwrap().iter(), vec![1]);
    assert_eq!(IdRange::from_param(b"x1:3y,z7").unwrap().iter(), vec![1, 2, 3, 7]);
    assert_eq!(IdRange::from_param(b"-2").unwrap().iter(), vec![2]);
    assert_eq!(IdRange::from_param(b"+2").unwrap().iter(), vec![2]);
    assert_eq!(IdRange::from_param(b"007").unwrap().iter(), vec![7]);
    assert_eq!(IdRange::from_param(b"1-3").unwrap().iter(), vec![1]);
    assert_eq!(IdRange::from_param(b"2:+4").unwrap().iter(), vec![2]);
}

#[test]
fn id_range_errors() {
    assert_eq!(IdRange::from_param(b"").err(), Some(IdRangeError::MissingId));
    assert_eq!(IdRange::from_param(b"abc").err(), Some(IdRangeError::MissingId));
    assert_eq!(IdRange::from_param(b"1,").err(), Some(IdRangeError::MissingId));
    assert_eq!(IdRange::from_param(b",1").err(), Some(IdRangeError::MissingId));
    assert_eq!(IdRange::from_param(b"1,,2").err(), Some(IdRangeError::MissingId));
    assert_eq!(IdRange::from_param(b"4294967296").err(), Some(IdRangeError::IdOutOfRange));
    assert_eq!(IdRange::from_param(b"1:4294967296").err(), Some(IdRangeError::IdOutOfRange));
    assert_eq!(IdRange::from_param(b"99999999999999999999999:1").err(), Some(IdRangeError::IdOutOfRange));
    assert_eq!(IdRange::from_param(b"4294967296,x").err(), Some(IdRangeError::IdOutOfRange));
    assert_eq!(IdRange::from_param(b"x,4294967296").err(), Some(IdRangeError::MissingId));
}

#[test]
fn route_type_names() {
    assert_eq!(RouteTypes::Serial.as_ref(), "serial");
    assert_eq!(RouteTypes::EnviroPHat.as_ref(), "envirophat");
    assert_eq!(RouteTypes::from_name(b"serial"), Some(RouteTypes::Serial));
    assert_eq!(RouteTypes::from_name(b"envirophat"), Some(RouteTypes::EnviroPHat));
    assert_eq!(RouteTypes::from_name(b"EnviroPHat"), None);
    assert_eq!(RouteTypes::from_name(b""), None);
}

fn sensor(id: i32, public_id: i32, node_id: i32, sensor_type: SensorTypeEnum) -> Sensor {
    Sensor { id, public_id, node_id, sensor_type, name: b"s".to_vec() }
}

#[test]
fn inventory_groups_sensors_by_node_and_kind() {
    let nodes = vec![
        node(1, "serial", Some("0")),
        node(2, "envirophat", Some("1")),
        node(3, "serial", Some("0")),
    ];
    let sensors = vec![
        sensor(1, 0, 101, SensorTypeEnum::Pressure),
        sensor(2, 0, 102, SensorTypeEnum::Pressure),
        sensor(3, 1, 101, SensorTypeEnum::Pressure),
        sensor(4, 0, 101, SensorTypeEnum::Humidity),
        sensor(5, 7, 102, SensorTypeEnum::LightLevel),
        sensor(6, 9, 999, SensorTypeEnum::Temperature),
    ];
    let inventory = global_structure(&nodes, &sensors);
    assert_eq!(
        inventory,
        vec![
            NodeSensors {
                node_public_id: 1,
                pressure: vec![0, 1],
                temperature: vec![],
                humidity: vec![0],
                light_level: vec![],
            },
            NodeSensors {
                node_public_id: 2,
                pressure: vec![0],
                temperature: vec![],
                humidity: vec![],
                light_level: vec![7],
            },
            NodeSensors {
                node_public_id: 3,
                pressure: vec![],
                temperature: vec![],
                humidity: vec![],
                light_level: vec![],
            },
        ]
    );
}

#[test]
fn inventory_merges_records_with_one_public_id() {
    let mut first = node(5, "serial", Some("0"));
    first.id = 1;
    let mut second = node(6, "serial", Some("0"));
    second.id = 2;
    let mut third = node(5, "serial", Some("1"));
    third.id = 3;
    let sensors = vec![
        sensor(1, 10, 3, SensorTypeEnum::Temperature),
        sensor(2, 11, 1, SensorTypeEnum::Temperature),
        sensor(3, 12, 2, SensorTypeEnum::Temperature),
    ];
    let inventory = global_structure(&vec![first, second, third], &sensors);
    assert_eq!(inventory.len(), 2);
    assert_eq!(inventory[0].node_public_id, 5);
    assert_eq!(inventory[0].temperature, vec![11, 10]);
    assert_eq!(inventory[1].node_public_id, 6);
    assert_eq!(inventory[1].temperature, vec![12]);
    assert_eq!(global_structure(&Vec::new(), &sensors), Vec::new());
}

#[test]
fn stored_identifiers_as_clients_see_them() {
    assert_eq!(to_public_u32(0), 0);
    assert_eq!(to_public_u32(7), 7);
    assert_eq!(to_public_u32(i32::MAX), 2147483647);
    assert_eq!(to_public_u32(-1), u32::MAX);
    assert_eq!(to_public_u32(i32::MIN), 2147483648);
    assert_eq!(to_public_u32(-5), -5i32 as u32);
}

fn digits_from(term: &[u8], start: usize) -> usize {
    let mut end = start;
    while end < term.len() && term[end].is_ascii_digit() {
        end += 1;
    }
    end
}

fn number(text: &[u8]) -> Option<u32> {
    let mut value: u64 = 0;
    for b in text {
        value = value * 10 + u64::from(*b - b'0');
        if value > u64::from(u32::MAX) {
            return None;
        }
    }
    Some(value as u32)
}

fn ids_by_hand(param: &[u8]) -> Result<Vec<u32>, IdRangeError> {
    let mut ids = Vec::new();
    for term in param.split(|b| *b == b',') {
        let start = match term.iter().position(|b| b.is_ascii_digit()) {
            Some(start) => start,
            None => return Err(IdRangeError::MissingId),
        };
        let end = digits_from(term, start);
        let from = number(&term[start..end]).ok_or(IdRangeError::IdOutOfRange)?;
        let mut to = from;
        if end + 1 < term.len() && term[end] == b':' && term[end + 1].is_ascii_digit() {
            let stop = digits_from(term, end + 1);
            to = number(&term[end + 1..stop]).ok_or(IdRangeError::IdOutOfRange)?;
        }
        for id in from.min(to)..=from.max(to) {
            if !ids.contains(&id) {
                ids.push(id);
            }
        }
    }
    Ok(ids)
}

#[test]
fn id_range_agrees_with_reading_by_hand() {
    let alphabet = [b'0', b'3', b':', b',', b'x'];
    let mut params: Vec<Vec<u8>> = vec![Vec::new()];
    let mut last: Vec<Vec<u8>> = vec![Vec::new()];
    for _ in 0..5 {
        let mut next = Vec::new();
        for p in &last {
            for c in alphabet {
                let mut longer = p.clone();
                longer.push(c);
                next.push(longer);
            }
        }
        params.extend(next.iter().cloned());
        last = next;
    }
    assert_eq!(params.len(), 3906);
    for param in params {
        let read = IdRange::from_param(&param).map(|r| r.iter());
        assert_eq!(read, ids_by_hand(&param), "{:?}", String::from_utf8_lossy(&param));
    }
}

#[test]
fn id_range_takes_any_bytes() {
    assert_eq!(IdRange::from_param(&[0xFF, b'4', 0x80]).unwrap().iter(), vec![4]);
    assert_eq!(IdRange::from_param(&[0xC3, 0xA9]).err(), Some(IdRangeError::MissingId));
    assert_eq!(IdRange::from_param("٣".as_bytes()).err(), Some(IdRangeError::MissingId));
    assert_eq!(IdRange::from_param(b"1\n:2").unwrap().iter(), vec![1]);
}
