use dillo::config::{
    default_console_endpoint, derive_ids, ids_from_digest, parse_attrs, parse_device_id,
    parse_disk_guid, resolve, resolve_device, AttrsError, BlkSpec, ConsoleSpec, Device,
    DeviceError, DeviceIdError, DiskGuidError, GptSpec, Layout, PartSpec, ResolveError,
    ResolvedDevice, ResolvedPart,
};
use dillo::hexstr::HexError;
use dillo::slots::{Bus, Placement};
use serde_json::Value;

fn text(value: &Value, key: &str) -> String {
    value[key].as_str().expect(key).to_string()
}

fn bus_of(value: &Value) -> Option<Bus> {
    match value["bus"].as_str() {
        Some(name) => Some(Bus::from_arg_value(name).expect("bus")),
        None => None,
    }
}

fn device_of(value: &Value) -> Device {
    if value["blk"].is_object() {
        let blk = &value["blk"];
        return Device::Blk(BlkSpec {
            path: text(blk, "path"),
            readonly: blk["readonly"].as_bool().unwrap_or(false),
            bus: bus_of(blk),
            slot: None,
        });
    }
    let gpt = &value["gpt"];
    let mut partitions = Vec::new();
    for part in gpt["partitions"].as_array().expect("partitions") {
        partitions.push(PartSpec {
            path: text(part, "path"),
            partuuid: uuid::Uuid::parse_str(&text(part, "partuuid")).expect("partuuid").into_bytes(),
            typeguid: uuid::Uuid::parse_str(&text(part, "typeguid")).expect("typeguid").into_bytes(),
            label: text(part, "label"),
            attrs: None,
        });
    }
    Device::Gpt(GptSpec { device_id: None, disk_guid: None, partitions, bus: bus_of(gpt), slot: None })
}

#[test]
fn layout_json_round_trips() {
    let value: Value = serde_json::from_str(
        r#"{"bus":"pci","devices":[{"blk":{"path":"a.img"}},{"gpt":{"partitions":[{"path":"b.img","partuuid":"11111111-2222-2222-3333-333333334444","typeguid":"0fc63daf-8483-4772-8e79-3d69d84330f1","label":"root"}]}}]}"#,
    )
    .expect("layout parse");
    let layout = Layout {
        bus: bus_of(&value),
        console: None,
        devices: value["devices"].as_array().expect("devices").iter().map(device_of).collect(),
    };
    assert_eq!(layout.bus, Some(Bus::Pci));
    assert_eq!(layout.devices.len(), 2);
    let resolved = resolve(layout).expect("resolve");
    assert_eq!(resolved.devices.len(), 2);
    // device-id/disk-guid were derived (non-zero) for the gpt device.
    if let ResolvedDevice::Gpt { disk_guid, .. } = &resolved.devices[1] {
        assert_ne!(*disk_guid, [0u8; 16]);
    } else {
        panic!("expected gpt device");
    }
}

#[test]
fn console_bare_value_shim() {
    assert_eq!(ConsoleSpec::normalize_arg("stdio"), "endpoint=stdio");
    assert_eq!(
        ConsoleSpec::normalize_arg("endpoint=stdio,bus=mmio"),
        "endpoint=stdio,bus=mmio"
    );
    assert_eq!(Bus::from_arg_value("mmio"), Ok(Bus::Mmio));
}

fn part(u: u128) -> ResolvedPart {
    ResolvedPart {
        path: String::from("x"),
        partuuid: uuid::Uuid::from_u128(u).into_bytes(),
        typeguid: uuid::Uuid::from_u128(1).into_bytes(),
        label: "l".into(),
        attrs: 0,
    }
}

#[test]
fn derive_ids_distinct_per_partition_set() {
    let (id_a, guid_a) = derive_ids(&[part(1), part(2)]);
    let (id_b, guid_b) = derive_ids(&[part(1), part(3)]);
    assert_eq!(guid_a, id_a[..16]);
    assert_eq!(guid_b, id_b[..16]);
    assert_ne!(id_a, id_b);
    assert_ne!(guid_a, guid_b);
}

#[test]
fn derived_ids_are_the_start_of_the_digest() {
    let (id, guid) = derive_ids(&[]);
    let empty: [u8; 20] = [
        0xe3, 0xb0, 0xc4, 0x42, 0x98, 0xfc, 0x1c, 0x14, 0x9a, 0xfb, 0xf4, 0xc8, 0x99, 0x6f, 0xb9,
        0x24, 0x27, 0xae, 0x41, 0xe4,
    ];
    assert_eq!(id, empty);
    assert_eq!(guid[..], empty[..16]);

    let mut digest = [0u8; 32];
    for (i, b) in digest.iter_mut().enumerate() {
        *b = i as u8;
    }
    let (id, guid) = ids_from_digest(&digest);
    assert_eq!(id[19], 19);
    assert_eq!(guid[15], 15);
}

#[test]
fn derived_ids_ignore_all_but_the_partition_ids() {
    let mut other = part(1);
    other.label = "root".into();
    other.attrs = 7;
    assert_eq!(derive_ids(&[part(1)]), derive_ids(&[other]));
}

#[test]
fn device_id_is_hex_or_short_ascii() {
    let mut disk = [0u8; 20];
    disk[..4].copy_from_slice(b"disk");
    assert_eq!(parse_device_id("disk"), Ok(disk));
    assert_eq!(
        parse_device_id("0x00112233445566778899aAbBcCdDeEfF00010203"),
        Ok([
            0x00, 0x11, 0x22, 0x33, 0x44, 0x55, 0x66, 0x77, 0x88, 0x99, 0xaa, 0xbb, 0xcc, 0xdd,
            0xee, 0xff, 0, 1, 2, 3
        ])
    );
    assert_eq!(parse_device_id("0x00"), Err(DeviceIdError::HexLength { len: 2 }));
    assert_eq!(
        parse_device_id("0x0011223344556677889zaabbccddeeff00010203"),
        Err(DeviceIdError::NotHex(HexError::InvalidCharacter { c: 'z', index: 19 }))
    );
    assert_eq!(
        parse_device_id("abcdefghijklmnopqrstu"),
        Err(DeviceIdError::AsciiLength { len: 21 })
    );
    assert_eq!(parse_device_id("a\tb"), Err(DeviceIdError::NotPrintable));
}

#[test]
fn disk_guid_is_thirty_two_digits() {
    let expected: [u8; 16] = [0, 1, 2, 3, 4, 5, 6, 7, 8, 9, 10, 11, 12, 13, 14, 15];
    assert_eq!(parse_disk_guid("000102030405060708090a0b0c0d0e0f"), Ok(expected));
    assert_eq!(parse_disk_guid("0x000102030405060708090A0B0C0D0E0F"), Ok(expected));
    assert_eq!(parse_disk_guid("00"), Err(DiskGuidError::Length { len: 2 }));
    assert_eq!(
        parse_disk_guid("g00102030405060708090a0b0c0d0e0f"),
        Err(DiskGuidError::NotHex(HexError::InvalidCharacter { c: 'g', index: 0 }))
    );
}

#[test]
fn attrs_are_sixteen_digits() {
    assert_eq!(parse_attrs("8000000000000001"), Ok(0x8000_0000_0000_0001));
    assert_eq!(parse_attrs("0xFFFFFFFFFFFFFFFF"), Ok(u64::MAX));
    assert_eq!(parse_attrs("1"), Err(AttrsError::Length { len: 1 }));
    assert_eq!(parse_attrs("zzzzzzzzzzzzzzzz"), Err(AttrsError::NotHex));
    assert_eq!(parse_attrs("+000000000000001"), Err(AttrsError::NotHex));
    assert_eq!(parse_attrs("0x+000000000000001"), Err(AttrsError::NotHex));
    assert_eq!(parse_attrs("000000000000000+"), Err(AttrsError::NotHex));
}

fn gpt(partitions: Vec<PartSpec>) -> GptSpec {
    GptSpec { device_id: None, disk_guid: None, partitions, bus: None, slot: None }
}

fn part_spec(label: &str) -> PartSpec {
    PartSpec {
        path: "p.img".into(),
        partuuid: [1; 16],
        typeguid: [2; 16],
        label: label.into(),
        attrs: None,
    }
}

#[test]
fn partitioned_disks_are_validated() {
    assert_eq!(
        resolve_device(&Device::Gpt(gpt(vec![]))).unwrap_err(),
        DeviceError::NoPartitions
    );
    let many: Vec<PartSpec> = (0..129).map(|_| part_spec("l")).collect();
    assert_eq!(
        resolve_device(&Device::Gpt(gpt(many))).unwrap_err(),
        DeviceError::TooManyPartitions { count: 129 }
    );
    // Nineteen characters outside the basic plane take thirty-eight units.
    let long: String = (0..19).map(|_| '\u{1F600}').collect();
    assert_eq!(
        resolve_device(&Device::Gpt(gpt(vec![part_spec("ok"), part_spec(&long)]))).unwrap_err(),
        DeviceError::LabelTooLong { partition: 1 }
    );
    let fits: String = (0..18).map(|_| '\u{1F600}').collect();
    assert!(resolve_device(&Device::Gpt(gpt(vec![part_spec(&fits)]))).is_ok());
    let mut bad = part_spec("l");
    bad.attrs = Some("12".into());
    assert_eq!(
        resolve_device(&Device::Gpt(gpt(vec![bad]))).unwrap_err(),
        DeviceError::Attrs { partition: 0, error: AttrsError::Length { len: 2 } }
    );
    let mut spec = gpt(vec![part_spec("l")]);
    spec.device_id = Some("0x1".into());
    assert_eq!(
        resolve_device(&Device::Gpt(spec)).unwrap_err(),
        DeviceError::DeviceId(DeviceIdError::HexLength { len: 1 })
    );
    let mut spec = gpt(vec![part_spec("l")]);
    spec.disk_guid = Some("1".into());
    assert_eq!(
        resolve_device(&Device::Gpt(spec)).unwrap_err(),
        DeviceError::DiskGuid(DiskGuidError::Length { len: 1 })
    );
}

#[test]
fn layouts_keep_the_console_placement() {
    let layout = Layout {
        bus: None,
        console: Some(ConsoleSpec {
            endpoint: default_console_endpoint(),
            bus: Some(Bus::Mmio),
            slot: Some(3),
        }),
        devices: vec![Device::Blk(BlkSpec {
            path: "d.img".into(),
            readonly: true,
            bus: Some(Bus::Pci),
            slot: None,
        })],
    };
    let resolved = resolve(layout).expect("resolve");
    assert_eq!(
        resolved.console.placement,
        Placement { bus: Some(Bus::Mmio), slot: Some(3) }
    );
    assert_eq!(
        *resolved.devices[0].placement(),
        Placement { bus: Some(Bus::Pci), slot: None }
    );
}

#[test]
fn bad_layouts_are_refused() {
    let layout = Layout {
        bus: None,
        console: Some(ConsoleSpec { endpoint: "tcp".into(), bus: None, slot: None }),
        devices: vec![],
    };
    assert_eq!(resolve(layout).unwrap_err(), ResolveError::UnsupportedEndpoint);
    let layout = Layout { bus: None, console: None, devices: vec![Device::Gpt(gpt(vec![]))] };
    assert_eq!(
        resolve(layout).unwrap_err(),
        ResolveError::Device { index: 0, error: DeviceError::NoPartitions }
    );
}

#[test]
fn unknown_bus_names_are_refused() {
    assert_eq!(Bus::from_arg_value("pci"), Ok(Bus::Pci));
    assert_eq!(
        Bus::from_arg_value("usb"),
        Err("unknown bus `usb` (expected `pci` or `mmio`)".to_string())
    );
}
