use caligula::util::device::{
    is_hotplug_subsystem, on_hotplug_bus, parse_u64, resolve_removable, BlockSize, Model,
    Removable, TargetSize, Type, WriteTarget,
};

fn resolves_removable(removable_attr: Option<&str>, hotplug_bus: bool) -> Removable {
    resolve_removable(removable_attr, hotplug_bus)
}

#[test]
fn resolves_removable_cases() {
    assert_eq!(resolves_removable(Some("1"), false), Removable::Yes);
    assert_eq!(resolves_removable(Some("1"), true), Removable::Yes);
    assert_eq!(resolves_removable(Some("0"), true), Removable::Yes);
    assert_eq!(resolves_removable(None, true), Removable::Yes);
    assert_eq!(resolves_removable(Some("0"), false), Removable::No);
    assert_eq!(resolves_removable(None, false), Removable::Unknown);
    assert_eq!(resolves_removable(Some("2"), false), Removable::Unknown);
}

#[test]
fn hotplug_subsystems_are_recognised() {
    for name in ["usb", "mmc", "memstick", "ieee1394", "pcmcia"] {
        assert!(is_hotplug_subsystem(name), "{name}");
    }
    for name in ["pci", "scsi", "nvme", "", "usb2", "USB"] {
        assert!(!is_hotplug_subsystem(name), "{name}");
    }
}

/// The subsystems that a device's ancestors link to, from the device up to
/// the root of the tree, as read off a sysfs-shaped tree whose `device_chain`
/// runs from the top of the device tree down; the directories above the
/// tree link to no subsystem.
fn ancestry(device_chain: &[(&str, &str)]) -> Vec<Option<String>> {
    let mut out: Vec<Option<String>> = device_chain
        .iter()
        .rev()
        .map(|(_, subsystem)| Some(subsystem.to_string()))
        .collect();
    out.extend([None, None, None]);
    out
}

#[test]
fn usb_flash_drive_is_on_a_hotplug_bus() {
    let chain = ancestry(&[
        ("pci0000:00", "pci"),
        ("usb2", "usb"),
        ("2-3", "usb"),
        ("2-3:1.0", "usb"),
        ("host1", "scsi"),
        ("target1:0:0", "scsi"),
        ("1:0:0:0", "scsi"),
    ]);
    assert!(on_hotplug_bus(&chain));
}

#[test]
fn internal_nvme_is_not_on_a_hotplug_bus() {
    let chain = ancestry(&[
        ("pci0000:00", "pci"),
        ("0000:02:00.0", "pci"),
        ("nvme0", "nvme"),
    ]);
    assert!(!on_hotplug_bus(&chain));
}

#[test]
fn node_without_a_device_link_is_not_on_a_hotplug_bus() {
    assert!(!on_hotplug_bus(&vec![]));
}

#[test]
fn parse_u64_reads_plain_decimals() {
    assert_eq!(parse_u64("0"), Some(0));
    assert_eq!(parse_u64("512"), Some(512));
    assert_eq!(parse_u64("+7"), Some(7));
    assert_eq!(parse_u64("18446744073709551615"), Some(u64::MAX));
    assert_eq!(parse_u64("18446744073709551616"), None);
    assert_eq!(parse_u64(""), None);
    assert_eq!(parse_u64("+"), None);
    assert_eq!(parse_u64("-1"), None);
    assert_eq!(parse_u64("12a"), None);
    assert_eq!(parse_u64(" 1"), None);
}

#[test]
fn sysfs_attributes_make_a_disk() {
    let t = WriteTarget::from_sysfs_attributes(
        "sda".to_string(),
        "/dev/sda".to_string(),
        Some("0"),
        true,
        Some("1000".to_string()),
        Some("DataTraveler Max".to_string()),
        false,
        Some("4096".to_string()),
    );
    assert_eq!(t.name, "sda");
    assert_eq!(t.devnode, "/dev/sda");
    assert_eq!(t.removable, Removable::Yes);
    assert_eq!(t.size, TargetSize(Some(512000)));
    assert_eq!(t.model, Model(Some("DataTraveler Max".to_string())));
    assert_eq!(t.target_type, Type::Disk);
    assert_eq!(t.block_size, BlockSize(Some(4096)));
}

#[test]
fn unparsable_sysfs_attributes_are_unknown() {
    let t = WriteTarget::from_sysfs_attributes(
        "nvme0n1p1".to_string(),
        "/dev/nvme0n1p1".to_string(),
        None,
        false,
        Some("lots".to_string()),
        None,
        true,
        None,
    );
    assert_eq!(t.removable, Removable::Unknown);
    assert_eq!(t.size, TargetSize(None));
    assert_eq!(t.model, Model(None));
    assert_eq!(t.target_type, Type::Partition);
    assert_eq!(t.block_size, BlockSize(None));
}

#[test]
fn normal_file_target_knows_nothing() {
    let t = WriteTarget::from_normal_file("image.img".to_string());
    assert_eq!(t.name, "image.img");
    assert_eq!(t.devnode, "image.img");
    assert_eq!(t.removable, Removable::Unknown);
    assert_eq!(t.target_type, Type::File);
    assert_eq!(t.size, TargetSize(None));
    assert_eq!(t.block_size, BlockSize(None));
}

#[test]
fn display_texts() {
    assert_eq!(Model(None).to_string(), "[unknown model]");
    assert_eq!(Model(Some("x".into())).to_string(), "x");
    assert_eq!(TargetSize(None).to_string(), "[unknown size]");
    assert_eq!(BlockSize(None).to_string(), "[unknown block size]");
    assert_eq!(TargetSize(Some(512)).to_string(), bytesize::ByteSize::b(512).to_string());
    assert_eq!(BlockSize(Some(4096)).to_string(), bytesize::ByteSize::b(4096).to_string());
    assert_ne!(TargetSize(Some(1 << 30)).to_string(), (1u64 << 30).to_string());
    assert_eq!(Removable::Yes.to_string(), "yes");
    assert_eq!(Removable::No.to_string(), "no");
    assert_eq!(Removable::Unknown.to_string(), "unknown");
    assert_eq!(Type::File.to_string(), "file");
    assert_eq!(Type::Disk.to_string(), "disk");
    assert_eq!(Type::Partition.to_string(), "partition");
}

#[test]
fn removable_from_option_bool() {
    assert_eq!(Removable::from(Some(true)), Removable::Yes);
    assert_eq!(Removable::from(Some(false)), Removable::No);
    assert_eq!(Removable::from(None), Removable::Unknown);
}
