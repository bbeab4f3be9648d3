use vm::cli::Driver;
use vm::meta::{Drive, DriveType, NetworkInterface};
use vm::qemu::{
    choose_driver, console_interface, drive_plan, interface_args, metadata_args,
    qemu_command_args, qemu_img_args, uefi_plan, DiskImage,
};

fn strings(items: &[&str]) -> Vec<String> {
    items.iter().map(|s| s.to_string()).collect()
}

fn iface(name: &str, mac: &str) -> NetworkInterface {
    NetworkInterface { name: name.to_string(), mac: mac.to_string(), bond: "bond0".to_string() }
}

#[test]
fn driver_choice_from_flags() {
    assert_eq!(choose_driver(true, true, false), Driver::ReadOnly);
    assert_eq!(choose_driver(false, false, false), Driver::ReadOnly);
    assert_eq!(choose_driver(false, false, true), Driver::ReadOnly);
    assert_eq!(choose_driver(false, true, true), Driver::Manual);
    assert_eq!(choose_driver(false, true, false), Driver::Tmux);
}

#[test]
fn console_interface_names_monitor_and_serials() {
    let c = console_interface();
    assert_eq!(c.monitor, "mon0");
    assert_eq!(c.serials, strings(&["ttyS0", "ttyS1"]));
}

#[test]
fn metadata_share_arguments() {
    assert_eq!(
        metadata_args("/tmp/x/metadata-api"),
        strings(&[
            "-virtfs",
            "local,id=metadata_api_stub,security_model=none,path=/tmp/x/metadata-api,readonly=on,mount_tag=metadata_api_stub"
        ])
    );
}

#[test]
fn each_interface_gets_its_own_tap() {
    let ifaces = vec![iface("eth0", "aa:bb:cc:00:00:01"), iface("eth1", "aa:bb:cc:00:00:02")];
    assert_eq!(
        interface_args(&ifaces, "/t/network-up.sh", "/t/network-down.sh"),
        strings(&[
            "-netdev",
            "tap,id=netdev0,script=/t/network-up.sh,downscript=/t/network-down.sh",
            "-device",
            "virtio-net-pci,netdev=netdev0,mac=aa:bb:cc:00:00:01",
            "-netdev",
            "tap,id=netdev1,script=/t/network-up.sh,downscript=/t/network-down.sh",
            "-device",
            "virtio-net-pci,netdev=netdev1,mac=aa:bb:cc:00:00:02",
        ])
    );
    assert!(interface_args(&Vec::new(), "u", "d").is_empty());
}

#[test]
fn eleven_interfaces_have_distinct_netdevs() {
    let ifaces: Vec<NetworkInterface> = (0..11).map(|i| iface("eth", &format!("m{}", i))).collect();
    let args = interface_args(&ifaces, "u", "d");
    assert_eq!(args.len(), 44);
    assert_eq!(args[41], "tap,id=netdev10,script=u,downscript=d");
    assert_eq!(args[43], "virtio-net-pci,netdev=netdev10,mac=m10");
    for i in 0..11 {
        for j in 0..11 {
            if i != j {
                assert_ne!(args[4 * i + 1], args[4 * j + 1]);
            }
        }
    }
}

#[test]
fn drive_plan_creates_and_attaches_every_drive() {
    let drives = vec![
        Drive { count: 2, size: "480GB".to_string(), ty: DriveType::Ssd, category: "boot".to_string() },
        Drive { count: 0, size: "1TB".to_string(), ty: DriveType::Hdd, category: "unused".to_string() },
        Drive { count: 1, size: "2TB".to_string(), ty: DriveType::Hdd, category: "storage".to_string() },
        Drive { count: 1, size: "3.8TB".to_string(), ty: DriveType::Nvme, category: "cache".to_string() },
    ];
    let plan = drive_plan(&drives, "/tmp/vm");
    let images: Vec<(String, String)> =
        plan.images.iter().map(|i| (i.path.clone(), i.size.clone())).collect();
    assert_eq!(
        images,
        vec![
            ("/tmp/vm/boot-0.img".to_string(), "480G".to_string()),
            ("/tmp/vm/boot-1.img".to_string(), "480G".to_string()),
            ("/tmp/vm/storage-0.img".to_string(), "2T".to_string()),
            ("/tmp/vm/cache-0.img".to_string(), "3.8T".to_string()),
        ]
    );
    assert_eq!(
        plan.args,
        strings(&[
            "-device",
            "virtio-scsi-pci,id=scsi0",
            "-drive",
            "file=/tmp/vm/boot-0.img,if=none,id=boot0",
            "-device",
            "scsi-hd,drive=boot0,id=devboot0",
            "-set",
            "device.devboot0.rotation_rate=1",
            "-drive",
            "file=/tmp/vm/boot-1.img,if=none,id=boot1",
            "-device",
            "scsi-hd,drive=boot1,id=devboot1",
            "-set",
            "device.devboot1.rotation_rate=1",
            "-drive",
            "file=/tmp/vm/storage-0.img,if=none,id=storage0",
            "-device",
            "scsi-hd,drive=storage0,id=devstorage0",
            "-drive",
            "file=/tmp/vm/cache-0.img,if=none,id=cache0",
            "-device",
            "nvme,drive=cache0,serial=cache0",
        ])
    );
}

#[test]
fn drive_plan_without_drives_has_only_the_controller() {
    let plan = drive_plan(&Vec::new(), "/tmp/vm");
    assert!(plan.images.is_empty());
    assert_eq!(plan.args, strings(&["-device", "virtio-scsi-pci,id=scsi0"]));
}

#[test]
fn qemu_img_creates_qcow2() {
    let image = DiskImage { path: "/tmp/vm/boot-0.img".to_string(), size: "480G".to_string() };
    assert_eq!(
        qemu_img_args(&image),
        strings(&["create", "-f", "qcow2", "/tmp/vm/boot-0.img", "480G"])
    );
}

#[test]
fn uefi_plan_without_uefi_is_empty() {
    let plan = uefi_plan(false, None, "/t/OVMF_CODE.fd", "/t/OVMF_VARS.fd").unwrap();
    assert!(plan.copies.is_empty());
    assert!(plan.args.is_empty());
}

#[test]
fn uefi_plan_needs_ovmf_path() {
    match uefi_plan(true, None, "/t/OVMF_CODE.fd", "/t/OVMF_VARS.fd") {
        Err(e) => assert_eq!(e, "OVMF_PATH was not present, but is required due to UEFI booting"),
        Ok(_) => panic!("a UEFI plan without firmware"),
    }
}

#[test]
fn uefi_plan_copies_and_loads_firmware() {
    let plan = uefi_plan(true, Some("/nix/ovmf".to_string()), "/t/OVMF_CODE.fd", "/t/OVMF_VARS.fd")
        .unwrap();
    assert_eq!(
        plan.copies,
        vec![
            ("/nix/ovmf/FV/OVMF_CODE.fd".to_string(), "/t/OVMF_CODE.fd".to_string()),
            ("/nix/ovmf/FV/OVMF_VARS.fd".to_string(), "/t/OVMF_VARS.fd".to_string()),
        ]
    );
    assert_eq!(
        plan.args,
        strings(&[
            "-drive",
            "if=pflash,format=raw,file=/t/OVMF_CODE.fd,readonly=on",
            "-drive",
            "if=pflash,format=raw,file=/t/OVMF_VARS.fd",
        ])
    );
}

#[test]
fn qemu_command_line_in_order() {
    let args = qemu_command_args(
        strings(&["-chardev", "pty,id=mon0"]),
        "/tmp/x/qmp-sock",
        strings(&["M"]),
        strings(&["N"]),
        strings(&["D"]),
        strings(&["U"]),
    );
    assert_eq!(
        args,
        strings(&[
            "-S", "-nographic", "-machine", "q35,smm=on", "-m", "16G", "-cpu", "max",
            "-chardev", "pty,id=mon0",
            "-serial", "chardev:ttyS0", "-serial", "chardev:ttyS1", "-mon", "chardev=mon0",
            "-msg", "timestamp=on", "-qmp", "unix:/tmp/x/qmp-sock,server=on,wait=off",
            "M", "N", "D", "U",
        ])
    );
}

fn drive(count: usize, size: &str, ty: DriveType, category: &str) -> Drive {
    Drive { count, size: size.to_string(), ty, category: category.to_string() }
}

#[test]
fn drive_plan_of_joined_lists() {
    let a = vec![drive(1, "480GB", DriveType::Ssd, "boot")];
    let b = vec![drive(2, "2TB", DriveType::Nvme, "data")];
    let both = vec![drive(1, "480GB", DriveType::Ssd, "boot"), drive(2, "2TB", DriveType::Nvme, "data")];
    let pa = drive_plan(&a, "/t");
    let pb = drive_plan(&b, "/t");
    let pboth = drive_plan(&both, "/t");
    let mut expected = pa.args.clone();
    expected.extend(pb.args[2..].iter().cloned());
    assert_eq!(pboth.args, expected);
    assert_eq!(pboth.images.len(), pa.images.len() + pb.images.len());
}

#[test]
fn drive_args_ignore_sizes() {
    let a = vec![drive(2, "480GB", DriveType::Hdd, "boot")];
    let b = vec![drive(2, "1TB", DriveType::Hdd, "boot")];
    let pa = drive_plan(&a, "/t");
    let pb = drive_plan(&b, "/t");
    assert_eq!(pa.args, pb.args);
    assert_eq!(pa.images[0].size, "480G");
    assert_eq!(pb.images[0].size, "1T");
}

#[test]
fn interface_args_ignore_names_and_bonds() {
    let a = vec![iface("eth0", "aa"), iface("eth1", "bb")];
    let b = vec![
        NetworkInterface { name: "x".to_string(), mac: "aa".to_string(), bond: "b1".to_string() },
        NetworkInterface { name: "x".to_string(), mac: "bb".to_string(), bond: "b2".to_string() },
    ];
    assert_eq!(interface_args(&a, "u", "d"), interface_args(&b, "u", "d"));
}

#[test]
fn interfaces_sharing_a_mac_get_distinct_netdevs() {
    let a = vec![iface("eth0", "aa"), iface("eth0", "aa")];
    let args = interface_args(&a, "u", "d");
    assert_ne!(args[1], args[5]);
    assert_ne!(args[3], args[7]);
}
