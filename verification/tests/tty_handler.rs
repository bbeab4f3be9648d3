use vm::qemu::console_interface;
use vm::tty_handler::manual::Manual;
use vm::tty_handler::stdout::Stdout;
use vm::tty_handler::tmux::Tmux;
use vm::tty_handler::{screen_command, Chardev, InterfaceConfiguration};

fn strings(items: &[&str]) -> Vec<String> {
    items.iter().map(|s| s.to_string()).collect()
}

fn dev(label: &str, filename: &str) -> Chardev {
    Chardev { label: label.to_string(), filename: filename.to_string() }
}

fn devices() -> Vec<Chardev> {
    vec![
        dev("compat_monitor0", "stdio"),
        dev("ttyS1", "pty:/dev/pts/5"),
        dev("mon0", "pty:/dev/pts/3"),
        dev("ttyS0", "pty:/dev/pts/4"),
    ]
}

#[test]
fn manual_defines_pseudo_terminals() {
    let m = Manual::new(console_interface());
    assert_eq!(m.monitor, "mon0");
    assert_eq!(
        m.qemu_args(),
        strings(&["-chardev", "pty,id=mon0", "-chardev", "pty,id=ttyS0", "-chardev", "pty,id=ttyS1"])
    );
}

#[test]
fn stdout_writes_every_console_to_stdout() {
    let s = Stdout { monitor: "mon0".to_string(), serials: strings(&["ttyS0"]) };
    assert_eq!(
        s.qemu_args(),
        strings(&[
            "-chardev",
            "file,id=mon0,path=/dev/stdout",
            "-chardev",
            "file,id=ttyS0,path=/dev/stdout"
        ])
    );
}

#[test]
fn handler_without_serials_defines_only_the_monitor() {
    let s = Stdout { monitor: "m".to_string(), serials: Vec::new() };
    assert_eq!(s.qemu_args(), strings(&["-chardev", "file,id=m,path=/dev/stdout"]));
}

#[test]
fn screen_command_drops_the_pty_prefix() {
    assert_eq!(screen_command("pty:/dev/pts/3"), "screen -h 1000000 /dev/pts/3 115200");
    assert_eq!(screen_command("/dev/ttyUSB0"), "screen -h 1000000 /dev/ttyUSB0 115200");
}

#[test]
fn manual_setup_lists_consoles_in_device_order() {
    let m = Manual::new(console_interface());
    assert_eq!(
        m.setup(&devices()),
        strings(&[
            ": ttyS1 ; screen -h 1000000 /dev/pts/5 115200",
            ": mon0 ; screen -h 1000000 /dev/pts/3 115200",
            ": ttyS0 ; screen -h 1000000 /dev/pts/4 115200",
        ])
    );
    assert_eq!(m.setup(&Vec::new()), Vec::<String>::new());
}

#[test]
fn tmux_session_name_is_random_and_prefixed() {
    let t = Tmux::new(console_interface()).expect("the random generator was seeded");
    assert_eq!(t.session_name.len(), 12);
    assert!(t.session_name.starts_with("ipxe-"));
    assert!(t.session_name[5..].chars().all(|c| c.is_ascii_alphanumeric()));
    assert_eq!(t.serials, strings(&["ttyS0", "ttyS1"]));
}

#[test]
fn tmux_session_name_from_suffix() {
    let t = Tmux::with_session_suffix(console_interface(), "a1B2c3D");
    assert_eq!(t.session_name, "ipxe-a1B2c3D");
    assert_eq!(
        t.qemu_args(),
        strings(&["-chardev", "pty,id=mon0", "-chardev", "pty,id=ttyS0", "-chardev", "pty,id=ttyS1"])
    );
}

#[test]
fn tmux_layout_opens_monitor_then_serials() {
    let t = Tmux::with_session_suffix(console_interface(), "abcdefg");
    let layout = t.setup(&devices()).unwrap();
    assert_eq!(layout.session_name, "ipxe-abcdefg");
    assert_eq!(layout.monitor_window.name, "mon0");
    assert_eq!(layout.monitor_window.command, "screen -h 1000000 /dev/pts/3 115200");
    assert_eq!(layout.windows.len(), 2);
    assert_eq!(layout.windows[0].name, "ttyS1");
    assert_eq!(layout.windows[0].command, "screen -h 1000000 /dev/pts/5 115200");
    assert_eq!(layout.windows[1].name, "ttyS0");
    assert_eq!(layout.windows[1].command, "screen -h 1000000 /dev/pts/4 115200");
}

#[test]
fn tmux_layout_uses_first_monitor_device() {
    let t = Tmux::with_session_suffix(
        InterfaceConfiguration { monitor: "mon0".to_string(), serials: strings(&["mon0"]) },
        "xxxxxxx",
    );
    let devs = vec![dev("mon0", "pty:/dev/pts/1"), dev("mon0", "pty:/dev/pts/2")];
    let layout = t.setup(&devs).unwrap();
    assert_eq!(layout.monitor_window.command, "screen -h 1000000 /dev/pts/1 115200");
    assert!(layout.windows.is_empty());
}

#[test]
fn tmux_layout_without_monitor_is_refused() {
    let t = Tmux::with_session_suffix(console_interface(), "abcdefg");
    let devs = vec![dev("ttyS0", "pty:/dev/pts/4")];
    match t.setup(&devs) {
        Err(e) => assert_eq!(e, "Couldn't find mon0 chardev"),
        Ok(_) => panic!("a layout without a monitor"),
    }
}
