//! The terminal drivers: how QEMU's monitor and serial consoles are exposed
//! as character devices, and how they are presented once QEMU runs.

use vstd::prelude::*;

use crate::text::{flat_map, lemma_flat_map_take, trim_start, trim_start_matches};

pub mod manual;
pub mod stdout;
pub mod tmux;

verus! {

/// The character devices of a machine: its monitor and its serial ports.
#[derive(Debug)]
pub struct InterfaceConfiguration {
    pub monitor: String,
    pub serials: Vec<String>,
}

/// A character device as QEMU reports it: its label (the id it was defined
/// with) and the file it is connected to, such as `pty:/dev/pts/3`.
#[derive(Debug)]
pub struct Chardev {
    pub label: String,
    pub filename: String,
}

/// A character device as plain values.
pub struct ChardevView {
    pub label: Seq<char>,
    pub filename: Seq<char>,
}

impl View for Chardev {
    type V = ChardevView;

    open spec fn view(&self) -> ChardevView {
        ChardevView { label: self.label@, filename: self.filename@ }
    }
}

impl DeepView for Chardev {
    type V = ChardevView;

    open spec fn deep_view(&self) -> ChardevView {
        self@
    }
}

/// The ids of the character devices: the monitor first, then the serial
/// ports in order.
pub open spec fn chardev_ids(monitor: Seq<char>, serials: Seq<Seq<char>>) -> Seq<Seq<char>> {
    seq![monitor] + serials
}

/// The pair of arguments that defines the device `id` as
/// `<prefix><id><suffix>`.
pub open spec fn chardev_pair(prefix: Seq<char>, suffix: Seq<char>) -> spec_fn(Seq<char>) -> Seq<
    Seq<char>,
> {
    |id: Seq<char>| seq!["-chardev"@, prefix + id + suffix]
}

/// The QEMU arguments that define each device of `ids` as
/// `<prefix><id><suffix>`, each behind its own `-chardev`.
pub open spec fn chardev_args_spec(
    prefix: Seq<char>,
    suffix: Seq<char>,
    ids: Seq<Seq<char>>,
) -> Seq<Seq<char>> {
    flat_map(ids, chardev_pair(prefix, suffix))
}

/// Defines the monitor and then each serial port as `<prefix><id><suffix>`.
pub fn chardev_args(monitor: &String, serials: &Vec<String>, prefix: &str, suffix: &str) -> (args:
    Vec<String>)
    ensures
        args.deep_view() == chardev_args_spec(
            prefix@,
            suffix@,
            chardev_ids(monitor@, serials.deep_view()),
        ),
{
    let ghost ids = chardev_ids(monitor@, serials.deep_view());
    let ghost f = chardev_pair(prefix@, suffix@);
    let mut args: Vec<String> = Vec::new();
    args.push("-chardev".to_owned());
    args.push(prefix.to_owned().concat(monitor.as_str()).concat(suffix));
    proof {
        lemma_flat_map_take(ids, 0, f);
        assert(ids.take(0) =~= Seq::<Seq<char>>::empty());
        assert(args.deep_view() =~= flat_map(ids.take(1), f));
    }
    let mut i: usize = 0;
    while i < serials.len()
        invariant
            ids == chardev_ids(monitor@, serials.deep_view()),
            f == chardev_pair(prefix@, suffix@),
            i <= serials.len(),
            args.deep_view() == flat_map(ids.take(i + 1), f),
        decreases serials.len() - i,
    {
        let ghost old_args = args.deep_view();
        args.push("-chardev".to_owned());
        args.push(prefix.to_owned().concat(serials[i].as_str()).concat(suffix));
        proof {
            lemma_flat_map_take(ids, i + 1, f);
            assert(ids[i + 1] == serials[i as int]@);
            assert(args.deep_view() =~= old_args + f(ids[i + 1]));
        }
        i = i + 1;
    }
    proof {
        assert(ids.take(serials.len() + 1) =~= ids);
    }
    args
}

/// The command that attaches `screen` to a console at 115200 baud; the
/// `pty:` that QEMU puts before a pseudo-terminal's path is dropped.
pub open spec fn screen_command_spec(filename: Seq<char>) -> Seq<char> {
    "screen -h 1000000 "@ + trim_start(filename, "pty:"@) + " 115200"@
}

/// The command that attaches `screen` to the console behind `filename`.
pub fn screen_command(filename: &str) -> (cmd: String)
    ensures
        cmd@ == screen_command_spec(filename@),
{
    let device = trim_start_matches(filename, "pty:");
    "screen -h 1000000 ".to_owned().concat(device.as_str()).concat(" 115200")
}

} // verus!
