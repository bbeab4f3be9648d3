//! The manual driver: the consoles are pseudo-terminals, and the user is
//! told how to attach to each.

use vstd::prelude::*;

use super::{
    chardev_args,
    chardev_args_spec,
    chardev_ids,
    screen_command,
    screen_command_spec,
    Chardev,
    ChardevView,
    InterfaceConfiguration,
};
use crate::text::{contains_text, flat_map, lemma_flat_map_select, lemma_flat_map_take, trim_start};

verus! {

/// Leaves attaching to the consoles to the user.
#[derive(Debug)]
pub struct Manual {
    pub monitor: String,
    pub serials: Vec<String>,
}

/// The arguments that make each console of `ids` a pseudo-terminal.
pub open spec fn pty_args(ids: Seq<Seq<char>>) -> Seq<Seq<char>> {
    chardev_args_spec("pty,id="@, ""@, ids)
}

/// Whether a device is one of the consoles.
pub open spec fn is_console(c: ChardevView, monitor: Seq<char>, serials: Seq<Seq<char>>) -> bool {
    serials.contains(c.label) || c.label == monitor
}

/// The line that tells how to attach to a console: its label, then the
/// command (a shell no-op, `:`, carries the label).
pub open spec fn attach_line(c: ChardevView) -> Seq<char> {
    ": "@ + c.label + " ; "@ + screen_command_spec(c.filename)
}

/// One line for each console among the devices, in the devices' order.
pub open spec fn attach_lines(
    chardevs: Seq<ChardevView>,
    monitor: Seq<char>,
    serials: Seq<Seq<char>>,
) -> Seq<Seq<char>> {
    flat_map(
        chardevs,
        |c: ChardevView|
            if is_console(c, monitor, serials) {
                seq![attach_line(c)]
            } else {
                Seq::empty()
            },
    )
}

/// The lines shown to the user are exactly the devices whose label is the
/// monitor's or one of the serial ports', every one of them and no other, in
/// the order QEMU reports them, each as `: <label> ; screen -h 1000000
/// <device> 115200` with the device's `pty:` prefix dropped. So there are as
/// many lines as console devices, and each console device gets its line.
pub proof fn lemma_attach_lines_list_every_console(
    chardevs: Seq<ChardevView>,
    monitor: Seq<char>,
    serials: Seq<Seq<char>>,
)
    ensures
        attach_lines(chardevs, monitor, serials) == chardevs.filter(
            |c: ChardevView| serials.contains(c.label) || c.label == monitor,
        ).map_values(
            |c: ChardevView|
                ": "@ + c.label + " ; "@ + ("screen -h 1000000 "@ + trim_start(c.filename, "pty:"@)
                    + " 115200"@),
        ),
        forall|i: int|
            0 <= i < chardevs.len() && (serials.contains(chardevs[i].label) || chardevs[i].label
                == monitor) ==> attach_lines(chardevs, monitor, serials).contains(
                ": "@ + chardevs[i].label + " ; "@ + ("screen -h 1000000 "@ + trim_start(
                    chardevs[i].filename,
                    "pty:"@,
                ) + " 115200"@),
            ),
{
    let p = |c: ChardevView| serials.contains(c.label) || c.label == monitor;
    let h = |c: ChardevView|
        ": "@ + c.label + " ; "@ + ("screen -h 1000000 "@ + trim_start(c.filename, "pty:"@)
            + " 115200"@);
    let f = |c: ChardevView|
        if is_console(c, monitor, serials) {
            seq![attach_line(c)]
        } else {
            Seq::empty()
        };
    assert forall|x: ChardevView| #[trigger] f(x) == (if p(x) {
        seq![h(x)]
    } else {
        Seq::<Seq<char>>::empty()
    }) by {}
    lemma_flat_map_select(chardevs, p, h, f);
    assert forall|i: int|
        0 <= i < chardevs.len() && p(chardevs[i]) implies attach_lines(
        chardevs,
        monitor,
        serials,
    ).contains(h(chardevs[i])) by {
        chardevs.lemma_filter_contains(p, i);
        let sel = chardevs.filter(p);
        let j = choose|j: int| 0 <= j < sel.len() && sel[j] == chardevs[i];
        assert(sel.map_values(h)[j] == h(chardevs[i]));
    }
}

impl Manual {
    /// A driver for the given monitor and serial ports.
    pub fn new(interface: InterfaceConfiguration) -> (m: Manual)
        ensures
            m.monitor@ == interface.monitor@,
            m.serials.deep_view() == interface.serials.deep_view(),
    {
        Manual { monitor: interface.monitor, serials: interface.serials }
    }

    /// Defines the monitor and then each serial port as a pseudo-terminal.
    pub fn qemu_args(&self) -> (args: Vec<String>)
        ensures
            args.deep_view() == pty_args(chardev_ids(self.monitor@, self.serials.deep_view())),
    {
        chardev_args(&self.monitor, &self.serials, "pty,id=", "")
    }

    /// The lines to show the user, given the devices that QEMU reports: for
    /// each console among them, in order, the command that attaches to it.
    /// Other devices are passed over.
    pub fn setup(&self, chardevs: &Vec<Chardev>) -> (lines: Vec<String>)
        ensures
            lines.deep_view() == attach_lines(
                chardevs.deep_view(),
                self.monitor@,
                self.serials.deep_view(),
            ),
    {
        let ghost cs = chardevs.deep_view();
        let ghost m = self.monitor@;
        let ghost ss = self.serials.deep_view();
        let ghost f = |c: ChardevView|
            if is_console(c, m, ss) {
                seq![attach_line(c)]
            } else {
                Seq::empty()
            };
        let mut lines: Vec<String> = Vec::new();
        let mut i: usize = 0;
        while i < chardevs.len()
            invariant
                cs == chardevs.deep_view(),
                m == self.monitor@,
                ss == self.serials.deep_view(),
                f == (|c: ChardevView|
                    if is_console(c, m, ss) {
                        seq![attach_line(c)]
                    } else {
                        Seq::empty()
                    }),
                i <= chardevs.len(),
                lines.deep_view() == flat_map(cs.take(i as int), f),
            decreases chardevs.len() - i,
        {
            let dev = &chardevs[i];
            let ghost old_lines = lines.deep_view();
            proof {
                lemma_flat_map_take(cs, i as int, f);
                assert(cs[i as int] == dev@);
            }
            let wanted = contains_text(&self.serials, dev.label.as_str()) || dev.label
                == self.monitor;
            if wanted {
                let line = ": ".to_owned().concat(dev.label.as_str()).concat(" ; ").concat(
                    screen_command(dev.filename.as_str()).as_str(),
                );
                lines.push(line);
                assert(lines.deep_view() =~= old_lines + f(dev@));
            } else {
                assert(lines.deep_view() =~= old_lines + f(dev@));
            }
            i = i + 1;
        }
        proof {
            assert(cs.take(chardevs.len() as int) =~= cs);
        }
        lines
    }
}

} // verus!
