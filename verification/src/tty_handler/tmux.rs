//! The tmux driver: the consoles are pseudo-terminals, each opened with
//! `screen` in a window of a tmux session of its own.

use vstd::prelude::*;

use super::{
    chardev_args,
    chardev_ids,
    manual::pty_args,
    screen_command,
    screen_command_spec,
    Chardev,
    ChardevView,
    InterfaceConfiguration,
};
use crate::text::{contains_text, flat_map, lemma_flat_map_select, lemma_flat_map_take, trim_start};
use rand::SeedableRng;

verus! {

/// Opens the consoles in the windows of a tmux session.
#[derive(Debug)]
pub struct Tmux {
    pub monitor: String,
    pub serials: Vec<String>,
    /// The name of the tmux session.
    pub session_name: String,
}

/// A tmux window: its name and the command that runs in it.
#[derive(Debug)]
pub struct TmuxWindow {
    pub name: String,
    pub command: String,
}

/// A tmux window as plain values.
pub struct TmuxWindowView {
    pub name: Seq<char>,
    pub command: Seq<char>,
}

impl View for TmuxWindow {
    type V = TmuxWindowView;

    open spec fn view(&self) -> TmuxWindowView {
        TmuxWindowView { name: self.name@, command: self.command@ }
    }
}

impl DeepView for TmuxWindow {
    type V = TmuxWindowView;

    open spec fn deep_view(&self) -> TmuxWindowView {
        self@
    }
}

/// The tmux session of the consoles: it is created, detached, with the
/// monitor's window, and the serial consoles' windows are added after it.
#[derive(Debug)]
pub struct TmuxLayout {
    pub session_name: String,
    pub monitor_window: TmuxWindow,
    pub windows: Vec<TmuxWindow>,
}

/// Whether a character is an ASCII letter or digit.
pub open spec fn is_ascii_alphanumeric(c: char) -> bool {
    ('a' <= c <= 'z') || ('A' <= c <= 'Z') || ('0' <= c <= '9')
}

/// The window of a console: named by its label, running `screen` on it.
pub open spec fn console_window(c: ChardevView) -> TmuxWindowView {
    TmuxWindowView { name: c.label, command: screen_command_spec(c.filename) }
}

/// The first device with the given label, if any.
pub open spec fn first_labelled(chardevs: Seq<ChardevView>, label: Seq<char>) -> Option<
    ChardevView,
>
    decreases chardevs.len(),
{
    if chardevs.len() == 0 {
        None
    } else if chardevs[0].label == label {
        Some(chardevs[0])
    } else {
        first_labelled(chardevs.drop_first(), label)
    }
}

/// The device of a label is found exactly when some device carries that
/// label, wherever it stands in the list, and it is the first that does.
pub proof fn lemma_first_labelled_is_first(chardevs: Seq<ChardevView>, label: Seq<char>)
    ensures
        first_labelled(chardevs, label) is Some <==> exists|i: int|
            0 <= i < chardevs.len() && #[trigger] chardevs[i].label == label,
        first_labelled(chardevs, label) matches Some(c) ==> exists|i: int|
            {
                &&& 0 <= i < chardevs.len()
                &&& #[trigger] chardevs[i] == c
                &&& c.label == label
                &&& forall|j: int| 0 <= j < i ==> chardevs[j].label != label
            },
    decreases chardevs.len(),
{
    if chardevs.len() > 0 {
        let rest = chardevs.drop_first();
        lemma_first_labelled_is_first(rest, label);
        if chardevs[0].label != label {
            if exists|i: int| 0 <= i < chardevs.len() && #[trigger] chardevs[i].label == label {
                let i = choose|i: int| 0 <= i < chardevs.len() && #[trigger] chardevs[i].label == label;
                assert(rest[i - 1].label == label);
            }
            if first_labelled(rest, label) is Some {
                let c = first_labelled(rest, label)->0;
                let i = choose|i: int|
                    {
                        &&& 0 <= i < rest.len()
                        &&& #[trigger] rest[i] == c
                        &&& c.label == label
                        &&& forall|j: int| 0 <= j < i ==> rest[j].label != label
                    };
                assert(chardevs[i + 1] == c);
                assert forall|j: int| 0 <= j < i + 1 implies chardevs[j].label != label by {
                    if j > 0 {
                        assert(chardevs[j] == rest[j - 1]);
                    }
                }
            }
        } else {
            assert(chardevs[0].label == label);
        }
    }
}

/// Whether a device is a serial console other than the monitor.
pub open spec fn is_serial_window(c: ChardevView, monitor: Seq<char>, serials: Seq<Seq<char>>) -> bool {
    c.label != monitor && serials.contains(c.label)
}

/// The windows of the serial consoles among the devices, in the devices'
/// order.
pub open spec fn serial_windows(
    chardevs: Seq<ChardevView>,
    monitor: Seq<char>,
    serials: Seq<Seq<char>>,
) -> Seq<TmuxWindowView> {
    flat_map(
        chardevs,
        |c: ChardevView|
            if is_serial_window(c, monitor, serials) {
                seq![console_window(c)]
            } else {
                Seq::empty()
            },
    )
}

/// The message of a device list without the monitor.
pub open spec fn missing_monitor_message() -> Seq<char> {
    "Couldn't find mon0 chardev"@
}

/// `len` random ASCII letters and digits, drawn by
/// `rand::distributions::Alphanumeric` (`DistString::sample_string`) from a
/// `rand::rngs::StdRng` seeded by `rand::rngs::OsRng`
/// (`SeedableRng::from_rng`). When the operating system cannot provide the
/// seed, `from_rng` returns its error and the result is `None`; once seeded,
/// `StdRng` does not fail. What is stated of a draw is what holds of every
/// draw: the length, and that each character is from `A-Z`, `a-z` or `0-9`.
/// `len` is bounded as the string's allocation is: a longer one panics with
/// a capacity overflow.
#[verifier::external_body]
fn random_alphanumeric(len: usize) -> (r: Option<String>)
    requires
        len <= isize::MAX,
    ensures
        r matches Some(s) ==> {
            &&& s@.len() == len
            &&& forall|i: int| 0 <= i < s@.len() ==> is_ascii_alphanumeric(#[trigger] s@[i])
        },
{
    match rand::rngs::StdRng::from_rng(rand::rngs::OsRng) {
        Ok(mut rng) => Some(
            rand::distributions::DistString::sample_string(
                &rand::distributions::Alphanumeric,
                &mut rng,
                len,
            ),
        ),
        Err(_) => None,
    }
}

impl Tmux {
    /// A driver for the given consoles whose session is named `ipxe-`
    /// followed by `suffix`.
    pub fn with_session_suffix(interface: InterfaceConfiguration, suffix: &str) -> (t: Tmux)
        ensures
            t.monitor@ == interface.monitor@,
            t.serials.deep_view() == interface.serials.deep_view(),
            t.session_name@ == "ipxe-"@ + suffix@,
    {
        Tmux {
            monitor: interface.monitor,
            serials: interface.serials,
            session_name: "ipxe-".to_owned().concat(suffix),
        }
    }

    /// A driver for the given consoles whose session is named `ipxe-`
    /// followed by seven random letters and digits, so that several
    /// machines can run side by side. `None` when the operating system
    /// cannot seed the random generator.
    pub fn new(interface: InterfaceConfiguration) -> (r: Option<Tmux>)
        ensures
            r matches Some(t) ==> {
                &&& t.monitor@ == interface.monitor@
                &&& t.serials.deep_view() == interface.serials.deep_view()
                &&& exists|suffix: Seq<char>|
                    {
                        &&& suffix.len() == 7
                        &&& forall|i: int|
                            0 <= i < 7 ==> is_ascii_alphanumeric(#[trigger] suffix[i])
                        &&& t.session_name@ == "ipxe-"@ + suffix
                    }
            },
    {
        match random_alphanumeric(7) {
            Some(suffix) => {
                let t = Tmux::with_session_suffix(interface, suffix.as_str());
                assert(t.session_name@ == "ipxe-"@ + suffix@);
                Some(t)
            },
            None => None,
        }
    }

    /// Defines the monitor and then each serial port as a pseudo-terminal.
    pub fn qemu_args(&self) -> (args: Vec<String>)
        ensures
            args.deep_view() == pty_args(chardev_ids(self.monitor@, self.serials.deep_view())),
    {
        chardev_args(&self.monitor, &self.serials, "pty,id=", "")
    }

    /// Lays out the consoles, given the devices that QEMU reports: the
    /// session opens with the window of the first device labelled as the
    /// monitor, and gets a window for each serial console among the devices,
    /// in order. Without a monitor device the layout is refused.
    pub fn setup(&self, chardevs: &Vec<Chardev>) -> (r: Result<TmuxLayout, String>)
        ensures
            r is Err <==> first_labelled(chardevs.deep_view(), self.monitor@) is None,
            r is Ok <==> exists|i: int|
                0 <= i < chardevs.len() && #[trigger] chardevs[i]@.label == self.monitor@,
            r matches Err(e) ==> e@ == missing_monitor_message(),
            r matches Ok(layout) ==> {
                &&& layout.session_name@ == self.session_name@
                &&& layout.monitor_window@ == console_window(
                    first_labelled(chardevs.deep_view(), self.monitor@)->0,
                )
                &&& layout.windows.deep_view() == serial_windows(
                    chardevs.deep_view(),
                    self.monitor@,
                    self.serials.deep_view(),
                )
            },
    {
        let ghost cs = chardevs.deep_view();
        let ghost m = self.monitor@;
        let ghost ss = self.serials.deep_view();
        // The monitor's device.
        let mut k: usize = 0;
        assert(cs.subrange(0, cs.len() as int) =~= cs);
        while k < chardevs.len() && chardevs[k].label != self.monitor
            invariant
                cs == chardevs.deep_view(),
                m == self.monitor@,
                k <= chardevs.len(),
                first_labelled(cs.subrange(k as int, cs.len() as int), m) == first_labelled(cs, m),
            decreases chardevs.len() - k,
        {
            let ghost rest = cs.subrange(k as int, cs.len() as int);
            assert(rest.drop_first() =~= cs.subrange(k + 1, cs.len() as int));
            k = k + 1;
        }
        proof {
            lemma_first_labelled_is_first(cs, m);
            assert forall|i: int| 0 <= i < chardevs.len() implies (#[trigger] chardevs[i]@.label
                == m) == (cs[i].label == m) by {
                assert(cs[i] == chardevs[i]@);
            }
        }
        if k == chardevs.len() {
            assert(cs.subrange(k as int, cs.len() as int).len() == 0);
            return Err("Couldn't find mon0 chardev".to_owned());
        }
        assert(cs.subrange(k as int, cs.len() as int)[0] == cs[k as int]);
        let monitor = &chardevs[k];
        let monitor_window = TmuxWindow {
            name: monitor.label.clone(),
            command: screen_command(monitor.filename.as_str()),
        };
        // The serial consoles' windows.
        let ghost f = |c: ChardevView|
            if is_serial_window(c, m, ss) {
                seq![console_window(c)]
            } else {
                Seq::empty()
            };
        let mut windows: Vec<TmuxWindow> = Vec::new();
        let mut i: usize = 0;
        while i < chardevs.len()
            invariant
                cs == chardevs.deep_view(),
                m == self.monitor@,
                ss == self.serials.deep_view(),
                f == (|c: ChardevView|
                    if is_serial_window(c, m, ss) {
                        seq![console_window(c)]
                    } else {
                        Seq::empty()
                    }),
                i <= chardevs.len(),
                windows.deep_view() == flat_map(cs.take(i as int), f),
            decreases chardevs.len() - i,
        {
            let dev = &chardevs[i];
            let ghost old_windows = windows.deep_view();
            proof {
                lemma_flat_map_take(cs, i as int, f);
                assert(cs[i as int] == dev@);
            }
            if dev.label != self.monitor && contains_text(&self.serials, dev.label.as_str()) {
                windows.push(
                    TmuxWindow {
                        name: dev.label.clone(),
                        command: screen_command(dev.filename.as_str()),
                    },
                );
            }
            assert(windows.deep_view() =~= old_windows + f(dev@));
            i = i + 1;
        }
        proof {
            assert(cs.take(chardevs.len() as int) =~= cs);
        }
        Ok(TmuxLayout { session_name: self.session_name.clone(), monitor_window, windows })
    }
}

/// The windows after the monitor's are exactly those of the devices that
/// are serial ports and not the monitor, in the order QEMU reports them,
/// each named by its label and running `screen` on its device.
pub proof fn lemma_serial_windows_select(
    chardevs: Seq<ChardevView>,
    monitor: Seq<char>,
    serials: Seq<Seq<char>>,
)
    ensures
        serial_windows(chardevs, monitor, serials) == chardevs.filter(
            |c: ChardevView| c.label != monitor && serials.contains(c.label),
        ).map_values(
            |c: ChardevView|
                TmuxWindowView {
                    name: c.label,
                    command: "screen -h 1000000 "@ + trim_start(c.filename, "pty:"@) + " 115200"@,
                },
        ),
{
    let p = |c: ChardevView| c.label != monitor && serials.contains(c.label);
    let h = |c: ChardevView|
        TmuxWindowView {
            name: c.label,
            command: "screen -h 1000000 "@ + trim_start(c.filename, "pty:"@) + " 115200"@,
        };
    let f = |c: ChardevView|
        if is_serial_window(c, monitor, serials) {
            seq![console_window(c)]
        } else {
            Seq::empty()
        };
    assert forall|x: ChardevView| #[trigger] f(x) == (if p(x) {
        seq![h(x)]
    } else {
        Seq::<TmuxWindowView>::empty()
    }) by {}
    lemma_flat_map_select(chardevs, p, h, f);
}

/// Every window that the layout adds after the monitor's is that of a
/// serial console, never the monitor's: its name is one of the serial ports
/// and differs from the monitor.
pub proof fn lemma_serial_windows_are_serials(
    chardevs: Seq<ChardevView>,
    monitor: Seq<char>,
    serials: Seq<Seq<char>>,
    k: int,
)
    requires
        0 <= k < serial_windows(chardevs, monitor, serials).len(),
    ensures
        serials.contains(serial_windows(chardevs, monitor, serials)[k].name),
        serial_windows(chardevs, monitor, serials)[k].name != monitor,
    decreases chardevs.len(),
{
    let f = |c: ChardevView|
        if is_serial_window(c, monitor, serials) {
            seq![console_window(c)]
        } else {
            Seq::empty()
        };
    let front = serial_windows(chardevs.drop_last(), monitor, serials);
    assert(serial_windows(chardevs, monitor, serials) == front + f(chardevs.last()));
    if k < front.len() {
        lemma_serial_windows_are_serials(chardevs.drop_last(), monitor, serials, k);
    }
}

} // verus!
