//! The read-only driver: every console is written to standard output.

use vstd::prelude::*;

use super::{chardev_args, chardev_args_spec, chardev_ids};

verus! {

/// Writes the monitor and every serial console to standard output.
#[derive(Debug)]
pub struct Stdout {
    pub monitor: String,
    pub serials: Vec<String>,
}

/// The arguments that write each console of `ids` to standard output.
pub open spec fn stdout_args(ids: Seq<Seq<char>>) -> Seq<Seq<char>> {
    chardev_args_spec("file,id="@, ",path=/dev/stdout"@, ids)
}

impl Stdout {
    /// Defines the monitor and then each serial port as a character device
    /// that writes to `/dev/stdout`.
    pub fn qemu_args(&self) -> (args: Vec<String>)
        ensures
            args.deep_view() == stdout_args(chardev_ids(self.monitor@, self.serials.deep_view())),
    {
        chardev_args(&self.monitor, &self.serials, "file,id=", ",path=/dev/stdout")
    }
}

} // verus!
