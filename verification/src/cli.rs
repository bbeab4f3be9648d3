//! The command line of the launcher: the terminal driver that is chosen by
//! name, and the check that the metadata path names a file.

use vstd::prelude::*;

use crate::text::same_text;

verus! {

/// How the virtual machine's consoles are presented.
#[derive(Debug, Clone, Copy, PartialEq, Eq, Structural)]
pub enum Driver {
    /// Every console is written to standard output; nothing is read.
    ReadOnly,
    /// The consoles open in windows of a tmux session.
    Tmux,
    /// The user attaches to the consoles by hand.
    Manual,
}

/// The command line: the metadata file of the machine to emulate, and the
/// console driver.
#[derive(Debug)]
pub struct Args {
    /// The path to the metadata of the machine being emulated.
    pub meta_file: String,
    /// The driver to use.
    pub driver: Driver,
}

/// The name under which a driver is chosen on the command line.
pub open spec fn driver_name(d: Driver) -> Seq<char> {
    match d {
        Driver::ReadOnly => "read-only"@,
        Driver::Tmux => "tmux"@,
        Driver::Manual => "manual"@,
    }
}

/// The message of a name that is no driver's.
pub open spec fn unknown_driver_message() -> Seq<char> {
    "not one of [\"read-only\", \"tmux\", \"manual\"]"@
}

/// The message of a path that names no file.
pub open spec fn not_a_file_message(path: Seq<char>) -> Seq<char> {
    "'"@ + path + "' was not a file"@
}

impl Driver {
    /// Parses a driver name. The names are matched exactly, as written in
    /// [`driver_name`]; any other text is refused with the list of names.
    pub fn from_str(s: &str) -> (r: Result<Driver, String>)
        ensures
            r is Ok <==> (exists|d: Driver| driver_name(d) == s@),
            r matches Ok(d) ==> driver_name(d) == s@,
            r matches Err(e) ==> e@ == unknown_driver_message(),
    {
        if same_text(s, "read-only") {
            assert(driver_name(Driver::ReadOnly) == s@);
            Ok(Driver::ReadOnly)
        } else if same_text(s, "tmux") {
            assert(driver_name(Driver::Tmux) == s@);
            Ok(Driver::Tmux)
        } else if same_text(s, "manual") {
            assert(driver_name(Driver::Manual) == s@);
            Ok(Driver::Manual)
        } else {
            assert forall|d: Driver| driver_name(d) != s@ by {
                match d {
                    Driver::ReadOnly => {},
                    Driver::Tmux => {},
                    Driver::Manual => {},
                }
            }
            Err("not one of [\"read-only\", \"tmux\", \"manual\"]".to_owned())
        }
    }
}

impl std::str::FromStr for Driver {
    type Err = String;

    /// Parses a driver name, as [`Driver::from_str`] does.
    fn from_str(s: &str) -> Result<Driver, String> {
        Driver::from_str(s)
    }
}

/// Distinct drivers have distinct names, so a name picks at most one driver.
pub proof fn lemma_driver_names_distinct(a: Driver, b: Driver)
    requires
        a != b,
    ensures
        driver_name(a) != driver_name(b),
{
    reveal_strlit("read-only");
    reveal_strlit("tmux");
    reveal_strlit("manual");
    if driver_name(a) == driver_name(b) {
        assert(driver_name(a).len() == driver_name(b).len());
        assert(driver_name(a)[0] == driver_name(b)[0]);
    }
}

/// Whether a path names a file, asked of the file system
/// (`std::path::Path::is_file`). Nothing is stated of the answer: it depends
/// on what is on disk when the call is made.
#[verifier::external_body]
fn path_is_file(path: &str) -> bool {
    std::path::Path::new(path).is_file()
}

/// The verdict on a path, given whether it names a file.
pub fn file_check(path: &str, is_file: bool) -> (r: Result<(), String>)
    ensures
        r is Ok <==> is_file,
        r matches Err(e) ==> e@ == not_a_file_message(path@),
{
    if is_file {
        Ok(())
    } else {
        Err("'".to_owned().concat(path).concat("' was not a file"))
    }
}

/// Accepts a path that names a file, and refuses any other with a message
/// that quotes it.
pub fn validate_is_file(path: String) -> (r: Result<(), String>)
    ensures
        r matches Err(e) ==> e@ == not_a_file_message(path@),
{
    let is_file = path_is_file(path.as_str());
    file_check(path.as_str(), is_file)
}

} // verus!
