//! The output side of a run: which of the two modes was asked for, and
//! which directory a temporary output file belongs in.

use vstd::prelude::*;
use vstd::string::StringExecFns;

verus! {

/// Where the assembled text goes.
pub enum Mode {
    /// Written verbatim to standard output.
    Clipboard,
    /// Written to a freshly created file whose path is printed.
    Temp,
}

/// Parses the `--mode` value: `clipboard` and `temp` are the two accepted
/// modes, and anything else is rejected.
pub fn parse_mode(s: &String) -> (r: Option<Mode>)
    ensures
        s@ == "clipboard"@ ==> r == Some(Mode::Clipboard),
        s@ == "temp"@ ==> r == Some(Mode::Temp),
        s@ != "clipboard"@ && s@ != "temp"@ ==> r is None,
{
    proof {
        reveal_strlit("clipboard");
        reveal_strlit("temp");
        assert("clipboard"@.len() == 9);
        assert("temp"@.len() == 4);
    }
    let clipboard = String::from_str("clipboard");
    let temp = String::from_str("temp");
    if String::eq(s, &clipboard) {
        Some(Mode::Clipboard)
    } else if String::eq(s, &temp) {
        Some(Mode::Temp)
    } else {
        None
    }
}

/// The message shown when the `--mode` value is neither accepted mode.
pub fn unknown_mode_message(mode: &String) -> (r: String)
    ensures
        r@ == "Unknown mode '"@ + mode@ + "'. Use 'clipboard' or 'temp'"@,
{
    let mut r = String::from_str("Unknown mode '");
    r.append(mode.as_str());
    r.append("'. Use 'clipboard' or 'temp'");
    r
}

/// Falls back from a missing or absent runtime directory to the
/// shared-memory directory, and from that to the system default.
pub open spec fn fallback_dir(shm_exists: bool, tmp: Seq<char>) -> Seq<char> {
    if shm_exists {
        "/dev/shm"@
    } else {
        tmp
    }
}

/// The directory a temporary output file is created in: an explicit
/// override first; else the per-user runtime directory when it exists;
/// else the shared-memory directory when it exists; else the system
/// default temporary directory.
pub open spec fn picked_dir(
    ram: Option<Seq<char>>,
    xdg: Option<Seq<char>>,
    xdg_exists: bool,
    shm_exists: bool,
    tmp: Seq<char>,
) -> Seq<char> {
    match ram {
        Some(d) => d,
        None => match xdg {
            Some(x) => if xdg_exists {
                x
            } else {
                fallback_dir(shm_exists, tmp)
            },
            None => fallback_dir(shm_exists, tmp),
        },
    }
}

/// Chooses the directory for the temporary output file. `ram_dir` is the
/// explicit override; `xdg` is the per-user runtime directory with
/// `xdg_exists` saying whether it exists; `shm_exists` says whether the
/// shared-memory directory exists; `system_tmp` is the system default.
pub fn pick_tmp_dir(
    ram_dir: &Option<String>,
    xdg: &Option<String>,
    xdg_exists: bool,
    shm_exists: bool,
    system_tmp: &String,
) -> (r: String)
    ensures
        r@ == picked_dir(
            ram_dir.deep_view(),
            xdg.deep_view(),
            xdg_exists,
            shm_exists,
            system_tmp@,
        ),
{
    match ram_dir {
        Some(d) => d.clone(),
        None => {
            match xdg {
                Some(x) => {
                    if xdg_exists {
                        x.clone()
                    } else if shm_exists {
                        String::from_str("/dev/shm")
                    } else {
                        system_tmp.clone()
                    }
                },
                None => {
                    if shm_exists {
                        String::from_str("/dev/shm")
                    } else {
                        system_tmp.clone()
                    }
                },
            }
        },
    }
}

} // verus!
