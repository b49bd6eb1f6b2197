use vstd::prelude::*;
use vstd::string::*;

verus! {

/// The size of a terminal in character cells.
#[derive(PartialEq, Eq, Structural, Clone, Copy, Debug)]
pub struct TermSize {
    pub rows: u16,
    pub cols: u16,
}

/// The size a session is opened with: the one asked for, else 24 rows by 80 columns.
pub fn resolve_size(size: Option<TermSize>) -> (r: TermSize)
    ensures
        r == (match size {
            Some(s) => s,
            None => TermSize { rows: 24, cols: 80 },
        }),
{
    match size {
        Some(s) => s,
        None => TermSize { rows: 24, cols: 80 },
    }
}

/// The shell a session runs: the one asked for, else the platform's default.
pub open spec fn shell_text(shell: Option<Seq<char>>, windows: bool) -> Seq<char> {
    match shell {
        Some(s) => s,
        None => if windows {
            "cmd.exe"@
        } else {
            "bash"@
        },
    }
}

/// The shell a session runs: the one asked for, else `cmd.exe` on Windows and
/// `bash` elsewhere.
pub fn resolve_shell(shell: Option<String>, windows: bool) -> (r: String)
    ensures
        r@ == shell_text(
            match shell {
                Some(s) => Some(s@),
                None => None,
            },
            windows,
        ),
{
    match shell {
        Some(s) => s,
        None => if windows {
            String::from_str("cmd.exe")
        } else {
            String::from_str("bash")
        },
    }
}

} // verus!
