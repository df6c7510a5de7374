//! Discovery of the first-party executables shipped beside the main one.
use vstd::prelude::*;

verus! {

/// The file name of the MCP adapter.
pub fn mcp_executable_name(windows: bool) -> (name: &'static str)
    ensures
        name@ == (if windows {
            "phux-mcp.exe"@
        } else {
            "phux-mcp"@
        }),
{
    if windows {
        "phux-mcp.exe"
    } else {
        "phux-mcp"
    }
}

/// What the file system says of a path that exists.
#[derive(Debug, Clone, Copy, PartialEq, Eq, Structural)]
pub struct FileFacts {
    pub is_file: bool,
    /// The permission bits, where the system has them.
    pub mode: Option<u32>,
}

/// One of the three execute bits is set.
pub open spec fn has_execute_bit(mode: u32) -> bool {
    mode & 0o111 != 0
}

/// Whether a path is an executable: it exists, is a file and, where the system
/// has permission bits, some execute bit is set.
pub fn is_executable(facts: Option<FileFacts>) -> (b: bool)
    ensures
        b == match facts {
            None => false,
            Some(f) => f.is_file && match f.mode {
                Some(mode) => has_execute_bit(mode),
                None => true,
            },
        },
{
    match facts {
        None => false,
        Some(f) => {
            if !f.is_file {
                return false;
            }
            match f.mode {
                Some(mode) => mode & 0o111 != 0,
                None => true,
            }
        },
    }
}

/// `r` is the companion to run: the sibling where it is executable, else the
/// first executable one on the path.
pub open spec fn is_companion<P, F: Fn(&P) -> bool>(
    sibling: Option<P>,
    on_path: Seq<P>,
    executable: F,
    r: Option<P>,
) -> bool {
    ||| sibling is Some && r == sibling && call_ensures(executable, (&sibling->0,), true)
    ||| {
        &&& sibling is Some ==> call_ensures(executable, (&sibling->0,), false)
        &&& match r {
            Some(found) => exists|i: int|
                {
                    &&& 0 <= i < on_path.len()
                    &&& found == #[trigger] on_path[i]
                    &&& call_ensures(executable, (&on_path[i],), true)
                    &&& forall|j: int|
                        0 <= j < i ==> call_ensures(executable, (&#[trigger] on_path[j],), false)
                },
            None => forall|j: int|
                0 <= j < on_path.len() ==> call_ensures(
                    executable,
                    (&#[trigger] on_path[j],),
                    false,
                ),
        }
    }
}

/// Find the MCP adapter, preferring the one beside the running executable over
/// the candidates on the search path. Nothing past the first executable one is
/// looked at.
pub fn find_mcp<P, F: Fn(&P) -> bool>(
    sibling: Option<P>,
    on_path: Vec<P>,
    executable: F,
) -> (r: Option<P>)
    requires
        forall|p: &P| call_requires(executable, (p,)),
    ensures
        is_companion(sibling, on_path@, executable, r),
{
    match sibling {
        Some(p) => {
            if executable(&p) {
                return Some(p);
            }
        },
        None => {},
    }
    let mut i: usize = 0;
    while i < on_path.len()
        invariant
            i <= on_path.len(),
            forall|p: &P| call_requires(executable, (p,)),
            forall|j: int|
                0 <= j < i ==> call_ensures(executable, (&#[trigger] on_path@[j],), false),
        ensures
            i <= on_path.len(),
            forall|j: int|
                0 <= j < i ==> call_ensures(executable, (&#[trigger] on_path@[j],), false),
            i < on_path.len() ==> call_ensures(executable, (&on_path@[i as int],), true),
        decreases on_path.len() - i,
    {
        if executable(&on_path[i]) {
            break ;
        }
        i = i + 1;
    }
    let ghost all = on_path@;
    let mut rest = on_path;
    if i < rest.len() {
        let found = rest.remove(i);
        proof {
            assert(found == all[i as int]);
        }
        Some(found)
    } else {
        None
    }
}

} // verus!
