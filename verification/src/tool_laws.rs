//! What holds of the command-line tools, the pumps and the writers around them.
use vstd::prelude::*;

use crate::atomic_write::{step_after, temp_name_of, WriteStep};
use crate::auth::joined_path;
use crate::companion::{has_execute_bit, is_companion};
use crate::credentials::{STORE_VERSION, TOKEN_LEN};
use crate::diagnostic_tools::{
    args_error, canonical_argv, finishes, first_unknown, socket_of, verb_of, ArgValue, ToolArgs,
    ToolError, EXIT_ANSWERED,
};
use crate::dividers::TITLE_CHROME_CELLS;
use crate::pump::{
    changed, may_forward, BootstrapId, GenerationChange, GenerationView, GAP_RESYNC_RETRY,
    RESIZE_RESYNC_DEBOUNCE,
};
use crate::render_pool::{rebuilt, RenderPool};
use crate::render_prof::{MILLI, WINDOW};
use crate::repaint::{DEFAULT_FRAME_INTERVAL_MS, INPUT_GRACE};
use crate::report_state::{
    status_of, word_of, Report, ReportedAgentState, EXIT_FAILURE, EXIT_SUCCESS, REQUEST_ID,
};
use crate::secrets::hex_encoded;
use crate::stdout_writer::{CAP_BYTES, SPARE_MAX_BYTES, SPARE_POOL};
use crate::text::{quoted, trimmed};
use crate::tiling::{MIN_LEAF_COLS, MIN_LEAF_ROWS};
use crate::timestamp::LAST_SECOND;
use crate::upgrade::PANE_HANDOFF_TIMEOUT;

verus! {

/// The family has two tools, each running its verb.
pub proof fn law_each_tool_has_its_verb(name: Seq<char>)
    ensures
        name == "phux_status"@ ==> verb_of(name) == Some("status"@),
        name == "phux_doctor"@ ==> verb_of(name) == Some("doctor"@),
        name != "phux_status"@ && name != "phux_doctor"@ ==> verb_of(name) is None,
{
    reveal_strlit("phux_status");
    reveal_strlit("phux_doctor");
    assert("phux_status"@[5] != "phux_doctor"@[5]);
}

proof fn lemma_first_unknown(entries: Seq<(String, ArgValue)>, k: int)
    requires
        0 <= k <= entries.len(),
        forall|j: int| 0 <= j < k ==> (#[trigger] entries[j]).0@ == "socket"@,
        k < entries.len() ==> entries[k].0@ != "socket"@,
    ensures
        k < entries.len() ==> first_unknown(entries) == Some(entries[k].0@),
        k == entries.len() ==> first_unknown(entries) is None,
    decreases k,
{
    if k > 0 {
        let rest = entries.drop_first();
        assert(entries[0].0@ == "socket"@);
        assert forall|j: int| 0 <= j < k - 1 implies (#[trigger] rest[j]).0@ == "socket"@ by {
            assert(rest[j] == entries[j + 1]);
        }
        if k < entries.len() {
            assert(rest[k - 1] == entries[k]);
        }
        lemma_first_unknown(rest, k - 1);
    }
}

/// Arguments name nothing but a socket: the first other name is refused by it.
pub proof fn law_the_first_other_argument_is_refused(entries: Vec<(String, ArgValue)>, k: int)
    requires
        0 <= k < entries@.len(),
        forall|j: int| 0 <= j < k ==> (#[trigger] entries@[j]).0@ == "socket"@,
        entries@[k].0@ != "socket"@,
    ensures
        args_error(ToolArgs::Object(entries)) == Some("unknown argument: "@ + entries@[k].0@),
{
    lemma_first_unknown(entries@, k);
}

/// Arguments that name nothing, or a socket by a text, are good, and that text is
/// the socket; a socket that is no text is refused, and so is what is no object.
pub proof fn law_a_socket_is_a_text(entries: Vec<(String, ArgValue)>)
    requires
        forall|j: int| 0 <= j < entries@.len() ==> (#[trigger] entries@[j]).0@ == "socket"@,
    ensures
        entries@.len() == 0 ==> args_error(ToolArgs::Object(entries)) is None && socket_of(
            ToolArgs::Object(entries),
        ) is None,
        entries@.len() > 0 && entries@[0].1 is Other ==> args_error(ToolArgs::Object(entries))
            == Some("socket must be a string"@),
        entries@.len() > 0 && entries@[0].1 is Text ==> args_error(ToolArgs::Object(entries)) is None
            && socket_of(ToolArgs::Object(entries)) == Some(entries@[0].1->Text_0@),
        args_error(ToolArgs::NotAnObject) == Some("arguments must be an object"@),
{
    lemma_first_unknown(entries@, entries@.len() as int);
}

/// A verb is run for its JSON, on the named socket if one is named.
pub proof fn law_a_verb_is_run_for_json(verb: Seq<char>, socket: Option<Seq<char>>)
    ensures
        ({
            let argv = canonical_argv(verb, socket);
            &&& argv[0] == verb
            &&& argv[1] == "--json"@
            &&& socket is None ==> argv.len() == 2
            &&& socket is Some ==> argv.len() == 4 && argv[2] == "--socket"@ && argv[3]
                == socket->0
        }),
{
}

/// A run gives its printed document untouched exactly when it printed something
/// that is JSON, whatever it said besides; otherwise it gives what it said, or
/// that it said nothing, or what is wrong with what it printed.
pub proof fn law_a_run_gives_what_it_printed(
    verb: Seq<char>,
    stdout: Seq<char>,
    stderr: Seq<char>,
    complaint: Option<Seq<char>>,
    r: Result<String, ToolError>,
)
    requires
        finishes(verb, stdout, stderr, complaint, r),
    ensures
        r is Ok <==> trimmed(stdout).len() > 0 && complaint is None,
        r is Ok ==> r->Ok_0@ == stdout,
        trimmed(stdout).len() == 0 && trimmed(stderr).len() > 0 ==> r->Err_0.message@ == trimmed(
            stderr,
        ),
        trimmed(stdout).len() == 0 && trimmed(stderr).len() == 0 ==> r->Err_0.message@ == "phux "@
            + verb + " --json exited without printing a document"@,
        trimmed(stdout).len() > 0 && complaint is Some ==> r->Err_0.message@ == "phux "@ + verb
            + " --json returned malformed JSON: "@ + complaint->0 + "; stdout="@ + quoted(stdout),
{
}

/// A file is executable when its owner, its group or others may execute it.
pub proof fn law_any_execute_bit_counts(mode: u32)
    ensures
        has_execute_bit(mode) <==> mode & 0o100 != 0 || mode & 0o010 != 0 || mode & 0o001 != 0,
{
    assert(mode & 0o111 != 0 <==> mode & 0o100 != 0 || mode & 0o010 != 0 || mode & 0o001 != 0)
        by (bit_vector);
}

/// The companion beside the program goes before those on the path, and among
/// those the first that is executable; nothing else is ever run, and nothing is
/// found only where nothing is executable.
pub proof fn law_the_nearest_executable_is_run<P, F: Fn(&P) -> bool>(
    sibling: Option<P>,
    on_path: Seq<P>,
    executable: F,
    r: Option<P>,
)
    requires
        is_companion(sibling, on_path, executable, r),
    ensures
        r is Some ==> call_ensures(executable, (&r->0,), true) && (r == sibling
            || on_path.contains(r->0)),
        sibling is Some && !call_ensures(executable, (&sibling->0,), false) ==> r == sibling,
        r is None ==> (sibling is Some ==> call_ensures(executable, (&sibling->0,), false)) && (
        forall|j: int|
            0 <= j < on_path.len() ==> call_ensures(executable, (&#[trigger] on_path[j],), false)),
        forall|j: int|
            0 <= j < on_path.len() && !call_ensures(executable, (&#[trigger] on_path[j],), false)
                && r != sibling ==> exists|i: int| 0 <= i <= j && r == Some(#[trigger] on_path[i]),
{
}

/// The words of the states.
pub proof fn law_each_state_has_its_word(state: ReportedAgentState)
    ensures
        state == ReportedAgentState::Working ==> word_of(state) == "working"@,
        state == ReportedAgentState::Blocked ==> word_of(state) == "blocked"@,
        state == ReportedAgentState::Done ==> word_of(state) == "done"@,
{
}

/// A refused report fails an exit that would have succeeded; every other exit is
/// the connection's own.
pub proof fn law_a_refusal_fails_the_exit(transport: u8, report: Report)
    ensures
        report == (Report::Over { refused: true }) && transport == 0 ==> status_of(transport, report)
            == 1,
        report == (Report::Over { refused: true }) && transport != 0 ==> status_of(transport, report)
            == transport,
        report != (Report::Over { refused: true }) ==> status_of(transport, report) == transport,
{
}

/// What each event does to a pump: a label changes the label, a forwarded frame
/// the last sequence, a tombstone ends the generation, a gap fences it, and a
/// publication starts anew at its base; nothing else changes.
pub proof fn law_each_event_changes_one_thing(
    g: GenerationView,
    id: BootstrapId,
    seq: u64,
)
    ensures
        ({
            let a = changed(g, GenerationChange::Labelled(id));
            &&& a.bootstrap_id == id
            &&& a == (GenerationView { bootstrap_id: id, ..g })
        }),
        ({
            let a = changed(g, GenerationChange::Forwarded(seq));
            &&& a.last_forwarded_seq == seq
            &&& a == (GenerationView { last_forwarded_seq: seq, ..g })
        }),
        ({
            let a = changed(g, GenerationChange::Retired);
            &&& !a.active
            &&& a == (GenerationView { active: false, ..g })
            &&& !may_forward(a, seq)
        }),
        ({
            let a = changed(g, GenerationChange::Fenced);
            &&& a.fenced
            &&& a == (GenerationView { fenced: true, ..g })
            &&& !may_forward(a, seq)
        }),
        ({
            let a = changed(g, GenerationChange::Republished(seq));
            &&& a.active && !a.fenced
            &&& a.published_cut == seq && a.last_forwarded_seq == seq
            &&& a.bootstrap_id == g.bootstrap_id
        }),
{
}

/// A delta is forwarded exactly when the generation is live, unfenced, and past
/// what its bootstrap covers.
pub proof fn law_a_delta_is_forwarded_past_the_cut(g: GenerationView, seq: u64)
    ensures
        may_forward(g, seq) <==> g.active && !g.fenced && g.published_cut < seq,
{
}

/// A failed step before the temporary file is made ends the replacement at once;
/// one after it removes the file first.
pub proof fn law_a_failure_removes_what_was_made(step: WriteStep)
    ensures
        step == WriteStep::CreateParent || step == WriteStep::DrawName ==> step_after(step, false)
            == WriteStep::Failed,
        step == WriteStep::CreateTemp || step == WriteStep::WriteDocument || step
            == WriteStep::SyncFile || step == WriteStep::Rename || step == WriteStep::SyncParent
            ==> step_after(step, false) == WriteStep::RemoveTemp && step_after(
            step_after(step, false),
            true,
        ) == WriteStep::Failed && step_after(step_after(step, false), false) == WriteStep::Failed,
{
}

/// The temporary file is hidden and beside the file: a dot, the file's name, a
/// dot, the suffix in hexadecimal, and `.tmp`.
pub proof fn law_a_temporary_name_tells_its_file(name: &str, suffix: Seq<u8>)
    ensures
        temp_name_of(Some(name), suffix) == "."@ + name@ + "."@ + hex_encoded(suffix) + ".tmp"@,
        temp_name_of(None, suffix) == ".credentials."@ + hex_encoded(suffix) + ".tmp"@,
{
    reveal_strlit(".");
    reveal_strlit("credentials");
    reveal_strlit(".credentials.");
    assert("."@ + "credentials"@ + "."@ =~= ".credentials."@);
}

/// A path is a directory, one slash, and a name; without a directory it is the
/// name.
pub proof fn law_a_path_is_joined_by_one_slash(dir: Seq<char>, name: Seq<char>)
    ensures
        dir.len() == 0 ==> joined_path(dir, name) == name,
        dir.len() > 0 && dir.last() != '/' ==> joined_path(dir, name) == dir.push('/') + name,
        dir.len() > 0 && dir.last() == '/' ==> joined_path(dir, name) == dir + name,
{
}

/// The limits that the parts of the program agree on: sizes in cells and bytes,
/// spans in the units their names and contracts give.
pub proof fn law_the_limits_are_agreed()
    ensures
        TOKEN_LEN == 32,
        STORE_VERSION == 1,
        TITLE_CHROME_CELLS == 4,
        MIN_LEAF_COLS == 2,
        MIN_LEAF_ROWS == 1,
        GAP_RESYNC_RETRY == 500,
        RESIZE_RESYNC_DEBOUNCE == 50,
        PANE_HANDOFF_TIMEOUT == 2_000,
        DEFAULT_FRAME_INTERVAL_MS == 16,
        INPUT_GRACE == 20 * 1_000_000,
        MILLI == 1_000_000,
        WINDOW == 1_000 * 1_000_000,
        CAP_BYTES == 256 * 1_024,
        SPARE_MAX_BYTES == 64 * 1_024,
        SPARE_POOL == 4,
        REQUEST_ID == 100,
        EXIT_SUCCESS == 0,
        EXIT_FAILURE == 1,
        EXIT_ANSWERED == 1,
        LAST_SECOND == 8_210_266_876_799,
{
}

/// A pool is left alone while the terminal keeps its dimensions, and rebuilt
/// whole, or its failure told, when it does not.
pub proof fn law_a_pool_lasts_as_long_as_its_dimensions<
    S,
    R,
    C,
    E,
    FS: FnOnce() -> Result<S, E>,
    FR: FnOnce() -> Result<R, E>,
    FC: FnOnce() -> Result<C, E>,
>(
    before: RenderPool<S, R, C>,
    after: RenderPool<S, R, C>,
    live: (u16, u16),
    new_state: FS,
    new_rows: FR,
    new_cells: FC,
    r: Result<(), E>,
)
    requires
        rebuilt(before, after, live, new_state, new_rows, new_cells, r),
    ensures
        before.last_dims == Some(live) ==> r is Ok && after == before,
        before.last_dims != Some(live) && r is Ok ==> {
            &&& after.last_dims == Some(live)
            &&& call_ensures(new_state, (), Ok::<S, E>(after.state))
            &&& call_ensures(new_rows, (), Ok::<R, E>(after.rows))
            &&& call_ensures(new_cells, (), Ok::<C, E>(after.cells))
        },
        r is Err ==> {
            &&& after.last_dims == before.last_dims
            &&& call_ensures(new_state, (), Err::<S, E>(r->Err_0)) || call_ensures(
                new_rows,
                (),
                Err::<R, E>(r->Err_0),
            ) || call_ensures(new_cells, (), Err::<C, E>(r->Err_0))
        },
{
}

} // verus!
