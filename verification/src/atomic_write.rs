//! Replacing a file in one step: the new contents go to a temporary file beside
//! it, are synced, and are then renamed over it.
use vstd::prelude::*;
use vstd::string::*;

use crate::credentials::AuthError;
use crate::issuing::is_random;
use crate::secrets::{hex_encode, hex_encoded, random_bytes, RandomBytes};

verus! {

/// The name of a temporary file for a file of this name: hidden, unique by its
/// suffix. A file without a usable name counts as `credentials`.
pub open spec fn temp_name_of(file_name: Option<&str>, suffix: Seq<u8>) -> Seq<char> {
    "."@ + (match file_name {
        Some(name) => name@,
        None => "credentials"@,
    }) + "."@ + hex_encoded(suffix) + ".tmp"@
}

/// The name of the temporary file with the given suffix.
pub fn temp_name(file_name: Option<&str>, suffix: &Vec<u8>) -> (name: String)
    ensures
        name@ == temp_name_of(file_name, suffix@),
{
    let mut name = ".".to_owned();
    match file_name {
        Some(n) => {
            name.append(n);
        },
        None => {
            name.append("credentials");
        },
    }
    name.append(".");
    let digits = hex_encode(suffix.as_slice());
    name.append(digits.as_str());
    name.append(".tmp");
    name
}

/// The name of the temporary file with a random suffix of eight bytes.
pub fn draw_temp_name(file_name: Option<&str>) -> (r: Result<String, AuthError>)
    ensures
        match r {
            Ok(name) => exists|suffix: RandomBytes|
                suffix@.len() == 8 && name@ == #[trigger] temp_name_of(file_name, suffix@),
            Err(e) => is_random(e),
        },
{
    match random_bytes(8) {
        Ok(suffix) => {
            let name = temp_name(file_name, suffix.bytes());
            proof {
                assert(name@ == temp_name_of(file_name, suffix@));
            }
            Ok(name)
        },
        Err(e) => Err(AuthError::Random(e)),
    }
}

/// The steps of replacing a file.
#[derive(Debug, Clone, Copy, PartialEq, Eq, Structural)]
pub enum WriteStep {
    /// Make sure the directory exists.
    CreateParent,
    /// Draw a name for the temporary file.
    DrawName,
    /// Create the temporary file, readable by its owner alone.
    CreateTemp,
    /// Write the new contents to it.
    WriteDocument,
    /// Sync it.
    SyncFile,
    /// Rename it over the file.
    Rename,
    /// Sync the directory.
    SyncParent,
    /// The file is replaced.
    Done,
    /// Remove the temporary file, ignoring whether that works.
    RemoveTemp,
    /// The first failure is to be reported.
    Failed,
}

/// The step after `step` went well or not. A failure from the moment the
/// temporary file is created removes it again.
pub open spec fn step_after(step: WriteStep, ok: bool) -> WriteStep {
    match step {
        WriteStep::CreateParent => if ok {
            WriteStep::DrawName
        } else {
            WriteStep::Failed
        },
        WriteStep::DrawName => if ok {
            WriteStep::CreateTemp
        } else {
            WriteStep::Failed
        },
        WriteStep::CreateTemp => if ok {
            WriteStep::WriteDocument
        } else {
            WriteStep::RemoveTemp
        },
        WriteStep::WriteDocument => if ok {
            WriteStep::SyncFile
        } else {
            WriteStep::RemoveTemp
        },
        WriteStep::SyncFile => if ok {
            WriteStep::Rename
        } else {
            WriteStep::RemoveTemp
        },
        WriteStep::Rename => if ok {
            WriteStep::SyncParent
        } else {
            WriteStep::RemoveTemp
        },
        WriteStep::SyncParent => if ok {
            WriteStep::Done
        } else {
            WriteStep::RemoveTemp
        },
        WriteStep::Done => WriteStep::Done,
        WriteStep::RemoveTemp => WriteStep::Failed,
        WriteStep::Failed => WriteStep::Failed,
    }
}

/// The next step of replacing a file.
pub fn next_write_step(step: WriteStep, ok: bool) -> (next: WriteStep)
    ensures
        next == step_after(step, ok),
{
    match step {
        WriteStep::Done => WriteStep::Done,
        WriteStep::RemoveTemp => WriteStep::Failed,
        WriteStep::Failed => WriteStep::Failed,
        WriteStep::CreateParent => if ok {
            WriteStep::DrawName
        } else {
            WriteStep::Failed
        },
        WriteStep::DrawName => if ok {
            WriteStep::CreateTemp
        } else {
            WriteStep::Failed
        },
        _ => {
            if !ok {
                return WriteStep::RemoveTemp;
            }
            match step {
                WriteStep::CreateTemp => WriteStep::WriteDocument,
                WriteStep::WriteDocument => WriteStep::SyncFile,
                WriteStep::SyncFile => WriteStep::Rename,
                WriteStep::Rename => WriteStep::SyncParent,
                _ => WriteStep::Done,
            }
        },
    }
}

/// The step reached from the start after the given outcomes.
pub open spec fn step_reached(outcomes: Seq<bool>) -> WriteStep
    decreases outcomes.len(),
{
    if outcomes.len() == 0 {
        WriteStep::CreateParent
    } else {
        step_after(step_reached(outcomes.drop_last()), outcomes.last())
    }
}

/// How many steps went well before this one, for a step on the way to success.
pub open spec fn steps_before(step: WriteStep) -> Option<nat> {
    match step {
        WriteStep::CreateParent => Some(0),
        WriteStep::DrawName => Some(1),
        WriteStep::CreateTemp => Some(2),
        WriteStep::WriteDocument => Some(3),
        WriteStep::SyncFile => Some(4),
        WriteStep::Rename => Some(5),
        WriteStep::SyncParent => Some(6),
        _ => None,
    }
}

/// An interruption exposes the old complete file or the new complete file: the
/// rename, and every other step on the way, is reached only when all the steps
/// before it went well, in order.
pub proof fn law_a_step_is_reached_only_after_all_before_it(outcomes: Seq<bool>)
    ensures
        match steps_before(step_reached(outcomes)) {
            Some(n) => outcomes.len() == n && forall|i: int|
                0 <= i < outcomes.len() ==> #[trigger] outcomes[i],
            None => true,
        },
    decreases outcomes.len(),
{
    if outcomes.len() > 0 {
        let rest = outcomes.drop_last();
        law_a_step_is_reached_only_after_all_before_it(rest);
        assert forall|i: int|
            0 <= i < outcomes.len() && steps_before(
                step_reached(outcomes),
            ) is Some implies #[trigger] outcomes[i] by {
            if i < rest.len() {
                assert(rest[i] == outcomes[i]);
            }
        }
    }
}

/// Success is reported only when every one of the seven steps went well, whatever
/// came after them.
pub proof fn law_done_means_every_step_went_well(outcomes: Seq<bool>)
    requires
        step_reached(outcomes) == WriteStep::Done,
    ensures
        outcomes.len() >= 7,
        forall|i: int| 0 <= i < 7 ==> #[trigger] outcomes[i],
    decreases outcomes.len(),
{
    let rest = outcomes.drop_last();
    if step_reached(rest) == WriteStep::Done {
        law_done_means_every_step_went_well(rest);
    } else {
        law_a_step_is_reached_only_after_all_before_it(rest);
    }
    assert forall|i: int| 0 <= i < 7 implies #[trigger] outcomes[i] by {
        if i < rest.len() {
            assert(rest[i] == outcomes[i]);
        }
    }
}

/// Where all seven steps go well, the replacement is done.
pub proof fn law_seven_good_steps_are_done(outcomes: Seq<bool>)
    requires
        outcomes.len() >= 7,
        forall|i: int| 0 <= i < 7 ==> #[trigger] outcomes[i],
    ensures
        step_reached(outcomes) == WriteStep::Done,
    decreases outcomes.len(),
{
    let rest = outcomes.drop_last();
    if outcomes.len() > 7 {
        assert forall|i: int| 0 <= i < 7 implies #[trigger] rest[i] by {
            assert(rest[i] == outcomes[i]);
        }
        law_seven_good_steps_are_done(rest);
    } else {
        lemma_good_steps_advance(outcomes);
    }
}

proof fn lemma_good_steps_advance(outcomes: Seq<bool>)
    requires
        outcomes.len() <= 7,
        forall|i: int| 0 <= i < outcomes.len() ==> #[trigger] outcomes[i],
    ensures
        outcomes.len() == 7 ==> step_reached(outcomes) == WriteStep::Done,
        outcomes.len() < 7 ==> steps_before(step_reached(outcomes)) == Some(outcomes.len()),
    decreases outcomes.len(),
{
    if outcomes.len() > 0 {
        let rest = outcomes.drop_last();
        assert forall|i: int| 0 <= i < rest.len() implies #[trigger] rest[i] by {
            assert(rest[i] == outcomes[i]);
        }
        lemma_good_steps_advance(rest);
        assert(outcomes[outcomes.len() - 1]);
    }
}

/// A failed replacement is over after its cleanup: from a failure on, the rename
/// is never reached.
pub proof fn law_a_failure_never_reaches_the_rename(outcomes: Seq<bool>, more: Seq<bool>)
    requires
        step_reached(outcomes) == WriteStep::RemoveTemp || step_reached(outcomes)
            == WriteStep::Failed,
    ensures
        step_reached(outcomes + more) == WriteStep::RemoveTemp || step_reached(outcomes + more)
            == WriteStep::Failed,
    decreases more.len(),
{
    if more.len() == 0 {
        assert(outcomes + more =~= outcomes);
    } else {
        assert((outcomes + more).drop_last() =~= outcomes + more.drop_last());
        law_a_failure_never_reaches_the_rename(outcomes, more.drop_last());
    }
}

} // verus!
