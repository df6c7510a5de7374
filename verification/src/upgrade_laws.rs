//! What holds of every upgrade: what is passed on to the new image, and how.
use vstd::prelude::*;

use crate::layout::TerminalId;
use crate::text::decimal;
use crate::upgrade::{
    arg_views, cleared_flags, fails_handoff, named_fds, resume_argv, ArgView, ResumeArg,
    RuntimeFlags, UpgradeError, UpgradePhase, UpgradeRun,
};

verus! {

/// Pane records are read one after the other: what two lists name is what the
/// one names and then what the other does, a record that names a descriptor
/// names that one, and one that names none adds nothing.
pub proof fn law_records_are_read_in_order(
    a: Seq<Option<i32>>,
    b: Seq<Option<i32>>,
    fd: i32,
)
    ensures
        named_fds(a + b) == named_fds(a) + named_fds(b),
        named_fds(seq![Some(fd)]) == seq![fd],
        named_fds(seq![None]) == Seq::<i32>::empty(),
        named_fds(Seq::empty()) == Seq::<i32>::empty(),
    decreases b.len(),
{
    reveal_with_fuel(named_fds, 2);
    assert(seq![Some(fd)].drop_last() =~= Seq::<Option<i32>>::empty());
    assert(seq![None::<i32>].drop_last() =~= Seq::<Option<i32>>::empty());
    assert(named_fds(seq![Some(fd)]) =~= seq![fd]);
    if b.len() == 0 {
        assert(a + b =~= a);
        assert(named_fds(a) + named_fds(b) =~= named_fds(a));
    } else {
        law_records_are_read_in_order(a, b.drop_last(), fd);
        assert((a + b).drop_last() =~= a + b.drop_last());
        assert((a + b).last() == b.last());
        assert(named_fds(a + b) =~= named_fds(a) + named_fds(b));
    }
}

/// How many of the records name a descriptor.
pub open spec fn naming(masters: Seq<Option<i32>>) -> nat
    decreases masters.len(),
{
    if masters.len() == 0 {
        0
    } else if masters[0] is Some {
        1 + naming(masters.drop_first())
    } else {
        naming(masters.drop_first())
    }
}

/// Every descriptor that a pane record names is passed on, no other is, and as
/// many are as there are records that name one.
pub proof fn law_every_named_descriptor_is_passed_on(masters: Seq<Option<i32>>, fd: i32)
    ensures
        named_fds(masters).contains(fd) <==> exists|i: int|
            0 <= i < masters.len() && #[trigger] masters[i] == Some(fd),
        named_fds(masters).len() == naming(masters),
    decreases masters.len(),
{
    if masters.len() > 0 {
        let rest = masters.drop_first();
        law_every_named_descriptor_is_passed_on(rest, fd);
        law_records_are_read_in_order(seq![masters[0]], rest, fd);
        assert(masters =~= seq![masters[0]] + rest);
        let first = named_fds(seq![masters[0]]);
        if let Some(own) = masters[0] {
            law_records_are_read_in_order(seq![masters[0]], rest, own);
            assert(masters[0] == Some(own));
            assert(first == seq![own]);
            assert(first[0] == own);
        } else {
            assert(first.len() == 0);
        }
        let all = named_fds(masters);
        assert(all == first + named_fds(rest));
        if named_fds(rest).contains(fd) {
            let j = choose|j: int| 0 <= j < named_fds(rest).len() && named_fds(rest)[j] == fd;
            assert(all[first.len() + j] == fd);
            let i = choose|i: int| 0 <= i < rest.len() && #[trigger] rest[i] == Some(fd);
            assert(masters[i + 1] == Some(fd));
        }
        if all.contains(fd) {
            let j = choose|j: int| 0 <= j < all.len() && all[j] == fd;
            if j < first.len() {
                assert(masters[0] == Some(fd));
            } else {
                assert(named_fds(rest)[j - first.len()] == fd);
                assert(named_fds(rest).contains(fd));
            }
        }
        if exists|i: int| 0 <= i < masters.len() && #[trigger] masters[i] == Some(fd) {
            let i = choose|i: int| 0 <= i < masters.len() && #[trigger] masters[i] == Some(fd);
            if i == 0 {
                assert(first[0] == fd);
                assert(all[0] == fd);
            } else {
                assert(rest[i - 1] == Some(fd));
            }
        }
    }
}

/// Close-on-exec was cleared on the descriptor, and its flags noted.
pub open spec fn has_cleared(run: UpgradeRun, fd: i32) -> bool {
    exists|j: int|
        0 <= j < run.guard.originals@.len() && (#[trigger] run.guard.originals@[j]).0 == fd
}

/// A ready upgrade has cleared close-on-exec on all that the new image needs and
/// on nothing else: the blob, the listener, and every descriptor that one of the
/// pane records it was assembled from names.
pub proof fn law_a_ready_upgrade_keeps_every_pane(
    run: UpgradeRun,
    masters: Seq<Option<i32>>,
    blob_fd: i32,
    fd: i32,
)
    requires
        run.wf(),
        run.phase == UpgradePhase::Ready,
        run.masters@ == named_fds(masters),
        run.inherited@ == seq![blob_fd, run.listener_fd] + run.masters@,
    ensures
        has_cleared(run, fd) <==> fd == blob_fd || fd == run.listener_fd || exists|i: int|
            0 <= i < masters.len() && #[trigger] masters[i] == Some(fd),
        run.guard.originals@.len() == 2 + naming(masters),
{
    law_every_named_descriptor_is_passed_on(masters, fd);
    let notes = run.guard.originals@;
    if fd == blob_fd {
        assert(notes[0].0 == run.inherited@[0]);
    }
    if fd == run.listener_fd {
        assert(notes[1].0 == run.inherited@[1]);
    }
    if named_fds(masters).contains(fd) {
        let j = choose|j: int| 0 <= j < run.masters@.len() && run.masters@[j] == fd;
        assert(run.inherited@[2 + j] == fd);
        assert(notes[2 + j].0 == run.inherited@[2 + j]);
    }
    if has_cleared(run, fd) {
        let j = choose|j: int| 0 <= j < notes.len() && (#[trigger] notes[j]).0 == fd;
        assert(run.inherited@[j] == fd);
        if j >= 2 {
            assert(run.masters@[j - 2] == fd);
            assert(run.masters@.contains(fd));
        }
    }
}

/// Clearing close-on-exec clears the lowest bit and touches no other.
pub proof fn law_clearing_touches_one_bit(bits: u32)
    ensures
        cleared_flags(bits) & 1u32 == 0u32,
        cleared_flags(bits) | 1u32 == bits | 1u32,
        bits & 1u32 == 0u32 ==> cleared_flags(bits) == bits,
{
    let c = bits & !1u32;
    assert(c & 1u32 == 0u32) by (bit_vector)
        requires
            c == bits & !1u32,
    ;
    assert(c | 1u32 == bits | 1u32) by (bit_vector)
        requires
            c == bits & !1u32,
    ;
    assert(bits & 1u32 == 0u32 ==> c == bits) by (bit_vector)
        requires
            c == bits & !1u32,
    ;
}

/// Two places from `at` on hold the flag and its value where there is a value.
pub open spec fn says_at<P>(
    argv: Seq<ArgView<P>>,
    at: int,
    flag: Seq<char>,
    value: Option<Seq<char>>,
) -> bool {
    value is Some ==> {
        &&& at + 1 < argv.len()
        &&& argv[at] == ArgView::<P>::Text(flag)
        &&& argv[at + 1] == ArgView::<P>::Text(value->0)
    }
}

/// How many places a flag with a value takes.
pub open spec fn places<T>(value: Option<T>) -> int {
    if value is Some {
        2
    } else {
        0
    }
}

/// The resumed image is told everything the old one was: `server`, the blob's
/// descriptor, the socket, and then each runtime flag in effect with its value,
/// in a fixed order, and nothing else. The idle limit is told in whole seconds,
/// rounded up.
pub proof fn law_the_new_image_is_told_every_flag<P>(
    blob_fd: i32,
    socket_path: P,
    flags: RuntimeFlags,
)
    requires
        flags.exit_after_idle is Some ==> flags.exit_after_idle->0.nanos < 1_000_000_000,
    ensures
        ({
            let argv = resume_argv(blob_fd, socket_path, flags);
            let quic = 5 + places(flags.ws_addr);
            let wt = quic + places(flags.quic_addr);
            let connect = wt + places(flags.wt_addr);
            let hub = connect + places(flags.connect);
            let idle = if flags.hub {
                hub + 1
            } else {
                hub
            };
            &&& argv.len() == idle + places(flags.exit_after_idle)
            &&& argv[0] == ArgView::<P>::Text("server"@)
            &&& argv[1] == ArgView::<P>::Text("--resume"@)
            &&& blob_fd >= 0 ==> argv[2] == ArgView::<P>::Text(decimal(blob_fd as nat))
            &&& blob_fd < 0 ==> argv[2] == ArgView::<P>::Text("-"@ + decimal((-blob_fd) as nat))
            &&& argv[3] == ArgView::<P>::Text("--socket"@)
            &&& argv[4] == ArgView::Path(socket_path)
            &&& flags.ws_addr is Some ==> says_at(
                argv,
                5,
                "--listen"@,
                Some(flags.ws_addr->0@),
            )
            &&& flags.quic_addr is Some ==> says_at(
                argv,
                quic,
                "--quic"@,
                Some(flags.quic_addr->0@),
            )
            &&& flags.wt_addr is Some ==> says_at(
                argv,
                wt,
                "--webtransport"@,
                Some(flags.wt_addr->0@),
            )
            &&& flags.connect is Some ==> says_at(
                argv,
                connect,
                "--connect"@,
                Some(flags.connect->0@),
            )
            &&& flags.hub ==> argv[hub] == ArgView::<P>::Text("--hub"@)
            &&& flags.exit_after_idle is Some ==> exists|secs: nat|
                {
                    let span = flags.exit_after_idle->0;
                    let limit = span.secs * 1_000_000_000 + span.nanos;
                    &&& says_at(
                        argv,
                        idle,
                        "--exit-after-idle"@,
                        Some(#[trigger] decimal(secs)),
                    )
                    &&& limit <= secs * 1_000_000_000 < limit + 1_000_000_000
                }
        }),
{
    let argv = resume_argv(blob_fd, socket_path, flags);
    if let Some(span) = flags.exit_after_idle {
        let secs: nat = if span.nanos > 0 {
            (span.secs + 1) as nat
        } else {
            span.secs as nat
        };
        let d = decimal(secs);
    }
}

/// The arguments of a list are its items, in order; a failed handoff names the
/// pane and the reason.
pub proof fn law_arguments_are_read_in_order<P, H>(
    args: Seq<ResumeArg<P>>,
    k: int,
    r: Result<H, UpgradeError>,
    pane: TerminalId,
    why: Seq<char>,
)
    requires
        0 <= k < args.len(),
    ensures
        arg_views(args).len() == args.len(),
        args[k] is Text ==> arg_views(args)[k] == ArgView::<P>::Text(args[k]->Text_0@),
        args[k] is Path ==> arg_views(args)[k] == ArgView::Path(args[k]->Path_0),
        fails_handoff(r, pane, why) <==> (r matches Err(
            UpgradeError::PaneHandoff { pane: p, reason },
        ) && p == pane && reason@ == why),
{
}

} // verus!
