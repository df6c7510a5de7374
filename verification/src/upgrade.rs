//! Graceful upgrade: prepare everything that can be undone, then replace the
//! process.
//!
//! The running server hands its panes, its listener and a state blob to the
//! binary on disk by keeping their descriptors open across the exec. Until the
//! exec itself every step can be undone: a failure leaves the old process
//! serving, with every descriptor's flags as they were.
use vstd::prelude::*;
use vstd::string::*;

use crate::layout::TerminalId;
use crate::text::{decimal, push_decimal};

verus! {

/// How long a pane may take to hand over, in milliseconds.
pub const PANE_HANDOFF_TIMEOUT: u64 = 2000;

/// Why an upgrade was not prepared. The running server is untouched.
#[derive(Debug)]
pub enum UpgradeError {
    /// The server is not serving yet.
    NoContext,
    /// The handoff blob could not be serialized.
    Blob(String),
    /// A descriptor or temporary-file operation failed.
    Io(String),
    /// The binary on disk failed its validation.
    Validation(String),
    /// A live pane did not hand over.
    PaneHandoff { pane: TerminalId, reason: &'static str },
}

/// The text of a pane's id in messages.
pub open spec fn pane_text(pane: TerminalId) -> Seq<char> {
    match pane {
        TerminalId::Local { id } => "Local { id: "@ + decimal(id as nat) + " }"@,
    }
}

impl UpgradeError {
    /// The error in words.
    pub fn message(&self) -> (text: String)
        ensures
            text@ == match *self {
                UpgradeError::NoContext => "server not ready for upgrade (no listener context)"@,
                UpgradeError::Blob(what) => "serialize handoff blob: "@ + what@,
                UpgradeError::Io(what) => "upgrade io: "@ + what@,
                UpgradeError::Validation(what) => "new binary failed validation: "@ + what@,
                UpgradeError::PaneHandoff { pane, reason } => "pane "@ + pane_text(pane)
                    + " did not provide an upgrade handoff: "@ + reason@,
            },
    {
        match self {
            UpgradeError::NoContext => {
                "server not ready for upgrade (no listener context)".to_owned()
            },
            UpgradeError::Blob(what) => {
                let mut text = "serialize handoff blob: ".to_owned();
                text.append(what.as_str());
                text
            },
            UpgradeError::Io(what) => {
                let mut text = "upgrade io: ".to_owned();
                text.append(what.as_str());
                text
            },
            UpgradeError::Validation(what) => {
                let mut text = "new binary failed validation: ".to_owned();
                text.append(what.as_str());
                text
            },
            UpgradeError::PaneHandoff { pane, reason } => {
                let mut text = "pane Local { id: ".to_owned();
                match pane {
                    TerminalId::Local { id } => {
                        push_decimal(&mut text, *id as u64);
                    },
                }
                text.append(" } did not provide an upgrade handoff: ");
                text.append(*reason);
                proof {
                    reveal_strlit("pane Local { id: ");
                    reveal_strlit("pane ");
                    reveal_strlit("Local { id: ");
                    reveal_strlit(" } did not provide an upgrade handoff: ");
                    reveal_strlit(" }");
                    reveal_strlit(" did not provide an upgrade handoff: ");
                    assert("pane Local { id: "@ =~= "pane "@ + "Local { id: "@);
                    assert(" } did not provide an upgrade handoff: "@ =~= " }"@
                        + " did not provide an upgrade handoff: "@);
                    assert(text@ =~= "pane "@ + pane_text(*pane)
                        + " did not provide an upgrade handoff: "@ + reason@);
                }
                text
            },
        }
    }
}

/// What became of asking a pane for its handoff.
#[derive(Debug)]
pub enum HandoffOutcome<H> {
    /// The pane handed over.
    Replied(H),
    /// The pane's mailbox is gone.
    MailboxClosed,
    /// The pane dropped the question.
    ReplyDropped,
    /// The pane did not answer in time.
    TimedOut,
}

/// What a pane's handoff comes to: only a reply preserves the pane, anything
/// else aborts the upgrade and names the pane and what it did.
pub fn request_pane_handoff<H>(pane: TerminalId, outcome: HandoffOutcome<H>) -> (r: Result<
    H,
    UpgradeError,
>)
    ensures
        match outcome {
            HandoffOutcome::Replied(h) => r matches Ok(got) && got == h,
            HandoffOutcome::MailboxClosed => fails_handoff(r, pane, "actor mailbox closed"@),
            HandoffOutcome::ReplyDropped => fails_handoff(r, pane, "actor dropped its reply"@),
            HandoffOutcome::TimedOut => fails_handoff(r, pane, "timed out"@),
        },
{
    match outcome {
        HandoffOutcome::Replied(h) => Ok(h),
        HandoffOutcome::MailboxClosed => Err(
            UpgradeError::PaneHandoff { pane, reason: "actor mailbox closed" },
        ),
        HandoffOutcome::ReplyDropped => Err(
            UpgradeError::PaneHandoff { pane, reason: "actor dropped its reply" },
        ),
        HandoffOutcome::TimedOut => Err(UpgradeError::PaneHandoff { pane, reason: "timed out" }),
    }
}

/// The result names `why` as the reason the pane did not hand over.
pub open spec fn fails_handoff<H>(
    r: Result<H, UpgradeError>,
    pane: TerminalId,
    why: Seq<char>,
) -> bool {
    r matches Err(UpgradeError::PaneHandoff { pane: p, reason }) && p == pane && reason@ == why
}

/// Judge a trial run of the binary on disk by its exit.
pub fn validate_binary(exe: &str, success: bool, status: &str) -> (r: Result<(), UpgradeError>)
    ensures
        success ==> r is Ok,
        !success ==> (r matches Err(UpgradeError::Validation(what)) && what@ == "`"@ + exe@
            + " --version` exited with "@ + status@),
{
    if success {
        Ok(())
    } else {
        let mut what = "`".to_owned();
        what.append(exe);
        what.append(" --version` exited with ");
        what.append(status);
        Err(UpgradeError::Validation(what))
    }
}

/// A length of time: whole seconds and nanoseconds below one.
#[derive(Debug, Clone, Copy, PartialEq, Eq, Structural)]
pub struct IdleSpan {
    pub secs: u64,
    pub nanos: u32,
}

/// The server's runtime flags in effect. Addresses are in their text form.
#[derive(Debug, PartialEq, Eq)]
pub struct RuntimeFlags {
    pub ws_addr: Option<String>,
    pub quic_addr: Option<String>,
    pub wt_addr: Option<String>,
    pub connect: Option<String>,
    pub hub: bool,
    pub exit_after_idle: Option<IdleSpan>,
}

impl Default for RuntimeFlags {
    fn default() -> (f: RuntimeFlags)
        ensures
            f == (RuntimeFlags {
                ws_addr: None,
                quic_addr: None,
                wt_addr: None,
                connect: None,
                hub: false,
                exit_after_idle: None,
            }),
    {
        RuntimeFlags {
            ws_addr: None,
            quic_addr: None,
            wt_addr: None,
            connect: None,
            hub: false,
            exit_after_idle: None,
        }
    }
}

/// One argument: a text, or the socket's path, which need not be text.
#[derive(Debug, PartialEq, Eq)]
pub enum ResumeArg<P> {
    Text(String),
    Path(P),
}

/// The mathematical content of a [`ResumeArg`].
#[verifier::ext_equal]
pub enum ArgView<P> {
    Text(Seq<char>),
    Path(P),
}

impl<P> View for ResumeArg<P> {
    type V = ArgView<P>;

    open spec fn view(&self) -> ArgView<P> {
        match *self {
            ResumeArg::Text(t) => ArgView::Text(t@),
            ResumeArg::Path(p) => ArgView::Path(p),
        }
    }
}

/// The views of a list of arguments.
pub open spec fn arg_views<P>(args: Seq<ResumeArg<P>>) -> Seq<ArgView<P>> {
    Seq::new(args.len(), |i: int| args[i]@)
}

/// A signed number in decimal.
pub open spec fn signed_decimal(n: int) -> Seq<char> {
    if n < 0 {
        "-"@ + decimal((-n) as nat)
    } else {
        decimal(n as nat)
    }
}

/// The whole seconds that cover a span: a part of a second counts as one.
pub open spec fn covering_secs(span: IdleSpan) -> nat {
    if span.nanos > 0 {
        span.secs as nat + 1
    } else {
        span.secs as nat
    }
}

/// A flag with a value, where there is one.
pub open spec fn valued<P>(flag: Seq<char>, value: Option<Seq<char>>) -> Seq<ArgView<P>> {
    match value {
        Some(v) => seq![ArgView::Text(flag), ArgView::Text(v)],
        None => Seq::empty(),
    }
}

pub open spec fn text_of(s: Option<String>) -> Option<Seq<char>> {
    match s {
        Some(t) => Some(t@),
        None => None,
    }
}

/// The arguments every resumed image gets: `server --resume <fd> --socket
/// <path>`.
pub open spec fn base_args<P>(blob_fd: i32, socket_path: P) -> Seq<ArgView<P>> {
    seq![
        ArgView::Text("server"@),
        ArgView::Text("--resume"@),
        ArgView::Text(signed_decimal(blob_fd as int)),
        ArgView::Text("--socket"@),
        ArgView::Path(socket_path),
    ]
}

/// The seconds of the idle limit, if there is one.
pub open spec fn idle_text(span: Option<IdleSpan>) -> Option<Seq<char>> {
    match span {
        Some(span) => Some(decimal(covering_secs(span))),
        None => None,
    }
}

/// The arguments of the resumed image: the base, then every runtime flag in
/// effect, in a fixed order.
pub open spec fn resume_argv<P>(blob_fd: i32, socket_path: P, flags: RuntimeFlags) -> Seq<
    ArgView<P>,
> {
    base_args(blob_fd, socket_path) + valued::<P>("--listen"@, text_of(flags.ws_addr))
        + valued::<P>("--quic"@, text_of(flags.quic_addr)) + valued::<P>(
        "--webtransport"@,
        text_of(flags.wt_addr),
    ) + valued::<P>("--connect"@, text_of(flags.connect)) + (if flags.hub {
        seq![ArgView::Text("--hub"@)]
    } else {
        Seq::empty()
    }) + valued::<P>("--exit-after-idle"@, idle_text(flags.exit_after_idle))
}

fn push_text<P>(args: &mut Vec<ResumeArg<P>>, text: String)
    ensures
        arg_views(final(args)@) == arg_views(old(args)@).push(ArgView::Text(text@)),
{
    args.push(ResumeArg::Text(text));
    proof {
        assert(arg_views(args@) =~= arg_views(old(args)@).push(ArgView::Text(text@)));
    }
}

fn push_valued<P>(args: &mut Vec<ResumeArg<P>>, flag: &str, value: Option<&String>)
    ensures
        arg_views(final(args)@) == arg_views(old(args)@) + valued::<P>(
            flag@,
            match value {
                Some(v) => Some(v@),
                None => None,
            },
        ),
{
    match value {
        Some(v) => {
            push_text(args, flag.to_owned());
            push_text(args, v.clone());
        },
        None => {},
    }
    proof {
        assert(arg_views(args@) =~= arg_views(old(args)@) + valued::<P>(
            flag@,
            match value {
                Some(v) => Some(v@),
                None => None,
            },
        ));
    }
}

fn signed_text(n: i32) -> (text: String)
    ensures
        text@ == signed_decimal(n as int),
{
    let mut text = String::new();
    if n < 0 {
        text.append("-");
        let magnitude: i64 = -(n as i64);
        push_decimal(&mut text, magnitude as u64);
    } else {
        push_decimal(&mut text, n as u64);
    }
    proof {
        assert(text@ =~= signed_decimal(n as int));
    }
    text
}

/// Build the arguments (after the program's own name) with which the new image
/// resumes: the blob's descriptor, the socket, and every runtime flag in effect.
pub fn resume_args<P>(blob_fd: i32, socket_path: P, flags: &RuntimeFlags) -> (args: Vec<
    ResumeArg<P>,
>)
    requires
        flags.exit_after_idle is Some ==> covering_secs(flags.exit_after_idle->0) <= u64::MAX,
    ensures
        arg_views(args@) == resume_argv(blob_fd, socket_path, *flags),
{
    let mut args: Vec<ResumeArg<P>> = Vec::new();
    push_text(&mut args, "server".to_owned());
    push_text(&mut args, "--resume".to_owned());
    push_text(&mut args, signed_text(blob_fd));
    push_text(&mut args, "--socket".to_owned());
    let ghost four = arg_views(args@);
    args.push(ResumeArg::Path(socket_path));
    proof {
        assert(arg_views(args@) =~= four.push(ArgView::Path(socket_path)));
        assert(arg_views(args@) =~= base_args(blob_fd, socket_path));
    }
    push_valued(&mut args, "--listen", flags.ws_addr.as_ref());
    push_valued(&mut args, "--quic", flags.quic_addr.as_ref());
    push_valued(&mut args, "--webtransport", flags.wt_addr.as_ref());
    push_valued(&mut args, "--connect", flags.connect.as_ref());
    let ghost before_hub = arg_views(args@);
    if flags.hub {
        push_text(&mut args, "--hub".to_owned());
        proof {
            assert(before_hub.push(ArgView::Text("--hub"@)) =~= before_hub + seq![
                ArgView::Text("--hub"@),
            ]);
        }
    } else {
        proof {
            assert(before_hub + Seq::<ArgView<P>>::empty() =~= before_hub);
        }
    }
    let ghost before_idle = arg_views(args@);
    match flags.exit_after_idle {
        Some(span) => {
            let secs: u64 = if span.nanos > 0 {
                span.secs + 1
            } else {
                span.secs
            };
            let mut text = String::new();
            push_decimal(&mut text, secs);
            proof {
                assert(text@ =~= decimal(covering_secs(span)));
            }
            push_valued(&mut args, "--exit-after-idle", Some(&text));
        },
        None => {
            proof {
                assert(before_idle + Seq::<ArgView<P>>::empty() =~= before_idle);
            }
        },
    }
    args
}

/// The idle limit is never shortened by the upgrade, and lengthened by less than
/// a second.
pub proof fn law_the_idle_limit_is_rounded_up(span: IdleSpan)
    requires
        span.nanos < 1_000_000_000,
    ensures
        ({
            let limit = span.secs * 1_000_000_000 + span.nanos;
            let resumed = covering_secs(span) * 1_000_000_000;
            limit <= resumed < limit + 1_000_000_000
        }),
{
}

/// A descriptor's flags without close-on-exec.
pub open spec fn cleared_flags(bits: u32) -> u32 {
    bits & !1u32
}

/// `rustix::io::FdFlags::difference` with `FdFlags::CLOEXEC`, on the flags' bits:
/// the same flags without close-on-exec, which is the lowest bit.
#[verifier::external_body]
fn without_cloexec(bits: u32) -> (cleared: u32)
    ensures
        cleared == cleared_flags(bits),
{
    rustix::io::FdFlags::from_bits_retain(bits).difference(rustix::io::FdFlags::CLOEXEC).bits()
}

/// The flags that descriptors had before close-on-exec was cleared, in the order
/// in which it was.
#[derive(Debug)]
pub struct FdFlagsGuard {
    pub originals: Vec<(i32, u32)>,
}

impl FdFlagsGuard {
    /// Nothing cleared yet.
    pub fn new() -> (g: FdFlagsGuard)
        ensures
            g.originals@.len() == 0,
    {
        FdFlagsGuard { originals: Vec::new() }
    }

    /// Note the flags that `fd` has and give the ones to set in their place.
    pub fn clear_cloexec(&mut self, fd: i32, flags: u32) -> (to_set: u32)
        ensures
            to_set == cleared_flags(flags),
            final(self).originals@ == old(self).originals@.push((fd, flags)),
    {
        self.originals.push((fd, flags));
        without_cloexec(flags)
    }

    /// The flags to set again, the last cleared first.
    pub fn restore_order(&self) -> (plan: Vec<(i32, u32)>)
        ensures
            plan@ == self.originals@.reverse(),
    {
        let mut plan: Vec<(i32, u32)> = Vec::new();
        let mut i: usize = self.originals.len();
        while i > 0
            invariant
                i <= self.originals.len(),
                plan@.len() == self.originals.len() - i,
                forall|j: int|
                    0 <= j < plan@.len() ==> #[trigger] plan@[j]
                        == self.originals@[self.originals@.len() - 1 - j],
            decreases i,
        {
            i = i - 1;
            plan.push(self.originals[i]);
        }
        proof {
            assert(plan@ =~= self.originals@.reverse());
        }
        plan
    }
}

/// The flags of every open descriptor.
pub type FlagTable = Map<i32, u32>;

/// The descriptors' flags, and the guard's notes, after clearing some of them in
/// order. Each step tells whether setting the new flags took effect; the note is
/// made either way.
pub open spec fn after_clearing(table: FlagTable, steps: Seq<(i32, bool)>) -> (
    FlagTable,
    Seq<(i32, u32)>,
)
    decreases steps.len(),
{
    if steps.len() == 0 {
        (table, Seq::empty())
    } else {
        let before = after_clearing(table, steps.drop_last());
        let fd = steps.last().0;
        let flags = before.0[fd];
        (
            if steps.last().1 {
                before.0.insert(fd, cleared_flags(flags))
            } else {
                before.0
            },
            before.1.push((fd, flags)),
        )
    }
}

/// The descriptors' flags after setting the noted ones in order.
pub open spec fn after_setting(table: FlagTable, plan: Seq<(i32, u32)>) -> FlagTable
    decreases plan.len(),
{
    if plan.len() == 0 {
        table
    } else {
        after_setting(table.insert(plan[0].0, plan[0].1), plan.drop_first())
    }
}

/// Restoring undoes clearing: whichever descriptors were cleared, however often
/// and however far it got, setting the noted flags again in reverse order gives
/// every descriptor the flags it had.
pub proof fn law_restoring_undoes_clearing(table: FlagTable, steps: Seq<(i32, bool)>)
    requires
        forall|i: int| 0 <= i < steps.len() ==> table.contains_key((#[trigger] steps[i]).0),
    ensures
        after_setting(
            after_clearing(table, steps).0,
            after_clearing(table, steps).1.reverse(),
        ) == table,
        after_clearing(table, steps).0.dom() == table.dom(),
    decreases steps.len(),
{
    if steps.len() > 0 {
        let rest = steps.drop_last();
        assert forall|i: int| 0 <= i < rest.len() implies table.contains_key(
            (#[trigger] rest[i]).0,
        ) by {
            assert(rest[i] == steps[i]);
        }
        law_restoring_undoes_clearing(table, rest);
        let before = after_clearing(table, rest);
        let after = after_clearing(table, steps);
        let fd = steps.last().0;
        assert(table.contains_key(steps[steps.len() - 1].0));
        assert(before.0.contains_key(fd));
        let plan = after.1.reverse();
        assert(plan[0] == (fd, before.0[fd]));
        assert(plan.drop_first() =~= before.1.reverse());
        assert(after.0.insert(fd, before.0[fd]) =~= before.0);
        assert(after.0.dom() =~= table.dom());
    } else {
        assert(after_clearing(table, steps).1.reverse() =~= Seq::<(i32, u32)>::empty());
    }
}

/// The run's notes are those of clearing these descriptors, in this order, where
/// `table` held the descriptors' flags before the first step.
pub open spec fn keeps_track(run: UpgradeRun, table: FlagTable, steps: Seq<(i32, bool)>) -> bool {
    &&& run.guard.originals@ == after_clearing(table, steps).1
    &&& forall|i: int| 0 <= i < steps.len() ==> table.contains_key((#[trigger] steps[i]).0)
}

/// A run that has noted nothing keeps track of any table, with no step taken.
pub proof fn law_an_untouched_run_keeps_track(run: UpgradeRun, table: FlagTable)
    requires
        run.guard.originals@.len() == 0,
    ensures
        keeps_track(run, table, Seq::empty()),
        after_clearing(table, Seq::empty()).0 == table,
{
    assert(run.guard.originals@ =~= Seq::<(i32, u32)>::empty());
}

/// Noting the flags that the next descriptor has keeps track of the table,
/// whether or not setting the cleared ones takes effect.
pub proof fn law_noting_flags_keeps_track(
    before: UpgradeRun,
    after: UpgradeRun,
    table: FlagTable,
    steps: Seq<(i32, bool)>,
    fd: i32,
    took: bool,
)
    requires
        keeps_track(before, table, steps),
        table.contains_key(fd),
        after.guard.originals@ == before.guard.originals@.push(
            (fd, after_clearing(table, steps).0[fd]),
        ),
    ensures
        keeps_track(after, table, steps.push((fd, took))),
        after_clearing(table, steps.push((fd, took))).0 == (if took {
            after_clearing(table, steps).0.insert(
                fd,
                cleared_flags(after_clearing(table, steps).0[fd]),
            )
        } else {
            after_clearing(table, steps).0
        }),
{
    let more = steps.push((fd, took));
    assert(more.drop_last() =~= steps);
    assert forall|i: int| 0 <= i < more.len() implies table.contains_key(
        (#[trigger] more[i]).0,
    ) by {
        if i < steps.len() {
            assert(more[i] == steps[i]);
        }
    }
}

/// Whenever an upgrade is given up, setting the flags that its run has noted, the
/// last first, gives every descriptor the flags it had before the upgrade.
pub proof fn law_giving_up_restores_every_flag(
    run: UpgradeRun,
    table: FlagTable,
    steps: Seq<(i32, bool)>,
)
    requires
        keeps_track(run, table, steps),
    ensures
        after_setting(after_clearing(table, steps).0, run.guard.originals@.reverse()) == table,
{
    law_restoring_undoes_clearing(table, steps);
}

/// How far preparing an upgrade has got.
#[derive(Debug, Clone, Copy, PartialEq, Eq, Structural)]
pub enum UpgradePhase {
    /// Asking each pane to hand over.
    Collecting,
    /// Making the handoff blob.
    Assembling,
    /// Putting the blob into an inheritable file.
    Staging,
    /// Trying out the binary on disk.
    Validating,
    /// Clearing close-on-exec on what the new image inherits.
    Clearing,
    /// Everything is ready for the exec.
    Ready,
    /// Something failed; the old image goes on.
    Aborted,
}

/// What to do next.
#[derive(Debug, Clone, Copy, PartialEq, Eq, Structural)]
pub enum UpgradeAction {
    /// Ask this pane to hand over, within [`PANE_HANDOFF_TIMEOUT`].
    AskPane(TerminalId),
    AssembleBlob,
    StageBlob,
    ValidateBinary,
    /// Read this descriptor's flags and clear close-on-exec.
    ClearFlags(i32),
    /// Tell the client and replace the process.
    Exec,
    /// Restore the noted flags and go on serving.
    Restore,
}

/// The preparation of an upgrade.
#[derive(Debug)]
pub struct UpgradeRun {
    pub phase: UpgradePhase,
    pub panes: Vec<TerminalId>,
    /// How many panes have handed over.
    pub collected: usize,
    pub listener_fd: i32,
    /// The panes' own descriptors, known once the blob is assembled.
    pub masters: Vec<i32>,
    /// What the new image inherits, known once the blob is staged.
    pub inherited: Vec<i32>,
    pub validated: bool,
    pub guard: FdFlagsGuard,
}

/// The descriptors that pane records name.
pub open spec fn named_fds(masters: Seq<Option<i32>>) -> Seq<i32>
    decreases masters.len(),
{
    if masters.len() == 0 {
        Seq::empty()
    } else {
        match masters.last() {
            Some(fd) => named_fds(masters.drop_last()).push(fd),
            None => named_fds(masters.drop_last()),
        }
    }
}

impl UpgradeRun {
    /// No descriptor is touched before the binary was validated; what was
    /// cleared is a beginning of what the new image inherits, and all of it once
    /// the upgrade is ready.
    pub open spec fn wf(self) -> bool {
        &&& self.guard.originals@.len() > 0 ==> self.validated
        &&& self.phase == UpgradePhase::Collecting ==> self.collected < self.panes@.len()
        &&& self.phase != UpgradePhase::Collecting && self.phase != UpgradePhase::Aborted
            ==> self.collected == self.panes@.len()
        &&& (self.phase == UpgradePhase::Clearing || self.phase == UpgradePhase::Ready)
            ==> self.validated
        &&& (self.phase == UpgradePhase::Collecting || self.phase == UpgradePhase::Assembling
            || self.phase == UpgradePhase::Staging || self.phase == UpgradePhase::Validating)
            ==> !self.validated
        &&& self.phase == UpgradePhase::Validating ==> self.inherited@.len() > 0
        &&& self.guard.originals@.len() <= self.inherited@.len()
        &&& forall|i: int|
            0 <= i < self.guard.originals@.len() ==> (#[trigger] self.guard.originals@[i]).0
                == self.inherited@[i]
        &&& self.phase == UpgradePhase::Clearing ==> self.guard.originals@.len()
            < self.inherited@.len()
        &&& self.phase == UpgradePhase::Ready ==> self.guard.originals@.len()
            == self.inherited@.len()
    }

    /// Start preparing: the server must be serving already.
    pub fn start(listener: Option<i32>, panes: Vec<TerminalId>) -> (r: Result<
        UpgradeRun,
        UpgradeError,
    >)
        ensures
            match listener {
                None => r matches Err(UpgradeError::NoContext),
                Some(fd) => r matches Ok(run) && {
                    &&& run.wf()
                    &&& run.phase == (if panes@.len() == 0 {
                        UpgradePhase::Assembling
                    } else {
                        UpgradePhase::Collecting
                    })
                    &&& run.panes@ == panes@
                    &&& run.collected == 0
                    &&& run.listener_fd == fd
                    &&& run.masters@.len() == 0
                    &&& run.inherited@.len() == 0
                    &&& !run.validated
                    &&& run.guard.originals@.len() == 0
                },
            },
    {
        match listener {
            None => Err(UpgradeError::NoContext),
            Some(fd) => {
                let phase = if panes.len() == 0 {
                    UpgradePhase::Assembling
                } else {
                    UpgradePhase::Collecting
                };
                Ok(
                    UpgradeRun {
                        phase,
                        panes,
                        collected: 0,
                        listener_fd: fd,
                        masters: Vec::new(),
                        inherited: Vec::new(),
                        validated: false,
                        guard: FdFlagsGuard::new(),
                    },
                )
            },
        }
    }

    /// What to do next.
    pub fn action(&self) -> (a: UpgradeAction)
        requires
            self.wf(),
        ensures
            a == match self.phase {
                UpgradePhase::Collecting => UpgradeAction::AskPane(
                    self.panes@[self.collected as int],
                ),
                UpgradePhase::Assembling => UpgradeAction::AssembleBlob,
                UpgradePhase::Staging => UpgradeAction::StageBlob,
                UpgradePhase::Validating => UpgradeAction::ValidateBinary,
                UpgradePhase::Clearing => UpgradeAction::ClearFlags(
                    self.inherited@[self.guard.originals@.len() as int],
                ),
                UpgradePhase::Ready => UpgradeAction::Exec,
                UpgradePhase::Aborted => UpgradeAction::Restore,
            },
    {
        match self.phase {
            UpgradePhase::Collecting => UpgradeAction::AskPane(self.panes[self.collected]),
            UpgradePhase::Assembling => UpgradeAction::AssembleBlob,
            UpgradePhase::Staging => UpgradeAction::StageBlob,
            UpgradePhase::Validating => UpgradeAction::ValidateBinary,
            UpgradePhase::Clearing => UpgradeAction::ClearFlags(
                self.inherited[self.guard.originals.len()],
            ),
            UpgradePhase::Ready => UpgradeAction::Exec,
            UpgradePhase::Aborted => UpgradeAction::Restore,
        }
    }

    /// Everything but the phase is as it was.
    pub open spec fn same_but_phase(self, other: UpgradeRun) -> bool {
        self == (UpgradeRun { phase: self.phase, ..other })
    }

    /// The pane that was asked has answered, or not. One that does not hand over
    /// aborts the upgrade.
    pub fn pane_answered<H>(&mut self, outcome: HandoffOutcome<H>) -> (r: Result<H, UpgradeError>)
        requires
            old(self).wf(),
            old(self).phase == UpgradePhase::Collecting,
        ensures
            final(self).wf(),
            match outcome {
                HandoffOutcome::Replied(h) => {
                    &&& r matches Ok(got) && got == h
                    &&& *final(self) == (UpgradeRun {
                        collected: (old(self).collected + 1) as usize,
                        phase: if old(self).collected + 1 == old(self).panes@.len() {
                            UpgradePhase::Assembling
                        } else {
                            UpgradePhase::Collecting
                        },
                        ..*old(self)
                    })
                },
                _ => {
                    let pane = old(self).panes@[old(self).collected as int];
                    &&& match outcome {
                        HandoffOutcome::MailboxClosed => fails_handoff(
                            r,
                            pane,
                            "actor mailbox closed"@,
                        ),
                        HandoffOutcome::ReplyDropped => fails_handoff(
                            r,
                            pane,
                            "actor dropped its reply"@,
                        ),
                        _ => fails_handoff(r, pane, "timed out"@),
                    }
                    &&& final(self).phase == UpgradePhase::Aborted
                    &&& final(self).same_but_phase(*old(self))
                },
            },
    {
        let pane = self.panes[self.collected];
        match request_pane_handoff(pane, outcome) {
            Ok(h) => {
                let total: usize = self.panes.len();
                self.collected = self.collected + 1;
                if self.collected == total {
                    self.phase = UpgradePhase::Assembling;
                }
                Ok(h)
            },
            Err(e) => {
                self.phase = UpgradePhase::Aborted;
                Err(e)
            },
        }
    }

    /// The blob is assembled; its pane records name these descriptors.
    pub fn blob_assembled(&mut self, masters: &Vec<Option<i32>>)
        requires
            old(self).wf(),
            old(self).phase == UpgradePhase::Assembling,
        ensures
            final(self).wf(),
            final(self).phase == UpgradePhase::Staging,
            final(self).masters@ == named_fds(masters@),
            *final(self) == (UpgradeRun {
                phase: UpgradePhase::Staging,
                masters: final(self).masters,
                ..*old(self)
            }),
    {
        let mut fds: Vec<i32> = Vec::new();
        let mut i: usize = 0;
        proof {
            assert(masters@.take(0) =~= Seq::<Option<i32>>::empty());
            assert(fds@ =~= named_fds(masters@.take(0)));
        }
        while i < masters.len()
            invariant
                i <= masters.len(),
                fds@ == named_fds(masters@.take(i as int)),
            decreases masters.len() - i,
        {
            proof {
                assert(masters@.take(i + 1).drop_last() =~= masters@.take(i as int));
                assert(masters@.take(i + 1).last() == masters@[i as int]);
            }
            match masters[i] {
                Some(fd) => {
                    fds.push(fd);
                },
                None => {},
            }
            i = i + 1;
        }
        proof {
            assert(masters@.take(i as int) =~= masters@);
        }
        self.masters = fds;
        self.phase = UpgradePhase::Staging;
    }

    /// The blob is staged in the file with this descriptor, or could not be. The
    /// new image inherits the blob, the listener and the panes, in that order.
    pub fn blob_staged(&mut self, staged: Result<i32, UpgradeError>) -> (r: Result<(), UpgradeError>)
        requires
            old(self).wf(),
            old(self).phase == UpgradePhase::Staging,
        ensures
            final(self).wf(),
            match staged {
                Ok(blob_fd) => {
                    &&& r is Ok
                    &&& final(self).inherited@ == seq![blob_fd, old(self).listener_fd]
                        + old(self).masters@
                    &&& *final(self) == (UpgradeRun {
                        phase: UpgradePhase::Validating,
                        inherited: final(self).inherited,
                        ..*old(self)
                    })
                },
                Err(e) => {
                    &&& r matches Err(f) && f == e
                    &&& final(self).phase == UpgradePhase::Aborted
                    &&& final(self).same_but_phase(*old(self))
                },
            },
    {
        match staged {
            Ok(blob_fd) => {
                let mut fds: Vec<i32> = Vec::new();
                fds.push(blob_fd);
                fds.push(self.listener_fd);
                let mut i: usize = 0;
                while i < self.masters.len()
                    invariant
                        i <= self.masters.len(),
                        *self == *old(self),
                        fds@ == seq![blob_fd, self.listener_fd] + self.masters@.take(i as int),
                    decreases self.masters.len() - i,
                {
                    fds.push(self.masters[i]);
                    proof {
                        assert(fds@ =~= seq![blob_fd, self.listener_fd] + self.masters@.take(i + 1));
                    }
                    i = i + 1;
                }
                proof {
                    assert(self.masters@.take(i as int) =~= self.masters@);
                }
                self.inherited = fds;
                self.phase = UpgradePhase::Validating;
                Ok(())
            },
            Err(e) => {
                self.phase = UpgradePhase::Aborted;
                Err(e)
            },
        }
    }

    /// The binary was tried out. A broken one aborts with no descriptor touched.
    pub fn binary_tried(&mut self, verdict: Result<(), UpgradeError>) -> (r: Result<(), UpgradeError>)
        requires
            old(self).wf(),
            old(self).phase == UpgradePhase::Validating,
        ensures
            final(self).wf(),
            r == verdict,
            match verdict {
                Ok(_) => *final(self) == (UpgradeRun {
                    phase: UpgradePhase::Clearing,
                    validated: true,
                    ..*old(self)
                }),
                Err(_) => {
                    &&& final(self).phase == UpgradePhase::Aborted
                    &&& final(self).same_but_phase(*old(self))
                },
            },
    {
        match verdict {
            Ok(_) => {
                self.validated = true;
                self.phase = UpgradePhase::Clearing;
            },
            Err(_) => {
                self.phase = UpgradePhase::Aborted;
            },
        }
        verdict
    }

    /// The next inherited descriptor's flags were read, or could not be: note
    /// them and give the flags to set, or abort.
    pub fn flags_read(&mut self, flags: Result<u32, String>) -> (r: Result<u32, UpgradeError>)
        requires
            old(self).wf(),
            old(self).phase == UpgradePhase::Clearing,
        ensures
            final(self).wf(),
            match flags {
                Ok(bits) => {
                    let fd = old(self).inherited@[old(self).guard.originals@.len() as int];
                    &&& r matches Ok(to_set) && to_set == cleared_flags(bits)
                    &&& final(self).guard.originals@ == old(self).guard.originals@.push((fd, bits))
                    &&& *final(self) == (UpgradeRun {
                        phase: if final(self).guard.originals@.len()
                            == old(self).inherited@.len() {
                            UpgradePhase::Ready
                        } else {
                            UpgradePhase::Clearing
                        },
                        guard: final(self).guard,
                        ..*old(self)
                    })
                    &&& forall|table: FlagTable, steps: Seq<(i32, bool)>, took: bool|
                        #![trigger keeps_track(*old(self), table, steps), steps.push((fd, took))]
                        keeps_track(*old(self), table, steps) && table.contains_key(fd)
                            && after_clearing(table, steps).0[fd] == bits ==> keeps_track(
                            *final(self),
                            table,
                            steps.push((fd, took)),
                        )
                },
                Err(why) => {
                    &&& r matches Err(UpgradeError::Io(m)) && m == why
                    &&& final(self).phase == UpgradePhase::Aborted
                    &&& final(self).same_but_phase(*old(self))
                },
            },
    {
        match flags {
            Ok(bits) => {
                let fd = self.inherited[self.guard.originals.len()];
                let to_set = self.guard.clear_cloexec(fd, bits);
                if self.guard.originals.len() == self.inherited.len() {
                    self.phase = UpgradePhase::Ready;
                }
                proof {
                    assert forall|table: FlagTable, steps: Seq<(i32, bool)>, took: bool|
                        #![trigger keeps_track(*old(self), table, steps), steps.push((fd, took))]
                        keeps_track(*old(self), table, steps) && table.contains_key(fd)
                            && after_clearing(table, steps).0[fd] == bits implies keeps_track(
                        *self,
                        table,
                        steps.push((fd, took)),
                    ) by {
                        law_noting_flags_keeps_track(*old(self), *self, table, steps, fd, took);
                    }
                }
                Ok(to_set)
            },
            Err(why) => {
                self.phase = UpgradePhase::Aborted;
                Err(UpgradeError::Io(why))
            },
        }
    }

    /// Setting the flags just given failed: abort. They are noted and will be
    /// restored.
    pub fn set_failed(&mut self, why: String) -> (e: UpgradeError)
        requires
            old(self).wf(),
        ensures
            final(self).wf(),
            e matches UpgradeError::Io(m) && m == why,
            final(self).phase == UpgradePhase::Aborted,
            final(self).same_but_phase(*old(self)),
    {
        self.phase = UpgradePhase::Aborted;
        UpgradeError::Io(why)
    }
}

/// The flags of descriptors are touched only after the binary was validated: as
/// long as it was not, there is nothing to restore.
pub proof fn law_flags_are_untouched_before_validation(run: UpgradeRun)
    requires
        run.wf(),
        !run.validated,
    ensures
        run.guard.originals@.len() == 0,
        run.phase != UpgradePhase::Clearing && run.phase != UpgradePhase::Ready,
{
}

/// A ready upgrade has cleared exactly what the new image inherits.
pub proof fn law_a_ready_upgrade_passes_everything_on(run: UpgradeRun, i: int)
    requires
        run.wf(),
        run.phase == UpgradePhase::Ready,
        0 <= i < run.inherited@.len(),
    ensures
        run.guard.originals@.len() == run.inherited@.len(),
        run.guard.originals@[i].0 == run.inherited@[i],
{
}

} // verus!
