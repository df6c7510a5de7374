use phux_core_logic::layout::TerminalId;
use phux_core_logic::upgrade::{
    request_pane_handoff, resume_args, validate_binary, FdFlagsGuard, HandoffOutcome, IdleSpan,
    ResumeArg, RuntimeFlags, UpgradeAction, UpgradeError, UpgradePhase, UpgradeRun,
};
use rustix::fd::AsRawFd;
use rustix::io::{fcntl_getfd, fcntl_setfd, FdFlags};

const WS: &str = "127.0.0.1:8787";
const QUIC: &str = "0.0.0.0:4433";
const WT: &str = "0.0.0.0:4434";

fn flags(ws: Option<&str>, quic: Option<&str>, wt: Option<&str>, hub: bool) -> RuntimeFlags {
    RuntimeFlags {
        ws_addr: ws.map(str::to_owned),
        quic_addr: quic.map(str::to_owned),
        wt_addr: wt.map(str::to_owned),
        connect: None,
        hub,
        exit_after_idle: None,
    }
}

fn args_as_strings(flags: RuntimeFlags) -> Vec<String> {
    resume_args(7, "/run/phux/phux.sock", &flags)
        .into_iter()
        .map(|a| match a {
            ResumeArg::Text(text) => text,
            ResumeArg::Path(path) => path.to_owned(),
        })
        .collect()
}

const BASE: [&str; 5] = ["server", "--resume", "7", "--socket", "/run/phux/phux.sock"];

fn base() -> Vec<String> {
    BASE.iter().map(ToString::to_string).collect()
}

#[test]
fn resume_args_reconstructs_every_flag_combination() {
    type Case<'a> = (Option<&'a str>, Option<&'a str>, Option<&'a str>, bool, &'a [&'a str]);
    let cases: [Case<'_>; 16] = [
        (None, None, None, false, &[]),
        (Some(WS), None, None, false, &["--listen", WS]),
        (None, Some(QUIC), None, false, &["--quic", QUIC]),
        (None, None, Some(WT), false, &["--webtransport", WT]),
        (None, None, None, true, &["--hub"]),
        (Some(WS), Some(QUIC), None, false, &["--listen", WS, "--quic", QUIC]),
        (Some(WS), None, Some(WT), false, &["--listen", WS, "--webtransport", WT]),
        (Some(WS), None, None, true, &["--listen", WS, "--hub"]),
        (None, Some(QUIC), Some(WT), false, &["--quic", QUIC, "--webtransport", WT]),
        (None, Some(QUIC), None, true, &["--quic", QUIC, "--hub"]),
        (None, None, Some(WT), true, &["--webtransport", WT, "--hub"]),
        (
            Some(WS),
            Some(QUIC),
            Some(WT),
            false,
            &["--listen", WS, "--quic", QUIC, "--webtransport", WT],
        ),
        (Some(WS), Some(QUIC), None, true, &["--listen", WS, "--quic", QUIC, "--hub"]),
        (Some(WS), None, Some(WT), true, &["--listen", WS, "--webtransport", WT, "--hub"]),
        (None, Some(QUIC), Some(WT), true, &["--quic", QUIC, "--webtransport", WT, "--hub"]),
        (
            Some(WS),
            Some(QUIC),
            Some(WT),
            true,
            &["--listen", WS, "--quic", QUIC, "--webtransport", WT, "--hub"],
        ),
    ];
    for (ws, quic, wt, hub, extra) in cases {
        let mut expected = base();
        expected.extend(extra.iter().map(ToString::to_string));
        assert_eq!(
            args_as_strings(flags(ws, quic, wt, hub)),
            expected,
            "argv mismatch for ws={ws:?} quic={quic:?} wt={wt:?} hub={hub}",
        );
    }
}

#[test]
fn resume_args_default_flags_add_nothing() {
    assert_eq!(args_as_strings(RuntimeFlags::default()), BASE);
}

#[test]
fn resume_args_preserves_ad_hoc_connector() {
    let flags = RuntimeFlags {
        connect: Some("relay.example:4433".to_owned()),
        ..RuntimeFlags::default()
    };
    let mut expected = base();
    expected.extend(["--connect".to_owned(), "relay.example:4433".to_owned()]);
    assert_eq!(args_as_strings(flags), expected);
}

#[test]
fn resume_args_preserves_ephemeral_lifetime() {
    let flags = RuntimeFlags {
        exit_after_idle: Some(IdleSpan { secs: 90, nanos: 0 }),
        ..RuntimeFlags::default()
    };
    let mut expected = base();
    expected.extend(["--exit-after-idle".to_owned(), "90".to_owned()]);
    assert_eq!(args_as_strings(flags), expected);
}

#[test]
fn resume_args_rounds_sub_second_lifetime_up() {
    let flags = RuntimeFlags {
        exit_after_idle: Some(IdleSpan { secs: 0, nanos: 300_000_000 }),
        ..RuntimeFlags::default()
    };
    let mut expected = base();
    expected.extend(["--exit-after-idle".to_owned(), "1".to_owned()]);
    assert_eq!(args_as_strings(flags), expected);
}

#[test]
fn a_negative_descriptor_keeps_its_sign() {
    let args = resume_args(-1, (), &RuntimeFlags::default());
    assert_eq!(args[2], ResumeArg::Text("-1".to_owned()));
    assert_eq!(args[4], ResumeArg::Path(()));
    let args = resume_args(i32::MIN, (), &RuntimeFlags::default());
    assert_eq!(args[2], ResumeArg::Text("-2147483648".to_owned()));
}

#[test]
fn descriptor_guard_restores_flags_after_partial_prepare_failure() {
    let file = tempfile::tempfile().unwrap();
    let fd = file.as_raw_fd();
    let original = fcntl_getfd(&file).unwrap().union(FdFlags::CLOEXEC);
    fcntl_setfd(&file, original).unwrap();

    let mut guard = FdFlagsGuard::new();
    let cleared = guard.clear_cloexec(fd, fcntl_getfd(&file).unwrap().bits());
    fcntl_setfd(&file, FdFlags::from_bits_retain(cleared)).unwrap();
    assert!(!fcntl_getfd(&file).unwrap().contains(FdFlags::CLOEXEC));
    // The next descriptor fails before it is noted, so only this one is owed.
    let plan = guard.restore_order();
    assert_eq!(plan, vec![(fd, original.bits())]);
    for (_, bits) in plan {
        fcntl_setfd(&file, FdFlags::from_bits_retain(bits)).unwrap();
    }

    assert_eq!(fcntl_getfd(&file).unwrap(), original);
}

#[test]
fn exec_failure_restores_original_descriptor_flags() {
    let listener = tempfile::tempfile().unwrap();
    let blob = tempfile::tempfile().unwrap();
    let original = fcntl_getfd(&listener).unwrap().union(FdFlags::CLOEXEC);
    fcntl_setfd(&listener, original).unwrap();

    let mut guard = FdFlagsGuard::new();
    for file in [&blob, &listener] {
        let bits = fcntl_getfd(file).unwrap().bits();
        let cleared = guard.clear_cloexec(file.as_raw_fd(), bits);
        fcntl_setfd(file, FdFlags::from_bits_retain(cleared)).unwrap();
    }
    assert!(!fcntl_getfd(&listener).unwrap().contains(FdFlags::CLOEXEC));
    // The exec came back: everything is set as it was, the last cleared first.
    let plan = guard.restore_order();
    assert_eq!(plan[0].0, listener.as_raw_fd());
    assert_eq!(plan[1].0, blob.as_raw_fd());
    for (fd, bits) in plan {
        let file = if fd == blob.as_raw_fd() { &blob } else { &listener };
        fcntl_setfd(file, FdFlags::from_bits_retain(bits)).unwrap();
    }
    assert_eq!(fcntl_getfd(&listener).unwrap(), original);
}

#[test]
fn clearing_the_same_descriptor_twice_is_undone_in_order() {
    let mut guard = FdFlagsGuard::new();
    assert_eq!(guard.clear_cloexec(3, 0b111), 0b110);
    assert_eq!(guard.clear_cloexec(3, 0b110), 0b110);
    assert_eq!(guard.restore_order(), vec![(3, 0b110), (3, 0b111)]);
}

#[test]
fn a_silent_pane_aborts_with_its_reason() {
    let pane = TerminalId::local(4);
    let reason = |outcome: HandoffOutcome<u8>| match request_pane_handoff(pane, outcome) {
        Err(UpgradeError::PaneHandoff { pane: p, reason }) => {
            assert_eq!(p, pane);
            reason
        }
        _ => panic!("expected a handoff error"),
    };
    assert_eq!(reason(HandoffOutcome::MailboxClosed), "actor mailbox closed");
    assert_eq!(reason(HandoffOutcome::ReplyDropped), "actor dropped its reply");
    assert_eq!(reason(HandoffOutcome::TimedOut), "timed out");
    assert!(matches!(request_pane_handoff(pane, HandoffOutcome::Replied(9u8)), Ok(9)));
}

#[test]
fn errors_name_what_failed() {
    assert_eq!(
        UpgradeError::NoContext.message(),
        "server not ready for upgrade (no listener context)"
    );
    assert_eq!(UpgradeError::Blob("x".to_owned()).message(), "serialize handoff blob: x");
    assert_eq!(UpgradeError::Io("x".to_owned()).message(), "upgrade io: x");
    let broken = validate_binary("/bin/phux", false, "exit status: 2").unwrap_err();
    assert_eq!(
        broken.message(),
        "new binary failed validation: `/bin/phux --version` exited with exit status: 2"
    );
    assert!(validate_binary("/bin/phux", true, "exit status: 0").is_ok());
    let pane = TerminalId::local(12);
    assert_eq!(
        UpgradeError::PaneHandoff { pane, reason: "timed out" }.message(),
        format!("pane {pane:?} did not provide an upgrade handoff: timed out")
    );
}

fn started() -> UpgradeRun {
    UpgradeRun::start(Some(5), vec![TerminalId::local(1), TerminalId::local(2)]).unwrap()
}

#[test]
fn an_upgrade_is_prepared_step_by_step() {
    assert!(matches!(
        UpgradeRun::start(None, Vec::new()),
        Err(UpgradeError::NoContext)
    ));
    let mut run = started();
    for id in [1, 2] {
        assert_eq!(run.action(), UpgradeAction::AskPane(TerminalId::local(id)));
        run.pane_answered(HandoffOutcome::Replied(())).unwrap();
    }
    assert_eq!(run.action(), UpgradeAction::AssembleBlob);
    run.blob_assembled(&vec![Some(9), None, Some(11)]);
    assert_eq!(run.action(), UpgradeAction::StageBlob);
    run.blob_staged(Ok(7)).unwrap();
    assert_eq!(run.action(), UpgradeAction::ValidateBinary);
    assert!(run.guard.originals.is_empty(), "nothing is touched before validation");
    run.binary_tried(Ok(())).unwrap();
    for fd in [7, 5, 9, 11] {
        assert_eq!(run.action(), UpgradeAction::ClearFlags(fd));
        assert_eq!(run.flags_read(Ok(1)).unwrap(), 0);
    }
    assert_eq!(run.action(), UpgradeAction::Exec);
    assert_eq!(run.guard.restore_order(), vec![(11, 1), (9, 1), (5, 1), (7, 1)]);
}

#[test]
fn an_upgrade_aborts_at_the_first_failure() {
    let mut run = started();
    assert!(run.masters.is_empty());
    assert!(run.pane_answered::<()>(HandoffOutcome::TimedOut).is_err());
    assert_eq!(run.action(), UpgradeAction::Restore);

    let why = |outcome: HandoffOutcome<()>| match started().pane_answered(outcome) {
        Err(UpgradeError::PaneHandoff { pane, reason }) => {
            assert_eq!(pane, TerminalId::local(1));
            reason
        },
        _ => panic!("a pane that does not hand over aborts"),
    };
    assert_eq!(why(HandoffOutcome::MailboxClosed), "actor mailbox closed");
    assert_eq!(why(HandoffOutcome::ReplyDropped), "actor dropped its reply");
    assert_eq!(why(HandoffOutcome::TimedOut), "timed out");

    let mut run = UpgradeRun::start(Some(5), Vec::new()).unwrap();
    assert_eq!(run.phase, UpgradePhase::Assembling);
    run.blob_assembled(&Vec::new());
    assert!(run.blob_staged(Err(UpgradeError::Io("disk full".to_owned()))).is_err());
    assert_eq!(run.phase, UpgradePhase::Aborted);

    let mut run = UpgradeRun::start(Some(5), Vec::new()).unwrap();
    run.blob_assembled(&Vec::new());
    run.blob_staged(Ok(7)).unwrap();
    assert!(run.binary_tried(Err(UpgradeError::Validation("broken".to_owned()))).is_err());
    assert!(run.guard.originals.is_empty());

    let mut run = UpgradeRun::start(Some(5), Vec::new()).unwrap();
    run.blob_assembled(&Vec::new());
    run.blob_staged(Ok(7)).unwrap();
    run.binary_tried(Ok(())).unwrap();
    run.flags_read(Ok(3)).unwrap();
    assert!(run.flags_read(Err("closed".to_owned())).is_err());
    assert_eq!(run.action(), UpgradeAction::Restore);
    assert_eq!(run.guard.restore_order(), vec![(7, 3)]);

    let mut run = UpgradeRun::start(Some(5), Vec::new()).unwrap();
    run.blob_assembled(&Vec::new());
    run.blob_staged(Ok(7)).unwrap();
    run.binary_tried(Ok(())).unwrap();
    run.flags_read(Ok(3)).unwrap();
    assert!(matches!(run.set_failed("denied".to_owned()), UpgradeError::Io(_)));
    assert_eq!(run.guard.restore_order(), vec![(7, 3)]);
}

#[test]
fn giving_up_midway_restores_every_flag() {
    let mut table = std::collections::BTreeMap::from([(5, 1u32), (7, 3), (9, 1)]);
    let before = table.clone();
    let mut run = UpgradeRun::start(Some(5), Vec::new()).unwrap();
    run.blob_assembled(&vec![Some(9), Some(5)]);
    run.blob_staged(Ok(7)).unwrap();
    run.binary_tried(Ok(())).unwrap();
    for takes_effect in [true, true, false] {
        let fd = match run.action() {
            UpgradeAction::ClearFlags(fd) => fd,
            other => panic!("{other:?}"),
        };
        let to_set = run.flags_read(Ok(table[&fd])).unwrap();
        if takes_effect {
            table.insert(fd, to_set);
        } else {
            run.set_failed("closed".to_owned());
        }
    }
    assert_ne!(table, before);
    assert_eq!(run.action(), UpgradeAction::Restore);
    for (fd, flags) in run.guard.restore_order() {
        table.insert(fd, flags);
    }
    assert_eq!(table, before);
}
