use femboylose::closing::{
    begin_close_csgo, close_csgo_if_running, wide_null, CloseAction, CloseEvent, CloseStage,
};

fn run(events: &[CloseEvent]) -> Vec<CloseAction> {
    let (mut stage, first) = begin_close_csgo();
    let mut actions = vec![first];
    for e in events {
        let (next, action) = close_csgo_if_running(stage, *e);
        stage = next;
        actions.push(action);
    }
    actions
}

#[test]
fn no_window_nothing_to_do() {
    let a = run(&[CloseEvent::WindowSearched { found: false }]);
    assert_eq!(a, vec![CloseAction::FindWindow, CloseAction::Finish]);
}

#[test]
fn process_exits_after_close_message() {
    let a = run(&[
        CloseEvent::WindowSearched { found: true },
        CloseEvent::ClosePosted { process_id: 42 },
        CloseEvent::ProcessOpened { opened: true },
        CloseEvent::ExitWaited { exited: true },
        CloseEvent::Completed,
        CloseEvent::Completed,
    ]);
    assert_eq!(
        a,
        vec![
            CloseAction::FindWindow,
            CloseAction::PostCloseAndReadProcessId,
            CloseAction::OpenProcess { process_id: 42 },
            CloseAction::WaitForExit { millis: 3500 },
            CloseAction::CloseHandle,
            CloseAction::Sleep { millis: 700 },
            CloseAction::Finish,
        ]
    );
}

#[test]
fn stuck_process_is_terminated() {
    let a = run(&[
        CloseEvent::WindowSearched { found: true },
        CloseEvent::ClosePosted { process_id: 7 },
        CloseEvent::ProcessOpened { opened: true },
        CloseEvent::ExitWaited { exited: false },
        CloseEvent::Completed,
        CloseEvent::Completed,
        CloseEvent::Completed,
    ]);
    assert_eq!(
        a[4..],
        [
            CloseAction::TerminateAndWait { millis: 2000 },
            CloseAction::CloseHandle,
            CloseAction::Sleep { millis: 700 },
            CloseAction::Finish,
        ]
    );
}

#[test]
fn unknown_process_or_unopenable_waits_longer() {
    let a = run(&[
        CloseEvent::WindowSearched { found: true },
        CloseEvent::ClosePosted { process_id: 0 },
        CloseEvent::Completed,
    ]);
    assert_eq!(a[2..], [CloseAction::Sleep { millis: 1400 }, CloseAction::Finish]);
    let a = run(&[
        CloseEvent::WindowSearched { found: true },
        CloseEvent::ClosePosted { process_id: 9 },
        CloseEvent::ProcessOpened { opened: false },
        CloseEvent::Completed,
    ]);
    assert_eq!(a[3..], [CloseAction::Sleep { millis: 1400 }, CloseAction::Finish]);
}

#[test]
fn out_of_order_report_still_releases_handle() {
    let (s, a) = close_csgo_if_running(CloseStage::WaitingForExit, CloseEvent::Completed);
    assert_eq!((s, a), (CloseStage::ReleasingHandle, CloseAction::CloseHandle));
    let (s, a) = close_csgo_if_running(CloseStage::FindingWindow, CloseEvent::Completed);
    assert_eq!((s, a), (CloseStage::Finished, CloseAction::Finish));
}

#[test]
fn machine_always_ends_within_eight_actions() {
    let events = [
        CloseEvent::WindowSearched { found: true },
        CloseEvent::ClosePosted { process_id: 3 },
        CloseEvent::ProcessOpened { opened: true },
        CloseEvent::ExitWaited { exited: false },
        CloseEvent::Completed,
    ];
    let (mut stage, _) = begin_close_csgo();
    let mut steps = 0;
    let mut i = 0;
    while stage != CloseStage::Finished {
        let e = events[i % events.len()];
        stage = close_csgo_if_running(stage, e).0;
        steps += 1;
        i += 1;
    }
    assert!(steps <= 7);
}

#[test]
fn window_class_as_wide_string() {
    let w = wide_null("Valve001");
    let expected: Vec<u16> = "Valve001".encode_utf16().chain(std::iter::once(0)).collect();
    assert_eq!(w, expected);
    assert_eq!(wide_null("a😀"), vec![0x61, 0xD83D, 0xDE00, 0]);
    assert_eq!(wide_null(""), vec![0]);
}
