use wordvm::executor::{keeps_running, next_action, report_of, ExecutorAction, ExecutorReport};
use wordvm::machine::{StepFatal, StepReport};
use wordvm::menu::MenuActive;
use wordvm::package::package;
use wordvm::sdlcore::{colour_channels, SdlDrawCommand, SdlKbdEvent, SdlMouseEvent, SdlTscrEvent};

#[test]
fn executor_reports() {
    assert_eq!(report_of(&Ok(StepReport { changed: Some(3), redraw: true })), Some(ExecutorReport::Redraw));
    assert_eq!(report_of(&Ok(StepReport { changed: Some(3), redraw: false })), None);
    let failed = report_of(&Err(StepFatal::Halted));
    assert_eq!(failed, Some(ExecutorReport::Failure { error: StepFatal::Halted }));
    assert!(!keeps_running(&failed));
    assert!(keeps_running(&Some(ExecutorReport::Redraw)));
    assert!(keeps_running(&None));
}

#[test]
fn menu_cycles() {
    assert_eq!(MenuActive::Watch.incr(), MenuActive::Assemble);
    assert_eq!(MenuActive::Assemble.decr(), MenuActive::Watch);
    assert_eq!(MenuActive::Run.incr(), MenuActive::Reset);
    let mut m = MenuActive::Load;
    for _ in 0..8 {
        m = m.incr();
    }
    assert_eq!(m, MenuActive::Load);
    assert_eq!(MenuActive::Steps.incr().decr(), MenuActive::Steps);
}

#[test]
fn colour_bytes_low_first() {
    assert_eq!(colour_channels(0x0000ff), (0xff, 0, 0));
    assert_eq!(colour_channels(0x123456), (0x56, 0x34, 0x12));
    let c = SdlDrawCommand { x1: 10, y1: 20, x2: 110, y2: 80, colour: 0x00ff00 };
    assert_eq!(c.channels(), (0, 0xff, 0));
    assert_eq!(c.rect(), (10, 20, 100, 60));
}

#[test]
fn default_events() {
    assert_eq!(SdlKbdEvent::default(), SdlKbdEvent { down: false, keycode: 0x61 });
    assert_eq!(SdlMouseEvent::default(), SdlMouseEvent::Motion { dx: 0, dy: 0 });
    assert_eq!(SdlTscrEvent::default(), SdlTscrEvent { x: 0, y: 0, pressed: false });
}

#[test]
fn package_starts_owned() {
    let (owner, borrower) = package(5u32);
    assert!(owner.is_owned());
    assert!(borrower.is_owned());
    owner.turnover();
    assert!(borrower.is_owned());
}

#[test]
fn executor_holds_lock_only_while_running() {
    assert_eq!(next_action(true, false), ExecutorAction::AcquireAndStep);
    assert_eq!(next_action(true, true), ExecutorAction::Step);
    assert_eq!(next_action(false, true), ExecutorAction::ReleaseAndWait);
    assert_eq!(next_action(false, false), ExecutorAction::Wait);
}
