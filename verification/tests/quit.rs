use reflect_tui::chat_helpers::{KeyBinding, KeyName};
use reflect_tui::quit_shortcut::{
    on_ctrl_c, on_ctrl_d, should_pause_active_goal, CtrlCFacts, CtrlDFacts, QuitHint, QuitShortcut,
};

fn ctrl(c: char) -> KeyBinding {
    KeyBinding { key: KeyName::Char(c), shift: false, alt: false, ctrl: true }
}

fn ctrl_c_facts(now: u64) -> CtrlCFacts {
    CtrlCFacts {
        double_press_enabled: true,
        modal_open_before: false,
        view_interrupts_turn: false,
        pane_handled: false,
        modal_open_after: false,
        cancellable_work: false,
        now,
        arm_expiry: now + 1000,
    }
}

fn ctrl_d_facts(now: u64) -> CtrlDFacts {
    CtrlDFacts { double_press_enabled: true, composer_empty: true, no_modal_or_popup: true, now, arm_expiry: now + 1000 }
}

#[test]
fn first_ctrl_c_arms_and_second_quits() {
    let s = QuitShortcut::new();
    let first = on_ctrl_c(s, ctrl_c_facts(10));
    assert!(!first.quit);
    assert_eq!(first.shortcut, QuitShortcut { key: Some(ctrl('c')), expires_at: Some(1010) });
    assert_eq!(first.hint, QuitHint::Show(ctrl('c')));
    assert!(first.shortcut.quit_shortcut_active_for(ctrl('c'), 500));
    assert!(!first.shortcut.quit_shortcut_active_for(ctrl('d'), 500));
    let second = on_ctrl_c(first.shortcut, ctrl_c_facts(500));
    assert!(second.quit);
    assert_eq!(second.shortcut, QuitShortcut::new());
}

#[test]
fn late_second_ctrl_c_rearms() {
    let first = on_ctrl_c(QuitShortcut::new(), ctrl_c_facts(10));
    assert!(!first.shortcut.quit_shortcut_active_for(ctrl('c'), 1010));
    let second = on_ctrl_c(first.shortcut, ctrl_c_facts(1010));
    assert!(!second.quit);
    assert_eq!(second.shortcut, QuitShortcut { key: Some(ctrl('c')), expires_at: Some(2010) });
}

#[test]
fn ctrl_c_interrupts_running_work_while_arming() {
    let out = on_ctrl_c(QuitShortcut::new(), CtrlCFacts { cancellable_work: true, ..ctrl_c_facts(0) });
    assert!(out.interrupt);
    assert!(!out.quit);
    let single = CtrlCFacts { double_press_enabled: false, cancellable_work: true, ..ctrl_c_facts(0) };
    let out = on_ctrl_c(QuitShortcut::new(), single);
    assert!(out.interrupt);
    assert_eq!(out.hint, QuitHint::Clear);
    let out = on_ctrl_c(QuitShortcut::new(), CtrlCFacts { cancellable_work: false, ..single });
    assert!(out.quit);
    assert!(!out.interrupt);
}

#[test]
fn ctrl_c_handled_by_pane() {
    let handled = CtrlCFacts {
        pane_handled: true,
        modal_open_before: true,
        modal_open_after: false,
        view_interrupts_turn: true,
        ..ctrl_c_facts(0)
    };
    let armed = QuitShortcut { key: Some(ctrl('c')), expires_at: Some(100) };
    let out = on_ctrl_c(armed, handled);
    assert!(!out.quit);
    assert_eq!(out.shortcut, QuitShortcut::new());
    assert_eq!(out.hint, QuitHint::Clear);
    assert!(out.pause_goal);
    assert!(out.modal_closed);
    let out = on_ctrl_c(QuitShortcut::new(), CtrlCFacts { modal_open_before: false, ..handled });
    assert_eq!(out.hint, QuitHint::Show(ctrl('c')));
    assert!(!out.modal_closed);
}

#[test]
fn ctrl_d_quits_only_from_an_idle_composer() {
    let busy = CtrlDFacts { composer_empty: false, ..ctrl_d_facts(0) };
    let out = on_ctrl_d(QuitShortcut::new(), busy);
    assert!(!out.handled);
    assert!(!out.quit);
    let first = on_ctrl_d(QuitShortcut::new(), ctrl_d_facts(0));
    assert!(first.handled);
    assert!(!first.quit);
    assert_eq!(first.hint, QuitHint::Show(ctrl('d')));
    // The second press quits even with text typed meanwhile.
    let second = on_ctrl_d(first.shortcut, CtrlDFacts { composer_empty: false, ..ctrl_d_facts(5) });
    assert!(second.quit);
    let single = on_ctrl_d(QuitShortcut::new(), CtrlDFacts { double_press_enabled: false, ..ctrl_d_facts(0) });
    assert!(single.quit);
}

#[test]
fn ctrl_d_does_not_use_a_ctrl_c_shortcut() {
    let first = on_ctrl_c(QuitShortcut::new(), ctrl_c_facts(0));
    let out = on_ctrl_d(first.shortcut, ctrl_d_facts(1));
    assert!(!out.quit);
    assert_eq!(out.shortcut, QuitShortcut { key: Some(ctrl('d')), expires_at: Some(1001) });
}

#[test]
fn interrupt_pauses_only_an_active_goal() {
    assert!(should_pause_active_goal(true, true, true));
    assert!(!should_pause_active_goal(false, true, true));
    assert!(!should_pause_active_goal(true, false, true));
    assert!(!should_pause_active_goal(true, true, false));
}
