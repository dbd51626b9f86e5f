//! Getting the terminal back: the steps the library asks for, performed
//! against a terminal that only writes them down.

use yunzii_b75_tui::term::{setup_ops, undo_failed_setup, RestoreOnce, TermOp};

/// A terminal that records each operation, and can refuse the alternate
/// screen.
struct Fake {
    ops: Vec<TermOp>,
    fail_enter_alt: bool,
}

impl Fake {
    fn perform(&mut self, op: TermOp) -> Result<(), String> {
        if op == TermOp::EnterAlt && self.fail_enter_alt {
            return Err("no alternate screen".to_string());
        }
        self.ops.push(op);
        Ok(())
    }

    /// Sets the terminal up as a guard does: each step in turn, and on a
    /// failure the undoing of the steps before it.
    fn set_up(&mut self) -> Result<RestoreOnce, String> {
        for (i, op) in setup_ops().into_iter().enumerate() {
            if let Err(e) = self.perform(op) {
                for undo in undo_failed_setup(i) {
                    let _ = self.perform(undo);
                }
                return Err(e);
            }
        }
        Ok(RestoreOnce::new())
    }

    fn restore(&mut self, once: &mut RestoreOnce) {
        for op in once.restore() {
            let _ = self.perform(op);
        }
    }
}

#[test]
fn a_normal_run_restores_exactly_once() {
    let mut fake = Fake { ops: vec![], fail_enter_alt: false };
    let mut once = fake.set_up().unwrap();
    assert_eq!(fake.ops, vec![TermOp::EnableRaw, TermOp::EnterAlt]);
    fake.restore(&mut once);
    assert_eq!(
        fake.ops,
        vec![TermOp::EnableRaw, TermOp::EnterAlt, TermOp::LeaveAlt, TermOp::DisableRaw],
        "and it leaves the alternate screen before disabling raw mode"
    );
}

#[test]
fn restoring_twice_does_it_once() {
    let mut fake = Fake { ops: vec![], fail_enter_alt: false };
    let mut once = fake.set_up().unwrap();
    fake.restore(&mut once);
    fake.restore(&mut once);
    // And the drop after an explicit restore.
    fake.restore(&mut once);
    let ops = fake.ops.clone();
    assert_eq!(ops.iter().filter(|o| **o == TermOp::LeaveAlt).count(), 1, "got {ops:?}");
    assert_eq!(ops.iter().filter(|o| **o == TermOp::DisableRaw).count(), 1);
}

#[test]
fn a_failed_setup_undoes_what_it_managed() {
    let mut fake = Fake { ops: vec![], fail_enter_alt: true };
    let err = match fake.set_up() {
        Ok(_) => panic!("entering the alternate screen must fail here"),
        Err(e) => e,
    };
    assert_eq!(err, "no alternate screen");
    assert_eq!(
        fake.ops,
        vec![TermOp::EnableRaw, TermOp::DisableRaw],
        "raw mode must not be left on after a failed setup"
    );
}

#[test]
fn a_failed_first_step_has_nothing_to_undo() {
    assert!(undo_failed_setup(0).is_empty());
    assert_eq!(undo_failed_setup(1), vec![TermOp::DisableRaw]);
}
