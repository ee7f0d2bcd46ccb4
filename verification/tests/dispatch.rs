use command_framework::dispatch::{Action, Dispatch, Event, Outcome, Phase};
use command_framework::guard::AdmissionGuard;
use command_framework::hooks::{Hook, HookResult};

fn hooks(ids: &[u128]) -> Vec<Hook> {
    ids.iter().map(|u| Hook { uuid: *u }).collect()
}

#[test]
fn hooks_run_own_first_then_global() {
    let mut guard = AdmissionGuard::new();
    let mut d = Dispatch::new(&hooks(&[1, 2]), &hooks(&[3]), 42);
    assert_eq!(d.chain_len(), 3);
    assert_eq!(d.user(), 42);
    assert_eq!(d.phase(), Phase::Ready);
    assert_eq!(d.step(&mut guard, Event::Begin, 0), Action::RunHook(Hook { uuid: 1 }));
    assert_eq!(d.phase(), Phase::InHook(0));
    assert_eq!(
        d.step(&mut guard, Event::HookReturned(HookResult::Continue), 1),
        Action::RunHook(Hook { uuid: 2 })
    );
    assert_eq!(
        d.step(&mut guard, Event::HookReturned(HookResult::Continue), 2),
        Action::RunHook(Hook { uuid: 3 })
    );
    assert_eq!(d.step(&mut guard, Event::HookReturned(HookResult::Continue), 3), Action::RunBody);
    assert_eq!(d.phase(), Phase::InBody);
    assert!(guard.check_executing(42, 3));
    assert_eq!(d.step(&mut guard, Event::BodyFinished, 10), Action::Stop);
    assert_eq!(d.phase(), Phase::Done(Outcome::Completed));
    assert!(!guard.check_executing(42, 10));
}

#[test]
fn halt_at_second_of_three_hooks() {
    let mut guard = AdmissionGuard::new();
    let mut d = Dispatch::new(&hooks(&[11]), &hooks(&[22, 33]), 5);
    let mut actions = Vec::new();
    actions.push(d.step(&mut guard, Event::Begin, 0));
    actions.push(d.step(&mut guard, Event::HookReturned(HookResult::Continue), 0));
    actions.push(d.step(&mut guard, Event::HookReturned(HookResult::Halt), 0));
    actions.push(d.step(&mut guard, Event::HookReturned(HookResult::Continue), 0));
    actions.push(d.step(&mut guard, Event::BodyFinished, 0));
    actions.push(d.step(&mut guard, Event::Begin, 0));
    assert_eq!(
        actions,
        vec![
            Action::RunHook(Hook { uuid: 11 }),
            Action::RunHook(Hook { uuid: 22 }),
            Action::Stop,
            Action::Ignored,
            Action::Ignored,
            Action::Ignored,
        ]
    );
    assert_eq!(d.phase(), Phase::Done(Outcome::Halted));
    assert!(!guard.check_executing(5, 0));
}

#[test]
fn halt_at_first_hook_runs_nothing_else() {
    let mut guard = AdmissionGuard::new();
    let mut d = Dispatch::new(&hooks(&[1, 2, 3]), &hooks(&[]), 5);
    assert_eq!(d.step(&mut guard, Event::Begin, 0), Action::RunHook(Hook { uuid: 1 }));
    assert_eq!(d.step(&mut guard, Event::HookReturned(HookResult::Halt), 0), Action::Stop);
    assert_eq!(d.phase(), Phase::Done(Outcome::Halted));
}

#[test]
fn no_hooks_goes_straight_to_the_guard() {
    let mut guard = AdmissionGuard::new();
    let mut d = Dispatch::new(&hooks(&[]), &hooks(&[]), 5);
    assert_eq!(d.step(&mut guard, Event::Begin, 100), Action::RunBody);
    assert!(guard.check_executing(5, 100));
}

#[test]
fn overlapping_dispatches_run_one_body() {
    let mut guard = AdmissionGuard::new();
    let mut first = Dispatch::new(&hooks(&[]), &hooks(&[]), 7);
    let mut second = Dispatch::new(&hooks(&[]), &hooks(&[]), 7);
    let mut third = Dispatch::new(&hooks(&[]), &hooks(&[]), 7);
    let mut bodies = 0;
    if first.step(&mut guard, Event::Begin, 1000) == Action::RunBody {
        bodies += 1;
    }
    let answer = second.step(&mut guard, Event::Begin, 2500);
    if answer == Action::RunBody {
        bodies += 1;
    }
    assert_eq!(answer, Action::Stop);
    assert_eq!(second.phase(), Phase::Done(Outcome::Dropped));
    assert_eq!(bodies, 1);
    assert_eq!(first.step(&mut guard, Event::BodyFinished, 2600), Action::Stop);
    assert_eq!(third.step(&mut guard, Event::Begin, 2700), Action::RunBody);
}

#[test]
fn another_user_is_not_held_back() {
    let mut guard = AdmissionGuard::new();
    let mut first = Dispatch::new(&hooks(&[]), &hooks(&[]), 7);
    let mut other = Dispatch::new(&hooks(&[]), &hooks(&[]), 8);
    assert_eq!(first.step(&mut guard, Event::Begin, 1000), Action::RunBody);
    assert_eq!(other.step(&mut guard, Event::Begin, 1001), Action::RunBody);
}

#[test]
fn stale_record_does_not_hold_back() {
    let mut guard = AdmissionGuard::new();
    let mut first = Dispatch::new(&hooks(&[]), &hooks(&[]), 7);
    let mut second = Dispatch::new(&hooks(&[]), &hooks(&[]), 7);
    assert_eq!(first.step(&mut guard, Event::Begin, 1000), Action::RunBody);
    assert_eq!(second.step(&mut guard, Event::Begin, 5000), Action::RunBody);
}

#[test]
fn fast_finish_clears_the_slow_ones_record() {
    let mut guard = AdmissionGuard::new();
    let mut slow = Dispatch::new(&hooks(&[]), &hooks(&[]), 7);
    let mut fast = Dispatch::new(&hooks(&[]), &hooks(&[]), 7);
    let mut next = Dispatch::new(&hooks(&[]), &hooks(&[]), 7);
    assert_eq!(slow.step(&mut guard, Event::Begin, 0), Action::RunBody);
    assert_eq!(fast.step(&mut guard, Event::Begin, 4000), Action::RunBody);
    assert_eq!(fast.step(&mut guard, Event::BodyFinished, 4100), Action::Stop);
    assert_eq!(next.step(&mut guard, Event::Begin, 4200), Action::RunBody);
    assert_eq!(slow.phase(), Phase::InBody);
}

#[test]
fn events_out_of_place_are_ignored() {
    let mut guard = AdmissionGuard::new();
    let mut d = Dispatch::new(&hooks(&[1]), &hooks(&[]), 5);
    assert_eq!(d.step(&mut guard, Event::BodyFinished, 0), Action::Ignored);
    assert_eq!(d.step(&mut guard, Event::HookReturned(HookResult::Halt), 0), Action::Ignored);
    assert_eq!(d.phase(), Phase::Ready);
    assert_eq!(d.step(&mut guard, Event::Begin, 0), Action::RunHook(Hook { uuid: 1 }));
    assert_eq!(d.step(&mut guard, Event::Begin, 0), Action::Ignored);
    assert_eq!(d.phase(), Phase::InHook(0));
}
