//! One invocation on its way through the hook chain, the admission guard and
//! the command body.
//!
//! The library decides; the caller acts. `Dispatch::step` takes what has just
//! happened and answers with what to do next: run a hook, run the command
//! body, or stop.

use crate::guard::{executing, recorded, released, AdmissionGuard};
use crate::hooks::{Hook, HookResult};
use vstd::prelude::*;

verus! {

/// How an invocation ended.
#[derive(Clone, Copy, PartialEq, Eq, Structural, Debug)]
pub enum Outcome {
    /// A hook halted it.
    Halted,
    /// The admission guard refused it.
    Dropped,
    /// The command body ran and returned.
    Completed,
}

/// Where an invocation stands.
#[derive(Clone, Copy, PartialEq, Eq, Structural, Debug)]
pub enum Phase {
    /// Nothing has run yet.
    Ready,
    /// The hook at this place of the chain is running.
    InHook(usize),
    /// The command body is running.
    InBody,
    /// Nothing more will run.
    Done(Outcome),
}

/// What the caller reports.
#[derive(Clone, Copy, PartialEq, Eq, Structural, Debug)]
pub enum Event {
    /// The invocation starts.
    Begin,
    /// The hook that was running has returned.
    HookReturned(HookResult),
    /// The command body has returned, with or without success.
    BodyFinished,
}

/// What the caller is to do next.
#[derive(Clone, Copy, PartialEq, Eq, Structural, Debug)]
pub enum Action {
    /// Run this hook and report its result.
    RunHook(Hook),
    /// Run the command body and report its end.
    RunBody,
    /// Run nothing more: the invocation is over.
    Stop,
    /// The event does not belong to the current phase; nothing changed.
    Ignored,
}

/// An invocation as the contracts see it.
pub struct DispatchModel {
    /// The command's own hooks, then the global ones, in registration order.
    pub chain: Seq<Hook>,
    /// The user who sent the trigger.
    pub user: u64,
    pub phase: Phase,
}

/// An event and the time at which it is reported, in milliseconds.
pub struct Input {
    pub event: Event,
    pub now: u64,
}

/// The invocation `d` in another phase.
pub open spec fn in_phase(d: DispatchModel, phase: Phase) -> DispatchModel {
    DispatchModel { chain: d.chain, user: d.user, phase }
}

/// What happens once the hooks before place `i` have all let the invocation
/// pass: the hook at `i` runs; after the last hook the guard decides, and
/// either records the user and lets the body run, or drops the invocation
/// without a trace.
pub open spec fn enter(d: DispatchModel, g: Map<u64, u64>, i: int, now: u64) -> (
    DispatchModel,
    Map<u64, u64>,
    Action,
) {
    if 0 <= i < d.chain.len() {
        (in_phase(d, Phase::InHook(i as usize)), g, Action::RunHook(d.chain[i]))
    } else if executing(g, d.user, now) {
        (in_phase(d, Phase::Done(Outcome::Dropped)), g, Action::Stop)
    } else {
        (in_phase(d, Phase::InBody), recorded(g, d.user, now), Action::RunBody)
    }
}

/// One step: the invocation and the guard's records after `event`, and the
/// action that answers it.
pub open spec fn step_spec(d: DispatchModel, g: Map<u64, u64>, event: Event, now: u64) -> (
    DispatchModel,
    Map<u64, u64>,
    Action,
) {
    match d.phase {
        Phase::Ready => match event {
            Event::Begin => enter(d, g, 0, now),
            _ => (d, g, Action::Ignored),
        },
        Phase::InHook(i) => match event {
            Event::HookReturned(HookResult::Continue) => enter(d, g, i + 1, now),
            Event::HookReturned(HookResult::Halt) => (
                in_phase(d, Phase::Done(Outcome::Halted)),
                g,
                Action::Stop,
            ),
            _ => (d, g, Action::Ignored),
        },
        Phase::InBody => match event {
            Event::BodyFinished => (
                in_phase(d, Phase::Done(Outcome::Completed)),
                released(g, d.user),
                Action::Stop,
            ),
            _ => (d, g, Action::Ignored),
        },
        Phase::Done(_) => (d, g, Action::Ignored),
    }
}

/// The invocation, the records and the actions after the first `n` of `inputs`.
pub open spec fn run(d: DispatchModel, g: Map<u64, u64>, inputs: Seq<Input>, n: nat) -> (
    DispatchModel,
    Map<u64, u64>,
    Seq<Action>,
)
    decreases n,
{
    if n == 0 || n > inputs.len() {
        (d, g, Seq::empty())
    } else {
        let before = run(d, g, inputs, (n - 1) as nat);
        let next = step_spec(before.0, before.1, inputs[n - 1].event, inputs[n - 1].now);
        (next.0, next.1, before.2.push(next.2))
    }
}

/// One invocation: its hook chain, its user and its phase.
pub struct Dispatch {
    chain: Vec<Hook>,
    user: u64,
    phase: Phase,
}

impl View for Dispatch {
    type V = DispatchModel;

    closed spec fn view(&self) -> DispatchModel {
        DispatchModel { chain: self.chain@, user: self.user, phase: self.phase }
    }
}

impl Dispatch {
    /// A new invocation by `user`. Its chain is the command's own hooks
    /// followed by the global hooks, each list in the order given.
    pub fn new(command_hooks: &Vec<Hook>, global_hooks: &Vec<Hook>, user: u64) -> (r: Self)
        ensures
            r@.chain == command_hooks@ + global_hooks@,
            r@.user == user,
            r@.phase == Phase::Ready,
    {
        let mut chain: Vec<Hook> = Vec::new();
        let mut i: usize = 0;
        while i < command_hooks.len()
            invariant
                i <= command_hooks.len(),
                chain@ == command_hooks@.subrange(0, i as int),
            decreases command_hooks.len() - i,
        {
            chain.push(command_hooks[i]);
            assert(chain@ =~= command_hooks@.subrange(0, i + 1));
            i = i + 1;
        }
        assert(chain@ =~= command_hooks@);
        let mut j: usize = 0;
        while j < global_hooks.len()
            invariant
                j <= global_hooks.len(),
                chain@ == command_hooks@ + global_hooks@.subrange(0, j as int),
            decreases global_hooks.len() - j,
        {
            chain.push(global_hooks[j]);
            assert(chain@ =~= command_hooks@ + global_hooks@.subrange(0, j + 1));
            j = j + 1;
        }
        assert(chain@ =~= command_hooks@ + global_hooks@);
        Dispatch { chain, user, phase: Phase::Ready }
    }

    /// The user who sent the trigger.
    pub fn user(&self) -> (r: u64)
        ensures
            r == self@.user,
    {
        self.user
    }

    /// Where the invocation stands.
    pub fn phase(&self) -> (r: Phase)
        ensures
            r == self@.phase,
    {
        self.phase
    }

    /// Number of hooks in the chain.
    pub fn chain_len(&self) -> (r: usize)
        ensures
            r == self@.chain.len(),
    {
        self.chain.len()
    }

    fn enter_at(&mut self, guard: &mut AdmissionGuard, i: usize, now: u64) -> (action: Action)
        ensures
            (final(self)@, final(guard)@, action) == enter(old(self)@, old(guard)@, i as int, now),
    {
        if i < self.chain.len() {
            self.phase = Phase::InHook(i);
            Action::RunHook(self.chain[i])
        } else if guard.check_executing(self.user, now) {
            self.phase = Phase::Done(Outcome::Dropped);
            Action::Stop
        } else {
            guard.set_executing(self.user, now);
            self.phase = Phase::InBody;
            Action::RunBody
        }
    }

    /// Takes one event and answers with the next action.
    ///
    /// Hooks run one after another in chain order, each after the one before
    /// it returned `Continue`. The first `Halt` ends the invocation at once:
    /// no further hook, no body, no word to the guard. After the last hook the
    /// guard is asked: a user with a fresh record is dropped, any other is
    /// recorded at `now` and the body runs. When the body ends, the user's
    /// record is removed. An event that does not fit the phase changes
    /// nothing.
    pub fn step(&mut self, guard: &mut AdmissionGuard, event: Event, now: u64) -> (action: Action)
        ensures
            (final(self)@, final(guard)@, action) == step_spec(
                old(self)@,
                old(guard)@,
                event,
                now,
            ),
    {
        match self.phase {
            Phase::Ready => match event {
                Event::Begin => self.enter_at(guard, 0, now),
                _ => Action::Ignored,
            },
            Phase::InHook(i) => match event {
                Event::HookReturned(HookResult::Continue) => {
                    if i < self.chain.len() {
                        self.enter_at(guard, i + 1, now)
                    } else {
                        self.enter_at(guard, i, now)
                    }
                },
                Event::HookReturned(HookResult::Halt) => {
                    self.phase = Phase::Done(Outcome::Halted);
                    Action::Stop
                },
                _ => Action::Ignored,
            },
            Phase::InBody => match event {
                Event::BodyFinished => {
                    guard.drop_executing(self.user);
                    self.phase = Phase::Done(Outcome::Completed);
                    Action::Stop
                },
                _ => Action::Ignored,
            },
            Phase::Done(_) => Action::Ignored,
        }
    }
}

/// While the hooks answer `Continue`, they run one by one in chain order: after
/// the start and `m - 1` such answers the first `m` hooks have each been asked
/// for once, the hook at place `m - 1` is running, and the guard is untouched.
pub proof fn law_hooks_run_in_order(
    d: DispatchModel,
    g: Map<u64, u64>,
    inputs: Seq<Input>,
    m: nat,
)
    requires
        d.phase == Phase::Ready,
        1 <= m <= inputs.len(),
        m <= d.chain.len(),
        d.chain.len() <= usize::MAX,
        inputs[0].event == Event::Begin,
        forall|j: int| 1 <= j < m ==> (#[trigger] inputs[j]).event == Event::HookReturned(HookResult::Continue),
    ensures
        run(d, g, inputs, m).0 == in_phase(d, Phase::InHook((m - 1) as usize)),
        run(d, g, inputs, m).1 == g,
        run(d, g, inputs, m).2.len() == m,
        forall|j: int| 0 <= j < m ==> #[trigger] run(d, g, inputs, m).2[j] == Action::RunHook(d.chain[j]),
    decreases m,
{
    if m == 1 {
        assert(run(d, g, inputs, 0).2.len() == 0);
    } else {
        law_hooks_run_in_order(d, g, inputs, (m - 1) as nat);
        let before = run(d, g, inputs, (m - 1) as nat);
        assert(inputs[m - 1].event == Event::HookReturned(HookResult::Continue));
        assert forall|j: int| 0 <= j < m implies #[trigger] run(d, g, inputs, m).2[j]
            == Action::RunHook(d.chain[j]) by {
            if j < m - 1 {
                assert(run(d, g, inputs, m).2[j] == before.2[j]);
            }
        }
    }
}

/// Once an invocation is over, no event brings it back: every later action is
/// `Ignored`, and neither the phase nor the guard changes.
pub proof fn law_done_is_final(
    d: DispatchModel,
    g: Map<u64, u64>,
    inputs: Seq<Input>,
    k: nat,
    n: nat,
)
    requires
        k <= n <= inputs.len(),
        run(d, g, inputs, k).0.phase is Done,
    ensures
        run(d, g, inputs, n).0 == run(d, g, inputs, k).0,
        run(d, g, inputs, n).1 == run(d, g, inputs, k).1,
        run(d, g, inputs, n).2.len() == run(d, g, inputs, k).2.len() + (n - k),
        forall|j: int| 0 <= j < run(d, g, inputs, k).2.len() ==> #[trigger] run(d, g, inputs, n).2[j] == run(d, g, inputs, k).2[j],
        forall|j: int| run(d, g, inputs, k).2.len() <= j < run(d, g, inputs, n).2.len() ==> #[trigger] run(d, g, inputs, n).2[j] == Action::Ignored,
    decreases n - k,
{
    if n > k {
        law_done_is_final(d, g, inputs, k, (n - 1) as nat);
        let before = run(d, g, inputs, (n - 1) as nat);
        let at_k = run(d, g, inputs, k);
        assert forall|j: int| 0 <= j < at_k.2.len() implies #[trigger] run(d, g, inputs, n).2[j]
            == at_k.2[j] by {
            assert(run(d, g, inputs, n).2[j] == before.2[j]);
        }
        assert forall|j: int| at_k.2.len() <= j < run(d, g, inputs, n).2.len() implies #[trigger] run(
            d,
            g,
            inputs,
            n,
        ).2[j] == Action::Ignored by {
            if j < before.2.len() {
                assert(run(d, g, inputs, n).2[j] == before.2[j]);
            }
        }
    }
}

/// A halt at place `k` of the chain, counted from one: the hooks before it and
/// the halting hook itself were asked for once each, in chain order; the halt
/// is answered with `Stop`; whatever is reported afterwards is ignored, so no
/// later hook and no command body ever runs; and the guard was never touched.
pub proof fn law_halt_stops_dispatch(
    d: DispatchModel,
    g: Map<u64, u64>,
    inputs: Seq<Input>,
    k: nat,
)
    requires
        d.phase == Phase::Ready,
        1 <= k <= d.chain.len(),
        d.chain.len() <= usize::MAX,
        k < inputs.len(),
        inputs[0].event == Event::Begin,
        forall|j: int| 1 <= j < k ==> (#[trigger] inputs[j]).event == Event::HookReturned(HookResult::Continue),
        inputs[k as int].event == Event::HookReturned(HookResult::Halt),
    ensures
        run(d, g, inputs, inputs.len()).0 == in_phase(d, Phase::Done(Outcome::Halted)),
        run(d, g, inputs, inputs.len()).1 == g,
        run(d, g, inputs, inputs.len()).2.len() == inputs.len(),
        forall|j: int| 0 <= j < k ==> #[trigger] run(d, g, inputs, inputs.len()).2[j] == Action::RunHook(d.chain[j]),
        run(d, g, inputs, inputs.len()).2[k as int] == Action::Stop,
        forall|j: int| k < j < inputs.len() ==> #[trigger] run(d, g, inputs, inputs.len()).2[j] == Action::Ignored,
{
    law_hooks_run_in_order(d, g, inputs, k);
    let before = run(d, g, inputs, k);
    let halted = run(d, g, inputs, k + 1);
    assert(halted.2 == before.2.push(Action::Stop));
    assert forall|j: int| 0 <= j < k implies #[trigger] halted.2[j] == Action::RunHook(d.chain[j]) by {
        assert(halted.2[j] == before.2[j]);
    }
    law_done_is_final(d, g, inputs, k + 1, inputs.len());
    let all = run(d, g, inputs, inputs.len());
    assert forall|j: int| 0 <= j < k implies #[trigger] all.2[j] == Action::RunHook(d.chain[j]) by {
        assert(all.2[j] == halted.2[j]);
    }
    assert(all.2[k as int] == halted.2[k as int]);
}

/// Two invocations of one user that overlap run one body between them: when
/// the first passes the guard at `first` and the second reaches the guard
/// inside the window, before the first has ended, the second is dropped and
/// leaves the records as they were. A third that reaches the guard after the
/// first has ended runs its body, at whatever time it comes.
pub proof fn law_overlap_runs_one_body(
    a: DispatchModel,
    b: DispatchModel,
    c: DispatchModel,
    g: Map<u64, u64>,
    first: u64,
    second: u64,
    third: u64,
)
    requires
        a.user == b.user,
        a.user == c.user,
        !executing(g, a.user, first),
        crate::guard::within_window(first, second),
    ensures
        ({
            let one = enter(a, g, a.chain.len() as int, first);
            let two = enter(b, one.1, b.chain.len() as int, second);
            let end = step_spec(one.0, two.1, Event::BodyFinished, second);
            let three = enter(c, end.1, c.chain.len() as int, third);
            &&& one.2 == Action::RunBody
            &&& two.2 == Action::Stop
            &&& two.0.phase == Phase::Done(Outcome::Dropped)
            &&& two.1 == one.1
            &&& three.2 == Action::RunBody
        }),
{
}

} // verus!
