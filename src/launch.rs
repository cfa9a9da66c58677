use vstd::prelude::*;
use vstd::string::*;
use crate::model::{char_is_space, is_blank, is_space, strs, Error};

verus! {

/// Where one launch attempt stands.
#[derive(Debug, Clone, Copy, PartialEq, Eq, Structural)]
pub enum LaunchState {
    NotStarted,
    /// The pre-launch hook at this position is running.
    RunningHooks(usize),
    JavaResolving,
    Spawning,
    Running,
    HookFailed(i32),
    JavaMissing,
    ExitedSuccess,
    ExitedFailure(i32),
    Killed(i32),
}

/// What the driver of a launch reports back.
#[derive(Debug, Clone, Copy, PartialEq, Eq, Structural)]
pub enum LaunchEvent {
    Start,
    /// A hook process ended, with its exit code if it had one.
    HookExited(Option<i32>),
    /// Whether the chosen Java install exists on disk (`false` also when
    /// no install was configured).
    JavaChecked(bool),
    Spawned,
    /// The game process ended, with its exit code if it had one.
    GameExited(Option<i32>),
    /// The game process ended after a kill request.
    KilledExited(Option<i32>),
}

/// What the driver must do next.
#[derive(Debug, PartialEq, Eq)]
pub enum LaunchAction {
    /// Run the pre-launch hook at this position and wait for it.
    RunHook(usize),
    /// Check that the chosen Java install exists.
    CheckJava,
    /// Spawn the game process.
    Spawn,
    /// Wait for the game process.
    Wait,
    /// The attempt is over, with this outcome.
    Finish(Result<(), Error>),
    /// The event does not apply in this state; nothing changes.
    Ignore,
}

/// The code an exit carries: the process's own, or -1 when it had none.
pub open spec fn exit_code_of(code: Option<i32>) -> i32 {
    match code {
        Some(c) => c,
        None => -1i32,
    }
}

pub open spec fn is_terminal(s: LaunchState) -> bool {
    match s {
        LaunchState::HookFailed(_) | LaunchState::JavaMissing | LaunchState::ExitedSuccess
        | LaunchState::ExitedFailure(_) | LaunchState::Killed(_) => true,
        _ => false,
    }
}

pub open spec fn java_missing() -> (LaunchState, LaunchAction) {
    (
        LaunchState::JavaMissing,
        LaunchAction::Finish(Err(Error::JavaNotFoundError)),
    )
}

/// After the hooks: resolve Java when a path was chosen, else fail.
pub open spec fn after_hooks(java_chosen: bool) -> (LaunchState, LaunchAction) {
    if java_chosen {
        (LaunchState::JavaResolving, LaunchAction::CheckJava)
    } else {
        java_missing()
    }
}

/// One transition of a launch attempt with `n_hooks` pre-launch hooks, where
/// `java_chosen` tells whether a Java path was resolved at all.
pub open spec fn next(s: LaunchState, n_hooks: usize, java_chosen: bool, e: LaunchEvent) -> (
    LaunchState,
    LaunchAction,
) {
    match (s, e) {
        (LaunchState::NotStarted, LaunchEvent::Start) => if n_hooks > 0 {
            (LaunchState::RunningHooks(0), LaunchAction::RunHook(0))
        } else {
            after_hooks(java_chosen)
        },
        (LaunchState::RunningHooks(i), LaunchEvent::HookExited(code)) => if code == Some(0i32) {
            if i + 1 < n_hooks {
                (LaunchState::RunningHooks((i + 1) as usize), LaunchAction::RunHook((i + 1) as usize))
            } else {
                after_hooks(java_chosen)
            }
        } else {
            (
                LaunchState::HookFailed(exit_code_of(code)),
                LaunchAction::Finish(Err(Error::ExitError(exit_code_of(code)))),
            )
        },
        (LaunchState::JavaResolving, LaunchEvent::JavaChecked(exists)) => if exists {
            (LaunchState::Spawning, LaunchAction::Spawn)
        } else {
            java_missing()
        },
        (LaunchState::Spawning, LaunchEvent::Spawned) => (LaunchState::Running, LaunchAction::Wait),
        (LaunchState::Running, LaunchEvent::GameExited(code)) => if code == Some(0i32) {
            (LaunchState::ExitedSuccess, LaunchAction::Finish(Ok(())))
        } else {
            (
                LaunchState::ExitedFailure(exit_code_of(code)),
                LaunchAction::Finish(Err(Error::ExitError(exit_code_of(code)))),
            )
        },
        (LaunchState::Running, LaunchEvent::KilledExited(code)) => (
            LaunchState::Killed(exit_code_of(code)),
            LaunchAction::Finish(exit_outcome_spec(code)),
        ),
        _ => (s, LaunchAction::Ignore),
    }
}

/// The outcome of a process exit: success for code 0, otherwise an exit
/// error that carries the code, or -1 when there is none.
pub open spec fn exit_outcome_spec(code: Option<i32>) -> Result<(), Error> {
    if code == Some(0i32) {
        Ok(())
    } else {
        Err(Error::ExitError(exit_code_of(code)))
    }
}

fn exit_code(code: Option<i32>) -> (r: i32)
    ensures
        r == exit_code_of(code),
{
    match code {
        Some(c) => c,
        None => -1i32,
    }
}

/// Translates a process exit into an outcome.
pub fn exit_outcome(code: Option<i32>) -> (r: Result<(), Error>)
    ensures
        r == exit_outcome_spec(code),
{
    match code {
        Some(0i32) => Ok(()),
        Some(c) => Err(Error::ExitError(c)),
        None => Err(Error::ExitError(-1)),
    }
}

fn java_missing_exec() -> (r: (LaunchState, LaunchAction))
    ensures
        r == java_missing(),
{
    (
        LaunchState::JavaMissing,
        LaunchAction::Finish(Err(Error::JavaNotFoundError)),
    )
}

fn after_hooks_exec(java_chosen: bool) -> (r: (LaunchState, LaunchAction))
    ensures
        r == after_hooks(java_chosen),
{
    if java_chosen {
        (LaunchState::JavaResolving, LaunchAction::CheckJava)
    } else {
        java_missing_exec()
    }
}

/// Advances a launch attempt by one event.
pub fn step(s: LaunchState, n_hooks: usize, java_chosen: bool, e: LaunchEvent) -> (r: (
    LaunchState,
    LaunchAction,
))
    ensures
        r == next(s, n_hooks, java_chosen, e),
{
    match (s, e) {
        (LaunchState::NotStarted, LaunchEvent::Start) => if n_hooks > 0 {
            (LaunchState::RunningHooks(0), LaunchAction::RunHook(0))
        } else {
            after_hooks_exec(java_chosen)
        },
        (LaunchState::RunningHooks(i), LaunchEvent::HookExited(code)) => {
            if code == Some(0i32) {
                if i < n_hooks && i + 1 < n_hooks {
                    (LaunchState::RunningHooks(i + 1), LaunchAction::RunHook(i + 1))
                } else {
                    after_hooks_exec(java_chosen)
                }
            } else {
                let c = exit_code(code);
                (LaunchState::HookFailed(c), LaunchAction::Finish(Err(Error::ExitError(c))))
            }
        },
        (LaunchState::JavaResolving, LaunchEvent::JavaChecked(exists)) => if exists {
            (LaunchState::Spawning, LaunchAction::Spawn)
        } else {
            java_missing_exec()
        },
        (LaunchState::Spawning, LaunchEvent::Spawned) => (LaunchState::Running, LaunchAction::Wait),
        (LaunchState::Running, LaunchEvent::GameExited(code)) => if code == Some(0i32) {
            (LaunchState::ExitedSuccess, LaunchAction::Finish(Ok(())))
        } else {
            let c = exit_code(code);
            (LaunchState::ExitedFailure(c), LaunchAction::Finish(Err(Error::ExitError(c))))
        },
        (LaunchState::Running, LaunchEvent::KilledExited(code)) => (
            LaunchState::Killed(exit_code(code)),
            LaunchAction::Finish(exit_outcome(code)),
        ),
        _ => (s, LaunchAction::Ignore),
    }
}

/// The state and the actions issued after feeding `events` in order.
pub open spec fn run_events(s: LaunchState, n_hooks: usize, java_chosen: bool, events: Seq<LaunchEvent>) -> (
    LaunchState,
    Seq<LaunchAction>,
)
    decreases events.len(),
{
    if events.len() == 0 {
        (s, Seq::empty())
    } else {
        let (s1, a) = next(s, n_hooks, java_chosen, events[0]);
        let (s2, rest) = run_events(s1, n_hooks, java_chosen, events.drop_first());
        (s2, seq![a] + rest)
    }
}

proof fn lemma_run_len(s: LaunchState, n_hooks: usize, java_chosen: bool, events: Seq<LaunchEvent>)
    ensures
        run_events(s, n_hooks, java_chosen, events).1.len() == events.len(),
    decreases events.len(),
{
    if events.len() > 0 {
        let (s1, a) = next(s, n_hooks, java_chosen, events[0]);
        lemma_run_len(s1, n_hooks, java_chosen, events.drop_first());
    }
}

/// A terminal state ignores every event.
pub proof fn law_terminal_is_final(s: LaunchState, n_hooks: usize, java_chosen: bool, events: Seq<LaunchEvent>)
    requires
        is_terminal(s),
    ensures
        run_events(s, n_hooks, java_chosen, events).0 == s,
        forall|k: int| 0 <= k < events.len()
            ==> #[trigger] run_events(s, n_hooks, java_chosen, events).1[k] == LaunchAction::Ignore,
    decreases events.len(),
{
    lemma_run_len(s, n_hooks, java_chosen, events);
    if events.len() > 0 {
        law_terminal_is_final(s, n_hooks, java_chosen, events.drop_first());
        lemma_run_len(s, n_hooks, java_chosen, events.drop_first());
        let rest = run_events(s, n_hooks, java_chosen, events.drop_first()).1;
        assert(next(s, n_hooks, java_chosen, events[0]) == (s, LaunchAction::Ignore));
        let all = run_events(s, n_hooks, java_chosen, events).1;
        assert(all == seq![LaunchAction::Ignore] + rest);
        assert forall|k: int| 0 <= k < events.len()
            implies #[trigger] run_events(s, n_hooks, java_chosen, events).1[k] == LaunchAction::Ignore by {
            if k > 0 {
                assert(rest[k - 1] == LaunchAction::Ignore);
                assert(all[k] == rest[k - 1]);
            }
        }
    }
}

/// Hooks run strictly in order: after the hooks before position `i` exit
/// with code 0, the hook at `i` is the one running.
pub proof fn law_hooks_in_order(n_hooks: usize, java_chosen: bool, i: nat)
    requires
        i < n_hooks,
    ensures
        run_events(
            LaunchState::NotStarted,
            n_hooks,
            java_chosen,
            seq![LaunchEvent::Start] + Seq::new(i, |k: int| LaunchEvent::HookExited(Some(0i32))),
        ).0 == LaunchState::RunningHooks(i as usize),
    decreases i,
{
    let ok = LaunchEvent::HookExited(Some(0i32));
    let evs = seq![LaunchEvent::Start] + Seq::new(i, |k: int| ok);
    if i == 0 {
        assert(evs =~= Seq::<LaunchEvent>::empty().push(LaunchEvent::Start));
        lemma_run_append(LaunchState::NotStarted, n_hooks, java_chosen, Seq::empty(), LaunchEvent::Start);
    } else {
        law_hooks_in_order(n_hooks, java_chosen, (i - 1) as nat);
        let prev = seq![LaunchEvent::Start] + Seq::new((i - 1) as nat, |k: int| ok);
        lemma_run_append(LaunchState::NotStarted, n_hooks, java_chosen, prev, ok);
        assert(prev.push(ok) =~= evs);
    }
}

proof fn lemma_run_append(s: LaunchState, n_hooks: usize, java_chosen: bool, evs: Seq<LaunchEvent>, e: LaunchEvent)
    ensures
        run_events(s, n_hooks, java_chosen, evs.push(e)).0
            == next(run_events(s, n_hooks, java_chosen, evs).0, n_hooks, java_chosen, e).0,
        run_events(s, n_hooks, java_chosen, evs.push(e)).1
            == run_events(s, n_hooks, java_chosen, evs).1.push(
            next(run_events(s, n_hooks, java_chosen, evs).0, n_hooks, java_chosen, e).1),
    decreases evs.len(),
{
    let evs2 = evs.push(e);
    let (s1, a) = next(s, n_hooks, java_chosen, evs2[0]);
    if evs.len() > 0 {
        assert(evs2[0] == evs[0]);
        assert(evs2.drop_first() =~= evs.drop_first().push(e));
        lemma_run_append(s1, n_hooks, java_chosen, evs.drop_first(), e);
        let r = run_events(s1, n_hooks, java_chosen, evs.drop_first()).1;
        let b = next(run_events(s, n_hooks, java_chosen, evs).0, n_hooks, java_chosen, e).1;
        assert(run_events(s, n_hooks, java_chosen, evs).1 == seq![a] + r);
        assert(run_events(s, n_hooks, java_chosen, evs2).1 == seq![a] + r.push(b));
        assert(seq![a] + r.push(b) =~= (seq![a] + r).push(b));
    } else {
        assert(evs2.drop_first() =~= Seq::<LaunchEvent>::empty());
        assert(evs2[0] == e);
        assert(run_events(s1, n_hooks, java_chosen, Seq::<LaunchEvent>::empty()) == (s1, Seq::<LaunchAction>::empty()));
        assert(run_events(s, n_hooks, java_chosen, evs) == (s, Seq::<LaunchAction>::empty()));
        assert(seq![a] + Seq::<LaunchAction>::empty() =~= Seq::<LaunchAction>::empty().push(a));
    }
}

/// A hook that exits with a non-zero code aborts the launch: the attempt
/// ends with an exit error carrying that code, and no later hook runs and
/// nothing is spawned, whatever is reported afterwards.
pub proof fn law_hook_abort(
    n_hooks: usize,
    java_chosen: bool,
    i: nat,
    code: i32,
    later: Seq<LaunchEvent>,
)
    requires
        i < n_hooks,
        code != 0,
    ensures
        ({
            let evs = seq![LaunchEvent::Start] + Seq::new(i, |k: int| LaunchEvent::HookExited(Some(0i32)))
                + seq![LaunchEvent::HookExited(Some(code))];
            let (s, acts) = run_events(LaunchState::NotStarted, n_hooks, java_chosen, evs);
            &&& s == LaunchState::HookFailed(code)
            &&& acts.last() == LaunchAction::Finish(Err(Error::ExitError(code)))
            &&& run_events(s, n_hooks, java_chosen, later).0 == s
            &&& forall|k: int| 0 <= k < later.len()
                ==> #[trigger] run_events(s, n_hooks, java_chosen, later).1[k] == LaunchAction::Ignore
        }),
{
    let ok = LaunchEvent::HookExited(Some(0i32));
    let prev = seq![LaunchEvent::Start] + Seq::new(i, |k: int| ok);
    let bad = LaunchEvent::HookExited(Some(code));
    law_hooks_in_order(n_hooks, java_chosen, i);
    lemma_run_append(LaunchState::NotStarted, n_hooks, java_chosen, prev, bad);
    assert(prev + seq![bad] =~= prev.push(bad));
    law_terminal_is_final(LaunchState::HookFailed(code), n_hooks, java_chosen, later);
}

/// The tokens of a hook command: its maximal runs of characters other
/// than white space, in order. The first is the program, the others its
/// arguments; there is no quoting. A command of white space alone has none.
pub open spec fn tokens(s: Seq<char>) -> Seq<Seq<char>>
    decreases s.len(),
{
    if s.len() == 0 {
        Seq::empty()
    } else {
        let r = tokens(s.drop_last());
        let c = s.last();
        if is_space(c) {
            r
        } else if s.len() >= 2 && !is_space(s[s.len() - 2]) {
            r.update(r.len() - 1, r.last().push(c))
        } else {
            r.push(seq![c])
        }
    }
}

/// Ends in a token character: then the last token is still open.
proof fn lemma_tokens_open(s: Seq<char>)
    requires
        s.len() > 0,
        !is_space(s.last()),
    ensures
        tokens(s).len() >= 1,
    decreases s.len(),
{
    if s.len() >= 2 && !is_space(s[s.len() - 2]) {
        let t = s.drop_last();
        assert(t.last() == s[s.len() - 2]);
        lemma_tokens_open(t);
    }
}

/// Splits a hook command into its program and arguments.
pub fn hook_command(hook: &str) -> (r: Vec<String>)
    ensures
        strs(r) == tokens(hook@),
        r.len() == 0 <==> is_blank(hook@),
{
    let n = hook.unicode_len();
    let mut done: Vec<String> = Vec::new();
    let mut cur = String::new();
    let mut i: usize = 0;
    while i < n
        invariant
            n == hook@.len(),
            i <= n,
            (cur@.len() > 0) == (i > 0 && !is_space(hook@[i - 1])),
            cur@.len() > 0 ==> strs(done).push(cur@) == tokens(hook@.subrange(0, i as int)),
            cur@.len() == 0 ==> strs(done) == tokens(hook@.subrange(0, i as int)),
            (done.len() == 0 && cur@.len() == 0) <==> forall|k: int| 0 <= k < i ==> is_space(#[trigger] hook@[k]),
        decreases n - i,
    {
        let ghost pre = hook@.subrange(0, i as int);
        let ghost next = hook@.subrange(0, i + 1);
        assert(next.drop_last() =~= pre);
        assert(next.last() == hook@[i as int]);
        let c = hook.get_char(i);
        if char_is_space(c) {
            if cur.unicode_len() > 0 {
                let ghost old_strs = strs(done);
                let ghost last = cur@;
                done.push(cur);
                cur = String::new();
                assert(strs(done) =~= old_strs.push(last));
            }
        } else {
            let piece = hook.substring_char(i, i + 1);
            assert(piece@ =~= seq![c]);
            if cur.unicode_len() > 0 {
                assert(pre.len() >= 1 && pre[pre.len() - 1] == hook@[i - 1]);
                assert(next[next.len() - 2] == hook@[i - 1]);
                let ghost old_cur = cur@;
                proof {
                    lemma_tokens_open(pre);
                    assert(tokens(pre).last() == old_cur);
                }
                cur.append(piece);
                assert(cur@ =~= old_cur.push(c));
                assert(strs(done).push(cur@) =~= tokens(pre).update(
                    tokens(pre).len() - 1,
                    tokens(pre).last().push(c),
                ));
            } else {
                if i > 0 {
                    assert(next[next.len() - 2] == hook@[i - 1]);
                }
                cur.append(piece);
                assert(cur@ =~= seq![c]);
                assert(strs(done).push(cur@) =~= tokens(pre).push(seq![c]));
            }
        }
        i = i + 1;
    }
    assert(hook@.subrange(0, n as int) =~= hook@);
    if cur.unicode_len() > 0 {
        let ghost old_strs = strs(done);
        let ghost last = cur@;
        done.push(cur);
        assert(strs(done) =~= old_strs.push(last));
    }
    done
}

} // verus!
