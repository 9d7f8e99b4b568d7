//! Lifecycle hooks: which commands of a phase are run, with what environment,
//! and what their results come to.

use crate::text::{decimal, digits_of, join_text, trim, trimmed};
use vstd::prelude::*;

verus! {

/// The setting that holds the hooks of the phase `phase`.
pub fn hook_key(phase: &str) -> (key: String)
    ensures
        key@ == "spaces.hook."@ + phase@,
{
    join_text("spaces.hook.", phase)
}

/// One hook to run: its command, and its number among the hooks of the phase,
/// counted from one.
#[derive(Debug)]
pub struct HookStep {
    pub number: usize,
    pub command: String,
}

/// A `HookStep` as plain values.
pub ghost struct HookStepView {
    pub number: int,
    pub command: Seq<char>,
}

impl View for HookStep {
    type V = HookStepView;

    open spec fn view(&self) -> HookStepView {
        HookStepView { number: self.number as int, command: self.command@ }
    }
}

impl DeepView for HookStep {
    type V = HookStepView;

    open spec fn deep_view(&self) -> HookStepView {
        self@
    }
}

/// A hook that is nothing but whitespace is not run.
pub open spec fn is_blank(hook: Seq<char>) -> bool {
    trimmed(hook).len() == 0
}

/// The hooks to run among the first `n` of `hooks`: those that are not blank,
/// in the order in which they were registered, each with its number.
pub open spec fn steps_of(hooks: Seq<Seq<char>>, n: nat) -> Seq<HookStepView>
    decreases n,
{
    if n == 0 || n > hooks.len() {
        Seq::empty()
    } else {
        let head = steps_of(hooks, (n - 1) as nat);
        if is_blank(hooks[n - 1]) {
            head
        } else {
            head.push(HookStepView { number: n as int, command: hooks[n - 1] })
        }
    }
}

/// The hooks of a phase that are to be run, in order. All of them are run: a
/// hook that fails does not keep the later ones from running.
pub fn hook_steps(hooks: &Vec<String>) -> (steps: Vec<HookStep>)
    ensures
        steps.deep_view() == steps_of(hooks.deep_view(), hooks.len() as nat),
{
    let mut steps: Vec<HookStep> = Vec::new();
    let mut i: usize = 0;
    assert(steps.deep_view() =~= Seq::empty());
    while i < hooks.len()
        invariant
            i <= hooks.len(),
            steps.deep_view() == steps_of(hooks.deep_view(), i as nat),
        decreases hooks.len() - i,
    {
        let ghost before = steps.deep_view();
        assert(hooks.deep_view()[i as int] == hooks[i as int]@);
        if !trim(hooks[i].as_str()).as_str().is_empty() {
            let step = HookStep { number: i + 1, command: hooks[i].clone() };
            let ghost sv = step@;
            steps.push(step);
            assert(steps.deep_view() =~= before.push(sv));
        }
        i = i + 1;
    }
    steps
}

/// How many of the results `results` are failures.
pub open spec fn failures(results: Seq<bool>) -> nat
    decreases results.len(),
{
    if results.len() == 0 {
        0
    } else {
        failures(results.drop_last()) + if results.last() {
            0nat
        } else {
            1nat
        }
    }
}

/// There are no more failures than results.
pub proof fn lemma_failures_bounded(results: Seq<bool>)
    ensures
        failures(results) <= results.len(),
    decreases results.len(),
{
    if results.len() > 0 {
        lemma_failures_bounded(results.drop_last());
    }
}

/// No failure is counted exactly where every result is a success.
pub proof fn lemma_no_failures(results: Seq<bool>)
    ensures
        failures(results) == 0 <==> forall|i: int| 0 <= i < results.len() ==> results[i],
    decreases results.len(),
{
    if results.len() > 0 {
        lemma_no_failures(results.drop_last());
        if failures(results) == 0 {
            assert forall|i: int| 0 <= i < results.len() implies results[i] by {
                if i < results.len() - 1 {
                    assert(results.drop_last()[i] == results[i]);
                }
            }
        } else if failures(results.drop_last()) == 0 {
            assert(!results[results.len() - 1]);
        } else {
            let i = choose|i: int| 0 <= i < results.drop_last().len() && !results.drop_last()[i];
            assert(!results[i]);
        }
    }
}

/// The hooks of a phase failed: that many of them.
#[derive(Debug)]
pub struct HookFailure {
    pub failed: usize,
}

impl HookFailure {
    /// The failure as one line of text; it says how many hooks failed.
    pub fn message(&self) -> (text: String)
        ensures
            text@ == digits_of(self.failed as nat) + " hook(s) failed"@,
    {
        let mut text = decimal(self.failed);
        text.append(" hook(s) failed");
        text
    }
}

/// The numbers of the hooks to run go up, and each hook to run is the
/// registered hook of its number: none is left out but the blank ones, and
/// none is run out of turn.
pub proof fn lemma_steps_in_order(hooks: Seq<Seq<char>>, n: nat, i: int, j: int)
    requires
        n <= hooks.len(),
        0 <= i <= j < steps_of(hooks, n).len(),
    ensures
        1 <= steps_of(hooks, n)[i].number <= n,
        steps_of(hooks, n)[i].command == hooks[steps_of(hooks, n)[i].number - 1],
        !is_blank(steps_of(hooks, n)[i].command),
        i < j ==> steps_of(hooks, n)[i].number < steps_of(hooks, n)[j].number,
    decreases n,
{
    if n > 0 {
        let head = steps_of(hooks, (n - 1) as nat);
        if j < head.len() {
            lemma_steps_in_order(hooks, (n - 1) as nat, i, j);
        } else if i < head.len() {
            lemma_steps_in_order(hooks, (n - 1) as nat, i, i);
        }
    }
}

/// Every registered hook that is not blank is run.
pub proof fn lemma_every_hook_runs(hooks: Seq<Seq<char>>, n: nat, k: int) -> (at: int)
    requires
        n <= hooks.len(),
        0 <= k < n,
        !is_blank(hooks[k]),
    ensures
        0 <= at < steps_of(hooks, n).len(),
        steps_of(hooks, n)[at].number == k + 1,
        steps_of(hooks, n)[at].command == hooks[k],
    decreases n,
{
    let head = steps_of(hooks, (n - 1) as nat);
    if k == n - 1 {
        head.len() as int
    } else {
        lemma_every_hook_runs(hooks, (n - 1) as nat, k)
    }
}

/// What the results of the hooks of one phase come to, each `true` for a hook
/// that succeeded. The failures are counted and reported once, after all hooks
/// have run; a phase without failures succeeded.
pub fn run_hooks(results: &Vec<bool>) -> (done: Result<(), HookFailure>)
    ensures
        done is Ok <==> failures(results@) == 0,
        done matches Err(f) ==> f.failed == failures(results@),
{
    let mut failed: usize = 0;
    let mut i: usize = 0;
    assert(results@.take(0) =~= Seq::empty());
    while i < results.len()
        invariant
            i <= results.len(),
            failed == failures(results@.take(i as int)),
            failed <= i,
        decreases results.len() - i,
    {
        let ghost upto = results@.take(i as int + 1);
        assert(upto.drop_last() =~= results@.take(i as int));
        assert(upto.last() == results@[i as int]);
        if !results[i] {
            failed = failed + 1;
        }
        i = i + 1;
    }
    assert(results@.take(results.len() as int) =~= results@);
    if failed > 0 {
        Err(HookFailure { failed })
    } else {
        Ok(())
    }
}

/// One variable of the environment of a hook.
#[derive(Debug)]
pub struct EnvVar {
    pub name: String,
    pub value: String,
}

/// An `EnvVar` as plain values.
pub ghost struct EnvVarView {
    pub name: Seq<char>,
    pub value: Seq<char>,
}

impl View for EnvVar {
    type V = EnvVarView;

    open spec fn view(&self) -> EnvVarView {
        EnvVarView { name: self.name@, value: self.value@ }
    }
}

impl DeepView for EnvVar {
    type V = EnvVarView;

    open spec fn deep_view(&self) -> EnvVarView {
        self@
    }
}

/// The environment that every hook of a space gets: the root of the
/// repository, the path of the clone, the name of the space, and the branch
/// where one is known.
pub open spec fn hook_env_of(
    repo_root: Seq<char>,
    clone_path: Seq<char>,
    space: Seq<char>,
    branch: Option<Seq<char>>,
) -> Seq<EnvVarView> {
    let fixed = seq![
        EnvVarView { name: "REPO_ROOT"@, value: repo_root },
        EnvVarView { name: "CLONE_PATH"@, value: clone_path },
        EnvVarView { name: "SPACE"@, value: space },
    ];
    match branch {
        Some(b) => fixed.push(EnvVarView { name: "BRANCH"@, value: b }),
        None => fixed,
    }
}

/// The environment that every hook of a space gets.
pub fn hook_env(repo_root: &str, clone_path: &str, space: &str, branch: Option<&str>) -> (env: Vec<
    EnvVar,
>)
    ensures
        env.deep_view() == hook_env_of(repo_root@, clone_path@, space@, branch.deep_view()),
{
    let mut env: Vec<EnvVar> = Vec::new();
    env.push(EnvVar { name: "REPO_ROOT".to_owned(), value: repo_root.to_owned() });
    env.push(EnvVar { name: "CLONE_PATH".to_owned(), value: clone_path.to_owned() });
    env.push(EnvVar { name: "SPACE".to_owned(), value: space.to_owned() });
    match branch {
        Some(b) => {
            env.push(EnvVar { name: "BRANCH".to_owned(), value: b.to_owned() });
        },
        None => {},
    }
    assert(env.deep_view() =~= hook_env_of(repo_root@, clone_path@, space@, branch.deep_view()));
    env
}

/// The phases of the life of a space at which hooks run.
#[derive(Clone, Copy, Debug, PartialEq, Eq, Structural)]
pub enum HookPhase {
    /// After a space was created.
    PostCreate,
    /// Before a space is removed.
    PreRemove,
    /// After a space was removed.
    PostRemove,
}

/// The name of a phase, as it stands in the key of its hooks.
pub open spec fn phase_name(phase: HookPhase) -> Seq<char> {
    match phase {
        HookPhase::PostCreate => "postCreate"@,
        HookPhase::PreRemove => "preRemove"@,
        HookPhase::PostRemove => "postRemove"@,
    }
}

impl HookPhase {
    /// The name of the phase, as it stands in the key of its hooks.
    pub fn name(self) -> (name: &'static str)
        ensures
            name@ == phase_name(self),
    {
        match self {
            HookPhase::PostCreate => "postCreate",
            HookPhase::PreRemove => "preRemove",
            HookPhase::PostRemove => "postRemove",
        }
    }
}

/// What follows from the hooks of a phase.
#[derive(Clone, Copy, Debug, PartialEq, Eq, Structural)]
pub enum HookVerdict {
    /// The command goes on.
    Continue,
    /// The command goes on, and the failure is reported.
    ContinueWarned,
    /// What the hooks belong to is not done.
    Stop,
}

/// What follows from the hooks of `phase`. Hooks that succeeded let the
/// command go on. Failed hooks after a creation fail the command. Failed hooks
/// before a removal keep the space, unless the removal is forced. Failed hooks
/// after a removal are reported and hold nothing up: the space is gone.
pub open spec fn verdict_of(phase: HookPhase, succeeded: bool, force: bool) -> HookVerdict {
    if succeeded {
        HookVerdict::Continue
    } else {
        match phase {
            HookPhase::PostCreate => HookVerdict::Stop,
            HookPhase::PreRemove => if force {
                HookVerdict::ContinueWarned
            } else {
                HookVerdict::Stop
            },
            HookPhase::PostRemove => HookVerdict::ContinueWarned,
        }
    }
}

/// What follows from the hooks of `phase`, which `succeeded` or did not;
/// `force` says whether a removal is forced.
pub fn hook_verdict(phase: HookPhase, succeeded: bool, force: bool) -> (verdict: HookVerdict)
    ensures
        verdict == verdict_of(phase, succeeded, force),
{
    if succeeded {
        return HookVerdict::Continue;
    }
    match phase {
        HookPhase::PostCreate => HookVerdict::Stop,
        HookPhase::PreRemove => {
            if force {
                HookVerdict::ContinueWarned
            } else {
                HookVerdict::Stop
            }
        },
        HookPhase::PostRemove => HookVerdict::ContinueWarned,
    }
}

/// Hooks after a removal never hold anything up, and no setting of `force`
/// makes failed hooks count as a success.
pub proof fn lemma_post_remove_never_blocks(succeeded: bool, force: bool)
    ensures
        verdict_of(HookPhase::PostRemove, succeeded, force) != HookVerdict::Stop,
        forall|phase: HookPhase|
            !succeeded ==> #[trigger] verdict_of(phase, succeeded, force) != HookVerdict::Continue,
{
}

} // verus!
