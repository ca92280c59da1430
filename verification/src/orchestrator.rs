//! The serve orchestrator's decisions: what each mode starts at startup, in
//! which order, and how the watch loop reacts to a rebuild outcome.

use crate::models::{BuildOutcome, OutputSet, ServeMode};
use vstd::prelude::*;

verus! {

/// What a run of the given mode starts alongside the HTTP server.
#[derive(Clone, Copy, PartialEq, Eq, Structural, Debug)]
pub struct ServePlan {
    /// Run the filesystem watcher (and with it the debounce/rebuild loop).
    pub start_watcher: bool,
    /// Spawn the CSS-compiler sidecar in watch mode.
    pub start_sidecar_watch: bool,
    /// Run the one-shot CSS compile up front; its failure is fatal.
    pub build_css_once: bool,
    /// Pass every response through the reload-injection layer.
    pub inject_reload: bool,
}

/// The plan each mode follows.
pub open spec fn spec_plan(mode: ServeMode) -> ServePlan {
    match mode {
        ServeMode::Dev => ServePlan {
            start_watcher: true,
            start_sidecar_watch: true,
            build_css_once: false,
            inject_reload: true,
        },
        ServeMode::Prod => ServePlan {
            start_watcher: false,
            start_sidecar_watch: false,
            build_css_once: true,
            inject_reload: false,
        },
    }
}

/// Decide the plan for a mode.
pub fn plan_for(mode: ServeMode) -> (p: ServePlan)
    ensures
        p == spec_plan(mode),
{
    match mode {
        ServeMode::Dev => ServePlan {
            start_watcher: true,
            start_sidecar_watch: true,
            build_css_once: false,
            inject_reload: true,
        },
        ServeMode::Prod => ServePlan {
            start_watcher: false,
            start_sidecar_watch: false,
            build_css_once: true,
            inject_reload: false,
        },
    }
}

/// The ordered actions a run performs before the server starts listening.
#[derive(Clone, Copy, PartialEq, Eq, Structural, Debug)]
pub enum StartupStep {
    /// Read and parse the configuration file.
    LoadConfig,
    /// Remove the previous output tree.
    CleanDist,
    /// Create the output tree's directory skeleton.
    CreateDistFolders,
    /// Run the CSS compiler once, synchronously; non-zero exit is fatal.
    BuildCssOnce,
    /// Copy the static assets into the output tree.
    CopyStaticAssets,
    /// Parse all content and render every page once.
    RenderSite,
    /// Spawn the CSS-compiler sidecar in watch mode.
    StartSidecarWatch,
    /// Start the filesystem watcher and its debounce/rebuild loop.
    StartWatcher,
    /// Bind the listening address; failure aborts the whole run.
    BindListener,
}

/// The startup sequence of each mode. Rendering strictly precedes binding
/// the listener, so the first served request already sees output; the
/// listener is bound before any background unit starts, so a bind failure
/// aborts the run with no other component running.
pub open spec fn spec_startup_steps(mode: ServeMode) -> Seq<StartupStep> {
    match mode {
        ServeMode::Prod => seq![
            StartupStep::LoadConfig,
            StartupStep::CleanDist,
            StartupStep::CreateDistFolders,
            StartupStep::BuildCssOnce,
            StartupStep::CopyStaticAssets,
            StartupStep::RenderSite,
            StartupStep::BindListener,
        ],
        ServeMode::Dev => seq![
            StartupStep::LoadConfig,
            StartupStep::CleanDist,
            StartupStep::CreateDistFolders,
            StartupStep::CopyStaticAssets,
            StartupStep::RenderSite,
            StartupStep::BindListener,
            StartupStep::StartSidecarWatch,
            StartupStep::StartWatcher,
        ],
    }
}

/// Produce the startup sequence for a mode.
pub fn startup_steps(mode: ServeMode) -> (r: Vec<StartupStep>)
    ensures
        r@ == spec_startup_steps(mode),
{
    let mut r: Vec<StartupStep> = Vec::new();
    r.push(StartupStep::LoadConfig);
    r.push(StartupStep::CleanDist);
    r.push(StartupStep::CreateDistFolders);
    if mode == ServeMode::Prod {
        r.push(StartupStep::BuildCssOnce);
    }
    r.push(StartupStep::CopyStaticAssets);
    r.push(StartupStep::RenderSite);
    r.push(StartupStep::BindListener);
    if mode == ServeMode::Dev {
        r.push(StartupStep::StartSidecarWatch);
        r.push(StartupStep::StartWatcher);
    }
    proof {
        assert(r@ =~= spec_startup_steps(mode));
    }
    r
}

/// The steps a run actually performs, given which steps succeed: steps are
/// attempted in order and the first failure is fatal — nothing after it
/// runs.
pub open spec fn spec_steps_performed(steps: Seq<StartupStep>, ok: Seq<bool>) -> Seq<StartupStep>
    decreases steps.len(),
{
    if steps.len() == 0 {
        Seq::empty()
    } else if ok.len() > 0 && ok[0] {
        seq![steps[0]] + spec_steps_performed(steps.drop_first(), ok.drop_first())
    } else {
        seq![steps[0]]
    }
}

/// Walk a mode's startup sequence, stopping at the first step that fails.
/// `ok` says, per step, whether performing it succeeds: a failed config
/// load, CSS compile, render, bind, sidecar spawn or watcher start is fatal
/// and nothing after it is attempted. The run proceeds to serving exactly
/// when every step succeeded.
pub fn run_startup(mode: ServeMode, ok: &Vec<bool>) -> (r: (Vec<StartupStep>, bool))
    requires
        ok@.len() == spec_startup_steps(mode).len(),
    ensures
        r.0@ == spec_steps_performed(spec_startup_steps(mode), ok@),
        r.1 == (forall|k: int| 0 <= k < ok@.len() ==> ok@[k]),
{
    let steps = startup_steps(mode);
    let mut performed: Vec<StartupStep> = Vec::new();
    let mut i: usize = 0;
    let ghost all = spec_startup_steps(mode);
    proof {
        assert(all.skip(0) =~= all);
        assert(ok@.skip(0) =~= ok@);
    }
    while i < steps.len()
        invariant
            i <= steps@.len(),
            steps@ == all,
            all == spec_startup_steps(mode),
            ok@.len() == all.len(),
            forall|k: int| 0 <= k < i ==> ok@[k],
            performed@ + spec_steps_performed(all.skip(i as int), ok@.skip(i as int))
                =~= spec_steps_performed(all, ok@),
            performed@ =~= all.take(i as int),
        decreases steps@.len() - i,
    {
        proof {
            assert(all.skip(i as int)[0] == all[i as int]);
            assert(ok@.skip(i as int)[0] == ok@[i as int]);
            assert(all.skip(i as int).drop_first() =~= all.skip(i as int + 1));
            assert(ok@.skip(i as int).drop_first() =~= ok@.skip(i as int + 1));
        }
        performed.push(steps[i]);
        proof {
            assert(performed@ =~= all.take(i as int + 1));
        }
        if !ok[i] {
            proof {
                assert(spec_steps_performed(all.skip(i as int), ok@.skip(i as int)) =~= seq![
                    all[i as int],
                ]);
                assert(performed@ =~= spec_steps_performed(all, ok@));
            }
            return (performed, false);
        }
        i = i + 1;
    }
    proof {
        assert(all.skip(all.len() as int) =~= Seq::<StartupStep>::empty());
        assert(spec_steps_performed(all.skip(all.len() as int), ok@.skip(all.len() as int))
            =~= Seq::<StartupStep>::empty());
    }
    (performed, true)
}

/// A startup failure is fatal: when step `j` is the first to fail, exactly
/// the steps up to and including `j` were attempted, and nothing after `j`
/// ever runs.
pub proof fn lemma_startup_failure_is_fatal(steps: Seq<StartupStep>, ok: Seq<bool>, j: int)
    requires
        ok.len() == steps.len(),
        0 <= j < steps.len(),
        !ok[j],
        forall|k: int| 0 <= k < j ==> ok[k],
    ensures
        spec_steps_performed(steps, ok) == steps.take(j + 1),
    decreases j,
{
    if j == 0 {
        assert(spec_steps_performed(steps, ok) =~= steps.take(1));
    } else {
        let st = steps.drop_first();
        let ot = ok.drop_first();
        assert forall|k: int| 0 <= k < j - 1 implies ot[k] by {
            assert(ot[k] == ok[k + 1]);
        }
        assert(ot[j - 1] == ok[j]);
        lemma_startup_failure_is_fatal(st, ot, j - 1);
        assert(spec_steps_performed(steps, ok) =~= seq![steps[0]] + st.take(j));
        assert(steps.take(j + 1) =~= seq![steps[0]] + st.take(j));
    }
}

/// A failed bind aborts the run before any background unit starts: in the
/// development startup sequence the listener is bound before the sidecar
/// and the watcher, so when binding is the first failure, neither
/// `StartSidecarWatch` nor `StartWatcher` is ever performed.
pub proof fn lemma_bind_failure_starts_nothing(ok: Seq<bool>, j: int)
    requires
        ok.len() == spec_startup_steps(ServeMode::Dev).len(),
        0 <= j < ok.len(),
        spec_startup_steps(ServeMode::Dev)[j] == StartupStep::BindListener,
        !ok[j],
        forall|k: int| 0 <= k < j ==> ok[k],
    ensures
        !spec_steps_performed(spec_startup_steps(ServeMode::Dev), ok).contains(
            StartupStep::StartSidecarWatch,
        ),
        !spec_steps_performed(spec_startup_steps(ServeMode::Dev), ok).contains(
            StartupStep::StartWatcher,
        ),
{
    let steps = spec_startup_steps(ServeMode::Dev);
    assert(j == 5);
    lemma_startup_failure_is_fatal(steps, ok, j);
    let performed = spec_steps_performed(steps, ok);
    assert forall|k: int| 0 <= k < performed.len() implies performed[k]
        != StartupStep::StartSidecarWatch && performed[k] != StartupStep::StartWatcher by {
        assert(performed[k] == steps.take(6)[k]);
    }
}

/// How many of the given startup steps a sequence holds.
pub open spec fn count_step(steps: Seq<StartupStep>, step: StartupStep) -> int
    decreases steps.len(),
{
    if steps.len() == 0 {
        0
    } else {
        (if steps[0] == step {
            1int
        } else {
            0int
        }) + count_step(steps.drop_first(), step)
    }
}

/// Production mode performs exactly one compile and one render, and starts
/// neither a watcher nor a sidecar in watch mode; its responses carry no
/// reload injection.
pub proof fn lemma_prod_is_one_shot()
    ensures
        count_step(spec_startup_steps(ServeMode::Prod), StartupStep::BuildCssOnce) == 1,
        count_step(spec_startup_steps(ServeMode::Prod), StartupStep::RenderSite) == 1,
        count_step(spec_startup_steps(ServeMode::Prod), StartupStep::StartWatcher) == 0,
        count_step(spec_startup_steps(ServeMode::Prod), StartupStep::StartSidecarWatch) == 0,
        !spec_plan(ServeMode::Prod).start_watcher,
        !spec_plan(ServeMode::Prod).start_sidecar_watch,
        !spec_plan(ServeMode::Prod).inject_reload,
{
    reveal_with_fuel(count_step, 9);
}

/// Dev mode also renders exactly once at startup; every later render comes
/// from a debounced rebuild trigger.
pub proof fn lemma_dev_initial_render_is_single()
    ensures
        count_step(spec_startup_steps(ServeMode::Dev), StartupStep::RenderSite) == 1,
        count_step(spec_startup_steps(ServeMode::Dev), StartupStep::BuildCssOnce) == 0,
{
    reveal_with_fuel(count_step, 10);
}

/// Apply one rebuild outcome to the served output tree. On failure the
/// previously rendered tree is left exactly as it was and no reload is
/// signalled; on success the new tree replaces it and every connected
/// client is told to refresh.
pub fn apply_build_outcome(served: &mut OutputSet, outcome: BuildOutcome) -> (reload: bool)
    ensures
        outcome is Failure ==> *final(served) == *old(served) && !reload,
        outcome matches BuildOutcome::Success(out) ==> *final(served) == out && reload,
{
    match outcome {
        BuildOutcome::Success(out) => {
            *served = out;
            true
        },
        BuildOutcome::Failure(_) => false,
    }
}

/// The served tree after one outcome.
pub open spec fn spec_apply_outcome(served: OutputSet, outcome: BuildOutcome) -> OutputSet {
    match outcome {
        BuildOutcome::Success(out) => out,
        BuildOutcome::Failure(_) => served,
    }
}

/// The served tree after a whole run of rebuild outcomes.
pub open spec fn served_after(initial: OutputSet, outcomes: Seq<BuildOutcome>) -> OutputSet
    decreases outcomes.len(),
{
    if outcomes.len() == 0 {
        initial
    } else {
        served_after(spec_apply_outcome(initial, outcomes[0]), outcomes.drop_first())
    }
}

/// Failed rebuilds never touch the served output: a run in which every
/// rebuild fails serves the initial tree to the end.
pub proof fn lemma_failures_preserve_served_output(initial: OutputSet, outcomes: Seq<BuildOutcome>)
    requires
        forall|i: int| 0 <= i < outcomes.len() ==> (#[trigger] outcomes[i]) is Failure,
    ensures
        served_after(initial, outcomes) == initial,
    decreases outcomes.len(),
{
    if outcomes.len() > 0 {
        lemma_failures_preserve_served_output(initial, outcomes.drop_first());
    }
}

/// The watch loop's continuation decision: only cancellation ends the loop;
/// a failed rebuild never does.
pub fn watch_loop_continues(cancelled: bool, last_outcome: &BuildOutcome) -> (r: bool)
    ensures
        r == !cancelled,
{
    let _ = last_outcome;
    !cancelled
}

} // verus!
