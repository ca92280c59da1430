use ferropress::cancel::CancelToken;
use ferropress::cli::{command_serve_mode, Commands};
use ferropress::models::{BuildError, BuildOutcome, OutputFile, OutputSet, ServeMode};
use ferropress::orchestrator::{
    apply_build_outcome, plan_for, run_startup, startup_steps, watch_loop_continues, StartupStep,
};
use ferropress::server::{server_step, ServerEvent, ServerPhase};
use ferropress::sidecar::{sidecar_step, SidecarEvent, SidecarState};
use ferropress::watch::{debounce_schedule, is_actionable, EventKind, WatchEvent};

fn ev(at_ms: u64, kind: EventKind) -> WatchEvent {
    WatchEvent { at_ms, kind }
}

#[test]
fn token_starts_active() {
    let t = CancelToken::new();
    assert!(!t.is_cancelled());
}

#[test]
fn cancel_is_permanent_and_idempotent() {
    let mut t = CancelToken::new();
    t.cancel();
    assert!(t.is_cancelled());
    t.cancel();
    assert!(t.is_cancelled());
}

#[test]
fn access_events_are_not_actionable() {
    assert!(!is_actionable(EventKind::Access));
    assert!(is_actionable(EventKind::Modify));
    assert!(is_actionable(EventKind::Create));
    assert!(is_actionable(EventKind::Remove));
    assert!(is_actionable(EventKind::Other));
}

#[test]
fn two_rapid_saves_trigger_one_rebuild() {
    // Two saves 50ms apart followed by silence, quiet period 150ms.
    let events = vec![ev(0, EventKind::Modify), ev(50, EventKind::Modify)];
    let schedule = debounce_schedule(&events, 150);
    assert_eq!(schedule, vec![150]);
}

#[test]
fn burst_within_quiet_period_triggers_once() {
    let events = vec![
        ev(10, EventKind::Create),
        ev(20, EventKind::Modify),
        ev(90, EventKind::Modify),
        ev(140, EventKind::Remove),
    ];
    let schedule = debounce_schedule(&events, 150);
    assert_eq!(schedule, vec![160]);
}

#[test]
fn access_events_alone_trigger_nothing() {
    let events = vec![ev(0, EventKind::Access), ev(70, EventKind::Access)];
    let schedule = debounce_schedule(&events, 150);
    assert!(schedule.is_empty());
}

#[test]
fn access_events_mixed_into_burst_change_nothing() {
    let with_access = vec![
        ev(0, EventKind::Access),
        ev(10, EventKind::Modify),
        ev(20, EventKind::Access),
        ev(60, EventKind::Modify),
    ];
    let without_access = vec![ev(10, EventKind::Modify), ev(60, EventKind::Modify)];
    assert_eq!(
        debounce_schedule(&with_access, 150),
        debounce_schedule(&without_access, 150)
    );
}

#[test]
fn sustained_stream_past_drain_point_rebuilds_again() {
    // The quiet period is armed once per burst, not reset per event: a
    // stream spaced under the quiet period but outlasting it coalesces
    // into more than one rebuild.
    let events = vec![
        ev(0, EventKind::Modify),
        ev(100, EventKind::Modify),
        ev(200, EventKind::Modify),
    ];
    let schedule = debounce_schedule(&events, 150);
    assert_eq!(schedule, vec![150, 350]);
}

#[test]
fn empty_stream_never_rebuilds() {
    let schedule = debounce_schedule(&Vec::new(), 150);
    assert!(schedule.is_empty());
}

#[test]
fn cancellation_kills_running_sidecar() {
    let (state, action) = sidecar_step(SidecarState::Running, SidecarEvent::CancelObserved);
    assert_eq!(state, SidecarState::Killed);
    assert!(action.kill_child);
    assert!(!action.cancel_run);
}

#[test]
fn sidecar_crash_is_reported_but_never_cancels_run() {
    let (state, action) = sidecar_step(SidecarState::Running, SidecarEvent::ChildExited);
    assert_eq!(state, SidecarState::Exited);
    assert!(!action.kill_child);
    assert!(action.report_exit);
    assert!(!action.cancel_run);
}

#[test]
fn terminated_sidecar_states_absorb_events() {
    for s in [SidecarState::Exited, SidecarState::Killed] {
        for e in [SidecarEvent::CancelObserved, SidecarEvent::ChildExited] {
            let (next, action) = sidecar_step(s, e);
            assert_eq!(next, s);
            assert!(!action.kill_child && !action.report_exit && !action.cancel_run);
        }
    }
}

#[test]
fn server_lifecycle_clean_shutdown() {
    let p = ServerPhase::Starting;
    let p = server_step(p, ServerEvent::BindSucceeded);
    assert_eq!(p, ServerPhase::Listening);
    let p = server_step(p, ServerEvent::CancelObserved);
    assert_eq!(p, ServerPhase::Draining);
    let p = server_step(p, ServerEvent::InFlightComplete);
    assert_eq!(p, ServerPhase::Stopped);
    // Stopped absorbs everything.
    assert_eq!(server_step(p, ServerEvent::BindSucceeded), ServerPhase::Stopped);
}

#[test]
fn bind_failure_aborts_the_run() {
    assert_eq!(
        server_step(ServerPhase::Starting, ServerEvent::BindFailed),
        ServerPhase::Stopped
    );
}

#[test]
fn no_server_phase_after_cancel_accepts_connections() {
    for p in [
        ServerPhase::Starting,
        ServerPhase::Listening,
        ServerPhase::Draining,
        ServerPhase::Stopped,
    ] {
        let next = server_step(p, ServerEvent::CancelObserved);
        assert_ne!(next, ServerPhase::Listening);
    }
}

#[test]
fn prod_plan_is_one_shot() {
    let plan = plan_for(ServeMode::Prod);
    assert!(!plan.start_watcher);
    assert!(!plan.start_sidecar_watch);
    assert!(plan.build_css_once);
    assert!(!plan.inject_reload);
}

#[test]
fn dev_plan_runs_the_background_units() {
    let plan = plan_for(ServeMode::Dev);
    assert!(plan.start_watcher);
    assert!(plan.start_sidecar_watch);
    assert!(!plan.build_css_once);
    assert!(plan.inject_reload);
}

#[test]
fn prod_startup_compiles_and_renders_exactly_once() {
    let steps = startup_steps(ServeMode::Prod);
    let css = steps.iter().filter(|s| **s == StartupStep::BuildCssOnce).count();
    let renders = steps.iter().filter(|s| **s == StartupStep::RenderSite).count();
    assert_eq!(css, 1);
    assert_eq!(renders, 1);
    assert!(!steps.contains(&StartupStep::StartWatcher));
    assert!(!steps.contains(&StartupStep::StartSidecarWatch));
}

#[test]
fn dev_startup_binds_before_background_units_start() {
    let steps = startup_steps(ServeMode::Dev);
    let render_at = steps.iter().position(|s| *s == StartupStep::RenderSite).unwrap();
    let bind_at = steps.iter().position(|s| *s == StartupStep::BindListener).unwrap();
    let sidecar_at = steps.iter().position(|s| *s == StartupStep::StartSidecarWatch).unwrap();
    let watcher_at = steps.iter().position(|s| *s == StartupStep::StartWatcher).unwrap();
    assert!(render_at < bind_at && bind_at < sidecar_at && sidecar_at < watcher_at);
    assert!(!steps.contains(&StartupStep::BuildCssOnce));
}

#[test]
fn startup_stops_at_the_first_failing_step() {
    let steps = startup_steps(ServeMode::Dev);
    // Binding is the sixth step; let it fail.
    assert_eq!(steps[5], StartupStep::BindListener);
    let mut ok = vec![true; steps.len()];
    ok[5] = false;
    let (performed, proceeded) = run_startup(ServeMode::Dev, &ok);
    assert!(!proceeded);
    assert_eq!(performed, steps[..6].to_vec());
    assert!(!performed.contains(&StartupStep::StartSidecarWatch));
    assert!(!performed.contains(&StartupStep::StartWatcher));
}

#[test]
fn startup_with_all_steps_succeeding_proceeds() {
    let steps = startup_steps(ServeMode::Prod);
    let ok = vec![true; steps.len()];
    let (performed, proceeded) = run_startup(ServeMode::Prod, &ok);
    assert!(proceeded);
    assert_eq!(performed, steps);
}

#[test]
fn failed_sidecar_spawn_at_startup_runs_nothing_further() {
    let steps = startup_steps(ServeMode::Dev);
    assert_eq!(steps[6], StartupStep::StartSidecarWatch);
    let mut ok = vec![true; steps.len()];
    ok[6] = false;
    let (performed, proceeded) = run_startup(ServeMode::Dev, &ok);
    assert!(!proceeded);
    assert!(!performed.contains(&StartupStep::StartWatcher));
}

fn output(files: Vec<(&str, &str)>) -> OutputSet {
    OutputSet {
        files: files
            .into_iter()
            .map(|(p, c)| OutputFile { rel_path: p.to_owned(), contents: c.to_owned() })
            .collect(),
    }
}

#[test]
fn failed_rebuild_leaves_served_output_unchanged() {
    let mut served = output(vec![("index.html", "<p>old</p>")]);
    let reload = apply_build_outcome(
        &mut served,
        BuildOutcome::Failure(BuildError::ConfigLoad("gone".to_owned())),
    );
    assert!(!reload);
    assert_eq!(served.files.len(), 1);
    assert_eq!(served.files[0].rel_path, "index.html");
    assert_eq!(served.files[0].contents, "<p>old</p>");
}

#[test]
fn successful_rebuild_replaces_output_and_reloads() {
    let mut served = output(vec![("index.html", "<p>old</p>")]);
    let reload = apply_build_outcome(
        &mut served,
        BuildOutcome::Success(output(vec![("index.html", "<p>new</p>")])),
    );
    assert!(reload);
    assert_eq!(served.files[0].contents, "<p>new</p>");
}

#[test]
fn watch_loop_survives_build_failures_and_stops_on_cancel() {
    let failure = BuildOutcome::Failure(BuildError::RenderPage("boom".to_owned()));
    assert!(watch_loop_continues(false, &failure));
    assert!(!watch_loop_continues(true, &failure));
}

#[test]
fn error_kinds_have_operator_descriptions() {
    assert_eq!(
        BuildError::ConfigLoad(String::new()).kind_name(),
        "failed to load site configuration"
    );
    assert_eq!(
        BuildError::TemplateInit(String::new()).kind_name(),
        "failed to initialize templates"
    );
    assert_eq!(BuildError::ParseContent(String::new()).kind_name(), "failed to parse content");
    assert_eq!(BuildError::RenderPage(String::new()).kind_name(), "failed to render page");
    assert_eq!(
        BuildError::CopyAssets(String::new()).kind_name(),
        "failed to copy static assets"
    );
    assert_eq!(BuildError::CssBuild(String::new()).kind_name(), "stylesheet build failed");
}

#[test]
fn preview_serves_dev_and_serve_serves_prod() {
    assert_eq!(command_serve_mode(&Commands::Preview), Some(ServeMode::Dev));
    assert_eq!(command_serve_mode(&Commands::Serve), Some(ServeMode::Prod));
    assert_eq!(command_serve_mode(&Commands::Build), None);
    assert_eq!(
        command_serve_mode(&Commands::Init {
            path: ".".to_owned(),
            overwrite: false,
            clean: false
        }),
        None
    );
}
