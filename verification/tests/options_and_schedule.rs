use minecraft_plus_wayland::lock::state::{AttemptId, LockVisual};
use minecraft_plus_wayland::options::{
    complete_options, parse_arguments, parse_options, ModuleSelection, OptionsError,
    StartupMode, StartupOptions,
};
use minecraft_plus_wayland::renderer::RenderOutcome;
use minecraft_plus_wayland::schedule::{
    advance_periodic_deadline, earliest_deadline, initial_module_deadline, module_id_excluding,
    random_module_excluding, switch_due, IntervalTooLarge,
};
use minecraft_plus_wayland::session::{
    all_outputs_presented, continuous_frame_required, overlay_wants_continuous_frames,
    presented_marker,
};
use minecraft_plus_wayland::time::{seconds, Instant};

fn arguments(arguments: &[&str]) -> Vec<String> {
    arguments.iter().map(|argument| (*argument).to_owned()).collect()
}

fn options(list: &[&str]) -> Result<StartupOptions, OptionsError> {
    parse_options(&arguments(list))
}

fn at(seconds_after: u64) -> Instant {
    Instant { nanos: 5_000_000_000 + seconds(seconds_after) }
}

#[test]
fn module_long_and_short_options_select_a_fixed_module() {
    for option in ["--module", "-m"] {
        let parsed = options(&[option, "4"]).unwrap();
        assert_eq!(parsed.module.id(), 4);
        assert!(parsed.module_switch_interval.is_none());
        assert!(matches!(parsed.mode, StartupMode::LayerShell));
    }
}

#[test]
fn interval_long_and_short_options_schedule_whole_seconds() {
    for option in ["--interval", "-t"] {
        let parsed = options(&["--lock", option, "7"]).unwrap();
        assert_eq!(parsed.module_switch_interval, Some(seconds(7)));
        assert!(matches!(parsed.mode, StartupMode::SessionLock));
    }
}

#[test]
fn zero_or_omitted_interval_disables_switching() {
    assert!(options(&[]).unwrap().module_switch_interval.is_none());
    assert!(options(&["--interval", "0"])
        .unwrap()
        .module_switch_interval
        .is_none());
}

#[test]
fn module_and_interval_conflict_in_either_order_including_zero() {
    for list in [
        &["--module", "3", "--interval", "5"][..],
        &["-t", "5", "-m", "3"][..],
        &["-m", "3", "-t", "0"][..],
    ] {
        let given = arguments(list);
        assert_eq!(
            parse_options(&given).unwrap_err().message(&given),
            "--module/-m conflicts with --interval/-t"
        );
    }
}

#[test]
fn interval_rejects_missing_negative_and_fractional_values() {
    for list in [
        &["--interval"][..],
        &["--interval", "-1"][..],
        &["-t", "0.5"][..],
    ] {
        assert!(options(list).is_err());
    }
}

#[test]
fn initial_interval_is_validated_before_runtime_setup() {
    let start = at(0);
    assert_eq!(initial_module_deadline(start, None), Ok(None));
    assert_eq!(
        initial_module_deadline(start, Some(seconds(5))),
        Ok(Some(at(5)))
    );
    let refused = initial_module_deadline(start, Some(u128::MAX)).unwrap_err();
    assert_eq!(refused, IntervalTooLarge);
    assert_eq!(refused.message(), "--interval is too large to schedule");
}

#[test]
fn replacement_slot_mapping_is_uniform_and_never_repeats_current_module() {
    for current in 0..13 {
        let mut ids = (0..12)
            .map(|slot| module_id_excluding(current, slot))
            .collect::<Vec<_>>();
        assert!(ids.iter().all(|id| *id != current && *id < 13));
        ids.sort_unstable();
        ids.dedup();
        assert_eq!(ids.len(), 12);
    }
}

#[test]
fn periodic_deadline_skips_missed_ticks_without_drift_or_catch_up() {
    let interval = seconds(5);
    let deadline = at(5);
    assert_eq!(
        advance_periodic_deadline(deadline, interval, at(16)),
        Some(at(20))
    );
    assert_eq!(
        advance_periodic_deadline(deadline, interval, deadline),
        Some(at(10))
    );
}

#[test]
fn event_loop_uses_the_earliest_lock_or_module_deadline() {
    let lock = at(2);
    let module = at(5);
    assert_eq!(earliest_deadline(Some(lock), Some(module)), Some(lock));
    assert_eq!(earliest_deadline(None, Some(module)), Some(module));
    assert_eq!(earliest_deadline(None, None), None);
}

#[test]
fn converged_torch_ignores_a_hidden_continuous_module() {
    let torch = LockVisual::Torch { mask: 0b0111, state_id: 4 };
    assert!(continuous_frame_required(torch, true, true));
    assert!(!continuous_frame_required(torch, true, false));
    assert!(continuous_frame_required(LockVisual::Hidden, true, false));
    assert!(!continuous_frame_required(
        LockVisual::Creeper { approach_started_at: at(0), red: false },
        true,
        false,
    ));
}

#[test]
fn output_add_remove_bookkeeping_cannot_reuse_an_old_dissolve_frame() {
    let attempt = AttemptId::new(3);
    let old_attempt = AttemptId::new(2);
    let mut outputs = vec![Some(attempt), Some(attempt)];
    assert!(all_outputs_presented(&outputs, attempt));
    assert!(!all_outputs_presented(&[], attempt));

    outputs.push(None);
    assert!(!all_outputs_presented(&outputs, attempt));
    outputs[2] = Some(old_attempt);
    assert!(!all_outputs_presented(&outputs, attempt));
    outputs[2] = Some(attempt);
    assert!(all_outputs_presented(&outputs, attempt));

    outputs.remove(1);
    assert!(all_outputs_presented(&outputs, attempt));
}

#[test]
fn every_module_number_is_read_back() {
    for id in 0..13u8 {
        let module = ModuleSelection::from_id(id).unwrap();
        assert_eq!(module.id(), id);
    }
    assert!(ModuleSelection::from_id(13).is_none());
}

#[test]
fn bad_arguments_are_explained() {
    let explained = |list: &[&str]| {
        let given = arguments(list);
        parse_options(&given).unwrap_err().message(&given)
    };
    assert_eq!(explained(&["--module"]), "--module/-m requires a module number");
    assert_eq!(explained(&["-m", "x"]), "--module/-m requires an integer module number");
    assert_eq!(
        explained(&["--module", "13"]),
        "module=13 is outside the valid range 0..=12"
    );
    assert_eq!(explained(&["-t"]), "--interval/-t requires a number of seconds");
    assert_eq!(
        explained(&["-t", "x"]),
        "--interval/-t requires a non-negative integer number of seconds"
    );
    assert_eq!(
        explained(&["--lock", "--fro\"b"]),
        "unknown argument \"--fro\\\"b\"; usage: minecraft-plus-wayland [--lock] [--module|-m <n> | --interval|-t <seconds>]"
    );
    assert!(explained(&["-h"]).starts_with("Usage: minecraft-plus-wayland [--lock]"));
    assert_eq!(options(&["-h"]), Err(OptionsError::HelpRequested));
    assert_eq!(options(&["--module", "256"]), Err(OptionsError::ModuleNotANumber));
    assert_eq!(options(&["--module", "+4"]).unwrap().module.id(), 4);
}

#[test]
fn a_drawn_module_completes_the_arguments() {
    let read = parse_arguments(&arguments(&["-t", "3"])).unwrap();
    let drawn = ModuleSelection::from_id(9).unwrap();
    let completed = complete_options(read, drawn);
    assert_eq!(completed.module.id(), 9);
    assert_eq!(completed.module_switch_interval, Some(seconds(3)));

    let fixed = parse_arguments(&arguments(&["-m", "2"])).unwrap();
    assert_eq!(complete_options(fixed, drawn).module.id(), 2);
}

#[test]
fn a_replacement_is_always_another_module() {
    for id in 0..13u8 {
        let current = ModuleSelection::from_id(id).unwrap();
        for _ in 0..50 {
            assert_ne!(random_module_excluding(current).id(), id);
        }
    }
}

#[test]
fn switches_wait_for_their_deadline() {
    let interval = seconds(5);
    assert_eq!(
        switch_due(Some(interval), Some(at(5)), at(5), true),
        Some((interval, at(5)))
    );
    assert_eq!(switch_due(Some(interval), Some(at(5)), at(4), true), None);
    assert_eq!(switch_due(Some(interval), Some(at(5)), at(5), false), None);
    assert_eq!(switch_due(None, Some(at(5)), at(5), true), None);
}

#[test]
fn a_dissolve_counts_only_when_it_was_shown_to_its_end() {
    let attempt = AttemptId::new(1);
    let dissolving = LockVisual::DissolvingCreeper {
        attempt,
        approach_started_at: at(0),
        started_at: at(0),
    };
    assert_eq!(presented_marker(None, dissolving, RenderOutcome::Presented, at(1)), Some(attempt));
    assert_eq!(presented_marker(None, dissolving, RenderOutcome::Skipped, at(1)), None);
    assert_eq!(presented_marker(None, dissolving, RenderOutcome::Presented, at(0)), None);

    assert!(overlay_wants_continuous_frames(dissolving, false, at(9)));
    let torch = LockVisual::Torch { mask: 1, state_id: 0 };
    assert!(overlay_wants_continuous_frames(torch, true, at(0)));
    assert!(!overlay_wants_continuous_frames(torch, false, at(0)));
}

#[test]
fn deadlines_keep_their_grid() {
    let interval = seconds(7);
    for late in 0..60 {
        let next = advance_periodic_deadline(at(3), interval, at(3 + late)).unwrap();
        assert!(next.nanos > at(3 + late).nanos);
        assert_eq!((next.nanos - at(3).nanos) % interval, 0);
        assert!(next.nanos - at(3 + late).nanos <= interval);
    }
}
