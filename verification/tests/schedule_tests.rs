use chronoturin::particle::Mode;
use chronoturin::schedule::{
    action, advance, begin, pass_mode, Action, Event, Plan, Progress, Stage, FRAMES_PER_PASS,
    PARTICLE_COUNT, PASSES, STEPS_PER_FRAME, WORKGROUP_SIZE,
};

/// Runs a plan to its end, failing the snapshots whose place in the run is
/// listed, and returns every action handed out.
fn run_to_end(plan: &Plan, failing_snapshots: &[usize]) -> Vec<Action> {
    let (mut progress, mut due) = begin(plan);
    let mut actions = Vec::new();
    let mut snapshots = 0usize;
    loop {
        actions.push(due);
        let event = match due {
            Action::Finish => break,
            Action::Snapshot { .. } => {
                snapshots += 1;
                if failing_snapshots.contains(&(snapshots - 1)) {
                    Event::SnapshotFailed
                } else {
                    Event::Completed
                }
            }
            _ => Event::Completed,
        };
        let next = advance(plan, &progress, event);
        progress = next.0;
        due = next.1;
        assert!(actions.len() < 100_000);
    }
    assert_eq!(progress, Progress { pass: PASSES, frame: 0, stage: Stage::Finished });
    actions
}

#[test]
fn standard_plan() {
    let plan = Plan::standard();
    assert_eq!(plan.particles, 100_000);
    assert_eq!(plan.workgroup_size, 256);
    assert_eq!(plan.frames, 150);
    assert_eq!(plan.steps, 5);
    assert_eq!(PARTICLE_COUNT, 100_000);
    assert_eq!(WORKGROUP_SIZE, 256);
    assert_eq!(FRAMES_PER_PASS, 150);
    assert_eq!(STEPS_PER_FRAME, 5);
    assert_eq!(PASSES, 2);
}

#[test]
fn plan_needs_a_workgroup_size() {
    assert_eq!(Plan::new(10, 0, 1, 1), None);
    assert_eq!(
        Plan::new(10, 4, 1, 2),
        Some(Plan { particles: 10, workgroup_size: 4, frames: 1, steps: 2 })
    );
}

#[test]
fn workgroups_round_up() {
    assert_eq!(Plan::standard().workgroups(), 391);
    assert_eq!(Plan::new(256, 256, 1, 1).unwrap().workgroups(), 1);
    assert_eq!(Plan::new(257, 256, 1, 1).unwrap().workgroups(), 2);
    assert_eq!(Plan::new(255, 256, 1, 1).unwrap().workgroups(), 1);
    assert_eq!(Plan::new(0, 256, 1, 1).unwrap().workgroups(), 0);
    assert_eq!(Plan::new(4, 1, 1, 1).unwrap().workgroups(), 4);
    assert_eq!(Plan::new(u32::MAX, 256, 1, 1).unwrap().workgroups(), 16_777_216);
    assert_eq!(Plan::new(u32::MAX, u32::MAX, 1, 1).unwrap().workgroups(), 1);
    assert_eq!(Plan::new(u32::MAX, 1, 1, 1).unwrap().workgroups(), u32::MAX);
}

#[test]
fn snapshot_covers_the_whole_store() {
    assert_eq!(Plan::standard().snapshot_bytes(), 4_000_000);
    assert_eq!(Plan::new(4, 256, 1, 0).unwrap().snapshot_bytes(), 160);
}

#[test]
fn first_pass_is_the_baseline() {
    assert_eq!(pass_mode(0), Mode::Baseline);
    assert_eq!(pass_mode(1), Mode::Dilated);
}

#[test]
fn run_begins_by_seeding_the_baseline() {
    let plan = Plan::standard();
    let (progress, due) = begin(&plan);
    assert_eq!(progress, Progress { pass: 0, frame: 0, stage: Stage::Seeding });
    assert_eq!(due, Action::Seed { mode: Mode::Baseline, particles: 100_000 });
}

#[test]
fn one_frame_is_steps_then_snapshot_then_present() {
    let plan = Plan::standard();
    let actions = run_to_end(&plan, &[]);
    assert_eq!(actions[0], Action::Seed { mode: Mode::Baseline, particles: 100_000 });
    for step in 1..6 {
        assert_eq!(actions[step], Action::Dispatch { workgroups: 391 });
    }
    assert_eq!(actions[6], Action::Snapshot { bytes: 4_000_000 });
    assert_eq!(actions[7], Action::Present { mode: Mode::Baseline, frame: 0 });
    assert_eq!(actions[8], Action::Dispatch { workgroups: 391 });
    assert_eq!(actions[14], Action::Present { mode: Mode::Baseline, frame: 1 });
}

#[test]
fn standard_run_has_two_passes_of_150_frames() {
    let plan = Plan::standard();
    let actions = run_to_end(&plan, &[]);
    // per pass: 1 seed + 150 * (5 steps + snapshot + present); then the finish
    assert_eq!(actions.len(), 2 * (1 + 150 * 7) + 1);
    let seeds: Vec<&Action> =
        actions.iter().filter(|a| matches!(a, Action::Seed { .. })).collect();
    assert_eq!(
        seeds,
        vec![
            &Action::Seed { mode: Mode::Baseline, particles: 100_000 },
            &Action::Seed { mode: Mode::Dilated, particles: 100_000 },
        ]
    );
    assert_eq!(actions[1051], Action::Seed { mode: Mode::Dilated, particles: 100_000 });
    assert_eq!(actions.iter().filter(|a| matches!(a, Action::Dispatch { .. })).count(), 1500);
    assert_eq!(actions.iter().filter(|a| matches!(a, Action::Snapshot { .. })).count(), 300);
    let presented: Vec<(Mode, u32)> = actions
        .iter()
        .filter_map(|a| match a {
            Action::Present { mode, frame } => Some((*mode, *frame)),
            _ => None,
        })
        .collect();
    assert_eq!(presented.len(), 300);
    for frame in 0..150u32 {
        assert_eq!(presented[frame as usize], (Mode::Baseline, frame));
        assert_eq!(presented[150 + frame as usize], (Mode::Dilated, frame));
    }
    assert_eq!(actions[actions.len() - 1], Action::Finish);
    assert_eq!(actions.iter().filter(|a| matches!(a, Action::Finish)).count(), 1);
}

#[test]
fn every_action_is_sized_for_the_same_population() {
    let plan = Plan::new(1000, 64, 3, 2).unwrap();
    for action in run_to_end(&plan, &[1]) {
        match action {
            Action::Seed { particles, .. } => assert_eq!(particles, 1000),
            Action::Dispatch { workgroups } => assert_eq!(workgroups, 16),
            Action::Snapshot { bytes } => assert_eq!(bytes, 40_000),
            Action::Present { .. } | Action::Finish => {}
        }
    }
}

#[test]
fn failed_snapshot_drops_its_frame_only() {
    let plan = Plan::new(4, 256, 3, 1).unwrap();
    let actions = run_to_end(&plan, &[1, 5]);
    let presented: Vec<(Mode, u32)> = actions
        .iter()
        .filter_map(|a| match a {
            Action::Present { mode, frame } => Some((*mode, *frame)),
            _ => None,
        })
        .collect();
    assert_eq!(
        presented,
        vec![
            (Mode::Baseline, 0),
            (Mode::Baseline, 2),
            (Mode::Dilated, 0),
            (Mode::Dilated, 1),
        ]
    );
    assert_eq!(actions.iter().filter(|a| matches!(a, Action::Snapshot { .. })).count(), 6);
    assert_eq!(actions.iter().filter(|a| matches!(a, Action::Dispatch { .. })).count(), 6);
    assert_eq!(actions.len(), 2 * (1 + 3 * 3) + 1 - 2);
}

#[test]
fn failed_snapshot_moves_to_the_next_frame() {
    let plan = Plan::standard();
    let reading = Progress { pass: 0, frame: 3, stage: Stage::Reading };
    let (next, due) = advance(&plan, &reading, Event::SnapshotFailed);
    assert_eq!(next, Progress { pass: 0, frame: 4, stage: Stage::Stepping { done: 0 } });
    assert_eq!(due, Action::Dispatch { workgroups: 391 });
    let (next, due) = advance(&plan, &reading, Event::Completed);
    assert_eq!(next, Progress { pass: 0, frame: 3, stage: Stage::Presenting });
    assert_eq!(due, Action::Present { mode: Mode::Baseline, frame: 3 });
}

#[test]
fn last_frame_of_a_pass_leads_to_the_next_seed() {
    let plan = Plan::standard();
    let last = Progress { pass: 0, frame: 149, stage: Stage::Presenting };
    let (next, due) = advance(&plan, &last, Event::Completed);
    assert_eq!(next, Progress { pass: 1, frame: 0, stage: Stage::Seeding });
    assert_eq!(due, Action::Seed { mode: Mode::Dilated, particles: 100_000 });
    let last = Progress { pass: 1, frame: 149, stage: Stage::Reading };
    let (next, due) = advance(&plan, &last, Event::SnapshotFailed);
    assert_eq!(next, Progress { pass: 2, frame: 0, stage: Stage::Finished });
    assert_eq!(due, Action::Finish);
}

#[test]
fn finished_run_stays_finished() {
    let plan = Plan::standard();
    let end = Progress { pass: 2, frame: 0, stage: Stage::Finished };
    assert_eq!(advance(&plan, &end, Event::Completed), (end, Action::Finish));
    assert_eq!(advance(&plan, &end, Event::SnapshotFailed), (end, Action::Finish));
    assert_eq!(action(&plan, &end), Action::Finish);
}

#[test]
fn steps_count_up_within_a_frame() {
    let plan = Plan::standard();
    let mut progress = Progress { pass: 1, frame: 7, stage: Stage::Stepping { done: 0 } };
    for done in 1..5u32 {
        let (next, due) = advance(&plan, &progress, Event::Completed);
        assert_eq!(next, Progress { pass: 1, frame: 7, stage: Stage::Stepping { done } });
        assert_eq!(due, Action::Dispatch { workgroups: 391 });
        progress = next;
    }
    let (next, due) = advance(&plan, &progress, Event::Completed);
    assert_eq!(next, Progress { pass: 1, frame: 7, stage: Stage::Reading });
    assert_eq!(due, Action::Snapshot { bytes: 4_000_000 });
}

#[test]
fn frame_without_steps_reads_the_seeded_store() {
    let plan = Plan::new(4, 256, 1, 0).unwrap();
    let actions = run_to_end(&plan, &[]);
    assert_eq!(
        actions,
        vec![
            Action::Seed { mode: Mode::Baseline, particles: 4 },
            Action::Snapshot { bytes: 160 },
            Action::Present { mode: Mode::Baseline, frame: 0 },
            Action::Seed { mode: Mode::Dilated, particles: 4 },
            Action::Snapshot { bytes: 160 },
            Action::Present { mode: Mode::Dilated, frame: 0 },
            Action::Finish,
        ]
    );
}

#[test]
fn pass_without_frames_only_seeds() {
    let plan = Plan::new(4, 256, 0, 5).unwrap();
    assert_eq!(
        run_to_end(&plan, &[]),
        vec![
            Action::Seed { mode: Mode::Baseline, particles: 4 },
            Action::Seed { mode: Mode::Dilated, particles: 4 },
            Action::Finish,
        ]
    );
}

#[test]
fn plan_validity() {
    assert!(Plan::standard().is_valid());
    assert!(Plan { particles: 0, workgroup_size: 1, frames: 0, steps: 0 }.is_valid());
    assert!(!Plan { particles: 10, workgroup_size: 0, frames: 1, steps: 1 }.is_valid());
}

#[test]
fn progress_validity() {
    let plan = Plan::standard();
    assert!(Progress { pass: 0, frame: 0, stage: Stage::Seeding }.is_valid(&plan));
    assert!(Progress { pass: 1, frame: 149, stage: Stage::Stepping { done: 4 } }.is_valid(&plan));
    assert!(Progress { pass: 1, frame: 149, stage: Stage::Reading }.is_valid(&plan));
    assert!(Progress { pass: 0, frame: 0, stage: Stage::Presenting }.is_valid(&plan));
    assert!(Progress { pass: 2, frame: 0, stage: Stage::Finished }.is_valid(&plan));
    assert!(!Progress { pass: 2, frame: 0, stage: Stage::Seeding }.is_valid(&plan));
    assert!(!Progress { pass: 0, frame: 1, stage: Stage::Seeding }.is_valid(&plan));
    assert!(!Progress { pass: 0, frame: 150, stage: Stage::Reading }.is_valid(&plan));
    assert!(!Progress { pass: 0, frame: 0, stage: Stage::Stepping { done: 5 } }.is_valid(&plan));
    assert!(!Progress { pass: 1, frame: 0, stage: Stage::Finished }.is_valid(&plan));
    let every_state_is_valid = {
        let (mut progress, mut due) = begin(&plan);
        let mut valid = progress.is_valid(&plan);
        while due != Action::Finish {
            let next = advance(&plan, &progress, Event::Completed);
            progress = next.0;
            due = next.1;
            valid = valid && progress.is_valid(&plan);
        }
        valid
    };
    assert!(every_state_is_valid);
}
