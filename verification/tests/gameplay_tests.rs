use termdash::gameplay::{RunStats, TriggerActivation, TriggerHit, TriggerState};

fn hit(entity: u64, active: bool) -> TriggerHit {
    TriggerHit { entity, active }
}

#[test]
fn trigger_fires_once_per_entry() {
    let mut state = TriggerState::new();
    assert_eq!(state.step(&vec![hit(1, true), hit(2, false)]), vec![1]);
    assert_eq!(state.step(&vec![hit(1, true), hit(2, false)]), Vec::<u64>::new());
    assert!(state.contains(1));
    assert!(!state.contains(2));
    assert_eq!(state.step(&vec![hit(2, true)]), vec![2]);
    assert!(!state.contains(1));
    assert_eq!(state.step(&vec![hit(1, true), hit(2, true)]), vec![1]);
}

#[test]
fn inactive_trigger_is_forgotten() {
    let mut state = TriggerState::default();
    state.step(&vec![hit(7, true)]);
    state.step(&vec![hit(7, false)]);
    assert!(!state.contains(7));
    assert_eq!(state.step(&vec![hit(7, true)]), vec![7]);
    state.clear();
    assert!(!state.contains(7));
}

#[test]
fn activation_rules() {
    assert!(TriggerActivation::Touch.is_active(false, false));
    assert!(TriggerActivation::JumpPressed.is_active(true, false));
    assert!(!TriggerActivation::JumpPressed.is_active(false, true));
    assert!(TriggerActivation::TouchOnSide.is_active(false, true));
    assert!(!TriggerActivation::TouchOnSide.is_active(true, false));
}

#[test]
fn run_stats_count_deaths_and_victory() {
    let mut stats = RunStats::default();
    stats.record_death();
    stats.record_death();
    assert_eq!(stats.attempts, 2);
    assert!(!stats.is_victory());
    stats.percent = 100;
    assert!(stats.is_victory());
}

#[test]
fn visiting_triggers_one_by_one_fires_once_per_entry() {
    let mut state = TriggerState::new();
    state.retain_hits(&vec![1, 2]);
    assert!(state.visit(1, true));
    assert!(!state.visit(2, false));
    assert!(state.contains(1));
    assert!(!state.contains(2));
    // next frame: still inside 1, 2 now acts
    state.retain_hits(&vec![1, 2]);
    assert!(!state.visit(1, true));
    assert!(state.visit(2, true));
    // the player leaves 1: it is forgotten and fires on the next entry
    state.retain_hits(&vec![2]);
    assert!(!state.contains(1));
    assert!(!state.visit(2, true));
    state.retain_hits(&vec![1, 2]);
    assert!(state.visit(1, true));
}

#[test]
fn visiting_matches_the_frame_rule() {
    let frames = [
        vec![TriggerHit { entity: 4, active: true }, TriggerHit { entity: 5, active: false }],
        vec![TriggerHit { entity: 4, active: true }, TriggerHit { entity: 5, active: true }],
        vec![TriggerHit { entity: 5, active: false }],
    ];
    let mut whole = TriggerState::new();
    let mut one_by_one = TriggerState::new();
    for hits in frames.iter() {
        let fired = whole.step(hits);
        let entities: Vec<u64> = hits.iter().map(|hit| hit.entity).collect();
        one_by_one.retain_hits(&entities);
        let mut visited = Vec::new();
        for hit in hits {
            if one_by_one.visit(hit.entity, hit.active) {
                visited.push(hit.entity);
            }
        }
        assert_eq!(fired, visited);
        for entity in [4, 5] {
            assert_eq!(whole.contains(entity), one_by_one.contains(entity));
        }
    }
}
