use dioxide::refresh::{PanelStep, RefreshMode, RefreshState, MAX_QUICK_UPDATES};

#[test]
fn first_update_is_full() {
    let state = RefreshState::new(MAX_QUICK_UPDATES).expect("valid");
    assert_eq!(state.update_count(), 0);
    assert_eq!(state.mode(), RefreshMode::Full);
}

#[test]
fn first_update_is_full_for_any_period() {
    for period in [1usize, 2, 3, 10, 1000, usize::MAX] {
        let state = RefreshState::new(period).expect("valid");
        assert_eq!(state.period(), period);
        assert_eq!(state.mode(), RefreshMode::Full);
    }
}

#[test]
fn period_zero_is_rejected() {
    assert!(RefreshState::new(0).is_none());
}

#[test]
fn full_on_every_tenth_update() {
    assert_eq!(MAX_QUICK_UPDATES, 10);
    let mut state = RefreshState::new(MAX_QUICK_UPDATES).expect("valid");
    for count in 0usize..35 {
        assert_eq!(state.update_count(), count);
        let expected = if count % 10 == 0 { RefreshMode::Full } else { RefreshMode::Quick };
        assert_eq!(state.mode(), expected, "update {}", count);
        assert_eq!(state.advance(), expected, "update {}", count);
    }
}

#[test]
fn period_one_is_always_full() {
    let mut state = RefreshState::new(1).expect("valid");
    for _ in 0..5 {
        assert_eq!(state.advance(), RefreshMode::Full);
    }
}

#[test]
fn steps_of_a_full_redraw() {
    assert_eq!(
        RefreshMode::Full.steps(),
        vec![
            PanelStep::WakeUp,
            PanelStep::Render,
            PanelStep::SelectFull,
            PanelStep::LoadFrame,
            PanelStep::ShowFrame,
            PanelStep::Sleep,
        ]
    );
}

#[test]
fn steps_of_a_quick_update() {
    assert_eq!(
        RefreshMode::Quick.steps(),
        vec![
            PanelStep::WakeUp,
            PanelStep::SelectQuick,
            PanelStep::LoadOldFrame,
            PanelStep::Render,
            PanelStep::LoadNewFrame,
            PanelStep::ShowNewFrame,
            PanelStep::Sleep,
        ]
    );
}
