use hachimi::game_ui::{toggle_game_ui, GameUiToggle};

#[test]
fn first_toggle_hides_what_shows() {
    let mut state = GameUiToggle::new();
    let canvases = vec![(10usize, true), (11, false), (12, true), (10, true)];
    let roots = vec![(20usize, true), (21, false), (20, true)];
    let a = toggle_game_ui(&mut state, &canvases, &roots);
    assert!(a.hide);
    assert_eq!(a.canvases, vec![10, 12]);
    assert_eq!(a.top_objects, vec![20]);
    assert_eq!(state.disabled.len(), 3);
}

#[test]
fn second_toggle_restores_exactly_the_hidden() {
    let mut state = GameUiToggle::new();
    let canvases = vec![(1usize, true), (2, false), (3, true)];
    let roots = vec![(7usize, true)];
    toggle_game_ui(&mut state, &canvases, &roots);
    // now hidden: 1, 3, 7; the game reports them switched off
    let canvases_now = vec![(1usize, false), (2, false), (3, false), (4, true)];
    let roots_now = vec![(7usize, false)];
    let b = toggle_game_ui(&mut state, &canvases_now, &roots_now);
    assert!(!b.hide);
    assert_eq!(b.canvases, vec![1, 3]);
    assert_eq!(b.top_objects, vec![7]);
    assert!(state.disabled.is_empty());
}

#[test]
fn toggle_with_nothing_showing_stays_in_hide_mode() {
    let mut state = GameUiToggle::new();
    let a = toggle_game_ui(&mut state, &vec![(1usize, false)], &vec![]);
    assert!(a.hide);
    assert!(a.canvases.is_empty());
    let b = toggle_game_ui(&mut state, &vec![(1usize, true)], &vec![]);
    assert!(b.hide);
    assert_eq!(b.canvases, vec![1]);
}
