use dragons_den::state::menu::{MenuScreen, MenuState};
use dragons_den::state::StateTransition;

#[test]
fn load_error_is_persistent_recovery_state_without_hiding_new_game() {
    // No save slot exists for a fresh profile.
    let mut menu = MenuState::new(false);

    assert!(!menu.save_exists);
    menu.record_load_error("Save could not be loaded: incompatible version".into());

    assert_eq!(menu.screen, MenuScreen::Main);
    assert!(menu.load_error.is_some());
    assert!(!menu.save_exists);
}

#[test]
fn refreshing_after_delete_clears_the_load_error() {
    let mut menu = MenuState::new(false);
    menu.record_load_error("bad save".into());

    menu.refresh(false);

    assert!(menu.load_error.is_none());
}

#[test]
fn refresh_keeps_the_visible_face_and_rereads_the_slot() {
    let mut menu = MenuState::new(true);
    menu.screen = MenuScreen::Settings;
    menu.record_load_error("bad save".into());
    assert_eq!(menu.load_error.as_deref(), Some("bad save"));
    assert_eq!(menu.screen, MenuScreen::Settings);

    menu.refresh(false);
    assert!(!menu.save_exists);
    assert_eq!(menu.screen, MenuScreen::Settings);
    assert!(menu.load_error.is_none());
}

#[test]
fn transitions_compare_by_variant() {
    assert_eq!(StateTransition::NewGame, StateTransition::NewGame);
    assert_ne!(StateTransition::ContinueGame, StateTransition::BackToMenu);
}
