use bird_invaders::menus::{
    button_color, game_over_button_action, game_over_screen, main_menu_screen,
    menu_button_action, pause_button_action, pause_menu_listener_sys, pause_menu_screen,
    settings_menu_screen, unpause_listener, ButtonAction, GameOverButtonAction, GameState,
    Interaction, MenuButtonAction, MenuState, PauseButtonAction, PauseMenuState, Rgba,
};

#[test]
fn buttons_darken_and_lighten_with_the_pointer() {
    assert_eq!(
        button_color(Interaction::Pressed),
        Rgba { red: 101, green: 153, blue: 116, alpha: 255 }
    );
    assert_eq!(
        button_color(Interaction::Hovered),
        Rgba { red: 77, green: 130, blue: 92, alpha: 255 }
    );
    assert_eq!(button_color(Interaction::Idle), Rgba { red: 49, green: 104, blue: 65, alpha: 255 });
}

#[test]
fn escape_pauses_the_game() {
    let t = pause_menu_listener_sys(GameState::Game, MenuState::Disabled, PauseMenuState::Disabled);
    assert_eq!(t.next_game, Some(GameState::Pause));
    assert_eq!(t.next_menu, None);
    assert_eq!(t.next_pause, None);
    assert!(!t.exit_app);
}

#[test]
fn escape_backs_out_of_menu_settings_only() {
    let main = pause_menu_listener_sys(
        GameState::Menu,
        MenuState::MainMenu,
        PauseMenuState::Disabled,
    );
    assert_eq!(main.next_game, None);
    assert_eq!(main.next_menu, None);
    let settings = pause_menu_listener_sys(
        GameState::Menu,
        MenuState::Settings,
        PauseMenuState::Disabled,
    );
    assert_eq!(settings.next_menu, Some(MenuState::MainMenu));
    assert_eq!(settings.next_game, None);
}

#[test]
fn escape_resumes_from_the_pause_menu() {
    let t = pause_menu_listener_sys(
        GameState::Pause,
        MenuState::Disabled,
        PauseMenuState::PauseMenu,
    );
    assert_eq!(t.next_game, Some(GameState::Game));
    assert_eq!(t.next_pause, Some(PauseMenuState::Disabled));
    let s = pause_menu_listener_sys(
        GameState::Pause,
        MenuState::Disabled,
        PauseMenuState::Settings,
    );
    assert_eq!(s.next_pause, Some(PauseMenuState::PauseMenu));
    assert_eq!(s.next_game, None);
}

#[test]
fn escape_cannot_skip_the_splash_screen() {
    let t = pause_menu_listener_sys(
        GameState::Splash,
        MenuState::Disabled,
        PauseMenuState::Disabled,
    );
    assert_eq!(t.next_game, None);
    assert_eq!(t.next_menu, None);
    assert_eq!(t.next_pause, None);
    assert!(!t.exit_app);
}

#[test]
fn main_menu_buttons_do_what_they_say() {
    let quit = menu_button_action(&ButtonAction::Quit);
    assert!(quit.exit_app);
    let settings = menu_button_action(&ButtonAction::Settings);
    assert_eq!(settings.next_menu, Some(MenuState::Settings));
    let back = menu_button_action(&ButtonAction::Menu(MenuButtonAction::BackToMenu));
    assert_eq!(back.next_menu, Some(MenuState::MainMenu));
    let new_game = menu_button_action(&ButtonAction::Menu(MenuButtonAction::NewGame));
    assert_eq!(new_game.next_game, Some(GameState::Game));
    assert_eq!(new_game.next_menu, Some(MenuState::Disabled));
    assert!(!new_game.exit_app);
}

#[test]
fn pause_menu_buttons_do_what_they_say() {
    let quit = pause_button_action(&ButtonAction::Quit);
    assert!(quit.exit_app);
    let settings = pause_button_action(&ButtonAction::Settings);
    assert_eq!(settings.next_pause, Some(PauseMenuState::Settings));
    let title = pause_button_action(&ButtonAction::Pause(PauseButtonAction::QuitToTitle));
    assert_eq!(title.next_game, Some(GameState::Menu));
    assert_eq!(title.next_pause, Some(PauseMenuState::Disabled));
    let resume = pause_button_action(&ButtonAction::Pause(PauseButtonAction::Resume));
    assert_eq!(resume.next_game, Some(GameState::Game));
    assert_eq!(resume.next_pause, Some(PauseMenuState::Disabled));
}

#[test]
fn game_over_buttons_restart_or_leave() {
    let again = game_over_button_action(&ButtonAction::GameOver(GameOverButtonAction::TryAgain));
    assert_eq!(again.next_game, Some(GameState::Game));
    let title = game_over_button_action(&ButtonAction::GameOver(
        GameOverButtonAction::ReturnToTitle,
    ));
    assert_eq!(title.next_game, Some(GameState::Menu));
}

#[test]
fn the_unpause_listener_returns_straight_to_play() {
    let t = unpause_listener();
    assert_eq!(t.next_game, Some(GameState::Game));
    assert_eq!(t.next_pause, Some(PauseMenuState::Disabled));
    assert_eq!(t.next_menu, None);
    assert!(!t.exit_app);
}

#[test]
fn the_main_menu_offers_game_settings_and_quit() {
    let screen = main_menu_screen();
    assert_eq!(screen.title, "Bird Invaders");
    assert_eq!(
        screen.buttons,
        vec![
            (ButtonAction::Menu(MenuButtonAction::NewGame), "New Game"),
            (ButtonAction::Settings, "Settings"),
            (ButtonAction::Quit, "Quit"),
        ]
    );
}

#[test]
fn the_settings_screen_offers_only_the_way_back() {
    let screen = settings_menu_screen();
    assert_eq!(screen.title, "Settings");
    assert_eq!(
        screen.buttons,
        vec![(ButtonAction::Menu(MenuButtonAction::BackToMenu), "Main Menu")]
    );
}

#[test]
fn the_pause_menu_offers_resume_settings_and_two_exits() {
    let screen = pause_menu_screen();
    assert_eq!(screen.title, "Game Paused");
    assert_eq!(
        screen.buttons,
        vec![
            (ButtonAction::Pause(PauseButtonAction::Resume), "Resume"),
            (ButtonAction::Settings, "Settings"),
            (ButtonAction::Pause(PauseButtonAction::QuitToTitle), "Quit to Title"),
            (ButtonAction::Quit, "Quit"),
        ]
    );
}

#[test]
fn the_game_over_screen_offers_retry_and_title() {
    let screen = game_over_screen();
    assert_eq!(screen.title, "Game Over");
    assert_eq!(
        screen.buttons,
        vec![
            (ButtonAction::GameOver(GameOverButtonAction::TryAgain), "Try Again"),
            (ButtonAction::GameOver(GameOverButtonAction::ReturnToTitle), "Return to Title"),
        ]
    );
}
