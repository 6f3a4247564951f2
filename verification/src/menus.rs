//! Menu and pause flow: the game's states, what each button press does, what
//! the escape key does in each state, and the button colours.

use vstd::prelude::*;

verus! {

/// The top-level mode the game is in.
#[derive(Clone, Copy, PartialEq, Eq, Structural, Debug, Hash)]
pub enum GameState {
    Game,
    Pause,
    Menu,
    GameOver,
    Splash,
}

/// Which screen of the main menu is up.
#[derive(Clone, Copy, PartialEq, Eq, Structural, Debug, Hash)]
pub enum MenuState {
    MainMenu,
    Settings,
    Disabled,
}

/// Which screen of the pause menu is up.
#[derive(Clone, Copy, PartialEq, Eq, Structural, Debug, Hash)]
pub enum PauseMenuState {
    PauseMenu,
    Settings,
    Disabled,
}

/// What a pressed button asks for.
#[derive(Clone, Copy, PartialEq, Eq, Structural, Debug)]
pub enum ButtonAction {
    Menu(MenuButtonAction),
    Pause(PauseButtonAction),
    GameOver(GameOverButtonAction),
    Quit,
    Settings,
}

#[derive(Clone, Copy, PartialEq, Eq, Structural, Debug)]
pub enum MenuButtonAction {
    BackToMenu,
    NewGame,
}

#[derive(Clone, Copy, PartialEq, Eq, Structural, Debug)]
pub enum PauseButtonAction {
    QuitToTitle,
    Resume,
}

#[derive(Clone, Copy, PartialEq, Eq, Structural, Debug)]
pub enum GameOverButtonAction {
    TryAgain,
    ReturnToTitle,
}

/// How the pointer stands on a button.
#[derive(Clone, Copy, PartialEq, Eq, Structural, Debug)]
pub enum Interaction {
    Pressed,
    Hovered,
    Idle,
}

/// A colour, one byte a channel.
#[derive(Clone, Copy, PartialEq, Eq, Structural, Debug)]
pub struct Rgba {
    pub red: u8,
    pub green: u8,
    pub blue: u8,
    pub alpha: u8,
}

/// What a UI decision asks the host to do: states to switch to, and whether
/// to leave the application.
#[derive(Clone, Copy, PartialEq, Eq, Debug)]
pub struct UiTransition {
    pub next_game: Option<GameState>,
    pub next_menu: Option<MenuState>,
    pub next_pause: Option<PauseMenuState>,
    pub exit_app: bool,
}

impl UiTransition {
    /// Changes nothing.
    pub fn idle() -> (r: UiTransition)
        ensures
            r.next_game is None,
            r.next_menu is None,
            r.next_pause is None,
            !r.exit_app,
    {
        UiTransition { next_game: None, next_menu: None, next_pause: None, exit_app: false }
    }
}

/// A button's colour under each pointer state.
pub fn button_color(interaction: Interaction) -> (r: Rgba)
    ensures
        interaction == Interaction::Pressed ==> r == (Rgba {
            red: 101,
            green: 153,
            blue: 116,
            alpha: 255,
        }),
        interaction == Interaction::Hovered ==> r == (Rgba {
            red: 77,
            green: 130,
            blue: 92,
            alpha: 255,
        }),
        interaction == Interaction::Idle ==> r == (Rgba {
            red: 49,
            green: 104,
            blue: 65,
            alpha: 255,
        }),
{
    match interaction {
        Interaction::Pressed => Rgba { red: 101, green: 153, blue: 116, alpha: 255 },
        Interaction::Hovered => Rgba { red: 77, green: 130, blue: 92, alpha: 255 },
        Interaction::Idle => Rgba { red: 49, green: 104, blue: 65, alpha: 255 },
    }
}

/// What pressing escape does, given where the game stands. In the game it
/// pauses; in the menu's settings it backs out to the main menu (and on the
/// main menu it does nothing); in the pause menu it resumes, and in the pause
/// menu's settings it backs out to the pause menu; the splash screen ignores
/// it. The remaining combinations cannot be reached, and the caller keeps
/// them out.
pub fn pause_menu_listener_sys(
    game_state: GameState,
    menu_state: MenuState,
    pause_state: PauseMenuState,
) -> (r: UiTransition)
    requires
        game_state != GameState::GameOver,
        game_state == GameState::Menu ==> menu_state != MenuState::Disabled,
        game_state == GameState::Pause ==> pause_state != PauseMenuState::Disabled,
    ensures
        !r.exit_app,
        game_state == GameState::Game ==> r == (UiTransition {
            next_game: Some(GameState::Pause),
            next_menu: None,
            next_pause: None,
            exit_app: false,
        }),
        game_state == GameState::Menu && menu_state == MenuState::MainMenu ==> r
            == UiTransition::spec_idle(),
        game_state == GameState::Menu && menu_state == MenuState::Settings ==> r == (UiTransition {
            next_game: None,
            next_menu: Some(MenuState::MainMenu),
            next_pause: None,
            exit_app: false,
        }),
        game_state == GameState::Pause && pause_state == PauseMenuState::PauseMenu ==> r
            == (UiTransition {
            next_game: Some(GameState::Game),
            next_menu: None,
            next_pause: Some(PauseMenuState::Disabled),
            exit_app: false,
        }),
        game_state == GameState::Pause && pause_state == PauseMenuState::Settings ==> r
            == (UiTransition {
            next_game: None,
            next_menu: None,
            next_pause: Some(PauseMenuState::PauseMenu),
            exit_app: false,
        }),
        game_state == GameState::Splash ==> r == UiTransition::spec_idle(),
{
    match game_state {
        GameState::Game => UiTransition {
            next_game: Some(GameState::Pause),
            next_menu: None,
            next_pause: None,
            exit_app: false,
        },
        GameState::Menu => match menu_state {
            MenuState::Settings => UiTransition {
                next_game: None,
                next_menu: Some(MenuState::MainMenu),
                next_pause: None,
                exit_app: false,
            },
            _ => UiTransition::idle(),
        },
        GameState::Pause => match pause_state {
            PauseMenuState::PauseMenu => UiTransition {
                next_game: Some(GameState::Game),
                next_menu: None,
                next_pause: Some(PauseMenuState::Disabled),
                exit_app: false,
            },
            _ => UiTransition {
                next_game: None,
                next_menu: None,
                next_pause: Some(PauseMenuState::PauseMenu),
                exit_app: false,
            },
        },
        _ => UiTransition::idle(),
    }
}

impl UiTransition {
    /// The value [`UiTransition::idle`] returns.
    pub open spec fn spec_idle() -> UiTransition {
        UiTransition { next_game: None, next_menu: None, next_pause: None, exit_app: false }
    }
}

/// What a main-menu button press does: quit leaves, settings opens the
/// settings screen, back-to-menu returns to the main menu, and a new game
/// starts play and closes the menu. The menu offers no other buttons, and
/// the caller passes no other action.
pub fn menu_button_action(action: &ButtonAction) -> (r: UiTransition)
    requires
        action matches ButtonAction::Quit || action matches ButtonAction::Settings
            || action matches ButtonAction::Menu(_),
    ensures
        action matches ButtonAction::Quit ==> r == (UiTransition {
            next_game: None,
            next_menu: None,
            next_pause: None,
            exit_app: true,
        }),
        action matches ButtonAction::Settings ==> r == (UiTransition {
            next_game: None,
            next_menu: Some(MenuState::Settings),
            next_pause: None,
            exit_app: false,
        }),
        action == ButtonAction::Menu(MenuButtonAction::BackToMenu) ==> r == (UiTransition {
            next_game: None,
            next_menu: Some(MenuState::MainMenu),
            next_pause: None,
            exit_app: false,
        }),
        action == ButtonAction::Menu(MenuButtonAction::NewGame) ==> r == (UiTransition {
            next_game: Some(GameState::Game),
            next_menu: Some(MenuState::Disabled),
            next_pause: None,
            exit_app: false,
        }),
{
    match action {
        ButtonAction::Quit => UiTransition {
            next_game: None,
            next_menu: None,
            next_pause: None,
            exit_app: true,
        },
        ButtonAction::Settings => UiTransition {
            next_game: None,
            next_menu: Some(MenuState::Settings),
            next_pause: None,
            exit_app: false,
        },
        ButtonAction::Menu(MenuButtonAction::BackToMenu) => UiTransition {
            next_game: None,
            next_menu: Some(MenuState::MainMenu),
            next_pause: None,
            exit_app: false,
        },
        ButtonAction::Menu(MenuButtonAction::NewGame) => UiTransition {
            next_game: Some(GameState::Game),
            next_menu: Some(MenuState::Disabled),
            next_pause: None,
            exit_app: false,
        },
        _ => UiTransition::idle(),
    }
}

/// What a pause-menu button press does: quit leaves, settings opens the pause
/// settings, quit-to-title returns to the main menu, and resume returns to
/// play; either of the last two closes the pause menu. The pause menu offers
/// no other buttons, and the caller passes no other action.
pub fn pause_button_action(action: &ButtonAction) -> (r: UiTransition)
    requires
        action matches ButtonAction::Quit || action matches ButtonAction::Settings
            || action matches ButtonAction::Pause(_),
    ensures
        action matches ButtonAction::Quit ==> r == (UiTransition {
            next_game: None,
            next_menu: None,
            next_pause: None,
            exit_app: true,
        }),
        action matches ButtonAction::Settings ==> r == (UiTransition {
            next_game: None,
            next_menu: None,
            next_pause: Some(PauseMenuState::Settings),
            exit_app: false,
        }),
        action == ButtonAction::Pause(PauseButtonAction::QuitToTitle) ==> r == (UiTransition {
            next_game: Some(GameState::Menu),
            next_menu: None,
            next_pause: Some(PauseMenuState::Disabled),
            exit_app: false,
        }),
        action == ButtonAction::Pause(PauseButtonAction::Resume) ==> r == (UiTransition {
            next_game: Some(GameState::Game),
            next_menu: None,
            next_pause: Some(PauseMenuState::Disabled),
            exit_app: false,
        }),
{
    match action {
        ButtonAction::Quit => UiTransition {
            next_game: None,
            next_menu: None,
            next_pause: None,
            exit_app: true,
        },
        ButtonAction::Settings => UiTransition {
            next_game: None,
            next_menu: None,
            next_pause: Some(PauseMenuState::Settings),
            exit_app: false,
        },
        ButtonAction::Pause(PauseButtonAction::QuitToTitle) => UiTransition {
            next_game: Some(GameState::Menu),
            next_menu: None,
            next_pause: Some(PauseMenuState::Disabled),
            exit_app: false,
        },
        ButtonAction::Pause(PauseButtonAction::Resume) => UiTransition {
            next_game: Some(GameState::Game),
            next_menu: None,
            next_pause: Some(PauseMenuState::Disabled),
            exit_app: false,
        },
        _ => UiTransition::idle(),
    }
}

/// What a game-over button press does: try-again starts a fresh game,
/// return-to-title goes back to the main menu. The game-over screen offers no
/// other buttons, and the caller passes no other action.
pub fn game_over_button_action(action: &ButtonAction) -> (r: UiTransition)
    requires
        action matches ButtonAction::GameOver(_),
    ensures
        action == ButtonAction::GameOver(GameOverButtonAction::TryAgain) ==> r == (UiTransition {
            next_game: Some(GameState::Game),
            next_menu: None,
            next_pause: None,
            exit_app: false,
        }),
        action == ButtonAction::GameOver(GameOverButtonAction::ReturnToTitle) ==> r
            == (UiTransition {
            next_game: Some(GameState::Menu),
            next_menu: None,
            next_pause: None,
            exit_app: false,
        }),
{
    match action {
        ButtonAction::GameOver(GameOverButtonAction::TryAgain) => UiTransition {
            next_game: Some(GameState::Game),
            next_menu: None,
            next_pause: None,
            exit_app: false,
        },
        ButtonAction::GameOver(GameOverButtonAction::ReturnToTitle) => UiTransition {
            next_game: Some(GameState::Menu),
            next_menu: None,
            next_pause: None,
            exit_app: false,
        },
        _ => UiTransition::idle(),
    }
}

/// What pressing escape during pause does where no pause menu is staged:
/// straight back to play.
pub fn unpause_listener() -> (r: UiTransition)
    ensures
        r == (UiTransition {
            next_game: Some(GameState::Game),
            next_menu: None,
            next_pause: Some(PauseMenuState::Disabled),
            exit_app: false,
        }),
{
    UiTransition {
        next_game: Some(GameState::Game),
        next_menu: None,
        next_pause: Some(PauseMenuState::Disabled),
        exit_app: false,
    }
}

/// A menu screen's heading and its buttons, top to bottom, each with its
/// label.
pub struct MenuScreen {
    pub title: &'static str,
    pub buttons: Vec<(ButtonAction, &'static str)>,
}

/// The main menu: a new game, the settings, or leaving.
pub fn main_menu_screen() -> (r: MenuScreen)
    ensures
        r.title@ == "Bird Invaders"@,
        r.buttons@.len() == 3,
        r.buttons@[0].0 == ButtonAction::Menu(MenuButtonAction::NewGame),
        r.buttons@[0].1@ == "New Game"@,
        r.buttons@[1].0 == ButtonAction::Settings,
        r.buttons@[1].1@ == "Settings"@,
        r.buttons@[2].0 == ButtonAction::Quit,
        r.buttons@[2].1@ == "Quit"@,
{
    let mut buttons: Vec<(ButtonAction, &'static str)> = Vec::new();
    buttons.push((ButtonAction::Menu(MenuButtonAction::NewGame), "New Game"));
    buttons.push((ButtonAction::Settings, "Settings"));
    buttons.push((ButtonAction::Quit, "Quit"));
    MenuScreen { title: "Bird Invaders", buttons }
}

/// The settings screen: only the way back.
pub fn settings_menu_screen() -> (r: MenuScreen)
    ensures
        r.title@ == "Settings"@,
        r.buttons@.len() == 1,
        r.buttons@[0].0 == ButtonAction::Menu(MenuButtonAction::BackToMenu),
        r.buttons@[0].1@ == "Main Menu"@,
{
    let mut buttons: Vec<(ButtonAction, &'static str)> = Vec::new();
    buttons.push((ButtonAction::Menu(MenuButtonAction::BackToMenu), "Main Menu"));
    MenuScreen { title: "Settings", buttons }
}

/// The pause menu: back to play, the settings, or out.
pub fn pause_menu_screen() -> (r: MenuScreen)
    ensures
        r.title@ == "Game Paused"@,
        r.buttons@.len() == 4,
        r.buttons@[0].0 == ButtonAction::Pause(PauseButtonAction::Resume),
        r.buttons@[0].1@ == "Resume"@,
        r.buttons@[1].0 == ButtonAction::Settings,
        r.buttons@[1].1@ == "Settings"@,
        r.buttons@[2].0 == ButtonAction::Pause(PauseButtonAction::QuitToTitle),
        r.buttons@[2].1@ == "Quit to Title"@,
        r.buttons@[3].0 == ButtonAction::Quit,
        r.buttons@[3].1@ == "Quit"@,
{
    let mut buttons: Vec<(ButtonAction, &'static str)> = Vec::new();
    buttons.push((ButtonAction::Pause(PauseButtonAction::Resume), "Resume"));
    buttons.push((ButtonAction::Settings, "Settings"));
    buttons.push((ButtonAction::Pause(PauseButtonAction::QuitToTitle), "Quit to Title"));
    buttons.push((ButtonAction::Quit, "Quit"));
    MenuScreen { title: "Game Paused", buttons }
}

/// The game-over screen: another round, or back to the title (the host adds
/// the score line under the heading).
pub fn game_over_screen() -> (r: MenuScreen)
    ensures
        r.title@ == "Game Over"@,
        r.buttons@.len() == 2,
        r.buttons@[0].0 == ButtonAction::GameOver(GameOverButtonAction::TryAgain),
        r.buttons@[0].1@ == "Try Again"@,
        r.buttons@[1].0 == ButtonAction::GameOver(GameOverButtonAction::ReturnToTitle),
        r.buttons@[1].1@ == "Return to Title"@,
{
    let mut buttons: Vec<(ButtonAction, &'static str)> = Vec::new();
    buttons.push((ButtonAction::GameOver(GameOverButtonAction::TryAgain), "Try Again"));
    buttons.push((ButtonAction::GameOver(GameOverButtonAction::ReturnToTitle), "Return to Title"));
    MenuScreen { title: "Game Over", buttons }
}

} // verus!
