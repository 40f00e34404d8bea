//! The menu: which of its screens is shown and what its buttons do.

use vstd::prelude::*;
use crate::switch::{SceneId, SceneSwitch};
use crate::web::{Leaderboard, LeaderboardState, WebClient};

verus! {

/// The screens of the menu.
#[derive(Copy, Clone, Debug, PartialEq, Eq, Structural)]
pub enum MenuTab {
    MainScreen,
    CreditsScreen,
    LeaderboardScreen,
}

/// The buttons of the menu.
#[derive(Copy, Clone, Debug, PartialEq, Eq, Structural)]
pub enum MenuButton {
    Play,
    Leaderboard,
    Credits,
    Exit,
    Refresh,
    Back,
}

/// What the menu asks of the driver after a frame.
#[derive(Copy, Clone, Debug, PartialEq, Eq, Structural)]
pub struct MenuAsk {
    /// The request to the scene switch.
    pub action: SceneSwitch,
    /// The leaderboard is to be fetched.
    pub fetch: bool,
}

/// The screen that is shown after a button was pressed on `tab`. A button
/// that the screen does not have does nothing.
pub open spec fn tab_after(tab: MenuTab, pressed: Option<MenuButton>) -> MenuTab {
    match (tab, pressed) {
        (MenuTab::MainScreen, Some(MenuButton::Leaderboard)) => MenuTab::LeaderboardScreen,
        (MenuTab::MainScreen, Some(MenuButton::Credits)) => MenuTab::CreditsScreen,
        _ => tab,
    }
}

/// What pressing a button on `tab` asks of the driver.
pub open spec fn ask_after(tab: MenuTab, pressed: Option<MenuButton>) -> MenuAsk {
    match (tab, pressed) {
        (MenuTab::MainScreen, Some(MenuButton::Exit)) => MenuAsk {
            action: SceneSwitch::Quit,
            fetch: false,
        },
        (MenuTab::MainScreen, Some(MenuButton::Play)) => MenuAsk {
            action: SceneSwitch::Switch(SceneId::Game),
            fetch: false,
        },
        (MenuTab::MainScreen, Some(MenuButton::Leaderboard)) => MenuAsk {
            action: SceneSwitch::Stay,
            fetch: true,
        },
        (MenuTab::LeaderboardScreen, Some(MenuButton::Refresh)) => MenuAsk {
            action: SceneSwitch::Stay,
            fetch: true,
        },
        (MenuTab::LeaderboardScreen, Some(MenuButton::Back)) => MenuAsk {
            action: SceneSwitch::Switch(SceneId::Menu),
            fetch: false,
        },
        (MenuTab::CreditsScreen, Some(MenuButton::Back)) => MenuAsk {
            action: SceneSwitch::Switch(SceneId::Menu),
            fetch: false,
        },
        _ => MenuAsk { action: SceneSwitch::Stay, fetch: false },
    }
}

/// The menu scene.
pub struct MenuScene {
    pub web_client: WebClient,
    pub tab: MenuTab,
    pub action: SceneSwitch,
}

impl MenuScene {
    /// The menu on its main screen, with a client that has no nickname and
    /// has fetched nothing yet.
    pub fn new() -> (menu: MenuScene)
        ensures
            menu.tab == MenuTab::MainScreen,
            menu.action == SceneSwitch::Stay,
            menu.web_client.nickname() == Seq::<char>::empty(),
            menu.web_client.leaderboard() == Leaderboard::Idle,
            !menu.web_client.waiting(),
    {
        MenuScene {
            web_client: WebClient::new(),
            tab: MenuTab::MainScreen,
            action: SceneSwitch::Stay,
        }
    }

    /// The name of the scene.
    pub fn get_scene_name(&self) -> (name: String)
        ensures
            name@ == "MenuScene"@,
    {
        "MenuScene".to_owned()
    }

    /// One frame of the menu. On the leaderboard screen a fetch that is
    /// under way is polled once. Then the button that was pressed, if any,
    /// has its effect: it may change the screen, ask for a scene switch, or
    /// ask for a fetch of the leaderboard.
    pub fn ui(&mut self, pressed: Option<MenuButton>) -> (ask: MenuAsk)
        ensures
            ask == ask_after(old(self).tab, pressed),
            final(self).tab == tab_after(old(self).tab, pressed),
            final(self).action == ask.action,
            final(self).web_client.nickname() == old(self).web_client.nickname(),
            !(old(self).tab == MenuTab::LeaderboardScreen && old(self).web_client.leaderboard()
                is Loading && old(self).web_client.waiting()) ==> {
                &&& final(self).web_client.leaderboard() == old(self).web_client.leaderboard()
                &&& final(self).web_client.awaited() == old(self).web_client.awaited()
            },
            old(self).tab == MenuTab::LeaderboardScreen && old(self).web_client.leaderboard()
                is Loading && old(self).web_client.waiting() ==> exists|
                arrived: Option<LeaderboardState>,
            |
                old(self).web_client.received(final(self).web_client, arrived),
    {
        self.action = SceneSwitch::Stay;
        let mut fetch = false;
        match self.tab {
            MenuTab::MainScreen => {
                match pressed {
                    Some(MenuButton::Exit) => {
                        self.action = SceneSwitch::Quit;
                    },
                    Some(MenuButton::Play) => {
                        self.action = SceneSwitch::Switch(SceneId::Game);
                    },
                    Some(MenuButton::Leaderboard) => {
                        fetch = true;
                        self.tab = MenuTab::LeaderboardScreen;
                    },
                    Some(MenuButton::Credits) => {
                        self.tab = MenuTab::CreditsScreen;
                    },
                    _ => {},
                }
            },
            MenuTab::CreditsScreen => {
                match pressed {
                    Some(MenuButton::Back) => {
                        self.action = SceneSwitch::Switch(SceneId::Menu);
                    },
                    _ => {},
                }
            },
            MenuTab::LeaderboardScreen => {
                match self.web_client.get_leaderboard() {
                    LeaderboardState::Loading => {
                        self.web_client.poll_network();
                    },
                    _ => {},
                }
                match pressed {
                    Some(MenuButton::Refresh) => {
                        fetch = true;
                    },
                    Some(MenuButton::Back) => {
                        self.action = SceneSwitch::Switch(SceneId::Menu);
                    },
                    _ => {},
                }
            },
        }
        MenuAsk { action: self.action, fetch }
    }
}

} // verus!
