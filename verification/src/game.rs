//! The driver's state: the screen, the configuration, and which scene
//! runs.

use vstd::prelude::*;
use crate::config::Config;
use crate::screen::{Screen, CLEAR_COLOR};
use crate::switch::{match_event, SceneId, SceneSwitch, Transition};

verus! {

/// The scene that runs after a request has been answered.
pub open spec fn scene_after(current: SceneId, request: SceneSwitch) -> SceneId {
    match request {
        SceneSwitch::Switch(id) => id,
        _ => current,
    }
}

/// The game as the driver holds it.
pub struct Game {
    screen: Screen,
    config: Config,
    scene: SceneId,
}

impl Game {
    /// The screen.
    pub closed spec fn screen(self) -> Screen {
        self.screen
    }

    /// The configuration.
    pub closed spec fn config(self) -> Config {
        self.config
    }

    /// The scene that runs.
    pub closed spec fn scene(self) -> SceneId {
        self.scene
    }

    /// A game with a black screen of the configured size, in the menu.
    pub fn new(config: Config) -> (game: Game)
        requires
            config.actual_size().0 * config.actual_size().1 <= usize::MAX,
        ensures
            game.config() == config,
            game.scene() == SceneId::Menu,
            game.screen().wf(),
            game.screen().spec_width() == config.actual_size().0,
            game.screen().spec_height() == config.actual_size().1,
    {
        let screen = Screen::new(config.x(), config.y());
        Game { screen, config, scene: SceneId::Menu }
    }

    /// Goes to the menu.
    pub fn open_default_scene(&mut self)
        ensures
            final(self).scene() == SceneId::Menu,
            final(self).screen() == old(self).screen(),
            final(self).config() == old(self).config(),
    {
        self.scene = SceneId::Menu;
    }

    /// Starts a frame: the screen is cleared.
    pub fn begin_frame(&mut self)
        ensures
            final(self).scene() == old(self).scene(),
            final(self).config() == old(self).config(),
            final(self).screen().spec_width() == old(self).screen().spec_width(),
            final(self).screen().spec_height() == old(self).screen().spec_height(),
            final(self).screen().pixels() == Seq::new(
                old(self).screen().pixels().len(),
                |i: int| CLEAR_COLOR,
            ),
    {
        self.screen.flush();
    }

    /// Answers a scene's request: on a switch the named scene runs from now
    /// on, and on a request to quit the answer is `Some(false)`, which tells
    /// the driver to leave the frame and stop. Otherwise the answer is
    /// `None` and the frame goes on.
    pub fn match_event(&mut self, scene_event: SceneSwitch) -> (stop: Option<bool>)
        ensures
            final(self).scene() == scene_after(old(self).scene(), scene_event),
            final(self).screen() == old(self).screen(),
            final(self).config() == old(self).config(),
            stop == (if scene_event == SceneSwitch::Quit {
                Some(false)
            } else {
                None::<bool>
            }),
    {
        match match_event(scene_event) {
            Transition::Continue => None,
            Transition::Replace(new_scene_id) => {
                self.scene = new_scene_id;
                None
            },
            Transition::Stop => Some(false),
        }
    }

    /// The screen.
    pub fn get_screen(&self) -> (screen: &Screen)
        ensures
            *screen == self.screen(),
    {
        &self.screen
    }

    /// The screen, to draw on.
    pub fn get_screen_mut(&mut self) -> (screen: &mut Screen)
        ensures
            *screen == old(self).screen(),
            final(self).screen() == *final(screen),
            final(self).config() == old(self).config(),
            final(self).scene() == old(self).scene(),
    {
        &mut self.screen
    }

    /// The configuration.
    pub fn get_config(&self) -> (config: &Config)
        ensures
            *config == self.config(),
    {
        &self.config
    }

    /// The configuration, to change.
    pub fn get_config_mut(&mut self) -> (config: &mut Config)
        ensures
            *config == old(self).config(),
            final(self).config() == *final(config),
            final(self).screen() == old(self).screen(),
            final(self).scene() == old(self).scene(),
    {
        &mut self.config
    }

    /// The scene that runs.
    pub fn get_current_scene(&self) -> (scene: SceneId)
        ensures
            scene == self.scene(),
    {
        self.scene
    }
}

} // verus!
