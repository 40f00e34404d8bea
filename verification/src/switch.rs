//! Which scene runs, and how the running scene is replaced.

use vstd::prelude::*;

verus! {

/// The scenes of the game.
#[derive(Copy, Clone, Debug, PartialEq, Eq, Structural)]
pub enum SceneId {
    Menu,
    Game,
    Test,
}

/// What a scene asks of the driver at the end of a frame.
#[derive(Copy, Clone, Debug, PartialEq, Eq, Structural)]
pub enum SceneSwitch {
    /// Keep the running scene.
    Stay,
    /// Replace the running scene by a fresh instance of the named one.
    Switch(SceneId),
    /// End the program.
    Quit,
}

impl Default for SceneSwitch {
    fn default() -> (switch: SceneSwitch)
        ensures
            switch == SceneSwitch::Stay,
    {
        SceneSwitch::Stay
    }
}

/// What the driver does about a scene's request.
#[derive(Copy, Clone, Debug, PartialEq, Eq, Structural)]
pub enum Transition {
    /// Go on with the frame in the running scene.
    Continue,
    /// Drop the running scene with all its objects and state, create the
    /// named scene, and go on with the frame in it.
    Replace(SceneId),
    /// Leave the frame at once and stop.
    Stop,
}

/// The transition that answers a request.
pub open spec fn transition_for(request: SceneSwitch) -> Transition {
    match request {
        SceneSwitch::Stay => Transition::Continue,
        SceneSwitch::Switch(id) => Transition::Replace(id),
        SceneSwitch::Quit => Transition::Stop,
    }
}

/// Decides what the driver does about a scene's request. Scenes change in
/// no other way.
pub fn match_event(scene_event: SceneSwitch) -> (transition: Transition)
    ensures
        transition == transition_for(scene_event),
{
    match scene_event {
        SceneSwitch::Stay => Transition::Continue,
        SceneSwitch::Switch(new_scene_id) => Transition::Replace(new_scene_id),
        SceneSwitch::Quit => Transition::Stop,
    }
}

} // verus!
