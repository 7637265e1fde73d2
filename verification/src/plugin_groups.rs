//! The parts the game is assembled from, in the order in which they are added.

use vstd::prelude::*;

verus! {

/// A part of the game.
#[derive(Clone, Copy, Debug, PartialEq, Eq, Structural)]
pub enum GamePart {
    Grid { debug_enable: bool },
    Inputs,
    Player,
    Movement,
    Structures { debug_enable: bool },
    Ore,
    Debug { enable: bool },
    Camera,
}

/// The parts that make up the game proper.
#[derive(Clone, Copy, Debug, PartialEq, Eq, Structural)]
pub struct GamePlugins {
    pub debug_enable: bool,
}

/// The parts around the game: the debug overlay and the camera.
#[derive(Clone, Copy, Debug, PartialEq, Eq, Structural)]
pub struct UtilityPlugins {
    pub debug_enable: bool,
}

impl GamePlugins {
    /// The parts of the group in the order in which they are added. The grid
    /// and the structures draw their debug overlays where `debug_enable` is set.
    pub open spec fn spec_build(self) -> Seq<GamePart> {
        seq![
            GamePart::Grid { debug_enable: self.debug_enable },
            GamePart::Inputs,
            GamePart::Player,
            GamePart::Movement,
            GamePart::Structures { debug_enable: self.debug_enable },
            GamePart::Ore,
        ]
    }

    /// The parts of the group in the order in which they are added.
    pub fn build(self) -> (parts: Vec<GamePart>)
        ensures
            parts@ == self.spec_build(),
    {
        let mut parts: Vec<GamePart> = Vec::new();
        parts.push(GamePart::Grid { debug_enable: self.debug_enable });
        parts.push(GamePart::Inputs);
        parts.push(GamePart::Player);
        parts.push(GamePart::Movement);
        parts.push(GamePart::Structures { debug_enable: self.debug_enable });
        parts.push(GamePart::Ore);
        assert(parts@ =~= self.spec_build());
        parts
    }
}

impl UtilityPlugins {
    /// The parts of the group in the order in which they are added.
    pub open spec fn spec_build(self) -> Seq<GamePart> {
        seq![GamePart::Debug { enable: self.debug_enable }, GamePart::Camera]
    }

    /// The parts of the group in the order in which they are added.
    pub fn build(self) -> (parts: Vec<GamePart>)
        ensures
            parts@ == self.spec_build(),
    {
        let mut parts: Vec<GamePart> = Vec::new();
        parts.push(GamePart::Debug { enable: self.debug_enable });
        parts.push(GamePart::Camera);
        assert(parts@ =~= self.spec_build());
        parts
    }
}

} // verus!
