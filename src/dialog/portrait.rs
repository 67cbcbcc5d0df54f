//! The portrait keys and the image each one names.
use vstd::prelude::*;
use crate::asset_enum::AssetEnum;

verus! {

/// A portrait identifier. `Undefined` names no image.
#[derive(Debug, Clone, Copy, PartialEq, Eq, Hash, Structural)]
pub enum Portrait {
    Undefined,
    AI,
    Player,
}

impl Default for Portrait {
    fn default() -> (r: Portrait)
        ensures
            r == Portrait::Undefined,
    {
        Portrait::Undefined
    }
}

impl AssetEnum for Portrait {
    open spec fn key_index(self) -> nat {
        match self {
            Portrait::Undefined => 0,
            Portrait::AI => 1,
            Portrait::Player => 2,
        }
    }

    open spec fn key_count() -> nat {
        3
    }

    open spec fn key_path(self) -> Seq<char> {
        match self {
            Portrait::Undefined => Seq::empty(),
            Portrait::AI => "texture/ai.png"@,
            Portrait::Player => "texture/player_icon.png"@,
        }
    }

    fn index(&self) -> (r: usize) {
        match self {
            Portrait::Undefined => 0,
            Portrait::AI => 1,
            Portrait::Player => 2,
        }
    }

    fn variant_count() -> (r: usize) {
        3
    }

    fn path(&self) -> (r: &'static str) {
        match self {
            Portrait::Undefined => {
                proof {
                    reveal_strlit("");
                }
                ""
            },
            Portrait::AI => "texture/ai.png",
            Portrait::Player => "texture/player_icon.png",
        }
    }

    fn get_list() -> (r: Vec<(Portrait, &'static str)>) {
        vec![(Portrait::AI, Portrait::AI.path()), (Portrait::Player, Portrait::Player.path())]
    }

    proof fn lemma_index_injective(a: Portrait, b: Portrait) {
    }
}

} // verus!
