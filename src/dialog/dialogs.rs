//! The dialog keys and the content file each one names.
use vstd::prelude::*;
use crate::asset_enum::AssetEnum;

verus! {

/// A dialog identifier. `Undefined` selects no dialog.
#[derive(Debug, Clone, Copy, PartialEq, Eq, Hash, Structural)]
pub enum Dialog {
    Undefined,
    Intro,
    Bear,
    Plant,
}

impl Default for Dialog {
    fn default() -> (r: Dialog)
        ensures
            r == Dialog::Undefined,
    {
        Dialog::Undefined
    }
}

impl AssetEnum for Dialog {
    open spec fn key_index(self) -> nat {
        match self {
            Dialog::Undefined => 0,
            Dialog::Intro => 1,
            Dialog::Bear => 2,
            Dialog::Plant => 3,
        }
    }

    open spec fn key_count() -> nat {
        4
    }

    open spec fn key_path(self) -> Seq<char> {
        match self {
            Dialog::Undefined => Seq::empty(),
            Dialog::Intro => "dialogs/intro.dialog.ron"@,
            Dialog::Bear => "dialogs/bear.dialog.ron"@,
            Dialog::Plant => "dialogs/plant.dialog.ron"@,
        }
    }

    fn index(&self) -> (r: usize) {
        match self {
            Dialog::Undefined => 0,
            Dialog::Intro => 1,
            Dialog::Bear => 2,
            Dialog::Plant => 3,
        }
    }

    fn variant_count() -> (r: usize) {
        4
    }

    fn path(&self) -> (r: &'static str) {
        match self {
            Dialog::Undefined => {
                proof {
                    reveal_strlit("");
                }
                ""
            },
            Dialog::Intro => "dialogs/intro.dialog.ron",
            Dialog::Bear => "dialogs/bear.dialog.ron",
            Dialog::Plant => "dialogs/plant.dialog.ron",
        }
    }

    fn get_list() -> (r: Vec<(Dialog, &'static str)>) {
        vec![
            (Dialog::Intro, Dialog::Intro.path()),
            (Dialog::Bear, Dialog::Bear.path()),
            (Dialog::Plant, Dialog::Plant.path()),
        ]
    }

    proof fn lemma_index_injective(a: Dialog, b: Dialog) {
    }
}

} // verus!
