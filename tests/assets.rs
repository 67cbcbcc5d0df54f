use std::cell::Cell;

use dialog_core::asset_enum::{load_asset_enum, AssetDictionary, AssetEnum};
use dialog_core::dialog::{Dialog, Portrait};

#[test]
fn dialog_table_lists_each_defined_key_once() {
    let list = Dialog::get_list();
    assert_eq!(
        list,
        vec![
            (Dialog::Intro, "dialogs/intro.dialog.ron"),
            (Dialog::Bear, "dialogs/bear.dialog.ron"),
            (Dialog::Plant, "dialogs/plant.dialog.ron"),
        ]
    );
    assert!(list.iter().all(|(k, _)| *k != Dialog::Undefined));
    assert_eq!(Dialog::variant_count(), list.len() + 1);
}

#[test]
fn portrait_table_lists_each_defined_key_once() {
    let list = Portrait::get_list();
    assert_eq!(
        list,
        vec![(Portrait::AI, "texture/ai.png"), (Portrait::Player, "texture/player_icon.png")]
    );
    assert_eq!(Portrait::variant_count(), 3);
}

#[test]
fn every_key_maps_to_its_path() {
    assert_eq!(Dialog::Undefined.path(), "");
    assert_eq!(Dialog::Plant.path(), "dialogs/plant.dialog.ron");
    assert_eq!(Portrait::Player.path(), "texture/player_icon.png");
    assert_eq!(Dialog::Undefined.index(), 0);
    assert_eq!(Dialog::Plant.index(), 3);
}

#[test]
fn default_keys_are_undefined() {
    assert_eq!(Dialog::default(), Dialog::Undefined);
    assert_eq!(Portrait::default(), Portrait::Undefined);
}

#[test]
fn empty_dictionary_resolves_nothing() {
    let dict: AssetDictionary<Dialog, String> = AssetDictionary::new();
    assert_eq!(dict.get_handle(&Dialog::Intro), None);
    assert_eq!(dict.get_handle(&Dialog::Undefined), None);
}

#[test]
fn load_issues_one_request_per_defined_key() {
    let requests: Cell<usize> = Cell::new(0);
    let mut dict: AssetDictionary<Dialog, String> = AssetDictionary::new();
    load_asset_enum(&mut dict, |path: &'static str| {
        requests.set(requests.get() + 1);
        format!("handle:{}", path)
    });
    assert_eq!(requests.get(), 3);
    assert_eq!(dict.get_handle(&Dialog::Intro), Some(&"handle:dialogs/intro.dialog.ron".to_string()));
    assert_eq!(dict.get_handle(&Dialog::Bear), Some(&"handle:dialogs/bear.dialog.ron".to_string()));
    assert_eq!(dict.get_handle(&Dialog::Plant), Some(&"handle:dialogs/plant.dialog.ron".to_string()));
}

#[test]
fn undefined_key_never_resolves_after_load() {
    let mut dict: AssetDictionary<Portrait, usize> = AssetDictionary::new();
    load_asset_enum(&mut dict, |path: &'static str| path.len());
    assert_eq!(dict.get_handle(&Portrait::Undefined), None);
    assert_eq!(dict.get_handle(&Portrait::AI), Some(&"texture/ai.png".len()));
    assert_eq!(dict.get_handle(&Portrait::Player), Some(&"texture/player_icon.png".len()));
}
