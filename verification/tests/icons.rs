use logman::ui::icons::{Asset, Icon, Icons, APP_ICON, FOLDER};

#[test]
fn an_unknown_path_is_not_an_error() {
    assert!(Icons.load("icons/nothing.svg").is_none());
}

#[test]
fn listing_returns_the_whole_set() {
    assert_eq!(Icons.list("icons/").len(), Icon::all().len());
    assert_eq!(Icon::all().len(), 17);
}

#[test]
fn every_icon_answers_to_its_path() {
    for icon in Icon::all() {
        assert!(matches!(Icons.load(icon.path()), Some(Asset::Icon(found)) if found == icon));
    }
    assert!(matches!(Icons.load(APP_ICON), Some(Asset::App)));
    assert_eq!(Icon::Folder.path(), FOLDER);
}

#[test]
fn listing_goes_by_the_beginning_of_the_path() {
    let windows = Icons.list("icons/window-");
    assert_eq!(
        windows,
        vec![
            "icons/window-minimize.svg",
            "icons/window-maximize.svg",
            "icons/window-restore.svg",
            "icons/window-close.svg",
        ]
    );
    assert!(Icons.list("fonts/").is_empty());
}
