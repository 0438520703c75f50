use logman::file_panel::{
    FilePanel, HeaderTitle, LocalPath, PanelEffects, PanelList, Target,
};
use logman::listing::RemoteEntry;
use logman::ui::icons::Icon;
use logman::ui::theme::Slot;

fn entry(name: &str, is_dir: bool, size: u64) -> RemoteEntry {
    RemoteEntry { name: name.to_owned(), is_dir, is_symlink: false, size }
}

fn listing() -> Vec<RemoteEntry> {
    vec![entry("notes.txt", false, 1536), entry("src", true, 0)]
}

fn exact(effects: &PanelEffects) -> Option<String> {
    match &effects.request {
        Some(request) => match &request.target {
            Target::Exact(path) => Some(path.clone()),
            _ => None,
        },
        None => None,
    }
}

/// A panel showing `/srv` of session 1.
fn panel() -> FilePanel {
    let mut panel = FilePanel::new();
    let effects = panel.set_session(Some(1), true, Some("/srv".to_owned()));
    let request = effects.request.expect("a first listing");
    panel.listing_arrived(1, request.generation, Ok(("/srv".to_owned(), listing())));
    panel
}

#[test]
fn a_session_without_a_directory_starts_at_home() {
    let mut panel = FilePanel::new();
    let effects = panel.set_session(Some(1), true, None);
    assert!(effects.observe);
    assert!(matches!(effects.request.expect("a first listing").target, Target::Home));
}

#[test]
fn naming_the_same_session_again_does_nothing() {
    let mut panel = panel();
    let effects = panel.set_session(Some(1), true, Some("/elsewhere".to_owned()));
    assert!(effects.request.is_none());
    assert!(!effects.notify);
}

#[test]
fn a_session_that_is_not_connected_waits() {
    let mut panel = FilePanel::new();
    let effects = panel.set_session(Some(1), false, Some("/srv".to_owned()));
    assert!(effects.request.is_none());
    assert!(effects.notify);
    assert!(matches!(panel.render_list(false), PanelList::Placeholder(message) if message.key == "files.not_connected"));
    let effects = panel.sync(true, Some("/srv".to_owned()));
    assert_eq!(exact(&effects).as_deref(), Some("/srv"));
    assert!(matches!(panel.render_list(true), PanelList::Placeholder(message) if message.key == "files.loading"));
}

#[test]
fn a_listing_lands_in_order() {
    let panel = panel();
    match panel.render_list(true) {
        PanelList::Rows(rows) => {
            let labels: Vec<&str> = rows.iter().map(|row| row.label.as_str()).collect();
            assert_eq!(labels, ["..", "src", "notes.txt"]);
            assert_eq!(rows[1].icon, Icon::Folder);
            assert_eq!(rows[1].icon_color, Slot::Accent);
            assert_eq!(rows[1].size, None);
            assert_eq!(rows[2].icon, Icon::File);
            assert_eq!(rows[2].size.as_deref(), Some("1.5 KB"));
        }
        _ => panic!("a listed directory has rows"),
    }
}

#[test]
fn a_stale_listing_is_dropped() {
    let mut panel = panel();
    let first = panel.refresh(true).request.expect("a listing").generation;
    let second = panel.refresh(true).request.expect("a listing").generation;
    assert_ne!(first, second);
    let effects = panel.listing_arrived(1, first, Ok(("/old".to_owned(), Vec::new())));
    assert!(!effects.notify);
    assert!(matches!(panel.render_header().title, HeaderTitle::Path(path) if path == "/srv"));
    let effects = panel.listing_arrived(1, second, Ok(("/new".to_owned(), Vec::new())));
    assert!(effects.notify);
    assert!(effects.reset_scroll);
    assert!(matches!(panel.render_header().title, HeaderTitle::Path(path) if path == "/new"));
}

#[test]
fn a_failed_listing_is_shown_and_not_retried() {
    let mut panel = FilePanel::new();
    let request = panel.set_session(Some(1), true, None).request.expect("a first listing");
    panel.listing_arrived(1, request.generation, Err("permission denied".to_owned()));
    let (message, color) = panel.render_notice().expect("a notice");
    assert_eq!(message.key, "files.failed");
    assert_eq!(message.args[0].1, "permission denied");
    assert_eq!(color, Slot::Danger);
    assert!(panel.sync(true, None).request.is_none());
    assert!(matches!(panel.refresh(true).request.expect("a retry").target, Target::Home));
}

#[test]
fn the_panel_follows_the_shell_once_per_move() {
    let mut panel = panel();
    assert!(panel.sync(true, Some("/srv".to_owned())).request.is_none());
    assert_eq!(exact(&panel.sync(true, Some("/tmp".to_owned()))).as_deref(), Some("/tmp"));
    assert!(panel.sync(true, Some("/tmp".to_owned())).request.is_none());
    assert!(panel.sync(true, None).request.is_none());
}

#[test]
fn clicks_select_and_open() {
    let mut panel = panel();
    assert!(panel.row_clicked("notes.txt", 1, true).notify);
    assert!(!panel.row_clicked("notes.txt", 1, true).notify);
    assert!(panel.row_clicked("notes.txt", 2, true).request.is_none());
    assert_eq!(exact(&panel.row_clicked("src", 2, true)).as_deref(), Some("/srv/src"));
    match panel.row_clicked("..", 2, true).request.expect("the parent").target {
        Target::Resolve(path) => assert_eq!(path, "/srv/.."),
        _ => panic!("the parent is for the server to resolve"),
    }
    assert!(!panel.row_clicked("..", 1, true).notify);
    assert!(panel.row_clicked("src", 2, false).request.is_none());
}

#[test]
fn a_new_directory_forgets_the_selection() {
    let mut panel = panel();
    panel.select("notes.txt");
    assert!(panel.render_header().can_download);
    let again = panel.refresh(true).request.expect("a listing").generation;
    panel.listing_arrived(1, again, Ok(("/srv".to_owned(), listing())));
    assert!(panel.render_header().can_download);
    let other = panel.open_parent(true).request.expect("a listing").generation;
    panel.listing_arrived(1, other, Ok(("/".to_owned(), listing())));
    assert!(!panel.render_header().can_download);
    assert!(panel.download(true).is_none());
}

#[test]
fn the_root_has_no_parent_row() {
    let mut panel = panel();
    let generation = panel.open_parent(true).request.expect("a listing").generation;
    panel.listing_arrived(1, generation, Ok(("/".to_owned(), Vec::new())));
    assert!(matches!(panel.render_list(true), PanelList::Placeholder(message) if message.key == "files.empty"));
}

#[test]
fn sessions_keep_what_they_were_showing() {
    let mut panel = panel();
    panel.set_session(Some(2), true, None);
    assert!(matches!(panel.render_header().title, HeaderTitle::Wording(message) if message.key == "files.title"));
    let effects = panel.set_session(Some(1), true, Some("/srv".to_owned()));
    assert!(effects.request.is_none());
    assert!(matches!(panel.render_header().title, HeaderTitle::Path(path) if path == "/srv"));
    assert!(panel.forget_session(1).notify);
    assert_eq!(panel.session(), None);
    assert!(!panel.forget_session(1).notify);
    assert!(matches!(panel.render_list(true), PanelList::Placeholder(message) if message.key == "files.no_session"));
}

#[test]
fn a_download_names_the_remote_path() {
    let mut panel = panel();
    assert!(panel.download(true).is_none());
    panel.select("src");
    assert!(panel.download(true).is_none());
    panel.select("notes.txt");
    let download = panel.download(true).expect("a file is selected");
    assert_eq!(download.remote, "/srv/notes.txt");
    assert_eq!(download.name, "notes.txt");
    panel.download_begun(&download);
    assert_eq!(panel.render_notice().expect("progress").0.key, "files.downloading");
    panel.download_done(1, Ok("/tmp/notes.txt".to_owned()));
    assert_eq!(panel.render_notice().expect("an outcome").0.key, "files.downloaded");
    panel.download_done(1, Err("disk full".to_owned()));
    assert_eq!(panel.render_notice().expect("an outcome").0.key, "files.failed");
}

fn local(name: &str, is_dir: bool) -> LocalPath {
    LocalPath { name: name.to_owned(), is_dir }
}

#[test]
fn an_upload_goes_file_by_file() {
    let mut panel = panel();
    let (transfer, _) = panel.upload(vec![local("a", false), local("b", false)], true);
    let mut transfer = transfer.expect("files to upload");
    assert_eq!(transfer.directory, "/srv");
    assert_eq!(panel.upload_next(&transfer).0, Some(0));
    assert_eq!(panel.render_notice().expect("progress").0.key, "files.uploading");
    transfer.file_done(Ok(()));
    assert_eq!(panel.upload_next(&transfer).0, Some(1));
    transfer.file_done(Ok(()));
    assert_eq!(panel.upload_next(&transfer).0, None);
    let effects = panel.upload_done(transfer);
    assert_eq!(exact(&effects).as_deref(), Some("/srv"));
    let (message, color) = panel.render_notice().expect("an outcome");
    assert_eq!(message.key, "files.uploaded_many");
    assert_eq!(message.args[0].1, "2");
    assert_eq!(color, Slot::TextMuted);
}

#[test]
fn an_upload_stops_at_the_first_failure() {
    let mut panel = panel();
    let (transfer, _) = panel.upload(vec![local("a", false), local("b", false)], true);
    let mut transfer = transfer.expect("files to upload");
    transfer.file_done(Err("quota exceeded".to_owned()));
    assert_eq!(transfer.next_file(), None);
    let effects = panel.upload_done(transfer);
    assert!(effects.request.is_none());
    assert_eq!(panel.render_notice().expect("an outcome").0.args[0].1, "quota exceeded");
}

#[test]
fn directories_are_left_out_of_an_upload() {
    let mut panel = panel();
    let (transfer, effects) = panel.upload(vec![local("tree", true)], true);
    assert!(transfer.is_none());
    assert!(effects.notify);
    let (message, color) = panel.render_notice().expect("a notice");
    assert_eq!(message.key, "files.skipped_directory");
    assert_eq!(message.args[0].1, "tree");
    assert_eq!(color, Slot::Danger);

    let (transfer, _) = panel.upload(vec![local("tree", true), local("a", false), local("more", true)], true);
    let mut transfer = transfer.expect("a file to upload");
    assert_eq!(transfer.next_file(), Some(1));
    transfer.file_done(Ok(()));
    panel.upload_done(transfer);
    let (message, _) = panel.render_notice().expect("an outcome");
    assert_eq!(message.key, "files.skipped_directory");
    assert_eq!(message.args[0].1, "tree");
}

#[test]
fn a_single_upload_is_named() {
    let mut panel = panel();
    let (transfer, _) = panel.upload(vec![local("a.txt", false)], true);
    let mut transfer = transfer.expect("a file to upload");
    transfer.file_done(Ok(()));
    panel.upload_done(transfer);
    let (message, _) = panel.render_notice().expect("an outcome");
    assert_eq!(message.key, "files.uploaded");
    assert_eq!(message.args[0].1, "a.txt");
}

#[test]
fn nothing_is_uploaded_without_a_directory() {
    let mut panel = FilePanel::new();
    let (transfer, effects) = panel.upload(vec![local("a", false)], true);
    assert!(transfer.is_none());
    assert!(!effects.notify);
    assert!(panel.pick_upload(true).is_none());
    assert!(self::panel().pick_upload(true).is_some());
    assert!(self::panel().pick_upload(false).is_none());
}
