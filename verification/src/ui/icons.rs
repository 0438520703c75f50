//! The icon set: which assets there are, and under which paths.
use vstd::prelude::*;

use crate::text::{same, starts_with, to_chars};

verus! {

/// The application icon, drawn at the left end of the custom title bar. It is the
/// one asset that is not a vector icon, and sits outside their directory.
pub const APP_ICON: &'static str = "app-icon.png";

/// Path of [`Icon::Folder`].
pub const FOLDER: &'static str = "icons/folder.svg";

/// Path of [`Icon::File`].
pub const FILE: &'static str = "icons/file.svg";

/// Path of [`Icon::Symlink`].
pub const SYMLINK: &'static str = "icons/symlink.svg";

/// Path of [`Icon::Refresh`].
pub const REFRESH: &'static str = "icons/refresh.svg";

/// Path of [`Icon::Upload`].
pub const UPLOAD: &'static str = "icons/upload.svg";

/// Path of [`Icon::UploadFolder`].
pub const UPLOAD_FOLDER: &'static str = "icons/upload-folder.svg";

/// Path of [`Icon::Download`].
pub const DOWNLOAD: &'static str = "icons/download.svg";

/// Path of [`Icon::NewFolder`].
pub const NEW_FOLDER: &'static str = "icons/new-folder.svg";

/// Path of [`Icon::Rename`].
pub const RENAME: &'static str = "icons/rename.svg";

/// Path of [`Icon::Delete`].
pub const DELETE: &'static str = "icons/delete.svg";

/// Path of [`Icon::Panel`].
pub const PANEL: &'static str = "icons/panel.svg";

/// Path of [`Icon::TabList`].
pub const TAB_LIST: &'static str = "icons/tab-list.svg";

/// Path of [`Icon::NewTab`].
pub const NEW_TAB: &'static str = "icons/new-tab.svg";

/// Path of [`Icon::WindowMinimize`].
pub const WINDOW_MINIMIZE: &'static str = "icons/window-minimize.svg";

/// Path of [`Icon::WindowMaximize`].
pub const WINDOW_MAXIMIZE: &'static str = "icons/window-maximize.svg";

/// Path of [`Icon::WindowRestore`].
pub const WINDOW_RESTORE: &'static str = "icons/window-restore.svg";

/// Path of [`Icon::WindowClose`].
pub const WINDOW_CLOSE: &'static str = "icons/window-close.svg";

/// The vector icons.
#[derive(Debug, Clone, Copy, PartialEq, Eq, Structural)]
pub enum Icon {
    /// A directory row in the file panel, and its parent row.
    Folder,
    /// A file row in the file panel.
    File,
    /// Drawn after the name of a symbolic link.
    Symlink,
    /// Lists the current directory again.
    Refresh,
    /// Uploads local files into the current directory.
    Upload,
    /// Uploads a whole local folder.
    UploadFolder,
    /// Saves the selected remote file locally.
    Download,
    /// Creates a directory in the listed one.
    NewFolder,
    /// Renames the one selected entry.
    Rename,
    /// Deletes the selection.
    Delete,
    /// Shows and hides the remote file panel.
    Panel,
    /// Lists every open tab.
    TabList,
    /// Opens a new session.
    NewTab,
    /// Minimises the window.
    WindowMinimize,
    /// Maximises the window.
    WindowMaximize,
    /// Puts a maximised window back.
    WindowRestore,
    /// Closes the window.
    WindowClose,
}

/// The path of an icon.
pub open spec fn icon_path(icon: Icon) -> Seq<char> {
    match icon {
        Icon::Folder => "icons/folder.svg"@,
        Icon::File => "icons/file.svg"@,
        Icon::Symlink => "icons/symlink.svg"@,
        Icon::Refresh => "icons/refresh.svg"@,
        Icon::Upload => "icons/upload.svg"@,
        Icon::UploadFolder => "icons/upload-folder.svg"@,
        Icon::Download => "icons/download.svg"@,
        Icon::NewFolder => "icons/new-folder.svg"@,
        Icon::Rename => "icons/rename.svg"@,
        Icon::Delete => "icons/delete.svg"@,
        Icon::Panel => "icons/panel.svg"@,
        Icon::TabList => "icons/tab-list.svg"@,
        Icon::NewTab => "icons/new-tab.svg"@,
        Icon::WindowMinimize => "icons/window-minimize.svg"@,
        Icon::WindowMaximize => "icons/window-maximize.svg"@,
        Icon::WindowRestore => "icons/window-restore.svg"@,
        Icon::WindowClose => "icons/window-close.svg"@,
    }
}

/// The icons in their order.
pub open spec fn all_icons() -> Seq<Icon> {
    seq![
        Icon::Folder,
        Icon::File,
        Icon::Symlink,
        Icon::Refresh,
        Icon::Upload,
        Icon::UploadFolder,
        Icon::Download,
        Icon::NewFolder,
        Icon::Rename,
        Icon::Delete,
        Icon::Panel,
        Icon::TabList,
        Icon::NewTab,
        Icon::WindowMinimize,
        Icon::WindowMaximize,
        Icon::WindowRestore,
        Icon::WindowClose,
    ]
}

impl Icon {
    /// The path of the icon.
    pub fn path(self) -> (path: &'static str)
        ensures
            path@ == icon_path(self),
    {
        match self {
            Icon::Folder => FOLDER,
            Icon::File => FILE,
            Icon::Symlink => SYMLINK,
            Icon::Refresh => REFRESH,
            Icon::Upload => UPLOAD,
            Icon::UploadFolder => UPLOAD_FOLDER,
            Icon::Download => DOWNLOAD,
            Icon::NewFolder => NEW_FOLDER,
            Icon::Rename => RENAME,
            Icon::Delete => DELETE,
            Icon::Panel => PANEL,
            Icon::TabList => TAB_LIST,
            Icon::NewTab => NEW_TAB,
            Icon::WindowMinimize => WINDOW_MINIMIZE,
            Icon::WindowMaximize => WINDOW_MAXIMIZE,
            Icon::WindowRestore => WINDOW_RESTORE,
            Icon::WindowClose => WINDOW_CLOSE,
        }
    }

    /// The icons in their order.
    pub fn all() -> (icons: Vec<Icon>)
        ensures
            icons@ == all_icons(),
    {
        let icons: Vec<Icon> = vec![
            Icon::Folder,
            Icon::File,
            Icon::Symlink,
            Icon::Refresh,
            Icon::Upload,
            Icon::UploadFolder,
            Icon::Download,
            Icon::NewFolder,
            Icon::Rename,
            Icon::Delete,
            Icon::Panel,
            Icon::TabList,
            Icon::NewTab,
            Icon::WindowMinimize,
            Icon::WindowMaximize,
            Icon::WindowRestore,
            Icon::WindowClose,
        ];
        assert(icons@ =~= all_icons());
        icons
    }
}

/// What a path of the asset source stands for.
#[derive(Debug, Clone, Copy, PartialEq, Eq, Structural)]
pub enum Asset {
    /// The application icon.
    App,
    /// A vector icon.
    Icon(Icon),
}

/// The paths of the asset source, in order.
pub open spec fn asset_paths() -> Seq<Seq<char>> {
    Seq::new(all_icons().len(), |i: int| icon_path(all_icons()[i])).push("app-icon.png"@)
}

/// The paths that begin with a prefix, in order.
pub open spec fn paths_under(paths: Seq<Seq<char>>, prefix: Seq<char>) -> Seq<Seq<char>>
    decreases paths.len(),
{
    if paths.len() == 0 {
        Seq::empty()
    } else {
        let before = paths_under(paths.drop_last(), prefix);
        if prefix.is_prefix_of(paths.last()) {
            before.push(paths.last())
        } else {
            before
        }
    }
}

/// The asset source behind every icon of the application.
pub struct Icons;

impl Icons {
    /// The asset under a path. An unknown path is no error: there is no asset.
    pub fn load(&self, path: &str) -> (asset: Option<Asset>)
        ensures
            match asset {
                Some(Asset::App) => path@ == "app-icon.png"@,
                Some(Asset::Icon(icon)) => path@ == icon_path(icon) && path@ != "app-icon.png"@,
                None => path@ != "app-icon.png"@ && forall|i: int|
                    0 <= i < all_icons().len() ==> path@ != icon_path(#[trigger] all_icons()[i]),
            },
    {
        if same(path, APP_ICON) {
            return Some(Asset::App);
        }
        let icons = Icon::all();
        let mut i: usize = 0;
        while i < icons.len()
            invariant
                i <= icons@.len(),
                icons@ == all_icons(),
                path@ != "app-icon.png"@,
                forall|k: int| 0 <= k < i ==> path@ != icon_path(#[trigger] all_icons()[k]),
            decreases icons@.len() - i,
        {
            if same(path, icons[i].path()) {
                return Some(Asset::Icon(icons[i]));
            }
            i += 1;
        }
        None
    }

    /// The paths under a prefix, in order.
    pub fn list(&self, path: &str) -> (paths: Vec<&'static str>)
        ensures
            texts(paths@) == paths_under(asset_paths(), path@),
    {
        let icons = Icon::all();
        let mut paths: Vec<&'static str> = Vec::new();
        let mut i: usize = 0;
        proof {
            assert(texts(paths@) =~= paths_under(asset_paths().take(0), path@));
        }
        while i <= icons.len()
            invariant
                i <= icons@.len() + 1,
                icons@ == all_icons(),
                icons@.len() == 17,
                texts(paths@) == paths_under(asset_paths().take(i as int), path@),
            decreases icons@.len() + 1 - i,
        {
            let name: &'static str = if i < icons.len() { icons[i].path() } else { APP_ICON };
            let ghost before = texts(paths@);
            proof {
                assert(asset_paths().take(i + 1).drop_last() =~= asset_paths().take(i as int));
                assert(asset_paths().take(i + 1).last() == name@);
            }
            if starts_with(&to_chars(name), path) {
                paths.push(name);
                proof {
                    assert(texts(paths@) =~= before.push(name@));
                }
            }
            i += 1;
        }
        proof {
            assert(asset_paths().take(i as int) =~= asset_paths());
        }
        paths
    }
}

/// The characters of texts.
pub open spec fn texts(list: Seq<&'static str>) -> Seq<Seq<char>> {
    Seq::new(list.len(), |i: int| list[i]@)
}

/// Every icon lies under its own name, and all of them are listed.
pub proof fn icons_lie_under_their_names()
    ensures
        icon_path(Icon::Folder) == "icons/folder.svg"@ && icon_path(Icon::File) == "icons/file.svg"@,
        icon_path(Icon::Symlink) == "icons/symlink.svg"@ && icon_path(Icon::Refresh) == "icons/refresh.svg"@,
        icon_path(Icon::Upload) == "icons/upload.svg"@ && icon_path(Icon::UploadFolder) == "icons/upload-folder.svg"@,
        icon_path(Icon::Download) == "icons/download.svg"@ && icon_path(Icon::NewFolder) == "icons/new-folder.svg"@,
        icon_path(Icon::Rename) == "icons/rename.svg"@ && icon_path(Icon::Delete) == "icons/delete.svg"@,
        icon_path(Icon::Panel) == "icons/panel.svg"@ && icon_path(Icon::TabList) == "icons/tab-list.svg"@,
        icon_path(Icon::NewTab) == "icons/new-tab.svg"@,
        icon_path(Icon::WindowMinimize) == "icons/window-minimize.svg"@,
        icon_path(Icon::WindowMaximize) == "icons/window-maximize.svg"@,
        icon_path(Icon::WindowRestore) == "icons/window-restore.svg"@,
        icon_path(Icon::WindowClose) == "icons/window-close.svg"@,
{
}

/// No icon is missing from the list of all.
pub proof fn every_icon_is_listed(icon: Icon)
    ensures
        all_icons().contains(icon),
        all_icons().len() == 17,
        asset_paths().contains(icon_path(icon)),
        asset_paths().last() == "app-icon.png"@,
        asset_paths().len() == 18,
{
    let icons = all_icons();
    let place: int = match icon {
        Icon::Folder => 0,
        Icon::File => 1,
        Icon::Symlink => 2,
        Icon::Refresh => 3,
        Icon::Upload => 4,
        Icon::UploadFolder => 5,
        Icon::Download => 6,
        Icon::NewFolder => 7,
        Icon::Rename => 8,
        Icon::Delete => 9,
        Icon::Panel => 10,
        Icon::TabList => 11,
        Icon::NewTab => 12,
        Icon::WindowMinimize => 13,
        Icon::WindowMaximize => 14,
        Icon::WindowRestore => 15,
        Icon::WindowClose => 16,
    };
    assert(icons[place] == icon);
    assert(asset_paths()[place] == icon_path(icon));
}

/// A listing holds the paths that begin with the prefix, in their order, and no others.
pub proof fn listings_hold_what_begins_like_them(paths: Seq<Seq<char>>, path: Seq<char>, prefix: Seq<char>)
    ensures
        paths_under(Seq::empty(), prefix).len() == 0,
        prefix.is_prefix_of(path) ==> paths_under(paths.push(path), prefix) == paths_under(paths, prefix).push(path),
        !prefix.is_prefix_of(path) ==> paths_under(paths.push(path), prefix) == paths_under(paths, prefix),
{
    assert(paths.push(path).drop_last() =~= paths);
}

} // verus!
