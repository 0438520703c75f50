use logman::settings::{TitlebarStyle, WindowSettings};
use logman::window::{
    client_tiling, draws_own_titlebar, render_resize_edges, titlebar_gestures, window_appearance, Decorations, Platform,
    ResizeCursor, ResizeEdge, Tiling, TitlebarGesture, WindowAppearance, WindowRequest,
};

const FREE: Tiling = Tiling { top: false, left: false, right: false, bottom: false };

#[test]
fn the_frame_that_came_decides_on_unix() {
    assert!(draws_own_titlebar(TitlebarStyle::Custom, Platform::Unix, Decorations::Client(FREE)));
    assert!(!draws_own_titlebar(TitlebarStyle::Custom, Platform::Unix, Decorations::Server));
    assert!(draws_own_titlebar(TitlebarStyle::Custom, Platform::Mac, Decorations::Server));
    assert!(draws_own_titlebar(TitlebarStyle::Custom, Platform::Windows, Decorations::Server));
    assert!(!draws_own_titlebar(TitlebarStyle::System, Platform::Unix, Decorations::Client(FREE)));
}

#[test]
fn only_unix_windows_frame_themselves() {
    assert_eq!(client_tiling(Platform::Unix, Decorations::Client(FREE)), Some(FREE));
    assert_eq!(client_tiling(Platform::Unix, Decorations::Server), None);
    assert_eq!(client_tiling(Platform::Mac, Decorations::Client(FREE)), None);
    assert_eq!(client_tiling(Platform::Windows, Decorations::Client(FREE)), None);
}

#[test]
fn a_free_window_has_eight_handles() {
    let handles = render_resize_edges(FREE);
    assert_eq!(handles.len(), 8);
    assert_eq!(handles[0].edge, ResizeEdge::Top);
    assert_eq!(handles[0].cursor, ResizeCursor::UpDown);
    assert_eq!((handles[0].extent, handles[0].start, handles[0].end), (12, 24, 24));
    assert_eq!(handles[4].edge, ResizeEdge::TopLeft);
    assert_eq!(handles[4].cursor, ResizeCursor::UpLeftDownRight);
    assert_eq!(handles[4].extent, 24);
}

#[test]
fn tiled_edges_go_without() {
    let handles = render_resize_edges(Tiling { top: true, ..FREE });
    let edges: Vec<ResizeEdge> = handles.iter().map(|handle| handle.edge).collect();
    assert_eq!(
        edges,
        [ResizeEdge::Bottom, ResizeEdge::Left, ResizeEdge::Right, ResizeEdge::BottomLeft, ResizeEdge::BottomRight]
    );
    // Against the tiled edge a strip runs to the end of the band.
    assert_eq!((handles[1].start, handles[1].end), (0, 24));
    assert!(render_resize_edges(Tiling { top: true, left: true, right: true, bottom: true }).is_empty());
}

#[test]
fn gestures_are_answered_where_the_system_does_not() {
    assert_eq!(titlebar_gestures(Platform::Windows, TitlebarGesture::DoubleClick), None);
    assert_eq!(
        titlebar_gestures(Platform::Mac, TitlebarGesture::DoubleClick),
        Some(WindowRequest::SystemDoubleClick)
    );
    assert_eq!(titlebar_gestures(Platform::Mac, TitlebarGesture::LeftPress), None);
    assert_eq!(titlebar_gestures(Platform::Unix, TitlebarGesture::DoubleClick), Some(WindowRequest::Zoom));
    assert_eq!(titlebar_gestures(Platform::Unix, TitlebarGesture::LeftPress), Some(WindowRequest::StartMove));
    assert_eq!(titlebar_gestures(Platform::Unix, TitlebarGesture::RightPress), Some(WindowRequest::ShowMenu));
}

#[test]
fn blur_wins_over_opacity() {
    let settings = |background_opacity: u64, background_blur: bool| WindowSettings {
        titlebar: TitlebarStyle::Custom,
        background_opacity,
        background_blur,
    };
    assert_eq!(window_appearance(&settings(100, true)), WindowAppearance::Blurred);
    assert_eq!(window_appearance(&settings(99, false)), WindowAppearance::Transparent);
    assert_eq!(window_appearance(&settings(100, false)), WindowAppearance::Opaque);
}
