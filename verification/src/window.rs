//! The window around the workspace: its title bar, its frame and its backdrop.
use vstd::prelude::*;

use crate::settings::{TitlebarStyle, WindowSettings};

verus! {

/// Width of the transparent band around a window that draws its own frame, in
/// pixels. It carries the drop shadow and doubles as the resize grip.
pub const SHADOW_BAND: u32 = 12;

/// Edge length of the corner squares, where the resize goes diagonal, in pixels.
pub const RESIZE_CORNER: u32 = 24;

/// The system the window lives on.
#[derive(Debug, Clone, Copy, PartialEq, Eq, Structural)]
pub enum Platform {
    Mac,
    Windows,
    /// X11 and Wayland.
    Unix,
}

/// Which edges of a window touch a screen or neighbour edge.
#[derive(Debug, Clone, Copy, PartialEq, Eq, Structural)]
pub struct Tiling {
    pub top: bool,
    pub left: bool,
    pub right: bool,
    pub bottom: bool,
}

impl Tiling {
    /// An edge touches something.
    pub open spec fn any(self) -> bool {
        self.top || self.left || self.right || self.bottom
    }

    /// Whether an edge touches something.
    pub fn is_tiled(&self) -> (tiled: bool)
        ensures
            tiled == self.any(),
    {
        self.top || self.left || self.right || self.bottom
    }
}

/// Who draws the frame of a window.
#[derive(Debug, Clone, Copy, PartialEq, Eq, Structural)]
pub enum Decorations {
    /// The window system.
    Server,
    /// The window itself.
    Client(Tiling),
}

/// The toolbar stands in for the title bar. On X11 and Wayland the custom style only
/// asks for a frame of one's own; what the window ended up with decides.
pub open spec fn own_titlebar(style: TitlebarStyle, platform: Platform, decorations: Decorations) -> bool {
    style == TitlebarStyle::Custom && (platform == Platform::Unix ==> decorations is Client)
}

/// Whether the toolbar has to stand in for the window's title bar.
pub fn draws_own_titlebar(style: TitlebarStyle, platform: Platform, decorations: Decorations) -> (draws: bool)
    ensures
        draws == own_titlebar(style, platform, decorations),
{
    let custom = match style {
        TitlebarStyle::Custom => true,
        TitlebarStyle::System => false,
    };
    match platform {
        Platform::Mac => custom,
        Platform::Windows => custom,
        Platform::Unix => custom && matches!(decorations, Decorations::Client(_)),
    }
}

/// The tiling state of a window that draws its own frame: on X11 and Wayland alone.
pub open spec fn own_frame(platform: Platform, decorations: Decorations) -> Option<Tiling> {
    match decorations {
        Decorations::Client(tiling) if platform == Platform::Unix => Some(tiling),
        _ => None,
    }
}

/// The tiling state of a window that draws its own frame, `None` under any other.
pub fn client_tiling(platform: Platform, decorations: Decorations) -> (tiling: Option<Tiling>)
    ensures
        tiling == own_frame(platform, decorations),
{
    match (platform, decorations) {
        (Platform::Unix, Decorations::Client(tiling)) => Some(tiling),
        _ => None,
    }
}

/// What the pointer does on a title bar that the application draws.
#[derive(Debug, Clone, Copy, PartialEq, Eq, Structural)]
pub enum TitlebarGesture {
    DoubleClick,
    LeftPress,
    RightPress,
}

/// What a gesture asks of the window.
#[derive(Debug, Clone, Copy, PartialEq, Eq, Structural)]
pub enum WindowRequest {
    /// What the user picked for a double click in the system settings.
    SystemDoubleClick,
    Zoom,
    StartMove,
    ShowMenu,
}

/// What a gesture asks of the window. Windows answers all of them itself, macOS all
/// but the double click.
pub open spec fn answered(platform: Platform, gesture: TitlebarGesture) -> Option<WindowRequest> {
    match (platform, gesture) {
        (Platform::Windows, _) => None,
        (Platform::Mac, TitlebarGesture::DoubleClick) => Some(WindowRequest::SystemDoubleClick),
        (Platform::Mac, _) => None,
        (Platform::Unix, TitlebarGesture::DoubleClick) => Some(WindowRequest::Zoom),
        (Platform::Unix, TitlebarGesture::LeftPress) => Some(WindowRequest::StartMove),
        (Platform::Unix, TitlebarGesture::RightPress) => Some(WindowRequest::ShowMenu),
    }
}

/// What a gesture on the custom title bar asks of the window.
pub fn titlebar_gestures(platform: Platform, gesture: TitlebarGesture) -> (request: Option<WindowRequest>)
    ensures
        request == answered(platform, gesture),
{
    match platform {
        Platform::Windows => None,
        Platform::Mac => match gesture {
            TitlebarGesture::DoubleClick => Some(WindowRequest::SystemDoubleClick),
            _ => None,
        },
        Platform::Unix => match gesture {
            TitlebarGesture::DoubleClick => Some(WindowRequest::Zoom),
            TitlebarGesture::LeftPress => Some(WindowRequest::StartMove),
            TitlebarGesture::RightPress => Some(WindowRequest::ShowMenu),
        },
    }
}

/// An edge or a corner that a window is resized by.
#[derive(Debug, Clone, Copy, PartialEq, Eq, Structural)]
pub enum ResizeEdge {
    Top,
    Bottom,
    Left,
    Right,
    TopLeft,
    TopRight,
    BottomLeft,
    BottomRight,
}

/// The pointer over a resize handle.
#[derive(Debug, Clone, Copy, PartialEq, Eq, Structural)]
pub enum ResizeCursor {
    UpDown,
    LeftRight,
    UpLeftDownRight,
    UpRightDownLeft,
}

/// A resize handle. A strip has the band's thickness and stops short of either end
/// by an inset; a corner is a square.
#[derive(Debug, Clone, Copy, PartialEq, Eq, Structural)]
pub struct ResizeHandle {
    pub edge: ResizeEdge,
    pub cursor: ResizeCursor,
    /// Thickness of a strip, or edge length of a corner, in pixels.
    pub extent: u32,
    /// How far a strip stops short of its left or upper end, in pixels.
    pub start: u32,
    /// How far a strip stops short of its right or lower end, in pixels.
    pub end: u32,
}

/// A strip stops short of a corner square only where that square exists.
pub open spec fn corner_inset(tiled: bool) -> u32 {
    if tiled {
        0
    } else {
        RESIZE_CORNER
    }
}

/// The handle of an edge or a corner.
pub open spec fn handle_of(edge: ResizeEdge, tiling: Tiling) -> ResizeHandle {
    match edge {
        ResizeEdge::Top => strip_of(edge, ResizeCursor::UpDown, tiling.left, tiling.right),
        ResizeEdge::Bottom => strip_of(edge, ResizeCursor::UpDown, tiling.left, tiling.right),
        ResizeEdge::Left => strip_of(edge, ResizeCursor::LeftRight, tiling.top, tiling.bottom),
        ResizeEdge::Right => strip_of(edge, ResizeCursor::LeftRight, tiling.top, tiling.bottom),
        ResizeEdge::TopLeft => corner_of(edge, ResizeCursor::UpLeftDownRight),
        ResizeEdge::TopRight => corner_of(edge, ResizeCursor::UpRightDownLeft),
        ResizeEdge::BottomLeft => corner_of(edge, ResizeCursor::UpRightDownLeft),
        ResizeEdge::BottomRight => corner_of(edge, ResizeCursor::UpLeftDownRight),
    }
}

/// A strip along an edge.
pub open spec fn strip_of(edge: ResizeEdge, cursor: ResizeCursor, start: bool, end: bool) -> ResizeHandle {
    ResizeHandle { edge, cursor, extent: SHADOW_BAND, start: corner_inset(start), end: corner_inset(end) }
}

/// A square in a corner.
pub open spec fn corner_of(edge: ResizeEdge, cursor: ResizeCursor) -> ResizeHandle {
    ResizeHandle { edge, cursor, extent: RESIZE_CORNER, start: 0, end: 0 }
}

/// An edge or a corner has a handle: every tiled edge goes without.
pub open spec fn draggable(edge: ResizeEdge, tiling: Tiling) -> bool {
    match edge {
        ResizeEdge::Top => !tiling.top,
        ResizeEdge::Bottom => !tiling.bottom,
        ResizeEdge::Left => !tiling.left,
        ResizeEdge::Right => !tiling.right,
        ResizeEdge::TopLeft => !tiling.top && !tiling.left,
        ResizeEdge::TopRight => !tiling.top && !tiling.right,
        ResizeEdge::BottomLeft => !tiling.bottom && !tiling.left,
        ResizeEdge::BottomRight => !tiling.bottom && !tiling.right,
    }
}

/// The edges and corners, strips first so that the corners win where they overlap.
pub open spec fn all_edges() -> Seq<ResizeEdge> {
    seq![
        ResizeEdge::Top,
        ResizeEdge::Bottom,
        ResizeEdge::Left,
        ResizeEdge::Right,
        ResizeEdge::TopLeft,
        ResizeEdge::TopRight,
        ResizeEdge::BottomLeft,
        ResizeEdge::BottomRight,
    ]
}

/// The handles of the first `count` edges and corners.
pub open spec fn handles(tiling: Tiling, count: nat) -> Seq<ResizeHandle>
    decreases count,
{
    if count == 0 {
        Seq::empty()
    } else {
        let edge = all_edges()[count - 1];
        let before = handles(tiling, (count - 1) as nat);
        if draggable(edge, tiling) {
            before.push(handle_of(edge, tiling))
        } else {
            before
        }
    }
}

fn inset(tiled: bool) -> (inset: u32)
    ensures
        inset == corner_inset(tiled),
{
    if tiled {
        0
    } else {
        RESIZE_CORNER
    }
}

fn strip(edge: ResizeEdge, cursor: ResizeCursor, start: bool, end: bool) -> (handle: ResizeHandle)
    ensures
        handle == strip_of(edge, cursor, start, end),
{
    ResizeHandle { edge, cursor, extent: SHADOW_BAND, start: inset(start), end: inset(end) }
}

fn corner(edge: ResizeEdge, cursor: ResizeCursor) -> (handle: ResizeHandle)
    ensures
        handle == corner_of(edge, cursor),
{
    ResizeHandle { edge, cursor, extent: RESIZE_CORNER, start: 0, end: 0 }
}

/// The resize handles the compositor's frame would have provided.
pub fn render_resize_edges(tiling: Tiling) -> (edges: Vec<ResizeHandle>)
    ensures
        edges@ == handles(tiling, 8),
{
    let mut edges: Vec<ResizeHandle> = Vec::new();
    proof {
        reveal_with_fuel(handles, 9);
    }
    if !tiling.top {
        edges.push(strip(ResizeEdge::Top, ResizeCursor::UpDown, tiling.left, tiling.right));
    }
    if !tiling.bottom {
        edges.push(strip(ResizeEdge::Bottom, ResizeCursor::UpDown, tiling.left, tiling.right));
    }
    if !tiling.left {
        edges.push(strip(ResizeEdge::Left, ResizeCursor::LeftRight, tiling.top, tiling.bottom));
    }
    if !tiling.right {
        edges.push(strip(ResizeEdge::Right, ResizeCursor::LeftRight, tiling.top, tiling.bottom));
    }
    if !tiling.top && !tiling.left {
        edges.push(corner(ResizeEdge::TopLeft, ResizeCursor::UpLeftDownRight));
    }
    if !tiling.top && !tiling.right {
        edges.push(corner(ResizeEdge::TopRight, ResizeCursor::UpRightDownLeft));
    }
    if !tiling.bottom && !tiling.left {
        edges.push(corner(ResizeEdge::BottomLeft, ResizeCursor::UpRightDownLeft));
    }
    if !tiling.bottom && !tiling.right {
        edges.push(corner(ResizeEdge::BottomRight, ResizeCursor::UpLeftDownRight));
    }
    edges
}

/// What lies around the content of a window that draws its own frame: a band for the
/// shadow and a hairline, along every edge that is not tiled.
#[derive(Debug)]
pub struct WindowFrame {
    /// How far the content is set in along the top, left, right and bottom edge, in
    /// pixels.
    pub padding: (u32, u32, u32, u32),
    /// Which edges carry a hairline: top, left, right and bottom.
    pub borders: (bool, bool, bool, bool),
    /// Whether the window casts a shadow.
    pub shadow: bool,
    pub handles: Vec<ResizeHandle>,
}

/// How far the content is set in along an edge.
pub open spec fn band(tiled: bool) -> u32 {
    if tiled {
        0
    } else {
        SHADOW_BAND
    }
}

fn band_of(tiled: bool) -> (width: u32)
    ensures
        width == band(tiled),
{
    if tiled {
        0
    } else {
        SHADOW_BAND
    }
}

/// A window is framed as its platform and its decorations ask: by itself with a band
/// along every edge that is not tiled, or not at all.
pub open spec fn framed(inset: u32, frame: Option<WindowFrame>, platform: Platform, decorations: Decorations) -> bool {
    match own_frame(platform, decorations) {
        Some(tiling) => {
            &&& inset == SHADOW_BAND
            &&& frame matches Some(around)
            &&& around.padding == (band(tiling.top), band(tiling.left), band(tiling.right), band(tiling.bottom))
            &&& around.borders == (!tiling.top, !tiling.left, !tiling.right, !tiling.bottom)
            &&& around.shadow == !tiling.any()
            &&& around.handles@ == handles(tiling, 8)
        },
        None => inset == 0 && frame is None,
    }
}

/// The frame around the content, and the width to publish as lying outside the
/// window. A frame that the window system draws leaves nothing behind.
pub fn render_frame(platform: Platform, decorations: Decorations) -> (frame: (u32, Option<WindowFrame>))
    ensures
        framed(frame.0, frame.1, platform, decorations),
{
    match client_tiling(platform, decorations) {
        Some(tiling) => {
            let around = WindowFrame {
                padding: (
                    band_of(tiling.top),
                    band_of(tiling.left),
                    band_of(tiling.right),
                    band_of(tiling.bottom),
                ),
                borders: (!tiling.top, !tiling.left, !tiling.right, !tiling.bottom),
                shadow: !tiling.is_tiled(),
                handles: render_resize_edges(tiling),
            };
            (SHADOW_BAND, Some(around))
        },
        None => (0, None),
    }
}

/// What shows through a window.
#[derive(Debug, Clone, Copy, PartialEq, Eq, Structural)]
pub enum WindowAppearance {
    Opaque,
    Transparent,
    Blurred,
}

/// What the window settings ask to show through: blur wins when requested, and any
/// opacity below the full one asks for a plain transparent window.
pub open spec fn appearance_of(settings: WindowSettings) -> WindowAppearance {
    if settings.background_blur {
        WindowAppearance::Blurred
    } else if settings.background_opacity < 100 {
        WindowAppearance::Transparent
    } else {
        WindowAppearance::Opaque
    }
}

/// Maps the window settings onto a background appearance.
pub fn window_appearance(settings: &WindowSettings) -> (appearance: WindowAppearance)
    ensures
        appearance == appearance_of(*settings),
{
    if settings.background_blur {
        WindowAppearance::Blurred
    } else if settings.background_opacity < 100 {
        WindowAppearance::Transparent
    } else {
        WindowAppearance::Opaque
    }
}

proof fn lemma_handles(tiling: Tiling, count: nat, edge: ResizeEdge)
    requires
        count <= 8,
        !draggable(edge, tiling),
    ensures
        forall|i: int| 0 <= i < handles(tiling, count).len() ==> (#[trigger] handles(tiling, count)[i]).edge != edge,
    decreases count,
{
    if count > 0 {
        lemma_handles(tiling, (count - 1) as nat, edge);
    }
}

/// A window is never resized by an edge or a corner that is tiled.
pub proof fn tiled_edges_have_no_handle(tiling: Tiling, edge: ResizeEdge, i: int)
    requires
        !draggable(edge, tiling),
        0 <= i < handles(tiling, 8).len(),
    ensures
        handles(tiling, 8)[i].edge != edge,
{
    lemma_handles(tiling, 8, edge);
}

/// Only the toolbar of a custom title bar stands in for the caption, so that the
/// window never shows two.
pub proof fn no_second_caption(style: TitlebarStyle, platform: Platform, decorations: Decorations)
    ensures
        !own_titlebar(TitlebarStyle::System, platform, decorations),
        platform == Platform::Unix ==> !own_titlebar(style, platform, Decorations::Server),
{
}

/// A handle resizes the edge it lies on, and its cursor points across that edge: up and
/// down at the top and the bottom, left and right at the sides, and at a corner along
/// the diagonal that ends in it.
pub proof fn cursors_point_across_their_edges(edge: ResizeEdge, tiling: Tiling)
    ensures
        handle_of(edge, tiling).edge == edge,
        edge is Top || edge is Bottom ==> handle_of(edge, tiling).cursor is UpDown,
        edge is Left || edge is Right ==> handle_of(edge, tiling).cursor is LeftRight,
        edge is TopLeft || edge is BottomRight ==> handle_of(edge, tiling).cursor is UpLeftDownRight,
        edge is TopRight || edge is BottomLeft ==> handle_of(edge, tiling).cursor is UpRightDownLeft,
{
}

/// Strips are as thick as the shadow and stop short of the corners that can be dragged;
/// corners are twice as large and are whole.
pub proof fn strips_leave_room_for_corners(edge: ResizeEdge, tiling: Tiling)
    ensures
        edge is Top || edge is Bottom || edge is Left || edge is Right ==> handle_of(edge, tiling).extent == 12,
        edge is TopLeft || edge is TopRight || edge is BottomLeft || edge is BottomRight ==> handle_of(edge, tiling).extent
            == 24 && handle_of(edge, tiling).start == 0 && handle_of(edge, tiling).end == 0,
        edge is Top || edge is Bottom ==> {
            &&& handle_of(edge, tiling).start == if tiling.left { 0u32 } else { 24u32 }
            &&& handle_of(edge, tiling).end == if tiling.right { 0u32 } else { 24u32 }
        },
        edge is Left || edge is Right ==> {
            &&& handle_of(edge, tiling).start == if tiling.top { 0u32 } else { 24u32 }
            &&& handle_of(edge, tiling).end == if tiling.bottom { 0u32 } else { 24u32 }
        },
{
}

/// An edge can be dragged that touches nothing; a corner, when both its edges can.
pub proof fn a_corner_needs_both_its_edges(tiling: Tiling)
    ensures
        draggable(ResizeEdge::Top, tiling) == !tiling.top,
        draggable(ResizeEdge::Bottom, tiling) == !tiling.bottom,
        draggable(ResizeEdge::Left, tiling) == !tiling.left,
        draggable(ResizeEdge::Right, tiling) == !tiling.right,
        draggable(ResizeEdge::TopLeft, tiling) == (draggable(ResizeEdge::Top, tiling) && draggable(
            ResizeEdge::Left,
            tiling,
        )),
        draggable(ResizeEdge::TopRight, tiling) == (draggable(ResizeEdge::Top, tiling) && draggable(
            ResizeEdge::Right,
            tiling,
        )),
        draggable(ResizeEdge::BottomLeft, tiling) == (draggable(ResizeEdge::Bottom, tiling) && draggable(
            ResizeEdge::Left,
            tiling,
        )),
        draggable(ResizeEdge::BottomRight, tiling) == (draggable(ResizeEdge::Bottom, tiling) && draggable(
            ResizeEdge::Right,
            tiling,
        )),
{
}

proof fn lemma_handle_kept(tiling: Tiling, count: nat, place: int)
    requires
        0 <= place < count <= 8,
    ensures
        draggable(all_edges()[place], tiling) ==> handles(tiling, count).contains(
            handle_of(all_edges()[place], tiling),
        ),
    decreases count,
{
    let edge = all_edges()[count - 1];
    let before = handles(tiling, (count - 1) as nat);
    let now = handles(tiling, count);
    if place == count - 1 {
        if draggable(edge, tiling) {
            assert(now.last() == handle_of(edge, tiling));
        }
    } else {
        lemma_handle_kept(tiling, (count - 1) as nat, place);
        let one = handle_of(all_edges()[place], tiling);
        if draggable(all_edges()[place], tiling) {
            let i = choose|i: int| 0 <= i < before.len() && before[i] == one;
            assert(now[i] == one);
        }
    }
}

/// Every edge and every corner that can be dragged has its handle.
pub proof fn free_edges_have_a_handle(tiling: Tiling, edge: ResizeEdge)
    requires
        draggable(edge, tiling),
    ensures
        handles(tiling, 8).contains(handle_of(edge, tiling)),
{
    let edges = all_edges();
    let place: int = match edge {
        ResizeEdge::Top => 0,
        ResizeEdge::Bottom => 1,
        ResizeEdge::Left => 2,
        ResizeEdge::Right => 3,
        ResizeEdge::TopLeft => 4,
        ResizeEdge::TopRight => 5,
        ResizeEdge::BottomLeft => 6,
        ResizeEdge::BottomRight => 7,
    };
    assert(edges[place] == edge);
    lemma_handle_kept(tiling, 8, place);
}

/// The title bar is drawn where it was asked for, and on X11 and Wayland only where the
/// window draws its frame itself, which nowhere else it does.
pub proof fn the_window_draws_what_it_was_asked_to(style: TitlebarStyle, platform: Platform, decorations: Decorations)
    ensures
        style is Custom && !(platform is Unix) ==> own_titlebar(style, platform, decorations),
        style is Custom && decorations is Client ==> own_titlebar(style, platform, decorations),
        own_titlebar(style, platform, decorations) ==> style is Custom,
        own_frame(platform, decorations) is Some <==> platform is Unix && decorations is Client,
        decorations matches Decorations::Client(tiling) ==> (platform is Unix ==> own_frame(platform, decorations)
            == Some(tiling)),
{
}

/// What a gesture on the title bar asks of the window: where the system does not act on
/// its own, a double click zooms, a press moves the window and a right press opens its
/// menu. A Mac answers a double click as its user set it.
pub proof fn gestures_ask_the_window(gesture: TitlebarGesture)
    ensures
        answered(Platform::Windows, gesture) is None,
        answered(Platform::Mac, gesture) is Some <==> gesture is DoubleClick,
        answered(Platform::Mac, TitlebarGesture::DoubleClick) == Some(WindowRequest::SystemDoubleClick),
        answered(Platform::Unix, TitlebarGesture::DoubleClick) == Some(WindowRequest::Zoom),
        answered(Platform::Unix, TitlebarGesture::LeftPress) == Some(WindowRequest::StartMove),
        answered(Platform::Unix, TitlebarGesture::RightPress) == Some(WindowRequest::ShowMenu),
{
}

/// The frame is set in, and lined, along every edge that touches nothing, and casts a
/// shadow when none does.
pub proof fn frames_leave_tiled_edges_out(
    inset: u32,
    around: WindowFrame,
    tiling: Tiling,
    platform: Platform,
    decorations: Decorations,
)
    requires
        framed(inset, Some(around), platform, decorations),
        decorations == Decorations::Client(tiling),
    ensures
        inset == 12,
        around.padding.0 == if tiling.top { 0u32 } else { 12u32 },
        around.padding.1 == if tiling.left { 0u32 } else { 12u32 },
        around.padding.2 == if tiling.right { 0u32 } else { 12u32 },
        around.padding.3 == if tiling.bottom { 0u32 } else { 12u32 },
        around.borders == (!tiling.top, !tiling.left, !tiling.right, !tiling.bottom),
        around.shadow <==> !tiling.top && !tiling.left && !tiling.right && !tiling.bottom,
        tiling.any() <==> tiling.top || tiling.left || tiling.right || tiling.bottom,
{
}

/// A window is blurred where that was asked for, else transparent below full opacity.
pub proof fn opacity_shows(settings: WindowSettings)
    ensures
        appearance_of(settings) is Blurred <==> settings.background_blur,
        appearance_of(settings) is Transparent <==> !settings.background_blur && settings.background_opacity < 100,
        appearance_of(settings) is Opaque <==> !settings.background_blur && settings.background_opacity >= 100,
{
}

} // verus!
