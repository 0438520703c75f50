//! What the widgets show and do, apart from drawing.
pub mod icons;
pub mod menu;
pub mod scheme_picker;
pub mod scrollbar;
pub mod tab_bar;
pub mod theme;
