use logman::term::theme::TerminalTheme;
use logman::ui::scheme_picker::{preview_for, Arrow, SchemePicker, SchemeSwatch};
use logman::ui::theme::Slot;

fn picker(count: usize, selected: Option<&str>) -> SchemePicker {
    let options = (0..count).map(|i| SchemeSwatch::new(&format!("s{i}"), &format!("Scheme {i}"))).collect();
    SchemePicker::new("schemes").options(options).selected(selected.map(str::to_owned))
}

#[test]
fn a_preview_shows_the_colors_in_between() {
    let dark = TerminalTheme::dark();
    let preview = preview_for(Some(&dark)).expect("a known scheme");
    assert_eq!(preview.background, dark.background);
    assert_eq!(preview.foreground, dark.foreground);
    assert_eq!(preview.ansi, dark.ansi[1..7].to_vec());
    assert!(preview_for(None).is_none());
}

#[test]
fn cards_fill_rows_and_the_last_one_is_padded() {
    let rows = picker(5, Some("s4")).render();
    assert_eq!(rows.len(), 2);
    assert_eq!(rows[0].cards.len(), 3);
    assert_eq!(rows[0].padding, 0);
    assert_eq!(rows[1].cards.len(), 2);
    assert_eq!(rows[1].padding, 1);
    assert_eq!(rows[1].cards[1].option, 4);
    assert!(rows[1].cards[1].selected);
    assert_eq!(rows[1].cards[1].border, Slot::Accent);
    assert!(!rows[1].cards[1].clickable);
    assert_eq!(rows[0].cards[0].border, Slot::Border);
    assert!(rows[0].cards[0].clickable);
    assert!(picker(0, None).render().is_empty());
}

#[test]
fn the_selected_card_is_not_picked_again() {
    let picker = picker(3, Some("s1"));
    assert_eq!(picker.clicked(1), None);
    assert_eq!(picker.clicked(2).map(String::as_str), Some("s2"));
}

#[test]
fn arrows_move_without_wrapping() {
    let first = picker(5, Some("s0"));
    assert_eq!(first.key_down(Arrow::Left, false), None);
    assert_eq!(first.key_down(Arrow::Up, false), None);
    assert_eq!(first.key_down(Arrow::Right, false), Some(1));
    assert_eq!(first.key_down(Arrow::Down, false), Some(3));
    assert_eq!(first.key_down(Arrow::Down, true), None);
    let last = picker(5, Some("s4"));
    assert_eq!(last.key_down(Arrow::Right, false), None);
    assert_eq!(last.key_down(Arrow::Down, false), None);
    assert_eq!(last.key_down(Arrow::Up, false), Some(1));
    assert_eq!(picker(5, None).key_down(Arrow::Right, false), None);
    assert_eq!(picker(5, Some("gone")).key_down(Arrow::Right, false), None);
}

#[test]
fn zero_columns_are_one() {
    assert_eq!(picker(3, None).columns(0).render().len(), 3);
    assert_eq!(picker(3, None).tab_index(4).tab_stop(), Some(4));
    assert_eq!(picker(0, None).tab_index(4).tab_stop(), None);
}

#[test]
fn a_swatch_without_colors_is_a_placeholder() {
    let swatch = SchemeSwatch::new("inherit", "Global");
    assert_eq!(swatch.placeholder, "inherits");
    assert!(swatch.preview.is_none());
    let dark = TerminalTheme::dark();
    let swatch = swatch.placeholder_label("none").preview(preview_for(Some(&dark)).expect("a known scheme"));
    assert_eq!(swatch.placeholder, "none");
    assert!(swatch.preview.is_some());
}
