//! The application settings dialog.
//!
//! Edits [`AppSettings`] and nothing else: it copies the current snapshot into
//! the form when it opens, and hands the edited copy out when the user saves. The
//! form collects whatever the user typed; bringing values into range and writing
//! the file are the store's work.
use vstd::prelude::*;

use crate::message::{says, Message, MessageView};
use crate::profile::copy_option;
use crate::settings::{AppSettings, TitlebarStyle, UiTheme};
use crate::text::{
    all_digits, copy, decimal, decimal_text, digit_char, digits_value, option_text, parse, parsed, same, to_chars, trim, trimmed,
};
use crate::term::theme::TerminalTheme;
use crate::ui::scheme_picker::{preview_for, previews, SchemeSwatch};
use crate::ui::theme::Slot;

verus! {

/// Width of the dialog panel, in pixels.
pub const DIALOG_WIDTH: u32 = 760;

/// Height at which the form body starts scrolling, in pixels.
pub const BODY_MAX_HEIGHT: u32 = 520;

/// Cards per row in the color scheme picker.
pub const SCHEME_COLUMNS: usize = 3;

/// Last control of the first section, in tab order.
pub const TAB_BLUR: i64 = 40;

/// Last control of the second section, in tab order.
pub const TAB_COPY_ON_SELECT: i64 = 100;

/// Longest text that is read as a size.
pub const SIZE_LIMIT: usize = 12;

/// What the dialog tells its owner.
pub enum SettingsDialogEvent {
    /// The settings were stored; they apply to the window and to open sessions.
    Applied(AppSettings),
    /// The dialog was dismissed without saving.
    Dismissed,
}

/// Which of the dialog's dropdown lists is showing. Never more than one: their
/// lists would overlap.
#[derive(Debug, Clone, Copy, PartialEq, Eq, Structural)]
pub enum OpenList {
    /// The interface language picker.
    Language,
    /// The terminal font picker.
    Font,
}

/// An entry of a dropdown.
#[derive(Debug)]
pub enum Choice {
    /// Leave it to the operating system.
    SystemDefault,
    Named(String),
}

/// What an entry of a dropdown says.
pub enum ChoiceView {
    SystemDefault,
    Named(Seq<char>),
}

impl View for Choice {
    type V = ChoiceView;

    open spec fn view(&self) -> ChoiceView {
        match self {
            Choice::SystemDefault => ChoiceView::SystemDefault,
            Choice::Named(name) => ChoiceView::Named(name@),
        }
    }
}

/// What entries of a dropdown say.
pub open spec fn choices(list: Seq<Choice>) -> Seq<ChoiceView> {
    Seq::new(list.len(), |i: int| list[i]@)
}

/// The characters of a text that a numeric field keeps: digits, one dot where
/// decimals are allowed, and no more than `max` of them.
pub open spec fn numeric(text: Seq<char>, decimals: bool, max: nat) -> Seq<char>
    decreases text.len(),
{
    if text.len() == 0 {
        Seq::empty()
    } else {
        let before = numeric(text.drop_last(), decimals, max);
        let c = text.last();
        if before.len() < max && ('0' <= c <= '9' || (decimals && c == '.' && !before.contains('.'))) {
            before.push(c)
        } else {
            before
        }
    }
}

/// Keeps a field numeric: what it has to hold instead of `content`, when it has to
/// change.
pub fn restrict_to_number(content: &str, decimals: bool, max_len: usize) -> (rewrite: Option<String>)
    ensures
        match rewrite {
            Some(kept) => kept@ == numeric(content@, decimals, max_len as nat) && kept@ != content@,
            None => numeric(content@, decimals, max_len as nat) == content@,
        },
{
    let chars = to_chars(content);
    let mut kept = String::new();
    let mut count: usize = 0;
    let mut seen_dot = false;
    let mut i: usize = 0;
    proof {
        assert(kept@ =~= numeric(chars@.take(0), decimals, max_len as nat));
    }
    while i < chars.len()
        invariant
            i <= chars@.len(),
            chars@ == content@,
            count == kept@.len(),
            count <= max_len,
            seen_dot == kept@.contains('.'),
            kept@ == numeric(chars@.take(i as int), decimals, max_len as nat),
        decreases chars@.len() - i,
    {
        proof {
            assert(chars@.take(i + 1).drop_last() =~= chars@.take(i as int));
            assert(chars@.take(i + 1).last() == chars@[i as int]);
        }
        let c: char = chars[i];
        let ghost before = kept@;
        if count < max_len && (('0' <= c && c <= '9') || (decimals && c == '.' && !seen_dot)) {
            kept.push(c);
            count += 1;
            if c == '.' {
                seen_dot = true;
            }
            proof {
                assert(kept@[kept@.len() - 1] == c);
                if before.contains('.') {
                    let k = choose|k: int| 0 <= k < before.len() && before[k] == '.';
                    assert(kept@[k] == '.');
                }
                if kept@.contains('.') && c != '.' {
                    let k = choose|k: int| 0 <= k < kept@.len() && kept@[k] == '.';
                    assert(before[k] == '.');
                }
            }
        }
        i += 1;
    }
    proof {
        assert(chars@.take(i as int) =~= content@);
    }
    if same(kept.as_str(), content) {
        None
    } else {
        Some(kept)
    }
}

/// Restricting a field that was restricted changes nothing, so the rewrite does
/// not set itself off.
pub proof fn restricting_settles(text: Seq<char>, decimals: bool, max: nat)
    ensures
        numeric(numeric(text, decimals, max), decimals, max) == numeric(text, decimals, max),
        numeric(text, decimals, max).len() <= max,
        !decimals ==> all_digits(numeric(text, decimals, max)),
    decreases text.len(),
{
    if text.len() > 0 {
        let before = numeric(text.drop_last(), decimals, max);
        restricting_settles(text.drop_last(), decimals, max);
        let kept = numeric(text, decimals, max);
        if kept != before {
            assert(kept.drop_last() =~= before);
        }
    }
}

/// The last `width` digits of a number.
pub open spec fn padded(n: nat, width: nat) -> Seq<char>
    decreases width,
{
    if width == 0 {
        Seq::empty()
    } else {
        padded(n / 10, (width - 1) as nat).push(digit_char((n % 10) as int))
    }
}

/// The digits after the dot, without zeros at their end.
pub open spec fn fraction_text(n: nat, width: nat) -> Seq<char>
    decreases width,
{
    if width > 0 && n % 10 == 0 {
        fraction_text(n / 10, (width - 1) as nat)
    } else {
        padded(n, width)
    }
}

/// A size in ten-thousandths as it is written: whole when it is whole.
pub open spec fn size_text(size: nat) -> Seq<char> {
    if size % 10000 == 0 {
        decimal_text(size / 10000)
    } else {
        decimal_text(size / 10000).push('.') + fraction_text(size % 10000, 4)
    }
}

fn pad(n: u64, width: u64) -> (text: String)
    ensures
        text@ == padded(n as nat, width as nat),
    decreases width,
{
    if width == 0 {
        String::new()
    } else {
        let mut text = pad(n / 10, width - 1);
        text.push((0x30 + (n % 10) as u8) as char);
        text
    }
}

fn write_fraction(n: u64, width: u64) -> (text: String)
    ensures
        text@ == fraction_text(n as nat, width as nat),
    decreases width,
{
    if width > 0 && n % 10 == 0 {
        write_fraction(n / 10, width - 1)
    } else {
        pad(n, width)
    }
}

/// Writes a size without a trailing zero, so that 14.0 shows as "14".
pub fn format_number(size: u64) -> (text: String)
    ensures
        text@ == size_text(size as nat),
{
    let mut text = decimal(size / 10000);
    if size % 10000 != 0 {
        text.push('.');
        let fraction = write_fraction(size % 10000, 4);
        text.append(fraction.as_str());
    }
    text
}

/// Where the dot of a text is.
pub open spec fn dot_at(text: Seq<char>) -> int
    decreases text.len(),
{
    if text.len() == 0 {
        0
    } else if text[0] == '.' {
        0
    } else {
        1 + dot_at(text.skip(1))
    }
}

/// A text is a size: digits with at most one dot among them, at least one digit
/// and no more than four after the dot.
pub open spec fn is_size(text: Seq<char>) -> bool {
    let dot = dot_at(text);
    &&& text.len() <= SIZE_LIMIT
    &&& all_digits(text.take(dot))
    &&& dot < text.len() ==> all_digits(text.skip(dot + 1)) && text.len() - dot - 1 <= 4 && text.len() > 1
    &&& text.len() > 0
}

/// The size that a text stands for, in ten-thousandths.
pub open spec fn parsed_size(text: Seq<char>) -> Option<nat> {
    if is_size(text) {
        Some(size_value(text))
    } else {
        None
    }
}

/// The value of a size.
pub open spec fn size_value(text: Seq<char>) -> nat {
    let dot = dot_at(text);
    if dot < text.len() {
        digits_value(text.take(dot)) * 10000 + digits_value(text.skip(dot + 1)) * pow10((4 - (text.len() - dot - 1)) as nat)
    } else {
        digits_value(text) * 10000
    }
}

/// A power of ten.
pub open spec fn pow10(n: nat) -> nat
    decreases n,
{
    if n == 0 {
        1
    } else {
        10 * pow10((n - 1) as nat)
    }
}

proof fn lemma_pow10(n: nat, m: nat)
    requires
        n <= m,
    ensures
        1 <= pow10(n) <= pow10(m),
    decreases m,
{
    if n < m {
        lemma_pow10(n, (m - 1) as nat);
    } else if n > 0 {
        lemma_pow10((n - 1) as nat, (n - 1) as nat);
    }
}

proof fn lemma_value_bound(text: Seq<char>)
    requires
        all_digits(text),
    ensures
        digits_value(text) < pow10(text.len()),
    decreases text.len(),
{
    if text.len() > 0 {
        let front = text.drop_last();
        assert forall|i: int| 0 <= i < front.len() implies '0' <= #[trigger] front[i] <= '9' by {
            assert(front[i] == text[i]);
        }
        lemma_value_bound(front);
        assert('0' <= text[text.len() - 1] <= '9');
    }
}

/// The value of a stretch of digits.
fn digits_between(chars: &Vec<char>, from: usize, to: usize) -> (value: Option<u64>)
    requires
        from <= to <= chars@.len(),
        to - from <= SIZE_LIMIT,
    ensures
        match value {
            Some(value) => all_digits(chars@.subrange(from as int, to as int)) && value == digits_value(
                chars@.subrange(from as int, to as int),
            ) && value < 1_000_000_000_000,
            None => !all_digits(chars@.subrange(from as int, to as int)),
        },
{
    proof {
        assert(pow10(12) == 1_000_000_000_000) by {
            reveal_with_fuel(pow10, 13);
        }
    }
    let ghost all = chars@.subrange(from as int, to as int);
    let mut value: u64 = 0;
    let mut i: usize = from;
    while i < to
        invariant
            from <= i <= to <= chars@.len(),
            to - from <= SIZE_LIMIT,
            pow10(12) == 1_000_000_000_000,
            all == chars@.subrange(from as int, to as int),
            all_digits(all.take(i - from)),
            value == digits_value(all.take(i - from)),
        decreases to - i,
    {
        let c: char = chars[i];
        if !('0' <= c && c <= '9') {
            assert(all[i - from] == c);
            return None;
        }
        proof {
            let more = all.take(i + 1 - from);
            assert(more.drop_last() =~= all.take(i - from));
            assert(more.last() == c);
            assert forall|k: int| 0 <= k < more.len() implies '0' <= #[trigger] more[k] <= '9' by {
                if k < i - from {
                    assert(all.take(i - from)[k] == more[k]);
                }
            }
            lemma_value_bound(all.take(i - from));
            lemma_pow10((i - from) as nat, 11);
            assert(pow10(11) == 100_000_000_000) by {
                reveal_with_fuel(pow10, 12);
            }
        }
        value = value * 10 + (c as u8 - 0x30) as u64;
        i += 1;
    }
    proof {
        assert(all.take(to - from) =~= all);
        lemma_value_bound(all);
        lemma_pow10((to - from) as nat, 12);
    }
    Some(value)
}

/// Reads a size, in ten-thousandths.
pub fn parse_size(text: &str) -> (size: Option<u64>)
    ensures
        match size {
            Some(size) => parsed_size(text@) == Some(size as nat),
            None => parsed_size(text@) is None,
        },
{
    let chars = to_chars(text);
    let len: usize = chars.len();
    if len == 0 || len > SIZE_LIMIT {
        return None;
    }
    let mut dot: usize = 0;
    proof {
        assert(chars@.skip(0) =~= chars@);
    }
    while dot < len && chars[dot] != '.'
        invariant
            dot <= len,
            len == chars@.len(),
            dot_at(chars@) == dot + dot_at(chars@.skip(dot as int)),
        decreases len - dot,
    {
        proof {
            assert(chars@.skip(dot as int).skip(1) =~= chars@.skip(dot + 1));
        }
        dot += 1;
    }
    proof {
        assert(chars@.subrange(0, dot as int) =~= chars@.take(dot as int));
    }
    let whole: u64 = match digits_between(&chars, 0, dot) {
        Some(whole) => whole,
        None => {
            return None;
        },
    };
    if dot == len {
        proof {
            assert(chars@.take(dot as int) =~= chars@);
        }
        return Some(whole * 10000);
    }
    let places: usize = len - dot - 1;
    proof {
        assert(chars@.subrange(dot + 1, len as int) =~= chars@.skip(dot + 1));
    }
    if places > 4 || len == 1 {
        return None;
    }
    let fraction: u64 = match digits_between(&chars, dot + 1, len) {
        Some(fraction) => fraction,
        None => {
            return None;
        },
    };
    let unit: u64 = if places == 0 {
        10000
    } else if places == 1 {
        1000
    } else if places == 2 {
        100
    } else if places == 3 {
        10
    } else {
        1
    };
    proof {
        reveal_with_fuel(pow10, 6);
        assert(unit == pow10((4 - places) as nat));
        lemma_value_bound(chars@.skip(dot + 1));
        lemma_pow10(places as nat, 4);
        assert(fraction * unit <= 10000 * 10000) by (nonlinear_arith)
            requires
                fraction <= 10000,
                unit <= 10000,
        ;
    }
    Some(whole * 10000 + fraction * unit)
}

proof fn lemma_padded(n: nat, width: nat)
    requires
        n < pow10(width),
    ensures
        padded(n, width).len() == width,
        all_digits(padded(n, width)),
        digits_value(padded(n, width)) == n,
    decreases width,
{
    if width > 0 {
        let front = padded(n / 10, (width - 1) as nat);
        assert(n / 10 < pow10((width - 1) as nat));
        lemma_padded(n / 10, (width - 1) as nat);
        assert(padded(n, width).drop_last() =~= front);
        assert forall|i: int| 0 <= i < padded(n, width).len() implies '0' <= #[trigger] padded(n, width)[i]
            <= '9' by {
            if i < front.len() {
                assert(padded(n, width)[i] == front[i]);
            }
        }
    }
}

proof fn lemma_fraction(n: nat, width: nat)
    requires
        0 < n < pow10(width),
    ensures
        1 <= fraction_text(n, width).len() <= width,
        all_digits(fraction_text(n, width)),
        digits_value(fraction_text(n, width)) * pow10((width - fraction_text(n, width).len()) as nat) == n,
    decreases width,
{
    if width > 0 && n % 10 == 0 {
        assert(n / 10 < pow10((width - 1) as nat));
        lemma_fraction(n / 10, (width - 1) as nat);
        let text = fraction_text(n, width);
        let rest = (width - 1 - text.len()) as nat;
        let value = digits_value(text);
        assert(pow10((width - text.len()) as nat) == 10 * pow10(rest));
        assert(value * (10 * pow10(rest)) == 10 * (value * pow10(rest))) by (nonlinear_arith);
    } else {
        if width == 0 {
            assert(pow10(width) == 1);
        }
        lemma_padded(n, width);
        let value = digits_value(padded(n, width));
        assert(value * pow10(0) == value) by {
            assert(pow10(0) == 1);
        }
    }
}

proof fn lemma_dot_at(front: Seq<char>, back: Seq<char>)
    requires
        all_digits(front),
    ensures
        dot_at(front.push('.') + back) == front.len(),
        dot_at(front) == front.len(),
    decreases front.len(),
{
    let text = front.push('.') + back;
    if front.len() == 0 {
        assert(text[0] == '.');
    } else {
        assert('0' <= front[0] <= '9');
        let rest = front.skip(1);
        assert forall|i: int| 0 <= i < rest.len() implies '0' <= #[trigger] rest[i] <= '9' by {
            assert(rest[i] == front[i + 1]);
        }
        lemma_dot_at(rest, back);
        assert(text.skip(1) =~= rest.push('.') + back);
    }
}

/// What is written for a size is read back as that size.
pub proof fn sizes_round_trip(size: nat)
    requires
        size_text(size).len() <= SIZE_LIMIT,
    ensures
        parsed_size(size_text(size)) == Some(size),
{
    let front = decimal_text(size / 10000);
    crate::text::lemma_decimal(size / 10000);
    let text = size_text(size);
    if size % 10000 == 0 {
        lemma_dot_at(front, Seq::empty());
        assert(text.take(text.len() as int) =~= text);
    } else {
        assert(pow10(4) == 10000) by {
            reveal_with_fuel(pow10, 5);
        }
        let back = fraction_text(size % 10000, 4);
        lemma_fraction(size % 10000, 4);
        lemma_dot_at(front, back);
        assert(text.take(front.len() as int) =~= front);
        assert(text.skip(front.len() as int + 1) =~= back);
    }
}

/// What the controls of the form hold.
pub struct SettingsForm {
    pub ui_theme: UiTheme,
    pub titlebar: TitlebarStyle,
    pub language: Option<Seq<char>>,
    pub background_blur: bool,
    pub scheme: Seq<char>,
    pub copy_on_select: bool,
    pub font_family: Option<Seq<char>>,
    pub opacity: Seq<char>,
    pub font_size: Seq<char>,
    pub scrollback: Seq<char>,
    pub term: Seq<char>,
    pub port: Seq<char>,
    pub username: Seq<char>,
    pub keepalive: Seq<char>,
    pub timeout: Seq<char>,
}

/// The form that shows settings.
pub open spec fn form_of(settings: AppSettings) -> SettingsForm {
    SettingsForm {
        ui_theme: settings.ui_theme,
        titlebar: settings.window.titlebar,
        language: option_text(settings.language),
        background_blur: settings.window.background_blur,
        scheme: settings.terminal.scheme@,
        copy_on_select: settings.terminal.copy_on_select,
        font_family: option_text(settings.terminal.font_family),
        opacity: decimal_text(settings.window.background_opacity as nat),
        font_size: size_text(settings.terminal.font_size as nat),
        scrollback: decimal_text(settings.terminal.scrollback_lines as nat),
        term: settings.terminal.term@,
        port: decimal_text(settings.connection.default_port as nat),
        username: match settings.connection.default_username {
            Some(name) => name@,
            None => Seq::empty(),
        },
        keepalive: decimal_text(settings.connection.keepalive_secs as nat),
        timeout: decimal_text(settings.connection.connect_timeout_secs as nat),
    }
}

/// A number that a field stands for, or else the one there was.
pub open spec fn number_or(field: Seq<char>, max: nat, before: nat) -> nat {
    match parsed(trimmed(field), max) {
        Some(number) => number,
        None => before,
    }
}

/// Settings hold what the form says. A field that is empty or is no number keeps
/// what there was.
pub open spec fn collects(settings: AppSettings, form: SettingsForm, base: AppSettings) -> bool {
    &&& settings.version == base.version
    &&& settings.ui_theme == form.ui_theme
    &&& option_text(settings.language) == form.language
    &&& settings.window.titlebar == form.titlebar
    &&& settings.window.background_blur == form.background_blur
    &&& settings.window.background_opacity == number_or(
        form.opacity,
        u64::MAX as nat,
        base.window.background_opacity as nat,
    )
    &&& settings.terminal.scheme@ == form.scheme
    &&& option_text(settings.terminal.font_family) == form.font_family
    &&& settings.terminal.copy_on_select == form.copy_on_select
    &&& settings.terminal.font_size == match parsed_size(trimmed(form.font_size)) {
        Some(size) => size,
        None => base.terminal.font_size as nat,
    }
    &&& settings.terminal.scrollback_lines == number_or(
        form.scrollback,
        u64::MAX as nat,
        base.terminal.scrollback_lines as nat,
    )
    &&& settings.terminal.term@ == if trimmed(form.term).len() > 0 {
        trimmed(form.term)
    } else {
        base.terminal.term@
    }
    &&& settings.connection.default_port == number_or(
        form.port,
        u16::MAX as nat,
        base.connection.default_port as nat,
    )
    &&& option_text(settings.connection.default_username) == if trimmed(form.username).len() > 0 {
        Some(trimmed(form.username))
    } else {
        None
    }
    &&& settings.connection.keepalive_secs == number_or(
        form.keepalive,
        u64::MAX as nat,
        base.connection.keepalive_secs as nat,
    )
    &&& settings.connection.connect_timeout_secs == number_or(
        form.timeout,
        u64::MAX as nat,
        base.connection.connect_timeout_secs as nat,
    )
}

/// Modal dialog editing the application settings.
pub struct SettingsDialog {
    /// Whether the dialog is currently visible.
    pub open: bool,
    /// The snapshot the form was filled from. Saving starts from it, so what the
    /// dialog does not edit survives.
    pub base: AppSettings,
    pub ui_theme: UiTheme,
    pub titlebar: TitlebarStyle,
    /// Tag of the interface language; `None` follows the system locale.
    pub language: Option<String>,
    pub background_blur: bool,
    /// Id of the terminal color scheme.
    pub scheme: String,
    pub copy_on_select: bool,
    /// Message strip shown above the buttons.
    pub status: Option<Message>,
    /// Whether focus moves into the form on the next render.
    pub pending_focus: bool,
    /// Section currently scrolled into view, so that tabbing inside it does not
    /// scroll again.
    pub visible_section: usize,
    /// Terminal font family; `None` means the default of the platform.
    pub font_family: Option<String>,
    /// Which dropdown is showing its list.
    pub open_list: Option<OpenList>,
    /// Font families installed on the machine, read once per opening.
    pub fonts: Vec<String>,
    pub opacity: String,
    pub font_size: String,
    pub scrollback: String,
    pub term: String,
    pub port: String,
    pub username: String,
    pub keepalive: String,
    pub timeout: String,
}

/// A list and the entry of it that is to be scrolled into view.
#[derive(Debug, Clone, Copy, PartialEq, Eq, Structural)]
pub struct Reveal {
    pub list: OpenList,
    pub index: usize,
}

impl SettingsDialog {
    /// What the controls hold.
    pub open spec fn form(self) -> SettingsForm {
        SettingsForm {
            ui_theme: self.ui_theme,
            titlebar: self.titlebar,
            language: option_text(self.language),
            background_blur: self.background_blur,
            scheme: self.scheme@,
            copy_on_select: self.copy_on_select,
            font_family: option_text(self.font_family),
            opacity: self.opacity@,
            font_size: self.font_size@,
            scrollback: self.scrollback@,
            term: self.term@,
            port: self.port@,
            username: self.username@,
            keepalive: self.keepalive@,
            timeout: self.timeout@,
        }
    }

    /// What the message strip says.
    pub open spec fn strip(self) -> Option<MessageView> {
        match self.status {
            Some(message) => Some(message@),
            None => None,
        }
    }

    /// Build the dialog around settings.
    pub fn new(base: AppSettings) -> (dialog: SettingsDialog)
        ensures
            !dialog.open,
            dialog.base == base,
            dialog.form() == form_of(base),
            dialog.status is None,
            !dialog.pending_focus,
            dialog.visible_section == 0,
            dialog.open_list is None,
            dialog.fonts@.len() == 0,
    {
        let mut dialog = SettingsDialog {
            open: false,
            ui_theme: base.ui_theme,
            titlebar: base.window.titlebar,
            language: copy_option(&base.language),
            background_blur: base.window.background_blur,
            scheme: base.terminal.scheme.clone(),
            copy_on_select: base.terminal.copy_on_select,
            font_family: copy_option(&base.terminal.font_family),
            base: base.clone(),
            status: None,
            pending_focus: false,
            visible_section: 0,
            open_list: None,
            fonts: Vec::new(),
            opacity: String::new(),
            font_size: String::new(),
            scrollback: String::new(),
            term: String::new(),
            port: String::new(),
            username: String::new(),
            keepalive: String::new(),
            timeout: String::new(),
        };
        dialog.fill_form(&base);
        dialog
    }

    /// Show the dialog, copying the current settings into the form.
    pub fn open(&mut self, settings: AppSettings, fonts: Vec<String>)
        ensures
            final(self).open,
            final(self).base == settings,
            final(self).form() == form_of(settings),
            final(self).status is None,
            final(self).pending_focus,
            final(self).visible_section == 0,
            final(self).open_list is None,
            final(self).fonts == fonts,
    {
        self.fonts = fonts;
        self.fill_form(&settings);
        self.base = settings;
        self.status = None;
        self.open = true;
        self.open_list = None;
        self.pending_focus = true;
        self.visible_section = 0;
    }

    /// Whether the dialog is visible.
    pub fn is_open(&self) -> (open: bool)
        ensures
            open == self.open,
    {
        self.open
    }

    /// Hide the dialog without saving.
    pub fn close(&mut self)
        ensures
            *final(self) == (SettingsDialog {
                open: false,
                open_list: None,
                pending_focus: false,
                status: None,
                ..*old(self)
            }),
    {
        self.open = false;
        self.open_list = None;
        self.pending_focus = false;
        self.status = None;
    }

    /// Copy `settings` into every control.
    pub fn fill_form(&mut self, settings: &AppSettings)
        ensures
            final(self).form() == form_of(*settings),
            final(self).open == old(self).open,
            final(self).base == old(self).base,
            final(self).status == old(self).status,
            final(self).pending_focus == old(self).pending_focus,
            final(self).visible_section == old(self).visible_section,
            final(self).open_list == old(self).open_list,
            final(self).fonts == old(self).fonts,
    {
        self.ui_theme = settings.ui_theme;
        self.titlebar = settings.window.titlebar;
        self.language = copy_option(&settings.language);
        self.background_blur = settings.window.background_blur;
        self.scheme = settings.terminal.scheme.clone();
        self.copy_on_select = settings.terminal.copy_on_select;
        self.font_family = copy_option(&settings.terminal.font_family);
        self.opacity = decimal(settings.window.background_opacity);
        self.font_size = format_number(settings.terminal.font_size);
        self.scrollback = decimal(settings.terminal.scrollback_lines);
        self.term = settings.terminal.term.clone();
        self.port = decimal(settings.connection.default_port as u64);
        self.username = match &settings.connection.default_username {
            Some(name) => name.clone(),
            None => String::new(),
        };
        self.keepalive = decimal(settings.connection.keepalive_secs);
        self.timeout = decimal(settings.connection.connect_timeout_secs);
    }

    /// Assemble the form into settings, starting from the snapshot the dialog
    /// opened with so untouched values survive.
    ///
    /// A field the user emptied or made unreadable keeps the value it had when the
    /// dialog opened.
    pub fn collect(&self) -> (settings: AppSettings)
        ensures
            collects(settings, self.form(), self.base),
    {
        let mut settings = self.base.clone();
        settings.ui_theme = self.ui_theme;
        settings.language = copy_option(&self.language);
        settings.window.titlebar = self.titlebar;
        settings.window.background_blur = self.background_blur;
        if let Some(percent) = parse(trim(self.opacity.as_str()).as_str(), u64::MAX) {
            settings.window.background_opacity = percent;
        }
        settings.terminal.scheme = self.scheme.clone();
        settings.terminal.font_family = copy_option(&self.font_family);
        settings.terminal.copy_on_select = self.copy_on_select;
        if let Some(size) = parse_size(trim(self.font_size.as_str()).as_str()) {
            settings.terminal.font_size = size;
        }
        if let Some(lines) = parse(trim(self.scrollback.as_str()).as_str(), u64::MAX) {
            settings.terminal.scrollback_lines = lines;
        }
        let term = trim(self.term.as_str());
        if !term.as_str().is_empty() {
            settings.terminal.term = term;
        }
        if let Some(port) = parse(trim(self.port.as_str()).as_str(), u16::MAX as u64) {
            settings.connection.default_port = port as u16;
        }
        let username = trim(self.username.as_str());
        settings.connection.default_username = if username.as_str().is_empty() {
            None
        } else {
            Some(username)
        };
        if let Some(secs) = parse(trim(self.keepalive.as_str()).as_str(), u64::MAX) {
            settings.connection.keepalive_secs = secs;
        }
        if let Some(secs) = parse(trim(self.timeout.as_str()).as_str(), u64::MAX) {
            settings.connection.connect_timeout_secs = secs;
        }
        settings
    }

    /// The outcome of writing `settings`, which are what [`Self::collect`] gave
    /// after being brought into range.
    ///
    /// A failed write leaves the dialog open with the reason showing and with the
    /// values that would have been stored. Otherwise the dialog closes.
    pub fn save(&mut self, settings: AppSettings, written: Result<(), String>) -> (event: Option<SettingsDialogEvent>)
        ensures
            match written {
                Ok(_) => {
                    &&& event matches Some(SettingsDialogEvent::Applied(applied)) && applied == settings
                    &&& *final(self) == (SettingsDialog {
                        open: false,
                        open_list: None,
                        pending_focus: false,
                        status: None,
                        ..*old(self)
                    })
                },
                Err(reason) => {
                    &&& event is None
                    &&& final(self).strip() == Some(says("settings.save_failed"@).quoting("error"@, reason@))
                    &&& final(self).form() == form_of(settings)
                    &&& final(self).open == old(self).open
                    &&& final(self).base == old(self).base
                    &&& final(self).fonts == old(self).fonts
                    &&& final(self).pending_focus == old(self).pending_focus
                    &&& final(self).visible_section == old(self).visible_section
                    &&& final(self).open_list == old(self).open_list
                },
            },
    {
        match written {
            Ok(_) => {
                self.close();
                Some(SettingsDialogEvent::Applied(settings))
            },
            Err(reason) => {
                self.status = Some(Message::new("settings.save_failed").with("error", reason.as_str()));
                self.fill_form(&settings);
                None
            },
        }
    }

    /// Close the dialog and report that nothing was saved.
    pub fn dismiss(&mut self) -> (event: SettingsDialogEvent)
        ensures
            event is Dismissed,
            *final(self) == (SettingsDialog {
                open: false,
                open_list: None,
                pending_focus: false,
                status: None,
                ..*old(self)
            }),
    {
        self.close();
        SettingsDialogEvent::Dismissed
    }

    /// The section that holds a control, when it has to be scrolled into view
    /// because focus moved to that control.
    pub fn reveal_focused(&mut self, tab_index: Option<i64>) -> (section: Option<usize>)
        ensures
            final(self).visible_section == match tab_index {
                Some(index) => section_of(index as int),
                None => old(self).visible_section as int,
            },
            *final(self) == (SettingsDialog { visible_section: final(self).visible_section, ..*old(self) }),
            match section {
                Some(section) => section == final(self).visible_section && section != old(self).visible_section,
                None => final(self).visible_section == old(self).visible_section,
            },
    {
        let index: i64 = match tab_index {
            Some(index) => index,
            None => {
                return None;
            },
        };
        let section: usize = if index <= TAB_BLUR {
            0
        } else if index <= TAB_COPY_ON_SELECT {
            1
        } else {
            2
        };
        if section != self.visible_section {
            self.visible_section = section;
            Some(section)
        } else {
            None
        }
    }

    /// `Escape` dismisses the dialog from anywhere inside it. An open dropdown
    /// takes the key first and only closes itself. Whether the key was the
    /// dialog's, and what it led to.
    pub fn on_key_down(&mut self, key: &str) -> (taken: (bool, Option<SettingsDialogEvent>))
        ensures
            taken.0 == (old(self).open && key@ == "escape"@),
            !taken.0 ==> *final(self) == *old(self) && taken.1 is None,
            taken.0 && old(self).open_list is Some ==> *final(self) == (SettingsDialog {
                open_list: None,
                ..*old(self)
            }) && taken.1 is None,
            taken.0 && old(self).open_list is None ==> *final(self) == (SettingsDialog {
                open: false,
                pending_focus: false,
                status: None,
                ..*old(self)
            }) && taken.1 == Some(SettingsDialogEvent::Dismissed),
    {
        if !self.open || !same(key, "escape") {
            return (false, None);
        }
        if self.open_list.is_some() {
            self.close_lists();
            return (true, None);
        }
        (true, Some(self.dismiss()))
    }

    /// Hide whichever dropdown list is showing; whether there was one.
    pub fn close_lists(&mut self) -> (changed: bool)
        ensures
            changed == (old(self).open_list is Some),
            *final(self) == (SettingsDialog { open_list: None, ..*old(self) }),
    {
        let changed = self.open_list.is_some();
        self.open_list = None;
        changed
    }

    /// The entries of the font dropdown: the one that leaves it to the system
    /// first, then every installed family.
    ///
    /// A saved font that is not installed comes in between, so that it keeps being
    /// shown.
    pub fn font_options(&self) -> (options: Vec<Choice>)
        ensures
            choices(options@) == font_choices(option_text(self.font_family), names(self.fonts@)),
    {
        let mut options: Vec<Choice> = Vec::new();
        options.push(Choice::SystemDefault);
        if let Some(family) = &self.font_family {
            if !contains_text(&self.fonts, family.as_str()) {
                options.push(Choice::Named(family.clone()));
            }
        }
        let ghost first = choices(options@);
        let mut i: usize = 0;
        proof {
            assert(choices(options@) =~= first + named(names(self.fonts@).take(0)));
        }
        while i < self.fonts.len()
            invariant
                i <= self.fonts@.len(),
                choices(options@) == first + named(names(self.fonts@).take(i as int)),
            decreases self.fonts@.len() - i,
        {
            let ghost before = choices(options@);
            options.push(Choice::Named(self.fonts[i].clone()));
            proof {
                assert(choices(options@) =~= before.push(ChoiceView::Named(self.fonts@[i as int]@)));
                assert(choices(options@) =~= first + named(names(self.fonts@).take(i + 1)));
            }
            i += 1;
        }
        proof {
            assert(names(self.fonts@).take(i as int) =~= names(self.fonts@));
            assert(choices(options@) =~= font_choices(option_text(self.font_family), names(self.fonts@)));
        }
        options
    }

    /// The entries of the language dropdown: the one that follows the system
    /// first, then every shipped translation under its own name.
    pub fn language_options(supported: &Vec<(String, String)>) -> (options: Vec<Choice>)
        ensures
            choices(options@) == seq![ChoiceView::SystemDefault] + Seq::new(
                supported@.len(),
                |i: int| ChoiceView::Named(supported@[i].1@),
            ),
    {
        let mut options: Vec<Choice> = Vec::new();
        options.push(Choice::SystemDefault);
        let ghost all = Seq::new(supported@.len(), |i: int| ChoiceView::Named(supported@[i].1@));
        let mut i: usize = 0;
        proof {
            assert(choices(options@) =~= seq![ChoiceView::SystemDefault] + all.take(0));
        }
        while i < supported.len()
            invariant
                i <= supported@.len(),
                all == Seq::new(supported@.len(), |i: int| ChoiceView::Named(supported@[i].1@)),
                choices(options@) == seq![ChoiceView::SystemDefault] + all.take(i as int),
            decreases supported@.len() - i,
        {
            let ghost before = choices(options@);
            options.push(Choice::Named(supported[i].1.clone()));
            proof {
                assert(choices(options@) =~= before.push(ChoiceView::Named(supported@[i as int].1@)));
                assert(choices(options@) =~= seq![ChoiceView::SystemDefault] + all.take(i + 1));
            }
            i += 1;
        }
        proof {
            assert(all.take(i as int) =~= all);
        }
        options
    }

    /// Position of the selected language in [`Self::language_options`], or `None`
    /// while the language follows the system or is not shipped.
    pub fn language_index(&self, supported: &Vec<(String, String)>) -> (index: Option<usize>)
        requires
            supported@.len() < usize::MAX,
        ensures
            match index {
                Some(index) => language_place(option_text(self.language), tags(supported@)) == Some(index as int),
                None => language_place(option_text(self.language), tags(supported@)) is None,
            },
            index matches Some(index) ==> 1 <= index <= supported@.len(),
    {
        let tag = match &self.language {
            Some(tag) => tag,
            None => {
                return None;
            },
        };
        let mut i: usize = 0;
        while i < supported.len()
            invariant
                i <= supported@.len() < usize::MAX,
                self.language == Some(*tag),
                forall|k: int| 0 <= k < i ==> #[trigger] tags(supported@)[k] != tag@,
            decreases supported@.len() - i,
        {
            if same(supported[i].0.as_str(), tag.as_str()) {
                proof {
                    lemma_first_text(tags(supported@), tag@, i as int);
                }
                return Some(i + 1);
            }
            i += 1;
        }
        proof {
            lemma_no_text(tags(supported@), tag@);
        }
        None
    }

    /// Show or hide `list`; opening one closes the other. The entry to scroll to
    /// when a list opens.
    pub fn set_list_open(&mut self, list: OpenList, open: bool, supported: &Vec<(String, String)>) -> (reveal: Option<Reveal>)
        requires
            supported@.len() < usize::MAX,
            old(self).fonts@.len() < usize::MAX - 2,
        ensures
            *final(self) == (SettingsDialog {
                open_list: if open {
                    Some(list)
                } else {
                    None
                },
                ..*old(self)
            }),
            match reveal {
                Some(reveal) => open && reveal.list == list && reveal.index == match list {
                    OpenList::Language => match language_place(option_text(old(self).language), tags(supported@)) {
                        Some(index) => index,
                        None => 0,
                    },
                    OpenList::Font => font_place(option_text(old(self).font_family), names(old(self).fonts@)),
                },
                None => !open,
            },
    {
        self.open_list = if open { Some(list) } else { None };
        if !open {
            return None;
        }
        let index: usize = match list {
            OpenList::Language => match self.language_index(supported) {
                Some(index) => index,
                None => 0,
            },
            OpenList::Font => self.font_index(),
        };
        Some(Reveal { list, index })
    }

    /// Position of the selected font in [`Self::font_options`], 0 for none.
    fn font_index(&self) -> (index: usize)
        requires
            self.fonts@.len() < usize::MAX - 2,
        ensures
            index == font_place(option_text(self.font_family), names(self.fonts@)),
    {
        let family = match &self.font_family {
            Some(family) => family,
            None => {
                return 0;
            },
        };
        let mut i: usize = 0;
        while i < self.fonts.len()
            invariant
                i <= self.fonts@.len() < usize::MAX - 2,
                self.font_family == Some(*family),
                forall|k: int| 0 <= k < i ==> #[trigger] names(self.fonts@)[k] != family@,
            decreases self.fonts@.len() - i,
        {
            if same(self.fonts[i].as_str(), family.as_str()) {
                proof {
                    lemma_first_text(names(self.fonts@), family@, i as int);
                }
                return i + 1;
            }
            i += 1;
        }
        proof {
            lemma_no_text(names(self.fonts@), family@);
        }
        1
    }

    /// Whether focus moves into the first field now; once after opening.
    pub fn apply_pending_focus(&mut self) -> (focus: bool)
        ensures
            focus == old(self).pending_focus,
            *final(self) == (SettingsDialog { pending_focus: false, ..*old(self) }),
    {
        let focus = self.pending_focus;
        self.pending_focus = false;
        focus
    }

    /// The segment of the theme picker was chosen.
    pub fn select_ui_theme(&mut self, index: usize)
        ensures
            *final(self) == (SettingsDialog {
                ui_theme: if index == 1 {
                    UiTheme::Light
                } else {
                    UiTheme::Dark
                },
                ..*old(self)
            }),
    {
        self.ui_theme = if index == 1 { UiTheme::Light } else { UiTheme::Dark };
    }

    /// The segment of the title bar picker was chosen.
    pub fn select_titlebar(&mut self, index: usize)
        ensures
            *final(self) == (SettingsDialog {
                titlebar: if index == 1 {
                    TitlebarStyle::System
                } else {
                    TitlebarStyle::Custom
                },
                ..*old(self)
            }),
    {
        self.titlebar = if index == 1 { TitlebarStyle::System } else { TitlebarStyle::Custom };
    }

    /// An entry of the language dropdown was chosen: the first follows the system.
    pub fn select_language(&mut self, index: usize, supported: &Vec<(String, String)>)
        ensures
            option_text(final(self).language) == if 1 <= index <= supported@.len() {
                Some(tags(supported@)[index - 1])
            } else {
                None
            },
            *final(self) == (SettingsDialog { language: final(self).language, ..*old(self) }),
    {
        self.language = if index >= 1 && index <= supported.len() {
            Some(supported[index - 1].0.clone())
        } else {
            None
        };
    }

    /// An entry of the font dropdown was chosen: the first leaves it to the system.
    pub fn select_font(&mut self, index: usize, family: &str)
        ensures
            option_text(final(self).font_family) == if index > 0 {
                Some(family@)
            } else {
                None
            },
            *final(self) == (SettingsDialog { font_family: final(self).font_family, ..*old(self) }),
    {
        self.font_family = if index > 0 { Some(copy(family)) } else { None };
    }

    /// The "Appearance" section.
    pub fn render_appearance(&self, supported: &Vec<(String, String)>) -> (section: Appearance)
        ensures
            section.theme == (if self.ui_theme is Light {
                1
            } else {
                0int
            }),
            section.titlebar == (if self.titlebar is System {
                1
            } else {
                0int
            }),
            choices(section.languages@) == seq![ChoiceView::SystemDefault] + Seq::new(
                supported@.len(),
                |i: int| ChoiceView::Named(supported@[i].1@),
            ),
            option_text(section.language) == match self.language {
                Some(tag) => display_name(tag@, supported@),
                None => None,
            },
            section.language_open == (self.open_list == Some(OpenList::Language)),
            section.opacity@ == self.opacity@,
            section.blur == self.background_blur,
    {
        let language = match &self.language {
            Some(tag) => find_name(tag.as_str(), supported),
            None => None,
        };
        Appearance {
            theme: match self.ui_theme {
                UiTheme::Dark => 0,
                UiTheme::Light => 1,
            },
            titlebar: match self.titlebar {
                TitlebarStyle::Custom => 0,
                TitlebarStyle::System => 1,
            },
            languages: SettingsDialog::language_options(supported),
            language,
            language_open: matches!(self.open_list, Some(OpenList::Language)),
            opacity: self.opacity.clone(),
            blur: self.background_blur,
        }
    }

    /// The "Terminal" section.
    pub fn render_terminal(&self) -> (section: TerminalSection)
        ensures
            section.scheme@ == self.scheme@,
            section.columns == SCHEME_COLUMNS,
            choices(section.fonts@) == font_choices(option_text(self.font_family), names(self.fonts@)),
            option_text(section.font) == option_text(self.font_family),
            section.font_open == (self.open_list == Some(OpenList::Font)),
            section.font_size@ == self.font_size@,
            section.scrollback@ == self.scrollback@,
            section.term@ == self.term@,
            section.copy_on_select == self.copy_on_select,
    {
        TerminalSection {
            scheme: self.scheme.clone(),
            columns: SCHEME_COLUMNS,
            fonts: self.font_options(),
            font: copy_option(&self.font_family),
            font_open: matches!(self.open_list, Some(OpenList::Font)),
            font_size: self.font_size.clone(),
            scrollback: self.scrollback.clone(),
            term: self.term.clone(),
            copy_on_select: self.copy_on_select,
        }
    }

    /// The "New connections" section: port, user name, keepalive and timeout.
    pub fn render_connection(&self) -> (section: ConnectionSection)
        ensures
            section.port@ == self.port@,
            section.username@ == self.username@,
            section.keepalive@ == self.keepalive@,
            section.timeout@ == self.timeout@,
    {
        ConnectionSection {
            port: self.port.clone(),
            username: self.username.clone(),
            keepalive: self.keepalive.clone(),
            timeout: self.timeout.clone(),
        }
    }

    /// The message strip above the buttons, and the color it is written in.
    pub fn render_footer(&self) -> (strip: Option<(Message, Slot)>)
        ensures
            match strip {
                Some((message, slot)) => self.strip() == Some(message@) && slot == Slot::Danger,
                None => self.strip() is None,
            },
    {
        match &self.status {
            Some(message) => Some((message.copied(), Slot::Danger)),
            None => None,
        }
    }
}

/// Segments of the theme picker: element id and wording of each, in the order of
/// [`Appearance::theme`].
pub fn ui_theme_options() -> (options: Vec<(&'static str, &'static str)>)
    ensures
        options@.len() == 2,
        options@[0].0@ == "dark"@ && options@[0].1@ == "settings.theme_dark"@,
        options@[1].0@ == "light"@ && options@[1].1@ == "settings.theme_light"@,
{
    let mut options: Vec<(&'static str, &'static str)> = Vec::new();
    options.push(("dark", "settings.theme_dark"));
    options.push(("light", "settings.theme_light"));
    options
}

/// Segments of the title bar picker, in the order of [`Appearance::titlebar`].
pub fn titlebar_options() -> (options: Vec<(&'static str, &'static str)>)
    ensures
        options@.len() == 2,
        options@[0].0@ == "custom"@ && options@[0].1@ == "settings.titlebar_custom"@,
        options@[1].0@ == "system"@ && options@[1].1@ == "settings.titlebar_system"@,
{
    let mut options: Vec<(&'static str, &'static str)> = Vec::new();
    options.push(("custom", "settings.titlebar_custom"));
    options.push(("system", "settings.titlebar_system"));
    options
}

/// A color scheme that can be picked; one whose palette is unknown has none.
pub struct Scheme {
    pub id: String,
    pub name: String,
    pub palette: Option<TerminalTheme>,
}

/// The picker entry of a scheme: a live preview, or a card that says `inherits`.
pub open spec fn is_swatch_of(swatch: SchemeSwatch, scheme: Scheme, inherits: Seq<char>) -> bool {
    &&& swatch.id@ == scheme.id@
    &&& swatch.name@ == scheme.name@
    &&& match (scheme.palette, swatch.preview) {
        (Some(palette), Some(preview)) => previews(preview, palette),
        (None, None) => swatch.placeholder@ == inherits,
        _ => false,
    }
}

/// The schemes as picker entries, in order, each with a live preview. A scheme
/// whose colors are unknown is a muted card that says `inherits`.
pub fn scheme_swatches(schemes: &Vec<Scheme>, inherits: &str) -> (swatches: Vec<SchemeSwatch>)
    ensures
        swatches@.len() == schemes@.len(),
        forall|i: int|
            0 <= i < schemes@.len() ==> is_swatch_of(#[trigger] swatches@[i], schemes@[i], inherits@),
{
    let mut swatches: Vec<SchemeSwatch> = Vec::new();
    let mut i: usize = 0;
    while i < schemes.len()
        invariant
            i <= schemes@.len(),
            swatches@.len() == i,
            forall|k: int| 0 <= k < i ==> is_swatch_of(#[trigger] swatches@[k], schemes@[k], inherits@),
        decreases schemes@.len() - i,
    {
        let swatch = SchemeSwatch::new(schemes[i].id.as_str(), schemes[i].name.as_str());
        let swatch = match preview_for(schemes[i].palette.as_ref()) {
            Some(preview) => swatch.preview(preview),
            None => swatch.placeholder_label(inherits),
        };
        swatches.push(swatch);
        i += 1;
    }
    swatches
}

/// The section that holds the control with a tab index.
pub open spec fn section_of(tab_index: int) -> int {
    if tab_index <= TAB_BLUR {
        0
    } else if tab_index <= TAB_COPY_ON_SELECT {
        1
    } else {
        2
    }
}

/// The texts of strings.
pub open spec fn names(strings: Seq<String>) -> Seq<Seq<char>> {
    Seq::new(strings.len(), |i: int| strings[i]@)
}

/// The tags of shipped translations.
pub open spec fn tags(supported: Seq<(String, String)>) -> Seq<Seq<char>> {
    Seq::new(supported.len(), |i: int| supported[i].0@)
}

/// Dropdown entries for texts.
pub open spec fn named(texts: Seq<Seq<char>>) -> Seq<ChoiceView> {
    Seq::new(texts.len(), |i: int| ChoiceView::Named(texts[i]))
}

/// The entries of the font dropdown.
pub open spec fn font_choices(family: Option<Seq<char>>, fonts: Seq<Seq<char>>) -> Seq<ChoiceView> {
    match family {
        Some(family) if !fonts.contains(family) => seq![ChoiceView::SystemDefault, ChoiceView::Named(family)] + named(
            fonts,
        ),
        _ => seq![ChoiceView::SystemDefault] + named(fonts),
    }
}

/// Where a text stands among texts.
pub open spec fn place_of(texts: Seq<Seq<char>>, text: Seq<char>) -> Option<int>
    decreases texts.len(),
{
    if texts.len() == 0 {
        None
    } else {
        match place_of(texts.drop_last(), text) {
            Some(i) => Some(i),
            None => if texts.last() == text {
                Some(texts.len() - 1)
            } else {
                None
            },
        }
    }
}

/// Where the selected font stands in the font dropdown.
pub open spec fn font_place(family: Option<Seq<char>>, fonts: Seq<Seq<char>>) -> int {
    match family {
        None => 0,
        Some(family) => match place_of(fonts, family) {
            Some(i) => i + 1,
            None => 1,
        },
    }
}

/// Where the selected language stands in the language dropdown.
pub open spec fn language_place(language: Option<Seq<char>>, tags: Seq<Seq<char>>) -> Option<int> {
    match language {
        None => None,
        Some(tag) => match place_of(tags, tag) {
            Some(i) => Some(i + 1),
            None => None,
        },
    }
}

/// The name of a language.
pub open spec fn display_name(tag: Seq<char>, supported: Seq<(String, String)>) -> Option<Seq<char>> {
    match place_of(tags(supported), tag) {
        Some(i) => Some(supported[i].1@),
        None => None,
    }
}

fn find_name(tag: &str, supported: &Vec<(String, String)>) -> (name: Option<String>)
    ensures
        option_text(name) == display_name(tag@, supported@),
{
    let mut i: usize = 0;
    while i < supported.len()
        invariant
            i <= supported@.len(),
            forall|k: int| 0 <= k < i ==> #[trigger] tags(supported@)[k] != tag@,
        decreases supported@.len() - i,
    {
        if same(supported[i].0.as_str(), tag) {
            proof {
                lemma_first_text(tags(supported@), tag@, i as int);
            }
            return Some(supported[i].1.clone());
        }
        i += 1;
    }
    proof {
        lemma_no_text(tags(supported@), tag@);
    }
    None
}

fn contains_text(texts: &Vec<String>, text: &str) -> (found: bool)
    ensures
        found == names(texts@).contains(text@),
{
    let mut i: usize = 0;
    while i < texts.len()
        invariant
            i <= texts@.len(),
            forall|k: int| 0 <= k < i ==> #[trigger] names(texts@)[k] != text@,
        decreases texts@.len() - i,
    {
        if same(texts[i].as_str(), text) {
            assert(names(texts@)[i as int] == text@);
            return true;
        }
        i += 1;
    }
    false
}

proof fn lemma_no_text(texts: Seq<Seq<char>>, text: Seq<char>)
    requires
        forall|k: int| 0 <= k < texts.len() ==> #[trigger] texts[k] != text,
    ensures
        place_of(texts, text) is None,
    decreases texts.len(),
{
    if texts.len() > 0 {
        let front = texts.drop_last();
        assert forall|k: int| 0 <= k < front.len() implies #[trigger] front[k] != text by {
            assert(front[k] == texts[k]);
        }
        lemma_no_text(front, text);
    }
}

proof fn lemma_first_text(texts: Seq<Seq<char>>, text: Seq<char>, i: int)
    requires
        0 <= i < texts.len(),
        texts[i] == text,
        forall|k: int| 0 <= k < i ==> #[trigger] texts[k] != text,
    ensures
        place_of(texts, text) == Some(i),
    decreases texts.len(),
{
    let front = texts.drop_last();
    assert forall|k: int| 0 <= k < i && k < front.len() implies #[trigger] front[k] != text by {
        assert(front[k] == texts[k]);
    }
    if i < texts.len() - 1 {
        lemma_first_text(front, text, i);
    } else {
        lemma_no_text(front, text);
    }
}

proof fn lemma_place(texts: Seq<Seq<char>>, text: Seq<char>)
    ensures
        match place_of(texts, text) {
            Some(i) => 0 <= i < texts.len() && texts[i] == text,
            None => !texts.contains(text),
        },
    decreases texts.len(),
{
    if texts.len() > 0 {
        lemma_place(texts.drop_last(), text);
        if place_of(texts, text) is None && texts.contains(text) {
            let k = choose|k: int| 0 <= k < texts.len() && texts[k] == text;
            if k < texts.len() - 1 {
                assert(texts.drop_last()[k] == text);
            }
        }
    }
}

/// The font dropdown opens on the font that is chosen, whether or not it is
/// installed.
pub proof fn the_chosen_font_is_offered(family: Seq<char>, fonts: Seq<Seq<char>>)
    ensures
        0 <= font_place(Some(family), fonts) < font_choices(Some(family), fonts).len(),
        font_choices(Some(family), fonts)[font_place(Some(family), fonts)] == ChoiceView::Named(family),
{
    lemma_place(fonts, family);
    if place_of(fonts, family) is Some {
        let i = place_of(fonts, family).unwrap();
        assert(fonts[i] == family);
        assert(fonts.contains(family));
    }
}

/// Opening the dialog and saving without an edit keeps every setting, as long as
/// its values are ones that the form can show: texts without blanks around them
/// and sizes that fit the field.
pub proof fn saving_without_an_edit_changes_nothing(settings: AppSettings, saved: AppSettings)
    requires
        collects(saved, form_of(settings), settings),
        size_text(settings.terminal.font_size as nat).len() <= SIZE_LIMIT,
        settings.terminal.term@ == trimmed(settings.terminal.term@),
        settings.connection.default_username matches Some(name) ==> name@ == trimmed(name@) && name@.len() > 0,
    ensures
        saved.version == settings.version,
        saved.ui_theme == settings.ui_theme,
        saved.window == settings.window,
        option_text(saved.language) == option_text(settings.language),
        saved.terminal.scheme@ == settings.terminal.scheme@,
        option_text(saved.terminal.font_family) == option_text(settings.terminal.font_family),
        saved.terminal.font_size == settings.terminal.font_size,
        saved.terminal.scrollback_lines == settings.terminal.scrollback_lines,
        saved.terminal.term@ == settings.terminal.term@,
        saved.terminal.copy_on_select == settings.terminal.copy_on_select,
        saved.connection.default_port == settings.connection.default_port,
        option_text(saved.connection.default_username) == option_text(settings.connection.default_username),
        saved.connection.keepalive_secs == settings.connection.keepalive_secs,
        saved.connection.connect_timeout_secs == settings.connection.connect_timeout_secs,
{
    crate::text::decimal_round_trips(settings.window.background_opacity as nat, u64::MAX as nat);
    crate::text::decimal_round_trips(settings.terminal.scrollback_lines as nat, u64::MAX as nat);
    crate::text::decimal_round_trips(settings.connection.default_port as nat, u16::MAX as nat);
    crate::text::decimal_round_trips(settings.connection.keepalive_secs as nat, u64::MAX as nat);
    crate::text::decimal_round_trips(settings.connection.connect_timeout_secs as nat, u64::MAX as nat);
    sizes_round_trip(settings.terminal.font_size as nat);
    lemma_size_is_trimmed(settings.terminal.font_size as nat);
}

proof fn lemma_size_is_trimmed(size: nat)
    ensures
        trimmed(size_text(size)) == size_text(size),
{
    let text = size_text(size);
    crate::text::lemma_decimal(size / 10000);
    let front = decimal_text(size / 10000);
    assert('0' <= front[0] <= '9');
    assert(text[0] == front[0]);
    assert(text.skip(0) =~= text);
    assert(crate::text::trimmed_start(text) == text);
    if size % 10000 == 0 {
        assert('0' <= front[front.len() - 1] <= '9');
    } else {
        assert(pow10(4) == 10000) by {
            reveal_with_fuel(pow10, 5);
        }
        lemma_fraction(size % 10000, 4);
        let back = fraction_text(size % 10000, 4);
        assert('0' <= back[back.len() - 1] <= '9');
        assert(text.last() == back.last());
    }
}

/// The "Appearance" section.
pub struct Appearance {
    pub theme: usize,
    pub titlebar: usize,
    pub languages: Vec<Choice>,
    pub language: Option<String>,
    pub language_open: bool,
    pub opacity: String,
    pub blur: bool,
}

/// The "Terminal" section.
pub struct TerminalSection {
    pub scheme: String,
    pub columns: usize,
    pub fonts: Vec<Choice>,
    pub font: Option<String>,
    pub font_open: bool,
    pub font_size: String,
    pub scrollback: String,
    pub term: String,
    pub copy_on_select: bool,
}

/// The "New connections" section.
pub struct ConnectionSection {
    pub port: String,
    pub username: String,
    pub keepalive: String,
    pub timeout: String,
}

/// The families of `all` that can be chosen by name: those that start with a dot
/// are the platform's private aliases.
pub open spec fn choosable(all: Seq<Seq<char>>) -> Seq<Seq<char>>
    decreases all.len(),
{
    if all.len() == 0 {
        Seq::empty()
    } else {
        let before = choosable(all.drop_last());
        if all.last().len() > 0 && all.last()[0] == '.' {
            before
        } else {
            before.push(all.last())
        }
    }
}

/// The font families the platform offers, in its order.
pub fn installed_fonts(all: Vec<String>) -> (fonts: Vec<String>)
    ensures
        names(fonts@) == choosable(names(all@)),
{
    let mut fonts: Vec<String> = Vec::new();
    let mut i: usize = 0;
    proof {
        assert(names(fonts@) =~= choosable(names(all@).take(0)));
    }
    while i < all.len()
        invariant
            i <= all@.len(),
            names(fonts@) == choosable(names(all@).take(i as int)),
        decreases all@.len() - i,
    {
        proof {
            assert(names(all@).take(i + 1).drop_last() =~= names(all@).take(i as int));
            assert(names(all@).take(i + 1).last() == all@[i as int]@);
        }
        let ghost before = names(fonts@);
        let chars = to_chars(all[i].as_str());
        if chars.len() > 0 && chars[0] == '.' {
        } else {
            fonts.push(all[i].clone());
            proof {
                assert(names(fonts@) =~= before.push(all@[i as int]@));
            }
        }
        i += 1;
    }
    proof {
        assert(names(all@).take(i as int) =~= names(all@));
    }
    fonts
}

/// A number field keeps digits, up to its limit, and nothing else; a field with
/// decimals also keeps its first point. What it does not keep changes nothing.
pub proof fn number_fields_keep_digits(text: Seq<char>, c: char, decimals: bool, max: nat)
    ensures
        ({
            let kept = numeric(text, decimals, max);
            let more = numeric(text.push(c), decimals, max);
            &&& '0' <= c <= '9' && kept.len() < max ==> more == kept.push(c)
            &&& kept.len() >= max ==> more == kept
            &&& !('0' <= c <= '9') && c != '.' ==> more == kept
            &&& c == '.' && (!decimals || kept.contains('.')) ==> more == kept
            &&& c == '.' && decimals && !kept.contains('.') && kept.len() < max ==> more == kept.push('.')
        }),
        numeric(Seq::empty(), decimals, max).len() == 0,
{
    assert(text.push(c).drop_last() =~= text);
    restricting_settles(text, decimals, max);
}

/// A whole size is its number of points, and every digit behind the point is a tenth of
/// the one before it.
pub proof fn sizes_are_decimal(whole: Seq<char>, part: Seq<char>, digit: char)
    requires
        all_digits(whole),
        all_digits(part),
        whole.len() > 0,
        0 < part.len() <= 3,
        whole.len() + part.len() + 2 <= 12,
        '0' <= digit <= '9',
    ensures
        parsed_size(whole) == Some((digits_value(whole) * 10000) as nat),
        parsed_size(whole.push('.') + part) is Some,
        parsed_size(whole.push('.') + part) == parsed_size(whole.push('.') + part.push('0')),
        parsed_size(seq!['.'] + part) matches Some(size) && parsed_size(whole.push('.') + part) == Some(
            (digits_value(whole) * 10000 + size) as nat,
        ),
        parsed_size(whole.push('.').push(digit)) == Some(
            (digits_value(whole) * 10000 + (digit as nat - 0x30) * 1000) as nat,
        ),
{
    lemma_pointed(whole, part);
    lemma_pointed(whole, part.push('0'));
    lemma_pointed(Seq::empty(), part);
    lemma_pointed(whole, seq![digit]);
    assert(Seq::<char>::empty().push('.') + part =~= seq!['.'] + part);
    assert(whole.push('.') + seq![digit] =~= whole.push('.').push(digit));
    lemma_dot_at(whole, Seq::empty());
    assert(whole.take(whole.len() as int) =~= whole);
    assert(part.push('0').drop_last() =~= part);
    assert(digits_value(part.push('0')) == digits_value(part) * 10);
    reveal_with_fuel(pow10, 5);
    assert(seq![digit].drop_last() =~= Seq::<char>::empty());
    reveal_with_fuel(digits_value, 2);
    assert(digits_value(seq![digit]) == digit as nat - 0x30);
    assert(digits_value(Seq::<char>::empty()) == 0);
    let n = (4 - part.len()) as nat;
    let v = digits_value(part);
    assert(pow10(n) == 10 * pow10((n - 1) as nat));
    assert(v * pow10(n) == (v * 10) * pow10((n - 1) as nat)) by (nonlinear_arith)
        requires
            pow10(n) == 10 * pow10((n - 1) as nat),
    ;
}

proof fn lemma_pointed(front: Seq<char>, back: Seq<char>)
    requires
        all_digits(front),
        all_digits(back),
        0 < back.len() <= 4,
        front.len() + back.len() + 1 <= 12,
    ensures
        parsed_size(front.push('.') + back) == Some(
            (digits_value(front) * 10000 + digits_value(back) * pow10((4 - back.len()) as nat)) as nat,
        ),
{
    let text = front.push('.') + back;
    lemma_dot_at(front, back);
    assert(text.take(front.len() as int) =~= front);
    assert(text.skip(front.len() as int + 1) =~= back);
}

/// A field that holds a number saves that number under its own setting, white space or
/// not; one that holds none leaves the setting as it was.
pub proof fn every_field_saves_its_own_setting(
    settings: AppSettings,
    form: SettingsForm,
    base: AppSettings,
    n: nat,
)
    requires
        collects(settings, form, base),
        n <= 0xffff,
    ensures
        trimmed(form.opacity) == decimal_text(n) ==> settings.window.background_opacity == n,
        trimmed(form.scrollback) == decimal_text(n) ==> settings.terminal.scrollback_lines == n,
        trimmed(form.port) == decimal_text(n) ==> settings.connection.default_port == n,
        trimmed(form.keepalive) == decimal_text(n) ==> settings.connection.keepalive_secs == n,
        trimmed(form.timeout) == decimal_text(n) ==> settings.connection.connect_timeout_secs == n,
        trimmed(form.opacity).len() == 0 ==> settings.window.background_opacity == base.window.background_opacity,
        trimmed(form.scrollback).len() == 0 ==> settings.terminal.scrollback_lines == base.terminal.scrollback_lines,
        trimmed(form.port).len() == 0 ==> settings.connection.default_port == base.connection.default_port,
        trimmed(form.keepalive).len() == 0 ==> settings.connection.keepalive_secs == base.connection.keepalive_secs,
        trimmed(form.timeout).len() == 0 ==> settings.connection.connect_timeout_secs
            == base.connection.connect_timeout_secs,
        trimmed(form.font_size).len() == 0 ==> settings.terminal.font_size == base.terminal.font_size,
        trimmed(form.term).len() > 0 ==> settings.terminal.term@ == trimmed(form.term),
        trimmed(form.term).len() == 0 ==> settings.terminal.term@ == base.terminal.term@,
        trimmed(form.username).len() > 0 ==> option_text(settings.connection.default_username) == Some(
            trimmed(form.username),
        ),
        trimmed(form.username).len() == 0 ==> settings.connection.default_username is None,
        settings.ui_theme == form.ui_theme && settings.window.titlebar == form.titlebar,
        settings.window.background_blur == form.background_blur,
        settings.terminal.copy_on_select == form.copy_on_select,
        settings.terminal.scheme@ == form.scheme,
        option_text(settings.terminal.font_family) == form.font_family,
        option_text(settings.language) == form.language,
        settings.version == base.version,
{
    crate::text::lemma_decimal(n);
    crate::text::only_digits_are_numbers(decimal_text(n), u64::MAX as nat);
    crate::text::only_digits_are_numbers(decimal_text(n), u16::MAX as nat);
}

/// Every field of the form shows its own setting.
pub proof fn the_form_shows_the_settings(settings: AppSettings)
    ensures
        ({
            let form = form_of(settings);
            &&& form.port == decimal_text(settings.connection.default_port as nat)
            &&& form.keepalive == decimal_text(settings.connection.keepalive_secs as nat)
            &&& form.timeout == decimal_text(settings.connection.connect_timeout_secs as nat)
            &&& form.scrollback == decimal_text(settings.terminal.scrollback_lines as nat)
            &&& form.opacity == decimal_text(settings.window.background_opacity as nat)
            &&& form.font_size == size_text(settings.terminal.font_size as nat)
            &&& form.term == settings.terminal.term@
            &&& form.scheme == settings.terminal.scheme@
            &&& settings.connection.default_username matches Some(name) ==> form.username == name@
            &&& settings.connection.default_username is None ==> form.username.len() == 0
            &&& form.ui_theme == settings.ui_theme && form.titlebar == settings.window.titlebar
            &&& form.background_blur == settings.window.background_blur
            &&& form.copy_on_select == settings.terminal.copy_on_select
        }),
{
}

/// A whole size is written without a point.
pub proof fn whole_sizes_are_written_whole(points: nat)
    ensures
        size_text(points * 10000) == decimal_text(points),
        forall|rest: nat|
            0 < rest < 10000 ==> (#[trigger] size_text(points * 10000 + rest)).len() > decimal_text(points).len() + 1
                && size_text(points * 10000 + rest)[decimal_text(points).len() as int] == '.' && size_text(
                points * 10000 + rest,
            ).last() != '0',
{
    assert((points * 10000) % 10000 == 0 && (points * 10000) / 10000 == points);
    assert forall|rest: nat| 0 < rest < 10000 implies (#[trigger] size_text(points * 10000 + rest)).len()
        > decimal_text(points).len() + 1 && size_text(points * 10000 + rest)[decimal_text(points).len() as int] == '.'
        && size_text(points * 10000 + rest).last() != '0' by {
        let size = points * 10000 + rest;
        assert(size % 10000 == rest && size / 10000 == points);
        reveal_with_fuel(fraction_text, 5);
        reveal_with_fuel(padded, 5);
        let back = fraction_text(rest, 4);
        assert(back.len() > 0 && back.last() != '0');
        assert(size_text(size).last() == back.last());
    }
}

/// The list of fonts begins with the default of the system. The font that is set comes
/// next when it is not installed, and then all that are, in their order.
pub proof fn fonts_are_offered_in_order(family: Seq<char>, fonts: Seq<Seq<char>>, i: int)
    requires
        0 <= i < fonts.len(),
    ensures
        font_choices(None, fonts).len() == fonts.len() + 1,
        font_choices(None, fonts)[0] is SystemDefault,
        font_choices(None, fonts)[i + 1] == ChoiceView::Named(fonts[i]),
        font_choices(Some(family), fonts)[0] is SystemDefault,
        fonts.contains(family) ==> font_choices(Some(family), fonts) == font_choices(None, fonts),
        !fonts.contains(family) ==> font_choices(Some(family), fonts)[1] == ChoiceView::Named(family)
            && font_choices(Some(family), fonts)[i + 2] == ChoiceView::Named(fonts[i]),
        font_place(None, fonts) == 0,
{
}

/// A language stands one behind its place, as the default of the system comes first; it
/// goes by the name that is listed with its tag.
pub proof fn languages_stand_behind_the_default(tag: Seq<char>, supported: Seq<(String, String)>)
    ensures
        language_place(None, tags(supported)) is None,
        match language_place(Some(tag), tags(supported)) {
            Some(place) => {
                &&& 1 <= place <= supported.len()
                &&& supported[place - 1].0@ == tag
                &&& display_name(tag, supported) == Some(supported[place - 1].1@)
            },
            None => {
                &&& display_name(tag, supported) is None
                &&& forall|i: int| 0 <= i < supported.len() ==> (#[trigger] supported[i]).0@ != tag
            },
        },
{
    lemma_place(tags(supported), tag);
    if place_of(tags(supported), tag) is None {
        assert forall|i: int| 0 <= i < supported.len() implies (#[trigger] supported[i]).0@ != tag by {
            assert(tags(supported)[i] == supported[i].0@);
        }
    }
}

/// Fonts that hide behind a dot are not offered; all others are, in their order.
pub proof fn hidden_fonts_are_left_out(all: Seq<Seq<char>>, font: Seq<char>)
    ensures
        choosable(Seq::empty()).len() == 0,
        font.len() > 0 && font[0] == '.' ==> choosable(all.push(font)) == choosable(all),
        font.len() == 0 || font[0] != '.' ==> choosable(all.push(font)) == choosable(all).push(font),
{
    assert(all.push(font).drop_last() =~= all);
}

/// The fields come in three sections, each up to its last field.
pub proof fn fields_belong_to_their_sections(tab_index: int)
    ensures
        section_of(tab_index) == 0 <==> tab_index <= 40,
        section_of(tab_index) == 1 <==> 40 < tab_index <= 100,
        section_of(tab_index) == 2 <==> tab_index > 100,
{
}

} // verus!
