//! What the browser does with the window's events: keys and clicks that concern the address
//! field, and what is passed on to the page.

use crate::chrome::CHROME_HEIGHT;
use crate::text::{collect_chars, starts_with, texts};
use crate::urlbar::{UrlBar, UrlBarFocus, UrlBarView, HTTPS_PREFIX};
use crate::weburl::{opt_view, parsed, Url, UrlView};
use vstd::prelude::*;
use vstd::string::StringExecFns;

verus! {

/// The event by which the engine's threads wake the window's event loop.
#[derive(Debug)]
pub struct WakerEvent;

/// What the window's title begins with once a page is shown.
pub const TITLE_PREFIX: &'static str = "SuriBrows \u{2014} ";

/// What the window's title begins with while a page is loading.
pub const LOADING_PREFIX: &'static str = "Loading \u{2014} ";

/// A key, as far as the browser tells keys apart.
#[derive(Debug)]
pub enum Key {
    Enter,
    Escape,
    Backspace,
    Delete,
    ArrowLeft,
    ArrowRight,
    Home,
    End,
    F5,
    /// A key that types the given text.
    Character(String),
    /// Any other key.
    Other,
}

/// The modifier keys that are held down.
#[derive(Debug, Clone, Copy, PartialEq, Eq)]
pub struct KeyModifiers {
    pub control: bool,
    pub alt: bool,
}

/// What is to be done after a key.
#[derive(Debug)]
pub enum KeyAction {
    /// Paint the window again.
    Redraw,
    /// Load the page again.
    Reload,
    /// Go one page back.
    GoBack,
    /// Go one page forward.
    GoForward,
    /// Load the URL and paint the window again.
    Load(Url),
    /// Hand the key to the page.
    PassOn,
}

/// What is to be done after a key, as a value.
pub enum KeyActionView {
    Redraw,
    Reload,
    GoBack,
    GoForward,
    Load(UrlView),
    PassOn,
}

impl View for KeyAction {
    type V = KeyActionView;

    open spec fn view(&self) -> KeyActionView {
        match self {
            KeyAction::Redraw => KeyActionView::Redraw,
            KeyAction::Reload => KeyActionView::Reload,
            KeyAction::GoBack => KeyActionView::GoBack,
            KeyAction::GoForward => KeyActionView::GoForward,
            KeyAction::Load(url) => KeyActionView::Load(url@),
            KeyAction::PassOn => KeyActionView::PassOn,
        }
    }
}

/// Where in the window the pointer is.
#[derive(Debug, Clone, Copy, PartialEq, Eq)]
pub enum Zone {
    /// On the chrome bar.
    Chrome,
    /// On the page below it.
    Page,
}

/// What is to be done after a click.
#[derive(Debug, Clone, Copy, PartialEq, Eq)]
pub struct ClickAction {
    /// Paint the window again.
    pub redraw: bool,
    /// Hand the click to the page, with the bar's height taken off its position.
    pub forward: bool,
}

impl Key {
    /// The key types one of the two given letters.
    pub open spec fn is_letter(self, lower: char, upper: char) -> bool {
        match self {
            Key::Character(s) => s@ == seq![lower] || s@ == seq![upper],
            _ => false,
        }
    }
}

/// The shortcut that a pressed key stands for, whatever has the focus: Ctrl+L for the
/// address field, Ctrl+R and F5 for loading again, Alt with the left and right arrows for
/// going back and forward.
pub open spec fn shortcut(key: Key, mods: KeyModifiers) -> Option<KeyActionView> {
    if mods.control && key.is_letter('l', 'L') {
        Some(KeyActionView::Redraw)
    } else if mods.control && key.is_letter('r', 'R') {
        Some(KeyActionView::Reload)
    } else if key is F5 {
        Some(KeyActionView::Reload)
    } else if mods.alt && key is ArrowLeft {
        Some(KeyActionView::GoBack)
    } else if mods.alt && key is ArrowRight {
        Some(KeyActionView::GoForward)
    } else {
        None
    }
}

/// The field after the characters of `text` have been typed into it in turn.
pub open spec fn typed(field: UrlBarView, text: Seq<char>) -> UrlBarView
    decreases text.len(),
{
    if text.len() == 0 {
        field
    } else {
        typed(field, text.drop_last()).after_insert_char(text.last())
    }
}

/// The focused field after a pressed key that is no shortcut.
pub open spec fn edited(field: UrlBarView, key: Key, mods: KeyModifiers) -> UrlBarView {
    match key {
        Key::Enter => field.after_submit(),
        Key::Escape => field.after_unfocus(),
        Key::Backspace => field.after_backspace(),
        Key::Delete => field.after_delete(),
        Key::ArrowLeft => field.after_move_cursor_left(),
        Key::ArrowRight => field.after_move_cursor_right(),
        Key::Home => field.after_home(),
        Key::End => field.after_end(),
        Key::Character(s) => if mods.control && key.is_letter('a', 'A') {
            field.after_focus()
        } else if !mods.control && !mods.alt {
            typed(field, s@)
        } else {
            field
        },
        _ => field,
    }
}

/// The field after a key.
pub open spec fn field_after_key(
    field: UrlBarView,
    key: Key,
    mods: KeyModifiers,
    pressed: bool,
) -> UrlBarView {
    if pressed && shortcut(key, mods) is Some {
        if mods.control && key.is_letter('l', 'L') {
            field.after_focus()
        } else {
            field
        }
    } else if pressed && field.focus != UrlBarFocus::Unfocused {
        edited(field, key, mods)
    } else {
        field
    }
}

/// What is to be done after a key: what its shortcut says; else, with the field focused and
/// the key pressed, loading what Enter submits and painting again; else the key goes to
/// the page.
pub open spec fn action_after_key(
    field: UrlBarView,
    key: Key,
    mods: KeyModifiers,
    pressed: bool,
) -> KeyActionView {
    if pressed && shortcut(key, mods) is Some {
        shortcut(key, mods)->0
    } else if pressed && field.focus != UrlBarFocus::Unfocused {
        match key {
            Key::Enter => match field.submitted() {
                Some(url) => KeyActionView::Load(url),
                None => KeyActionView::Redraw,
            },
            _ => KeyActionView::Redraw,
        }
    } else {
        KeyActionView::PassOn
    }
}

/// Whether `key` types one of the two given letters.
fn types_letter(key: &Key, lower: char, upper: char) -> (r: bool)
    ensures
        r == key.is_letter(lower, upper),
{
    match key {
        Key::Character(s) => {
            let chars = collect_chars(s.as_str());
            let r = chars.len() == 1 && (chars[0] == lower || chars[0] == upper);
            proof {
                if r {
                    assert(s@ =~= seq![chars@[0]]);
                }
                if s@ == seq![lower] || s@ == seq![upper] {
                    assert(s@.len() == 1);
                }
            }
            r
        },
        _ => false,
    }
}

/// Types the characters of `text` into the field.
fn type_text(urlbar: &mut UrlBar, text: &str)
    ensures
        final(urlbar)@ == typed(old(urlbar)@, text@),
{
    let chars = collect_chars(text);
    let mut i: usize = 0;
    assert(text@.take(0) =~= Seq::<char>::empty());
    while i < chars.len()
        invariant
            i <= chars.len(),
            chars@ == text@,
            urlbar@ == typed(old(urlbar)@, text@.take(i as int)),
        decreases chars.len() - i,
    {
        assert(text@.take(i + 1).drop_last() =~= text@.take(i as int));
        urlbar.insert_char(chars[i]);
        i = i + 1;
    }
    assert(text@.take(i as int) =~= text@);
}

/// Handles a key: changes the address field as the key asks, and tells what is to be done.
pub fn handle_key(urlbar: &mut UrlBar, key: &Key, mods: KeyModifiers, pressed: bool) -> (action:
    KeyAction)
    ensures
        final(urlbar)@ == field_after_key(old(urlbar)@, *key, mods, pressed),
        action@ == action_after_key(old(urlbar)@, *key, mods, pressed),
{
    if pressed {
        if mods.control && types_letter(key, 'l', 'L') {
            urlbar.focus();
            return KeyAction::Redraw;
        }
        if mods.control && types_letter(key, 'r', 'R') {
            return KeyAction::Reload;
        }
        if let Key::F5 = key {
            return KeyAction::Reload;
        }
        if mods.alt {
            if let Key::ArrowLeft = key {
                return KeyAction::GoBack;
            }
            if let Key::ArrowRight = key {
                return KeyAction::GoForward;
            }
        }
    }
    if urlbar.is_focused() && pressed {
        match key {
            Key::Enter => {
                match urlbar.submit() {
                    Some(url) => {
                        return KeyAction::Load(url);
                    },
                    None => {},
                }
            },
            Key::Escape => {
                urlbar.unfocus();
            },
            Key::Backspace => {
                urlbar.backspace();
            },
            Key::Delete => {
                urlbar.delete();
            },
            Key::ArrowLeft => {
                urlbar.move_cursor_left();
            },
            Key::ArrowRight => {
                urlbar.move_cursor_right();
            },
            Key::Home => {
                urlbar.home();
            },
            Key::End => {
                urlbar.end();
            },
            Key::Character(s) => {
                if mods.control && types_letter(key, 'a', 'A') {
                    urlbar.select_all();
                } else if !mods.control && !mods.alt {
                    type_text(urlbar, s.as_str());
                }
            },
            _ => {},
        }
        return KeyAction::Redraw;
    }
    KeyAction::PassOn
}

/// The zone of a pointer in pixel row `row` of the window.
pub fn zone_at(row: i64) -> (zone: Zone)
    ensures
        zone == if row < CHROME_HEIGHT {
            Zone::Chrome
        } else {
            Zone::Page
        },
{
    if row < CHROME_HEIGHT as i64 {
        Zone::Chrome
    } else {
        Zone::Page
    }
}

/// The field after a click.
pub open spec fn field_after_click(
    field: UrlBarView,
    zone: Zone,
    pressed: bool,
    left_button: bool,
) -> UrlBarView {
    match zone {
        Zone::Chrome => if pressed && left_button {
            field.after_focus()
        } else {
            field
        },
        Zone::Page => if pressed && field.focus != UrlBarFocus::Unfocused {
            field.after_unfocus()
        } else {
            field
        },
    }
}

/// What is to be done after a click: a click on the bar is never handed to the page, a
/// click on the page always is; the window is painted again where the field's focus
/// changed hands.
pub open spec fn action_after_click(
    field: UrlBarView,
    zone: Zone,
    pressed: bool,
    left_button: bool,
) -> ClickAction {
    match zone {
        Zone::Chrome => ClickAction { redraw: pressed && left_button, forward: false },
        Zone::Page => ClickAction {
            redraw: pressed && field.focus != UrlBarFocus::Unfocused,
            forward: true,
        },
    }
}

/// Handles a mouse button: a left click on the bar gives the field the focus, a click on
/// the page takes it away.
pub fn handle_click(urlbar: &mut UrlBar, zone: Zone, pressed: bool, left_button: bool) -> (action:
    ClickAction)
    ensures
        final(urlbar)@ == field_after_click(old(urlbar)@, zone, pressed, left_button),
        action == action_after_click(old(urlbar)@, zone, pressed, left_button),
{
    match zone {
        Zone::Chrome => {
            if pressed && left_button {
                urlbar.focus();
                ClickAction { redraw: true, forward: false }
            } else {
                ClickAction { redraw: false, forward: false }
            }
        },
        Zone::Page => {
            if pressed && urlbar.is_focused() {
                urlbar.unfocus();
                ClickAction { redraw: true, forward: true }
            } else {
                ClickAction { redraw: false, forward: true }
            }
        },
    }
}

/// Whether a pointer movement or a turn of the wheel in `zone` is handed to the page.
pub fn forwards_pointer(zone: Zone) -> (r: bool)
    ensures
        r == (zone == Zone::Page),
{
    match zone {
        Zone::Chrome => false,
        Zone::Page => true,
    }
}

/// The size of the page's view in a window of the given size: the window without the bar.
pub fn webview_size(width: u32, height: u32) -> (size: (u32, u32))
    ensures
        size.0 == width,
        size.1 == if height >= CHROME_HEIGHT {
            height - CHROME_HEIGHT
        } else {
            0
        },
{
    (width, height.saturating_sub(CHROME_HEIGHT))
}

/// The window's title for a page with the given URL or title.
pub fn window_title(page: &str) -> (title: String)
    ensures
        title@ == TITLE_PREFIX@ + page@,
{
    let mut title = String::from_str(TITLE_PREFIX);
    title.append(page);
    title
}

/// The window's title while the page at `url` is loading.
pub fn loading_title(url: &str) -> (title: String)
    ensures
        title@ == LOADING_PREFIX@ + url@,
{
    let mut title = String::from_str(LOADING_PREFIX);
    title.append(url);
    title
}

/// The kind of resource that a request is for, as the filter rules name it.
pub fn request_type(is_for_main_frame: bool) -> (kind: &'static str)
    ensures
        kind@ == if is_for_main_frame {
            "document"@
        } else {
            "other"@
        },
{
    if is_for_main_frame {
        "document"
    } else {
        "other"
    }
}

/// The index of the first argument behind the program's name that is no flag, or the
/// number of arguments where there is none. A flag begins with two dashes.
pub open spec fn first_plain_argument(args: Seq<Seq<char>>, from: int) -> int
    decreases args.len() - from,
{
    if from >= args.len() || !"--"@.is_prefix_of(args[from]) {
        from
    } else {
        first_plain_argument(args, from + 1)
    }
}

/// The text that names the first page: the first argument that is no flag, or the default.
pub open spec fn start_text(args: Seq<Seq<char>>, default_url: Seq<char>) -> Seq<char> {
    let at = first_plain_argument(args, 1);
    if at < args.len() {
        args[at]
    } else {
        default_url
    }
}

/// The first page: the start text where it is a URL, else the start text behind `https://`.
pub open spec fn start_url(args: Seq<Seq<char>>, default_url: Seq<char>) -> Option<UrlView> {
    let text = start_text(args, default_url);
    if parsed(text) is Some {
        parsed(text)
    } else {
        parsed(HTTPS_PREFIX@ + text)
    }
}

/// The URL of the first page, from the program's arguments, the program's name being the
/// first of them; `None` where the text that names the page is no URL either way.
pub fn parse_url_from_args(args: &Vec<String>, default_url: &str) -> (r: Option<Url>)
    ensures
        opt_view(r) == start_url(texts(args@), default_url@),
{
    let ghost all = texts(args@);
    let mut i: usize = 1;
    while i < args.len() && starts_with(args[i].as_str(), "--")
        invariant
            1 <= i,
            all == texts(args@),
            first_plain_argument(all, 1) == first_plain_argument(all, i as int),
        decreases args.len() - i,
    {
        assert(all[i as int] == args@[i as int]@);
        i = i + 1;
    }
    proof {
        if i < args.len() {
            assert(all[i as int] == args@[i as int]@);
        }
    }
    let input: &str = if i < args.len() {
        args[i].as_str()
    } else {
        default_url
    };
    match Url::parse(input) {
        Some(url) => {
            return Some(url);
        },
        None => {},
    }
    let mut candidate = String::from_str(HTTPS_PREFIX);
    candidate.append(input);
    Url::parse(candidate.as_str())
}

} // verus!
