//! The address field: edited text, cursor and focus mode, and what a submitted text resolves to.

use crate::text::{
    contains_char, count_scalars_before, is_space, is_whitespace, lemma_scalars_before_bounds,
    lemma_scalars_before_prefix, lemma_utf8_len_take_le, on_boundary, push_char, scalars_before,
    starts_with, trim, trimmed, utf8_len,
};
use crate::weburl::{form_encoded, form_urlencode, opt_view, parsed, Url, UrlView};
use vstd::prelude::*;
use vstd::string::{StrSliceExecFns, StringExecFns};
use vstd::utf8::encode_utf8;

verus! {

/// The search engine's URL where none is configured; the encoded query is appended to it.
pub const DUCKDUCKGO_SEARCH: &'static str = "https://duckduckgo.com/?q=";

/// What is put before a text that looks like a domain.
pub const HTTPS_PREFIX: &'static str = "https://";

/// The ASCII prefix of an internationalized host.
pub const IDN_PREFIX: &'static str = "xn--";

/// The warning sign and two spaces, shown before a URL with an internationalized host.
pub const WARNING_MARKER: &'static str = "\u{26A0}\u{FE0F}  ";

/// The label shown behind a URL with an internationalized host.
pub const PUNYCODE_LABEL: &'static str = " (Punycode)";

/// A character that takes no room on screen: the zero-width space and joiners, the word
/// joiner, the zero-width no-break space, the combining grapheme joiner, and the line and
/// paragraph separators.
pub open spec fn is_invisible(c: char) -> bool {
    let v = c as u32;
    ||| 0x200B <= v <= 0x200D
    ||| v == 0x2060
    ||| v == 0xFEFF
    ||| v == 0x034F
    ||| v == 0x2028
    ||| v == 0x2029
}

/// `s` without its invisible characters.
pub open spec fn visible_only(s: Seq<char>) -> Seq<char>
    decreases s.len(),
{
    if s.len() == 0 {
        Seq::empty()
    } else if is_invisible(s.last()) {
        visible_only(s.drop_last())
    } else {
        visible_only(s.drop_last()).push(s.last())
    }
}

/// Whether the URL's host is an internationalized one in its ASCII form.
pub open spec fn has_idn_host(u: UrlView) -> bool {
    match u.host {
        Some(h) => IDN_PREFIX@.is_prefix_of(h),
        None => false,
    }
}

/// The text shown for a URL: marked and labelled where the host is internationalized,
/// stripped of invisible characters otherwise.
pub open spec fn display_form(u: UrlView) -> Seq<char> {
    if has_idn_host(u) {
        WARNING_MARKER@ + u.serialization + PUNYCODE_LABEL@
    } else {
        visible_only(u.serialization)
    }
}

/// Whether the scheme is `http` or `https`.
pub open spec fn is_web_scheme(scheme: Seq<char>) -> bool {
    scheme == "http"@ || scheme == "https"@
}

/// Whether the text has a dot and no white space.
pub open spec fn domain_shaped(input: Seq<char>) -> bool {
    input.contains('.') && forall|i: int| 0 <= i < input.len() ==> !is_space(#[trigger] input[i])
}

/// The destination of a submitted text: the text itself where it is a web URL, else the text
/// behind `https://` where it is shaped like a domain and parses so, else a search for it:
/// the search engine's URL with the form-encoded text behind it. There is none where the
/// search URL is no URL.
pub open spec fn destination(input: Seq<char>, search_url: Seq<char>) -> Option<UrlView> {
    if parsed(input) is Some && is_web_scheme(parsed(input)->0.scheme) {
        parsed(input)
    } else if domain_shaped(input) && parsed(HTTPS_PREFIX@ + input) is Some {
        parsed(HTTPS_PREFIX@ + input)
    } else {
        parsed(search_url + form_encoded(encode_utf8(input)))
    }
}

/// Whether `c` is one of the invisible characters.
pub fn is_invisible_char(c: char) -> (r: bool)
    ensures
        r == is_invisible(c),
{
    let v: u32 = c as u32;
    (0x200B <= v && v <= 0x200D) || v == 0x2060 || v == 0xFEFF || v == 0x034F || v == 0x2028 || v
        == 0x2029
}

/// The text to show for `url`.
pub fn normalize_url_for_display(url: &Url) -> (shown: String)
    ensures
        shown@ == display_form(url@),
{
    let idn = match url.host_str() {
        Some(h) => starts_with(h, IDN_PREFIX),
        None => false,
    };
    if idn {
        let mut shown = String::from_str(WARNING_MARKER);
        shown.append(url.as_str());
        shown.append(PUNYCODE_LABEL);
        return shown;
    }
    let mut shown = String::new();
    let text = url.as_str();
    for c in it: text.chars()
        invariant
            it.seq() == text@,
            shown@ == visible_only(text@.take(it.index())),
    {
        proof {
            let i = it.index();
            assert(text@.take(i + 1).drop_last() =~= text@.take(i));
        }
        if !is_invisible_char(c) {
            push_char(&mut shown, c);
        }
    }
    assert(text@.take(text@.len() as int) =~= text@);
    shown
}

/// Whether `url` has the scheme `http` or `https`.
pub fn is_web_url(url: &Url) -> (r: bool)
    ensures
        r == is_web_scheme(url@.scheme),
{
    let scheme = url.scheme().to_owned();
    scheme == "http".to_owned() || scheme == "https".to_owned()
}

/// Whether `input` has a dot and no white space.
pub fn looks_like_domain(input: &str) -> (r: bool)
    ensures
        r == domain_shaped(input@),
{
    let mut spaced = false;
    for c in it: input.chars()
        invariant
            it.seq() == input@,
            spaced == (exists|j: int| 0 <= j < it.index() && is_space(#[trigger] input@[j])),
    {
        if is_whitespace(c) {
            spaced = true;
        }
    }
    contains_char(input, '.') && !spaced
}

/// Resolves what the user typed to the URL to load, with the default search engine.
pub fn resolve_input(input: &str) -> (r: Option<Url>)
    ensures
        opt_view(r) == destination(input@, DUCKDUCKGO_SEARCH@),
{
    resolve_input_with(input, DUCKDUCKGO_SEARCH)
}

/// Resolves what the user typed to the URL to load, with the search engine at `search_url`.
pub fn resolve_input_with(input: &str, search_url: &str) -> (r: Option<Url>)
    ensures
        opt_view(r) == destination(input@, search_url@),
{
    match Url::parse(input) {
        Some(url) => {
            if is_web_url(&url) {
                return Some(url);
            }
        },
        None => {},
    }
    if looks_like_domain(input) {
        let mut candidate = String::from_str(HTTPS_PREFIX);
        candidate.append(input);
        match Url::parse(candidate.as_str()) {
            Some(url) => {
                return Some(url);
            },
            None => {},
        }
    }
    let encoded = form_urlencode(input.as_bytes());
    let mut query = String::from_str(search_url);
    query.append(encoded.as_str());
    Url::parse(query.as_str())
}

/// The three modes of the address field.
#[derive(Debug, Clone, Copy, PartialEq, Eq, Structural)]
pub enum UrlBarFocus {
    /// Keyboard input goes past the field.
    Unfocused,
    /// The field has just been focused: its whole text is selected, and the next edit
    /// replaces it.
    Focused,
    /// The text is edited character by character.
    Editing,
}

/// The address field as a value: its text, the number of characters before the cursor, its
/// mode, the URL last reported for the page, and the search engine's URL.
pub struct UrlBarView {
    pub text: Seq<char>,
    pub cursor: nat,
    pub focus: UrlBarFocus,
    pub current_url: Option<UrlView>,
    pub search_url: Seq<char>,
}

impl UrlBarView {
    /// The field with no text left, ready for typing.
    pub open spec fn cleared(self) -> UrlBarView {
        UrlBarView { text: Seq::empty(), cursor: 0, focus: UrlBarFocus::Editing, ..self }
    }

    /// The field that takes over from a selected one once an edit or a move comes.
    pub open spec fn editing(self) -> UrlBarView {
        if self.focus == UrlBarFocus::Focused {
            UrlBarView { focus: UrlBarFocus::Editing, ..self }
        } else {
            self
        }
    }

    /// The field after the page reported `url`: the URL is recorded, and shown unless the
    /// field has the focus.
    pub open spec fn after_set_url(self, url: UrlView) -> UrlBarView {
        if self.focus == UrlBarFocus::Unfocused {
            UrlBarView {
                text: display_form(url),
                cursor: display_form(url).len(),
                current_url: Some(url),
                ..self
            }
        } else {
            UrlBarView { current_url: Some(url), ..self }
        }
    }

    /// The field after it took the focus: its text is selected, the cursor at its end.
    pub open spec fn after_focus(self) -> UrlBarView {
        UrlBarView { focus: UrlBarFocus::Focused, cursor: self.text.len(), ..self }
    }

    /// The field after it gave up the focus: it shows the page's URL again where one is
    /// known, and keeps its text else.
    pub open spec fn after_unfocus(self) -> UrlBarView {
        match self.current_url {
            Some(url) => UrlBarView {
                text: display_form(url),
                cursor: display_form(url).len(),
                focus: UrlBarFocus::Unfocused,
                ..self
            },
            None => UrlBarView { focus: UrlBarFocus::Unfocused, ..self },
        }
    }

    /// The field after `c` was typed: a selected text is replaced, else `c` goes in at the
    /// cursor; the cursor then stands behind `c`.
    pub open spec fn after_insert_char(self, c: char) -> UrlBarView {
        let base = if self.focus == UrlBarFocus::Focused {
            self.cleared()
        } else {
            self
        };
        UrlBarView {
            text: base.text.insert(base.cursor as int, c),
            cursor: base.cursor + 1,
            ..base
        }
    }

    /// The field after a backspace: a selected text is cleared, else the character before
    /// the cursor goes.
    pub open spec fn after_backspace(self) -> UrlBarView {
        if self.focus == UrlBarFocus::Focused {
            self.cleared()
        } else if self.cursor > 0 {
            UrlBarView {
                text: self.text.remove(self.cursor - 1),
                cursor: (self.cursor - 1) as nat,
                ..self
            }
        } else {
            self
        }
    }

    /// The field after a delete: a selected text is cleared, else the character behind the
    /// cursor goes.
    pub open spec fn after_delete(self) -> UrlBarView {
        if self.focus == UrlBarFocus::Focused {
            self.cleared()
        } else if self.cursor < self.text.len() {
            UrlBarView { text: self.text.remove(self.cursor as int), ..self }
        } else {
            self
        }
    }

    /// The field after a move to the left: from a selected text the cursor goes to the
    /// start, else one character to the left if there is one.
    pub open spec fn after_move_cursor_left(self) -> UrlBarView {
        if self.focus == UrlBarFocus::Focused {
            UrlBarView { focus: UrlBarFocus::Editing, cursor: 0, ..self }
        } else if self.cursor > 0 {
            UrlBarView { cursor: (self.cursor - 1) as nat, ..self }
        } else {
            self
        }
    }

    /// The field after a move to the right: from a selected text the cursor stays where it
    /// is, else it goes one character to the right if there is one.
    pub open spec fn after_move_cursor_right(self) -> UrlBarView {
        if self.focus == UrlBarFocus::Focused {
            UrlBarView { focus: UrlBarFocus::Editing, ..self }
        } else if self.cursor < self.text.len() {
            UrlBarView { cursor: self.cursor + 1, ..self }
        } else {
            self
        }
    }

    /// The field after the cursor went to the start of the text.
    pub open spec fn after_home(self) -> UrlBarView {
        UrlBarView { cursor: 0, ..self.editing() }
    }

    /// The field after the cursor went to the end of the text.
    pub open spec fn after_end(self) -> UrlBarView {
        UrlBarView { cursor: self.text.len(), ..self.editing() }
    }

    /// The field after its text was submitted: unfocused, whatever the text is and whatever
    /// it resolves to.
    pub open spec fn after_submit(self) -> UrlBarView {
        UrlBarView { focus: UrlBarFocus::Unfocused, ..self }
    }

    /// What submitting the field's text gives: nothing for a blank text, else the
    /// destination of the trimmed text.
    pub open spec fn submitted(self) -> Option<UrlView> {
        if trimmed(self.text).len() == 0 {
            None
        } else {
            destination(trimmed(self.text), self.search_url)
        }
    }
}

/// A line of text with a cursor that stands between two of its characters.
struct EditLine {
    text: String,
    cursor: usize,
}

impl EditLine {
    #[verifier::type_invariant]
    spec fn well_formed(self) -> bool {
        on_boundary(self.text@, self.cursor as nat)
    }

    /// The number of characters before the cursor.
    closed spec fn position(self) -> nat {
        scalars_before(self.text@, self.cursor as nat)
    }

    /// The line `text` with the cursor behind its first `k` characters.
    fn new(text: String, k: usize) -> (line: EditLine)
        requires
            k <= text@.len(),
        ensures
            line.text@ == text@,
            line.position() == k,
    {
        let head = text.as_str().substring_char(0, k);
        let cursor = head.as_bytes().len();
        proof {
            lemma_scalars_before_prefix(text@, k as int);
        }
        EditLine { text, cursor }
    }

    /// The number of characters before the cursor.
    fn chars_before(&self) -> (k: usize)
        ensures
            k == self.position(),
            k <= self.text@.len(),
            self.cursor == utf8_len(self.text@.take(k as int)),
            self.cursor <= utf8_len(self.text@),
    {
        proof {
            use_type_invariant(self);
            lemma_scalars_before_bounds(self.text@, self.cursor as nat);
            lemma_utf8_len_take_le(self.text@, self.position() as int);
        }
        count_scalars_before(self.text.as_str(), self.cursor)
    }
}

/// The address field.
pub struct UrlBar {
    line: EditLine,
    focus: UrlBarFocus,
    current_url: Option<Url>,
    search_url: String,
}

impl View for UrlBar {
    type V = UrlBarView;

    closed spec fn view(&self) -> UrlBarView {
        UrlBarView {
            text: self.line.text@,
            cursor: self.line.position(),
            focus: self.focus,
            current_url: opt_view(self.current_url),
            search_url: self.search_url@,
        }
    }
}

impl UrlBar {
    #[verifier::type_invariant]
    spec fn well_formed(self) -> bool {
        self.focus == UrlBarFocus::Focused ==> self.line.position() == self.line.text@.len()
    }

    /// An empty, unfocused field that knows no URL and searches with the default engine.
    pub fn new() -> (bar: UrlBar)
        ensures
            bar@ == (UrlBarView {
                text: Seq::empty(),
                cursor: 0,
                focus: UrlBarFocus::Unfocused,
                current_url: None,
                search_url: DUCKDUCKGO_SEARCH@,
            }),
    {
        UrlBar::with_search_url(String::from_str(DUCKDUCKGO_SEARCH))
    }

    /// An empty, unfocused field that knows no URL and searches with the engine at
    /// `search_url`.
    pub fn with_search_url(search_url: String) -> (bar: UrlBar)
        ensures
            bar@ == (UrlBarView {
                text: Seq::empty(),
                cursor: 0,
                focus: UrlBarFocus::Unfocused,
                current_url: None,
                search_url: search_url@,
            }),
    {
        UrlBar {
            line: EditLine::new(String::new(), 0),
            focus: UrlBarFocus::Unfocused,
            current_url: None,
            search_url,
        }
    }

    /// Puts the cursor behind the first `k` characters and sets the mode.
    fn place(&mut self, k: usize, focus: UrlBarFocus)
        requires
            k <= old(self)@.text.len(),
            focus == UrlBarFocus::Focused ==> k == old(self)@.text.len(),
        ensures
            final(self)@ == (UrlBarView { cursor: k as nat, focus, ..old(self)@ }),
    {
        let head = self.line.text.as_str().substring_char(0, k);
        let cursor = head.as_bytes().len();
        proof {
            lemma_scalars_before_prefix(self.line.text@, k as int);
        }
        if focus == UrlBarFocus::Focused {
            self.line.cursor = cursor;
            self.focus = focus;
        } else {
            self.focus = focus;
            self.line.cursor = cursor;
        }
    }

    /// Replaces the text, puts the cursor behind its first `k` characters and sets the mode.
    fn rewrite(&mut self, text: String, k: usize, focus: UrlBarFocus)
        requires
            k <= text@.len(),
            focus == UrlBarFocus::Focused ==> k == text@.len(),
        ensures
            final(self)@ == (UrlBarView { text: text@, cursor: k as nat, focus, ..old(self)@ }),
    {
        let line = EditLine::new(text, k);
        if focus == UrlBarFocus::Focused {
            self.line = line;
            self.focus = focus;
        } else {
            self.focus = focus;
            self.line = line;
        }
    }

    /// Records the page's URL; shows it unless the field has the focus.
    pub fn set_url(&mut self, url: &Url)
        ensures
            final(self)@ == old(self)@.after_set_url(url@),
    {
        proof {
            use_type_invariant(&*self);
        }
        self.current_url = Some(url.clone());
        if self.focus == UrlBarFocus::Unfocused {
            let shown = normalize_url_for_display(url);
            let n = shown.as_str().unicode_len();
            self.rewrite(shown, n, UrlBarFocus::Unfocused);
        }
    }

    /// Takes the focus and selects the whole text.
    pub fn focus(&mut self)
        ensures
            final(self)@ == old(self)@.after_focus(),
    {
        let n = self.line.text.as_str().unicode_len();
        self.place(n, UrlBarFocus::Focused);
    }

    /// Gives up the focus and shows the page's URL again, where one is known.
    pub fn unfocus(&mut self)
        ensures
            final(self)@ == old(self)@.after_unfocus(),
    {
        let shown = match &self.current_url {
            Some(url) => Some(normalize_url_for_display(url)),
            None => None,
        };
        match shown {
            Some(shown) => {
                let n = shown.as_str().unicode_len();
                self.rewrite(shown, n, UrlBarFocus::Unfocused);
            },
            None => {
                let k = self.cursor_char_offset();
                self.place(k, UrlBarFocus::Unfocused);
            },
        }
    }

    /// Empties the field for typing, where its text is selected.
    fn clear_selection(&mut self)
        ensures
            final(self)@ == if old(self)@.focus == UrlBarFocus::Focused {
                old(self)@.cleared()
            } else {
                old(self)@
            },
    {
        if self.focus == UrlBarFocus::Focused {
            self.rewrite(String::new(), 0, UrlBarFocus::Editing);
        }
    }

    /// Types `c` at the cursor; a selected text is replaced by it.
    pub fn insert_char(&mut self, c: char)
        ensures
            final(self)@ == old(self)@.after_insert_char(c),
    {
        self.clear_selection();
        let k = self.cursor_char_offset();
        let n = self.line.text.as_str().unicode_len();
        let mut text = String::from_str(self.line.text.as_str().substring_char(0, k));
        push_char(&mut text, c);
        let next = text.as_str().unicode_len();
        text.append(self.line.text.as_str().substring_char(k, n));
        assert(text@ =~= self@.text.insert(k as int, c));
        let focus = self.focus;
        self.rewrite(text, next, focus);
    }

    /// Removes the character before the cursor; a selected text is removed whole.
    pub fn backspace(&mut self)
        ensures
            final(self)@ == old(self)@.after_backspace(),
    {
        if self.focus == UrlBarFocus::Focused {
            self.clear_selection();
            return ;
        }
        let k = self.cursor_char_offset();
        if k > 0 {
            let n = self.line.text.as_str().unicode_len();
            let mut text = String::from_str(self.line.text.as_str().substring_char(0, k - 1));
            text.append(self.line.text.as_str().substring_char(k, n));
            assert(text@ =~= self@.text.remove(k - 1));
            let focus = self.focus;
            self.rewrite(text, k - 1, focus);
        }
    }

    /// Removes the character behind the cursor; a selected text is removed whole.
    pub fn delete(&mut self)
        ensures
            final(self)@ == old(self)@.after_delete(),
    {
        if self.focus == UrlBarFocus::Focused {
            self.clear_selection();
            return ;
        }
        let k = self.cursor_char_offset();
        let n = self.line.text.as_str().unicode_len();
        if k < n {
            let mut text = String::from_str(self.line.text.as_str().substring_char(0, k));
            text.append(self.line.text.as_str().substring_char(k + 1, n));
            assert(text@ =~= self@.text.remove(k as int));
            let focus = self.focus;
            self.rewrite(text, k, focus);
        }
    }

    /// Moves the cursor one character to the left; from a selected text, to the start.
    pub fn move_cursor_left(&mut self)
        ensures
            final(self)@ == old(self)@.after_move_cursor_left(),
    {
        if self.focus == UrlBarFocus::Focused {
            self.place(0, UrlBarFocus::Editing);
            return ;
        }
        let k = self.cursor_char_offset();
        if k > 0 {
            let focus = self.focus;
            self.place(k - 1, focus);
        }
    }

    /// Moves the cursor one character to the right; from a selected text, it stays at the end.
    pub fn move_cursor_right(&mut self)
        ensures
            final(self)@ == old(self)@.after_move_cursor_right(),
    {
        let k = self.cursor_char_offset();
        if self.focus == UrlBarFocus::Focused {
            self.place(k, UrlBarFocus::Editing);
            return ;
        }
        let n = self.line.text.as_str().unicode_len();
        if k < n {
            let focus = self.focus;
            self.place(k + 1, focus);
        }
    }

    /// Puts the cursor at the start of the text.
    pub fn home(&mut self)
        ensures
            final(self)@ == old(self)@.after_home(),
    {
        let focus = if self.focus == UrlBarFocus::Focused {
            UrlBarFocus::Editing
        } else {
            self.focus
        };
        self.place(0, focus);
    }

    /// Puts the cursor at the end of the text.
    pub fn end(&mut self)
        ensures
            final(self)@ == old(self)@.after_end(),
    {
        let focus = if self.focus == UrlBarFocus::Focused {
            UrlBarFocus::Editing
        } else {
            self.focus
        };
        let n = self.line.text.as_str().unicode_len();
        self.place(n, focus);
    }

    /// Selects the whole text.
    pub fn select_all(&mut self)
        ensures
            final(self)@ == old(self)@.after_focus(),
    {
        self.focus();
    }

    /// Gives up the focus and resolves the text to the URL to load; a blank text gives
    /// nothing.
    pub fn submit(&mut self) -> (r: Option<Url>)
        ensures
            opt_view(r) == old(self)@.submitted(),
            final(self)@ == old(self)@.after_submit(),
    {
        self.focus = UrlBarFocus::Unfocused;
        let input = trim(self.line.text.as_str());
        if input.is_empty() {
            return None;
        }
        resolve_input_with(input, self.search_url.as_str())
    }

    /// Whether the field takes the keyboard input.
    pub fn is_focused(&self) -> (r: bool)
        ensures
            r == (self@.focus != UrlBarFocus::Unfocused),
    {
        self.focus != UrlBarFocus::Unfocused
    }

    /// The text to show in the field.
    pub fn display_text(&self) -> (s: &str)
        ensures
            s@ == self@.text,
    {
        self.line.text.as_str()
    }

    /// The cursor's position as a byte offset into the text.
    pub fn cursor_pos(&self) -> (r: usize)
        ensures
            r == utf8_len(self@.text.take(self@.cursor as int)),
            r <= utf8_len(self@.text),
    {
        proof {
            use_type_invariant(&self.line);
            lemma_scalars_before_bounds(self.line.text@, self.line.cursor as nat);
            lemma_utf8_len_take_le(self.line.text@, self.line.position() as int);
        }
        self.line.cursor
    }

    /// The number of characters before the cursor.
    pub fn cursor_char_offset(&self) -> (r: usize)
        ensures
            r == self@.cursor,
            r <= self@.text.len(),
            r == scalars_before(self@.text, utf8_len(self@.text.take(self@.cursor as int))),
            self@.focus == UrlBarFocus::Focused ==> r == self@.text.len(),
    {
        proof {
            use_type_invariant(self);
        }
        self.line.chars_before()
    }
}

/// `sub` occurs in `s` as a run of neighbouring characters.
pub open spec fn has_substring(s: Seq<char>, sub: Seq<char>) -> bool {
    exists|i: int| 0 <= i && i + sub.len() <= s.len() && #[trigger] s.subrange(i, i + sub.len()) == sub
}

/// Stripping leaves no invisible character behind, and leaves a text without any as it is.
pub proof fn lemma_visible_only(s: Seq<char>)
    ensures
        forall|i: int| 0 <= i < visible_only(s).len() ==> !is_invisible(#[trigger] visible_only(s)[i]),
        visible_only(s).len() <= s.len(),
        (forall|i: int| 0 <= i < s.len() ==> !is_invisible(#[trigger] s[i])) ==> visible_only(s) == s,
    decreases s.len(),
{
    if s.len() > 0 {
        let rest = s.drop_last();
        lemma_visible_only(rest);
        if forall|i: int| 0 <= i < s.len() ==> !is_invisible(#[trigger] s[i]) {
            assert forall|i: int| 0 <= i < rest.len() implies !is_invisible(#[trigger] rest[i]) by {
                assert(rest[i] == s[i]);
            }
            assert(visible_only(s) =~= s);
        }
    }
}

/// A URL with an internationalized host is shown with the warning marker before it and the
/// word `Punycode` behind it, around its unchanged serialization.
pub proof fn lemma_idn_host_is_marked(u: UrlView)
    requires
        has_idn_host(u),
    ensures
        has_substring(display_form(u), WARNING_MARKER@),
        has_substring(display_form(u), "Punycode"@),
        has_substring(display_form(u), u.serialization),
{
    reveal_strlit("\u{26A0}\u{FE0F}  ");
    reveal_strlit(" (Punycode)");
    reveal_strlit("Punycode");
    let shown = display_form(u);
    let m = WARNING_MARKER@.len() as int;
    let n = u.serialization.len() as int;
    assert(shown.subrange(0, 0 + m) =~= WARNING_MARKER@);
    assert(shown.subrange(m, m + n) =~= u.serialization);
    assert(shown.subrange(m + n + 2, m + n + 2 + 8) =~= "Punycode"@);
}

/// A URL with an ordinary host and no invisible character is shown as it is written.
pub proof fn lemma_plain_url_unchanged(u: UrlView)
    requires
        !has_idn_host(u),
        forall|i: int| 0 <= i < u.serialization.len() ==> !is_invisible(#[trigger] u.serialization[i]),
    ensures
        display_form(u) == u.serialization,
{
    lemma_visible_only(u.serialization);
}

/// The text shown for a URL with an ordinary host holds no invisible character.
pub proof fn lemma_shown_text_is_visible(u: UrlView)
    requires
        !has_idn_host(u),
    ensures
        forall|i: int| 0 <= i < display_form(u).len() ==> !is_invisible(#[trigger] display_form(u)[i]),
{
    lemma_visible_only(u.serialization);
}

/// The number of characters before the cursor is the number of whole scalar values that lie
/// in the bytes before it, whatever the widths of the characters are.
pub proof fn lemma_cursor_counts_scalars(field: UrlBarView)
    requires
        field.cursor <= field.text.len(),
    ensures
        scalars_before(field.text, utf8_len(field.text.take(field.cursor as int))) == field.cursor,
{
    lemma_scalars_before_prefix(field.text, field.cursor as int);
}

/// In every address field the cursor stands within the text.
pub proof fn lemma_cursor_within_text(bar: UrlBar)
    ensures
        bar@.cursor <= bar@.text.len(),
{
    lemma_scalars_before_bounds(bar.line.text@, bar.line.cursor as nat);
}

/// Giving up the focus twice shows what giving it up once shows.
pub proof fn lemma_unfocus_idempotent(field: UrlBarView)
    ensures
        field.after_unfocus().after_unfocus() == field.after_unfocus(),
{
}

/// Submitting leaves the field unfocused, with its text and cursor as they were, whatever
/// the text is and whether or not it resolves to a URL.
pub proof fn lemma_submit_unfocuses(field: UrlBarView)
    ensures
        field.after_submit().focus == UrlBarFocus::Unfocused,
        field.after_submit().text == field.text,
        field.after_submit().cursor == field.cursor,
        trimmed(field.text).len() == 0 ==> field.submitted() is None,
{
}

/// The first character typed after taking the focus replaces the whole text.
pub proof fn lemma_typing_replaces_selection(field: UrlBarView, c: char)
    ensures
        field.after_focus().after_insert_char(c).text == seq![c],
        field.after_focus().after_insert_char(c).cursor == 1,
        field.after_focus().after_insert_char(c).focus == UrlBarFocus::Editing,
{
    assert(Seq::<char>::empty().insert(0, c) =~= seq![c]);
}

/// A page's URL reported while the field has the focus leaves the edited text alone.
pub proof fn lemma_set_url_keeps_edit(field: UrlBarView, url: UrlView)
    requires
        field.focus != UrlBarFocus::Unfocused,
    ensures
        field.after_set_url(url).text == field.text,
        field.after_set_url(url).cursor == field.cursor,
        field.after_set_url(url).focus == field.focus,
{
}

} // verus!
