//! Keys, and the bindings that name them.
use vstd::prelude::*;
use crate::text;
use crate::text::{cat3, copy_text, join_texts, same, split_text, trimmed};

verus! {

broadcast use crate::text::group_texts;

/// The modifiers held while a key is pressed.
#[derive(Clone, Copy, Debug, PartialEq, Eq, Structural)]
pub struct KeyModifiers {
    pub ctrl: bool,
    pub alt: bool,
    pub shift: bool,
}

impl KeyModifiers {
    /// No modifier.
    #[verifier::allow_in_spec]
    pub fn none() -> KeyModifiers
        returns
            (KeyModifiers { ctrl: false, alt: false, shift: false }),
    {
        KeyModifiers { ctrl: false, alt: false, shift: false }
    }

    /// The control key alone.
    #[verifier::allow_in_spec]
    pub fn ctrl_only() -> KeyModifiers
        returns
            (KeyModifiers { ctrl: true, alt: false, shift: false }),
    {
        KeyModifiers { ctrl: true, alt: false, shift: false }
    }

    /// The alt key alone.
    #[verifier::allow_in_spec]
    pub fn alt_only() -> KeyModifiers
        returns
            (KeyModifiers { ctrl: false, alt: true, shift: false }),
    {
        KeyModifiers { ctrl: false, alt: true, shift: false }
    }

    /// The shift key alone.
    #[verifier::allow_in_spec]
    pub fn shift_only() -> KeyModifiers
        returns
            (KeyModifiers { ctrl: false, alt: false, shift: true }),
    {
        KeyModifiers { ctrl: false, alt: false, shift: true }
    }
}

/// A key.
#[derive(Clone, Debug, PartialEq, Eq)]
pub enum KeyCode {
    Enter,
    Escape,
    Tab,
    BackTab,
    Up,
    Down,
    Left,
    Right,
    Home,
    End,
    PasteStart,
    PasteEnd,
    Backspace,
    Delete,
    Char(char),
    Paste(String),
    Unknown(String),
}

/// A key, as a mathematical value.
pub enum CodeView {
    Enter,
    Escape,
    Tab,
    BackTab,
    Up,
    Down,
    Left,
    Right,
    Home,
    End,
    PasteStart,
    PasteEnd,
    Backspace,
    Delete,
    Char(char),
    Paste(Seq<char>),
    Unknown(Seq<char>),
}

impl View for KeyCode {
    type V = CodeView;

    open spec fn view(&self) -> CodeView {
        match self {
            KeyCode::Enter => CodeView::Enter,
            KeyCode::Escape => CodeView::Escape,
            KeyCode::Tab => CodeView::Tab,
            KeyCode::BackTab => CodeView::BackTab,
            KeyCode::Up => CodeView::Up,
            KeyCode::Down => CodeView::Down,
            KeyCode::Left => CodeView::Left,
            KeyCode::Right => CodeView::Right,
            KeyCode::Home => CodeView::Home,
            KeyCode::End => CodeView::End,
            KeyCode::PasteStart => CodeView::PasteStart,
            KeyCode::PasteEnd => CodeView::PasteEnd,
            KeyCode::Backspace => CodeView::Backspace,
            KeyCode::Delete => CodeView::Delete,
            KeyCode::Char(c) => CodeView::Char(*c),
            KeyCode::Paste(value) => CodeView::Paste(value@),
            KeyCode::Unknown(value) => CodeView::Unknown(value@),
        }
    }
}

impl KeyCode {
    /// Whether two keys are the same.
    pub fn same_as(&self, other: &KeyCode) -> (r: bool)
        ensures
            r == (self@ == other@),
    {
        match (self, other) {
            (KeyCode::Enter, KeyCode::Enter) => true,
            (KeyCode::Escape, KeyCode::Escape) => true,
            (KeyCode::Tab, KeyCode::Tab) => true,
            (KeyCode::BackTab, KeyCode::BackTab) => true,
            (KeyCode::Up, KeyCode::Up) => true,
            (KeyCode::Down, KeyCode::Down) => true,
            (KeyCode::Left, KeyCode::Left) => true,
            (KeyCode::Right, KeyCode::Right) => true,
            (KeyCode::Home, KeyCode::Home) => true,
            (KeyCode::End, KeyCode::End) => true,
            (KeyCode::PasteStart, KeyCode::PasteStart) => true,
            (KeyCode::PasteEnd, KeyCode::PasteEnd) => true,
            (KeyCode::Backspace, KeyCode::Backspace) => true,
            (KeyCode::Delete, KeyCode::Delete) => true,
            (KeyCode::Char(a), KeyCode::Char(b)) => *a == *b,
            (KeyCode::Paste(a), KeyCode::Paste(b)) => same(a.as_str(), b.as_str()),
            (KeyCode::Unknown(a), KeyCode::Unknown(b)) => same(a.as_str(), b.as_str()),
            _ => false,
        }
    }
}

/// A key press.
#[derive(Clone, Debug, PartialEq, Eq)]
pub struct KeyEvent {
    pub code: KeyCode,
    pub modifiers: KeyModifiers,
}

impl KeyEvent {
    /// A key pressed alone.
    pub fn new(code: KeyCode) -> (r: KeyEvent)
        ensures
            r.code == code,
            r.modifiers == KeyModifiers::none(),
    {
        KeyEvent { code, modifiers: KeyModifiers::none() }
    }

    /// A key pressed with modifiers.
    pub fn with_modifiers(code: KeyCode, modifiers: KeyModifiers) -> (r: KeyEvent)
        ensures
            r.code == code,
            r.modifiers == modifiers,
    {
        KeyEvent { code, modifiers }
    }
}

/// A key that an action is bound to.
#[derive(Clone, Debug, PartialEq, Eq)]
pub struct KeyBinding {
    pub code: KeyCode,
    pub modifiers: KeyModifiers,
}

/// A key that an action is bound to, as a mathematical value.
pub struct BindingView {
    pub code: CodeView,
    pub modifiers: KeyModifiers,
}

impl View for KeyBinding {
    type V = BindingView;

    open spec fn view(&self) -> BindingView {
        BindingView { code: self.code@, modifiers: self.modifiers }
    }
}

/// What is read of a binding up to some token: the modifiers, and the key where one was named.
pub type TokensRead = (KeyModifiers, Option<CodeView>);

/// The key that a token names.
pub open spec fn key_named(token: Seq<char>) -> Option<CodeView> {
    if token == "enter"@ {
        Some(CodeView::Enter)
    } else if token == "escape"@ || token == "esc"@ {
        Some(CodeView::Escape)
    } else if token == "tab"@ {
        Some(CodeView::Tab)
    } else if token == "up"@ {
        Some(CodeView::Up)
    } else if token == "down"@ {
        Some(CodeView::Down)
    } else if token == "left"@ {
        Some(CodeView::Left)
    } else if token == "right"@ {
        Some(CodeView::Right)
    } else if token == "home"@ {
        Some(CodeView::Home)
    } else if token == "end"@ {
        Some(CodeView::End)
    } else if token == "backspace"@ {
        Some(CodeView::Backspace)
    } else if token == "delete"@ {
        Some(CodeView::Delete)
    } else if token.len() == 1 && (token[0] as u32) < 128 {
        Some(CodeView::Char(token[0]))
    } else {
        None
    }
}

fn find_key(token: &str) -> (r: Option<KeyCode>)
    ensures
        match r {
            Some(code) => key_named(token@) == Some(code@),
            None => key_named(token@) is None,
        },
{
    if same(token, "enter") {
        Some(KeyCode::Enter)
    } else if same(token, "escape") || same(token, "esc") {
        Some(KeyCode::Escape)
    } else if same(token, "tab") {
        Some(KeyCode::Tab)
    } else if same(token, "up") {
        Some(KeyCode::Up)
    } else if same(token, "down") {
        Some(KeyCode::Down)
    } else if same(token, "left") {
        Some(KeyCode::Left)
    } else if same(token, "right") {
        Some(KeyCode::Right)
    } else if same(token, "home") {
        Some(KeyCode::Home)
    } else if same(token, "end") {
        Some(KeyCode::End)
    } else if same(token, "backspace") {
        Some(KeyCode::Backspace)
    } else if same(token, "delete") {
        Some(KeyCode::Delete)
    } else if token.unicode_len() == 1 && (token.get_char(0) as u32) < 128 {
        Some(KeyCode::Char(token.get_char(0)))
    } else {
        None
    }
}

/// What is read after one more token; nothing where the token is not known.
pub open spec fn read_token(read: TokensRead, token: Seq<char>) -> Option<TokensRead> {
    let (modifiers, code) = read;
    if token == "ctrl"@ || token == "control"@ {
        Some((KeyModifiers { ctrl: true, ..modifiers }, code))
    } else if token == "alt"@ || token == "option"@ {
        Some((KeyModifiers { alt: true, ..modifiers }, code))
    } else if token == "shift"@ {
        Some((KeyModifiers { shift: true, ..modifiers }, code))
    } else if token == "backtab"@ || token == "shift+tab"@ {
        Some((KeyModifiers { shift: true, ..modifiers }, Some(CodeView::BackTab)))
    } else if key_named(token) is Some {
        Some((modifiers, key_named(token)))
    } else {
        None
    }
}

/// What is read of a sequence of tokens.
pub open spec fn read_tokens(tokens: Seq<Seq<char>>) -> Option<TokensRead>
    decreases tokens.len(),
{
    if tokens.len() == 0 {
        Some((KeyModifiers::none(), None))
    } else {
        match read_tokens(tokens.drop_last()) {
            Some(read) => read_token(read, tokens.last()),
            None => None,
        }
    }
}

/// The binding that tokens make: a key must be named, and the tab key with shift is the back tab.
pub open spec fn binding_of(tokens: Seq<Seq<char>>) -> Option<BindingView> {
    match read_tokens(tokens) {
        Some((modifiers, Some(code))) => Some(
            BindingView {
                code: if code == CodeView::Tab && modifiers.shift {
                    CodeView::BackTab
                } else {
                    code
                },
                modifiers,
            },
        ),
        _ => None,
    }
}

/// The tokens of a written binding: what stands between plus signs, in small letters.
pub open spec fn binding_tokens(value: Seq<char>) -> Seq<Seq<char>> {
    text::split_on(value, '+').map_values(|part: Seq<char>| text::lowered(text::trim(part)))
}

/// The binding that a text writes down.
pub open spec fn parsed_binding(value: Seq<char>) -> Option<BindingView> {
    binding_of(binding_tokens(value))
}

/// The tokens that modifiers are written with.
pub open spec fn modifier_tokens(modifiers: KeyModifiers) -> Seq<Seq<char>> {
    (if modifiers.ctrl {
        seq!["ctrl"@]
    } else {
        Seq::empty()
    }) + (if modifiers.alt {
        seq!["alt"@]
    } else {
        Seq::empty()
    }) + (if modifiers.shift {
        seq!["shift"@]
    } else {
        Seq::empty()
    })
}

/// What a key is called.
pub open spec fn key_text(code: CodeView) -> Seq<char> {
    match code {
        CodeView::Enter => "enter"@,
        CodeView::Escape => "escape"@,
        CodeView::Tab => "tab"@,
        CodeView::BackTab => "tab"@,
        CodeView::Up => "up"@,
        CodeView::Down => "down"@,
        CodeView::Left => "left"@,
        CodeView::Right => "right"@,
        CodeView::Home => "home"@,
        CodeView::End => "end"@,
        CodeView::PasteStart => "paste-start"@,
        CodeView::PasteEnd => "paste-end"@,
        CodeView::Backspace => "backspace"@,
        CodeView::Delete => "delete"@,
        CodeView::Char(c) => seq![c],
        CodeView::Paste(value) => value,
        CodeView::Unknown(value) => value,
    }
}

/// How a binding is written.
pub open spec fn binding_text(binding: BindingView) -> Seq<char> {
    let parts = modifier_tokens(binding.modifiers);
    if parts.len() == 0 {
        key_text(binding.code)
    } else {
        text::join(parts, "+"@) + "+"@ + key_text(binding.code)
    }
}

/// Whether a key press is one that a binding names. The back tab may arrive as the tab key with
/// shift, or without its shift.
pub open spec fn binding_matches(binding: BindingView, code: CodeView, held: KeyModifiers) -> bool {
    ||| binding.code == code && binding.modifiers == held
    ||| {
        &&& binding.code == CodeView::BackTab
        &&& code == CodeView::BackTab || (code == CodeView::Tab && held.shift)
        &&& binding.modifiers.ctrl == held.ctrl
        &&& binding.modifiers.alt == held.alt
        &&& binding.modifiers.shift
    }
}

fn key_name(code: &KeyCode) -> (r: String)
    ensures
        r@ == key_text(code@),
{
    match code {
        KeyCode::Enter => copy_text("enter"),
        KeyCode::Escape => copy_text("escape"),
        KeyCode::Tab => copy_text("tab"),
        KeyCode::BackTab => copy_text("tab"),
        KeyCode::Up => copy_text("up"),
        KeyCode::Down => copy_text("down"),
        KeyCode::Left => copy_text("left"),
        KeyCode::Right => copy_text("right"),
        KeyCode::Home => copy_text("home"),
        KeyCode::End => copy_text("end"),
        KeyCode::PasteStart => copy_text("paste-start"),
        KeyCode::PasteEnd => copy_text("paste-end"),
        KeyCode::Backspace => copy_text("backspace"),
        KeyCode::Delete => copy_text("delete"),
        KeyCode::Char(c) => {
            let mut out = String::new();
            out.push(*c);
            assert(out@ =~= seq![*c]);
            out
        },
        KeyCode::Paste(value) => copy_text(value.as_str()),
        KeyCode::Unknown(value) => copy_text(value.as_str()),
    }
}

/// What is read of tokens, on executable values.
pub struct ReadState {
    pub modifiers: KeyModifiers,
    pub code: Option<KeyCode>,
}

impl ReadState {
    /// What is read, as a mathematical value.
    pub open spec fn read(self) -> TokensRead {
        (
            self.modifiers,
            match self.code {
                Some(code) => Some(code@),
                None => None,
            },
        )
    }

    fn read_one(self, token: &str) -> (r: Option<ReadState>)
        ensures
            match r {
                Some(after) => read_token(self.read(), token@) == Some(after.read()),
                None => read_token(self.read(), token@) is None,
            },
    {
        let mut out = self;
        if same(token, "ctrl") || same(token, "control") {
            out.modifiers = KeyModifiers {
                ctrl: true,
                alt: out.modifiers.alt,
                shift: out.modifiers.shift,
            };
        } else if same(token, "alt") || same(token, "option") {
            out.modifiers = KeyModifiers {
                ctrl: out.modifiers.ctrl,
                alt: true,
                shift: out.modifiers.shift,
            };
        } else if same(token, "shift") {
            out.modifiers = KeyModifiers {
                ctrl: out.modifiers.ctrl,
                alt: out.modifiers.alt,
                shift: true,
            };
        } else if same(token, "backtab") || same(token, "shift+tab") {
            out.modifiers = KeyModifiers {
                ctrl: out.modifiers.ctrl,
                alt: out.modifiers.alt,
                shift: true,
            };
            out.code = Some(KeyCode::BackTab);
        } else {
            match find_key(token) {
                Some(code) => {
                    out.code = Some(code);
                },
                None => {
                    return None;
                },
            }
        }
        Some(out)
    }
}

impl KeyBinding {
    /// The binding that tokens make.
    pub fn from_tokens(tokens: &[String]) -> (r: Option<KeyBinding>)
        ensures
            match r {
                Some(binding) => binding_of(text::texts(tokens@)) == Some(binding@),
                None => binding_of(text::texts(tokens@)) is None,
            },
    {
        let ghost all = text::texts(tokens@);
        let mut state = ReadState { modifiers: KeyModifiers::none(), code: None };
        let mut i: usize = 0;
        assert(all.take(0) =~= Seq::<Seq<char>>::empty());
        while i < tokens.len()
            invariant
                0 <= i <= tokens.len(),
                all == text::texts(tokens@),
                read_tokens(all.take(i as int)) == Some(state.read()),
            decreases tokens.len() - i,
        {
            assert(all.take(i + 1).drop_last() =~= all.take(i as int));
            match state.read_one(tokens[i].as_str()) {
                Some(after) => {
                    state = after;
                },
                None => {
                    proof {
                        unreadable_prefix(all, i + 1);
                    }
                    return None;
                },
            }
            i += 1;
        }
        assert(all.take(i as int) =~= all);
        match state.code {
            Some(code) => {
                if matches!(code, KeyCode::Tab) && state.modifiers.shift {
                    Some(KeyBinding { code: KeyCode::BackTab, modifiers: state.modifiers })
                } else {
                    Some(KeyBinding { code, modifiers: state.modifiers })
                }
            },
            None => None,
        }
    }

    /// The binding that a text writes down.
    pub fn parse(value: &str) -> (r: Option<KeyBinding>)
        ensures
            match r {
                Some(binding) => parsed_binding(value@) == Some(binding@) && parsed_binding(
                    binding_text(binding@),
                ) == Some(binding@),
                None => parsed_binding(value@) is None,
            },
            plain_tokens(value@),
    {
        let parts = split_text(value, '+');
        let ghost pieces = text::split_on(value@, '+');
        let mut tokens: Vec<String> = Vec::new();
        let mut i: usize = 0;
        while i < parts.len()
            invariant
                0 <= i <= parts.len(),
                text::texts(parts@) == pieces,
                pieces == text::split_on(value@, '+'),
                text::texts(tokens@) == binding_tokens(value@).take(i as int),
                forall|k: int| 0 <= k < i ==> plain_token(#[trigger] binding_tokens(value@)[k]),
            decreases parts.len() - i,
        {
            assert(parts@[i as int]@ == pieces[i as int]);
            let part = trimmed(parts[i].as_str());
            let token = part.as_str().to_lowercase();
            proof {
                lowered_part_is_plain(value@, i as int, token@);
            }
            tokens.push(token);
            i += 1;
            assert(binding_tokens(value@).take(i as int) =~= binding_tokens(value@).take(
                i - 1,
            ).push(binding_tokens(value@)[i - 1]));
        }
        assert(binding_tokens(value@).take(i as int) =~= binding_tokens(value@));
        proof {
            canonical_is_stable(value@);
        }
        KeyBinding::from_tokens(tokens.as_slice())
    }

    /// Whether a key press is one that the binding names.
    pub fn matches(&self, event: &KeyEvent) -> (r: bool)
        ensures
            r == binding_matches(self@, event.code@, event.modifiers),
    {
        if self.code.same_as(&event.code) && self.modifiers == event.modifiers {
            return true;
        }
        let event_is_backtab = matches!(event.code, KeyCode::BackTab) || (matches!(
            event.code,
            KeyCode::Tab
        ) && event.modifiers.shift);
        matches!(self.code, KeyCode::BackTab) && event_is_backtab && self.modifiers.ctrl
            == event.modifiers.ctrl && self.modifiers.alt == event.modifiers.alt
            && self.modifiers.shift
    }

    /// How the binding is written.
    pub fn display_string(&self) -> (r: String)
        ensures
            r@ == binding_text(self@),
    {
        let mut parts: Vec<String> = Vec::new();
        if self.modifiers.ctrl {
            parts.push(copy_text("ctrl"));
        }
        if self.modifiers.alt {
            parts.push(copy_text("alt"));
        }
        if self.modifiers.shift {
            parts.push(copy_text("shift"));
        }
        assert(text::texts(parts@) =~= modifier_tokens(self.modifiers));
        let key = key_name(&self.code);
        if parts.len() == 0 {
            key
        } else {
            cat3(join_texts(parts.as_slice(), "+").as_str(), "+", key.as_str())
        }
    }
}

proof fn unreadable_prefix(tokens: Seq<Seq<char>>, n: int)
    requires
        0 <= n <= tokens.len(),
        read_tokens(tokens.take(n)) is None,
    ensures
        read_tokens(tokens) is None,
    decreases tokens.len() - n,
{
    if n == tokens.len() {
        assert(tokens.take(n) =~= tokens);
    } else {
        assert(tokens.take(n + 1).drop_last() =~= tokens.take(n));
        unreadable_prefix(tokens, n + 1);
    }
}

/// A text as it is written canonically: the binding it names, or the text itself.
pub open spec fn canonical(value: Seq<char>) -> Seq<char> {
    match parsed_binding(value) {
        Some(binding) => binding_text(binding),
        None => value,
    }
}

/// The texts as they are written canonically. Each names the same binding as before, and writing it
/// canonically again changes nothing.
pub fn canonicalize_binding_values(values: &[String]) -> (r: Vec<String>)
    ensures
        text::texts(r@) == text::texts(values@).map_values(|value: Seq<char>| canonical(value)),
        forall|i: int|
            0 <= i < r@.len() ==> canonical(#[trigger] r@[i]@) == r@[i]@ && parsed_binding(r@[i]@)
                == parsed_binding(values@[i]@),
{
    let ghost all = text::texts(values@).map_values(|value: Seq<char>| canonical(value));
    let mut out: Vec<String> = Vec::new();
    let mut i: usize = 0;
    while i < values.len()
        invariant
            0 <= i <= values.len(),
            all == text::texts(values@).map_values(|value: Seq<char>| canonical(value)),
            out@.len() == i,
            text::texts(out@) == all.take(i as int),
            forall|k: int|
                0 <= k < i ==> canonical(#[trigger] out@[k]@) == out@[k]@ && parsed_binding(
                    out@[k]@,
                ) == parsed_binding(values@[k]@),
        decreases values.len() - i,
    {
        let parsed = KeyBinding::parse(values[i].as_str());
        proof {
            canonical_is_stable(values@[i as int]@);
        }
        match parsed {
            Some(binding) => {
                out.push(binding.display_string());
            },
            None => {
                out.push(copy_text(values[i].as_str()));
            },
        }
        i += 1;
        assert(out@[i - 1]@ == canonical(values@[i - 1]@));
        assert(all.take(i as int) =~= all.take(i - 1).push(all[i - 1]));
    }
    assert(all.take(i as int) =~= all);
    out
}

/// A character that a binding can name: ASCII, no capital, no white space and no plus sign.
pub open spec fn plain_key(c: char) -> bool {
    &&& (c as u32) < 128
    &&& !text::is_white(c)
    &&& c != '+'
    &&& !('A' <= c <= 'Z')
}

/// A key that a written binding can name.
pub open spec fn nameable(code: CodeView) -> bool {
    match code {
        CodeView::PasteStart => false,
        CodeView::PasteEnd => false,
        CodeView::Paste(_) => false,
        CodeView::Unknown(_) => false,
        CodeView::Char(c) => plain_key(c),
        _ => true,
    }
}

/// A binding in the form that reading gives it.
pub open spec fn well_read(binding: BindingView) -> bool {
    &&& nameable(binding.code)
    &&& binding.code == CodeView::Tab ==> !binding.modifiers.shift
    &&& binding.code == CodeView::BackTab ==> binding.modifiers.shift
}

/// Whether each token of a text that is one ASCII character is a plain key.
pub open spec fn plain_tokens(value: Seq<char>) -> bool {
    forall|i: int| 0 <= i < binding_tokens(value).len() ==> plain_token(#[trigger] binding_tokens(value)[i])
}

/// Whether a token, where it is one ASCII character, is a plain key.
pub open spec fn plain_token(token: Seq<char>) -> bool {
    token.len() == 1 && (token[0] as u32) < 128 ==> plain_key(token[0])
}

/// The names of keys and modifiers are told apart by their lengths and first two characters.
proof fn key_names_differ()
    ensures
        "enter"@.len() == 5 && "enter"@[0] == 'e' && "enter"@[1] == 'n',
        "escape"@.len() == 6 && "escape"@[0] == 'e' && "escape"@[1] == 's',
        "esc"@.len() == 3 && "esc"@[0] == 'e' && "esc"@[1] == 's',
        "tab"@.len() == 3 && "tab"@[0] == 't' && "tab"@[1] == 'a',
        "up"@.len() == 2 && "up"@[0] == 'u' && "up"@[1] == 'p',
        "down"@.len() == 4 && "down"@[0] == 'd' && "down"@[1] == 'o',
        "left"@.len() == 4 && "left"@[0] == 'l' && "left"@[1] == 'e',
        "right"@.len() == 5 && "right"@[0] == 'r' && "right"@[1] == 'i',
        "home"@.len() == 4 && "home"@[0] == 'h' && "home"@[1] == 'o',
        "end"@.len() == 3 && "end"@[0] == 'e' && "end"@[1] == 'n',
        "backspace"@.len() == 9 && "backspace"@[0] == 'b' && "backspace"@[1] == 'a',
        "delete"@.len() == 6 && "delete"@[0] == 'd' && "delete"@[1] == 'e',
        "ctrl"@.len() == 4 && "ctrl"@[0] == 'c' && "ctrl"@[1] == 't',
        "control"@.len() == 7 && "control"@[0] == 'c' && "control"@[1] == 'o',
        "alt"@.len() == 3 && "alt"@[0] == 'a' && "alt"@[1] == 'l',
        "option"@.len() == 6 && "option"@[0] == 'o' && "option"@[1] == 'p',
        "shift"@.len() == 5 && "shift"@[0] == 's' && "shift"@[1] == 'h',
        "backtab"@.len() == 7 && "backtab"@[0] == 'b' && "backtab"@[1] == 'a',
        "shift+tab"@.len() == 9 && "shift+tab"@[0] == 's' && "shift+tab"@[1] == 'h',
{
    reveal_strlit("enter");
    reveal_strlit("escape");
    reveal_strlit("esc");
    reveal_strlit("tab");
    reveal_strlit("up");
    reveal_strlit("down");
    reveal_strlit("left");
    reveal_strlit("right");
    reveal_strlit("home");
    reveal_strlit("end");
    reveal_strlit("backspace");
    reveal_strlit("delete");
    reveal_strlit("ctrl");
    reveal_strlit("control");
    reveal_strlit("alt");
    reveal_strlit("option");
    reveal_strlit("shift");
    reveal_strlit("backtab");
    reveal_strlit("shift+tab");
}

/// What stands between plus signs has no plus sign in it and no white space around it.
proof fn part_between(value: Seq<char>, i: int)
    requires
        0 <= i < text::split_on(value, '+').len(),
    ensures
        ({
            let part = text::trim(text::split_on(value, '+')[i]);
            &&& !part.contains('+')
            &&& part.len() > 0 ==> !text::is_white(part[0])
            &&& text::all_ascii(value) ==> text::all_ascii(part)
        }),
{
    let piece = text::split_on(value, '+')[i];
    text::split_pieces(value, '+', i);
    let place = text::trimmed_part(piece);
    let part = text::trim(piece);
    assert forall|k: int| 0 <= k < part.len() implies piece.contains(#[trigger] part[k]) by {
        assert(part[k] == piece[place.0 + k]);
    }
    if text::all_ascii(value) {
        assert forall|k: int| 0 <= k < part.len() implies (#[trigger] part[k] as u32) < 128 by {
            assert(part[k] == piece[place.0 + k]);
        }
    }
}

/// A part that is written in small letters is a plain token, given what holds of small letters.
proof fn lowered_part_is_plain(value: Seq<char>, i: int, token: Seq<char>)
    requires
        0 <= i < text::split_on(value, '+').len(),
        ({
            let part = text::trim(text::split_on(value, '+')[i]);
            &&& text::all_ascii(part) ==> token == text::ascii_lower(part)
            &&& part.len() <= token.len()
            &&& forall|k: int|
                0 <= k < token.len() && (#[trigger] token[k] as u32) < 128 ==> 'a' <= token[k]
                    <= 'z' || part.contains(token[k])
        }),
    ensures
        plain_token(token),
{
    part_between(value, i);
    let part = text::trim(text::split_on(value, '+')[i]);
    if token.len() == 1 && (token[0] as u32) < 128 {
        let c = token[0];
        if text::all_ascii(part) {
            assert(part.len() == 1);
            assert(c == text::ascii_lower_char(part[0]));
            assert(part.contains(part[0]));
        } else {
            assert(part.len() == 1) by {
                if part.len() == 0 {
                    assert(text::all_ascii(part));
                }
            }
            assert(part[0] as u32 >= 128);
            if part.contains(c) {
                let k = choose|k: int| 0 <= k < part.len() && part[k] == c;
                assert(k == 0);
            }
        }
    }
}

/// The tokens of an ASCII text are plain.
pub proof fn ascii_tokens_are_plain(value: Seq<char>)
    requires
        text::all_ascii(value),
    ensures
        plain_tokens(value),
{
    let tokens = binding_tokens(value);
    assert forall|i: int| 0 <= i < tokens.len() implies plain_token(#[trigger] tokens[i]) by {
        part_between(value, i);
        let part = text::trim(text::split_on(value, '+')[i]);
        let token = tokens[i];
        assert(token == text::ascii_lower(part));
        assert forall|k: int| 0 <= k < token.len() && (#[trigger] token[k] as u32) < 128 implies 'a'
            <= token[k] <= 'z' || part.contains(token[k]) by {
            assert(token[k] == text::ascii_lower_char(part[k]));
        }
        lowered_part_is_plain(value, i, token);
    }
}

proof fn read_tokens_nameable(tokens: Seq<Seq<char>>)
    requires
        forall|i: int| 0 <= i < tokens.len() ==> plain_token(#[trigger] tokens[i]),
        read_tokens(tokens) is Some,
    ensures
        match read_tokens(tokens) {
            Some((modifiers, Some(code))) => nameable(code) && (code == CodeView::BackTab
                ==> modifiers.shift),
            _ => true,
        },
    decreases tokens.len(),
{
    if tokens.len() > 0 {
        let front = tokens.drop_last();
        assert forall|i: int| 0 <= i < front.len() implies plain_token(#[trigger] front[i]) by {
            assert(front[i] == tokens[i]);
        }
        read_tokens_nameable(front);
        assert(tokens[tokens.len() - 1] == tokens.last());
    }
}

/// Reading a text with plain tokens gives a binding in the form that can be written and read again.
pub proof fn parsed_is_well_read(value: Seq<char>)
    requires
        plain_tokens(value),
        parsed_binding(value) is Some,
    ensures
        well_read(parsed_binding(value)->0),
{
    read_tokens_nameable(binding_tokens(value));
}

proof fn modifiers_read_back(modifiers: KeyModifiers)
    ensures
        read_tokens(modifier_tokens(modifiers)) == Some((modifiers, None::<CodeView>)),
{
    key_names_differ();
    let a = if modifiers.ctrl {
        seq!["ctrl"@]
    } else {
        Seq::empty()
    };
    let b = if modifiers.alt {
        seq!["alt"@]
    } else {
        Seq::empty()
    };
    let nothing = Seq::<Seq<char>>::empty();
    assert(read_tokens(nothing) == Some((KeyModifiers::none(), None::<CodeView>)));
    assert(read_tokens(a) == Some(
        (KeyModifiers { ctrl: modifiers.ctrl, alt: false, shift: false }, None::<CodeView>),
    )) by {
        if modifiers.ctrl {
            assert(a.drop_last() =~= nothing);
        }
    }
    let ab = a + b;
    assert(read_tokens(ab) == Some(
        (
            KeyModifiers { ctrl: modifiers.ctrl, alt: modifiers.alt, shift: false },
            None::<CodeView>,
        ),
    )) by {
        if modifiers.alt {
            assert(ab.drop_last() =~= a);
            assert(ab.last() == "alt"@);
        } else {
            assert(ab =~= a);
        }
    }
    let all = modifier_tokens(modifiers);
    if modifiers.shift {
        assert(all.drop_last() =~= ab);
        assert(all.last() == "shift"@);
    } else {
        assert(all =~= ab);
    }
}

proof fn key_text_read_back(modifiers: KeyModifiers, code: CodeView)
    requires
        nameable(code),
    ensures
        read_token((modifiers, None), key_text(code)) == Some(
            (
                modifiers,
                Some(
                    if code == CodeView::BackTab {
                        CodeView::Tab
                    } else {
                        code
                    },
                ),
            ),
        ),
{
    key_names_differ();
}

proof fn token_stays(token: Seq<char>)
    requires
        token.len() > 0,
        forall|i: int| 0 <= i < token.len() ==> plain_key(#[trigger] token[i]),
    ensures
        text::lowered(text::trim(token)) == token,
        !token.contains('+'),
{
    assert(!text::is_white(token[0]));
    assert(!text::is_white(token[token.len() - 1]));
    text::trim_keeps(token);
    assert(text::all_ascii(token));
    assert(text::ascii_lower(token) =~= token);
}

/// The names of keys and modifiers consist of plain characters.
proof fn names_are_plain(code: CodeView)
    requires
        nameable(code),
    ensures
        key_text(code).len() > 0,
        forall|i: int| 0 <= i < key_text(code).len() ==> plain_key(#[trigger] key_text(code)[i]),
        forall|i: int| 0 <= i < "ctrl"@.len() ==> plain_key(#[trigger] "ctrl"@[i]),
        forall|i: int| 0 <= i < "alt"@.len() ==> plain_key(#[trigger] "alt"@[i]),
        forall|i: int| 0 <= i < "shift"@.len() ==> plain_key(#[trigger] "shift"@[i]),
{
    reveal_strlit("enter");
    reveal_strlit("escape");
    reveal_strlit("tab");
    reveal_strlit("up");
    reveal_strlit("down");
    reveal_strlit("left");
    reveal_strlit("right");
    reveal_strlit("home");
    reveal_strlit("end");
    reveal_strlit("backspace");
    reveal_strlit("delete");
    reveal_strlit("ctrl");
    reveal_strlit("alt");
    reveal_strlit("shift");
}

/// A binding that was read is read again from how it is written.
pub proof fn written_binding_reads_back(binding: BindingView)
    requires
        well_read(binding),
    ensures
        parsed_binding(binding_text(binding)) == Some(binding),
{
    let modifiers = modifier_tokens(binding.modifiers);
    let key = key_text(binding.code);
    let parts = modifiers.push(key);
    names_are_plain(binding.code);
    key_names_differ();
    assert("+"@ =~= seq!['+']) by {
        reveal_strlit("+");
    }
    assert(parts.drop_last() =~= modifiers);
    assert(binding_text(binding) == text::join(parts, seq!['+'])) by {
        if modifiers.len() == 0 {
            assert(parts[0] == key);
        }
    }
    assert forall|i: int| 0 <= i < parts.len() implies !(#[trigger] parts[i]).contains('+')
        && text::lowered(text::trim(parts[i])) == parts[i] by {
        token_stays(parts[i]);
    }
    text::split_undoes_join(parts, '+');
    assert(binding_tokens(binding_text(binding)) =~= parts);
    modifiers_read_back(binding.modifiers);
    key_text_read_back(binding.modifiers, binding.code);
}

/// Writing a text with plain tokens canonically a second time changes nothing, and neither does it
/// change which binding the text names.
pub proof fn canonical_is_stable(value: Seq<char>)
    requires
        plain_tokens(value),
    ensures
        canonical(canonical(value)) == canonical(value),
        parsed_binding(canonical(value)) == parsed_binding(value),
{
    if parsed_binding(value) is Some {
        parsed_is_well_read(value);
        written_binding_reads_back(parsed_binding(value)->0);
    }
}

} // verus!
