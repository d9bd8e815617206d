use vstd::prelude::*;
use vstd::string::StrSliceExecFns;
use crate::derive::text::same_text;
use crate::derive::error::str_views;
use crate::key_map::keystroke_text::{parse_u8, plus_segments, split_plus, u8_from_text};
use crate::segmentation::{extended_graphemes_of, split_first_extended_grapheme};

verus! {

/// A key of the keyboard (media and modifier keys are not among them).
#[derive(Clone, Copy, Debug, PartialEq, Eq, Structural)]
pub enum KeyCode {
    Backspace,
    Enter,
    Left,
    Right,
    Up,
    Down,
    Home,
    End,
    PageUp,
    PageDown,
    Tab,
    BackTab,
    Delete,
    Insert,
    F(u8),
    Char(char),
    Null,
    Esc,
    CapsLock,
    ScrollLock,
    NumLock,
    PrintScreen,
    Pause,
    Menu,
    KeypadBegin,
}

/// The modifier keys held with a key.
#[derive(Clone, Copy, Debug, PartialEq, Eq, Structural)]
pub struct KeyModifiers {
    pub shift: bool,
    pub control: bool,
    pub alt: bool,
    pub super_key: bool,
}

impl KeyModifiers {
    /// No modifier held.
    pub fn none() -> (res: Self)
        ensures
            !res.shift && !res.control && !res.alt && !res.super_key,
    {
        KeyModifiers { shift: false, control: false, alt: false, super_key: false }
    }
}

/// A keystroke: a key with the modifiers held.
#[derive(Clone, Copy, Debug, PartialEq, Eq, Structural)]
pub struct KeyEvent {
    pub code: KeyCode,
    pub modifiers: KeyModifiers,
}

impl KeyEvent {
    pub fn new(code: KeyCode, modifiers: KeyModifiers) -> (res: Self)
        ensures
            res.code == code,
            res.modifiers == modifiers,
    {
        KeyEvent { code, modifiers }
    }
}

/// The message of the error for a keystroke that cannot be read.
pub const PARSE_ERROR_MESSAGE: &'static str = "unable to parse keystroke";

/// The key named by a word of the key map, for the keys that have a name.
pub open spec fn named_key_code(name: Seq<char>) -> Option<KeyCode> {
    if name == "backspace"@ {
        Some(KeyCode::Backspace)
    } else if name == "enter"@ {
        Some(KeyCode::Enter)
    } else if name == "left"@ {
        Some(KeyCode::Left)
    } else if name == "right"@ {
        Some(KeyCode::Right)
    } else if name == "up"@ {
        Some(KeyCode::Up)
    } else if name == "down"@ {
        Some(KeyCode::Down)
    } else if name == "home"@ {
        Some(KeyCode::Home)
    } else if name == "end"@ {
        Some(KeyCode::End)
    } else if name == "page_up"@ {
        Some(KeyCode::PageUp)
    } else if name == "page_down"@ {
        Some(KeyCode::PageDown)
    } else if name == "tab"@ {
        Some(KeyCode::Tab)
    } else if name == "back_tab"@ {
        Some(KeyCode::BackTab)
    } else if name == "delete"@ {
        Some(KeyCode::Delete)
    } else if name == "insert"@ {
        Some(KeyCode::Insert)
    } else if name == "null"@ {
        Some(KeyCode::Null)
    } else if name == "esc"@ {
        Some(KeyCode::Esc)
    } else if name == "caps_lock"@ {
        Some(KeyCode::CapsLock)
    } else if name == "scroll_lock"@ {
        Some(KeyCode::ScrollLock)
    } else if name == "num_lock"@ {
        Some(KeyCode::NumLock)
    } else if name == "print_screen"@ {
        Some(KeyCode::PrintScreen)
    } else if name == "pause"@ {
        Some(KeyCode::Pause)
    } else if name == "menu"@ {
        Some(KeyCode::Menu)
    } else if name == "keypad_begin"@ {
        Some(KeyCode::KeypadBegin)
    } else {
        None
    }
}

/// The word that names a key in a key map; none for a character or a function key, which
/// are written as themselves.
pub open spec fn key_word(code: KeyCode) -> Option<Seq<char>> {
    match code {
        KeyCode::Backspace => Some("backspace"@),
        KeyCode::Enter => Some("enter"@),
        KeyCode::Left => Some("left"@),
        KeyCode::Right => Some("right"@),
        KeyCode::Up => Some("up"@),
        KeyCode::Down => Some("down"@),
        KeyCode::Home => Some("home"@),
        KeyCode::End => Some("end"@),
        KeyCode::PageUp => Some("page_up"@),
        KeyCode::PageDown => Some("page_down"@),
        KeyCode::Tab => Some("tab"@),
        KeyCode::BackTab => Some("back_tab"@),
        KeyCode::Delete => Some("delete"@),
        KeyCode::Insert => Some("insert"@),
        KeyCode::Null => Some("null"@),
        KeyCode::Esc => Some("esc"@),
        KeyCode::CapsLock => Some("caps_lock"@),
        KeyCode::ScrollLock => Some("scroll_lock"@),
        KeyCode::NumLock => Some("num_lock"@),
        KeyCode::PrintScreen => Some("print_screen"@),
        KeyCode::Pause => Some("pause"@),
        KeyCode::Menu => Some("menu"@),
        KeyCode::KeypadBegin => Some("keypad_begin"@),
        KeyCode::F(_) => None,
        KeyCode::Char(_) => None,
    }
}

/// A word names a key exactly when it is that key's word: each key word gives its own key,
/// and so no two words give the same key.
pub proof fn lemma_key_words_name_their_keys(name: Seq<char>, code: KeyCode)
    ensures
        named_key_code(name) == Some(code) <==> key_word(code) == Some(name),
{
    // the words differ in their lengths or in a character
    reveal_strlit("backspace");
    assert("backspace"@.len() == 9 && "backspace"@[0] == 'b');
    reveal_strlit("enter");
    assert("enter"@.len() == 5 && "enter"@[0] == 'e');
    reveal_strlit("left");
    assert("left"@.len() == 4 && "left"@[0] == 'l');
    reveal_strlit("right");
    assert("right"@.len() == 5 && "right"@[0] == 'r');
    reveal_strlit("up");
    assert("up"@.len() == 2);
    reveal_strlit("down");
    assert("down"@.len() == 4 && "down"@[0] == 'd');
    reveal_strlit("home");
    assert("home"@.len() == 4 && "home"@[0] == 'h');
    reveal_strlit("end");
    assert("end"@.len() == 3 && "end"@[0] == 'e' && "end"@[1] == 'n');
    reveal_strlit("page_up");
    assert("page_up"@.len() == 7);
    reveal_strlit("page_down");
    assert("page_down"@.len() == 9 && "page_down"@[0] == 'p');
    reveal_strlit("tab");
    assert("tab"@.len() == 3 && "tab"@[0] == 't');
    reveal_strlit("back_tab");
    assert("back_tab"@.len() == 8 && "back_tab"@[0] == 'b');
    reveal_strlit("delete");
    assert("delete"@.len() == 6 && "delete"@[0] == 'd');
    reveal_strlit("insert");
    assert("insert"@.len() == 6 && "insert"@[0] == 'i');
    reveal_strlit("null");
    assert("null"@.len() == 4 && "null"@[0] == 'n');
    reveal_strlit("esc");
    assert("esc"@.len() == 3 && "esc"@[0] == 'e' && "esc"@[1] == 's');
    reveal_strlit("caps_lock");
    assert("caps_lock"@.len() == 9 && "caps_lock"@[0] == 'c');
    reveal_strlit("scroll_lock");
    assert("scroll_lock"@.len() == 11);
    reveal_strlit("num_lock");
    assert("num_lock"@.len() == 8 && "num_lock"@[0] == 'n');
    reveal_strlit("print_screen");
    assert("print_screen"@.len() == 12 && "print_screen"@[0] == 'p');
    reveal_strlit("pause");
    assert("pause"@.len() == 5 && "pause"@[0] == 'p');
    reveal_strlit("menu");
    assert("menu"@.len() == 4 && "menu"@[0] == 'm');
    reveal_strlit("keypad_begin");
    assert("keypad_begin"@.len() == 12 && "keypad_begin"@[0] == 'k');
    match code {
        KeyCode::Backspace => assert(named_key_code("backspace"@) == Some(KeyCode::Backspace)),
        KeyCode::Enter => assert(named_key_code("enter"@) == Some(KeyCode::Enter)),
        KeyCode::Left => assert(named_key_code("left"@) == Some(KeyCode::Left)),
        KeyCode::Right => assert(named_key_code("right"@) == Some(KeyCode::Right)),
        KeyCode::Up => assert(named_key_code("up"@) == Some(KeyCode::Up)),
        KeyCode::Down => assert(named_key_code("down"@) == Some(KeyCode::Down)),
        KeyCode::Home => assert(named_key_code("home"@) == Some(KeyCode::Home)),
        KeyCode::End => assert(named_key_code("end"@) == Some(KeyCode::End)),
        KeyCode::PageUp => assert(named_key_code("page_up"@) == Some(KeyCode::PageUp)),
        KeyCode::PageDown => assert(named_key_code("page_down"@) == Some(KeyCode::PageDown)),
        KeyCode::Tab => assert(named_key_code("tab"@) == Some(KeyCode::Tab)),
        KeyCode::BackTab => assert(named_key_code("back_tab"@) == Some(KeyCode::BackTab)),
        KeyCode::Delete => assert(named_key_code("delete"@) == Some(KeyCode::Delete)),
        KeyCode::Insert => assert(named_key_code("insert"@) == Some(KeyCode::Insert)),
        KeyCode::Null => assert(named_key_code("null"@) == Some(KeyCode::Null)),
        KeyCode::Esc => assert(named_key_code("esc"@) == Some(KeyCode::Esc)),
        KeyCode::CapsLock => assert(named_key_code("caps_lock"@) == Some(KeyCode::CapsLock)),
        KeyCode::ScrollLock => assert(named_key_code("scroll_lock"@) == Some(KeyCode::ScrollLock)),
        KeyCode::NumLock => assert(named_key_code("num_lock"@) == Some(KeyCode::NumLock)),
        KeyCode::PrintScreen => assert(named_key_code("print_screen"@) == Some(KeyCode::PrintScreen)),
        KeyCode::Pause => assert(named_key_code("pause"@) == Some(KeyCode::Pause)),
        KeyCode::Menu => assert(named_key_code("menu"@) == Some(KeyCode::Menu)),
        KeyCode::KeypadBegin => assert(named_key_code("keypad_begin"@) == Some(KeyCode::KeypadBegin)),
        _ => {},
    }
}

/// Each key word, written alone, is read as its own key.
pub proof fn lemma_key_word_is_read_as_its_key(code: KeyCode)
    requires
        key_word(code) is Some,
    ensures
        key_code_of(key_word(code)->Some_0) == Some(code),
{
    lemma_key_words_name_their_keys(key_word(code)->Some_0, code);
}

/// Two words that give the same named key are the same word.
pub proof fn lemma_named_keys_differ(a: Seq<char>, b: Seq<char>)
    requires
        named_key_code(a) is Some,
        named_key_code(a) == named_key_code(b),
    ensures
        a == b,
{
    let code = named_key_code(a)->Some_0;
    lemma_key_words_name_their_keys(a, code);
    lemma_key_words_name_their_keys(b, code);
}

/// A key written as its first extended grapheme followed by the rest: the character of a
/// one-character grapheme standing alone, or a function key `f` followed by its number.
pub open spec fn key_code_from_graphemes(text: Seq<char>) -> Option<KeyCode> {
    if text.len() == 0 {
        None
    } else {
        let head = extended_graphemes_of(text)[0];
        key_code_from_split(head, text.skip(head.len() as int))
    }
}

/// A key written as a first grapheme `head` followed by `tail`: the character of a
/// one-character `head` standing alone, or `f` followed by a function key's number.
pub open spec fn key_code_from_split(head: Seq<char>, tail: Seq<char>) -> Option<KeyCode> {
    if tail.len() == 0 {
        if head.len() == 1 {
            Some(KeyCode::Char(head[0]))
        } else {
            None
        }
    } else if u8_from_text(tail) is Some && head == "f"@ {
        Some(KeyCode::F(u8_from_text(tail)->0))
    } else {
        None
    }
}

/// The key written by a word: a named key, else a character or a function key.
pub open spec fn key_code_of(text: Seq<char>) -> Option<KeyCode> {
    match named_key_code(text) {
        Some(code) => Some(code),
        None => key_code_from_graphemes(text),
    }
}

/// The modifiers after the word `name`, when it names a modifier.
pub open spec fn with_modifier(name: Seq<char>, modifiers: KeyModifiers) -> Option<KeyModifiers> {
    if name == "ctrl"@ {
        Some(KeyModifiers { control: true, ..modifiers })
    } else if name == "shift"@ {
        Some(KeyModifiers { shift: true, ..modifiers })
    } else if name == "alt"@ {
        Some(KeyModifiers { alt: true, ..modifiers })
    } else if name == "super"@ {
        Some(KeyModifiers { super_key: true, ..modifiers })
    } else {
        None
    }
}

/// Reads the words of a keystroke in order: modifiers are collected until the first word
/// that is not a modifier, which must name the key; the words after it are not read.
pub open spec fn key_from_words(words: Seq<Seq<char>>, modifiers: KeyModifiers) -> Option<(KeyCode, KeyModifiers)>
    decreases words.len(),
{
    if words.len() == 0 {
        None
    } else {
        match with_modifier(words[0], modifiers) {
            Some(next) => key_from_words(words.drop_first(), next),
            None => match key_code_of(words[0]) {
                Some(code) => Some((code, modifiers)),
                None => None,
            },
        }
    }
}

pub open spec fn no_modifiers() -> KeyModifiers {
    KeyModifiers { shift: false, control: false, alt: false, super_key: false }
}

/// The key and modifiers written by a keystroke such as `ctrl+alt+delete`.
pub open spec fn keystroke_of(text: Seq<char>) -> Option<(KeyCode, KeyModifiers)> {
    key_from_words(plus_segments(text), no_modifiers())
}

/// A sequence of keystrokes bound to a command.
pub struct KeyBinding<T> {
    pub keys: Vec<KeyEvent>,
    pub command: T,
}

impl<T> KeyBinding<T> {
    /// The keystrokes and the command.
    pub fn into_parts(self) -> (res: (Vec<KeyEvent>, T))
        ensures
            res.0 == self.keys,
            res.1 == self.command,
    {
        (self.keys, self.command)
    }

    /// The keystroke written by `text`, or the parse error message.
    pub fn key_event_from_text(text: &str) -> (res: Result<KeyEvent, &'static str>)
        ensures
            match keystroke_of(text@) {
                Some((code, modifiers)) => res == Ok::<KeyEvent, &'static str>(
                    KeyEvent { code, modifiers },
                ),
                None => res is Err && res->Err_0@ == PARSE_ERROR_MESSAGE@,
            },
    {
        match Self::key_event_from_text_helper(text) {
            Some((code, modifiers)) => Ok(KeyEvent::new(code, modifiers)),
            None => Err(PARSE_ERROR_MESSAGE),
        }
    }

    /// The key and modifiers written by `text`: words separated by `+`, modifiers
    /// (`ctrl`, `shift`, `alt`, `super`) first, then the key.
    pub fn key_event_from_text_helper(text: &str) -> (res: Option<(KeyCode, KeyModifiers)>)
        ensures
            res == keystroke_of(text@),
    {
        let words = split_plus(text);
        let ghost views = str_views(words@);
        let mut modifiers = KeyModifiers::none();
        let mut i: usize = 0;
        proof {
            assert(views.skip(0) =~= views);
        }
        while i < words.len()
            invariant
                0 <= i <= words.len(),
                views == str_views(words@),
                views == plus_segments(text@),
                key_from_words(views.skip(i as int), modifiers) == keystroke_of(text@),
            decreases words.len() - i,
        {
            let word = words[i];
            proof {
                assert(views.skip(i as int)[0] == word@);
                assert(views.skip(i as int).drop_first() =~= views.skip(i + 1));
            }
            if same_text(word, "ctrl") {
                modifiers = KeyModifiers { control: true, ..modifiers };
            } else if same_text(word, "shift") {
                modifiers = KeyModifiers { shift: true, ..modifiers };
            } else if same_text(word, "alt") {
                modifiers = KeyModifiers { alt: true, ..modifiers };
            } else if same_text(word, "super") {
                modifiers = KeyModifiers { super_key: true, ..modifiers };
            } else {
                return match Self::key_code_from_text(word) {
                    Some(code) => Some((code, modifiers)),
                    None => None,
                };
            }
            i = i + 1;
        }
        proof {
            assert(views.skip(words.len() as int) =~= Seq::<Seq<char>>::empty());
        }
        None
    }

    /// The key written by a word: a named key (`enter`, `page_up`, ...), a single character,
    /// or a function key such as `f5`.
    pub fn key_code_from_text(text: &str) -> (res: Option<KeyCode>)
        ensures
            res == key_code_of(text@),
    {
        if same_text(text, "backspace") {
            Some(KeyCode::Backspace)
        } else if same_text(text, "enter") {
            Some(KeyCode::Enter)
        } else if same_text(text, "left") {
            Some(KeyCode::Left)
        } else if same_text(text, "right") {
            Some(KeyCode::Right)
        } else if same_text(text, "up") {
            Some(KeyCode::Up)
        } else if same_text(text, "down") {
            Some(KeyCode::Down)
        } else if same_text(text, "home") {
            Some(KeyCode::Home)
        } else if same_text(text, "end") {
            Some(KeyCode::End)
        } else if same_text(text, "page_up") {
            Some(KeyCode::PageUp)
        } else if same_text(text, "page_down") {
            Some(KeyCode::PageDown)
        } else if same_text(text, "tab") {
            Some(KeyCode::Tab)
        } else if same_text(text, "back_tab") {
            Some(KeyCode::BackTab)
        } else if same_text(text, "delete") {
            Some(KeyCode::Delete)
        } else if same_text(text, "insert") {
            Some(KeyCode::Insert)
        } else if same_text(text, "null") {
            Some(KeyCode::Null)
        } else if same_text(text, "esc") {
            Some(KeyCode::Esc)
        } else if same_text(text, "caps_lock") {
            Some(KeyCode::CapsLock)
        } else if same_text(text, "scroll_lock") {
            Some(KeyCode::ScrollLock)
        } else if same_text(text, "num_lock") {
            Some(KeyCode::NumLock)
        } else if same_text(text, "print_screen") {
            Some(KeyCode::PrintScreen)
        } else if same_text(text, "pause") {
            Some(KeyCode::Pause)
        } else if same_text(text, "menu") {
            Some(KeyCode::Menu)
        } else if same_text(text, "keypad_begin") {
            Some(KeyCode::KeypadBegin)
        } else {
            Self::key_code_from_text_helper(text)
        }
    }

    /// A single character, or `f` followed by a function key's number.
    pub fn key_code_from_text_helper(text: &str) -> (res: Option<KeyCode>)
        ensures
            res == key_code_from_graphemes(text@),
    {
        match split_first_extended_grapheme(text) {
            None => None,
            Some((head, tail)) => {
                proof {
                    assert(tail@ =~= text@.skip(head@.len() as int));
                }
                Self::key_code_from_first_grapheme(head, tail)
            },
        }
    }

    /// The key written as the first grapheme `head` followed by the rest `tail`.
    pub fn key_code_from_first_grapheme(head: &str, tail: &str) -> (res: Option<KeyCode>)
        ensures
            res == key_code_from_split(head@, tail@),
    {
        if tail.unicode_len() == 0 {
            if head.unicode_len() == 1 {
                Some(KeyCode::Char(head.get_char(0)))
            } else {
                None
            }
        } else {
            match parse_u8(tail) {
                Some(number) => {
                    if same_text(head, "f") {
                        Some(KeyCode::F(number))
                    } else {
                        None
                    }
                },
                None => None,
            }
        }
    }
}

} // verus!
