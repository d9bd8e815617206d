use mkutils::key_map::key_binding::{KeyBinding, KeyCode, KeyEvent, KeyModifiers, PARSE_ERROR_MESSAGE};
use mkutils::key_map::key_map::{Answer, KeyMap};
use mkutils::key_map::key_map_state::{KeyMapSession, KeyMapState, DEFAULT_RESET_PERIOD_MILLIS};
use mkutils::key_map::keystroke_text::{parse_u8, split_plus};

type Binding = KeyBinding<&'static str>;

fn code(text: &str) -> Option<KeyCode> {
    Binding::key_code_from_text(text)
}

fn key(c: char) -> KeyEvent {
    KeyEvent::new(KeyCode::Char(c), KeyModifiers::none())
}

fn ctrl(c: char) -> KeyEvent {
    KeyEvent::new(KeyCode::Char(c), KeyModifiers { control: true, ..KeyModifiers::none() })
}

fn binding(keys: &[KeyEvent], command: &'static str) -> Binding {
    KeyBinding { keys: keys.to_vec(), command }
}

#[test]
fn named_keys() {
    assert_eq!(code("enter"), Some(KeyCode::Enter));
    assert_eq!(code("page_down"), Some(KeyCode::PageDown));
    assert_eq!(code("back_tab"), Some(KeyCode::BackTab));
    assert_eq!(code("keypad_begin"), Some(KeyCode::KeypadBegin));
    assert_eq!(code("esc"), Some(KeyCode::Esc));
    assert_eq!(code("Enter"), None);
}

#[test]
fn character_and_function_keys() {
    assert_eq!(code("a"), Some(KeyCode::Char('a')));
    assert_eq!(code("é"), Some(KeyCode::Char('é')));
    assert_eq!(code("f5"), Some(KeyCode::F(5)));
    assert_eq!(code("f12"), Some(KeyCode::F(12)));
    assert_eq!(code("f255"), Some(KeyCode::F(255)));
    assert_eq!(code("f256"), None);
    assert_eq!(code("g5"), None);
    assert_eq!(code("ab"), None);
    assert_eq!(code(""), None);
    // one extended grapheme made of two characters is no single character
    assert_eq!(code("e\u{301}"), None);
}

#[test]
fn keystrokes_with_modifiers() {
    let event = Binding::key_event_from_text("ctrl+shift+f5").unwrap();

    assert_eq!(event.code, KeyCode::F(5));
    assert!(event.modifiers.control && event.modifiers.shift);
    assert!(!event.modifiers.alt && !event.modifiers.super_key);

    let event = Binding::key_event_from_text("super+alt+x").unwrap();
    assert_eq!(event.code, KeyCode::Char('x'));
    assert!(event.modifiers.super_key && event.modifiers.alt);

    assert_eq!(Binding::key_event_from_text("q").unwrap(), key('q'));
}

#[test]
fn keystroke_errors() {
    assert_eq!(Binding::key_event_from_text("ctrl+alt").unwrap_err(), PARSE_ERROR_MESSAGE);
    assert_eq!(Binding::key_event_from_text("ctrl+").unwrap_err(), "unable to parse keystroke");
    assert_eq!(Binding::key_event_from_text("").unwrap_err(), PARSE_ERROR_MESSAGE);
    assert_eq!(Binding::key_event_from_text("ctrl+nope+x").unwrap_err(), PARSE_ERROR_MESSAGE);
    // the words after the key are not read
    assert_eq!(Binding::key_event_from_text("x+whatever").unwrap(), key('x'));
}

#[test]
fn text_helpers() {
    assert_eq!(split_plus("a+b++c"), vec!["a", "b", "", "c"]);
    assert_eq!(split_plus(""), vec![""]);
    assert_eq!(parse_u8("007"), Some(7));
    assert_eq!(parse_u8("+9"), Some(9));
    assert_eq!(parse_u8("+"), None);
    assert_eq!(parse_u8("-1"), None);
    assert_eq!(parse_u8("256"), None);
    assert_eq!(parse_u8("1x"), None);
}

fn sample_map() -> KeyMap<&'static str> {
    KeyMap::new(vec![
        binding(&[key('g'), key('g')], "top"),
        binding(&[key('g')], "goto"),
        binding(&[ctrl('s')], "save"),
        binding(&[ctrl('s')], "save again"),
        binding(&[key('d'), key('d')], "delete line"),
    ])
}

#[test]
fn key_map_answers() {
    let map = sample_map();

    assert_eq!(map.query(&vec![key('g')]), Some(Answer::PrefixAndMatch));
    assert_eq!(map.query(&vec![key('d')]), Some(Answer::Prefix));
    assert_eq!(map.query(&vec![key('d'), key('d')]), Some(Answer::Match));
    assert_eq!(map.query(&vec![key('x')]), None);
    // the first binding with the keys wins
    assert_eq!(map.value(&vec![ctrl('s')]), Some(&"save"));
    assert_eq!(map.value(&vec![key('d')]), None);
    assert_eq!(map.bindings().len(), 5);
}

#[test]
fn key_map_state_follows_sequences() {
    let map = sample_map();
    let mut state = KeyMapState::new(&map, 1000);

    assert_eq!(state.on_key_event(&map, key('d'), 1000), None);
    assert_eq!(state.on_key_event(&map, key('d'), 1100), Some(&"delete line"));
    // back at the root: a lone `x` matches nothing
    assert_eq!(state.on_key_event(&map, key('x'), 1200), None);
    assert_eq!(state.on_key_event(&map, ctrl('s'), 1300), Some(&"save"));
}

#[test]
fn key_map_state_resolves_pending_sequence_on_tick() {
    let map = sample_map();
    let mut state = KeyMapState::new_with_reset_period(&map, 100, 0);

    assert_eq!(state.on_key_event(&map, key('g'), 10), None);
    // before the period has passed, nothing happens
    assert_eq!(state.on_tick(&map, 50), None);
    // once it has, the pending `g` resolves to its own binding
    assert_eq!(state.on_tick(&map, 110), Some(&"goto"));
    assert_eq!(state.on_tick(&map, 300), None);

    // `g g` within the period gives the longer binding
    assert_eq!(state.on_key_event(&map, key('g'), 400), None);
    assert_eq!(state.on_key_event(&map, key('g'), 450), Some(&"top"));
}

#[test]
fn key_map_session_and_update() {
    let mut session = KeyMapSession::new(sample_map(), 0);

    assert_eq!(session.on_key_event(key('d'), 0), None);
    session.key_map_state.on_key_map_update(10);
    // the pending `d` was dropped
    assert_eq!(session.on_key_event(key('d'), 20), None);
    assert_eq!(session.on_tick(20 + DEFAULT_RESET_PERIOD_MILLIS), None);
    assert_eq!(session.on_key_event(key('g'), 1000), None);
    assert_eq!(session.on_tick(1000 + DEFAULT_RESET_PERIOD_MILLIS), Some(&"goto"));
}

#[test]
fn binding_into_parts() {
    let (keys, command) = binding(&[key('a')], "a").into_parts();

    assert_eq!(keys, vec![key('a')]);
    assert_eq!(command, "a");
}

#[test]
fn key_code_from_a_first_grapheme_and_the_rest() {
    assert_eq!(Binding::key_code_from_first_grapheme("x", ""), Some(KeyCode::Char('x')));
    assert_eq!(Binding::key_code_from_first_grapheme("f", "12"), Some(KeyCode::F(12)));
    assert_eq!(Binding::key_code_from_first_grapheme("g", "12"), None);
    assert_eq!(Binding::key_code_from_first_grapheme("f", "300"), None);
    assert_eq!(Binding::key_code_from_first_grapheme("e\u{301}", ""), None);
}
