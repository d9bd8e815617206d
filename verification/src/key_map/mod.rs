//! Key bindings: keystrokes written as text, such as `ctrl+shift+f5`.

pub mod key_binding;
pub mod keystroke_text;
pub mod key_map;
pub mod key_map_state;
