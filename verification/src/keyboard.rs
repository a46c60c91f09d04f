//! The scancode decoder: a stateful translator from the keyboard's raw byte
//! stream to logical key events. Multi-byte scancodes span interrupts, so the
//! state lives between calls; once a complete key is assembled it is mapped
//! onto the small fixed set of keys the dispatch layer recognizes, and
//! anything else is silently dropped. The byte-level decoding itself is done
//! by the pc_keyboard crate behind the trusted items below; its result is
//! named by `spec_decode_step`, a function of the byte stream alone.

use vstd::prelude::*;

verus! {

/// A decoded keystroke as the dispatch layer sees it: a printable character,
/// one of the arrow keys the layer distinguishes, or some other raw key.
#[derive(Clone, Copy, PartialEq, Eq, Structural, Debug)]
pub enum KeyInput {
    Character(char),
    ArrowLeft,
    ArrowRight,
    OtherRaw,
}

/// The fixed set of recognized keys that dispatch forwards to the keyboard
/// callback: move left, move right, fire.
#[derive(Clone, Copy, PartialEq, Eq, Structural, Debug)]
pub enum GameKey {
    MoveLeft,
    MoveRight,
    Fire,
}

/// The key completed by the byte `b` arriving after the bytes `history`, if
/// `b` completes a scancode sequence. This names what pc_keyboard's decoding
/// returns; it is a function of the byte stream fed since construction.
pub uninterp spec fn spec_decode_step(history: Seq<u8>, b: u8) -> Option<KeyInput>;

#[verifier::external_body]
struct KeyboardState {
    kb: pc_keyboard::PS2Keyboard<pc_keyboard::layouts::Us104Key, pc_keyboard::ScancodeSet1>,
}

/// The decoder: pc_keyboard's keyboard state, plus the byte stream fed so
/// far, kept as ghost history so that contracts can name the decode result.
pub struct Decoder {
    state: KeyboardState,
    history: Ghost<Seq<u8>>,
}

impl Decoder {
    /// The byte stream fed to the decoder since construction.
    pub closed spec fn history(self) -> Seq<u8> {
        self.history@
    }

    /// A fresh decoder with no partial scancode pending.
    /// Relies on pc_keyboard's PS2Keyboard::new and ScancodeSet1::new
    /// (Scancode Set 1, US 104-key layout, control keys passed through): a
    /// newly built keyboard has consumed no bytes.
    #[verifier::external_body]
    pub fn new() -> (d: Decoder)
        ensures
            d.history() == Seq::<u8>::empty(),
    {
        Decoder {
            state: KeyboardState {
                kb: pc_keyboard::PS2Keyboard::new(
                    pc_keyboard::ScancodeSet1::new(),
                    pc_keyboard::layouts::Us104Key,
                    pc_keyboard::HandleControl::Ignore,
                ),
            },
            history: Ghost(Seq::empty()),
        }
    }

    /// Feeds one scancode byte and returns the key it completes, if any.
    /// Relies on pc_keyboard's PS2Keyboard::add_byte and
    /// PS2Keyboard::process_keyevent: one byte advances the decoder one
    /// step, and the key completed is a function of the bytes fed since
    /// construction. Decode errors and partial sequences yield no key.
    #[verifier::external_body]
    pub fn push_byte(&mut self, b: u8) -> (r: Option<KeyInput>)
        ensures
            final(self).history() == old(self).history().push(b),
            r == spec_decode_step(old(self).history(), b),
    {
        let decoded = match self.state.kb.add_byte(b) {
            Ok(Some(ev)) => self.state.kb.process_keyevent(ev),
            _ => None,
        };
        match decoded {
            Some(pc_keyboard::DecodedKey::Unicode(c)) => Some(KeyInput::Character(c)),
            Some(pc_keyboard::DecodedKey::RawKey(pc_keyboard::KeyCode::ArrowLeft)) => Some(
                KeyInput::ArrowLeft,
            ),
            Some(pc_keyboard::DecodedKey::RawKey(pc_keyboard::KeyCode::ArrowRight)) => Some(
                KeyInput::ArrowRight,
            ),
            Some(pc_keyboard::DecodedKey::RawKey(_)) => Some(KeyInput::OtherRaw),
            None => None,
        }
    }
}

/// The dispatch layer's key map: space fires, 'a'/'d' and the arrow keys
/// move; every other key is dropped.
pub open spec fn spec_recognize(k: KeyInput) -> Option<GameKey> {
    match k {
        KeyInput::Character(c) => if c == ' ' {
            Some(GameKey::Fire)
        } else if c == 'a' {
            Some(GameKey::MoveLeft)
        } else if c == 'd' {
            Some(GameKey::MoveRight)
        } else {
            None
        },
        KeyInput::ArrowLeft => Some(GameKey::MoveLeft),
        KeyInput::ArrowRight => Some(GameKey::MoveRight),
        KeyInput::OtherRaw => None,
    }
}

/// Maps a decoded keystroke onto the recognized set.
pub fn recognize(k: KeyInput) -> (r: Option<GameKey>)
    ensures
        r == spec_recognize(k),
{
    match k {
        KeyInput::Character(c) => {
            if c == ' ' {
                Some(GameKey::Fire)
            } else if c == 'a' {
                Some(GameKey::MoveLeft)
            } else if c == 'd' {
                Some(GameKey::MoveRight)
            } else {
                None
            }
        },
        KeyInput::ArrowLeft => Some(GameKey::MoveLeft),
        KeyInput::ArrowRight => Some(GameKey::MoveRight),
        KeyInput::OtherRaw => None,
    }
}

} // verus!
