//! The scancode decoder of the `pc_keyboard` crate, as the shell uses it:
//! scancode set 1, US 104-key layout, Ctrl combinations passed through.

use vstd::prelude::*;
use pc_keyboard::layouts::Us104Key;
use pc_keyboard::{DecodedKey, HandleControl, Keyboard, ScancodeSet1};

verus! {

/// The `pc_keyboard` decoder (scancode set 1, US 104-key layout, Ctrl
/// combinations passed through), kept opaque: its state is described only by
/// the scancodes it has been fed (`scancodes_fed`).
#[verifier::external_body]
pub(crate) struct KeyDecoder {
    keyboard: Keyboard<Us104Key, ScancodeSet1>,
}

/// The scancodes a decoder has been fed since it was made, oldest first. The
/// decoder starts from one fixed configuration and changes only when fed a
/// byte, so this sequence determines its state.
pub uninterp spec fn scancodes_fed(decoder: KeyDecoder) -> Seq<u8>;

/// The character the decoder yields on the last byte of `scancodes`, fed in
/// order to a fresh decoder: `Some(c)` when that byte completes a key event
/// that decodes to the character `c` (Shift and Caps Lock applied), `None`
/// when it completes nothing (a prefix byte), completes a key release or a
/// key without a character, or is not a valid scancode.
pub uninterp spec fn decoded_after(scancodes: Seq<u8>) -> Option<char>;

/// `Keyboard::new(ScancodeSet1::new(), Us104Key, HandleControl::Ignore)`: a
/// fresh decoder, fed nothing yet.
#[verifier::external_body]
pub(crate) fn keyboard_new() -> (d: KeyDecoder)
    ensures
        scancodes_fed(d) == Seq::<u8>::empty(),
{
    KeyDecoder { keyboard: Keyboard::new(ScancodeSet1::new(), Us104Key, HandleControl::Ignore) }
}

/// Feeds one scancode byte: `Keyboard::add_byte`, and when that completes a
/// key event, `Keyboard::process_keyevent` on it, with the variants of
/// `DecodedKey` told apart (a key without a character, like an error or an
/// incomplete sequence, gives `None`). What comes back is what the decoder
/// yields on that byte after all earlier ones.
#[verifier::external_body]
pub(crate) fn keyboard_feed_byte(decoder: &mut KeyDecoder, byte: u8) -> (r: Option<char>)
    ensures
        scancodes_fed(*final(decoder)) == scancodes_fed(*old(decoder)).push(byte),
        r == decoded_after(scancodes_fed(*final(decoder))),
{
    match decoder.keyboard.add_byte(byte) {
        Ok(Some(event)) => match decoder.keyboard.process_keyevent(event) {
            Some(DecodedKey::Unicode(c)) => Some(c),
            Some(DecodedKey::RawKey(_)) => None,
            None => None,
        },
        _ => None,
    }
}

} // verus!
