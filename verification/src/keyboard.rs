//! Keyboard input and the limits it has to keep.

use crate::text::{decimal, hexadecimal, same_text, with_hexadecimal, with_number};
use std::slice::Iter;
use std::str::FromStr;
use vstd::prelude::*;
use vstd::std_specs::iter::IteratorSpec;
use vstd::string::StringSliceAdditionalSpecFns;
use vstd::utf8::encode_utf8;

verus! {

pub const KEYBOARD_INPUT_PROTOCOL_VERSION: u32 = 1;

pub const MAX_COMMITTED_TEXT_BYTES: usize = 2048;

pub const MAX_TEXT_DELETE_GRAPHEMES: u32 = 64;

pub const MAX_SOURCE_LANGUAGE_TAG_BYTES: usize = 64;

pub const MAX_SOURCE_LAYOUT_TYPE_BYTES: usize = 64;

pub const KEYBOARD_MODIFIER_SHIFT: u32 = 1;

pub const KEYBOARD_MODIFIER_CONTROL: u32 = 2;

pub const KEYBOARD_MODIFIER_ALT: u32 = 4;

pub const KEYBOARD_MODIFIER_META: u32 = 8;

pub const KNOWN_KEYBOARD_MODIFIER_MASK: u32 = 15;

pub const KEYBOARD_LOCK_CAPS: u32 = 1;

pub const KEYBOARD_LOCK_NUM: u32 = 2;

pub const KEYBOARD_LOCK_SCROLL: u32 = 4;

pub const KNOWN_KEYBOARD_LOCK_MASK: u32 = 7;

pub const MIN_USB_HID_KEYBOARD_USAGE: u32 = 0x04;

pub const MAX_USB_HID_KEYBOARD_USAGE: u32 = 0xe7;

/// Text that an input method committed.
#[derive(Debug)]
pub struct CommittedText {
    pub text: String,
    pub delete_before_graphemes: u32,
    pub delete_after_graphemes: u32,
    pub source_language_tag: String,
    pub source_layout_type: String,
    pub prefer_physical: bool,
}

/// A key that went down or up.
#[derive(Clone, Copy, Debug, PartialEq, Eq, Structural)]
pub struct PhysicalKey {
    pub usb_hid_usage: u32,
    pub down: bool,
    pub repeat: bool,
    pub modifier_mask: u32,
    pub lock_mask: u32,
}

/// The modifiers and locks that are on.
#[derive(Clone, Copy, Debug, PartialEq, Eq, Structural)]
pub struct ModifierSync {
    pub modifier_mask: u32,
    pub lock_mask: u32,
}

/// What a keyboard input carries.
#[derive(Debug)]
pub enum KeyboardInputUnion {
    CommittedText(CommittedText),
    PhysicalKey(PhysicalKey),
    ModifierSync(ModifierSync),
}

/// One keyboard input.
#[derive(Debug)]
pub struct KeyboardInput {
    pub protocol_version: u32,
    pub input_epoch: u64,
    pub sequence: u64,
    pub union: Option<KeyboardInputUnion>,
}

/// Why a keyboard input was refused.
#[derive(Clone, Copy, Debug, PartialEq, Eq, Structural)]
pub enum KeyboardInputError {
    UnsupportedVersion(u32),
    MissingEpoch,
    MissingSequence,
    MissingPayload,
    EmptyCommittedText,
    CommittedTextTooLarge,
    TextDeletionTooLarge,
    InvalidSourceLanguageTag,
    InvalidSourceLayoutType,
    InvalidUsbHidUsage(u32),
    RepeatWithoutKeyDown,
    InvalidModifierMask(u32),
    InvalidLockMask(u32),
}

impl KeyboardInputError {
    /// What went wrong, in words.
    pub open spec fn spec_message(self) -> Seq<char> {
        match self {
            KeyboardInputError::UnsupportedVersion(version) => "unsupported keyboard input protocol version "@ + decimal(
                version as nat,
            ) + ""@,
            KeyboardInputError::MissingEpoch => "keyboard input epoch must not be zero"@,
            KeyboardInputError::MissingSequence => "keyboard input sequence must not be zero"@,
            KeyboardInputError::MissingPayload => "keyboard input payload is missing"@,
            KeyboardInputError::EmptyCommittedText => "committed text payload is empty"@,
            KeyboardInputError::CommittedTextTooLarge => "committed text payload exceeds 2048 bytes"@,
            KeyboardInputError::TextDeletionTooLarge => "committed text deletion exceeds 64 graphemes"@,
            KeyboardInputError::InvalidSourceLanguageTag => "keyboard source language tag is invalid"@,
            KeyboardInputError::InvalidSourceLayoutType => "keyboard source layout type is invalid"@,
            KeyboardInputError::InvalidUsbHidUsage(usage) => "USB HID keyboard usage 0x"@ + hexadecimal(usage as nat)
                + " is outside usage page 0x07"@,
            KeyboardInputError::RepeatWithoutKeyDown => "physical-key repeat requires a key-down event"@,
            KeyboardInputError::InvalidModifierMask(bits) => "keyboard modifier mask contains unknown bits 0x"@
                + hexadecimal(bits as nat) + ""@,
            KeyboardInputError::InvalidLockMask(bits) => "keyboard lock mask contains unknown bits 0x"@ + hexadecimal(
                bits as nat,
            ) + ""@,
        }
    }

    /// What went wrong, in words.
    pub fn message(&self) -> (text: String)
        ensures
            text@ == self.spec_message(),
    {
        match *self {
            KeyboardInputError::UnsupportedVersion(version) => with_number(
                "unsupported keyboard input protocol version ",
                version as u64,
                "",
            ),
            KeyboardInputError::MissingEpoch => "keyboard input epoch must not be zero".to_owned(),
            KeyboardInputError::MissingSequence => "keyboard input sequence must not be zero".to_owned(),
            KeyboardInputError::MissingPayload => "keyboard input payload is missing".to_owned(),
            KeyboardInputError::EmptyCommittedText => "committed text payload is empty".to_owned(),
            KeyboardInputError::CommittedTextTooLarge => "committed text payload exceeds 2048 bytes".to_owned(),
            KeyboardInputError::TextDeletionTooLarge => "committed text deletion exceeds 64 graphemes".to_owned(),
            KeyboardInputError::InvalidSourceLanguageTag => "keyboard source language tag is invalid".to_owned(),
            KeyboardInputError::InvalidSourceLayoutType => "keyboard source layout type is invalid".to_owned(),
            KeyboardInputError::InvalidUsbHidUsage(usage) => with_hexadecimal(
                "USB HID keyboard usage 0x",
                usage,
                " is outside usage page 0x07",
            ),
            KeyboardInputError::RepeatWithoutKeyDown => "physical-key repeat requires a key-down event".to_owned(),
            KeyboardInputError::InvalidModifierMask(bits) => with_hexadecimal(
                "keyboard modifier mask contains unknown bits 0x",
                bits,
                "",
            ),
            KeyboardInputError::InvalidLockMask(bits) => with_hexadecimal(
                "keyboard lock mask contains unknown bits 0x",
                bits,
                "",
            ),
        }
    }
}

/// A byte that may stand in a language tag or a layout type: a letter, a digit or one of `-_+.`.
pub open spec fn is_metadata_byte(byte: u8) -> bool {
    ||| 0x30 <= byte <= 0x39
    ||| 0x41 <= byte <= 0x5a
    ||| 0x61 <= byte <= 0x7a
    ||| byte == 0x2d
    ||| byte == 0x5f
    ||| byte == 0x2b
    ||| byte == 0x2e
}

/// A short text of metadata bytes.
pub open spec fn is_source_metadata(value: Seq<char>, max_bytes: nat) -> bool {
    let bytes = encode_utf8(value);
    bytes.len() <= max_bytes && forall|i: int| 0 <= i < bytes.len() ==> is_metadata_byte(#[trigger] bytes[i])
}

/// The bits of a modifier mask that stand for no modifier.
pub open spec fn unknown_modifiers(modifier_mask: u32) -> u32 {
    modifier_mask & !KNOWN_KEYBOARD_MODIFIER_MASK
}

/// The bits of a lock mask that stand for no lock.
pub open spec fn unknown_locks(lock_mask: u32) -> u32 {
    lock_mask & !KNOWN_KEYBOARD_LOCK_MASK
}

/// What is wrong with a pair of masks.
pub open spec fn masks_fault(modifier_mask: u32, lock_mask: u32) -> Option<KeyboardInputError> {
    if unknown_modifiers(modifier_mask) != 0 {
        Some(KeyboardInputError::InvalidModifierMask(unknown_modifiers(modifier_mask)))
    } else if unknown_locks(lock_mask) != 0 {
        Some(KeyboardInputError::InvalidLockMask(unknown_locks(lock_mask)))
    } else {
        None
    }
}

/// What is wrong with a committed text: the first of these rules that it breaks.
pub open spec fn committed_text_fault(text: CommittedText) -> Option<KeyboardInputError> {
    if text.text@.len() == 0 && text.delete_before_graphemes == 0 && text.delete_after_graphemes == 0 {
        Some(KeyboardInputError::EmptyCommittedText)
    } else if encode_utf8(text.text@).len() > MAX_COMMITTED_TEXT_BYTES {
        Some(KeyboardInputError::CommittedTextTooLarge)
    } else if text.delete_before_graphemes > MAX_TEXT_DELETE_GRAPHEMES || text.delete_after_graphemes
        > MAX_TEXT_DELETE_GRAPHEMES {
        Some(KeyboardInputError::TextDeletionTooLarge)
    } else if text.source_language_tag@.len() != 0 && !is_source_metadata(
        text.source_language_tag@,
        MAX_SOURCE_LANGUAGE_TAG_BYTES as nat,
    ) {
        Some(KeyboardInputError::InvalidSourceLanguageTag)
    } else if text.source_layout_type@.len() != 0 && !is_source_metadata(
        text.source_layout_type@,
        MAX_SOURCE_LAYOUT_TYPE_BYTES as nat,
    ) {
        Some(KeyboardInputError::InvalidSourceLayoutType)
    } else if text.prefer_physical && text.source_language_tag@.len() == 0 {
        Some(KeyboardInputError::InvalidSourceLanguageTag)
    } else {
        None
    }
}

/// What is wrong with a key: the first of these rules that it breaks.
pub open spec fn physical_key_fault(key: PhysicalKey) -> Option<KeyboardInputError> {
    if !(MIN_USB_HID_KEYBOARD_USAGE <= key.usb_hid_usage <= MAX_USB_HID_KEYBOARD_USAGE) {
        Some(KeyboardInputError::InvalidUsbHidUsage(key.usb_hid_usage))
    } else if key.repeat && !key.down {
        Some(KeyboardInputError::RepeatWithoutKeyDown)
    } else {
        masks_fault(key.modifier_mask, key.lock_mask)
    }
}

/// What is wrong with a keyboard input: the first of these rules that it breaks.
pub open spec fn keyboard_input_fault(input: KeyboardInput) -> Option<KeyboardInputError> {
    if input.protocol_version != KEYBOARD_INPUT_PROTOCOL_VERSION {
        Some(KeyboardInputError::UnsupportedVersion(input.protocol_version))
    } else if input.input_epoch == 0 {
        Some(KeyboardInputError::MissingEpoch)
    } else if input.sequence == 0 {
        Some(KeyboardInputError::MissingSequence)
    } else {
        match input.union {
            Some(KeyboardInputUnion::CommittedText(text)) => committed_text_fault(text),
            Some(KeyboardInputUnion::PhysicalKey(key)) => physical_key_fault(key),
            Some(KeyboardInputUnion::ModifierSync(sync)) => masks_fault(sync.modifier_mask, sync.lock_mask),
            None => Some(KeyboardInputError::MissingPayload),
        }
    }
}

/// The outcome that belongs to a fault.
pub open spec fn verdict(fault: Option<KeyboardInputError>) -> Result<(), KeyboardInputError> {
    match fault {
        Some(error) => Err(error),
        None => Ok(()),
    }
}

/// Refuses an input that breaks a rule, with the first rule that it breaks.
pub fn validate_keyboard_input(input: &KeyboardInput) -> (result: Result<(), KeyboardInputError>)
    ensures
        result == verdict(keyboard_input_fault(*input)),
{
    if input.protocol_version != KEYBOARD_INPUT_PROTOCOL_VERSION {
        return Err(KeyboardInputError::UnsupportedVersion(input.protocol_version));
    }
    if input.input_epoch == 0 {
        return Err(KeyboardInputError::MissingEpoch);
    }
    if input.sequence == 0 {
        return Err(KeyboardInputError::MissingSequence);
    }
    match &input.union {
        Some(KeyboardInputUnion::CommittedText(text)) => {
            if text.text.as_str().is_empty() && text.delete_before_graphemes == 0 && text.delete_after_graphemes == 0 {
                return Err(KeyboardInputError::EmptyCommittedText);
            }
            if text.text.as_str().as_bytes().len() > MAX_COMMITTED_TEXT_BYTES {
                return Err(KeyboardInputError::CommittedTextTooLarge);
            }
            if text.delete_before_graphemes > MAX_TEXT_DELETE_GRAPHEMES || text.delete_after_graphemes
                > MAX_TEXT_DELETE_GRAPHEMES {
                return Err(KeyboardInputError::TextDeletionTooLarge);
            }
            if !text.source_language_tag.as_str().is_empty() && !valid_source_metadata(
                text.source_language_tag.as_str(),
                MAX_SOURCE_LANGUAGE_TAG_BYTES,
            ) {
                return Err(KeyboardInputError::InvalidSourceLanguageTag);
            }
            if !text.source_layout_type.as_str().is_empty() && !valid_source_metadata(
                text.source_layout_type.as_str(),
                MAX_SOURCE_LAYOUT_TYPE_BYTES,
            ) {
                return Err(KeyboardInputError::InvalidSourceLayoutType);
            }
            if text.prefer_physical && text.source_language_tag.as_str().is_empty() {
                return Err(KeyboardInputError::InvalidSourceLanguageTag);
            }
            Ok(())
        },
        Some(KeyboardInputUnion::PhysicalKey(key)) => {
            if key.usb_hid_usage < MIN_USB_HID_KEYBOARD_USAGE || key.usb_hid_usage > MAX_USB_HID_KEYBOARD_USAGE {
                return Err(KeyboardInputError::InvalidUsbHidUsage(key.usb_hid_usage));
            }
            if key.repeat && !key.down {
                return Err(KeyboardInputError::RepeatWithoutKeyDown);
            }
            validate_masks(key.modifier_mask, key.lock_mask)
        },
        Some(KeyboardInputUnion::ModifierSync(sync)) => validate_masks(sync.modifier_mask, sync.lock_mask),
        None => Err(KeyboardInputError::MissingPayload),
    }
}

/// Whether a language tag and a layout type describe a source layout. The layout type may be left
/// out, the language tag may not.
pub fn validate_source_layout_metadata(language_tag: &str, layout_type: &str) -> (valid: bool)
    ensures
        valid == (language_tag@.len() != 0 && is_source_metadata(
            language_tag@,
            MAX_SOURCE_LANGUAGE_TAG_BYTES as nat,
        ) && (layout_type@.len() == 0 || is_source_metadata(layout_type@, MAX_SOURCE_LAYOUT_TYPE_BYTES as nat))),
{
    !language_tag.is_empty() && valid_source_metadata(language_tag, MAX_SOURCE_LANGUAGE_TAG_BYTES) && (
    layout_type.is_empty() || valid_source_metadata(layout_type, MAX_SOURCE_LAYOUT_TYPE_BYTES))
}

/// Whether a text is short enough and made of metadata bytes alone.
fn valid_source_metadata(value: &str, max_bytes: usize) -> (valid: bool)
    ensures
        valid == is_source_metadata(value@, max_bytes as nat),
{
    let bytes: &[u8] = value.as_bytes();
    if bytes.len() > max_bytes {
        return false;
    }
    let mut index: usize = 0;
    while index < bytes.len()
        invariant
            index <= bytes@.len(),
            bytes@ == encode_utf8(value@),
            forall|i: int| 0 <= i < index ==> is_metadata_byte(#[trigger] bytes@[i]),
        decreases bytes@.len() - index,
    {
        let byte: u8 = bytes[index];
        let alphanumeric = (0x30 <= byte && byte <= 0x39) || (0x41 <= byte && byte <= 0x5a) || (0x61 <= byte && byte
            <= 0x7a);
        if !(alphanumeric || byte == 0x2d || byte == 0x5f || byte == 0x2b || byte == 0x2e) {
            assert(!is_metadata_byte(bytes@[index as int]));
            return false;
        }
        index += 1;
    }
    true
}

/// Refuses masks with bits that stand for nothing.
fn validate_masks(modifier_mask: u32, lock_mask: u32) -> (result: Result<(), KeyboardInputError>)
    ensures
        result == verdict(masks_fault(modifier_mask, lock_mask)),
{
    let unknown_modifiers: u32 = modifier_mask & !KNOWN_KEYBOARD_MODIFIER_MASK;
    if unknown_modifiers != 0 {
        return Err(KeyboardInputError::InvalidModifierMask(unknown_modifiers));
    }
    let unknown_locks: u32 = lock_mask & !KNOWN_KEYBOARD_LOCK_MASK;
    if unknown_locks != 0 {
        return Err(KeyboardInputError::InvalidLockMask(unknown_locks));
    }
    Ok(())
}

/// How key events are turned into keys on the other side.
#[derive(Clone, Copy, Debug, PartialEq, Eq, Structural)]
pub enum KeyboardMode {
    Legacy,
    Mapped,
    Translate,
    Auto,
}

/// All modes, in order.
pub const KEYBOARD_MODES: [KeyboardMode; 4] = [
    KeyboardMode::Legacy,
    KeyboardMode::Mapped,
    KeyboardMode::Translate,
    KeyboardMode::Auto,
];

impl KeyboardMode {
    /// The name of the mode.
    pub open spec fn spec_name(self) -> Seq<char> {
        match self {
            KeyboardMode::Legacy => "legacy"@,
            KeyboardMode::Mapped => "map"@,
            KeyboardMode::Translate => "translate"@,
            KeyboardMode::Auto => "auto"@,
        }
    }

    /// The name of the mode.
    pub fn name(self) -> (name: &'static str)
        ensures
            name@ == self.spec_name(),
    {
        match self {
            KeyboardMode::Legacy => "legacy",
            KeyboardMode::Mapped => "map",
            KeyboardMode::Translate => "translate",
            KeyboardMode::Auto => "auto",
        }
    }

    /// The mode with the given name.
    pub fn from_name(name: &str) -> (mode: Result<KeyboardMode, ()>)
        ensures
            match mode {
                Ok(mode) => mode.spec_name() == name@,
                Err(_) => forall|mode: KeyboardMode| #[trigger] mode.spec_name() != name@,
            },
    {
        if same_text(name, "legacy") {
            Ok(KeyboardMode::Legacy)
        } else if same_text(name, "map") {
            Ok(KeyboardMode::Mapped)
        } else if same_text(name, "translate") {
            Ok(KeyboardMode::Translate)
        } else if same_text(name, "auto") {
            Ok(KeyboardMode::Auto)
        } else {
            Err(())
        }
    }

    /// All modes, in order.
    pub fn iter() -> (modes: Iter<'static, KeyboardMode>)
        ensures
            modes.remaining().unref() == seq![
                KeyboardMode::Legacy,
                KeyboardMode::Mapped,
                KeyboardMode::Translate,
                KeyboardMode::Auto,
            ],
    {
        KEYBOARD_MODES.iter()
    }
}

impl FromStr for KeyboardMode {
    type Err = ();

    /// The mode with the given name.
    fn from_str(s: &str) -> (mode: Result<Self, Self::Err>)
        ensures
            match mode {
                Ok(mode) => mode.spec_name() == s@,
                Err(_) => forall|mode: KeyboardMode| #[trigger] mode.spec_name() != s@,
            },
    {
        KeyboardMode::from_name(s)
    }
}

/// No two modes share a name, so a name leads back to its mode.
pub proof fn mode_names_differ(a: KeyboardMode, b: KeyboardMode)
    requires
        a.spec_name() == b.spec_name(),
    ensures
        a == b,
{
    reveal_strlit("legacy");
    reveal_strlit("map");
    reveal_strlit("translate");
    reveal_strlit("auto");
    assert("legacy"@.len() == 6);
    assert("map"@.len() == 3);
    assert("translate"@.len() == 9);
    assert("auto"@.len() == 4);
}

/// A mask has bits above the lowest ones only if it is too large for them, and those bits are what is
/// left of it without the lowest ones.
proof fn lemma_unknown_bits(mask: u32)
    ensures
        unknown_modifiers(mask) == mask - mask % 16,
        unknown_locks(mask) == mask - mask % 8,
{
    assert(mask & !15u32 == mask - mask % 16) by (bit_vector);
    assert(mask & !7u32 == mask - mask % 8) by (bit_vector);
}

/// What stands at the head of an input is looked at first, whatever the input carries: another version
/// than the first is refused with its number, then a zero epoch, then a zero sequence number, then an
/// input that carries nothing.
pub proof fn head_of_an_input_comes_first(input: KeyboardInput)
    ensures
        ({
            let result = verdict(keyboard_input_fault(input));
            &&& input.protocol_version != 1 <==> result == Err::<(), KeyboardInputError>(
                KeyboardInputError::UnsupportedVersion(input.protocol_version),
            )
            &&& (input.protocol_version == 1 && input.input_epoch == 0) <==> result == Err::<(), KeyboardInputError>(
                KeyboardInputError::MissingEpoch,
            )
            &&& (input.protocol_version == 1 && input.input_epoch != 0 && input.sequence == 0) <==> result == Err::<
                (),
                KeyboardInputError,
            >(KeyboardInputError::MissingSequence)
            &&& (input.protocol_version == 1 && input.input_epoch != 0 && input.sequence != 0 && input.union is None)
                <==> result == Err::<(), KeyboardInputError>(KeyboardInputError::MissingPayload)
        }),
{
}

/// A key is accepted, going down as well as up, if its usage is one of a keyboard, a repeat goes down,
/// and its masks hold known bits only; and otherwise not.
pub proof fn keys_go_down_and_up(input: KeyboardInput, key: PhysicalKey)
    requires
        input.protocol_version == 1,
        input.input_epoch != 0,
        input.sequence != 0,
        input.union == Some(KeyboardInputUnion::PhysicalKey(key)),
    ensures
        verdict(keyboard_input_fault(input)) is Ok <==> (4 <= key.usb_hid_usage <= 231 && (key.repeat ==> key.down)
            && key.modifier_mask < 16 && key.lock_mask < 8),
{
    lemma_unknown_bits(key.modifier_mask);
    lemma_unknown_bits(key.lock_mask);
}

/// A key that is refused is refused for a usage outside the keyboard, then for a repeat that does not go
/// down, then for unknown bits of its masks, which are told.
pub proof fn refused_keys_are_told_why(input: KeyboardInput, key: PhysicalKey)
    requires
        input.protocol_version == 1,
        input.input_epoch != 0,
        input.sequence != 0,
        input.union == Some(KeyboardInputUnion::PhysicalKey(key)),
    ensures
        ({
            let result = verdict(keyboard_input_fault(input));
            let in_range = 4 <= key.usb_hid_usage <= 231;
            let raised = key.repeat && !key.down;
            &&& !in_range <==> result == Err::<(), KeyboardInputError>(
                KeyboardInputError::InvalidUsbHidUsage(key.usb_hid_usage),
            )
            &&& in_range && raised <==> result == Err::<(), KeyboardInputError>(
                KeyboardInputError::RepeatWithoutKeyDown,
            )
            &&& in_range && !raised && key.modifier_mask >= 16 ==> result == Err::<(), KeyboardInputError>(
                KeyboardInputError::InvalidModifierMask((key.modifier_mask - key.modifier_mask % 16) as u32),
            )
            &&& in_range && !raised && key.modifier_mask < 16 && key.lock_mask >= 8 ==> result == Err::<
                (),
                KeyboardInputError,
            >(KeyboardInputError::InvalidLockMask((key.lock_mask - key.lock_mask % 8) as u32))
        }),
{
    lemma_unknown_bits(key.modifier_mask);
    lemma_unknown_bits(key.lock_mask);
}

/// The modifiers and locks are taken over if and only if both masks hold known bits only.
pub proof fn known_modifiers_are_taken_over(input: KeyboardInput, sync: ModifierSync)
    requires
        input.protocol_version == 1,
        input.input_epoch != 0,
        input.sequence != 0,
        input.union == Some(KeyboardInputUnion::ModifierSync(sync)),
    ensures
        verdict(keyboard_input_fault(input)) is Ok <==> (sync.modifier_mask < 16 && sync.lock_mask < 8),
        sync.modifier_mask >= 16 ==> verdict(keyboard_input_fault(input)) == Err::<(), KeyboardInputError>(
            KeyboardInputError::InvalidModifierMask((sync.modifier_mask - sync.modifier_mask % 16) as u32),
        ),
        sync.modifier_mask < 16 && sync.lock_mask >= 8 ==> verdict(keyboard_input_fault(input)) == Err::<
            (),
            KeyboardInputError,
        >(KeyboardInputError::InvalidLockMask((sync.lock_mask - sync.lock_mask % 8) as u32)),
{
    lemma_unknown_bits(sync.modifier_mask);
    lemma_unknown_bits(sync.lock_mask);
}

/// A tag of a source layout is at most sixty-four bytes long, and each of them is a letter, a digit, a
/// hyphen, an underscore, a plus sign or a full stop.
pub proof fn source_tags_are_short_and_plain(tag: Seq<char>)
    ensures
        is_source_metadata(tag, 64) <==> (encode_utf8(tag).len() <= 64 && forall|i: int|
            0 <= i < encode_utf8(tag).len() ==> {
                let byte = #[trigger] encode_utf8(tag)[i] as int;
                ||| 'a' as int <= byte <= 'z' as int
                ||| 'A' as int <= byte <= 'Z' as int
                ||| '0' as int <= byte <= '9' as int
                ||| byte == '-' as int
                ||| byte == '_' as int
                ||| byte == '+' as int
                ||| byte == '.' as int
            }),
{
    let bytes = encode_utf8(tag);
    assert forall|i: int| 0 <= i < bytes.len() implies (is_metadata_byte(#[trigger] bytes[i]) <==> {
        let byte = bytes[i] as int;
        ||| 'a' as int <= byte <= 'z' as int
        ||| 'A' as int <= byte <= 'Z' as int
        ||| '0' as int <= byte <= '9' as int
        ||| byte == '-' as int
        ||| byte == '_' as int
        ||| byte == '+' as int
        ||| byte == '.' as int
    }) by {
    }
}

/// A committed text is accepted if it inserts or deletes something, is neither too long nor deletes too
/// much, and its tags are in order: each may be left out, but the language of a text that would rather be
/// typed may not.
pub proof fn committed_texts_change_something(input: KeyboardInput, text: CommittedText)
    requires
        input.protocol_version == 1,
        input.input_epoch != 0,
        input.sequence != 0,
        input.union == Some(KeyboardInputUnion::CommittedText(text)),
    ensures
        verdict(keyboard_input_fault(input)) is Ok <==> {
            &&& text.text@.len() > 0 || text.delete_before_graphemes > 0 || text.delete_after_graphemes > 0
            &&& encode_utf8(text.text@).len() <= 2048
            &&& text.delete_before_graphemes <= 64
            &&& text.delete_after_graphemes <= 64
            &&& text.source_language_tag@.len() > 0 ==> is_source_metadata(text.source_language_tag@, 64)
            &&& text.source_layout_type@.len() > 0 ==> is_source_metadata(text.source_layout_type@, 64)
            &&& text.prefer_physical ==> text.source_language_tag@.len() > 0
        },
{
}

/// A committed text that is refused is told the first thing that is wrong with it.
pub proof fn refused_texts_are_told_why(input: KeyboardInput, text: CommittedText)
    requires
        input.protocol_version == 1,
        input.input_epoch != 0,
        input.sequence != 0,
        input.union == Some(KeyboardInputUnion::CommittedText(text)),
    ensures
        ({
            let result = verdict(keyboard_input_fault(input));
            let empty = text.text@.len() == 0 && text.delete_before_graphemes == 0 && text.delete_after_graphemes == 0;
            let long = encode_utf8(text.text@).len() > 2048;
            let deletes = text.delete_before_graphemes > 64 || text.delete_after_graphemes > 64;
            &&& empty <==> result == Err::<(), KeyboardInputError>(KeyboardInputError::EmptyCommittedText)
            &&& !empty && long <==> result == Err::<(), KeyboardInputError>(KeyboardInputError::CommittedTextTooLarge)
            &&& !empty && !long && deletes <==> result == Err::<(), KeyboardInputError>(
                KeyboardInputError::TextDeletionTooLarge,
            )
            &&& result == Err::<(), KeyboardInputError>(KeyboardInputError::InvalidSourceLayoutType) ==> {
                &&& text.source_layout_type@.len() > 0
                &&& !is_source_metadata(text.source_layout_type@, 64)
            }
            &&& result == Err::<(), KeyboardInputError>(KeyboardInputError::InvalidSourceLanguageTag) ==> (
            text.source_language_tag@.len() == 0 && text.prefer_physical) || !is_source_metadata(
                text.source_language_tag@,
                64,
            )
        }),
{
    if text.text@.len() == 0 {
        assert(text.text@ =~= Seq::<char>::empty());
    }
}

/// Each mode goes by its name.
pub proof fn modes_go_by_their_names(mode: KeyboardMode)
    ensures
        mode is Legacy <==> mode.spec_name() == "legacy"@,
        mode is Mapped <==> mode.spec_name() == "map"@,
        mode is Translate <==> mode.spec_name() == "translate"@,
        mode is Auto <==> mode.spec_name() == "auto"@,
{
    reveal_strlit("legacy");
    reveal_strlit("map");
    reveal_strlit("translate");
    reveal_strlit("auto");
    assert("legacy"@.len() == 6);
    assert("map"@.len() == 3);
    assert("translate"@.len() == 9);
    assert("auto"@.len() == 4);
}

/// Every modifier and every lock has a bit of its own, and together they are what is known.
pub proof fn every_modifier_has_its_bit()
    ensures
        KEYBOARD_MODIFIER_SHIFT == 1 && KEYBOARD_MODIFIER_CONTROL == 2,
        KEYBOARD_MODIFIER_ALT == 4 && KEYBOARD_MODIFIER_META == 8,
        KEYBOARD_MODIFIER_SHIFT + KEYBOARD_MODIFIER_CONTROL + KEYBOARD_MODIFIER_ALT + KEYBOARD_MODIFIER_META
            == KNOWN_KEYBOARD_MODIFIER_MASK,
        KEYBOARD_LOCK_CAPS == 1 && KEYBOARD_LOCK_NUM == 2 && KEYBOARD_LOCK_SCROLL == 4,
        KEYBOARD_LOCK_CAPS + KEYBOARD_LOCK_NUM + KEYBOARD_LOCK_SCROLL == KNOWN_KEYBOARD_LOCK_MASK,
{
}

} // verus!
