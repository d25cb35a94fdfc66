use protobuf::{CodedInputStream, CodedOutputStream};
use quic_application::keyboard::{
    validate_keyboard_input, validate_source_layout_metadata, CommittedText, KeyboardInput, KeyboardInputError,
    KeyboardInputUnion, KeyboardMode, ModifierSync, PhysicalKey, KEYBOARD_INPUT_PROTOCOL_VERSION, KEYBOARD_LOCK_CAPS,
    KEYBOARD_LOCK_NUM, KEYBOARD_LOCK_SCROLL, KEYBOARD_MODIFIER_ALT, KEYBOARD_MODIFIER_CONTROL, KEYBOARD_MODIFIER_META,
    KEYBOARD_MODIFIER_SHIFT, KNOWN_KEYBOARD_LOCK_MASK, KNOWN_KEYBOARD_MODIFIER_MASK, MAX_COMMITTED_TEXT_BYTES,
    MAX_SOURCE_LAYOUT_TYPE_BYTES, MAX_TEXT_DELETE_GRAPHEMES,
};

fn base_input() -> KeyboardInput {
    KeyboardInput {
        protocol_version: KEYBOARD_INPUT_PROTOCOL_VERSION,
        input_epoch: 7,
        sequence: 1,
        union: None,
    }
}

fn text_with(text: &str) -> CommittedText {
    CommittedText {
        text: text.to_owned(),
        delete_before_graphemes: 0,
        delete_after_graphemes: 0,
        source_language_tag: String::new(),
        source_layout_type: String::new(),
        prefer_physical: false,
    }
}

fn committed(text: CommittedText) -> KeyboardInput {
    let mut input = base_input();
    input.union = Some(KeyboardInputUnion::CommittedText(text));
    input
}

fn key(key: PhysicalKey) -> KeyboardInput {
    let mut input = base_input();
    input.union = Some(KeyboardInputUnion::PhysicalKey(key));
    input
}

const PLAIN_KEY: PhysicalKey =
    PhysicalKey { usb_hid_usage: 0x04, down: true, repeat: false, modifier_mask: 0, lock_mask: 0 };

#[test]
fn validates_committed_text_and_bounded_edits() {
    let mut text = text_with("Ahoj \u{43c}\u{438}\u{440}");
    text.delete_before_graphemes = 2;
    assert_eq!(validate_keyboard_input(&committed(text)), Ok(()));

    let mut text = text_with(&"x".repeat(MAX_COMMITTED_TEXT_BYTES + 1));
    text.delete_before_graphemes = 2;
    assert_eq!(
        validate_keyboard_input(&committed(text)),
        Err(KeyboardInputError::CommittedTextTooLarge)
    );
}

#[test]
fn validates_source_layout_metadata_without_accepting_unbounded_values() {
    let layout = |language_tag: &str, layout_type: &str| {
        let mut text = text_with("text");
        text.source_language_tag = language_tag.to_owned();
        text.source_layout_type = layout_type.to_owned();
        text.prefer_physical = true;
        committed(text)
    };
    assert_eq!(validate_keyboard_input(&layout("ru-RU", "qwerty")), Ok(()));
    assert_eq!(
        validate_keyboard_input(&layout("ru RU", "qwerty")),
        Err(KeyboardInputError::InvalidSourceLanguageTag)
    );
    assert_eq!(
        validate_keyboard_input(&layout("ru-RU", &"x".repeat(MAX_SOURCE_LAYOUT_TYPE_BYTES + 1))),
        Err(KeyboardInputError::InvalidSourceLayoutType)
    );
}

#[test]
fn rejects_invalid_physical_key_fields() {
    let valid = PhysicalKey {
        usb_hid_usage: 0x04,
        down: true,
        repeat: false,
        modifier_mask: KEYBOARD_MODIFIER_SHIFT,
        lock_mask: KEYBOARD_LOCK_CAPS,
    };
    assert_eq!(validate_keyboard_input(&key(valid)), Ok(()));
    assert_eq!(
        validate_keyboard_input(&key(PhysicalKey { usb_hid_usage: 0x100, ..valid })),
        Err(KeyboardInputError::InvalidUsbHidUsage(0x100))
    );
}

#[test]
fn modifier_sync_can_release_all_modifiers() {
    let mut input = base_input();
    input.union = Some(KeyboardInputUnion::ModifierSync(ModifierSync { modifier_mask: 0, lock_mask: 0 }));
    assert_eq!(validate_keyboard_input(&input), Ok(()));
}

/// Writes an input with committed text as a protobuf message.
fn write_to_bytes(input: &KeyboardInput) -> Vec<u8> {
    let mut nested = Vec::new();
    let mut bytes = Vec::new();
    if let Some(KeyboardInputUnion::CommittedText(text)) = &input.union {
        let mut out = CodedOutputStream::vec(&mut nested);
        out.write_string(1, &text.text).unwrap();
        out.write_uint32(2, text.delete_before_graphemes).unwrap();
        out.write_uint32(3, text.delete_after_graphemes).unwrap();
        out.write_string(4, &text.source_language_tag).unwrap();
        out.write_string(5, &text.source_layout_type).unwrap();
        out.write_bool(6, text.prefer_physical).unwrap();
        out.flush().unwrap();
    }
    let mut out = CodedOutputStream::vec(&mut bytes);
    out.write_uint32(1, input.protocol_version).unwrap();
    out.write_uint64(2, input.input_epoch).unwrap();
    out.write_uint64(3, input.sequence).unwrap();
    out.write_bytes(4, &nested).unwrap();
    out.flush().unwrap();
    drop(out);
    bytes
}

/// Reads an input with committed text from a protobuf message.
fn parse_from_bytes(bytes: &[u8]) -> KeyboardInput {
    let mut input = KeyboardInput { protocol_version: 0, input_epoch: 0, sequence: 0, union: None };
    let mut stream = CodedInputStream::from_bytes(bytes);
    while let Some(tag) = stream.read_raw_tag_or_eof().unwrap() {
        match tag >> 3 {
            1 => input.protocol_version = stream.read_uint32().unwrap(),
            2 => input.input_epoch = stream.read_uint64().unwrap(),
            3 => input.sequence = stream.read_uint64().unwrap(),
            4 => {
                let nested = stream.read_bytes().unwrap();
                let mut text = text_with("");
                let mut stream = CodedInputStream::from_bytes(&nested);
                while let Some(tag) = stream.read_raw_tag_or_eof().unwrap() {
                    match tag >> 3 {
                        1 => text.text = stream.read_string().unwrap(),
                        2 => text.delete_before_graphemes = stream.read_uint32().unwrap(),
                        3 => text.delete_after_graphemes = stream.read_uint32().unwrap(),
                        4 => text.source_language_tag = stream.read_string().unwrap(),
                        5 => text.source_layout_type = stream.read_string().unwrap(),
                        6 => text.prefer_physical = stream.read_bool().unwrap(),
                        field => panic!("unknown field {}", field),
                    }
                }
                input.union = Some(KeyboardInputUnion::CommittedText(text));
            }
            field => panic!("unknown field {}", field),
        }
    }
    input
}

#[test]
fn keyboard_input_round_trips_without_native_struct_deserialization() {
    let mut text = text_with("\u{65e5}\u{672c}\u{8a9e} \u{1f642}");
    text.delete_before_graphemes = 1;
    text.source_language_tag = "ja-JP".to_owned();
    text.source_layout_type = "qwerty".to_owned();
    text.prefer_physical = true;
    let input = committed(text);

    let encoded = write_to_bytes(&input);
    let decoded = parse_from_bytes(&encoded);
    assert_eq!(validate_keyboard_input(&decoded), Ok(()));
    let Some(KeyboardInputUnion::CommittedText(text)) = decoded.union else {
        panic!("missing committed text");
    };
    assert_eq!(text.text, "\u{65e5}\u{672c}\u{8a9e} \u{1f642}");
    assert_eq!(text.delete_before_graphemes, 1);
    assert_eq!(text.source_language_tag, "ja-JP");
    assert_eq!(text.source_layout_type, "qwerty");
    assert!(text.prefer_physical);
}

#[test]
fn head_of_an_input_is_checked_first() {
    let mut input = base_input();
    input.protocol_version = 2;
    input.input_epoch = 0;
    assert_eq!(validate_keyboard_input(&input), Err(KeyboardInputError::UnsupportedVersion(2)));
    let mut input = base_input();
    input.input_epoch = 0;
    input.sequence = 0;
    assert_eq!(validate_keyboard_input(&input), Err(KeyboardInputError::MissingEpoch));
    let mut input = base_input();
    input.sequence = 0;
    assert_eq!(validate_keyboard_input(&input), Err(KeyboardInputError::MissingSequence));
    assert_eq!(validate_keyboard_input(&base_input()), Err(KeyboardInputError::MissingPayload));
}

#[test]
fn committed_text_keeps_its_limits() {
    assert_eq!(validate_keyboard_input(&committed(text_with(""))), Err(KeyboardInputError::EmptyCommittedText));
    let mut delete_only = text_with("");
    delete_only.delete_after_graphemes = MAX_TEXT_DELETE_GRAPHEMES;
    assert_eq!(validate_keyboard_input(&committed(delete_only)), Ok(()));
    let mut too_much = text_with("a");
    too_much.delete_after_graphemes = MAX_TEXT_DELETE_GRAPHEMES + 1;
    assert_eq!(validate_keyboard_input(&committed(too_much)), Err(KeyboardInputError::TextDeletionTooLarge));
    assert_eq!(validate_keyboard_input(&committed(text_with(&"x".repeat(MAX_COMMITTED_TEXT_BYTES)))), Ok(()));
    // The limit counts bytes, not characters.
    assert_eq!(
        validate_keyboard_input(&committed(text_with(&"\u{e9}".repeat(MAX_COMMITTED_TEXT_BYTES / 2 + 1)))),
        Err(KeyboardInputError::CommittedTextTooLarge)
    );
    let mut physical = text_with("a");
    physical.prefer_physical = true;
    assert_eq!(validate_keyboard_input(&committed(physical)), Err(KeyboardInputError::InvalidSourceLanguageTag));
}

#[test]
fn physical_keys_and_masks_keep_their_limits() {
    for usage in [0x04, 0xe7] {
        assert_eq!(validate_keyboard_input(&key(PhysicalKey { usb_hid_usage: usage, ..PLAIN_KEY })), Ok(()));
    }
    for usage in [0x03, 0xe8] {
        assert_eq!(
            validate_keyboard_input(&key(PhysicalKey { usb_hid_usage: usage, ..PLAIN_KEY })),
            Err(KeyboardInputError::InvalidUsbHidUsage(usage))
        );
    }
    assert_eq!(
        validate_keyboard_input(&key(PhysicalKey { down: false, repeat: true, ..PLAIN_KEY })),
        Err(KeyboardInputError::RepeatWithoutKeyDown)
    );
    assert_eq!(
        validate_keyboard_input(&key(PhysicalKey { modifier_mask: 0x1f, ..PLAIN_KEY })),
        Err(KeyboardInputError::InvalidModifierMask(0x10))
    );
    let mut sync = base_input();
    sync.union = Some(KeyboardInputUnion::ModifierSync(ModifierSync { modifier_mask: 0x0f, lock_mask: 0xff }));
    assert_eq!(validate_keyboard_input(&sync), Err(KeyboardInputError::InvalidLockMask(0xf8)));
    assert_eq!(
        KEYBOARD_MODIFIER_SHIFT | KEYBOARD_MODIFIER_CONTROL | KEYBOARD_MODIFIER_ALT | KEYBOARD_MODIFIER_META,
        KNOWN_KEYBOARD_MODIFIER_MASK
    );
    assert_eq!(KEYBOARD_LOCK_CAPS | KEYBOARD_LOCK_NUM | KEYBOARD_LOCK_SCROLL, KNOWN_KEYBOARD_LOCK_MASK);
}

#[test]
fn source_layouts_need_a_language_tag() {
    assert!(validate_source_layout_metadata("en-US", ""));
    assert!(validate_source_layout_metadata("en_US+x.1", "qwertz"));
    assert!(!validate_source_layout_metadata("", "qwertz"));
    assert!(!validate_source_layout_metadata("en-US", "a b"));
    assert!(!validate_source_layout_metadata(&"a".repeat(65), ""));
    assert!(validate_source_layout_metadata(&"a".repeat(64), &"b".repeat(64)));
}

#[test]
fn errors_say_what_went_wrong() {
    assert_eq!(
        KeyboardInputError::UnsupportedVersion(12).message(),
        "unsupported keyboard input protocol version 12"
    );
    assert_eq!(
        KeyboardInputError::InvalidUsbHidUsage(0x100).message(),
        "USB HID keyboard usage 0x100 is outside usage page 0x07"
    );
    assert_eq!(
        KeyboardInputError::InvalidModifierMask(0xabc0).message(),
        "keyboard modifier mask contains unknown bits 0xabc0"
    );
    assert_eq!(KeyboardInputError::CommittedTextTooLarge.message(), "committed text payload exceeds 2048 bytes");
    assert_eq!(KeyboardInputError::TextDeletionTooLarge.message(), "committed text deletion exceeds 64 graphemes");
    assert_eq!(KeyboardInputError::MissingEpoch.message(), "keyboard input epoch must not be zero");
}

#[test]
fn mode_names_lead_back_to_their_modes() {
    let modes: Vec<KeyboardMode> = KeyboardMode::iter().copied().collect();
    assert_eq!(
        modes,
        vec![KeyboardMode::Legacy, KeyboardMode::Mapped, KeyboardMode::Translate, KeyboardMode::Auto]
    );
    for mode in modes {
        assert_eq!(mode.name().parse::<KeyboardMode>(), Ok(mode));
    }
    assert_eq!(KeyboardMode::Mapped.name(), "map");
    assert_eq!(KeyboardMode::from_name("Legacy"), Err(()));
}
