//! The reliable channels of a session.

use super::classify::ApplicationClass;
use crate::text::joined;
use crate::transport::error::{is_protocol_state, QuicTransportError};
use crate::transport::protocol::{MessageType, ReliableChannelKind};
use vstd::prelude::*;

verus! {

pub const CONTROL_OUTBOUND_CAPACITY: usize = 128;

pub const INPUT_OUTBOUND_CAPACITY: usize = 128;

pub const CLIPBOARD_OUTBOUND_CAPACITY: usize = 16;

pub const FILE_OUTBOUND_CAPACITY: usize = 32;

pub const DIAGNOSTICS_OUTBOUND_CAPACITY: usize = 64;

/// The channels of a session. Keyframes have one of their own if they travel reliably.
pub open spec fn channel_kinds(reliable_keyframes: bool) -> Seq<ReliableChannelKind> {
    let always = seq![
        ReliableChannelKind::Control,
        ReliableChannelKind::Input,
        ReliableChannelKind::Clipboard,
        ReliableChannelKind::FileTransfer,
        ReliableChannelKind::Diagnostics,
    ];
    if reliable_keyframes {
        always.push(ReliableChannelKind::Video)
    } else {
        always
    }
}

/// The channels of a session, in the order in which they are opened.
pub fn application_channel_kinds(reliable_keyframes: bool) -> (kinds: Vec<ReliableChannelKind>)
    ensures
        kinds@ == channel_kinds(reliable_keyframes),
{
    let mut channels = vec![
        ReliableChannelKind::Control,
        ReliableChannelKind::Input,
        ReliableChannelKind::Clipboard,
        ReliableChannelKind::FileTransfer,
        ReliableChannelKind::Diagnostics,
    ];
    if reliable_keyframes {
        channels.push(ReliableChannelKind::Video);
    }
    channels
}

/// How many messages may wait for a channel. Keyframes do not wait in a queue.
pub open spec fn spec_outbound_capacity(kind: ReliableChannelKind) -> Option<usize> {
    match kind {
        ReliableChannelKind::Control => Some(CONTROL_OUTBOUND_CAPACITY),
        ReliableChannelKind::Input => Some(INPUT_OUTBOUND_CAPACITY),
        ReliableChannelKind::Clipboard => Some(CLIPBOARD_OUTBOUND_CAPACITY),
        ReliableChannelKind::FileTransfer => Some(FILE_OUTBOUND_CAPACITY),
        ReliableChannelKind::Diagnostics => Some(DIAGNOSTICS_OUTBOUND_CAPACITY),
        ReliableChannelKind::Video => None,
    }
}

/// How many messages may wait for a channel.
pub fn outbound_capacity(kind: ReliableChannelKind) -> (capacity: Option<usize>)
    ensures
        capacity == spec_outbound_capacity(kind),
{
    match kind {
        ReliableChannelKind::Control => Some(CONTROL_OUTBOUND_CAPACITY),
        ReliableChannelKind::Input => Some(INPUT_OUTBOUND_CAPACITY),
        ReliableChannelKind::Clipboard => Some(CLIPBOARD_OUTBOUND_CAPACITY),
        ReliableChannelKind::FileTransfer => Some(FILE_OUTBOUND_CAPACITY),
        ReliableChannelKind::Diagnostics => Some(DIAGNOSTICS_OUTBOUND_CAPACITY),
        ReliableChannelKind::Video => None,
    }
}

/// The channel and the message type of a message that does not travel as a datagram.
pub open spec fn spec_reliable_route(class: ApplicationClass) -> (ReliableChannelKind, MessageType) {
    match class {
        ApplicationClass::Input => (ReliableChannelKind::Input, MessageType::ReliableInput),
        ApplicationClass::Clipboard => (ReliableChannelKind::Clipboard, MessageType::Clipboard),
        ApplicationClass::File => (ReliableChannelKind::FileTransfer, MessageType::FileChunk),
        ApplicationClass::Diagnostics => (ReliableChannelKind::Diagnostics, MessageType::Diagnostics),
        _ => (ReliableChannelKind::Control, MessageType::ApplicationControl),
    }
}

/// The channel and the message type of a message that does not travel as a datagram.
pub fn reliable_route(class: ApplicationClass) -> (route: (ReliableChannelKind, MessageType))
    ensures
        route == spec_reliable_route(class),
{
    match class {
        ApplicationClass::Input => (ReliableChannelKind::Input, MessageType::ReliableInput),
        ApplicationClass::Clipboard => (ReliableChannelKind::Clipboard, MessageType::Clipboard),
        ApplicationClass::File => (ReliableChannelKind::FileTransfer, MessageType::FileChunk),
        ApplicationClass::Diagnostics => (ReliableChannelKind::Diagnostics, MessageType::Diagnostics),
        _ => (ReliableChannelKind::Control, MessageType::ApplicationControl),
    }
}

/// What is sent on a channel is what the reader on the other side takes there.
pub proof fn routed_messages_are_accepted(class: ApplicationClass)
    ensures
        super::classify::channel_carries(spec_reliable_route(class).0, spec_reliable_route(class).1, class),
{
}

/// A channel that has to be there.
pub fn require_channel<C>(channel: Option<C>, name: &'static str) -> (required: Result<C, QuicTransportError>)
    ensures
        match required {
            Ok(found) => channel == Some(found),
            Err(error) => channel is None && is_protocol_state(
                error,
                "missing QUIC "@ + name@ + " application channel"@,
            ),
        },
{
    match channel {
        Some(channel) => Ok(channel),
        None => Err(QuicTransportError::ProtocolState(joined("missing QUIC ", name, " application channel"))),
    }
}

/// The channels of a session, all of them there.
pub struct ApplicationChannels<C> {
    pub control: C,
    pub input: C,
    pub clipboard: C,
    pub file: C,
    pub diagnostics: C,
    pub video: Option<C>,
}

/// The channels of a session while they are being set up.
pub struct ChannelSetup<C> {
    pub control: Option<C>,
    pub input: Option<C>,
    pub clipboard: Option<C>,
    pub file: Option<C>,
    pub diagnostics: Option<C>,
    pub video: Option<C>,
}

impl<C> ChannelSetup<C> {
    /// The channel for a purpose.
    pub open spec fn slot(self, kind: ReliableChannelKind) -> Option<C> {
        match kind {
            ReliableChannelKind::Control => self.control,
            ReliableChannelKind::Input => self.input,
            ReliableChannelKind::Clipboard => self.clipboard,
            ReliableChannelKind::FileTransfer => self.file,
            ReliableChannelKind::Diagnostics => self.diagnostics,
            ReliableChannelKind::Video => self.video,
        }
    }

    /// With a channel for a purpose.
    pub open spec fn with_slot(self, kind: ReliableChannelKind, channel: C) -> ChannelSetup<C> {
        match kind {
            ReliableChannelKind::Control => ChannelSetup { control: Some(channel), ..self },
            ReliableChannelKind::Input => ChannelSetup { input: Some(channel), ..self },
            ReliableChannelKind::Clipboard => ChannelSetup { clipboard: Some(channel), ..self },
            ReliableChannelKind::FileTransfer => ChannelSetup { file: Some(channel), ..self },
            ReliableChannelKind::Diagnostics => ChannelSetup { diagnostics: Some(channel), ..self },
            ReliableChannelKind::Video => ChannelSetup { video: Some(channel), ..self },
        }
    }

    /// No channel is there yet.
    pub fn new() -> (setup: Self)
        ensures
            forall|kind: ReliableChannelKind| (#[trigger] setup.slot(kind)) is None,
    {
        ChannelSetup { control: None, input: None, clipboard: None, file: None, diagnostics: None, video: None }
    }

    /// Adds a channel. A second one for the same purpose is refused.
    pub fn place(&mut self, kind: ReliableChannelKind, channel: C) -> (result: Result<(), QuicTransportError>)
        ensures
            *final(self) == old(self).with_slot(kind, channel),
            match result {
                Ok(_) => old(self).slot(kind) is None,
                Err(error) => old(self).slot(kind) is Some && is_protocol_state(
                    error,
                    "duplicate QUIC application channel"@,
                ),
            },
    {
        let taken;
        match kind {
            ReliableChannelKind::Control => {
                taken = self.control.is_some();
                self.control = Some(channel);
            },
            ReliableChannelKind::Input => {
                taken = self.input.is_some();
                self.input = Some(channel);
            },
            ReliableChannelKind::Clipboard => {
                taken = self.clipboard.is_some();
                self.clipboard = Some(channel);
            },
            ReliableChannelKind::FileTransfer => {
                taken = self.file.is_some();
                self.file = Some(channel);
            },
            ReliableChannelKind::Diagnostics => {
                taken = self.diagnostics.is_some();
                self.diagnostics = Some(channel);
            },
            ReliableChannelKind::Video => {
                taken = self.video.is_some();
                self.video = Some(channel);
            },
        }
        if taken {
            return Err(QuicTransportError::ProtocolState("duplicate QUIC application channel".to_owned()));
        }
        Ok(())
    }

    /// The name of the first channel that is missing.
    pub open spec fn missing(self, reliable_keyframes: bool) -> Option<Seq<char>> {
        if self.control is None {
            Some("control"@)
        } else if self.input is None {
            Some("input"@)
        } else if self.clipboard is None {
            Some("clipboard"@)
        } else if self.file is None {
            Some("file"@)
        } else if self.diagnostics is None {
            Some("diagnostics"@)
        } else if reliable_keyframes && self.video is None {
            Some("reliable video"@)
        } else {
            None
        }
    }

    /// All channels of the session, or the first one that is missing.
    pub fn finish(self, reliable_keyframes: bool) -> (channels: Result<ApplicationChannels<C>, QuicTransportError>)
        ensures
            match channels {
                Ok(channels) => {
                    &&& self.missing(reliable_keyframes) is None
                    &&& self.control == Some(channels.control)
                    &&& self.input == Some(channels.input)
                    &&& self.clipboard == Some(channels.clipboard)
                    &&& self.file == Some(channels.file)
                    &&& self.diagnostics == Some(channels.diagnostics)
                    &&& channels.video == if reliable_keyframes {
                        self.video
                    } else {
                        None
                    }
                },
                Err(error) => self.missing(reliable_keyframes) matches Some(name) && is_protocol_state(
                    error,
                    "missing QUIC "@ + name + " application channel"@,
                ),
            },
    {
        let control = match require_channel(self.control, "control") {
            Ok(channel) => channel,
            Err(error) => {
                return Err(error);
            },
        };
        let input = match require_channel(self.input, "input") {
            Ok(channel) => channel,
            Err(error) => {
                return Err(error);
            },
        };
        let clipboard = match require_channel(self.clipboard, "clipboard") {
            Ok(channel) => channel,
            Err(error) => {
                return Err(error);
            },
        };
        let file = match require_channel(self.file, "file") {
            Ok(channel) => channel,
            Err(error) => {
                return Err(error);
            },
        };
        let diagnostics = match require_channel(self.diagnostics, "diagnostics") {
            Ok(channel) => channel,
            Err(error) => {
                return Err(error);
            },
        };
        let video = if reliable_keyframes {
            match require_channel(self.video, "reliable video") {
                Ok(channel) => Some(channel),
                Err(error) => {
                    return Err(error);
                },
            }
        } else {
            None
        };
        Ok(ApplicationChannels { control, input, clipboard, file, diagnostics, video })
    }
}

/// Once a channel of every kind that the session has is there, none is missing.
pub proof fn all_kinds_make_a_session<C>(setup: ChannelSetup<C>, reliable_keyframes: bool)
    requires
        forall|i: int|
            0 <= i < channel_kinds(reliable_keyframes).len() ==> setup.slot(
                #[trigger] channel_kinds(reliable_keyframes)[i],
            ) is Some,
    ensures
        setup.missing(reliable_keyframes) is None,
{
    let kinds = channel_kinds(reliable_keyframes);
    assert(setup.slot(kinds[0]) is Some);
    assert(setup.slot(kinds[1]) is Some);
    assert(setup.slot(kinds[2]) is Some);
    assert(setup.slot(kinds[3]) is Some);
    assert(setup.slot(kinds[4]) is Some);
    if reliable_keyframes {
        assert(setup.slot(kinds[5]) is Some);
    }
}

/// A session has a channel for each purpose, and each once; one for keyframes exactly if they travel reliably.
pub proof fn every_purpose_has_one_channel(reliable_keyframes: bool, kind: ReliableChannelKind)
    ensures
        channel_kinds(reliable_keyframes).contains(kind) <==> (kind is Video ==> reliable_keyframes),
        channel_kinds(reliable_keyframes).no_duplicates(),
        channel_kinds(reliable_keyframes)[0] is Control,
        channel_kinds(reliable_keyframes).len() == if reliable_keyframes {
            6int
        } else {
            5
        },
{
    let kinds = channel_kinds(reliable_keyframes);
    assert(kinds[0] is Control && kinds[1] is Input && kinds[2] is Clipboard && kinds[3] is FileTransfer
        && kinds[4] is Diagnostics);
    if reliable_keyframes {
        assert(kinds[5] is Video);
    }
}

/// A message that does not travel as a datagram goes on the channel of its kind and under its type; what has no
/// channel of its own is control.
pub proof fn messages_go_on_the_channel_of_their_kind(class: ApplicationClass)
    ensures
        spec_reliable_route(class).0 is Input <==> class == ApplicationClass::Input,
        spec_reliable_route(class).0 is Clipboard <==> class == ApplicationClass::Clipboard,
        spec_reliable_route(class).0 is FileTransfer <==> class == ApplicationClass::File,
        spec_reliable_route(class).0 is Diagnostics <==> class == ApplicationClass::Diagnostics,
        !(spec_reliable_route(class).0 is Video),
        match spec_reliable_route(class).0 {
            ReliableChannelKind::Control => spec_reliable_route(class).1 is ApplicationControl,
            ReliableChannelKind::Input => spec_reliable_route(class).1 is ReliableInput,
            ReliableChannelKind::Clipboard => spec_reliable_route(class).1 is Clipboard,
            ReliableChannelKind::FileTransfer => spec_reliable_route(class).1 is FileChunk,
            ReliableChannelKind::Diagnostics => spec_reliable_route(class).1 is Diagnostics,
            ReliableChannelKind::Video => false,
        },
{
}

/// How much may wait: many control messages and inputs, few of what is copied, and no keyframes.
pub proof fn queues_have_their_room(kind: ReliableChannelKind)
    ensures
        kind is Control || kind is Input <==> spec_outbound_capacity(kind) == Some(128usize),
        kind is Clipboard <==> spec_outbound_capacity(kind) == Some(16usize),
        kind is FileTransfer <==> spec_outbound_capacity(kind) == Some(32usize),
        kind is Diagnostics <==> spec_outbound_capacity(kind) == Some(64usize),
        kind is Video <==> spec_outbound_capacity(kind) is None,
{
}

/// A channel that is placed is found under its own purpose, and no other purpose is touched.
pub proof fn placed_channels_are_found<C>(
    setup: ChannelSetup<C>,
    kind: ReliableChannelKind,
    channel: C,
    other: ReliableChannelKind,
)
    ensures
        setup.with_slot(kind, channel).slot(kind) == Some(channel),
        other != kind ==> setup.with_slot(kind, channel).slot(other) == setup.slot(other),
{
}

/// A session is complete if and only if a channel of every purpose is there, the one for keyframes only if they
/// travel reliably; otherwise the first one that is missing is named.
pub proof fn sessions_need_every_channel<C>(setup: ChannelSetup<C>, reliable_keyframes: bool)
    ensures
        setup.missing(reliable_keyframes) is None <==> {
            &&& setup.control is Some
            &&& setup.input is Some
            &&& setup.clipboard is Some
            &&& setup.file is Some
            &&& setup.diagnostics is Some
            &&& reliable_keyframes ==> setup.video is Some
        },
        setup.control is None ==> setup.missing(reliable_keyframes) == Some("control"@),
        setup.control is Some && setup.input is None ==> setup.missing(reliable_keyframes) == Some("input"@),
        setup.control is Some && setup.input is Some && setup.clipboard is None ==> setup.missing(reliable_keyframes)
            == Some("clipboard"@),
        setup.control is Some && setup.input is Some && setup.clipboard is Some && setup.file is None ==> setup.missing(
            reliable_keyframes,
        ) == Some("file"@),
        setup.control is Some && setup.input is Some && setup.clipboard is Some && setup.file is Some
            && setup.diagnostics is None ==> setup.missing(reliable_keyframes) == Some("diagnostics"@),
{
}

} // verus!
