//! What the parts of the transport say to each other.

use vstd::prelude::*;

verus! {

/// Identifies one session between two peers.
pub type SessionId = [u8; 16];

/// The kind of a framed message.
#[derive(Clone, Copy, Debug, PartialEq, Eq, Structural)]
pub enum MessageType {
    SessionOffer,
    SessionAccept,
    ApplicationControl,
    ApplicationRaw,
    VideoOrdering,
    VideoOrderingAck,
    ReliableInput,
    Clipboard,
    FileChunk,
    Diagnostics,
    ReliableVideoFrame,
    VideoFragment,
    AudioPacket,
    MouseMovement,
}

impl MessageType {
    /// The name of the kind.
    pub open spec fn spec_name(self) -> Seq<char> {
        match self {
            MessageType::SessionOffer => "SessionOffer"@,
            MessageType::SessionAccept => "SessionAccept"@,
            MessageType::ApplicationControl => "ApplicationControl"@,
            MessageType::ApplicationRaw => "ApplicationRaw"@,
            MessageType::VideoOrdering => "VideoOrdering"@,
            MessageType::VideoOrderingAck => "VideoOrderingAck"@,
            MessageType::ReliableInput => "ReliableInput"@,
            MessageType::Clipboard => "Clipboard"@,
            MessageType::FileChunk => "FileChunk"@,
            MessageType::Diagnostics => "Diagnostics"@,
            MessageType::ReliableVideoFrame => "ReliableVideoFrame"@,
            MessageType::VideoFragment => "VideoFragment"@,
            MessageType::AudioPacket => "AudioPacket"@,
            MessageType::MouseMovement => "MouseMovement"@,
        }
    }

    /// The name of the kind.
    pub fn name(self) -> (name: &'static str)
        ensures
            name@ == self.spec_name(),
    {
        match self {
            MessageType::SessionOffer => "SessionOffer",
            MessageType::SessionAccept => "SessionAccept",
            MessageType::ApplicationControl => "ApplicationControl",
            MessageType::ApplicationRaw => "ApplicationRaw",
            MessageType::VideoOrdering => "VideoOrdering",
            MessageType::VideoOrderingAck => "VideoOrderingAck",
            MessageType::ReliableInput => "ReliableInput",
            MessageType::Clipboard => "Clipboard",
            MessageType::FileChunk => "FileChunk",
            MessageType::Diagnostics => "Diagnostics",
            MessageType::ReliableVideoFrame => "ReliableVideoFrame",
            MessageType::VideoFragment => "VideoFragment",
            MessageType::AudioPacket => "AudioPacket",
            MessageType::MouseMovement => "MouseMovement",
        }
    }
}

/// The purpose of a reliable channel.
#[derive(Clone, Copy, Debug, PartialEq, Eq, Structural)]
pub enum ReliableChannelKind {
    Control,
    Input,
    Clipboard,
    FileTransfer,
    Diagnostics,
    Video,
}

impl ReliableChannelKind {
    /// The name of the purpose.
    pub open spec fn spec_name(self) -> Seq<char> {
        match self {
            ReliableChannelKind::Control => "Control"@,
            ReliableChannelKind::Input => "Input"@,
            ReliableChannelKind::Clipboard => "Clipboard"@,
            ReliableChannelKind::FileTransfer => "FileTransfer"@,
            ReliableChannelKind::Diagnostics => "Diagnostics"@,
            ReliableChannelKind::Video => "Video"@,
        }
    }

    /// The name of the purpose.
    pub fn name(self) -> (name: &'static str)
        ensures
            name@ == self.spec_name(),
    {
        match self {
            ReliableChannelKind::Control => "Control",
            ReliableChannelKind::Input => "Input",
            ReliableChannelKind::Clipboard => "Clipboard",
            ReliableChannelKind::FileTransfer => "FileTransfer",
            ReliableChannelKind::Diagnostics => "Diagnostics",
            ReliableChannelKind::Video => "Video",
        }
    }
}

/// The version of the application protocol that both peers speak.
#[derive(Clone, Copy, Debug, PartialEq, Eq, Structural)]
pub enum QuicApplicationProtocol {
    V1,
    V2,
    V3,
    V4,
}

impl QuicApplicationProtocol {
    /// The number of the version.
    pub open spec fn spec_number(self) -> u16 {
        match self {
            QuicApplicationProtocol::V1 => 1,
            QuicApplicationProtocol::V2 => 2,
            QuicApplicationProtocol::V3 => 3,
            QuicApplicationProtocol::V4 => 4,
        }
    }

    /// The number of the version.
    pub fn number(self) -> (number: u16)
        ensures
            number == self.spec_number(),
    {
        match self {
            QuicApplicationProtocol::V1 => 1,
            QuicApplicationProtocol::V2 => 2,
            QuicApplicationProtocol::V3 => 3,
            QuicApplicationProtocol::V4 => 4,
        }
    }

    /// Whether keyframes may travel on a reliable channel of their own.
    pub fn supports_reliable_keyframes(self) -> (supported: bool)
        ensures
            supported == (self.spec_number() >= 2),
    {
        self.number() >= 2
    }

    /// Whether a refresh may name the stream that it is for.
    pub fn supports_scoped_video_reference_refresh(self) -> (supported: bool)
        ensures
            supported == (self.spec_number() >= 3),
    {
        self.number() >= 3
    }

    /// Whether deltas are held back until the keyframe they refer to has arrived.
    pub fn supports_reliable_keyframe_barrier(self) -> (supported: bool)
        ensures
            supported == (self.spec_number() >= 4),
    {
        self.number() >= 4
    }
}

/// How a mouse movement gives its coordinates.
#[derive(Clone, Copy, Debug, PartialEq, Eq, Structural)]
pub enum MouseMovementMode {
    Absolute,
    Relative,
}

/// The codec of an audio packet.
#[derive(Clone, Copy, Debug, PartialEq, Eq, Structural)]
pub enum AudioCodec {
    Opus,
}

/// The protocols are numbered from one on, each after the one before it.
pub proof fn protocols_are_numbered(protocol: QuicApplicationProtocol)
    ensures
        protocol is V1 <==> protocol.spec_number() == 1,
        protocol is V2 <==> protocol.spec_number() == 2,
        protocol is V3 <==> protocol.spec_number() == 3,
        protocol is V4 <==> protocol.spec_number() == 4,
{
}

} // verus!
