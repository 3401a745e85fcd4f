//! The in-memory model of a tunnel message.

use vstd::prelude::*;
use vstd::string::StringExecFns;

verus! {

/// The verb of a message.
///
/// `ChannelUnsubscribeAll` and `Unknown` exist only in memory: a session
/// hands `ChannelUnsubscribeAll` to its callback during teardown, and
/// `Unknown` stands for every byte that names no kind. Neither is accepted
/// when a frame is read.
#[derive(Clone, Copy, Debug, PartialEq, Eq, Hash, Structural)]
pub enum MsgKind {
    /// Handshake acknowledgement.
    ChannelOk,
    /// Error report.
    ChannelError,
    /// Handshake request; the payload is the topic name.
    ChannelOpen,
    /// Close notice.
    ChannelClose,
    /// Application bytes.
    ChannelData,
    /// A client left the channel.
    ChannelUnsubscribe,
    /// A client joined the channel.
    ChannelSubscribe,
    /// Control message.
    ChannelCtrl,
    /// Every client is to be dropped; synthesized locally.
    ChannelUnsubscribeAll,
    /// No known kind.
    Unknown,
}

impl MsgKind {
    /// The byte that stands for this kind.
    pub open spec fn code(self) -> u8 {
        match self {
            MsgKind::ChannelOk => 0x0,
            MsgKind::ChannelError => 0x1,
            MsgKind::ChannelSubscribe => 0x2,
            MsgKind::ChannelUnsubscribe => 0x3,
            MsgKind::ChannelOpen => 0x4,
            MsgKind::ChannelClose => 0x5,
            MsgKind::ChannelData => 0x6,
            MsgKind::ChannelCtrl => 0x7,
            MsgKind::ChannelUnsubscribeAll => 0xA,
            MsgKind::Unknown => 0xFF,
        }
    }

    /// The kind that a byte stands for; `Unknown` for a byte that names none.
    pub open spec fn of_code(value: u8) -> MsgKind {
        if value == 0x0 {
            MsgKind::ChannelOk
        } else if value == 0x1 {
            MsgKind::ChannelError
        } else if value == 0x2 {
            MsgKind::ChannelSubscribe
        } else if value == 0x3 {
            MsgKind::ChannelUnsubscribe
        } else if value == 0x4 {
            MsgKind::ChannelOpen
        } else if value == 0x5 {
            MsgKind::ChannelClose
        } else if value == 0x6 {
            MsgKind::ChannelData
        } else if value == 0x7 {
            MsgKind::ChannelCtrl
        } else if value == 0xA {
            MsgKind::ChannelUnsubscribeAll
        } else {
            MsgKind::Unknown
        }
    }

    /// Whether a byte is the code of some kind.
    pub open spec fn names_a_kind(value: u8) -> bool {
        value <= 0x7 || value == 0xA || value == 0xFF
    }

    /// The code written in hexadecimal, as the kind is shown in logs.
    pub open spec fn label(self) -> Seq<char> {
        match self {
            MsgKind::ChannelOk => "0x0"@,
            MsgKind::ChannelError => "0x1"@,
            MsgKind::ChannelSubscribe => "0x2"@,
            MsgKind::ChannelUnsubscribe => "0x3"@,
            MsgKind::ChannelOpen => "0x4"@,
            MsgKind::ChannelClose => "0x5"@,
            MsgKind::ChannelData => "0x6"@,
            MsgKind::ChannelCtrl => "0x7"@,
            MsgKind::ChannelUnsubscribeAll => "0xa"@,
            MsgKind::Unknown => "0xff"@,
        }
    }

    /// Converts a byte to the kind it stands for.
    pub fn from_u8(value: u8) -> (kind: Self)
        ensures
            kind == Self::of_code(value),
            kind.code() == value <==> Self::names_a_kind(value),
            !Self::names_a_kind(value) ==> kind == MsgKind::Unknown,
    {
        match value {
            0x0 => MsgKind::ChannelOk,
            0x1 => MsgKind::ChannelError,
            0x2 => MsgKind::ChannelSubscribe,
            0x3 => MsgKind::ChannelUnsubscribe,
            0x4 => MsgKind::ChannelOpen,
            0x5 => MsgKind::ChannelClose,
            0x6 => MsgKind::ChannelData,
            0x7 => MsgKind::ChannelCtrl,
            0xA => MsgKind::ChannelUnsubscribeAll,
            _ => MsgKind::Unknown,
        }
    }

    /// Converts a kind to the byte that stands for it.
    pub fn to_u8(kind: &Self) -> (code: u8)
        ensures
            code == kind.code(),
            Self::names_a_kind(code),
            Self::of_code(code) == *kind,
    {
        match kind {
            MsgKind::ChannelOk => 0x0,
            MsgKind::ChannelError => 0x1,
            MsgKind::ChannelSubscribe => 0x2,
            MsgKind::ChannelUnsubscribe => 0x3,
            MsgKind::ChannelOpen => 0x4,
            MsgKind::ChannelClose => 0x5,
            MsgKind::ChannelData => 0x6,
            MsgKind::ChannelCtrl => 0x7,
            MsgKind::ChannelUnsubscribeAll => 0xA,
            MsgKind::Unknown => 0xFF,
        }
    }

    /// The code of the kind as text: `0x` and the hexadecimal digits, in
    /// lower case and without leading zeros.
    pub fn to_string(&self) -> (text: String)
        ensures
            text@ == self.label(),
    {
        match self {
            MsgKind::ChannelOk => String::from_str("0x0"),
            MsgKind::ChannelError => String::from_str("0x1"),
            MsgKind::ChannelSubscribe => String::from_str("0x2"),
            MsgKind::ChannelUnsubscribe => String::from_str("0x3"),
            MsgKind::ChannelOpen => String::from_str("0x4"),
            MsgKind::ChannelClose => String::from_str("0x5"),
            MsgKind::ChannelData => String::from_str("0x6"),
            MsgKind::ChannelCtrl => String::from_str("0x7"),
            MsgKind::ChannelUnsubscribeAll => String::from_str("0xa"),
            MsgKind::Unknown => String::from_str("0xff"),
        }
    }
}

/// One protocol message.
#[derive(Clone, Debug, PartialEq, Eq)]
pub struct Msg {
    /// The verb of the message.
    pub kind: MsgKind,
    /// The logical channel; a client always sends 0.
    pub channel_id: u16,
    /// The remote subscriber concerned; 0 where none is.
    pub client_id: u16,
    /// The length of the payload, as it is carried on the wire.
    pub size: u32,
    /// The payload.
    pub data: Vec<u8>,
}

/// The mathematical value of a message: its fields, with the payload as a
/// sequence.
pub struct MsgView {
    pub kind: MsgKind,
    pub channel_id: u16,
    pub client_id: u16,
    pub size: u32,
    pub data: Seq<u8>,
}

impl MsgView {
    /// The declared size is the length of the payload.
    pub open spec fn wf(self) -> bool {
        self.size as int == self.data.len()
    }
}

impl View for Msg {
    type V = MsgView;

    open spec fn view(&self) -> MsgView {
        MsgView {
            kind: self.kind,
            channel_id: self.channel_id,
            client_id: self.client_id,
            size: self.size,
            data: self.data@,
        }
    }
}

impl Msg {
    /// Builds a message around a payload.
    ///
    /// The size is the length of the payload; a payload longer than a `u32`
    /// can count has its length reduced modulo 2^32, and only then is the
    /// message not well formed.
    pub fn create(kind: MsgKind, channel_id: u16, client_id: u16, data: Vec<u8>) -> (msg: Self)
        ensures
            msg@.kind == kind,
            msg@.channel_id == channel_id,
            msg@.client_id == client_id,
            msg@.data == data@,
            msg@.size as int == data@.len() % 0x1_0000_0000,
            data@.len() <= u32::MAX ==> msg@.wf(),
    {
        let len: u64 = data.len() as u64;
        let size: u32 = (len % 0x1_0000_0000) as u32;
        Msg { kind, channel_id, client_id, size, data }
    }
}

} // verus!
