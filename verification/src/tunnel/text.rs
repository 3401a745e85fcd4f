//! Messages and errors as text, for logs.

use vstd::prelude::*;
use vstd::string::StringExecFns;

use crate::tunnel::message::{Msg, MsgKind, MsgView};
use crate::tunnel::session::TopicError;
use crate::tunnel::wire::{be16, be32, FrameError};

verus! {

/// The character of a digit below sixteen, in lower case.
pub open spec fn digit_char(d: nat) -> char {
    if d < 10 {
        (0x30 + d) as char
    } else {
        (0x61 + d - 10) as char
    }
}

/// The decimal digits of a number, without leading zeros.
pub open spec fn decimal_digits(n: nat) -> Seq<char>
    decreases n,
{
    if n < 10 {
        seq![digit_char(n)]
    } else {
        decimal_digits(n / 10).push(digit_char(n % 10))
    }
}

/// The hexadecimal digits of a number, in lower case and without leading
/// zeros.
pub open spec fn hex_digits(n: nat) -> Seq<char>
    decreases n,
{
    if n < 16 {
        seq![digit_char(n)]
    } else {
        hex_digits(n / 16).push(digit_char(n % 16))
    }
}

/// A number as `0x` and its hexadecimal digits.
pub open spec fn hex_text(n: nat) -> Seq<char> {
    "0x"@ + hex_digits(n)
}

/// A number as `0x` and at least two hexadecimal digits.
pub open spec fn wide_hex_text(n: nat) -> Seq<char> {
    if n < 16 {
        "0x0"@ + hex_digits(n)
    } else {
        "0x"@ + hex_digits(n)
    }
}

/// One line for each byte: four spaces, the byte in hexadecimal, a comma.
pub open spec fn byte_lines(bytes: Seq<u8>) -> Seq<char>
    decreases bytes.len(),
{
    if bytes.len() == 0 {
        Seq::empty()
    } else {
        byte_lines(bytes.drop_last()) + "    "@ + hex_text(bytes.last() as nat) + ",\n"@
    }
}

/// A list of bytes, one to a line, in brackets; `[]` where there is none.
pub open spec fn byte_list(bytes: Seq<u8>) -> Seq<char> {
    if bytes.len() == 0 {
        "[]"@
    } else {
        "[\n"@ + byte_lines(bytes) + "]"@
    }
}

/// The dump of a message: a heading and one entry for each field, with the
/// numbers in decimal and, byte for byte, as they are written on the wire.
pub open spec fn msg_text(m: MsgView) -> Seq<char> {
    "Antunnel message dump:\n"@ + "Kind: "@ + m.kind.label() + " - ["@ + hex_text(
        m.kind.code() as nat,
    ) + "]\n"@ + "Channel ID: "@ + decimal_digits(m.channel_id as nat) + " - "@ + byte_list(
        be16(m.channel_id),
    ) + "\n"@ + "Client ID: "@ + decimal_digits(m.client_id as nat) + " - "@ + byte_list(
        be16(m.client_id),
    ) + "\n"@ + "Data size: "@ + decimal_digits(m.size as nat) + " - "@ + byte_list(be32(m.size))
        + "\n"@ + "Data : "@ + byte_list(m.data) + "\n"@
}

/// What a framing error says.
pub open spec fn frame_error_text(e: FrameError) -> Seq<char> {
    match e {
        FrameError::Truncated => "failed to fill whole buffer"@,
        FrameError::BadMarker { expected, found } => "Read number mismatched, expected "@
            + wide_hex_text(expected as nat) + " got "@ + wide_hex_text(found as nat),
        FrameError::InvalidKind { code } => "Invalid msg type "@ + hex_text(code as nat),
    }
}

/// What an error of a topic says.
pub open spec fn topic_error_text(e: TopicError) -> Seq<char> {
    match e {
        TopicError::NotConnected => "Channel is not created"@,
        TopicError::WrongState => "Channel is not in a state to be opened"@,
        TopicError::Rejected(kind) =>
            "Channel is not created. Tunnel service responds with msg of type "@ + kind.label(),
        TopicError::TokensExhausted => "No token is left for the descriptor"@,
        TopicError::NotPlanned => "The registration was not planned"@,
    }
}

/// The label of a kind is its code in hexadecimal.
pub proof fn lemma_label_is_hex(kind: MsgKind)
    ensures
        kind.label() == hex_text(kind.code() as nat),
{
    reveal_strlit("0x");
    reveal_strlit("0x0");
    reveal_strlit("0x1");
    reveal_strlit("0x2");
    reveal_strlit("0x3");
    reveal_strlit("0x4");
    reveal_strlit("0x5");
    reveal_strlit("0x6");
    reveal_strlit("0x7");
    reveal_strlit("0xa");
    reveal_strlit("0xff");
    reveal_with_fuel(hex_digits, 2);
    assert(kind.label() =~= hex_text(kind.code() as nat));
}

fn digit(d: u8) -> (c: char)
    requires
        d < 16,
    ensures
        c == digit_char(d as nat),
{
    if d < 10 {
        (0x30 + d) as char
    } else {
        (0x61 + d - 10) as char
    }
}

fn push_decimal(out: &mut String, n: u32)
    ensures
        final(out)@ == old(out)@ + decimal_digits(n as nat),
    decreases n,
{
    if n >= 10 {
        push_decimal(out, n / 10);
    }
    out.push(digit((n % 10) as u8));
    assert(out@ =~= old(out)@ + decimal_digits(n as nat));
}

fn push_hex_digits(out: &mut String, n: u32)
    ensures
        final(out)@ == old(out)@ + hex_digits(n as nat),
    decreases n,
{
    if n >= 16 {
        push_hex_digits(out, n / 16);
    }
    out.push(digit((n % 16) as u8));
    assert(out@ =~= old(out)@ + hex_digits(n as nat));
}

fn push_hex(out: &mut String, n: u32)
    ensures
        final(out)@ == old(out)@ + hex_text(n as nat),
{
    out.append("0x");
    push_hex_digits(out, n);
    assert(out@ =~= old(out)@ + hex_text(n as nat));
}

fn push_wide_hex(out: &mut String, n: u32)
    ensures
        final(out)@ == old(out)@ + wide_hex_text(n as nat),
{
    if n < 16 {
        out.append("0x0");
    } else {
        out.append("0x");
    }
    push_hex_digits(out, n);
    assert(out@ =~= old(out)@ + wide_hex_text(n as nat));
}

fn push_byte_list(out: &mut String, bytes: &[u8])
    ensures
        final(out)@ == old(out)@ + byte_list(bytes@),
{
    if bytes.len() == 0 {
        out.append("[]");
        return ;
    }
    out.append("[\n");
    let mut i: usize = 0;
    assert(bytes@.take(0) =~= Seq::<u8>::empty());
    assert(out@ =~= old(out)@ + "[\n"@ + byte_lines(bytes@.take(0)));
    while i < bytes.len()
        invariant
            i <= bytes.len(),
            out@ == old(out)@ + "[\n"@ + byte_lines(bytes@.take(i as int)),
        decreases bytes.len() - i,
    {
        let ghost before = out@;
        out.append("    ");
        push_hex(out, bytes[i] as u32);
        out.append(",\n");
        i = i + 1;
        proof {
            let upto = bytes@.take(i as int);
            assert(upto.drop_last() =~= bytes@.take(i - 1));
            assert(upto.last() == bytes@[i - 1]);
            assert(out@ =~= old(out)@ + "[\n"@ + byte_lines(upto));
        }
    }
    assert(bytes@.take(i as int) =~= bytes@);
    out.append("]");
    assert(out@ =~= old(out)@ + byte_list(bytes@));
}

fn push_be16_list(out: &mut String, x: u16)
    ensures
        final(out)@ == old(out)@ + byte_list(be16(x)),
{
    let bytes: [u8; 2] = [(x / 0x100) as u8, (x % 0x100) as u8];
    assert(bytes@ =~= be16(x));
    push_byte_list(out, bytes.as_slice());
}

fn push_be32_list(out: &mut String, x: u32)
    ensures
        final(out)@ == old(out)@ + byte_list(be32(x)),
{
    let bytes: [u8; 4] = [
        (x / 0x100_0000) as u8,
        (x / 0x1_0000 % 0x100) as u8,
        (x / 0x100 % 0x100) as u8,
        (x % 0x100) as u8,
    ];
    assert(bytes@ =~= be32(x));
    push_byte_list(out, bytes.as_slice());
}

impl Msg {
    /// The message as a dump for the log.
    pub fn to_string(&self) -> (text: String)
        ensures
            text@ == msg_text(self@),
    {
        let mut out = String::from_str("Antunnel message dump:\n");
        out.append("Kind: ");
        out.append(self.kind.to_string().as_str());
        out.append(" - [");
        push_hex(&mut out, MsgKind::to_u8(&self.kind) as u32);
        out.append("]\n");
        let ghost kind_part = out@;
        assert(kind_part =~= "Antunnel message dump:\n"@ + "Kind: "@ + self@.kind.label() + " - ["@
            + hex_text(self@.kind.code() as nat) + "]\n"@);
        out.append("Channel ID: ");
        push_decimal(&mut out, self.channel_id as u32);
        out.append(" - ");
        push_be16_list(&mut out, self.channel_id);
        out.append("\n");
        let ghost channel_part = out@;
        assert(channel_part =~= kind_part + "Channel ID: "@ + decimal_digits(
            self@.channel_id as nat,
        ) + " - "@ + byte_list(be16(self@.channel_id)) + "\n"@);
        out.append("Client ID: ");
        push_decimal(&mut out, self.client_id as u32);
        out.append(" - ");
        push_be16_list(&mut out, self.client_id);
        out.append("\n");
        let ghost client_part = out@;
        assert(client_part =~= channel_part + "Client ID: "@ + decimal_digits(
            self@.client_id as nat,
        ) + " - "@ + byte_list(be16(self@.client_id)) + "\n"@);
        out.append("Data size: ");
        push_decimal(&mut out, self.size);
        out.append(" - ");
        push_be32_list(&mut out, self.size);
        out.append("\n");
        let ghost size_part = out@;
        assert(size_part =~= client_part + "Data size: "@ + decimal_digits(self@.size as nat)
            + " - "@ + byte_list(be32(self@.size)) + "\n"@);
        out.append("Data : ");
        push_byte_list(&mut out, self.data.as_slice());
        out.append("\n");
        assert(out@ =~= size_part + "Data : "@ + byte_list(self@.data) + "\n"@);
        out
    }
}

impl FrameError {
    /// The error in words.
    pub fn to_string(&self) -> (text: String)
        ensures
            text@ == frame_error_text(*self),
    {
        match self {
            FrameError::Truncated => String::from_str("failed to fill whole buffer"),
            FrameError::BadMarker { expected, found } => {
                let mut out = String::from_str("Read number mismatched, expected ");
                push_wide_hex(&mut out, *expected as u32);
                out.append(" got ");
                push_wide_hex(&mut out, *found as u32);
                assert(out@ =~= frame_error_text(*self));
                out
            },
            FrameError::InvalidKind { code } => {
                let mut out = String::from_str("Invalid msg type ");
                push_hex(&mut out, *code as u32);
                out
            },
        }
    }
}

impl TopicError {
    /// The error in words.
    pub fn to_string(&self) -> (text: String)
        ensures
            text@ == topic_error_text(*self),
    {
        match self {
            TopicError::NotConnected => String::from_str("Channel is not created"),
            TopicError::WrongState => String::from_str("Channel is not in a state to be opened"),
            TopicError::Rejected(kind) => {
                let mut out = String::from_str(
                    "Channel is not created. Tunnel service responds with msg of type ",
                );
                out.append(kind.to_string().as_str());
                out
            },
            TopicError::TokensExhausted => String::from_str("No token is left for the descriptor"),
            TopicError::NotPlanned => String::from_str("The registration was not planned"),
        }
    }
}

} // verus!
