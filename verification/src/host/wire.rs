//! Messages on a TCP stream and on the bulk endpoints of a USB device.

use crate::protocol::bytes;
use crate::protocol::bytes::{copy_bytes, copy_range};
use crate::protocol::command;
use crate::protocol::command::HdcCommand;
use crate::protocol::config::{HDC_BUF_MAX_SIZE, TaskMessage, TaskMessageView, USB_OPTION_HEADER, USB_OPTION_RESET, USB_PACKET_FLAG};
use crate::protocol::error::CodecError;
use crate::protocol::packet;
use crate::protocol::packet::{concat_pack, unpack_payload_head, unpack_payload_protect};
use crate::protocol::serializer;
use crate::protocol::serializer::{HEAD_SIZE, HdcDeserialize, HdcSerialize, PayloadProtectView, USB_HEAD_SIZE, UsbHead, UsbHeadView};
use crate::text;
use crate::text::{concat2, decimal_text};
use vstd::prelude::*;

verus! {

// ---------------------------------------------------------------------------
// TCP
// ---------------------------------------------------------------------------

/// The sizes of what follows the head of a packet: the protection block, the payload.
pub open spec fn sizes_in(head: Seq<u8>) -> Result<(usize, usize), CodecError> {
    match packet::head_in(head) {
        Err(e) => Err(e),
        Ok(h) => Ok((h.head_size as usize, h.data_size as usize)),
    }
}

/// The sizes of what follows the head of a packet, of whatever size they are.
pub fn frame_sizes(head: &[u8]) -> (r: Result<(usize, usize), CodecError>)
    ensures
        r == sizes_in(head@),
{
    match unpack_payload_head(head) {
        Err(e) => Err(e),
        Ok(h) => Ok((h.head_size as usize, h.data_size as usize)),
    }
}

/// The sizes of what follows the head of a packet, where they are those of a message.
pub open spec fn message_sizes(head: Seq<u8>) -> Result<(usize, usize), CodecError> {
    match sizes_in(head) {
        Err(e) => Err(e),
        Ok((p, d)) => if p + d == 0 || p + d > HDC_BUF_MAX_SIZE {
            Err(CodecError::PacketSize)
        } else {
            Ok((p, d))
        },
    }
}

/// The sizes of what follows the head of a packet, where they are those of a message.
pub fn checked_sizes(head: &[u8]) -> (r: Result<(usize, usize), CodecError>)
    ensures
        r == message_sizes(head@),
{
    match frame_sizes(head) {
        Err(e) => Err(e),
        Ok((p, d)) => {
            let total: u64 = p as u64 + d as u64;
            if total == 0 || total > HDC_BUF_MAX_SIZE as u64 {
                Err(CodecError::PacketSize)
            } else {
                Ok((p, d))
            }
        },
    }
}

/// The channel and the command that a protection block names.
pub open spec fn addressee(protect: Seq<u8>) -> Result<(u32, HdcCommand), CodecError> {
    match PayloadProtectView::parsed(protect) {
        Err(e) => Err(e),
        Ok(p) => match HdcCommand::of_code(p.command_flag) {
            Err(_) => Err(CodecError::UnknownCommand),
            Ok(c) => Ok((p.channel_id, c)),
        },
    }
}

/// The channel and the command that a protection block names.
pub fn read_addressee(protect: &[u8]) -> (r: Result<(u32, HdcCommand), CodecError>)
    ensures
        r == addressee(protect@),
{
    match unpack_payload_protect(protect) {
        Err(e) => Err(e),
        Ok(p) => match HdcCommand::try_from(p.command_flag) {
            Err(_) => Err(CodecError::UnknownCommand),
            Ok(c) => Ok((p.channel_id, c)),
        },
    }
}

/// A message that is read part by part is the message that was sent.
pub proof fn parts_give_the_message(msg: TaskMessageView)
    requires
        packet::fits(msg),
    ensures
        message_sizes(packet::packet(msg).take(HEAD_SIZE as int)) == Ok::<_, CodecError>(
            (packet::protect_bytes(msg).len() as usize, msg.payload.len() as usize),
        ),
        addressee(packet::protect_bytes(msg)) == Ok::<_, CodecError>((msg.channel_id, msg.command)),
        packet::packet(msg).skip(HEAD_SIZE + packet::protect_bytes(msg).len()) == msg.payload,
{
    let head = packet::head_of(msg);
    let bytes = packet::packet(msg);
    packet::protect_size(msg);
    serializer::payload_head_round_trip(head, Seq::empty());
    let first = bytes.take(HEAD_SIZE as int);
    assert(head.bytes().len() == HEAD_SIZE);
    assert(first =~= head.bytes() + Seq::<u8>::empty());
    assert(packet::head_in(first) == Ok::<_, CodecError>(head));
    serializer::payload_protect_round_trip(packet::protect_of(msg));
    command::command_of_its_code(msg.command);
    assert(bytes.skip(HEAD_SIZE + packet::protect_bytes(msg).len()) =~= msg.payload);
}

// ---------------------------------------------------------------------------
// USB
// ---------------------------------------------------------------------------

/// The head of a USB block.
pub open spec fn usb_header(session_id: u32, option: u8, data_size: u32) -> UsbHeadView {
    UsbHeadView {
        flag: seq![USB_PACKET_FLAG[0], USB_PACKET_FLAG[1]],
        option,
        session_id,
        data_size,
    }
}

/// The head of a USB block, on the wire.
pub fn build_usb_header(session_id: u32, option: u8, data_size: u32) -> (r: Vec<u8>)
    ensures
        r@ == usb_header(session_id, option, data_size).bytes(),
{
    let head = UsbHead {
        flag: [USB_PACKET_FLAG[0], USB_PACKET_FLAG[1]],
        option,
        session_id,
        data_size,
    };
    assert(head@.flag =~= usb_header(session_id, option, data_size).flag);
    head.serialize()
}

/// The block that resets a session.
pub fn usb_soft_reset(session_id: u32) -> (r: Vec<u8>)
    ensures
        r@ == usb_header(session_id, USB_OPTION_RESET, 0).bytes(),
{
    build_usb_header(session_id, USB_OPTION_RESET, 0)
}

/// What goes out for a packet: its head as a transfer of its own, the packet, and, where
/// the packet fills its last block, a head without anything behind it.
pub open spec fn usb_transfers(session_id: u32, payload: Seq<u8>, max_packet_size: u16) -> Seq<
    Seq<u8>,
> {
    let head = usb_header(
        session_id,
        USB_OPTION_HEADER,
        (payload.len() % 0x1_0000_0000) as u32,
    ).bytes();
    if payload.len() == 0 {
        seq![head]
    } else if payload.len() % (max_packet_size as nat) == 0 {
        seq![head, payload, usb_header(session_id, 0, 0).bytes()]
    } else {
        seq![head, payload]
    }
}

/// What a list of byte strings holds.
pub open spec fn byte_strings(v: Seq<Vec<u8>>) -> Seq<Seq<u8>> {
    v.map_values(|b: Vec<u8>| b@)
}

/// What goes out for a packet, transfer by transfer.
pub fn plan_usb_transfers(session_id: u32, payload: &[u8], max_packet_size: u16) -> (r: Vec<
    Vec<u8>,
>)
    requires
        payload.len() > 0 ==> max_packet_size > 0,
    ensures
        byte_strings(r@) == usb_transfers(session_id, payload@, max_packet_size),
{
    let mut out: Vec<Vec<u8>> = Vec::new();
    let n: usize = payload.len();
    let size: u32 = (n as u64 % 0x1_0000_0000) as u32;
    out.push(build_usb_header(session_id, USB_OPTION_HEADER, size));
    if n > 0 {
        out.push(copy_bytes(payload));
        if n % max_packet_size as usize == 0 {
            out.push(build_usb_header(session_id, 0, 0));
        }
    }
    assert(byte_strings(out@) =~= usb_transfers(session_id, payload@, max_packet_size));
    out
}

/// What goes out for a message, transfer by transfer.
pub fn plan_usb_message(session_id: u32, msg: &TaskMessage, max_packet_size: u16) -> (r: Vec<
    Vec<u8>,
>)
    requires
        max_packet_size > 0,
    ensures
        byte_strings(r@) == usb_transfers(session_id, packet::packet(msg@), max_packet_size),
{
    let data = concat_pack(msg);
    plan_usb_transfers(session_id, data.as_slice(), max_packet_size)
}

/// The daemon sees where a packet ends: the last transfer does not fill its last block.
pub proof fn last_transfer_is_short(session_id: u32, payload: Seq<u8>, max_packet_size: u16)
    requires
        max_packet_size > 11,
    ensures
        usb_transfers(session_id, payload, max_packet_size).last().len() % (
        max_packet_size as nat) != 0,
{
    let head = usb_header(
        session_id,
        USB_OPTION_HEADER,
        (payload.len() % 0x1_0000_0000) as u32,
    );
    serializer::usb_head_round_trip(head, Seq::empty());
    serializer::usb_head_round_trip(usb_header(session_id, 0, 0), Seq::empty());
    assert(11nat % (max_packet_size as nat) == 11) by (nonlinear_arith)
        requires
            max_packet_size > 11,
    ;
}

/// Why a USB block is not taken.
#[derive(Debug, Clone, Copy, PartialEq, Eq, Structural)]
pub enum UsbError {
    /// A head, a protection block or a command cannot be read.
    Codec(CodecError),
    /// The block holds nothing, or resets the session.
    Empty,
    /// The block does not begin a packet.
    NotFirst(u8),
    /// The block announces too much.
    TooLarge,
    /// The packet is shorter than its head.
    NoHead,
    /// The packet is shorter than its head says.
    Incomplete,
}

impl UsbError {
    /// The sentence that reports the error.
    pub open spec fn text(self) -> Seq<char> {
        match self {
            UsbError::Codec(e) => e.text(),
            UsbError::Empty => "USB nop/reset packet"@,
            UsbError::NotFirst(option) => "USB packet without HEADER option: "@ + text::decimal(
                option as nat,
            ),
            UsbError::TooLarge => "USB payload too large"@,
            UsbError::NoHead => "payload too short for head"@,
            UsbError::Incomplete => "incomplete payload"@,
        }
    }

    /// The sentence that reports the error.
    pub fn message(&self) -> (r: String)
        ensures
            r@ == self.text(),
    {
        match *self {
            UsbError::Codec(e) => e.message(),
            UsbError::Empty => "USB nop/reset packet".to_owned(),
            UsbError::NotFirst(option) => concat2(
                "USB packet without HEADER option: ",
                decimal_text(option as u64).as_str(),
            ),
            UsbError::TooLarge => "USB payload too large".to_owned(),
            UsbError::NoHead => "payload too short for head".to_owned(),
            UsbError::Incomplete => "incomplete payload".to_owned(),
        }
    }
}

/// The session and the size of the packet that a head announces.
pub open spec fn announced(head: Seq<u8>) -> Result<(u32, usize), UsbError> {
    if head.len() < USB_HEAD_SIZE {
        Err(UsbError::Codec(CodecError::UsbHeadTooShort))
    } else {
        let h = UsbHeadView::of_bytes(head);
        if h.data_size == 0 {
            Err(UsbError::Empty)
        } else if h.option % 2 == 0 {
            Err(UsbError::NotFirst(h.option))
        } else if h.data_size > HDC_BUF_MAX_SIZE {
            Err(UsbError::TooLarge)
        } else {
            Ok((h.session_id, h.data_size as usize))
        }
    }
}

/// The session and the size of the packet that a head announces.
pub fn read_usb_head(head: &[u8]) -> (r: Result<(u32, usize), UsbError>)
    ensures
        r == announced(head@),
{
    match UsbHead::deserialize(head) {
        Err(e) => Err(UsbError::Codec(e)),
        Ok(h) => {
            let option: u8 = h.option;
            assert(option & 1 == option % 2) by (bit_vector);
            if h.data_size == 0 {
                Err(UsbError::Empty)
            } else if option & USB_OPTION_HEADER == 0 {
                Err(UsbError::NotFirst(option))
            } else if h.data_size as u64 > HDC_BUF_MAX_SIZE as u64 {
                Err(UsbError::TooLarge)
            } else {
                Ok((h.session_id, h.data_size as usize))
            }
        },
    }
}

/// The message in a packet that came over USB.
pub open spec fn usb_message(data: Seq<u8>) -> Result<TaskMessageView, UsbError> {
    if data.len() < HEAD_SIZE {
        Err(UsbError::NoHead)
    } else {
        match sizes_in(data.take(HEAD_SIZE as int)) {
            Err(e) => Err(UsbError::Codec(e)),
            Ok((p, d)) => if HEAD_SIZE + p + d > data.len() {
                Err(UsbError::Incomplete)
            } else {
                match addressee(data.subrange(HEAD_SIZE as int, HEAD_SIZE + p)) {
                    Err(e) => Err(UsbError::Codec(e)),
                    Ok((channel_id, command)) => Ok(
                        TaskMessageView {
                            channel_id,
                            command,
                            payload: data.subrange(HEAD_SIZE + p, HEAD_SIZE + p + d),
                        },
                    ),
                }
            },
        }
    }
}

/// The message in a packet that came over USB.
pub fn read_usb_message(data: &[u8]) -> (r: Result<TaskMessage, UsbError>)
    ensures
        match r {
            Ok(m) => usb_message(data@) == Ok::<_, UsbError>(m@),
            Err(e) => usb_message(data@) == Err::<TaskMessageView, _>(e),
        },
{
    let n: usize = data.len();
    if n < HEAD_SIZE {
        return Err(UsbError::NoHead);
    }
    let head = copy_range(data, 0, HEAD_SIZE);
    assert(head@ =~= data@.take(HEAD_SIZE as int));
    let (p, d): (usize, usize) = match frame_sizes(head.as_slice()) {
        Err(e) => return Err(UsbError::Codec(e)),
        Ok(sizes) => sizes,
    };
    let end: u64 = HEAD_SIZE as u64 + p as u64 + d as u64;
    if end > n as u64 {
        return Err(UsbError::Incomplete);
    }
    let protect = copy_range(data, HEAD_SIZE, HEAD_SIZE + p);
    match read_addressee(protect.as_slice()) {
        Err(e) => Err(UsbError::Codec(e)),
        Ok((channel_id, command)) => {
            let payload = copy_range(data, HEAD_SIZE + p, HEAD_SIZE + p + d);
            Ok(TaskMessage { channel_id, command, payload })
        },
    }
}

/// A message that goes out over USB comes in: the first transfer announces the second,
/// which holds the message.
#[verifier::rlimit(60)]
#[verifier::spinoff_prover]
pub proof fn usb_message_comes_in(session_id: u32, msg: TaskMessageView, max_packet_size: u16)
    requires
        packet::fits(msg),
        packet::packet(msg).len() <= HDC_BUF_MAX_SIZE,
    ensures
        usb_transfers(session_id, packet::packet(msg), max_packet_size).len() >= 2,
        announced(usb_transfers(session_id, packet::packet(msg), max_packet_size)[0]) == Ok::<_, UsbError>(
            (session_id, packet::packet(msg).len() as usize),
        ),
        usb_message(usb_transfers(session_id, packet::packet(msg), max_packet_size)[1]) == Ok::<
            _,
            UsbError,
        >(msg),
{
    let data = packet::packet(msg);
    packet::protect_size(msg);
    serializer::payload_head_round_trip(packet::head_of(msg), Seq::empty());
    parts_give_the_message(msg);
    let head = usb_header(session_id, USB_OPTION_HEADER, (data.len() % 0x1_0000_0000) as u32);
    serializer::usb_head_round_trip(head, Seq::empty());
    assert(head.bytes() + Seq::<u8>::empty() =~= head.bytes());
    let p = packet::protect_bytes(msg).len();
    assert(packet::head_of(msg).bytes().len() == HEAD_SIZE);
    assert(data.subrange(HEAD_SIZE as int, HEAD_SIZE + p) =~= packet::protect_bytes(msg));
    assert(data.subrange(HEAD_SIZE + p, HEAD_SIZE + p + msg.payload.len()) =~= msg.payload);
}

/// How long a read may take, in thousandths of a second: as long as it was asked for while
/// nothing has come, and five seconds once something has.
pub open spec fn patience(already_read: nat, timeout_ms: u32) -> u32 {
    if already_read == 0 {
        timeout_ms
    } else {
        5000
    }
}

/// How long a read from a bulk endpoint may take, in milliseconds: what the caller
/// allows for the first bytes, five seconds for the rest of them.
pub fn read_patience(already_read: usize, timeout_ms: u32) -> (r: u32)
    ensures
        r == patience(already_read as nat, timeout_ms),
{
    if already_read == 0 {
        timeout_ms
    } else {
        5000
    }
}

/// A header says the letters U and B, an option, the session and the size of what follows,
/// the highest byte of each number first. A message is announced with the option 1; a reset
/// has the option 2 and announces nothing.
pub proof fn headers_of_usb(session_id: u32, option: u8, data_size: u32)
    ensures
        ({
            let head = usb_header(session_id, option, data_size).bytes();
            &&& head == seq![85u8, 66u8, option] + bytes::be32(session_id) + bytes::be32(data_size)
            &&& data_size == 0 ==> announced(head) == Err::<(u32, usize), UsbError>(UsbError::Empty)
            &&& data_size > 0 && option == 2 ==> announced(head) == Err::<(u32, usize), UsbError>(
                UsbError::NotFirst(2),
            )
            &&& 0 < data_size <= HDC_BUF_MAX_SIZE && option == 1 ==> announced(head) == Ok::<
                (u32, usize),
                UsbError,
            >((session_id, data_size as usize))
            &&& data_size > HDC_BUF_MAX_SIZE && option == 1 ==> announced(head) == Err::<
                (u32, usize),
                UsbError,
            >(UsbError::TooLarge)
        }),
        USB_OPTION_HEADER == 1,
        USB_OPTION_RESET == 2,
{
    let v = usb_header(session_id, option, data_size);
    serializer::usb_head_round_trip(v, Seq::empty());
    assert(v.flag =~= seq![85u8, 66u8]);
    assert(v.bytes() =~= seq![85u8, 66u8, option] + bytes::be32(session_id) + bytes::be32(
        data_size,
    ));
    assert(v.bytes() + Seq::<u8>::empty() =~= v.bytes());
}

/// A message that has begun to come has five seconds for each of its next reads, however long
/// the first was waited for.
pub proof fn begun_messages_go_on(n: nat, timeout_ms: u32)
    ensures
        patience(0, timeout_ms) == timeout_ms,
        patience(n + 1, timeout_ms) == 5000,
{
}

} // verus!
