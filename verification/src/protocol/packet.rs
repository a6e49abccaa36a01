//! Packets: how a message is put together, and how it is taken apart.

use crate::protocol::bytes;
use crate::protocol::bytes::{copy_range, push_bytes};
use crate::protocol::command;
use crate::protocol::command::HdcCommand;
use crate::protocol::config::{HDC_BUF_MAX_SIZE, PACKET_FLAG, PAYLOAD_VCODE, TaskMessage, TaskMessageView};
use crate::protocol::error::{ByteField, CodecError};
use crate::protocol::serializer;
use crate::protocol::serializer::{HEAD_SIZE, HdcDeserialize, HdcSerialize, PayloadHead, PayloadHeadView, PayloadProtect, PayloadProtectView};
use crate::protocol::tlv;
use crate::protocol::tlv::{FieldKind, SlotView};
use vstd::prelude::*;
use vstd::slice::slice_subrange;

verus! {

/// The protection block of the packet that carries a message.
pub open spec fn protect_of(msg: TaskMessageView) -> PayloadProtectView {
    PayloadProtectView {
        channel_id: msg.channel_id,
        command_flag: msg.command.code(),
        check_sum: 0,
        v_code: PAYLOAD_VCODE,
    }
}

/// The bytes of the protection block.
pub open spec fn protect_bytes(msg: TaskMessageView) -> Seq<u8> {
    tlv::slots_bytes(protect_of(msg).slots())
}

/// The head of the packet that carries a message. Of the size of the payload 32
/// bits are written.
pub open spec fn head_of(msg: TaskMessageView) -> PayloadHeadView {
    PayloadHeadView {
        flag: seq![PACKET_FLAG[0], PACKET_FLAG[1]],
        reserve: seq![0, 0],
        protocol_ver: 1,
        head_size: protect_bytes(msg).len() as u16,
        data_size: (msg.payload.len() % 0x1_0000_0000) as u32,
    }
}

/// The packet that carries a message: a head, a protection block, the payload.
pub open spec fn packet(msg: TaskMessageView) -> Seq<u8> {
    head_of(msg).bytes() + protect_bytes(msg) + msg.payload
}

/// The head at the beginning of `data`, if the data begin with the packet flag.
pub open spec fn head_in(data: Seq<u8>) -> Result<PayloadHeadView, CodecError> {
    if data.len() < HEAD_SIZE {
        Err(CodecError::HeadTooShort)
    } else {
        let head = PayloadHeadView::of_bytes(data);
        if head.flag[0] == PACKET_FLAG[0] && head.flag[1] == PACKET_FLAG[1] {
            Ok(head)
        } else {
            Err(CodecError::BadPacketFlag(head.flag[0], head.flag[1]))
        }
    }
}

/// The message in a packet that `data` begin with.
pub open spec fn message_in(data: Seq<u8>) -> Result<TaskMessageView, CodecError> {
    if data.len() < HEAD_SIZE {
        Err(CodecError::DataTooShort)
    } else {
        match head_in(data) {
            Err(e) => Err(e),
            Ok(head) => {
                let start = HEAD_SIZE + head.head_size;
                let end = start + head.data_size;
                if head.head_size + head.data_size == 0 || head.head_size + head.data_size
                    > HDC_BUF_MAX_SIZE {
                    Err(CodecError::PacketSize)
                } else if end > data.len() {
                    Err(CodecError::IncompletePacket)
                } else {
                    match PayloadProtectView::parsed(data.subrange(HEAD_SIZE as int, start)) {
                        Err(e) => Err(e),
                        Ok(protect) => if protect.v_code != PAYLOAD_VCODE {
                            Err(CodecError::WrongVcode)
                        } else {
                            match HdcCommand::of_code(protect.command_flag) {
                                Err(_) => Err(CodecError::UnknownCommand),
                                Ok(command) => Ok(
                                    TaskMessageView {
                                        channel_id: protect.channel_id,
                                        command,
                                        payload: data.subrange(start, end),
                                    },
                                ),
                            }
                        },
                    }
                }
            },
        }
    }
}

/// The protection block is never empty and has at most 14 bytes.
pub proof fn protect_size(msg: TaskMessageView)
    ensures
        0 < protect_bytes(msg).len() <= 14,
{
    let slots = protect_of(msg).slots();
    let rest1 = slots.drop_first();
    let rest2 = rest1.drop_first();
    let rest3 = rest2.drop_first();
    assert(rest3.drop_first() =~= Seq::<SlotView>::empty());
    assert(tlv::slots_bytes(rest3.drop_first()).len() == 0);
    tlv::varint_lengths(msg.channel_id as nat);
    tlv::varint_lengths(msg.command.code() as nat);
    assert(tlv::varint(8).len() == 1 && tlv::varint(16).len() == 1 && tlv::varint(32).len() == 1);
    assert(slots[0] == tlv::number_slot(1, FieldKind::U32, msg.channel_id as u64));
    assert(rest1[0] == tlv::number_slot(2, FieldKind::U32, msg.command.code() as u64));
    assert(rest2[0] == tlv::number_slot(3, FieldKind::Byte(ByteField::CheckSum), 0));
    assert(rest3[0] == tlv::number_slot(4, FieldKind::Byte(ByteField::VCode), PAYLOAD_VCODE as u64));
    assert(tlv::slot_bytes(slots[0]).len() <= 6);
    assert(tlv::slot_bytes(rest1[0]).len() <= 6);
    assert(tlv::slot_bytes(rest2[0]).len() == 0);
    assert(tlv::slot_bytes(rest3[0]).len() == 2);
    assert(tlv::slots_bytes(rest3).len() == 2);
    assert(tlv::slots_bytes(rest2).len() == 2);
    assert(tlv::slots_bytes(rest1).len() <= 8);
}

/// Puts a message into a packet.
pub fn concat_pack(msg: &TaskMessage) -> (r: Vec<u8>)
    ensures
        r@ == packet(msg@),
{
    let payload_protect = PayloadProtect {
        channel_id: msg.channel_id,
        command_flag: msg.command.as_u32(),
        check_sum: 0,
        v_code: PAYLOAD_VCODE,
    };
    let protect_buf = payload_protect.serialize();
    let payload_head = PayloadHead {
        flag: [PACKET_FLAG[0], PACKET_FLAG[1]],
        reserve: [0, 0],
        protocol_ver: 1,
        head_size: protect_buf.len() as u16,
        data_size: (msg.payload.len() as u64 % 0x1_0000_0000) as u32,
    };
    proof {
        assert(payload_protect@ == protect_of(msg@));
        assert(payload_head@.flag =~= head_of(msg@).flag);
        assert(payload_head@.reserve =~= head_of(msg@).reserve);
        assert(payload_head@ == head_of(msg@));
    }
    let mut result = payload_head.serialize();
    push_bytes(&mut result, &protect_buf);
    push_bytes(&mut result, &msg.payload);
    result
}

/// Reads the head at the beginning of `data`.
pub fn unpack_payload_head(data: &[u8]) -> (r: Result<PayloadHead, CodecError>)
    ensures
        match r {
            Ok(head) => head_in(data@) == Ok::<_, CodecError>(head@),
            Err(e) => head_in(data@) == Err::<PayloadHeadView, _>(e),
        },
{
    if data.len() < HEAD_SIZE {
        return Err(CodecError::HeadTooShort);
    }
    match PayloadHead::deserialize(data) {
        Err(e) => Err(e),
        Ok(head) => {
            if head.flag[0] == PACKET_FLAG[0] && head.flag[1] == PACKET_FLAG[1] {
                Ok(head)
            } else {
                Err(CodecError::BadPacketFlag(head.flag[0], head.flag[1]))
            }
        },
    }
}

/// Reads a protection block.
pub fn unpack_payload_protect(data: &[u8]) -> (r: Result<PayloadProtect, CodecError>)
    ensures
        match r {
            Ok(protect) => PayloadProtectView::parsed(data@) == Ok::<_, CodecError>(protect@),
            Err(e) => PayloadProtectView::parsed(data@) == Err::<PayloadProtectView, _>(e),
        },
{
    PayloadProtect::deserialize(data)
}

/// Takes the message out of the packet that `data` begin with. What follows the
/// packet is ignored.
pub fn unpack_task_message(data: &[u8]) -> (r: Result<TaskMessage, CodecError>)
    ensures
        match r {
            Ok(msg) => message_in(data@) == Ok::<_, CodecError>(msg@),
            Err(e) => message_in(data@) == Err::<TaskMessageView, _>(e),
        },
{
    if data.len() < HEAD_SIZE {
        return Err(CodecError::DataTooShort);
    }
    let head = match unpack_payload_head(data) {
        Err(e) => {
            return Err(e);
        },
        Ok(head) => head,
    };
    let size: u64 = head.head_size as u64 + head.data_size as u64;
    if size == 0 || size > HDC_BUF_MAX_SIZE as u64 {
        return Err(CodecError::PacketSize);
    }
    if HEAD_SIZE as u64 + size > data.len() as u64 {
        return Err(CodecError::IncompletePacket);
    }
    let start: usize = HEAD_SIZE + head.head_size as usize;
    let end: usize = start + head.data_size as usize;
    match unpack_payload_protect(slice_subrange(data, HEAD_SIZE, start)) {
        Err(e) => Err(e),
        Ok(protect) => {
            if protect.v_code != PAYLOAD_VCODE {
                return Err(CodecError::WrongVcode);
            }
            match HdcCommand::try_from(protect.command_flag) {
                Err(_) => Err(CodecError::UnknownCommand),
                Ok(command) => Ok(
                    TaskMessage {
                        channel_id: protect.channel_id,
                        command,
                        payload: copy_range(data, start, end),
                    },
                ),
            }
        },
    }
}

/// A message that fits into a packet.
pub open spec fn fits(msg: TaskMessageView) -> bool {
    protect_bytes(msg).len() + msg.payload.len() <= HDC_BUF_MAX_SIZE
}

/// A message is taken out of its packet as it was put in, whatever follows the
/// packet.
pub proof fn packet_round_trip(msg: TaskMessageView, rest: Seq<u8>)
    requires
        fits(msg),
    ensures
        message_in(packet(msg) + rest) == Ok::<_, CodecError>(msg),
{
    let data = packet(msg) + rest;
    let head = head_of(msg);
    let protect = protect_bytes(msg);
    protect_size(msg);
    let tail = protect + msg.payload + rest;
    assert(data =~= head.bytes() + tail);
    serializer::payload_head_round_trip(head, tail);
    let start = HEAD_SIZE + head.head_size;
    assert(data.subrange(HEAD_SIZE as int, start) =~= protect);
    serializer::payload_protect_round_trip(protect_of(msg));
    command::command_of_its_code(msg.command);
    assert(data.subrange(start, start + head.data_size) =~= msg.payload);
}

/// A packet begins with the letters `HW`, two zeros and the version 1; then come the sizes of the
/// two parts that follow, in the order of the network: the description of the message, and its
/// payload.
pub proof fn layout_of_packets(msg: TaskMessageView)
    requires
        msg.payload.len() < 0x1_0000_0000,
    ensures
        ({
            let p = packet(msg);
            let n = bytes::be16_value(p, 5) as int;
            &&& p.len() == 11 + n + msg.payload.len()
            &&& p.subrange(0, 5) == seq![72u8, 87, 0, 0, 1]
            &&& bytes::be32_value(p, 7) == msg.payload.len()
            &&& p.skip(11 + n) == msg.payload
            &&& PayloadProtectView::parsed(p.subrange(11, 11 + n)) == Ok::<_, CodecError>(
                PayloadProtectView {
                    channel_id: msg.channel_id,
                    command_flag: msg.command.code(),
                    check_sum: 0,
                    v_code: 9,
                },
            )
        }),
{
    let p = packet(msg);
    let protect = protect_bytes(msg);
    protect_size(msg);
    bytes::be16_read_back(p, 5, protect.len() as u16);
    bytes::be32_read_back(p, 7, msg.payload.len() as u32);
    assert(p.subrange(0, 5) =~= seq![72u8, 87, 0, 0, 1]);
    assert(p.skip(11 + protect.len() as int) =~= msg.payload);
    assert(p.subrange(11, 11 + protect.len() as int) =~= protect);
    serializer::payload_protect_round_trip(protect_of(msg));
}

/// What does not begin with the letters of a packet, or is too short, is no packet.
pub proof fn others_are_no_packets(data: Seq<u8>)
    ensures
        data.len() < 11 ==> message_in(data) == Err::<TaskMessageView, _>(CodecError::DataTooShort),
        data.len() >= 11 && (data[0] != 72 || data[1] != 87) ==> message_in(data) == Err::<
            TaskMessageView,
            _,
        >(CodecError::BadPacketFlag(data[0], data[1])),
        message_in(data) is Ok ==> data.len() >= 11 + bytes::be16_value(data, 5)
            + bytes::be32_value(data, 7) && message_in(data)->Ok_0.payload.len()
            == bytes::be32_value(data, 7),
{
}

} // verus!
