//! The layouts of the messages.
//!
//! The heads have a fixed layout with the most significant byte of a number first.
//! The other structures are runs of tagged fields.

use crate::protocol::bytes;
use crate::protocol::bytes::{push_be16, push_be32, push_bytes, read_be16, read_be32};
use crate::protocol::error::{ByteField, CodecError};
use crate::protocol::tlv;
use crate::protocol::tlv::{FieldKind, FieldView, SlotView, find_number, find_text, read_fields, read_padded_fields, write_bool_field, write_byte_field, write_fixed_byte_field, write_string_field, write_u32_field, write_u64_field};
use vstd::prelude::*;
use vstd::slice::slice_subrange;
use vstd::utf8::*;

verus! {

/// A structure that has a form on the wire.
pub trait HdcSerialize {
    /// The form on the wire.
    spec fn wire(&self) -> Seq<u8>;

    /// Writes the structure.
    fn serialize(&self) -> (r: Vec<u8>)
        ensures
            r@ == self.wire(),
    ;
}

/// A structure that is read from the wire.
pub trait HdcDeserialize: Sized {
    /// `r` is what comes of reading `bytes`.
    spec fn reads(bytes: Seq<u8>, r: Result<Self, CodecError>) -> bool;

    /// Reads the structure.
    fn deserialize(bytes: &[u8]) -> (r: Result<Self, CodecError>)
        ensures
            Self::reads(bytes@, r),
    ;
}

/// What the two ends of a session tell each other first.
#[derive(Debug, Clone, PartialEq, Eq)]
pub struct SessionHandShake {
    pub banner: String,
    pub auth_type: u8,
    pub session_id: u32,
    pub connect_key: String,
    pub buf: String,
    pub version: String,
}

/// What a [`SessionHandShake`] says.
pub struct SessionHandShakeView {
    pub banner: Seq<char>,
    pub auth_type: u8,
    pub session_id: u32,
    pub connect_key: Seq<char>,
    pub buf: Seq<char>,
    pub version: Seq<char>,
}

impl View for SessionHandShake {
    type V = SessionHandShakeView;

    open spec fn view(&self) -> SessionHandShakeView {
        SessionHandShakeView {
            banner: self.banner@,
            auth_type: self.auth_type,
            session_id: self.session_id,
            connect_key: self.connect_key@,
            buf: self.buf@,
            version: self.version@,
        }
    }
}

impl SessionHandShakeView {
    /// The fields that are written, in their order.
    pub open spec fn slots(self) -> Seq<SlotView> {
        seq![
            tlv::text_slot(1, self.banner),
            tlv::fixed_byte_slot(2, ByteField::AuthType, self.auth_type),
            tlv::number_slot(3, FieldKind::U32, self.session_id as u64),
            tlv::text_slot(4, self.connect_key),
            tlv::text_slot(5, self.buf),
            tlv::text_slot(6, self.version),
        ]
    }

    /// How the fields are read; a field is found by its number.
    pub open spec fn schema() -> Seq<FieldKind> {
        seq![
            FieldKind::Unknown,
            FieldKind::Text,
            FieldKind::Byte(ByteField::AuthType),
            FieldKind::U32,
            FieldKind::Text,
            FieldKind::Text,
            FieldKind::Text,
        ]
    }

    /// What the fields say; of several fields with one number the last counts.
    pub open spec fn of_fields(fields: Seq<FieldView>) -> Self {
        SessionHandShakeView {
            banner: tlv::text_of(fields, 1),
            auth_type: tlv::number_of(fields, 2) as u8,
            session_id: tlv::number_of(fields, 3) as u32,
            connect_key: tlv::text_of(fields, 4),
            buf: tlv::text_of(fields, 5),
            version: tlv::text_of(fields, 6),
        }
    }

    /// What comes of reading `bytes`.
    pub open spec fn parsed(bytes: Seq<u8>) -> Result<Self, CodecError> {
        match tlv::fields_from(bytes, 0, Self::schema()) {
            Ok(fields) => Ok(Self::of_fields(fields)),
            Err(e) => Err(e),
        }
    }

    /// The values that survive the encoding: bytes below 128, texts below four
    /// gigabytes.
    pub open spec fn readable(self) -> bool {
        &&& encode_utf8(self.banner).len() < 0x1_0000_0000
        &&& self.auth_type < 128
        &&& encode_utf8(self.connect_key).len() < 0x1_0000_0000
        &&& encode_utf8(self.buf).len() < 0x1_0000_0000
        &&& encode_utf8(self.version).len() < 0x1_0000_0000
    }
}

impl Default for SessionHandShake {
    fn default() -> (r: Self)
        ensures
            r@ == SessionHandShakeView::of_fields(Seq::empty()),
    {
        SessionHandShake {
            banner: String::new(),
            auth_type: 0,
            session_id: 0,
            connect_key: String::new(),
            buf: String::new(),
            version: String::new(),
        }
    }
}

impl HdcSerialize for SessionHandShake {
    open spec fn wire(&self) -> Seq<u8> {
        tlv::slots_bytes(self@.slots())
    }

    fn serialize(&self) -> (r: Vec<u8>) {
        let mut buf: Vec<u8> = Vec::new();
        let ghost mut done: Seq<SlotView> = Seq::empty();
        write_string_field(1, self.banner.as_str(), &mut buf);
        proof {
            let slot = tlv::text_slot(1, self@.banner);
            tlv::slots_bytes_of_push(done, slot);
            done = done.push(slot);
        }
        write_fixed_byte_field(2, ByteField::AuthType, self.auth_type, &mut buf);
        proof {
            let slot = tlv::fixed_byte_slot(2, ByteField::AuthType, self@.auth_type);
            tlv::slots_bytes_of_push(done, slot);
            done = done.push(slot);
        }
        write_u32_field(3, self.session_id, &mut buf);
        proof {
            let slot = tlv::number_slot(3, FieldKind::U32, self@.session_id as u64);
            tlv::slots_bytes_of_push(done, slot);
            done = done.push(slot);
        }
        write_string_field(4, self.connect_key.as_str(), &mut buf);
        proof {
            let slot = tlv::text_slot(4, self@.connect_key);
            tlv::slots_bytes_of_push(done, slot);
            done = done.push(slot);
        }
        write_string_field(5, self.buf.as_str(), &mut buf);
        proof {
            let slot = tlv::text_slot(5, self@.buf);
            tlv::slots_bytes_of_push(done, slot);
            done = done.push(slot);
        }
        write_string_field(6, self.version.as_str(), &mut buf);
        proof {
            let slot = tlv::text_slot(6, self@.version);
            tlv::slots_bytes_of_push(done, slot);
            done = done.push(slot);
        }
        assert(done =~= self@.slots());
        buf
    }
}

impl HdcDeserialize for SessionHandShake {
    open spec fn reads(bytes: Seq<u8>, r: Result<Self, CodecError>) -> bool {
        match r {
            Ok(v) => SessionHandShakeView::parsed(bytes) == Ok::<_, CodecError>(v@),
            Err(e) => SessionHandShakeView::parsed(bytes) == Err::<SessionHandShakeView, _>(e),
        }
    }

    fn deserialize(bytes: &[u8]) -> (r: Result<Self, CodecError>) {
        let schema: Vec<FieldKind> = vec![
            FieldKind::Unknown,
            FieldKind::Text,
            FieldKind::Byte(ByteField::AuthType),
            FieldKind::U32,
            FieldKind::Text,
            FieldKind::Text,
            FieldKind::Text,
        ];
        assert(schema@ =~= SessionHandShakeView::schema());
        match read_fields(bytes, &schema) {
            Err(e) => Err(e),
            Ok(fields) => Ok(
                SessionHandShake {
                    banner: find_text(&fields, 1),
                    auth_type: find_number(&fields, 2) as u8,
                    session_id: find_number(&fields, 3) as u32,
                    connect_key: find_text(&fields, 4),
                    buf: find_text(&fields, 5),
                    version: find_text(&fields, 6),
                },
            ),
        }
    }
}

/// What is written is read back.
pub proof fn session_handshake_round_trip(v: SessionHandShakeView)
    requires
        v.readable(),
    ensures
        SessionHandShakeView::parsed(tlv::slots_bytes(v.slots())) == Ok::<_, CodecError>(v),
{
    let slots = v.slots();
    let schema = SessionHandShakeView::schema();
    assert(slots.len() == 6 && schema.len() == 7);
    assert(slots[0] == tlv::text_slot(1, v.banner) && schema[1] == slots[0].kind);
    assert(slots[1] == tlv::fixed_byte_slot(2, ByteField::AuthType, v.auth_type) && schema[2] == slots[1].kind);
    assert(slots[2] == tlv::number_slot(3, FieldKind::U32, v.session_id as u64) && schema[3] == slots[2].kind);
    assert(slots[3] == tlv::text_slot(4, v.connect_key) && schema[4] == slots[3].kind);
    assert(slots[4] == tlv::text_slot(5, v.buf) && schema[5] == slots[4].kind);
    assert(slots[5] == tlv::text_slot(6, v.version) && schema[6] == slots[5].kind);
    assert forall|i: int| 0 <= i < slots.len() implies (#[trigger] slots[i]).number == i + 1 by {}
    assert(tlv::slots_readable(slots, schema)) by {
        assert forall|i: int| 0 <= i < slots.len() implies tlv::slot_readable(#[trigger] slots[i], schema) by {}
    }
    tlv::fields_read_back(slots, schema);
    tlv::slot_found(slots, 0);
    tlv::slot_found(slots, 1);
    tlv::slot_found(slots, 2);
    tlv::slot_found(slots, 3);
    tlv::slot_found(slots, 4);
    tlv::slot_found(slots, 5);
    let w = SessionHandShakeView::of_fields(tlv::slots_fields(slots));
    assert(w.banner =~= v.banner);
    assert(w.connect_key =~= v.connect_key);
    assert(w.buf =~= v.buf);
    assert(w.version =~= v.version);
    assert(w == v);
}

/// The block between the head of a packet and its payload: whose message it is,
/// and a fixed code that tells broken packets.
#[derive(Debug, PartialEq, Eq)]
pub struct PayloadProtect {
    pub channel_id: u32,
    pub command_flag: u32,
    pub check_sum: u8,
    pub v_code: u8,
}

/// What a [`PayloadProtect`] says.
pub struct PayloadProtectView {
    pub channel_id: u32,
    pub command_flag: u32,
    pub check_sum: u8,
    pub v_code: u8,
}

impl View for PayloadProtect {
    type V = PayloadProtectView;

    open spec fn view(&self) -> PayloadProtectView {
        PayloadProtectView {
            channel_id: self.channel_id,
            command_flag: self.command_flag,
            check_sum: self.check_sum,
            v_code: self.v_code,
        }
    }
}

impl PayloadProtectView {
    /// The fields that are written, in their order.
    pub open spec fn slots(self) -> Seq<SlotView> {
        seq![
            tlv::number_slot(1, FieldKind::U32, self.channel_id as u64),
            tlv::number_slot(2, FieldKind::U32, self.command_flag as u64),
            tlv::number_slot(3, FieldKind::Byte(ByteField::CheckSum), self.check_sum as u64),
            tlv::number_slot(4, FieldKind::Byte(ByteField::VCode), self.v_code as u64),
        ]
    }

    /// How the fields are read; a field is found by its number.
    pub open spec fn schema() -> Seq<FieldKind> {
        seq![
            FieldKind::Unknown,
            FieldKind::U32,
            FieldKind::U32,
            FieldKind::Byte(ByteField::CheckSum),
            FieldKind::Byte(ByteField::VCode),
        ]
    }

    /// What the fields say; of several fields with one number the last counts.
    pub open spec fn of_fields(fields: Seq<FieldView>) -> Self {
        PayloadProtectView {
            channel_id: tlv::number_of(fields, 1) as u32,
            command_flag: tlv::number_of(fields, 2) as u32,
            check_sum: tlv::number_of(fields, 3) as u8,
            v_code: tlv::number_of(fields, 4) as u8,
        }
    }

    /// What comes of reading `bytes`.
    pub open spec fn parsed(bytes: Seq<u8>) -> Result<Self, CodecError> {
        match tlv::fields_from(bytes, 0, Self::schema()) {
            Ok(fields) => Ok(Self::of_fields(fields)),
            Err(e) => Err(e),
        }
    }

    /// The values that survive the encoding: bytes below 128, texts below four
    /// gigabytes.
    pub open spec fn readable(self) -> bool {
        &&& self.check_sum < 128
        &&& self.v_code < 128
    }
}

impl Default for PayloadProtect {
    fn default() -> (r: Self)
        ensures
            r@ == PayloadProtectView::of_fields(Seq::empty()),
    {
        PayloadProtect {
            channel_id: 0,
            command_flag: 0,
            check_sum: 0,
            v_code: 0,
        }
    }
}

impl HdcSerialize for PayloadProtect {
    open spec fn wire(&self) -> Seq<u8> {
        tlv::slots_bytes(self@.slots())
    }

    fn serialize(&self) -> (r: Vec<u8>) {
        let mut buf: Vec<u8> = Vec::new();
        let ghost mut done: Seq<SlotView> = Seq::empty();
        write_u32_field(1, self.channel_id, &mut buf);
        proof {
            let slot = tlv::number_slot(1, FieldKind::U32, self@.channel_id as u64);
            tlv::slots_bytes_of_push(done, slot);
            done = done.push(slot);
        }
        write_u32_field(2, self.command_flag, &mut buf);
        proof {
            let slot = tlv::number_slot(2, FieldKind::U32, self@.command_flag as u64);
            tlv::slots_bytes_of_push(done, slot);
            done = done.push(slot);
        }
        write_byte_field(3, ByteField::CheckSum, self.check_sum, &mut buf);
        proof {
            let slot = tlv::number_slot(3, FieldKind::Byte(ByteField::CheckSum), self@.check_sum as u64);
            tlv::slots_bytes_of_push(done, slot);
            done = done.push(slot);
        }
        write_byte_field(4, ByteField::VCode, self.v_code, &mut buf);
        proof {
            let slot = tlv::number_slot(4, FieldKind::Byte(ByteField::VCode), self@.v_code as u64);
            tlv::slots_bytes_of_push(done, slot);
            done = done.push(slot);
        }
        assert(done =~= self@.slots());
        buf
    }
}

impl HdcDeserialize for PayloadProtect {
    open spec fn reads(bytes: Seq<u8>, r: Result<Self, CodecError>) -> bool {
        match r {
            Ok(v) => PayloadProtectView::parsed(bytes) == Ok::<_, CodecError>(v@),
            Err(e) => PayloadProtectView::parsed(bytes) == Err::<PayloadProtectView, _>(e),
        }
    }

    fn deserialize(bytes: &[u8]) -> (r: Result<Self, CodecError>) {
        let schema: Vec<FieldKind> = vec![
            FieldKind::Unknown,
            FieldKind::U32,
            FieldKind::U32,
            FieldKind::Byte(ByteField::CheckSum),
            FieldKind::Byte(ByteField::VCode),
        ];
        assert(schema@ =~= PayloadProtectView::schema());
        match read_fields(bytes, &schema) {
            Err(e) => Err(e),
            Ok(fields) => Ok(
                PayloadProtect {
                    channel_id: find_number(&fields, 1) as u32,
                    command_flag: find_number(&fields, 2) as u32,
                    check_sum: find_number(&fields, 3) as u8,
                    v_code: find_number(&fields, 4) as u8,
                },
            ),
        }
    }
}

/// What is written is read back.
pub proof fn payload_protect_round_trip(v: PayloadProtectView)
    requires
        v.readable(),
    ensures
        PayloadProtectView::parsed(tlv::slots_bytes(v.slots())) == Ok::<_, CodecError>(v),
{
    let slots = v.slots();
    let schema = PayloadProtectView::schema();
    assert(slots.len() == 4 && schema.len() == 5);
    assert(slots[0] == tlv::number_slot(1, FieldKind::U32, v.channel_id as u64) && schema[1] == slots[0].kind);
    assert(slots[1] == tlv::number_slot(2, FieldKind::U32, v.command_flag as u64) && schema[2] == slots[1].kind);
    assert(slots[2] == tlv::number_slot(3, FieldKind::Byte(ByteField::CheckSum), v.check_sum as u64) && schema[3] == slots[2].kind);
    assert(slots[3] == tlv::number_slot(4, FieldKind::Byte(ByteField::VCode), v.v_code as u64) && schema[4] == slots[3].kind);
    assert forall|i: int| 0 <= i < slots.len() implies (#[trigger] slots[i]).number == i + 1 by {}
    assert(tlv::slots_readable(slots, schema)) by {
        assert forall|i: int| 0 <= i < slots.len() implies tlv::slot_readable(#[trigger] slots[i], schema) by {}
    }
    tlv::fields_read_back(slots, schema);
    tlv::slot_found(slots, 0);
    tlv::slot_found(slots, 1);
    tlv::slot_found(slots, 2);
    tlv::slot_found(slots, 3);
    let w = PayloadProtectView::of_fields(tlv::slots_fields(slots));
    assert(w == v);
}

/// What is known of a file before it is sent.
#[derive(Debug, Clone, PartialEq, Eq)]
pub struct TransferConfig {
    pub file_size: u64,
    pub atime: u64,
    pub mtime: u64,
    pub options: String,
    pub path: String,
    pub optional_name: String,
    pub update_if_new: bool,
    pub compress_type: u8,
    pub hold_timestamp: bool,
    pub function_name: String,
    pub client_cwd: String,
    pub reserve1: String,
    pub reserve2: String,
}

/// What a [`TransferConfig`] says.
pub struct TransferConfigView {
    pub file_size: u64,
    pub atime: u64,
    pub mtime: u64,
    pub options: Seq<char>,
    pub path: Seq<char>,
    pub optional_name: Seq<char>,
    pub update_if_new: bool,
    pub compress_type: u8,
    pub hold_timestamp: bool,
    pub function_name: Seq<char>,
    pub client_cwd: Seq<char>,
    pub reserve1: Seq<char>,
    pub reserve2: Seq<char>,
}

impl View for TransferConfig {
    type V = TransferConfigView;

    open spec fn view(&self) -> TransferConfigView {
        TransferConfigView {
            file_size: self.file_size,
            atime: self.atime,
            mtime: self.mtime,
            options: self.options@,
            path: self.path@,
            optional_name: self.optional_name@,
            update_if_new: self.update_if_new,
            compress_type: self.compress_type,
            hold_timestamp: self.hold_timestamp,
            function_name: self.function_name@,
            client_cwd: self.client_cwd@,
            reserve1: self.reserve1@,
            reserve2: self.reserve2@,
        }
    }
}

impl TransferConfigView {
    /// The fields that are written, in their order.
    pub open spec fn slots(self) -> Seq<SlotView> {
        seq![
            tlv::number_slot(1, FieldKind::U64, self.file_size),
            tlv::number_slot(2, FieldKind::U64, self.atime),
            tlv::number_slot(3, FieldKind::U64, self.mtime),
            tlv::text_slot(4, self.options),
            tlv::text_slot(5, self.path),
            tlv::text_slot(6, self.optional_name),
            tlv::number_slot(7, FieldKind::Bool, tlv::bool_number(self.update_if_new)),
            tlv::number_slot(8, FieldKind::Byte(ByteField::CompressType), self.compress_type as u64),
            tlv::number_slot(9, FieldKind::Bool, tlv::bool_number(self.hold_timestamp)),
            tlv::text_slot(10, self.function_name),
            tlv::text_slot(11, self.client_cwd),
            tlv::text_slot(12, self.reserve1),
            tlv::text_slot(13, self.reserve2),
        ]
    }

    /// How the fields are read; a field is found by its number.
    pub open spec fn schema() -> Seq<FieldKind> {
        seq![
            FieldKind::Unknown,
            FieldKind::U64,
            FieldKind::U64,
            FieldKind::U64,
            FieldKind::Text,
            FieldKind::Text,
            FieldKind::Text,
            FieldKind::Bool,
            FieldKind::Byte(ByteField::CompressType),
            FieldKind::Bool,
            FieldKind::Text,
            FieldKind::Text,
            FieldKind::Text,
            FieldKind::Text,
        ]
    }

    /// What the fields say; of several fields with one number the last counts.
    pub open spec fn of_fields(fields: Seq<FieldView>) -> Self {
        TransferConfigView {
            file_size: tlv::number_of(fields, 1),
            atime: tlv::number_of(fields, 2),
            mtime: tlv::number_of(fields, 3),
            options: tlv::text_of(fields, 4),
            path: tlv::text_of(fields, 5),
            optional_name: tlv::text_of(fields, 6),
            update_if_new: tlv::number_of(fields, 7) != 0,
            compress_type: tlv::number_of(fields, 8) as u8,
            hold_timestamp: tlv::number_of(fields, 9) != 0,
            function_name: tlv::text_of(fields, 10),
            client_cwd: tlv::text_of(fields, 11),
            reserve1: tlv::text_of(fields, 12),
            reserve2: tlv::text_of(fields, 13),
        }
    }

    /// What comes of reading `bytes`.
    pub open spec fn parsed(bytes: Seq<u8>) -> Result<Self, CodecError> {
        match tlv::fields_from(bytes, 0, Self::schema()) {
            Ok(fields) => Ok(Self::of_fields(fields)),
            Err(e) => Err(e),
        }
    }

    /// The values that survive the encoding: bytes below 128, texts below four
    /// gigabytes.
    pub open spec fn readable(self) -> bool {
        &&& encode_utf8(self.options).len() < 0x1_0000_0000
        &&& encode_utf8(self.path).len() < 0x1_0000_0000
        &&& encode_utf8(self.optional_name).len() < 0x1_0000_0000
        &&& self.compress_type < 128
        &&& encode_utf8(self.function_name).len() < 0x1_0000_0000
        &&& encode_utf8(self.client_cwd).len() < 0x1_0000_0000
        &&& encode_utf8(self.reserve1).len() < 0x1_0000_0000
        &&& encode_utf8(self.reserve2).len() < 0x1_0000_0000
    }
}

impl Default for TransferConfig {
    fn default() -> (r: Self)
        ensures
            r@ == TransferConfigView::of_fields(Seq::empty()),
    {
        TransferConfig {
            file_size: 0,
            atime: 0,
            mtime: 0,
            options: String::new(),
            path: String::new(),
            optional_name: String::new(),
            update_if_new: false,
            compress_type: 0,
            hold_timestamp: false,
            function_name: String::new(),
            client_cwd: String::new(),
            reserve1: String::new(),
            reserve2: String::new(),
        }
    }
}

impl HdcSerialize for TransferConfig {
    open spec fn wire(&self) -> Seq<u8> {
        tlv::slots_bytes(self@.slots())
    }

    fn serialize(&self) -> (r: Vec<u8>) {
        let mut buf: Vec<u8> = Vec::new();
        let ghost mut done: Seq<SlotView> = Seq::empty();
        write_u64_field(1, self.file_size, &mut buf);
        proof {
            let slot = tlv::number_slot(1, FieldKind::U64, self@.file_size);
            tlv::slots_bytes_of_push(done, slot);
            done = done.push(slot);
        }
        write_u64_field(2, self.atime, &mut buf);
        proof {
            let slot = tlv::number_slot(2, FieldKind::U64, self@.atime);
            tlv::slots_bytes_of_push(done, slot);
            done = done.push(slot);
        }
        write_u64_field(3, self.mtime, &mut buf);
        proof {
            let slot = tlv::number_slot(3, FieldKind::U64, self@.mtime);
            tlv::slots_bytes_of_push(done, slot);
            done = done.push(slot);
        }
        write_string_field(4, self.options.as_str(), &mut buf);
        proof {
            let slot = tlv::text_slot(4, self@.options);
            tlv::slots_bytes_of_push(done, slot);
            done = done.push(slot);
        }
        write_string_field(5, self.path.as_str(), &mut buf);
        proof {
            let slot = tlv::text_slot(5, self@.path);
            tlv::slots_bytes_of_push(done, slot);
            done = done.push(slot);
        }
        write_string_field(6, self.optional_name.as_str(), &mut buf);
        proof {
            let slot = tlv::text_slot(6, self@.optional_name);
            tlv::slots_bytes_of_push(done, slot);
            done = done.push(slot);
        }
        write_bool_field(7, self.update_if_new, &mut buf);
        proof {
            let slot = tlv::number_slot(7, FieldKind::Bool, tlv::bool_number(self@.update_if_new));
            tlv::slots_bytes_of_push(done, slot);
            done = done.push(slot);
        }
        write_byte_field(8, ByteField::CompressType, self.compress_type, &mut buf);
        proof {
            let slot = tlv::number_slot(8, FieldKind::Byte(ByteField::CompressType), self@.compress_type as u64);
            tlv::slots_bytes_of_push(done, slot);
            done = done.push(slot);
        }
        write_bool_field(9, self.hold_timestamp, &mut buf);
        proof {
            let slot = tlv::number_slot(9, FieldKind::Bool, tlv::bool_number(self@.hold_timestamp));
            tlv::slots_bytes_of_push(done, slot);
            done = done.push(slot);
        }
        write_string_field(10, self.function_name.as_str(), &mut buf);
        proof {
            let slot = tlv::text_slot(10, self@.function_name);
            tlv::slots_bytes_of_push(done, slot);
            done = done.push(slot);
        }
        write_string_field(11, self.client_cwd.as_str(), &mut buf);
        proof {
            let slot = tlv::text_slot(11, self@.client_cwd);
            tlv::slots_bytes_of_push(done, slot);
            done = done.push(slot);
        }
        write_string_field(12, self.reserve1.as_str(), &mut buf);
        proof {
            let slot = tlv::text_slot(12, self@.reserve1);
            tlv::slots_bytes_of_push(done, slot);
            done = done.push(slot);
        }
        write_string_field(13, self.reserve2.as_str(), &mut buf);
        proof {
            let slot = tlv::text_slot(13, self@.reserve2);
            tlv::slots_bytes_of_push(done, slot);
            done = done.push(slot);
        }
        assert(done =~= self@.slots());
        buf
    }
}

impl HdcDeserialize for TransferConfig {
    open spec fn reads(bytes: Seq<u8>, r: Result<Self, CodecError>) -> bool {
        match r {
            Ok(v) => TransferConfigView::parsed(bytes) == Ok::<_, CodecError>(v@),
            Err(e) => TransferConfigView::parsed(bytes) == Err::<TransferConfigView, _>(e),
        }
    }

    fn deserialize(bytes: &[u8]) -> (r: Result<Self, CodecError>) {
        let schema: Vec<FieldKind> = vec![
            FieldKind::Unknown,
            FieldKind::U64,
            FieldKind::U64,
            FieldKind::U64,
            FieldKind::Text,
            FieldKind::Text,
            FieldKind::Text,
            FieldKind::Bool,
            FieldKind::Byte(ByteField::CompressType),
            FieldKind::Bool,
            FieldKind::Text,
            FieldKind::Text,
            FieldKind::Text,
            FieldKind::Text,
        ];
        assert(schema@ =~= TransferConfigView::schema());
        match read_fields(bytes, &schema) {
            Err(e) => Err(e),
            Ok(fields) => Ok(
                TransferConfig {
                    file_size: find_number(&fields, 1),
                    atime: find_number(&fields, 2),
                    mtime: find_number(&fields, 3),
                    options: find_text(&fields, 4),
                    path: find_text(&fields, 5),
                    optional_name: find_text(&fields, 6),
                    update_if_new: find_number(&fields, 7) != 0,
                    compress_type: find_number(&fields, 8) as u8,
                    hold_timestamp: find_number(&fields, 9) != 0,
                    function_name: find_text(&fields, 10),
                    client_cwd: find_text(&fields, 11),
                    reserve1: find_text(&fields, 12),
                    reserve2: find_text(&fields, 13),
                },
            ),
        }
    }
}

/// The fields of a configuration can be read, and say what it says.
proof fn transfer_config_fields(v: TransferConfigView)
    requires
        v.readable(),
    ensures
        tlv::slots_readable(v.slots(), TransferConfigView::schema()),
        TransferConfigView::of_fields(tlv::slots_fields(v.slots())) == v,
{
    let slots = v.slots();
    let schema = TransferConfigView::schema();
    assert(slots.len() == 13 && schema.len() == 14);
    assert(slots[0] == tlv::number_slot(1, FieldKind::U64, v.file_size) && schema[1] == slots[0].kind);
    assert(slots[1] == tlv::number_slot(2, FieldKind::U64, v.atime) && schema[2] == slots[1].kind);
    assert(slots[2] == tlv::number_slot(3, FieldKind::U64, v.mtime) && schema[3] == slots[2].kind);
    assert(slots[3] == tlv::text_slot(4, v.options) && schema[4] == slots[3].kind);
    assert(slots[4] == tlv::text_slot(5, v.path) && schema[5] == slots[4].kind);
    assert(slots[5] == tlv::text_slot(6, v.optional_name) && schema[6] == slots[5].kind);
    assert(slots[6] == tlv::number_slot(7, FieldKind::Bool, tlv::bool_number(v.update_if_new)) && schema[7] == slots[6].kind);
    assert(slots[7] == tlv::number_slot(8, FieldKind::Byte(ByteField::CompressType), v.compress_type as u64) && schema[8] == slots[7].kind);
    assert(slots[8] == tlv::number_slot(9, FieldKind::Bool, tlv::bool_number(v.hold_timestamp)) && schema[9] == slots[8].kind);
    assert(slots[9] == tlv::text_slot(10, v.function_name) && schema[10] == slots[9].kind);
    assert(slots[10] == tlv::text_slot(11, v.client_cwd) && schema[11] == slots[10].kind);
    assert(slots[11] == tlv::text_slot(12, v.reserve1) && schema[12] == slots[11].kind);
    assert(slots[12] == tlv::text_slot(13, v.reserve2) && schema[13] == slots[12].kind);
    assert forall|i: int| 0 <= i < slots.len() implies (#[trigger] slots[i]).number == i + 1 by {}
    assert(tlv::slots_readable(slots, schema)) by {
        assert forall|i: int| 0 <= i < slots.len() implies tlv::slot_readable(#[trigger] slots[i], schema) by {}
    }
    tlv::slot_found(slots, 0);
    tlv::slot_found(slots, 1);
    tlv::slot_found(slots, 2);
    tlv::slot_found(slots, 3);
    tlv::slot_found(slots, 4);
    tlv::slot_found(slots, 5);
    tlv::slot_found(slots, 6);
    tlv::slot_found(slots, 7);
    tlv::slot_found(slots, 8);
    tlv::slot_found(slots, 9);
    tlv::slot_found(slots, 10);
    tlv::slot_found(slots, 11);
    tlv::slot_found(slots, 12);
    let w = TransferConfigView::of_fields(tlv::slots_fields(slots));
    assert(w.options =~= v.options);
    assert(w.path =~= v.path);
    assert(w.optional_name =~= v.optional_name);
    assert(w.function_name =~= v.function_name);
    assert(w.client_cwd =~= v.client_cwd);
    assert(w.reserve1 =~= v.reserve1);
    assert(w.reserve2 =~= v.reserve2);
    assert(w == v);
}

/// What is written is read back.
pub proof fn transfer_config_round_trip(v: TransferConfigView)
    requires
        v.readable(),
    ensures
        TransferConfigView::parsed(tlv::slots_bytes(v.slots())) == Ok::<_, CodecError>(v),
{
    transfer_config_fields(v);
    tlv::fields_read_back(v.slots(), TransferConfigView::schema());
}

/// A field with another number, before or behind what is written, changes nothing.
pub proof fn transfer_config_among_unknown(v: TransferConfigView, field: Seq<u8>)
    requires
        v.readable(),
        tlv::unknown_field(field, TransferConfigView::schema()),
    ensures
        TransferConfigView::parsed(field + tlv::slots_bytes(v.slots())) == Ok::<_, CodecError>(v),
        TransferConfigView::parsed(tlv::slots_bytes(v.slots()) + field) == Ok::<_, CodecError>(v),
{
    transfer_config_fields(v);
    tlv::unknown_changes_nothing(v.slots(), TransferConfigView::schema(), field);
}

/// The rights of a file.
#[derive(Debug, PartialEq, Eq)]
pub struct FileMode {
    pub perm: u64,
    pub u_id: u64,
    pub g_id: u64,
    pub context: String,
    pub full_name: String,
}

/// What a [`FileMode`] says.
pub struct FileModeView {
    pub perm: u64,
    pub u_id: u64,
    pub g_id: u64,
    pub context: Seq<char>,
    pub full_name: Seq<char>,
}

impl View for FileMode {
    type V = FileModeView;

    open spec fn view(&self) -> FileModeView {
        FileModeView {
            perm: self.perm,
            u_id: self.u_id,
            g_id: self.g_id,
            context: self.context@,
            full_name: self.full_name@,
        }
    }
}

impl FileModeView {
    /// The fields that are written, in their order.
    pub open spec fn slots(self) -> Seq<SlotView> {
        seq![
            tlv::number_slot(1, FieldKind::U64, self.perm),
            tlv::number_slot(2, FieldKind::U64, self.u_id),
            tlv::number_slot(3, FieldKind::U64, self.g_id),
            tlv::text_slot(4, self.context),
            tlv::text_slot(5, self.full_name),
        ]
    }

    /// How the fields are read; a field is found by its number.
    pub open spec fn schema() -> Seq<FieldKind> {
        seq![
            FieldKind::Unknown,
            FieldKind::U64,
            FieldKind::U64,
            FieldKind::U64,
            FieldKind::Text,
            FieldKind::Text,
        ]
    }

    /// What the fields say; of several fields with one number the last counts.
    pub open spec fn of_fields(fields: Seq<FieldView>) -> Self {
        FileModeView {
            perm: tlv::number_of(fields, 1),
            u_id: tlv::number_of(fields, 2),
            g_id: tlv::number_of(fields, 3),
            context: tlv::text_of(fields, 4),
            full_name: tlv::text_of(fields, 5),
        }
    }

    /// What comes of reading `bytes`.
    pub open spec fn parsed(bytes: Seq<u8>) -> Result<Self, CodecError> {
        match tlv::fields_from(bytes, 0, Self::schema()) {
            Ok(fields) => Ok(Self::of_fields(fields)),
            Err(e) => Err(e),
        }
    }

    /// The values that survive the encoding: bytes below 128, texts below four
    /// gigabytes.
    pub open spec fn readable(self) -> bool {
        &&& encode_utf8(self.context).len() < 0x1_0000_0000
        &&& encode_utf8(self.full_name).len() < 0x1_0000_0000
    }
}

impl Default for FileMode {
    fn default() -> (r: Self)
        ensures
            r@ == FileModeView::of_fields(Seq::empty()),
    {
        FileMode {
            perm: 0,
            u_id: 0,
            g_id: 0,
            context: String::new(),
            full_name: String::new(),
        }
    }
}

impl HdcSerialize for FileMode {
    open spec fn wire(&self) -> Seq<u8> {
        tlv::slots_bytes(self@.slots())
    }

    fn serialize(&self) -> (r: Vec<u8>) {
        let mut buf: Vec<u8> = Vec::new();
        let ghost mut done: Seq<SlotView> = Seq::empty();
        write_u64_field(1, self.perm, &mut buf);
        proof {
            let slot = tlv::number_slot(1, FieldKind::U64, self@.perm);
            tlv::slots_bytes_of_push(done, slot);
            done = done.push(slot);
        }
        write_u64_field(2, self.u_id, &mut buf);
        proof {
            let slot = tlv::number_slot(2, FieldKind::U64, self@.u_id);
            tlv::slots_bytes_of_push(done, slot);
            done = done.push(slot);
        }
        write_u64_field(3, self.g_id, &mut buf);
        proof {
            let slot = tlv::number_slot(3, FieldKind::U64, self@.g_id);
            tlv::slots_bytes_of_push(done, slot);
            done = done.push(slot);
        }
        write_string_field(4, self.context.as_str(), &mut buf);
        proof {
            let slot = tlv::text_slot(4, self@.context);
            tlv::slots_bytes_of_push(done, slot);
            done = done.push(slot);
        }
        write_string_field(5, self.full_name.as_str(), &mut buf);
        proof {
            let slot = tlv::text_slot(5, self@.full_name);
            tlv::slots_bytes_of_push(done, slot);
            done = done.push(slot);
        }
        assert(done =~= self@.slots());
        buf
    }
}

impl HdcDeserialize for FileMode {
    open spec fn reads(bytes: Seq<u8>, r: Result<Self, CodecError>) -> bool {
        match r {
            Ok(v) => FileModeView::parsed(bytes) == Ok::<_, CodecError>(v@),
            Err(e) => FileModeView::parsed(bytes) == Err::<FileModeView, _>(e),
        }
    }

    fn deserialize(bytes: &[u8]) -> (r: Result<Self, CodecError>) {
        let schema: Vec<FieldKind> = vec![
            FieldKind::Unknown,
            FieldKind::U64,
            FieldKind::U64,
            FieldKind::U64,
            FieldKind::Text,
            FieldKind::Text,
        ];
        assert(schema@ =~= FileModeView::schema());
        match read_fields(bytes, &schema) {
            Err(e) => Err(e),
            Ok(fields) => Ok(
                FileMode {
                    perm: find_number(&fields, 1),
                    u_id: find_number(&fields, 2),
                    g_id: find_number(&fields, 3),
                    context: find_text(&fields, 4),
                    full_name: find_text(&fields, 5),
                },
            ),
        }
    }
}

/// What is written is read back.
pub proof fn file_mode_round_trip(v: FileModeView)
    requires
        v.readable(),
    ensures
        FileModeView::parsed(tlv::slots_bytes(v.slots())) == Ok::<_, CodecError>(v),
{
    let slots = v.slots();
    let schema = FileModeView::schema();
    assert(slots.len() == 5 && schema.len() == 6);
    assert(slots[0] == tlv::number_slot(1, FieldKind::U64, v.perm) && schema[1] == slots[0].kind);
    assert(slots[1] == tlv::number_slot(2, FieldKind::U64, v.u_id) && schema[2] == slots[1].kind);
    assert(slots[2] == tlv::number_slot(3, FieldKind::U64, v.g_id) && schema[3] == slots[2].kind);
    assert(slots[3] == tlv::text_slot(4, v.context) && schema[4] == slots[3].kind);
    assert(slots[4] == tlv::text_slot(5, v.full_name) && schema[5] == slots[4].kind);
    assert forall|i: int| 0 <= i < slots.len() implies (#[trigger] slots[i]).number == i + 1 by {}
    assert(tlv::slots_readable(slots, schema)) by {
        assert forall|i: int| 0 <= i < slots.len() implies tlv::slot_readable(#[trigger] slots[i], schema) by {}
    }
    tlv::fields_read_back(slots, schema);
    tlv::slot_found(slots, 0);
    tlv::slot_found(slots, 1);
    tlv::slot_found(slots, 2);
    tlv::slot_found(slots, 3);
    tlv::slot_found(slots, 4);
    let w = FileModeView::of_fields(tlv::slots_fields(slots));
    assert(w.context =~= v.context);
    assert(w.full_name =~= v.full_name);
    assert(w == v);
}

/// What precedes every piece of a file.
#[derive(Debug, PartialEq, Eq)]
pub struct TransferPayload {
    pub index: u64,
    pub compress_type: u8,
    pub compress_size: u32,
    pub uncompress_size: u32,
}

/// What a [`TransferPayload`] says.
pub struct TransferPayloadView {
    pub index: u64,
    pub compress_type: u8,
    pub compress_size: u32,
    pub uncompress_size: u32,
}

impl View for TransferPayload {
    type V = TransferPayloadView;

    open spec fn view(&self) -> TransferPayloadView {
        TransferPayloadView {
            index: self.index,
            compress_type: self.compress_type,
            compress_size: self.compress_size,
            uncompress_size: self.uncompress_size,
        }
    }
}

impl TransferPayloadView {
    /// The fields that are written, in their order.
    pub open spec fn slots(self) -> Seq<SlotView> {
        seq![
            tlv::number_slot(1, FieldKind::U64, self.index),
            tlv::number_slot(2, FieldKind::Byte(ByteField::CompressType), self.compress_type as u64),
            tlv::number_slot(3, FieldKind::U32, self.compress_size as u64),
            tlv::number_slot(4, FieldKind::U32, self.uncompress_size as u64),
        ]
    }

    /// How the fields are read; a field is found by its number.
    pub open spec fn schema() -> Seq<FieldKind> {
        seq![
            FieldKind::Unknown,
            FieldKind::U64,
            FieldKind::Byte(ByteField::CompressType),
            FieldKind::U32,
            FieldKind::U32,
        ]
    }

    /// What the fields say; of several fields with one number the last counts.
    pub open spec fn of_fields(fields: Seq<FieldView>) -> Self {
        TransferPayloadView {
            index: tlv::number_of(fields, 1),
            compress_type: tlv::number_of(fields, 2) as u8,
            compress_size: tlv::number_of(fields, 3) as u32,
            uncompress_size: tlv::number_of(fields, 4) as u32,
        }
    }

    /// What comes of reading `bytes`, which zeros may fill up.
    pub open spec fn parsed(bytes: Seq<u8>) -> Result<Self, CodecError> {
        match tlv::padded_fields(bytes, Self::schema()) {
            Ok(fields) => Ok(Self::of_fields(fields)),
            Err(e) => Err(e),
        }
    }

    /// The values that survive the encoding: bytes below 128, texts below four
    /// gigabytes.
    pub open spec fn readable(self) -> bool {
        &&& self.compress_type < 128
    }
}

impl Default for TransferPayload {
    fn default() -> (r: Self)
        ensures
            r@ == TransferPayloadView::of_fields(Seq::empty()),
    {
        TransferPayload {
            index: 0,
            compress_type: 0,
            compress_size: 0,
            uncompress_size: 0,
        }
    }
}

impl HdcSerialize for TransferPayload {
    open spec fn wire(&self) -> Seq<u8> {
        tlv::slots_bytes(self@.slots())
    }

    fn serialize(&self) -> (r: Vec<u8>) {
        let mut buf: Vec<u8> = Vec::new();
        let ghost mut done: Seq<SlotView> = Seq::empty();
        write_u64_field(1, self.index, &mut buf);
        proof {
            let slot = tlv::number_slot(1, FieldKind::U64, self@.index);
            tlv::slots_bytes_of_push(done, slot);
            done = done.push(slot);
        }
        write_byte_field(2, ByteField::CompressType, self.compress_type, &mut buf);
        proof {
            let slot = tlv::number_slot(2, FieldKind::Byte(ByteField::CompressType), self@.compress_type as u64);
            tlv::slots_bytes_of_push(done, slot);
            done = done.push(slot);
        }
        write_u32_field(3, self.compress_size, &mut buf);
        proof {
            let slot = tlv::number_slot(3, FieldKind::U32, self@.compress_size as u64);
            tlv::slots_bytes_of_push(done, slot);
            done = done.push(slot);
        }
        write_u32_field(4, self.uncompress_size, &mut buf);
        proof {
            let slot = tlv::number_slot(4, FieldKind::U32, self@.uncompress_size as u64);
            tlv::slots_bytes_of_push(done, slot);
            done = done.push(slot);
        }
        assert(done =~= self@.slots());
        buf
    }
}

impl HdcDeserialize for TransferPayload {
    open spec fn reads(bytes: Seq<u8>, r: Result<Self, CodecError>) -> bool {
        match r {
            Ok(v) => TransferPayloadView::parsed(bytes) == Ok::<_, CodecError>(v@),
            Err(e) => TransferPayloadView::parsed(bytes) == Err::<TransferPayloadView, _>(e),
        }
    }

    fn deserialize(bytes: &[u8]) -> (r: Result<Self, CodecError>) {
        let schema: Vec<FieldKind> = vec![
            FieldKind::Unknown,
            FieldKind::U64,
            FieldKind::Byte(ByteField::CompressType),
            FieldKind::U32,
            FieldKind::U32,
        ];
        assert(schema@ =~= TransferPayloadView::schema());
        match read_padded_fields(bytes, &schema) {
            Err(e) => Err(e),
            Ok(fields) => Ok(
                TransferPayload {
                    index: find_number(&fields, 1),
                    compress_type: find_number(&fields, 2) as u8,
                    compress_size: find_number(&fields, 3) as u32,
                    uncompress_size: find_number(&fields, 4) as u32,
                },
            ),
        }
    }
}

/// What is written is read back, with any number of zeros behind it.
pub proof fn padded_payload_read_back(v: TransferPayloadView, n: nat)
    requires
        v.readable(),
    ensures
        TransferPayloadView::parsed(tlv::slots_bytes(v.slots()) + bytes::zeros(n)) == Ok::<
            _,
            CodecError,
        >(v),
{
    let slots = v.slots();
    let schema = TransferPayloadView::schema();
    assert(slots.len() == 4 && schema.len() == 5);
    assert(slots[0] == tlv::number_slot(1, FieldKind::U64, v.index) && schema[1] == slots[0].kind);
    assert(slots[1] == tlv::number_slot(2, FieldKind::Byte(ByteField::CompressType), v.compress_type as u64) && schema[2] == slots[1].kind);
    assert(slots[2] == tlv::number_slot(3, FieldKind::U32, v.compress_size as u64) && schema[3] == slots[2].kind);
    assert(slots[3] == tlv::number_slot(4, FieldKind::U32, v.uncompress_size as u64) && schema[4] == slots[3].kind);
    assert forall|i: int| 0 <= i < slots.len() implies (#[trigger] slots[i]).number == i + 1 by {}
    assert(tlv::slots_readable(slots, schema)) by {
        assert forall|i: int| 0 <= i < slots.len() implies tlv::slot_readable(#[trigger] slots[i], schema) by {}
    }
    tlv::padded_fields_read_back(slots, schema, n);
    tlv::slot_found(slots, 0);
    tlv::slot_found(slots, 1);
    tlv::slot_found(slots, 2);
    tlv::slot_found(slots, 3);
    let w = TransferPayloadView::of_fields(tlv::slots_fields(slots));
    assert(w == v);
}

/// What is written is read back.
pub proof fn transfer_payload_round_trip(v: TransferPayloadView)
    requires
        v.readable(),
    ensures
        TransferPayloadView::parsed(tlv::slots_bytes(v.slots())) == Ok::<_, CodecError>(v),
{
    padded_payload_read_back(v, 0);
    assert(tlv::slots_bytes(v.slots()) + bytes::zeros(0) =~= tlv::slots_bytes(v.slots()));
}

/// The size of the head of a packet.
pub const HEAD_SIZE: usize = 11;

/// The size of the head of a USB block.
pub const USB_HEAD_SIZE: usize = 11;

/// The size of the head of a serial block.
pub const UART_HEAD_SIZE: usize = 24;

/// The head of a packet.
#[derive(Debug, PartialEq, Eq)]
pub struct PayloadHead {
    pub flag: [u8; 2],
    pub reserve: [u8; 2],
    pub protocol_ver: u8,
    pub head_size: u16,
    pub data_size: u32,
}

/// What a [`PayloadHead`] says.
pub struct PayloadHeadView {
    pub flag: Seq<u8>,
    pub reserve: Seq<u8>,
    pub protocol_ver: u8,
    pub head_size: u16,
    pub data_size: u32,
}

impl View for PayloadHead {
    type V = PayloadHeadView;

    open spec fn view(&self) -> PayloadHeadView {
        PayloadHeadView {
            flag: self.flag@,
            reserve: self.reserve@,
            protocol_ver: self.protocol_ver,
            head_size: self.head_size,
            data_size: self.data_size,
        }
    }
}

impl PayloadHeadView {
    /// The form on the wire.
    pub open spec fn bytes(self) -> Seq<u8> {
        self.flag + self.reserve + seq![self.protocol_ver] + bytes::be16(self.head_size) + bytes::be32(self.data_size)
    }

    /// What 11 bytes say.
    pub open spec fn of_bytes(bytes: Seq<u8>) -> Self {
        PayloadHeadView {
            flag: seq![bytes[0], bytes[1]],
            reserve: seq![bytes[2], bytes[3]],
            protocol_ver: bytes[4],
            head_size: bytes::be16_value(bytes, 5),
            data_size: bytes::be32_value(bytes, 7),
        }
    }
}

impl Default for PayloadHead {
    fn default() -> (r: Self)
        ensures
            r@ == PayloadHeadView::of_bytes(bytes::zeros(11)),
    {
        let r = PayloadHead {
            flag: [0, 0],
            reserve: [0, 0],
            protocol_ver: 0,
            head_size: 0,
            data_size: 0,
        };
        assert(r.flag@ =~= PayloadHeadView::of_bytes(bytes::zeros(11)).flag);
        assert(r.reserve@ =~= PayloadHeadView::of_bytes(bytes::zeros(11)).reserve);
        r
    }
}

impl HdcSerialize for PayloadHead {
    open spec fn wire(&self) -> Seq<u8> {
        self@.bytes()
    }

    fn serialize(&self) -> (r: Vec<u8>) {
        let mut buf: Vec<u8> = Vec::with_capacity(11);
        push_bytes(&mut buf, &self.flag);
        push_bytes(&mut buf, &self.reserve);
        buf.push(self.protocol_ver);
        push_be16(&mut buf, self.head_size);
        push_be32(&mut buf, self.data_size);
        assert(buf@ =~= self@.bytes());
        buf
    }
}

impl HdcDeserialize for PayloadHead {
    open spec fn reads(bytes: Seq<u8>, r: Result<Self, CodecError>) -> bool {
        if bytes.len() < 11 {
            r == Err::<Self, _>(CodecError::PayloadHeadTooShort)
        } else {
            r matches Ok(v) && v@ == PayloadHeadView::of_bytes(bytes)
        }
    }

    fn deserialize(bytes: &[u8]) -> (r: Result<Self, CodecError>) {
        if bytes.len() < 11 {
            return Err(CodecError::PayloadHeadTooShort);
        }
        let r = PayloadHead {
            flag: [bytes[0], bytes[1]],
            reserve: [bytes[2], bytes[3]],
            protocol_ver: bytes[4],
            head_size: read_be16(bytes, 5),
            data_size: read_be32(bytes, 7),
        };
        assert(r.flag@ =~= PayloadHeadView::of_bytes(bytes@).flag);
        assert(r.reserve@ =~= PayloadHeadView::of_bytes(bytes@).reserve);
        Ok(r)
    }
}

/// What is written is read back, whatever follows it.
pub proof fn payload_head_round_trip(v: PayloadHeadView, rest: Seq<u8>)
    requires
        v.flag.len() == 2,
        v.reserve.len() == 2,
    ensures
        v.bytes().len() == 11,
        PayloadHeadView::of_bytes(v.bytes() + rest) == v,
{
    let bytes = v.bytes() + rest;
    let w = PayloadHeadView::of_bytes(bytes);
    assert(w.flag =~= v.flag);
    assert(w.reserve =~= v.reserve);
    assert(bytes::bytes_at(bytes, 5, bytes::be16(v.head_size)));
    bytes::be16_read_back(bytes, 5, v.head_size);
    assert(bytes::bytes_at(bytes, 7, bytes::be32(v.data_size)));
    bytes::be32_read_back(bytes, 7, v.data_size);
    assert(w == v);
}

/// The head of a USB block.
#[derive(Debug, PartialEq, Eq)]
pub struct UsbHead {
    pub flag: [u8; 2],
    pub option: u8,
    pub session_id: u32,
    pub data_size: u32,
}

/// What a [`UsbHead`] says.
pub struct UsbHeadView {
    pub flag: Seq<u8>,
    pub option: u8,
    pub session_id: u32,
    pub data_size: u32,
}

impl View for UsbHead {
    type V = UsbHeadView;

    open spec fn view(&self) -> UsbHeadView {
        UsbHeadView {
            flag: self.flag@,
            option: self.option,
            session_id: self.session_id,
            data_size: self.data_size,
        }
    }
}

impl UsbHeadView {
    /// The form on the wire.
    pub open spec fn bytes(self) -> Seq<u8> {
        self.flag + seq![self.option] + bytes::be32(self.session_id) + bytes::be32(self.data_size)
    }

    /// What 11 bytes say.
    pub open spec fn of_bytes(bytes: Seq<u8>) -> Self {
        UsbHeadView {
            flag: seq![bytes[0], bytes[1]],
            option: bytes[2],
            session_id: bytes::be32_value(bytes, 3),
            data_size: bytes::be32_value(bytes, 7),
        }
    }
}

impl Default for UsbHead {
    fn default() -> (r: Self)
        ensures
            r@ == UsbHeadView::of_bytes(bytes::zeros(11)),
    {
        let r = UsbHead {
            flag: [0, 0],
            option: 0,
            session_id: 0,
            data_size: 0,
        };
        assert(r.flag@ =~= UsbHeadView::of_bytes(bytes::zeros(11)).flag);
        r
    }
}

impl HdcSerialize for UsbHead {
    open spec fn wire(&self) -> Seq<u8> {
        self@.bytes()
    }

    fn serialize(&self) -> (r: Vec<u8>) {
        let mut buf: Vec<u8> = Vec::with_capacity(11);
        push_bytes(&mut buf, &self.flag);
        buf.push(self.option);
        push_be32(&mut buf, self.session_id);
        push_be32(&mut buf, self.data_size);
        assert(buf@ =~= self@.bytes());
        buf
    }
}

impl HdcDeserialize for UsbHead {
    open spec fn reads(bytes: Seq<u8>, r: Result<Self, CodecError>) -> bool {
        if bytes.len() < 11 {
            r == Err::<Self, _>(CodecError::UsbHeadTooShort)
        } else {
            r matches Ok(v) && v@ == UsbHeadView::of_bytes(bytes)
        }
    }

    fn deserialize(bytes: &[u8]) -> (r: Result<Self, CodecError>) {
        if bytes.len() < 11 {
            return Err(CodecError::UsbHeadTooShort);
        }
        let r = UsbHead {
            flag: [bytes[0], bytes[1]],
            option: bytes[2],
            session_id: read_be32(bytes, 3),
            data_size: read_be32(bytes, 7),
        };
        assert(r.flag@ =~= UsbHeadView::of_bytes(bytes@).flag);
        Ok(r)
    }
}

/// What is written is read back, whatever follows it.
pub proof fn usb_head_round_trip(v: UsbHeadView, rest: Seq<u8>)
    requires
        v.flag.len() == 2,
    ensures
        v.bytes().len() == 11,
        UsbHeadView::of_bytes(v.bytes() + rest) == v,
{
    let bytes = v.bytes() + rest;
    let w = UsbHeadView::of_bytes(bytes);
    assert(w.flag =~= v.flag);
    assert(bytes::bytes_at(bytes, 3, bytes::be32(v.session_id)));
    bytes::be32_read_back(bytes, 3, v.session_id);
    assert(bytes::bytes_at(bytes, 7, bytes::be32(v.data_size)));
    bytes::be32_read_back(bytes, 7, v.data_size);
    assert(w == v);
}

/// The head of a serial block.
#[derive(Debug, PartialEq, Eq, Clone)]
pub struct UartHead {
    pub flag: [u8; 2],
    pub option: u16,
    pub session_id: u32,
    pub data_size: u32,
    pub package_index: u32,
    pub data_checksum: u32,
    pub head_checksum: u32,
}

/// What a [`UartHead`] says.
pub struct UartHeadView {
    pub flag: Seq<u8>,
    pub option: u16,
    pub session_id: u32,
    pub data_size: u32,
    pub package_index: u32,
    pub data_checksum: u32,
    pub head_checksum: u32,
}

impl View for UartHead {
    type V = UartHeadView;

    open spec fn view(&self) -> UartHeadView {
        UartHeadView {
            flag: self.flag@,
            option: self.option,
            session_id: self.session_id,
            data_size: self.data_size,
            package_index: self.package_index,
            data_checksum: self.data_checksum,
            head_checksum: self.head_checksum,
        }
    }
}

impl UartHeadView {
    /// The form on the wire.
    pub open spec fn bytes(self) -> Seq<u8> {
        self.flag + bytes::be16(self.option) + bytes::be32(self.session_id) + bytes::be32(self.data_size) + bytes::be32(self.package_index) + bytes::be32(self.data_checksum) + bytes::be32(self.head_checksum)
    }

    /// What 24 bytes say.
    pub open spec fn of_bytes(bytes: Seq<u8>) -> Self {
        UartHeadView {
            flag: seq![bytes[0], bytes[1]],
            option: bytes::be16_value(bytes, 2),
            session_id: bytes::be32_value(bytes, 4),
            data_size: bytes::be32_value(bytes, 8),
            package_index: bytes::be32_value(bytes, 12),
            data_checksum: bytes::be32_value(bytes, 16),
            head_checksum: bytes::be32_value(bytes, 20),
        }
    }
}

impl Default for UartHead {
    fn default() -> (r: Self)
        ensures
            r@ == UartHeadView::of_bytes(bytes::zeros(24)),
    {
        let r = UartHead {
            flag: [0, 0],
            option: 0,
            session_id: 0,
            data_size: 0,
            package_index: 0,
            data_checksum: 0,
            head_checksum: 0,
        };
        assert(r.flag@ =~= UartHeadView::of_bytes(bytes::zeros(24)).flag);
        r
    }
}

impl HdcSerialize for UartHead {
    open spec fn wire(&self) -> Seq<u8> {
        self@.bytes()
    }

    fn serialize(&self) -> (r: Vec<u8>) {
        let mut buf: Vec<u8> = Vec::with_capacity(24);
        push_bytes(&mut buf, &self.flag);
        push_be16(&mut buf, self.option);
        push_be32(&mut buf, self.session_id);
        push_be32(&mut buf, self.data_size);
        push_be32(&mut buf, self.package_index);
        push_be32(&mut buf, self.data_checksum);
        push_be32(&mut buf, self.head_checksum);
        assert(buf@ =~= self@.bytes());
        buf
    }
}

impl HdcDeserialize for UartHead {
    open spec fn reads(bytes: Seq<u8>, r: Result<Self, CodecError>) -> bool {
        if bytes.len() < 24 {
            r == Err::<Self, _>(CodecError::UartHeadTooShort)
        } else {
            r matches Ok(v) && v@ == UartHeadView::of_bytes(bytes)
        }
    }

    fn deserialize(bytes: &[u8]) -> (r: Result<Self, CodecError>) {
        if bytes.len() < 24 {
            return Err(CodecError::UartHeadTooShort);
        }
        let r = UartHead {
            flag: [bytes[0], bytes[1]],
            option: read_be16(bytes, 2),
            session_id: read_be32(bytes, 4),
            data_size: read_be32(bytes, 8),
            package_index: read_be32(bytes, 12),
            data_checksum: read_be32(bytes, 16),
            head_checksum: read_be32(bytes, 20),
        };
        assert(r.flag@ =~= UartHeadView::of_bytes(bytes@).flag);
        Ok(r)
    }
}

/// A number between two runs of bytes is read back.
proof fn number_between(before: Seq<u8>, x: u32, after: Seq<u8>)
    ensures
        bytes::be32_value(before + bytes::be32(x) + after, before.len() as int) == x,
{
    let all = before + bytes::be32(x) + after;
    assert(bytes::bytes_at(all, before.len() as int, bytes::be32(x)));
    bytes::be32_read_back(all, before.len() as int, x);
}

/// What is written is read back, whatever follows it.
pub proof fn uart_head_round_trip(v: UartHeadView, rest: Seq<u8>)
    requires
        v.flag.len() == 2,
    ensures
        v.bytes().len() == 24,
        UartHeadView::of_bytes(v.bytes() + rest) == v,
{
    let bytes = v.bytes() + rest;
    let w = UartHeadView::of_bytes(bytes);
    let p0 = v.flag;
    let p1 = p0 + bytes::be16(v.option);
    let p2 = p1 + bytes::be32(v.session_id);
    let p3 = p2 + bytes::be32(v.data_size);
    let p4 = p3 + bytes::be32(v.package_index);
    let p5 = p4 + bytes::be32(v.data_checksum);
    let r5 = bytes::be32(v.head_checksum) + rest;
    let r4 = bytes::be32(v.data_checksum) + r5;
    let r3 = bytes::be32(v.package_index) + r4;
    let r2 = bytes::be32(v.data_size) + r3;
    let r1 = bytes::be32(v.session_id) + r2;
    assert(bytes == p5 + bytes::be32(v.head_checksum) + rest);
    assert(w.head_checksum == v.head_checksum) by {
        number_between(p5, v.head_checksum, rest);
    }
    assert(bytes =~= p4 + bytes::be32(v.data_checksum) + r5);
    assert(w.data_checksum == v.data_checksum) by {
        number_between(p4, v.data_checksum, r5);
    }
    assert(p4 + r4 =~= p4 + bytes::be32(v.data_checksum) + r5);
    assert(p4 + r4 =~= p3 + bytes::be32(v.package_index) + r4);
    assert(w.package_index == v.package_index) by {
        number_between(p3, v.package_index, r4);
    }
    assert(p3 + r3 =~= p3 + bytes::be32(v.package_index) + r4);
    assert(p3 + r3 =~= p2 + bytes::be32(v.data_size) + r3);
    assert(w.data_size == v.data_size) by {
        number_between(p2, v.data_size, r3);
    }
    assert(p2 + r2 =~= p2 + bytes::be32(v.data_size) + r3);
    assert(p2 + r2 =~= p1 + bytes::be32(v.session_id) + r2);
    assert(w.session_id == v.session_id) by {
        number_between(p1, v.session_id, r2);
    }
    assert(p1 + r1 =~= p1 + bytes::be32(v.session_id) + r2);
    assert(p1 + r1 =~= p0 + bytes::be16(v.option) + r1);
    assert(w.option == v.option) by {
        assert(bytes::bytes_at(bytes, 2, bytes::be16(v.option)));
        bytes::be16_read_back(bytes, 2, v.option);
    }
    assert(w.flag =~= v.flag);
    assert(w == v);
}

/// A number as a field under a byte, left out where it is zero.
pub open spec fn number_field(tag: u8, n: nat) -> Seq<u8> {
    if n == 0 {
        Seq::empty()
    } else {
        seq![tag] + tlv::varint(n)
    }
}

/// A byte as a field under a byte, left out where it is zero.
pub open spec fn byte_field(tag: u8, b: u8) -> Seq<u8> {
    if b == 0 {
        Seq::empty()
    } else {
        seq![tag, b]
    }
}

/// A text as a field under a byte, left out where it is empty.
pub open spec fn text_field(tag: u8, t: Seq<char>) -> Seq<u8> {
    if t.len() == 0 {
        Seq::empty()
    } else {
        seq![tag] + tlv::varint(encode_utf8(t).len()) + encode_utf8(t)
    }
}

proof fn text_is_a_field(number: u32, t: Seq<char>)
    requires
        0 < number < 16,
        encode_utf8(t).len() < 0x1_0000_0000,
    ensures
        tlv::slot_bytes(tlv::text_slot(number, t)) == text_field((8 * number + 2) as u8, t),
{
    tlv::forms_of_fields(number, 0, 0, t, ByteField::AuthType);
    assert(tlv::slot_bytes(tlv::text_slot(number, t)) =~= text_field((8 * number + 2) as u8, t));
}

proof fn number_is_a_field(number: u32, n: u64)
    requires
        0 < number < 16,
    ensures
        tlv::slot_bytes(tlv::number_slot(number, FieldKind::U64, n)) == number_field(
            (8 * number) as u8,
            n as nat,
        ),
        tlv::slot_bytes(tlv::number_slot(number, FieldKind::U32, n)) == number_field(
            (8 * number) as u8,
            n as nat,
        ),
{
    let t = Seq::<char>::empty();
    assert(encode_utf8(t).len() == 0);
    tlv::forms_of_fields(number, n, 0, t, ByteField::AuthType);
    assert(tlv::slot_bytes(tlv::number_slot(number, FieldKind::U64, n)) =~= number_field(
        (8 * number) as u8,
        n as nat,
    ));
    assert(tlv::slot_bytes(tlv::number_slot(number, FieldKind::U32, n)) =~= number_field(
        (8 * number) as u8,
        n as nat,
    ));
}

proof fn byte_is_a_field(number: u32, b: u8, kind: ByteField)
    requires
        0 < number < 16,
    ensures
        tlv::slot_bytes(tlv::number_slot(number, FieldKind::Byte(kind), b as u64)) == byte_field(
            (8 * number) as u8,
            b,
        ),
        tlv::slot_bytes(tlv::fixed_byte_slot(number, kind, b)) == seq![(8 * number) as u8, b],
{
    let t = Seq::<char>::empty();
    assert(encode_utf8(t).len() == 0);
    tlv::forms_of_fields(number, 0, b, t, kind);
    assert(tlv::slot_bytes(tlv::number_slot(number, FieldKind::Byte(kind), b as u64)) =~= byte_field(
        (8 * number) as u8,
        b,
    ));
}

proof fn truth_is_a_field(number: u32, b: bool)
    requires
        0 < number < 16,
    ensures
        tlv::slot_bytes(tlv::number_slot(number, FieldKind::Bool, tlv::bool_number(b)))
            == byte_field(
            (8 * number) as u8,
            if b {
                1
            } else {
                0
            },
        ),
{
    let t = Seq::<char>::empty();
    assert(encode_utf8(t).len() == 0);
    tlv::forms_of_fields(number, 0, 0, t, ByteField::AuthType);
    assert(tlv::slot_bytes(tlv::number_slot(number, FieldKind::Bool, tlv::bool_number(b)))
        =~= byte_field(
        (8 * number) as u8,
        if b {
            1
        } else {
            0
        },
    ));
}

/// What stands where in a handshake. The way of authenticating stands there even if it is 0.
pub proof fn layout_of_handshakes(v: SessionHandShakeView)
    requires
        v.readable(),
    ensures
        v.slots().len() == 6,
        tlv::slot_bytes(v.slots()[0]) == text_field(10, v.banner),
        tlv::slot_bytes(v.slots()[1]) == seq![16u8, v.auth_type],
        tlv::slot_bytes(v.slots()[2]) == number_field(24, v.session_id as nat),
        tlv::slot_bytes(v.slots()[3]) == text_field(34, v.connect_key),
        tlv::slot_bytes(v.slots()[4]) == text_field(42, v.buf),
        tlv::slot_bytes(v.slots()[5]) == text_field(50, v.version),
{
    text_is_a_field(1, v.banner);
    byte_is_a_field(2, v.auth_type, ByteField::AuthType);
    number_is_a_field(3, v.session_id as u64);
    text_is_a_field(4, v.connect_key);
    text_is_a_field(5, v.buf);
    text_is_a_field(6, v.version);
}

/// What stands where in front of a message.
pub proof fn layout_of_addressees(v: PayloadProtectView)
    ensures
        v.slots().len() == 4,
        tlv::slot_bytes(v.slots()[0]) == number_field(8, v.channel_id as nat),
        tlv::slot_bytes(v.slots()[1]) == number_field(16, v.command_flag as nat),
        tlv::slot_bytes(v.slots()[2]) == byte_field(24, v.check_sum),
        tlv::slot_bytes(v.slots()[3]) == byte_field(32, v.v_code),
{
    number_is_a_field(1, v.channel_id as u64);
    number_is_a_field(2, v.command_flag as u64);
    byte_is_a_field(3, v.check_sum, ByteField::CheckSum);
    byte_is_a_field(4, v.v_code, ByteField::VCode);
}

/// What stands where in the description of a file.
pub proof fn layout_of_descriptions(v: TransferConfigView)
    requires
        v.readable(),
    ensures
        v.slots().len() == 13,
        tlv::slot_bytes(v.slots()[0]) == number_field(8, v.file_size as nat),
        tlv::slot_bytes(v.slots()[1]) == number_field(16, v.atime as nat),
        tlv::slot_bytes(v.slots()[2]) == number_field(24, v.mtime as nat),
        tlv::slot_bytes(v.slots()[3]) == text_field(34, v.options),
        tlv::slot_bytes(v.slots()[4]) == text_field(42, v.path),
        tlv::slot_bytes(v.slots()[5]) == text_field(50, v.optional_name),
        v.update_if_new ==> tlv::slot_bytes(v.slots()[6]) == seq![56u8, 1u8],
        !v.update_if_new ==> tlv::slot_bytes(v.slots()[6]).len() == 0,
        tlv::slot_bytes(v.slots()[7]) == byte_field(64, v.compress_type),
        v.hold_timestamp ==> tlv::slot_bytes(v.slots()[8]) == seq![72u8, 1u8],
        !v.hold_timestamp ==> tlv::slot_bytes(v.slots()[8]).len() == 0,
        tlv::slot_bytes(v.slots()[9]) == text_field(82, v.function_name),
        tlv::slot_bytes(v.slots()[10]) == text_field(90, v.client_cwd),
        tlv::slot_bytes(v.slots()[11]) == text_field(98, v.reserve1),
        tlv::slot_bytes(v.slots()[12]) == text_field(106, v.reserve2),
{
    number_is_a_field(1, v.file_size);
    number_is_a_field(2, v.atime);
    number_is_a_field(3, v.mtime);
    text_is_a_field(4, v.options);
    text_is_a_field(5, v.path);
    text_is_a_field(6, v.optional_name);
    truth_is_a_field(7, v.update_if_new);
    byte_is_a_field(8, v.compress_type, ByteField::CompressType);
    truth_is_a_field(9, v.hold_timestamp);
    text_is_a_field(10, v.function_name);
    text_is_a_field(11, v.client_cwd);
    text_is_a_field(12, v.reserve1);
    text_is_a_field(13, v.reserve2);
}

/// What stands where in the mode of a file, and in front of a piece of a file.
pub proof fn layout_of_modes_and_pieces(v: FileModeView, w: TransferPayloadView)
    requires
        v.readable(),
    ensures
        v.slots().len() == 5,
        tlv::slot_bytes(v.slots()[0]) == number_field(8, v.perm as nat),
        tlv::slot_bytes(v.slots()[1]) == number_field(16, v.u_id as nat),
        tlv::slot_bytes(v.slots()[2]) == number_field(24, v.g_id as nat),
        tlv::slot_bytes(v.slots()[3]) == text_field(34, v.context),
        tlv::slot_bytes(v.slots()[4]) == text_field(42, v.full_name),
        w.slots().len() == 4,
        tlv::slot_bytes(w.slots()[0]) == number_field(8, w.index as nat),
        tlv::slot_bytes(w.slots()[1]) == byte_field(16, w.compress_type),
        tlv::slot_bytes(w.slots()[2]) == number_field(24, w.compress_size as nat),
        tlv::slot_bytes(w.slots()[3]) == number_field(32, w.uncompress_size as nat),
{
    number_is_a_field(1, v.perm);
    number_is_a_field(2, v.u_id);
    number_is_a_field(3, v.g_id);
    text_is_a_field(4, v.context);
    text_is_a_field(5, v.full_name);
    number_is_a_field(1, w.index);
    byte_is_a_field(2, w.compress_type, ByteField::CompressType);
    number_is_a_field(3, w.compress_size as u64);
    number_is_a_field(4, w.uncompress_size as u64);
}

/// What stands where in the heads that have a fixed size: every number takes its full size,
/// the highest byte first.
pub proof fn layout_of_heads(p: PayloadHeadView, u: UsbHeadView, s: UartHeadView)
    requires
        p.flag.len() == 2 && p.reserve.len() == 2,
        u.flag.len() == 2,
        s.flag.len() == 2,
    ensures
        p.bytes().take(2) == p.flag && p.bytes().subrange(2, 4) == p.reserve,
        p.bytes()[4] == p.protocol_ver,
        p.bytes().subrange(5, 7) == bytes::be16(p.head_size),
        p.bytes().skip(7) == bytes::be32(p.data_size),
        u.bytes().take(2) == u.flag && u.bytes()[2] == u.option,
        u.bytes().subrange(3, 7) == bytes::be32(u.session_id),
        u.bytes().skip(7) == bytes::be32(u.data_size),
        s.bytes().take(2) == s.flag,
        s.bytes().subrange(2, 4) == bytes::be16(s.option),
        s.bytes().subrange(4, 8) == bytes::be32(s.session_id),
        s.bytes().subrange(8, 12) == bytes::be32(s.data_size),
        s.bytes().subrange(12, 16) == bytes::be32(s.package_index),
        s.bytes().subrange(16, 20) == bytes::be32(s.data_checksum),
        s.bytes().skip(20) == bytes::be32(s.head_checksum),
{
}

} // verus!
