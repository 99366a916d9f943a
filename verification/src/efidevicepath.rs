//! Device paths: chains of typed nodes that say where a boot target lies.
//!
//! A node is laid out as one byte of type, one byte of sub-type, two bytes of
//! size (little-endian, header included) and the payload. This module knows
//! the hard-drive and file-path nodes of the media type and the two end
//! nodes; every other node is an error.

use crate::guid::{swap_fields, Guid};
use crate::utf16::{
    append_bytes, no_nul, read_text, str_to_utf16, text_from_bytes, text_to_bytes, utf16_encode,
    write_text, TextError,
};
use crate::wire::{
    read_u16_le, read_u32_le, read_u64_le, u16_from_le, u16_le_bytes, u16_to_le, u32_from_le,
    u32_le_bytes, u32_to_le, u64_from_le, u64_le_bytes, u64_to_le,
};
use vstd::prelude::*;

verus! {

/// The type byte of a media node.
pub const MEDIA_DEVICE_PATH: u8 = 0x04;

/// The type byte of an end node.
pub const END_OF_HARDWARE_DEVICE_PATH: u8 = 0x7F;

/// The sub-type byte of a hard-drive node.
pub const HARD_DRIVE_SUBTYPE: u8 = 0x01;

/// The sub-type byte of a file-path node.
pub const FILEPATH_SUBTYPE: u8 = 0x04;

/// The sub-type byte of the node that ends one instance of a device path.
pub const END_INSTANCE_DEVICE_PATH: u8 = 0x01;

/// The sub-type byte of the node that ends a whole device path.
pub const END_ENTIRE_DEVICE_PATH: u8 = 0xFF;

/// The number of payload bytes of a hard-drive node.
pub const HARD_DRIVE_PAYLOAD: usize = 38;

/// A node type that this module knows.
#[derive(Clone, Copy, Debug, PartialEq, Eq, Structural)]
pub enum DevicePathType {
    MediaDevicePath,
    End,
}

/// What is wrong inside the payload of a node whose type and sub-type are known.
#[derive(Clone, Copy, Debug, PartialEq, Eq, Structural)]
pub enum SubTypeError {
    /// The byte that names the partition table is neither MBR nor GPT.
    PartitionTable(u8),
    /// The byte that names the kind of signature is none of the three kinds.
    SignatureType(u8),
    /// The code units of a file path are not well-formed UTF-16.
    Utf16,
}

/// Why bytes are not a device path node.
#[derive(Clone, Copy, Debug, PartialEq, Eq, Structural)]
pub enum DevicePathProtocolParseError {
    /// The bytes end before the node does.
    UnexpectedEof,
    /// The type byte names no known node type.
    UnknownType(u8),
    /// The sub-type byte names no known node of the type.
    UnknownSubType { typ: DevicePathType, sub_type: u8 },
    /// The payload of a known node is malformed.
    ParseSubType(SubTypeError),
    /// The size field disagrees with what the node holds.
    InvalidSize,
}

/// The layout of the partition table that a partition belongs to.
#[derive(Clone, Copy, Debug, PartialEq, Eq, Structural)]
pub enum PartitionTableType {
    MBR,
    GPT,
}

impl PartitionTableType {
    /// The byte that stands for the layout in a hard-drive node.
    pub open spec fn byte(self) -> u8 {
        match self {
            PartitionTableType::MBR => 0x01,
            PartitionTableType::GPT => 0x02,
        }
    }

    /// The layout that a byte stands for.
    pub open spec fn of_byte(b: u8) -> Option<PartitionTableType> {
        if b == 0x01 {
            Some(PartitionTableType::MBR)
        } else if b == 0x02 {
            Some(PartitionTableType::GPT)
        } else {
            None
        }
    }

    /// The byte that stands for the layout in a hard-drive node.
    pub fn to_u8(self) -> (b: u8)
        ensures
            b == self.byte(),
    {
        match self {
            PartitionTableType::MBR => 0x01,
            PartitionTableType::GPT => 0x02,
        }
    }

    /// The layout that a byte stands for, if any.
    pub fn from_u8(b: u8) -> (r: Option<PartitionTableType>)
        ensures
            r == PartitionTableType::of_byte(b),
    {
        if b == 0x01 {
            Some(PartitionTableType::MBR)
        } else if b == 0x02 {
            Some(PartitionTableType::GPT)
        } else {
            None
        }
    }
}

/// Which of the two end nodes a node is.
#[derive(Clone, Copy, Debug, PartialEq, Eq, Structural)]
pub enum EndSubType {
    EndEntireDevicePath,
    EndInstanceDevicePath,
}

impl EndSubType {
    /// The sub-type byte of the end node.
    pub open spec fn byte(self) -> u8 {
        match self {
            EndSubType::EndEntireDevicePath => END_ENTIRE_DEVICE_PATH,
            EndSubType::EndInstanceDevicePath => END_INSTANCE_DEVICE_PATH,
        }
    }

    /// The end node that a sub-type byte stands for.
    pub open spec fn of_byte(b: u8) -> Option<EndSubType> {
        if b == END_ENTIRE_DEVICE_PATH {
            Some(EndSubType::EndEntireDevicePath)
        } else if b == END_INSTANCE_DEVICE_PATH {
            Some(EndSubType::EndInstanceDevicePath)
        } else {
            None
        }
    }

    /// The sub-type byte of the end node.
    pub fn sub_type(&self) -> (b: u8)
        ensures
            b == self.byte(),
    {
        match self {
            EndSubType::EndEntireDevicePath => END_ENTIRE_DEVICE_PATH,
            EndSubType::EndInstanceDevicePath => END_INSTANCE_DEVICE_PATH,
        }
    }

    /// The end node that a sub-type byte stands for, if any.
    pub fn from_u8(b: u8) -> (r: Option<EndSubType>)
        ensures
            r == EndSubType::of_byte(b),
    {
        if b == END_ENTIRE_DEVICE_PATH {
            Some(EndSubType::EndEntireDevicePath)
        } else if b == END_INSTANCE_DEVICE_PATH {
            Some(EndSubType::EndInstanceDevicePath)
        } else {
            None
        }
    }
}

/// What identifies a partition: sixteen raw bytes, or an identifier.
pub enum SignatureData {
    NoSignature(Seq<u8>),
    MbrSignature(Seq<u8>),
    Guid(Seq<u8>),
}

impl SignatureData {
    /// The byte that names the kind of signature.
    pub open spec fn kind_byte(self) -> u8 {
        match self {
            SignatureData::NoSignature(_) => 0x00,
            SignatureData::MbrSignature(_) => 0x01,
            SignatureData::Guid(_) => 0x02,
        }
    }

    /// The sixteen bytes as which the signature is stored: raw bytes as they
    /// are, an identifier with its first three fields low byte first.
    pub open spec fn stored(self) -> Seq<u8> {
        match self {
            SignatureData::NoSignature(raw) => raw,
            SignatureData::MbrSignature(raw) => raw,
            SignatureData::Guid(id) => swap_fields(id),
        }
    }

    /// The signature of the given kind that is stored as `stored`.
    pub open spec fn of_stored(kind: u8, stored: Seq<u8>) -> Option<SignatureData> {
        if kind == 0x00 {
            Some(SignatureData::NoSignature(stored))
        } else if kind == 0x01 {
            Some(SignatureData::MbrSignature(stored))
        } else if kind == 0x02 {
            Some(SignatureData::Guid(swap_fields(stored)))
        } else {
            None
        }
    }

    /// Whether the signature has sixteen bytes.
    pub open spec fn wf(self) -> bool {
        match self {
            SignatureData::NoSignature(raw) => raw.len() == 16,
            SignatureData::MbrSignature(raw) => raw.len() == 16,
            SignatureData::Guid(id) => id.len() == 16,
        }
    }
}

/// What a hard-drive node says of a partition.
pub struct HardDrivePartition {
    pub partition_number: u32,
    pub partition_start: u64,
    pub partition_size: u64,
    pub signature: SignatureData,
    pub partition_table: PartitionTableType,
}

/// A device path node as a mathematical value.
pub enum DevicePathNode {
    HardDrivePartition(HardDrivePartition),
    FilePath(Seq<char>),
    End(EndSubType),
}

/// The payload of a hard-drive node.
pub open spec fn hard_drive_payload(h: HardDrivePartition) -> Seq<u8> {
    u32_to_le(h.partition_number) + u64_to_le(h.partition_start) + u64_to_le(h.partition_size)
        + h.signature.stored() + seq![h.partition_table.byte(), h.signature.kind_byte()]
}

/// The partition that the bytes at the start of `p` describe. The fields are
/// read one after the other, 38 bytes in all, and what follows them is not
/// looked at. Bytes that end before a field does are a truncation; the byte
/// that names the partition table is looked at before the byte that names
/// the kind of signature is read.
pub open spec fn decode_hard_drive(p: Seq<u8>) -> Result<
    HardDrivePartition,
    DevicePathProtocolParseError,
> {
    if p.len() < 37 {
        Err(DevicePathProtocolParseError::UnexpectedEof)
    } else {
        match PartitionTableType::of_byte(p[36]) {
            None => Err(
                DevicePathProtocolParseError::ParseSubType(SubTypeError::PartitionTable(p[36])),
            ),
            Some(partition_table) => if p.len() < 38 {
                Err(DevicePathProtocolParseError::UnexpectedEof)
            } else {
                match SignatureData::of_stored(p[37], p.subrange(20, 36)) {
                    None => Err(
                        DevicePathProtocolParseError::ParseSubType(
                            SubTypeError::SignatureType(p[37]),
                        ),
                    ),
                    Some(signature) => Ok(
                        HardDrivePartition {
                            partition_number: u32_from_le(p.subrange(0, 4)),
                            partition_start: u64_from_le(p.subrange(4, 12)),
                            partition_size: u64_from_le(p.subrange(12, 20)),
                            signature,
                            partition_table,
                        },
                    ),
                }
            },
        }
    }
}

/// The path at the start of `p`: the text up to the first zero code unit.
/// What follows that code unit is not looked at.
pub open spec fn decode_file_path(p: Seq<u8>) -> Result<Seq<char>, DevicePathProtocolParseError> {
    match text_from_bytes(p) {
        Err(TextError::Unterminated) => Err(DevicePathProtocolParseError::UnexpectedEof),
        Err(TextError::InvalidUtf16) => Err(
            DevicePathProtocolParseError::ParseSubType(SubTypeError::Utf16),
        ),
        Ok((path, _)) => Ok(path),
    }
}

/// The media node that a sub-type byte and a payload describe.
pub open spec fn decode_media(sub_type: u8, p: Seq<u8>) -> Result<
    DevicePathNode,
    DevicePathProtocolParseError,
> {
    if sub_type == HARD_DRIVE_SUBTYPE {
        match decode_hard_drive(p) {
            Ok(h) => Ok(DevicePathNode::HardDrivePartition(h)),
            Err(e) => Err(e),
        }
    } else if sub_type == FILEPATH_SUBTYPE {
        match decode_file_path(p) {
            Ok(path) => Ok(DevicePathNode::FilePath(path)),
            Err(e) => Err(e),
        }
    } else {
        Err(
            DevicePathProtocolParseError::UnknownSubType {
                typ: DevicePathType::MediaDevicePath,
                sub_type,
            },
        )
    }
}

/// The end node that a sub-type byte stands for. An end node has no payload.
pub open spec fn decode_end(sub_type: u8) -> Result<DevicePathNode, DevicePathProtocolParseError> {
    match EndSubType::of_byte(sub_type) {
        None => Err(
            DevicePathProtocolParseError::UnknownSubType { typ: DevicePathType::End, sub_type },
        ),
        Some(end) => Ok(DevicePathNode::End(end)),
    }
}

/// Whether a sub-type byte names a node of the media type that is known.
pub open spec fn is_media_sub_type(sub_type: u8) -> bool {
    sub_type == HARD_DRIVE_SUBTYPE || sub_type == FILEPATH_SUBTYPE
}

impl DevicePathNode {
    /// The node's type byte.
    pub open spec fn type_byte(self) -> u8 {
        match self {
            DevicePathNode::End(_) => END_OF_HARDWARE_DEVICE_PATH,
            _ => MEDIA_DEVICE_PATH,
        }
    }

    /// The node's sub-type byte.
    pub open spec fn sub_type_byte(self) -> u8 {
        match self {
            DevicePathNode::HardDrivePartition(_) => HARD_DRIVE_SUBTYPE,
            DevicePathNode::FilePath(_) => FILEPATH_SUBTYPE,
            DevicePathNode::End(end) => end.byte(),
        }
    }

    /// The bytes that follow the node's header.
    pub open spec fn payload(self) -> Seq<u8> {
        match self {
            DevicePathNode::HardDrivePartition(h) => hard_drive_payload(h),
            DevicePathNode::FilePath(path) => text_to_bytes(path),
            DevicePathNode::End(_) => Seq::empty(),
        }
    }

    /// The number of bytes of the node, header included.
    pub open spec fn size(self) -> int {
        4 + self.payload().len() as int
    }

    /// Whether the node is an end node.
    pub open spec fn is_end(self) -> bool {
        self is End
    }

    /// Whether the node can be written and read back: its signature has
    /// sixteen bytes, its path holds no U+0000, and its size fits the two
    /// bytes of the size field.
    pub open spec fn wf(self) -> bool {
        &&& self.size() <= 0xFFFF
        &&& match self {
            DevicePathNode::HardDrivePartition(h) => h.signature.wf(),
            DevicePathNode::FilePath(path) => no_nul(path),
            DevicePathNode::End(_) => true,
        }
    }
}

/// The bytes of a node: type, sub-type, size, payload.
#[verifier::opaque]
pub open spec fn encode_node(n: DevicePathNode) -> Seq<u8> {
    seq![n.type_byte(), n.sub_type_byte()] + u16_to_le(n.size() as u16) + n.payload()
}

/// The node at the start of `b` and its size in bytes. The header is read
/// first and the node is told by its type and then its sub-type. The size
/// field then says where the node ends: the payload is read from the bytes
/// up to there, and the size that the node read has by what it holds must
/// be the size that the field says.
#[verifier::opaque]
pub open spec fn decode_node(b: Seq<u8>) -> Result<(DevicePathNode, int), DevicePathProtocolParseError> {
    if b.len() < 4 {
        Err(DevicePathProtocolParseError::UnexpectedEof)
    } else if b[0] != MEDIA_DEVICE_PATH && b[0] != END_OF_HARDWARE_DEVICE_PATH {
        Err(DevicePathProtocolParseError::UnknownType(b[0]))
    } else if b[0] == MEDIA_DEVICE_PATH && !is_media_sub_type(b[1]) {
        Err(
            DevicePathProtocolParseError::UnknownSubType {
                typ: DevicePathType::MediaDevicePath,
                sub_type: b[1],
            },
        )
    } else if b[0] == END_OF_HARDWARE_DEVICE_PATH && EndSubType::of_byte(b[1]) is None {
        Err(
            DevicePathProtocolParseError::UnknownSubType { typ: DevicePathType::End, sub_type: b[1] },
        )
    } else {
        let size = u16_from_le(b.subrange(2, 4)) as int;
        if size < 4 {
            Err(DevicePathProtocolParseError::InvalidSize)
        } else if b.len() < size {
            Err(DevicePathProtocolParseError::UnexpectedEof)
        } else {
            let node = if b[0] == MEDIA_DEVICE_PATH {
                decode_media(b[1], b.subrange(4, size))
            } else {
                decode_end(b[1])
            };
            match node {
                Err(e) => Err(e),
                Ok(n) => if n.size() == size {
                    Ok((n, size))
                } else {
                    Err(DevicePathProtocolParseError::InvalidSize)
                },
            }
        }
    }
}

/// The bytes of the nodes of a list, one after the other.
pub open spec fn encode_nodes(c: Seq<DevicePathNode>) -> Seq<u8>
    decreases c.len(),
{
    if c.len() == 0 {
        Seq::empty()
    } else {
        encode_node(c[0]) + encode_nodes(c.skip(1))
    }
}

/// The bytes of a device path: its nodes, then the node that ends a whole
/// device path, which the list itself does not hold.
pub open spec fn encode_list(c: Seq<DevicePathNode>) -> Seq<u8> {
    encode_nodes(c) + encode_node(DevicePathNode::End(EndSubType::EndEntireDevicePath))
}

/// The device path at the start of `b`: the nodes before the first end node,
/// and the number of bytes up to and including that end node.
pub open spec fn decode_list(b: Seq<u8>) -> Result<
    (Seq<DevicePathNode>, int),
    DevicePathProtocolParseError,
>
    decreases b.len(),
{
    match decode_node(b) {
        Err(e) => Err(e),
        Ok((node, size)) => if node.is_end() {
            Ok((Seq::empty(), size))
        } else if 0 < size <= b.len() {
            match decode_list(b.skip(size)) {
                Err(e) => Err(e),
                Ok((rest, used)) => Ok((seq![node] + rest, size + used)),
            }
        } else {
            // Never taken: a node that was read takes at least its header
            // and at most the bytes at hand.
            Err(DevicePathProtocolParseError::InvalidSize)
        },
    }
}

/// Whether every node of a list can be written and read back and none is an
/// end node, which would end the list early.
pub open spec fn list_wf(c: Seq<DevicePathNode>) -> bool {
    forall|i: int| 0 <= i < c.len() ==> (#[trigger] c[i]).wf() && !c[i].is_end()
}

/// Why a value cannot be written.
#[derive(Clone, Copy, Debug, PartialEq, Eq, Structural)]
pub enum EncodeError {
    /// A node is larger than its two-byte size field can say.
    NodeTooLarge,
    /// A device path is larger than the two-byte length field of a load
    /// option can say.
    ListTooLarge,
}

/// What identifies a partition.
#[derive(Clone, Copy, Debug, PartialEq, Eq)]
pub enum Signature {
    NoSignature([u8; 16]),
    /// The 32-bit signature of an MBR, in sixteen bytes.
    MBRSignature([u8; 16]),
    GUID(Guid),
}

impl View for Signature {
    type V = SignatureData;

    open spec fn view(&self) -> SignatureData {
        match *self {
            Signature::NoSignature(raw) => SignatureData::NoSignature(raw@),
            Signature::MBRSignature(raw) => SignatureData::MbrSignature(raw@),
            Signature::GUID(id) => SignatureData::Guid(id@),
        }
    }
}

impl Signature {
    /// The byte that names the kind of signature.
    pub fn to_u8(&self) -> (b: u8)
        ensures
            b == self@.kind_byte(),
    {
        match self {
            Signature::NoSignature(_) => 0x00,
            Signature::MBRSignature(_) => 0x01,
            Signature::GUID(_) => 0x02,
        }
    }

    /// The sixteen bytes as which the signature is stored.
    pub fn stored(&self) -> (b: [u8; 16])
        ensures
            b@ == self@.stored(),
    {
        match self {
            Signature::NoSignature(raw) => *raw,
            Signature::MBRSignature(raw) => *raw,
            Signature::GUID(id) => id.to_bytes_le(),
        }
    }
}

/// The node that names a partition of a hard drive.
#[derive(Clone, Debug, PartialEq, Eq)]
pub struct HardDriveDevicePath {
    partition_number: u32,
    partition_start: u64,
    partition_size: u64,
    signature: Signature,
    partition_table: PartitionTableType,
}

impl View for HardDriveDevicePath {
    type V = HardDrivePartition;

    closed spec fn view(&self) -> HardDrivePartition {
        HardDrivePartition {
            partition_number: self.partition_number,
            partition_start: self.partition_start,
            partition_size: self.partition_size,
            signature: self.signature@,
            partition_table: self.partition_table,
        }
    }
}

impl HardDriveDevicePath {
    /// A partition of a GPT disk, named by its identifier.
    pub fn new_gpt(partition_number: u32, partition_start: u64, partition_size: u64, uuid: Guid) -> (h:
        Self)
        ensures
            h@ == (HardDrivePartition {
                partition_number,
                partition_start,
                partition_size,
                signature: SignatureData::Guid(uuid@),
                partition_table: PartitionTableType::GPT,
            }),
    {
        HardDriveDevicePath {
            partition_number,
            partition_start,
            partition_size,
            signature: Signature::GUID(uuid),
            partition_table: PartitionTableType::GPT,
        }
    }

    /// Reads a hard-drive node from the bytes at the start of `payload`; what
    /// follows the node's 38 bytes is left unread.
    pub fn parse(payload: &[u8]) -> (r: Result<Self, DevicePathProtocolParseError>)
        ensures
            match r {
                Ok(h) => decode_hard_drive(payload@) == Ok::<
                    HardDrivePartition,
                    DevicePathProtocolParseError,
                >(h@),
                Err(e) => decode_hard_drive(payload@) == Err::<
                    HardDrivePartition,
                    DevicePathProtocolParseError,
                >(e),
            },
    {
        if payload.len() < 37 {
            return Err(DevicePathProtocolParseError::UnexpectedEof);
        }
        let partition_number = read_u32_le(&payload[0..4]);
        let partition_start = read_u64_le(&payload[4..12]);
        let partition_size = read_u64_le(&payload[12..20]);
        let signature_data: [u8; 16] = [
            payload[20], payload[21], payload[22], payload[23],
            payload[24], payload[25], payload[26], payload[27],
            payload[28], payload[29], payload[30], payload[31],
            payload[32], payload[33], payload[34], payload[35],
        ];
        assert(signature_data@ =~= payload@.subrange(20, 36));
        let partition_table = match PartitionTableType::from_u8(payload[36]) {
            Some(t) => t,
            None => {
                return Err(
                    DevicePathProtocolParseError::ParseSubType(
                        SubTypeError::PartitionTable(payload[36]),
                    ),
                );
            },
        };
        if payload.len() < HARD_DRIVE_PAYLOAD {
            return Err(DevicePathProtocolParseError::UnexpectedEof);
        }
        let signature_type = payload[37];
        let signature = if signature_type == 0x00 {
            Signature::NoSignature(signature_data)
        } else if signature_type == 0x01 {
            Signature::MBRSignature(signature_data)
        } else if signature_type == 0x02 {
            Signature::GUID(Guid::from_bytes_le(signature_data))
        } else {
            return Err(
                DevicePathProtocolParseError::ParseSubType(
                    SubTypeError::SignatureType(signature_type),
                ),
            );
        };
        Ok(
            HardDriveDevicePath {
                partition_number,
                partition_start,
                partition_size,
                signature,
                partition_table,
            },
        )
    }

    /// Every hard-drive node has a signature of sixteen bytes, and so a
    /// payload of 38 bytes.
    pub proof fn lemma_signature_wf(self)
        ensures
            self@.signature.wf(),
            hard_drive_payload(self@).len() == HARD_DRIVE_PAYLOAD,
    {
    }

    /// Appends the node's payload, 38 bytes, to `out`.
    pub fn write(&self, out: &mut Vec<u8>)
        ensures
            final(out)@ == old(out)@ + hard_drive_payload(self@),
            hard_drive_payload(self@).len() == HARD_DRIVE_PAYLOAD,
            self@.signature.wf(),
    {
        let number = u32_le_bytes(self.partition_number);
        append_bytes(out, number.as_slice());
        let start = u64_le_bytes(self.partition_start);
        append_bytes(out, start.as_slice());
        let size = u64_le_bytes(self.partition_size);
        append_bytes(out, size.as_slice());
        let stored = self.signature.stored();
        append_bytes(out, stored.as_slice());
        out.push(self.partition_table.to_u8());
        out.push(self.signature.to_u8());
    }
}

/// The node that names a file by its path.
#[derive(Clone, Debug, PartialEq, Eq)]
pub struct FilePathDevicePath {
    path_name: String,
}

impl View for FilePathDevicePath {
    type V = Seq<char>;

    closed spec fn view(&self) -> Seq<char> {
        self.path_name@
    }
}

impl FilePathDevicePath {
    /// The node that names the file at `path`.
    pub fn new(path: &str) -> (f: Self)
        ensures
            f@ == path@,
    {
        FilePathDevicePath { path_name: path.to_owned() }
    }

    /// The path.
    pub fn path_name(&self) -> (path: &str)
        ensures
            path@ == self@,
    {
        self.path_name.as_str()
    }

    /// Reads a file-path node from the bytes at the start of `payload`: the
    /// path up to the first zero code unit. What follows it is left unread.
    pub fn parse(payload: &[u8]) -> (r: Result<Self, DevicePathProtocolParseError>)
        ensures
            match r {
                Ok(f) => decode_file_path(payload@) == Ok::<Seq<char>, DevicePathProtocolParseError>(
                    f@,
                ),
                Err(e) => decode_file_path(payload@) == Err::<
                    Seq<char>,
                    DevicePathProtocolParseError,
                >(e),
            },
    {
        match read_text(payload) {
            Err(TextError::Unterminated) => Err(DevicePathProtocolParseError::UnexpectedEof),
            Err(TextError::InvalidUtf16) => Err(
                DevicePathProtocolParseError::ParseSubType(SubTypeError::Utf16),
            ),
            Ok((path_name, _)) => Ok(FilePathDevicePath { path_name }),
        }
    }
}

/// A node of the media type.
#[derive(Clone, Debug, PartialEq, Eq)]
pub enum MediaDevicePath {
    HardDrive(HardDriveDevicePath),
    FilePath(FilePathDevicePath),
}

impl View for MediaDevicePath {
    type V = DevicePathNode;

    open spec fn view(&self) -> DevicePathNode {
        match *self {
            MediaDevicePath::HardDrive(h) => DevicePathNode::HardDrivePartition(h@),
            MediaDevicePath::FilePath(f) => DevicePathNode::FilePath(f@),
        }
    }
}

impl MediaDevicePath {
    /// Reads a media node from its sub-type byte and its payload.
    pub fn parse(sub_type: u8, payload: &[u8]) -> (r: Result<Self, DevicePathProtocolParseError>)
        ensures
            match r {
                Ok(m) => decode_media(sub_type, payload@) == Ok::<
                    DevicePathNode,
                    DevicePathProtocolParseError,
                >(m@),
                Err(e) => decode_media(sub_type, payload@) == Err::<
                    DevicePathNode,
                    DevicePathProtocolParseError,
                >(e),
            },
    {
        if sub_type == HARD_DRIVE_SUBTYPE {
            match HardDriveDevicePath::parse(payload) {
                Ok(h) => Ok(MediaDevicePath::HardDrive(h)),
                Err(e) => Err(e),
            }
        } else if sub_type == FILEPATH_SUBTYPE {
            match FilePathDevicePath::parse(payload) {
                Ok(f) => Ok(MediaDevicePath::FilePath(f)),
                Err(e) => Err(e),
            }
        } else {
            Err(
                DevicePathProtocolParseError::UnknownSubType {
                    typ: DevicePathType::MediaDevicePath,
                    sub_type,
                },
            )
        }
    }

    /// Appends the node's payload to `out`.
    pub fn write(&self, out: &mut Vec<u8>)
        ensures
            final(out)@ == old(out)@ + self@.payload(),
    {
        match self {
            MediaDevicePath::HardDrive(value) => value.write(out),
            MediaDevicePath::FilePath(value) => write_text(value.path_name(), out),
        }
    }

    /// The number of bytes of the node's payload, if the node's size fits its
    /// size field.
    pub fn checked_size(&self) -> (r: Option<u16>)
        ensures
            match r {
                Some(n) => n == self@.payload().len() && self@.size() <= 0xFFFF,
                None => self@.size() > 0xFFFF,
            },
    {
        match self {
            MediaDevicePath::HardDrive(_) => {
                proof {
                    lemma_hard_drive_payload_len(self@->HardDrivePartition_0);
                }
                Some(38)
            },
            MediaDevicePath::FilePath(value) => {
                let units = str_to_utf16(value.path_name());
                proof {
                    lemma_text_len(value@);
                }
                if units.len() > 32764 {
                    None
                } else {
                    let n: u16 = units.len() as u16;
                    Some((n + 1) * 2)
                }
            },
        }
    }

    /// The number of bytes of the node's payload.
    pub fn size(&self) -> (n: u16)
        requires
            self@.size() <= 0xFFFF,
        ensures
            n == self@.payload().len(),
    {
        match self.checked_size() {
            Some(n) => n,
            None => 0,
        }
    }

    /// The node's sub-type byte.
    pub fn sub_type(&self) -> (b: u8)
        ensures
            b == self@.sub_type_byte(),
    {
        match self {
            MediaDevicePath::HardDrive(_) => HARD_DRIVE_SUBTYPE,
            MediaDevicePath::FilePath(_) => FILEPATH_SUBTYPE,
        }
    }
}

/// A hard-drive payload has 38 bytes, whatever the signature's length says.
pub proof fn lemma_hard_drive_payload_len(h: HardDrivePartition)
    ensures
        hard_drive_payload(h).len() == 22 + h.signature.stored().len(),
        h.signature.wf() ==> hard_drive_payload(h).len() == 38,
{
}

/// A text field has two bytes for each code unit and two for the terminator.
pub proof fn lemma_text_len(s: Seq<char>)
    ensures
        text_to_bytes(s).len() == 2 * (utf16_encode(s).len() + 1),
{
}

/// A device path node.
#[derive(Clone, Debug, PartialEq, Eq)]
pub enum EFIDevicePathProtocol {
    MediaDevicePath(MediaDevicePath),
    End(EndSubType),
}

impl View for EFIDevicePathProtocol {
    type V = DevicePathNode;

    open spec fn view(&self) -> DevicePathNode {
        match *self {
            EFIDevicePathProtocol::MediaDevicePath(m) => m@,
            EFIDevicePathProtocol::End(end) => DevicePathNode::End(end),
        }
    }
}

impl EFIDevicePathProtocol {
    /// The node that names a partition of a GPT disk by its identifier.
    pub fn new_hard_drive_gpt(
        partition_number: u32,
        partition_start: u64,
        partition_size: u64,
        uuid: Guid,
    ) -> (n: Self)
        ensures
            n@ == DevicePathNode::HardDrivePartition(
                HardDrivePartition {
                    partition_number,
                    partition_start,
                    partition_size,
                    signature: SignatureData::Guid(uuid@),
                    partition_table: PartitionTableType::GPT,
                },
            ),
    {
        EFIDevicePathProtocol::MediaDevicePath(
            MediaDevicePath::HardDrive(
                HardDriveDevicePath::new_gpt(partition_number, partition_start, partition_size, uuid),
            ),
        )
    }

    /// The node that names the file at `path`.
    pub fn new_file_path(path: &str) -> (n: Self)
        ensures
            n@ == DevicePathNode::FilePath(path@),
    {
        EFIDevicePathProtocol::MediaDevicePath(
            MediaDevicePath::FilePath(FilePathDevicePath::new(path)),
        )
    }

    /// The node that ends a whole device path.
    pub fn new_end_entire() -> (n: Self)
        ensures
            n@ == DevicePathNode::End(EndSubType::EndEntireDevicePath),
    {
        EFIDevicePathProtocol::End(EndSubType::EndEntireDevicePath)
    }

    /// The number of bytes of the node, header included, if it fits the size
    /// field.
    pub fn checked_size(&self) -> (r: Option<u16>)
        ensures
            match r {
                Some(n) => n == self@.size(),
                None => self@.size() > 0xFFFF,
            },
    {
        match self {
            EFIDevicePathProtocol::MediaDevicePath(value) => match value.checked_size() {
                Some(n) => Some(4 + n),
                None => None,
            },
            EFIDevicePathProtocol::End(_) => Some(4),
        }
    }

    /// The number of bytes of the node, header included.
    pub fn size(&self) -> (n: u16)
        requires
            self@.size() <= 0xFFFF,
        ensures
            n == self@.size(),
    {
        4 + match self {
            EFIDevicePathProtocol::MediaDevicePath(value) => value.size(),
            EFIDevicePathProtocol::End(_) => 0,
        }
    }

    /// Reads the node at the start of `buf`; returns it with its size in bytes.
    /// A node whose type or sub-type is not known is told first. The node's
    /// payload is then read from the bytes that the size field sets aside for
    /// the node, and the size computed from what was read must be the size that
    /// the field says.
    pub fn parse(buf: &[u8]) -> (r: Result<(Self, usize), DevicePathProtocolParseError>)
        ensures
            match r {
                Ok((n, size)) => 4 <= size <= buf.len() && decode_node(buf@) == Ok::<
                    (DevicePathNode, int),
                    DevicePathProtocolParseError,
                >((n@, size as int)),
                Err(e) => decode_node(buf@) == Err::<
                    (DevicePathNode, int),
                    DevicePathProtocolParseError,
                >(e),
            },
    {
        reveal(decode_node);
        if buf.len() < 4 {
            return Err(DevicePathProtocolParseError::UnexpectedEof);
        }
        let typ = buf[0];
        let sub_type = buf[1];
        if typ != MEDIA_DEVICE_PATH && typ != END_OF_HARDWARE_DEVICE_PATH {
            return Err(DevicePathProtocolParseError::UnknownType(typ));
        }
        if typ == MEDIA_DEVICE_PATH && sub_type != HARD_DRIVE_SUBTYPE && sub_type
            != FILEPATH_SUBTYPE {
            return Err(
                DevicePathProtocolParseError::UnknownSubType {
                    typ: DevicePathType::MediaDevicePath,
                    sub_type,
                },
            );
        }
        let end = EndSubType::from_u8(sub_type);
        if typ == END_OF_HARDWARE_DEVICE_PATH && end.is_none() {
            return Err(
                DevicePathProtocolParseError::UnknownSubType { typ: DevicePathType::End, sub_type },
            );
        }
        let size = read_u16_le(&buf[2..4]) as usize;
        if size < 4 {
            return Err(DevicePathProtocolParseError::InvalidSize);
        }
        if buf.len() < size {
            return Err(DevicePathProtocolParseError::UnexpectedEof);
        }
        let node = if typ == MEDIA_DEVICE_PATH {
            match MediaDevicePath::parse(sub_type, &buf[4..size]) {
                Ok(value) => EFIDevicePathProtocol::MediaDevicePath(value),
                Err(e) => {
                    return Err(e);
                },
            }
        } else {
            EFIDevicePathProtocol::End(end.unwrap())
        };
        match node.checked_size() {
            Some(held) => {
                if held as usize == size {
                    Ok((node, size))
                } else {
                    Err(DevicePathProtocolParseError::InvalidSize)
                }
            },
            None => Err(DevicePathProtocolParseError::InvalidSize),
        }
    }

    /// The signature of a hard-drive node has sixteen bytes.
    pub proof fn lemma_signature_wf(self)
        ensures
            self@ matches DevicePathNode::HardDrivePartition(h) ==> h.signature.wf(),
            self@ is HardDrivePartition ==> self@.size() == 42,
            self@ is End ==> self@.size() == 4,
    {
    }

    /// Appends the node's bytes to `out`, with the size computed from what the
    /// node holds. Fails, and leaves `out` as it was, where that size does not
    /// fit the size field.
    pub fn write(&self, out: &mut Vec<u8>) -> (r: Result<(), EncodeError>)
        ensures
            self@.size() <= 0xFFFF ==> r is Ok && final(out)@ == old(out)@ + encode_node(self@),
            self@.size() > 0xFFFF ==> r == Err::<(), EncodeError>(EncodeError::NodeTooLarge)
                && final(out)@ == old(out)@,
    {
        reveal(encode_node);
        let size = match self.checked_size() {
            Some(n) => n,
            None => {
                return Err(EncodeError::NodeTooLarge);
            },
        };
        let (typ, sub_type) = match self {
            EFIDevicePathProtocol::MediaDevicePath(value) => (MEDIA_DEVICE_PATH, value.sub_type()),
            EFIDevicePathProtocol::End(value) => (END_OF_HARDWARE_DEVICE_PATH, value.sub_type()),
        };
        out.push(typ);
        out.push(sub_type);
        let size_bytes = u16_le_bytes(size);
        append_bytes(out, size_bytes.as_slice());
        match self {
            EFIDevicePathProtocol::MediaDevicePath(media) => media.write(out),
            EFIDevicePathProtocol::End(_) => (),
        };
        Ok(())
    }
}

/// A node is written to as many bytes as its size says.
pub proof fn lemma_encode_node_len(n: DevicePathNode)
    ensures
        encode_node(n).len() == n.size(),
{
    reveal(encode_node);
}

/// The nodes of a list as mathematical values.
pub open spec fn list_view(l: Seq<EFIDevicePathProtocol>) -> Seq<DevicePathNode> {
    l.map_values(|n: EFIDevicePathProtocol| n@)
}

/// Whether the size of every node of a list fits the size field.
pub open spec fn nodes_fit(c: Seq<DevicePathNode>) -> bool {
    forall|i: int| 0 <= i < c.len() ==> (#[trigger] c[i]).size() <= 0xFFFF
}

/// Writing one node more appends that node's bytes.
pub proof fn lemma_encode_nodes_push(c: Seq<DevicePathNode>, n: DevicePathNode)
    ensures
        encode_nodes(c.push(n)) == encode_nodes(c) + encode_node(n),
    decreases c.len(),
{
    if c.len() == 0 {
        assert(encode_nodes(c.push(n).skip(1)) =~= Seq::empty());
    } else {
        assert(c.push(n).skip(1) =~= c.skip(1).push(n));
        lemma_encode_nodes_push(c.skip(1), n);
    }
}

/// Reads the device path at the start of `buf`: the nodes up to the first end
/// node, which is left out of the list. Returns the list and the number of
/// bytes read, the end node's included. The first node that cannot be read
/// fails the whole list.
pub fn parse_device_path_list(buf: &[u8]) -> (r: Result<
    (Vec<EFIDevicePathProtocol>, usize),
    DevicePathProtocolParseError,
>)
    ensures
        match r {
            Ok((list, used)) => decode_list(buf@) == Ok::<
                (Seq<DevicePathNode>, int),
                DevicePathProtocolParseError,
            >((list_view(list@), used as int)),
            Err(e) => decode_list(buf@) == Err::<
                (Seq<DevicePathNode>, int),
                DevicePathProtocolParseError,
            >(e),
        },
{
    let mut list: Vec<EFIDevicePathProtocol> = Vec::new();
    let mut pos: usize = 0;
    assert(buf@.skip(0) == buf@);
    loop
        invariant
            pos <= buf.len(),
            decode_list(buf@) == match decode_list(buf@.skip(pos as int)) {
                Ok((rest, used)) => Ok::<(Seq<DevicePathNode>, int), DevicePathProtocolParseError>(
                    (list_view(list@) + rest, pos + used),
                ),
                Err(e) => Err(e),
            },
        decreases buf.len() - pos,
    {
        let ghost here = buf@.skip(pos as int);
        match EFIDevicePathProtocol::parse(&buf[pos..buf.len()]) {
            Err(e) => {
                return Err(e);
            },
            Ok((node, size)) => {
                pos = pos + size;
                match node {
                    EFIDevicePathProtocol::End(_) => {
                        return Ok((list, pos));
                    },
                    _ => {},
                }
                assert(here.skip(size as int) == buf@.skip(pos as int));
                proof {
                    let ghost before = list_view(list@);
                    match decode_list(here.skip(size as int)) {
                        Ok((rest, used)) => {
                            assert(before.push(node@) + rest == before + (seq![node@] + rest));
                        },
                        Err(_) => {},
                    }
                    assert(list_view(list@.push(node)) == before.push(node@));
                }
                list.push(node);
            },
        }
    }
}

/// The number of bytes of a device path, the node that ends it included.
/// Fails where a node's size does not fit the size field, or else where the
/// whole does not fit two bytes.
pub fn device_path_list_size(list: &Vec<EFIDevicePathProtocol>) -> (r: Result<u16, EncodeError>)
    ensures
        match r {
            Ok(n) => nodes_fit(list_view(list@)) && n == encode_list(list_view(list@)).len(),
            Err(EncodeError::NodeTooLarge) => !nodes_fit(list_view(list@)),
            Err(EncodeError::ListTooLarge) => nodes_fit(list_view(list@)) && encode_list(
                list_view(list@),
            ).len() > 0xFFFF,
        },
{
    let ghost nodes = list_view(list@);
    let mut total: u16 = 4;
    let mut over = false;
    let mut i: usize = 0;
    while i < list.len()
        invariant
            i <= list.len(),
            nodes == list_view(list@),
            nodes_fit(nodes.take(i as int)),
            !over ==> total == 4 + encode_nodes(nodes.take(i as int)).len(),
            over ==> 4 + encode_nodes(nodes.take(i as int)).len() > 0xFFFF,
        decreases list.len() - i,
    {
        proof {
            lemma_encode_nodes_push(nodes.take(i as int), nodes[i as int]);
            lemma_encode_node_len(nodes[i as int]);
            assert(nodes.take(i + 1) == nodes.take(i as int).push(nodes[i as int]));
        }
        match list[i].checked_size() {
            None => {
                return Err(EncodeError::NodeTooLarge);
            },
            Some(n) => {
                if !over {
                    if n > 0xFFFF - total {
                        over = true;
                    } else {
                        total = total + n;
                    }
                }
            },
        }
        i = i + 1;
    }
    assert(nodes.take(i as int) == nodes);
    proof {
        lemma_encode_node_len(DevicePathNode::End(EndSubType::EndEntireDevicePath));
    }
    if over {
        Err(EncodeError::ListTooLarge)
    } else {
        Ok(total)
    }
}

/// Appends the bytes of a device path to `out`: each node in turn, then the
/// node that ends a whole device path. Fails, and leaves `out` as it was,
/// where a node's size does not fit the size field.
pub fn write_device_path_list(list: &Vec<EFIDevicePathProtocol>, out: &mut Vec<u8>) -> (r: Result<
    (),
    EncodeError,
>)
    ensures
        nodes_fit(list_view(list@)) ==> r is Ok && final(out)@ == old(out)@ + encode_list(
            list_view(list@),
        ),
        !nodes_fit(list_view(list@)) ==> r == Err::<(), EncodeError>(EncodeError::NodeTooLarge)
            && final(out)@ == old(out)@,
{
    let ghost nodes = list_view(list@);
    let mut i: usize = 0;
    while i < list.len()
        invariant
            i <= list.len(),
            nodes == list_view(list@),
            nodes_fit(nodes.take(i as int)),
            out@ == old(out)@,
        decreases list.len() - i,
    {
        if list[i].checked_size().is_none() {
            assert(nodes[i as int].size() > 0xFFFF);
            return Err(EncodeError::NodeTooLarge);
        }
        i = i + 1;
    }
    assert(nodes.take(i as int) == nodes);
    i = 0;
    while i < list.len()
        invariant
            i <= list.len(),
            nodes == list_view(list@),
            nodes_fit(nodes),
            out@ == old(out)@ + encode_nodes(nodes.take(i as int)),
        decreases list.len() - i,
    {
        proof {
            lemma_encode_nodes_push(nodes.take(i as int), nodes[i as int]);
            assert(nodes.take(i + 1) == nodes.take(i as int).push(nodes[i as int]));
        }
        let _ = list[i].write(out);
        i = i + 1;
    }
    EFIDevicePathProtocol::new_end_entire().write(out)
}

} // verus!
