//! What holds of the device path codec for every node and every list.

use crate::efidevicepath::{
    decode_hard_drive, decode_list, decode_node, encode_list, encode_node, encode_nodes,
    hard_drive_payload, lemma_encode_node_len, list_wf, DevicePathNode,
    DevicePathProtocolParseError, EndSubType, HardDrivePartition, SignatureData,
    END_ENTIRE_DEVICE_PATH,
};
use crate::guid::lemma_swap_fields_twice;
use crate::utf16::{lemma_text_read_written, lemma_text_written_read};
use crate::wire::{
    lemma_u16_le_roundtrip, lemma_u32_le_roundtrip, lemma_u64_le_roundtrip, u16_from_le,
};
use vstd::prelude::*;

verus! {

/// A partition is read back from the payload it was written to, whatever
/// follows that payload.
pub proof fn lemma_hard_drive_read_written(h: HardDrivePartition, rest: Seq<u8>)
    requires
        h.signature.wf(),
    ensures
        decode_hard_drive(hard_drive_payload(h) + rest) == Ok::<
            HardDrivePartition,
            DevicePathProtocolParseError,
        >(h),
{
    let p = hard_drive_payload(h) + rest;
    assert(p.subrange(0, 4) =~= crate::wire::u32_to_le(h.partition_number));
    assert(p.subrange(4, 12) =~= crate::wire::u64_to_le(h.partition_start));
    assert(p.subrange(12, 20) =~= crate::wire::u64_to_le(h.partition_size));
    let empty = Seq::<u8>::empty();
    lemma_u32_le_roundtrip(h.partition_number, empty);
    lemma_u64_le_roundtrip(h.partition_start, empty);
    lemma_u64_le_roundtrip(h.partition_size, empty);
    assert(p.subrange(20, 36) =~= h.signature.stored());
    match h.signature {
        SignatureData::Guid(id) => {
            lemma_swap_fields_twice(id);
        },
        _ => {},
    }
}

/// A partition is read from the first 38 bytes alone: what follows them
/// changes neither the partition nor the failure.
pub proof fn lemma_hard_drive_reads_38_bytes(p: Seq<u8>)
    requires
        p.len() >= 38,
    ensures
        decode_hard_drive(p) == decode_hard_drive(p.take(38)),
{
    let q = p.take(38);
    assert(q.subrange(0, 4) =~= p.subrange(0, 4));
    assert(q.subrange(4, 12) =~= p.subrange(4, 12));
    assert(q.subrange(12, 20) =~= p.subrange(12, 20));
    assert(q.subrange(20, 36) =~= p.subrange(20, 36));
}

/// Bytes that a partition was read from begin with the payload that the
/// partition is written to.
pub proof fn lemma_hard_drive_written_read(p: Seq<u8>)
    requires
        decode_hard_drive(p) is Ok,
    ensures
        p.len() >= 38,
        decode_hard_drive(p).unwrap().signature.wf(),
        hard_drive_payload(decode_hard_drive(p).unwrap()) == p.take(38),
{
    lemma_u32_le_roundtrip(0, p.subrange(0, 4));
    lemma_u64_le_roundtrip(0, p.subrange(4, 12));
    lemma_u64_le_roundtrip(0, p.subrange(12, 20));
    lemma_swap_fields_twice(p.subrange(20, 36));
}

/// A node that is well formed is read back from the bytes it was written to,
/// whatever follows them.
pub proof fn lemma_node_read_written(n: DevicePathNode, rest: Seq<u8>)
    requires
        n.wf(),
    ensures
        decode_node(encode_node(n) + rest) == Ok::<
            (DevicePathNode, int),
            DevicePathProtocolParseError,
        >((n, n.size())),
        encode_node(n).len() == n.size(),
{
    reveal(encode_node);
    reveal(decode_node);
    let b = encode_node(n) + rest;
    let size = n.size();
    lemma_u16_le_roundtrip(size as u16, Seq::empty());
    assert(b.subrange(4, size) =~= n.payload());
    match n {
        DevicePathNode::HardDrivePartition(h) => {
            lemma_hard_drive_read_written(h, Seq::empty());
        },
        DevicePathNode::FilePath(path) => {
            lemma_text_read_written(path, Seq::empty());
        },
        DevicePathNode::End(_) => {},
    }
}

/// Bytes that a node was read from begin with the bytes the node is written
/// to: the size field says what the node holds, and the node is well formed.
pub proof fn lemma_node_written_read(b: Seq<u8>)
    requires
        decode_node(b) is Ok,
    ensures
        ({
            let (n, size) = decode_node(b).unwrap();
            &&& n.wf()
            &&& size == n.size()
            &&& 4 <= size <= b.len()
            &&& encode_node(n) == b.take(size)
            &&& n.is_end() ==> EndSubType::of_byte(b[1]) == Some(n->End_0)
        }),
{
    reveal(encode_node);
    reveal(decode_node);
    let (n, size) = decode_node(b).unwrap();
    let p = b.subrange(4, size);
    lemma_u16_le_roundtrip(0, b.subrange(2, 4));
    match n {
        DevicePathNode::HardDrivePartition(_) => {
            lemma_hard_drive_written_read(p);
        },
        DevicePathNode::FilePath(_) => {
            lemma_text_written_read(p);
        },
        DevicePathNode::End(_) => {},
    }
}

/// No node is read from fewer bytes than its size field declares.
pub proof fn lemma_truncated_node_fails(b: Seq<u8>)
    requires
        b.len() < 4 || b.len() < u16_from_le(b.subrange(2, 4)),
    ensures
        decode_node(b) is Err,
{
    reveal(decode_node);
}

/// No node is read from a proper prefix of the bytes it was written to.
pub proof fn lemma_node_prefix_fails(n: DevicePathNode, len: int)
    requires
        n.wf(),
        0 <= len < n.size(),
    ensures
        decode_node(encode_node(n).take(len)) is Err,
{
    reveal(encode_node);
    reveal(decode_node);
    if len >= 4 {
        lemma_u16_le_roundtrip(n.size() as u16, Seq::empty());
    }
}

/// A list of well-formed nodes that holds no end node is read back from the
/// bytes it was written to, whatever follows them; the node that ends the
/// written list is not among the nodes read.
pub proof fn lemma_list_read_written(c: Seq<DevicePathNode>, rest: Seq<u8>)
    requires
        list_wf(c),
    ensures
        decode_list(encode_list(c) + rest) == Ok::<
            (Seq<DevicePathNode>, int),
            DevicePathProtocolParseError,
        >((c, encode_list(c).len() as int)),
    decreases c.len(),
{
    let end = DevicePathNode::End(EndSubType::EndEntireDevicePath);
    let b = encode_list(c) + rest;
    if c.len() == 0 {
        lemma_node_read_written(end, rest);
        assert(c =~= Seq::empty());
    } else {
        let n = c[0];
        let tail = c.skip(1);
        assert(list_wf(tail));
        let after = encode_list(tail) + rest;
        assert(b =~= encode_node(n) + after);
        lemma_node_read_written(n, after);
        assert(b.skip(n.size()) =~= after);
        lemma_list_read_written(tail, rest);
        assert(seq![n] + tail =~= c);
    }
}

/// Bytes that a list was read from begin with the bytes of the list's nodes
/// and of an end node; every node read is well formed and none is an end
/// node. Where that end node ends a whole device path, these are the bytes
/// the list is written to.
pub proof fn lemma_list_written_read(b: Seq<u8>)
    requires
        decode_list(b) is Ok,
    ensures
        ({
            let (c, used) = decode_list(b).unwrap();
            &&& list_wf(c)
            &&& 4 <= used <= b.len()
            &&& used == encode_list(c).len()
            &&& EndSubType::of_byte(b[used - 3]) matches Some(end)
            &&& encode_nodes(c) + encode_node(DevicePathNode::End(end)) == b.take(used)
            &&& b[used - 3] == END_ENTIRE_DEVICE_PATH ==> encode_list(c) == b.take(used)
        }),
    decreases b.len(),
{
    let (c, used) = decode_list(b).unwrap();
    let (n, size) = decode_node(b).unwrap();
    lemma_node_written_read(b);
    lemma_encode_node_len(DevicePathNode::End(EndSubType::EndEntireDevicePath));
    if !n.is_end() {
        let after = b.skip(size);
        lemma_list_written_read(after);
        let (tail, m) = decode_list(after).unwrap();
        assert(c.skip(1) =~= tail);
        assert(list_wf(c));
        assert(b.take(used) =~= b.take(size) + after.take(m));
    }
}

} // verus!
