//! The classic pcap file format: a 24-byte global header, then records of a
//! 16-byte header and the captured bytes.

use vstd::prelude::*;
use crate::model::packet::Packet;
use crate::protocols::ethernet::Ethernet;
use crate::text::{dec, dec32, hex_padded, push_dec, push_dec32, push_hex_padded, push_str};
use crate::wire::{be32, le32, read_be32, read_le32};

verus! {

/// Everything a successful read produced: the decoded packets, plus any
/// non-fatal warning encountered along the way (e.g. a truncated record).
pub struct ReadResult {
    pub packets: Vec<Packet>,
    pub warning: Option<String>,
}

/// The byte order of a capture file, as its magic number shows it.
pub enum Endian {
    Little,
    Big,
}

/// The magic number `a1b2c3d4` as little-endian bytes.
pub open spec fn magic_little() -> u32 {
    0xa1b2c3d4
}

/// The magic number `a1b2c3d4` written big-endian, read little-endian.
pub open spec fn magic_big() -> u32 {
    0xd4c3b2a1
}

/// The first four bytes of the file, read little-endian.
pub open spec fn magic_of(data: Seq<u8>) -> u32 {
    le32(data, 0)
}

/// The byte order that a magic number announces, if it is one of the two.
pub open spec fn endian_of(magic: u32) -> Option<Endian> {
    if magic == magic_little() {
        Some(Endian::Little)
    } else if magic == magic_big() {
        Some(Endian::Big)
    } else {
        None
    }
}

impl Endian {
    /// The 32-bit value of the four bytes at `i` in this byte order.
    pub open spec fn value_at(self, s: Seq<u8>, i: int) -> u32 {
        match self {
            Endian::Little => le32(s, i),
            Endian::Big => be32(s, i),
        }
    }

    /// Reads a 32-bit value from four bytes in this byte order.
    pub fn read_u32(&self, bytes: &[u8]) -> (v: u32)
        requires
            bytes@.len() == 4,
        ensures
            v == self.value_at(bytes@, 0),
    {
        match self {
            Endian::Little => read_le32(bytes, 0),
            Endian::Big => read_be32(bytes, 0),
        }
    }
}

/// How the records of a file end, when they do not end with the file.
pub enum Truncation {
    /// The file ends inside a record header, this many bytes into it.
    Header(u8),
    /// A record's length field (this value) runs past the end of the file.
    Body(u32),
}

/// The records from offset `pos` on, as `(start, length)` of each record's
/// captured bytes, and how they are cut short, if they are: a final record
/// whose header is incomplete, or whose captured bytes run past the end of
/// the data.
pub open spec fn records_from(data: Seq<u8>, e: Endian, pos: int) -> (Seq<(int, int)>, Option<Truncation>)
    decreases data.len() - pos,
{
    if pos < 0 || pos >= data.len() {
        (seq![], None)
    } else if pos + 16 > data.len() {
        (seq![], Some(Truncation::Header((data.len() - pos) as u8)))
    } else {
        let len = e.value_at(data, pos + 8);
        if pos + 16 + len > data.len() {
            (seq![], Some(Truncation::Body(len)))
        } else {
            let rest = records_from(data, e, pos + 16 + len);
            (seq![(pos + 16, len as int)] + rest.0, rest.1)
        }
    }
}

/// The records of a capture whose global header `e` has been read.
pub open spec fn records(data: Seq<u8>, e: Endian) -> (Seq<(int, int)>, Option<Truncation>) {
    records_from(data, e, 24)
}

/// The captured bytes of record `r`.
pub open spec fn record_bytes(data: Seq<u8>, r: (int, int)) -> Seq<u8> {
    data.subrange(r.0, r.0 + r.1)
}

/// The error for a file shorter than the global header.
pub open spec fn too_small_message(path: Seq<char>) -> Seq<char> {
    "invalid file: "@ + path + " is too small to be a valid file"@
}

/// The error for an unknown magic number.
pub open spec fn bad_magic_message(magic: u32) -> Seq<char> {
    "not a valid magic number: "@ + hex_padded(magic as nat, 8)
}

/// The warning for a record whose length runs past the end of the file.
pub open spec fn truncated_message(len: u32) -> Seq<char> {
    "invalid packet length: "@ + dec32(len) + " exceeds file size"@
}

/// The warning for a file that ends inside a record header.
pub open spec fn truncated_header_message(left: u8) -> Seq<char> {
    "truncated record header: "@ + dec(left as nat) + " bytes left at end of file"@
}

/// The warning for how the records are cut short.
pub open spec fn truncation_message(t: Truncation) -> Seq<char> {
    match t {
        Truncation::Header(left) => truncated_header_message(left),
        Truncation::Body(len) => truncated_message(len),
    }
}

/// Every complete record of a capture with a valid header can be decoded as
/// an Ethernet frame, and the records can be numbered by a `u32`. (A file
/// that is too short or has an unknown magic number is rejected before any
/// record is decoded.)
pub open spec fn capture_decodable(data: Seq<u8>) -> bool {
    data.len() >= 24 && endian_of(magic_of(data)) is Some ==> {
        let recs = records(data, endian_of(magic_of(data))->0).0;
        &&& recs.len() <= u32::MAX
        &&& forall|i: int|
            0 <= i < recs.len() ==> #[trigger] Ethernet::decodable(record_bytes(data, recs[i]))
    }
}

/// `r` holds one packet per complete record, numbered from 0 and decoded
/// from the record's captured bytes with the record's length field, and a
/// warning exactly when a final record is cut short, inside its header or
/// inside its captured bytes.
pub open spec fn read_result_matches(r: ReadResult, data: Seq<u8>, e: Endian) -> bool {
    let (recs, truncated) = records(data, e);
    &&& r.packets@.len() == recs.len()
    &&& forall|i: int|
        0 <= i < recs.len() ==> {
            &&& (#[trigger] r.packets@[i]).count == i
            &&& r.packets@[i].data_length == recs[i].1
            &&& r.packets@[i].ethernet.parsed_from(record_bytes(data, recs[i]))
        }
    &&& match truncated {
        None => r.warning is None,
        Some(t) => r.warning matches Some(w) && w@ == truncation_message(t),
    }
}

proof fn lemma_records_bounds(data: Seq<u8>, e: Endian, pos: int)
    requires
        0 <= pos,
    ensures
        forall|i: int|
            0 <= i < records_from(data, e, pos).0.len() ==> {
                &&& pos + 16 <= (#[trigger] records_from(data, e, pos).0[i]).0
                &&& 0 <= records_from(data, e, pos).0[i].1
                &&& records_from(data, e, pos).0[i].0 + records_from(data, e, pos).0[i].1
                    <= data.len()
            },
    decreases data.len() - pos,
{
    if pos + 16 <= data.len() {
        let len = e.value_at(data, pos + 8);
        if pos + 16 + len <= data.len() {
            let next = pos + 16 + len;
            lemma_records_bounds(data, e, next);
            let recs = records_from(data, e, pos).0;
            let rest = records_from(data, e, next).0;
            assert(recs == seq![(pos + 16, len as int)] + rest);
            assert forall|i: int| 0 <= i < recs.len() implies {
                &&& pos + 16 <= (#[trigger] recs[i]).0
                &&& 0 <= recs[i].1
                &&& recs[i].0 + recs[i].1 <= data.len()
            } by {
                if i > 0 {
                    assert(recs[i] == rest[i - 1]);
                }
            }
        }
    }
}

/// The length field of the record header at `pos`.
fn record_length(data: &[u8], e: &Endian, pos: usize) -> (len: u32)
    requires
        pos + 16 <= data@.len(),
    ensures
        len == e.value_at(data@, pos + 8),
{
    let _len = data.len();
    let header = &data[pos + 8..pos + 12];
    let len = e.read_u32(header);
    assert(header@[0] == data@[pos + 8]);
    assert(header@[1] == data@[pos + 9]);
    assert(header@[2] == data@[pos + 10]);
    assert(header@[3] == data@[pos + 11]);
    len
}

/// Checks `capture_decodable`.
pub fn can_read_capture(data: &[u8]) -> (b: bool)
    ensures
        b == capture_decodable(data@),
{
    if data.len() < 24 {
        return true;
    }
    let magic = read_le32(data, 0);
    let e = if magic == 0xa1b2c3d4 {
        Endian::Little
    } else if magic == 0xd4c3b2a1 {
        Endian::Big
    } else {
        return true;
    };
    let ghost recs = records(data@, e).0;
    proof {
        lemma_records_bounds(data@, e, 24);
    }
    let mut pos: usize = 24;
    let mut count: u64 = 0;
    let ghost done: Seq<(int, int)> = seq![];
    loop
        invariant
            24 <= pos <= data@.len(),
            endian_of(magic_of(data@)) == Some(e),
            recs == records(data@, e).0,
            recs == done + records_from(data@, e, pos as int).0,
            count == done.len(),
            count <= u32::MAX,
            forall|i: int|
                0 <= i < done.len() ==> #[trigger] Ethernet::decodable(
                    record_bytes(data@, recs[i]),
                ),
        decreases data@.len() - pos,
    {
        if data.len() - pos < 16 {
            assert(recs =~= done);
            return true;
        }
        let data_length = record_length(data, &e, pos);
        if data_length as usize > data.len() - pos - 16 {
            assert(recs =~= done);
            return true;
        }
        let end = pos + 16 + data_length as usize;
        let ghost rest = records_from(data@, e, end as int).0;
        assert(records_from(data@, e, pos as int).0 == seq![(pos + 16, data_length as int)] + rest);
        assert(recs[done.len() as int] == (pos + 16, data_length as int));
        if count == 0xffff_ffff {
            return false;
        }
        if !Ethernet::can_parse(&data[pos + 16..end]) {
            assert(!Ethernet::decodable(record_bytes(data@, recs[done.len() as int])));
            return false;
        }
        proof {
            done = done.push((pos + 16, data_length as int));
            assert(recs =~= done + rest);
        }
        count = count + 1;
        pos = end;
    }
}

/// What reading `data` from `path` gives: an error for a file shorter than
/// the global header or with an unknown magic number, and otherwise the
/// packets of its records in the byte order the magic number announces.
pub open spec fn read_outcome(path: Seq<char>, data: Seq<u8>, res: Result<ReadResult, String>) -> bool {
    if data.len() < 24 {
        res matches Err(m) && m@ == too_small_message(path)
    } else {
        match endian_of(magic_of(data)) {
            None => res matches Err(m) && m@ == bad_magic_message(magic_of(data)),
            Some(e) => res matches Ok(r) && read_result_matches(r, data, e),
        }
    }
}

/// Decodes the bytes of a capture file that was read from `path`.
///
/// A file shorter than the 24-byte global header, or whose magic number is
/// neither byte order of `a1b2c3d4`, is an error. Otherwise every complete
/// record becomes a packet; a record cut short, inside its header or inside
/// its captured bytes, stops the read with a warning.
pub fn read_capture(path: &str, data: &[u8]) -> (res: Result<ReadResult, String>)
    requires
        capture_decodable(data@),
    ensures
        read_outcome(path@, data@, res),
{
    if data.len() < 24 {
        let mut m = String::new();
        push_str(&mut m, "invalid file: ");
        push_str(&mut m, path);
        push_str(&mut m, " is too small to be a valid file");
        return Err(m);
    }
    let magic_le = read_le32(data, 0);
    let endian = if magic_le == 0xa1b2c3d4 {
        Endian::Little
    } else if magic_le == 0xd4c3b2a1 {
        Endian::Big
    } else {
        let mut m = String::new();
        push_str(&mut m, "not a valid magic number: ");
        push_hex_padded(&mut m, magic_le as u64, 8);
        return Err(m);
    };
    let ghost recs = records(data@, endian).0;
    let ghost truncated = records(data@, endian).1;
    proof {
        lemma_records_bounds(data@, endian, 24);
    }
    let mut packets: Vec<Packet> = Vec::new();
    let mut pos: usize = 24;
    let mut count: u32 = 0;
    loop
        invariant
            24 <= pos <= data@.len(),
            endian_of(magic_of(data@)) == Some(endian),
            capture_decodable(data@),
            recs == records(data@, endian).0,
            truncated == records(data@, endian).1,
            recs.len() <= u32::MAX,
            forall|i: int| 0 <= i < recs.len() ==> #[trigger] Ethernet::decodable(record_bytes(data@, recs[i])),
            recs.len() == packets@.len() + records_from(data@, endian, pos as int).0.len(),
            recs.subrange(packets@.len() as int, recs.len() as int) == records_from(data@, endian, pos as int).0,
            truncated == records_from(data@, endian, pos as int).1,
            count == packets@.len(),
            forall|i: int|
                0 <= i < packets@.len() ==> {
                    &&& (#[trigger] packets@[i]).count == i
                    &&& packets@[i].data_length == recs[i].1
                    &&& packets@[i].ethernet.parsed_from(record_bytes(data@, recs[i]))
                },
        decreases data@.len() - pos,
    {
        if data.len() - pos < 16 {
            if data.len() == pos {
                let r = ReadResult { packets, warning: None };
                return Ok(r);
            }
            let left = (data.len() - pos) as u8;
            let mut w = String::new();
            push_str(&mut w, "truncated record header: ");
            push_dec(&mut w, left as u64);
            push_str(&mut w, " bytes left at end of file");
            let r = ReadResult { packets, warning: Some(w) };
            return Ok(r);
        }
        let data_length = record_length(data, &endian, pos);
        if data_length as usize > data.len() - pos - 16 {
            let mut w = String::new();
            push_str(&mut w, "invalid packet length: ");
            push_dec32(&mut w, data_length);
            push_str(&mut w, " exceeds file size");
            let r = ReadResult { packets, warning: Some(w) };
            return Ok(r);
        }
        let end = pos + 16 + data_length as usize;
        let ghost rest = records_from(data@, endian, end as int).0;
        assert(records_from(data@, endian, pos as int).0 == seq![(pos + 16, data_length as int)] + rest);
        let ghost k = packets@.len() as int;
        assert(recs[k] == recs.subrange(k, recs.len() as int)[0]);
        assert(recs[k] == (pos + 16, data_length as int));
        assert(Ethernet::decodable(record_bytes(data@, recs[k])));
        let packet_data = &data[pos + 16..end];
        packets.push(Packet::parse(count, data_length, packet_data));
        proof {
            let sub = recs.subrange(k, recs.len() as int);
            assert(sub == seq![(pos + 16, data_length as int)] + rest);
            assert(recs.subrange(k + 1, recs.len() as int) =~= sub.subrange(1, sub.len() as int));
            assert(sub.subrange(1, sub.len() as int) =~= rest);
        }
        pos = end;
        count = count + 1;
    }
}

proof fn lemma_records_from_back_to_back(data: Seq<u8>, e: Endian, pos: int)
    requires
        0 <= pos,
    ensures
        ({
            let recs = records_from(data, e, pos).0;
            &&& recs.len() > 0 ==> recs[0].0 == pos + 16
            &&& forall|i: int|
                0 <= i < recs.len() - 1 ==> #[trigger] recs[i + 1].0 == recs[i].0 + recs[i].1 + 16
            &&& forall|i: int|
                0 <= i < recs.len() ==> (#[trigger] recs[i]).1 == e.value_at(data, recs[i].0 - 8)
        }),
    decreases data.len() - pos,
{
    if pos + 16 <= data.len() {
        let len = e.value_at(data, pos + 8);
        if pos + 16 + len <= data.len() {
            let next = pos + 16 + len;
            lemma_records_from_back_to_back(data, e, next);
            let recs = records_from(data, e, pos).0;
            let rest = records_from(data, e, next).0;
            assert(recs == seq![(pos + 16, len as int)] + rest);
            assert forall|i: int| 0 <= i < recs.len() - 1 implies #[trigger] recs[i + 1].0 == recs[i].0
                + recs[i].1 + 16 by {
                assert(recs[i + 1] == rest[i]);
                if i > 0 {
                    assert(recs[i] == rest[i - 1]);
                    let k = i - 1;
                    assert(rest[k + 1].0 == rest[k].0 + rest[k].1 + 16);
                }
            }
            assert forall|i: int| 0 <= i < recs.len() implies (#[trigger] recs[i]).1 == e.value_at(
                data,
                recs[i].0 - 8,
            ) by {
                if i > 0 {
                    assert(recs[i] == rest[i - 1]);
                }
            }
        }
    }
}

/// Records are read back to back: the first one's bytes start right after
/// the 24-byte global header and its own 16-byte header, and each further
/// one's bytes start 16 bytes (its header) after the previous one's end;
/// each record holds as many bytes as the length field at offset 8 of its
/// header says, read in the file's byte order.
pub proof fn law_records_back_to_back(data: Seq<u8>, e: Endian)
    ensures
        ({
            let recs = records(data, e).0;
            &&& recs.len() > 0 ==> recs[0].0 == 40
            &&& forall|i: int|
                0 <= i < recs.len() - 1 ==> #[trigger] recs[i + 1].0 == recs[i].0 + recs[i].1 + 16
            &&& forall|i: int|
                0 <= i < recs.len() ==> (#[trigger] recs[i]).1 == e.value_at(data, recs[i].0 - 8)
        }),
{
    lemma_records_from_back_to_back(data, e, 24);
}

/// The two byte orders read the same value from mirrored bytes.
pub proof fn law_byte_orders_mirror(s: Seq<u8>)
    requires
        s.len() == 4,
    ensures
        Endian::Little.value_at(s, 0) == Endian::Big.value_at(s.reverse(), 0),
{
}

/// The magic number announces the byte order: a file that begins with
/// `a1 b2 c3 d4` was written big-endian, one that begins with `d4 c3 b2 a1`
/// little-endian.
pub proof fn law_magic_announces_byte_order(data: Seq<u8>)
    requires
        data.len() >= 4,
    ensures
        data.take(4) == seq![0xa1u8, 0xb2, 0xc3, 0xd4] ==> endian_of(magic_of(data))
            == Some(Endian::Big),
        data.take(4) == seq![0xd4u8, 0xc3, 0xb2, 0xa1] ==> endian_of(magic_of(data))
            == Some(Endian::Little),
{
    if data.take(4) == seq![0xa1u8, 0xb2, 0xc3, 0xd4] {
        assert(data[0] == data.take(4)[0] && data[1] == data.take(4)[1]);
        assert(data[2] == data.take(4)[2] && data[3] == data.take(4)[3]);
    }
    if data.take(4) == seq![0xd4u8, 0xc3, 0xb2, 0xa1] {
        assert(data[0] == data.take(4)[0] && data[1] == data.take(4)[1]);
        assert(data[2] == data.take(4)[2] && data[3] == data.take(4)[3]);
    }
}

/// From offset `pos` on, `b` holds the same records as `a`: every record's
/// length field (offset 8 of its header) has its bytes in the opposite
/// order, and every record's captured bytes are the same. `a` is read
/// little-endian, so its length fields are read from `a` that way.
pub open spec fn same_records_from(a: Seq<u8>, b: Seq<u8>, pos: int) -> bool
    decreases a.len() - pos,
{
    if pos < 0 || pos + 16 > a.len() {
        true
    } else if b.subrange(pos + 8, pos + 12) != a.subrange(pos + 8, pos + 12).reverse() {
        false
    } else if pos + 16 + le32(a, pos + 8) > a.len() {
        true
    } else {
        let end = pos + 16 + le32(a, pos + 8);
        &&& a.subrange(pos + 16, end) == b.subrange(pos + 16, end)
        &&& same_records_from(a, b, end)
    }
}

proof fn lemma_same_records_walk(a: Seq<u8>, b: Seq<u8>, pos: int)
    requires
        0 <= pos,
        a.len() == b.len(),
        same_records_from(a, b, pos),
    ensures
        records_from(a, Endian::Little, pos) == records_from(b, Endian::Big, pos),
        forall|i: int|
            0 <= i < records_from(a, Endian::Little, pos).0.len() ==> record_bytes(
                a,
                #[trigger] records_from(a, Endian::Little, pos).0[i],
            ) == record_bytes(b, records_from(a, Endian::Little, pos).0[i]),
    decreases a.len() - pos,
{
    if pos < a.len() && pos + 16 <= a.len() {
        let ha = a.subrange(pos + 8, pos + 12);
        let hb = b.subrange(pos + 8, pos + 12);
        assert(hb == ha.reverse());
        assert(b[pos + 8] == hb[0] && hb[0] == ha[3] && ha[3] == a[pos + 11]);
        assert(b[pos + 9] == hb[1] && hb[1] == ha[2] && ha[2] == a[pos + 10]);
        assert(b[pos + 10] == hb[2] && hb[2] == ha[1] && ha[1] == a[pos + 9]);
        assert(b[pos + 11] == hb[3] && hb[3] == ha[0] && ha[0] == a[pos + 8]);
        assert(Endian::Little.value_at(a, pos + 8) == Endian::Big.value_at(b, pos + 8));
        let len = le32(a, pos + 8);
        if pos + 16 + len <= a.len() {
            let end = pos + 16 + len;
            lemma_same_records_walk(a, b, end);
            let recs = records_from(a, Endian::Little, pos).0;
            let rest = records_from(a, Endian::Little, end).0;
            assert(recs == seq![(pos + 16, len as int)] + rest);
            assert forall|i: int| 0 <= i < recs.len() implies record_bytes(a, #[trigger] recs[i])
                == record_bytes(b, recs[i]) by {
                if i > 0 {
                    assert(recs[i] == rest[i - 1]);
                }
            }
        }
    }
}

/// The warning of a read, as text.
pub open spec fn warning_text(r: ReadResult) -> Option<Seq<char>> {
    match r.warning {
        Some(w) => Some(w@),
        None => None,
    }
}

/// A little-endian file and a big-endian file that hold the same records
/// read alike: both reads succeed, with the same records, the same number
/// of packets, each with the same number and data length and decoded from
/// the same bytes, and the same warning.
pub proof fn law_byte_orders_read_alike(
    path: Seq<char>,
    a: Seq<u8>,
    b: Seq<u8>,
    ra: Result<ReadResult, String>,
    rb: Result<ReadResult, String>,
)
    requires
        a.len() >= 24,
        a.len() == b.len(),
        a.take(4) == seq![0xd4u8, 0xc3, 0xb2, 0xa1],
        b.take(4) == seq![0xa1u8, 0xb2, 0xc3, 0xd4],
        same_records_from(a, b, 24),
        read_outcome(path, a, ra),
        read_outcome(path, b, rb),
    ensures
        ra is Ok && rb is Ok,
        records(a, Endian::Little) == records(b, Endian::Big),
        ra->Ok_0.packets@.len() == rb->Ok_0.packets@.len(),
        forall|i: int|
            0 <= i < ra->Ok_0.packets@.len() ==> {
                let s = record_bytes(a, records(a, Endian::Little).0[i]);
                &&& (#[trigger] ra->Ok_0.packets@[i]).count == rb->Ok_0.packets@[i].count
                &&& ra->Ok_0.packets@[i].data_length == rb->Ok_0.packets@[i].data_length
                &&& ra->Ok_0.packets@[i].ethernet.parsed_from(s)
                &&& rb->Ok_0.packets@[i].ethernet.parsed_from(s)
            },
        warning_text(ra->Ok_0) == warning_text(rb->Ok_0),
{
    law_magic_announces_byte_order(a);
    law_magic_announces_byte_order(b);
    lemma_same_records_walk(a, b, 24);
    let recs = records(a, Endian::Little).0;
    let x = ra->Ok_0;
    let y = rb->Ok_0;
    assert forall|i: int| 0 <= i < x.packets@.len() implies {
        let s = record_bytes(a, records(a, Endian::Little).0[i]);
        &&& (#[trigger] x.packets@[i]).count == y.packets@[i].count
        &&& x.packets@[i].data_length == y.packets@[i].data_length
        &&& x.packets@[i].ethernet.parsed_from(s)
        &&& y.packets@[i].ethernet.parsed_from(s)
    } by {
        assert(record_bytes(a, recs[i]) == record_bytes(b, recs[i]));
        assert(y.packets@[i].count == i);
    }
}

/// Where the walk from `pos` stops: the end of its last record, or `pos`
/// itself if it finds none.
pub open spec fn walk_end(data: Seq<u8>, e: Endian, pos: int) -> int {
    let recs = records_from(data, e, pos).0;
    if recs.len() == 0 {
        pos
    } else {
        recs.last().0 + recs.last().1
    }
}

proof fn lemma_walk_end(data: Seq<u8>, e: Endian, pos: int)
    requires
        0 <= pos <= data.len(),
    ensures
        ({
            let end = walk_end(data, e, pos);
            let t = records_from(data, e, pos).1;
            &&& pos <= end <= data.len()
            &&& t is None <==> end == data.len()
            &&& t matches Some(Truncation::Header(k)) ==> k == data.len() - end && 0 < k < 16
            &&& t matches Some(Truncation::Body(len)) ==> end + 16 <= data.len() && e.value_at(
                data,
                end + 8,
            ) == len && end + 16 + len > data.len()
        }),
    decreases data.len() - pos,
{
    if pos < data.len() && pos + 16 <= data.len() {
        let len = e.value_at(data, pos + 8);
        if pos + 16 + len <= data.len() {
            let next = pos + 16 + len;
            lemma_walk_end(data, e, next);
            let recs = records_from(data, e, pos).0;
            let rest = records_from(data, e, next).0;
            assert(recs == seq![(pos + 16, len as int)] + rest);
            if rest.len() > 0 {
                assert(recs.last() == rest.last());
            }
        }
    }
}

/// The records cover the file exactly when there is no warning: walked back
/// to back from the global header, they end at the end of the file unless
/// the last one is cut short. A cut inside a record header leaves between 1
/// and 15 bytes after the last whole record; a cut inside a record's bytes
/// leaves a whole header whose length field runs past the end.
pub proof fn law_warning_exactly_when_cut(data: Seq<u8>, e: Endian)
    requires
        data.len() >= 24,
    ensures
        ({
            let (recs, t) = records(data, e);
            let end = if recs.len() == 0 {
                24
            } else {
                recs.last().0 + recs.last().1
            };
            &&& end <= data.len()
            &&& t is None <==> end == data.len()
            &&& t matches Some(Truncation::Header(k)) ==> k == data.len() - end && 0 < k < 16
            &&& t matches Some(Truncation::Body(len)) ==> end + 16 <= data.len() && e.value_at(
                data,
                end + 8,
            ) == len && end + 16 + len > data.len()
        }),
{
    lemma_walk_end(data, e, 24);
}

/// A successful read numbers its packets 0, 1, 2, ... in file order; packet
/// `i` carries its record's length field as its data length and is decoded
/// from exactly that many bytes, starting right after the record's header.
pub proof fn law_read_numbers_packets(r: ReadResult, data: Seq<u8>, e: Endian)
    requires
        read_result_matches(r, data, e),
    ensures
        forall|i: int|
            0 <= i < r.packets@.len() ==> {
                let start = records(data, e).0[i].0;
                &&& (#[trigger] r.packets@[i]).count == i
                &&& r.packets@[i].data_length == e.value_at(data, start - 8)
                &&& r.packets@[i].ethernet.parsed_from(
                    data.subrange(start, start + r.packets@[i].data_length),
                )
            },
{
    law_records_back_to_back(data, e);
    let recs = records(data, e).0;
    assert forall|i: int| 0 <= i < r.packets@.len() implies {
        let start = records(data, e).0[i].0;
        &&& (#[trigger] r.packets@[i]).count == i
        &&& r.packets@[i].data_length == e.value_at(data, start - 8)
        &&& r.packets@[i].ethernet.parsed_from(
            data.subrange(start, start + r.packets@[i].data_length),
        )
    } by {
        assert(recs[i].1 == e.value_at(data, recs[i].0 - 8));
    }
}

} // verus!
