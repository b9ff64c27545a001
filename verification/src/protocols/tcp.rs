//! TCP segment headers.

use vstd::prelude::*;
use crate::text::{push_char, push_str};
use crate::wire::{be16, read_be16};

verus! {

/// The names of the flags set in `flags`, lowest bit first: FIN, SYN, RST,
/// PSH, ACK, URG, ECE, CWR.
pub open spec fn flag_names(flags: u8) -> Seq<Seq<char>> {
    let s0: Seq<Seq<char>> = if flags & 0x01 != 0 { seq!["FIN"@] } else { seq![] };
    let s1 = if flags & 0x02 != 0 { s0.push("SYN"@) } else { s0 };
    let s2 = if flags & 0x04 != 0 { s1.push("RST"@) } else { s1 };
    let s3 = if flags & 0x08 != 0 { s2.push("PSH"@) } else { s2 };
    let s4 = if flags & 0x10 != 0 { s3.push("ACK"@) } else { s3 };
    let s5 = if flags & 0x20 != 0 { s4.push("URG"@) } else { s4 };
    let s6 = if flags & 0x40 != 0 { s5.push("ECE"@) } else { s5 };
    if flags & 0x80 != 0 { s6.push("CWR"@) } else { s6 }
}

/// `name` in double quotes.
pub open spec fn quoted(name: Seq<char>) -> Seq<char> {
    seq!['"'] + name + seq!['"']
}

/// The quoted names, separated by `, `.
pub open spec fn join_quoted(names: Seq<Seq<char>>) -> Seq<char>
    decreases names.len(),
{
    if names.len() == 0 {
        seq![]
    } else if names.len() == 1 {
        quoted(names[0])
    } else {
        join_quoted(names.drop_last()) + seq![',', ' '] + quoted(names.last())
    }
}

/// The text of a flags byte: the set flags' names, quoted, in a bracketed list,
/// such as `["PSH", "ACK"]`.
pub open spec fn flags_text(flags: u8) -> Seq<char> {
    seq!['['] + join_quoted(flag_names(flags)) + seq![']']
}

/// The ports and the flags byte of a TCP header.
pub struct TcpSegment {
    pub src_port: u16,
    pub dest_port: u16,
    pub flags: u8,
}

impl TcpSegment {
    /// A TCP header is read only where its flags byte (offset 13) is present.
    pub open spec fn decodable(bytes: Seq<u8>) -> bool {
        bytes.len() >= 14
    }

    /// `self` holds the ports at offsets 0 and 2 and the flags at offset 13.
    pub open spec fn parsed_from(&self, bytes: Seq<u8>) -> bool {
        &&& self.src_port == be16(bytes, 0)
        &&& self.dest_port == be16(bytes, 2)
        &&& self.flags == bytes[13]
    }

    /// Decodes a TCP header.
    pub fn parse(bytes: &[u8]) -> (seg: TcpSegment)
        requires
            Self::decodable(bytes@),
        ensures
            seg.parsed_from(bytes@),
    {
        let src_port = read_be16(bytes, 0);
        let dest_port = read_be16(bytes, 2);
        let flags = bytes[13];
        TcpSegment { src_port, dest_port, flags }
    }

    /// The names of the flags that `flags` sets, lowest bit first.
    fn flag_list(flags: u8) -> (flag: Vec<&'static str>)
        ensures
            flag@.map_values(|n: &str| n@) == flag_names(flags),
    {
        let mut flag: Vec<&str> = Vec::new();
        if flags & 0x01 != 0 {
            flag.push("FIN");
        }
        if flags & 0x02 != 0 {
            flag.push("SYN");
        }
        if flags & 0x04 != 0 {
            flag.push("RST");
        }
        if flags & 0x08 != 0 {
            flag.push("PSH");
        }
        if flags & 0x10 != 0 {
            flag.push("ACK");
        }
        if flags & 0x20 != 0 {
            flag.push("URG");
        }
        if flags & 0x40 != 0 {
            flag.push("ECE");
        }
        if flags & 0x80 != 0 {
            flag.push("CWR");
        }
        assert(flag@.map_values(|n: &str| n@) =~= flag_names(flags));
        flag
    }

    /// Renders a flags byte as the list of the flags it sets.
    pub fn format_flags(flags: u8) -> (text: String)
        ensures
            text@ == flags_text(flags),
    {
        let flag = Self::flag_list(flags);
        let ghost names = flag@.map_values(|n: &str| n@);
        let mut text = String::new();
        push_char(&mut text, '[');
        let mut i: usize = 0;
        while i < flag.len()
            invariant
                i <= flag@.len(),
                names == flag@.map_values(|n: &str| n@),
                text@ == seq!['['] + join_quoted(names.take(i as int)),
            decreases flag@.len() - i,
        {
            if i > 0 {
                push_char(&mut text, ',');
                push_char(&mut text, ' ');
            }
            push_char(&mut text, '"');
            push_str(&mut text, flag[i]);
            push_char(&mut text, '"');
            assert(names.take(i + 1).drop_last() =~= names.take(i as int));
            assert(names.take(i + 1).last() == flag@[i as int]@);
            assert(text@ =~= seq!['['] + join_quoted(names.take(i + 1)));
            i = i + 1;
        }
        push_char(&mut text, ']');
        assert(names.take(flag@.len() as int) =~= names);
        text
    }
}

/// The flag that bit `k` (0 = lowest) of the flags byte stands for.
pub open spec fn flag_of_bit(k: int) -> Seq<char> {
    if k == 0 {
        "FIN"@
    } else if k == 1 {
        "SYN"@
    } else if k == 2 {
        "RST"@
    } else if k == 3 {
        "PSH"@
    } else if k == 4 {
        "ACK"@
    } else if k == 5 {
        "URG"@
    } else if k == 6 {
        "ECE"@
    } else {
        "CWR"@
    }
}

/// The bit that a flag name stands for (8 for no flag).
pub open spec fn flag_rank(name: Seq<char>) -> int {
    if name == "FIN"@ {
        0
    } else if name == "SYN"@ {
        1
    } else if name == "RST"@ {
        2
    } else if name == "PSH"@ {
        3
    } else if name == "ACK"@ {
        4
    } else if name == "URG"@ {
        5
    } else if name == "ECE"@ {
        6
    } else if name == "CWR"@ {
        7
    } else {
        8
    }
}

/// Whether bit `k` (0 = lowest) of `flags` is set.
pub open spec fn bit_set(flags: u8, k: int) -> bool {
    (flags as int / bit_weight(k)) % 2 == 1
}

/// The value of bit `k` (0 = lowest) of a byte.
pub open spec fn bit_weight(k: int) -> int {
    if k == 0 {
        1
    } else if k == 1 {
        2
    } else if k == 2 {
        4
    } else if k == 3 {
        8
    } else if k == 4 {
        16
    } else if k == 5 {
        32
    } else if k == 6 {
        64
    } else {
        128
    }
}

proof fn lemma_bits(flags: u8)
    ensures
        (flags & 0x01 != 0) == bit_set(flags, 0),
        (flags & 0x02 != 0) == bit_set(flags, 1),
        (flags & 0x04 != 0) == bit_set(flags, 2),
        (flags & 0x08 != 0) == bit_set(flags, 3),
        (flags & 0x10 != 0) == bit_set(flags, 4),
        (flags & 0x20 != 0) == bit_set(flags, 5),
        (flags & 0x40 != 0) == bit_set(flags, 6),
        (flags & 0x80 != 0) == bit_set(flags, 7),
{
    assert((flags & 0x01 != 0) == (flags % 2 == 1)) by (bit_vector);
    assert((flags & 0x02 != 0) == ((flags / 2) % 2 == 1)) by (bit_vector);
    assert((flags & 0x04 != 0) == ((flags / 4) % 2 == 1)) by (bit_vector);
    assert((flags & 0x08 != 0) == ((flags / 8) % 2 == 1)) by (bit_vector);
    assert((flags & 0x10 != 0) == ((flags / 16) % 2 == 1)) by (bit_vector);
    assert((flags & 0x20 != 0) == ((flags / 32) % 2 == 1)) by (bit_vector);
    assert((flags & 0x40 != 0) == ((flags / 64) % 2 == 1)) by (bit_vector);
    assert((flags & 0x80 != 0) == ((flags / 128) % 2 == 1)) by (bit_vector);
}

/// The names of different bits differ (already in their first letter), and
/// each name's rank is its bit.
proof fn lemma_flag_names_distinct(k: int)
    requires
        0 <= k < 8,
    ensures
        flag_rank(flag_of_bit(k)) == k,
        forall|j: int| 0 <= j < 8 && j != k ==> flag_of_bit(j) != flag_of_bit(k),
{
    reveal_strlit("FIN");
    reveal_strlit("SYN");
    reveal_strlit("RST");
    reveal_strlit("PSH");
    reveal_strlit("ACK");
    reveal_strlit("URG");
    reveal_strlit("ECE");
    reveal_strlit("CWR");
    assert("FIN"@[0] == 'F' && "SYN"@[0] == 'S' && "RST"@[0] == 'R' && "PSH"@[0] == 'P');
    assert("ACK"@[0] == 'A' && "URG"@[0] == 'U' && "ECE"@[0] == 'E' && "CWR"@[0] == 'C');
    assert forall|j: int| 0 <= j < 8 && j != k implies flag_of_bit(j) != flag_of_bit(k) by {
        assert(flag_of_bit(j)[0] != flag_of_bit(k)[0]);
    }
    assert(flag_of_bit(k) == "FIN"@ <==> k == 0);
    assert(flag_of_bit(k) == "SYN"@ <==> k == 1);
    assert(flag_of_bit(k) == "RST"@ <==> k == 2);
    assert(flag_of_bit(k) == "PSH"@ <==> k == 3);
    assert(flag_of_bit(k) == "ACK"@ <==> k == 4);
    assert(flag_of_bit(k) == "URG"@ <==> k == 5);
    assert(flag_of_bit(k) == "ECE"@ <==> k == 6);
}

/// Each flag is listed exactly when its own bit is set, whatever the other
/// bits are; no flag is listed twice; and the flags are listed from the
/// lowest bit up.
pub proof fn law_flag_listed_iff_bit(flags: u8)
    ensures
        forall|k: int| 0 <= k < 8 ==> (flag_names(flags).contains(#[trigger] flag_of_bit(k)) <==> bit_set(flags, k)),
        forall|i: int, j: int|
            0 <= i < j < flag_names(flags).len() ==> flag_rank(#[trigger] flag_names(flags)[i])
                < flag_rank(#[trigger] flag_names(flags)[j]),
{
    reveal_strlit("FIN");
    reveal_strlit("SYN");
    reveal_strlit("RST");
    reveal_strlit("PSH");
    reveal_strlit("ACK");
    reveal_strlit("URG");
    reveal_strlit("ECE");
    reveal_strlit("CWR");
    lemma_bits(flags);
    let names = flag_names(flags);
    // every listed name carries the bit index it stands for, in increasing order
    let idx: Seq<int> = {
        let i0: Seq<int> = if flags & 0x01 != 0 { seq![0] } else { seq![] };
        let i1 = if flags & 0x02 != 0 { i0.push(1) } else { i0 };
        let i2 = if flags & 0x04 != 0 { i1.push(2) } else { i1 };
        let i3 = if flags & 0x08 != 0 { i2.push(3) } else { i2 };
        let i4 = if flags & 0x10 != 0 { i3.push(4) } else { i3 };
        let i5 = if flags & 0x20 != 0 { i4.push(5) } else { i4 };
        let i6 = if flags & 0x40 != 0 { i5.push(6) } else { i5 };
        if flags & 0x80 != 0 { i6.push(7) } else { i6 }
    };
    assert(idx.len() == names.len());
    assert(forall|i: int| 0 <= i < names.len() ==> 0 <= #[trigger] idx[i] < 8 && names[i] == flag_of_bit(idx[i]));
    assert(forall|i: int, j: int| 0 <= i < j < idx.len() ==> #[trigger] idx[i] < #[trigger] idx[j]);
    assert forall|k: int| 0 <= k < 8 implies (names.contains(#[trigger] flag_of_bit(k)) <==> bit_set(flags, k)) by {
        broadcast use vstd::seq_lib::lemma_seq_contains_after_push, vstd::seq_lib::lemma_seq_empty_contains_nothing;
        lemma_flag_names_distinct(k);
        lemma_flag_names_distinct(0);
        lemma_flag_names_distinct(1);
        lemma_flag_names_distinct(2);
        lemma_flag_names_distinct(3);
        lemma_flag_names_distinct(4);
        lemma_flag_names_distinct(5);
        lemma_flag_names_distinct(6);
        lemma_flag_names_distinct(7);
        let s0: Seq<Seq<char>> = if flags & 0x01 != 0 { seq!["FIN"@] } else { seq![] };
        assert(s0 == if flags & 0x01 != 0 { Seq::<Seq<char>>::empty().push("FIN"@) } else { Seq::<Seq<char>>::empty() });
    }
    assert forall|i: int, j: int| 0 <= i < j < names.len() implies flag_rank(#[trigger] names[i])
        < flag_rank(#[trigger] names[j]) by {
        assert(idx[i] < idx[j]);
        assert(names[i] == flag_of_bit(idx[i]) && names[j] == flag_of_bit(idx[j]));
        lemma_flag_names_distinct(idx[i]);
        lemma_flag_names_distinct(idx[j]);
    }
}

/// What a TCP header decodes to, read straight off its bytes: the
/// big-endian ports of bytes 0-1 and 2-3, and the flags byte 13.
pub proof fn law_tcp_fields(seg: TcpSegment, bytes: Seq<u8>)
    requires
        TcpSegment::decodable(bytes),
        seg.parsed_from(bytes),
    ensures
        seg.src_port as int == bytes[0] as int * 256 + bytes[1] as int,
        seg.dest_port as int == bytes[2] as int * 256 + bytes[3] as int,
        seg.flags == bytes[13],
{
}

/// The quoted list read from its front: the first name quoted, then, if
/// there are more, `, ` and the list of the rest; a single name is just
/// that name quoted, and no names give nothing.
pub proof fn law_join_quoted_from_front(names: Seq<Seq<char>>)
    ensures
        names.len() == 0 ==> join_quoted(names) == Seq::<char>::empty(),
        names.len() == 1 ==> join_quoted(names) == seq!['"'] + names[0] + seq!['"'],
        names.len() >= 2 ==> join_quoted(names) == seq!['"'] + names[0] + seq!['"'] + seq![',', ' ']
            + join_quoted(names.skip(1)),
    decreases names.len(),
{
    if names.len() >= 3 {
        law_join_quoted_from_front(names.drop_last());
        assert(names.drop_last().skip(1) =~= names.skip(1).drop_last());
        assert(names.drop_last()[0] == names[0]);
        assert(names.skip(1).last() == names.last());
        assert(join_quoted(names.skip(1)) == join_quoted(names.skip(1).drop_last()) + seq![',', ' ']
            + quoted(names.skip(1).last()));
        assert(join_quoted(names) == join_quoted(names.drop_last()) + seq![',', ' '] + quoted(names.last()));
        assert(join_quoted(names) =~= seq!['"'] + names[0] + seq!['"'] + seq![',', ' '] + join_quoted(names.skip(1)));
    } else if names.len() == 2 {
        assert(names.drop_last() =~= seq![names[0]]);
        assert(names.skip(1) =~= seq![names[1]]);
        assert(join_quoted(names) == join_quoted(names.drop_last()) + seq![',', ' '] + quoted(names.last()));
        assert(join_quoted(seq![names[0]]) == quoted(names[0]));
        assert(join_quoted(seq![names[1]]) == quoted(names[1]));
        assert(join_quoted(names) =~= seq!['"'] + names[0] + seq!['"'] + seq![',', ' '] + join_quoted(names.skip(1)));
    }
}

} // verus!
