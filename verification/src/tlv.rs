//! BER-TLV decoding: a flat byte buffer becomes an ordered sequence of
//! tag/value records.
//!
//! Tags are one byte, or several when the low five bits of the first byte
//! are all set: continuation bytes keep the high bit set and the final byte
//! clears it.  A length byte below 0x80 is the value length itself; otherwise
//! its low seven bits count the following big-endian length bytes.  A buffer
//! that ends inside a tag, inside the length bytes, or before the declared
//! value is complete is rejected.

use vstd::prelude::*;
use vstd::slice::{slice_index_get, slice_subrange, slice_to_vec};
use vstd::string::StringExecFns;

verus! {

/// A parsed tag-length-value record: raw tag bytes and raw value bytes.
#[derive(Debug, Clone, PartialEq, Eq)]
pub struct Tlv {
    pub tag: Vec<u8>,
    pub value: Vec<u8>,
}

/// The mathematical content of one record.
#[verifier::ext_equal]
pub struct TlvData {
    pub tag: Seq<u8>,
    pub value: Seq<u8>,
}

impl View for Tlv {
    type V = TlvData;

    open spec fn view(&self) -> TlvData {
        TlvData { tag: self.tag@, value: self.value@ }
    }
}

/// The records of a vector of records.
pub open spec fn views(tlvs: Seq<Tlv>) -> Seq<TlvData> {
    tlvs.map_values(|t: Tlv| t@)
}

/// The ways a TLV parse can fail.
#[derive(Debug, Clone, Copy, PartialEq, Eq, Structural)]
pub enum TlvError {
    /// The buffer ends inside a tag, or right after one with no length byte.
    TruncatedTag,
    /// The buffer ends inside the long-form length bytes.
    TruncatedLength,
    /// The declared value length exceeds what remains of the buffer.
    TruncatedValue,
}

/// The message text carried by each parse failure.
pub open spec fn tlv_error_message(e: TlvError) -> Seq<char> {
    match e {
        TlvError::TruncatedTag => "Invalid TLV tag"@,
        TlvError::TruncatedLength => "Invalid length encoding"@,
        TlvError::TruncatedValue => "Invalid TLV data"@,
    }
}

/// Index one past the end of the tag that starts the buffer, scanning
/// continuation bytes from position `i`; `None` when the tag runs past the
/// end of the buffer.
pub open spec fn tag_span_from(data: Seq<u8>, i: int) -> Option<int>
    decreases data.len() - i,
{
    if i < 0 || i >= data.len() {
        None
    } else if data[i] & 0x80 == 0x80 {
        tag_span_from(data, i + 1)
    } else {
        Some(i + 1)
    }
}

/// Index one past the end of the tag that starts the buffer, or `None` when
/// the buffer ends mid-tag.
pub open spec fn tag_span(data: Seq<u8>) -> Option<int> {
    if data.len() == 0 {
        None
    } else if data[0] & 0x1F != 0x1F {
        Some(1)
    } else {
        tag_span_from(data, 1)
    }
}

/// The big-endian value of a byte sequence, most significant byte first.
pub open spec fn be_value(s: Seq<u8>) -> nat
    decreases s.len(),
{
    if s.len() == 0 {
        0
    } else {
        be_value(s.drop_last()) * 256 + s.last() as nat
    }
}

/// The first record of the buffer together with the number of bytes it
/// occupies, or the failure the buffer provokes.
pub open spec fn parse_one(data: Seq<u8>) -> Result<(TlvData, int), TlvError> {
    match tag_span(data) {
        None => Err(TlvError::TruncatedTag),
        Some(t) => {
            if t >= data.len() {
                Err(TlvError::TruncatedTag)
            } else {
                let lb = data[t];
                if lb & 0x80 == 0 {
                    let vstart = t + 1;
                    let vlen = lb as int;
                    if vstart + vlen > data.len() {
                        Err(TlvError::TruncatedValue)
                    } else {
                        Ok((
                            TlvData {
                                tag: data.subrange(0, t),
                                value: data.subrange(vstart, vstart + vlen),
                            },
                            vstart + vlen,
                        ))
                    }
                } else {
                    let n = (lb & 0x7F) as int;
                    if t + 1 + n > data.len() {
                        Err(TlvError::TruncatedLength)
                    } else {
                        let vlen = be_value(data.subrange(t + 1, t + 1 + n)) as int;
                        let vstart = t + 1 + n;
                        if vstart + vlen > data.len() {
                            Err(TlvError::TruncatedValue)
                        } else {
                            Ok((
                                TlvData {
                                    tag: data.subrange(0, t),
                                    value: data.subrange(vstart, vstart + vlen),
                                },
                                vstart + vlen,
                            ))
                        }
                    }
                }
            }
        },
    }
}

/// All records of the buffer in order, or the failure its first flaw
/// provokes.
pub open spec fn parse_tlvs(data: Seq<u8>) -> Result<Seq<TlvData>, TlvError>
    decreases data.len(),
{
    if data.len() == 0 {
        Ok(Seq::empty())
    } else {
        match parse_one(data) {
            Err(e) => Err(e),
            Ok((rec, used)) => {
                if 0 < used <= data.len() {
                    match parse_tlvs(data.skip(used)) {
                        Ok(rest) => Ok(seq![rec] + rest),
                        Err(e) => Err(e),
                    }
                } else {
                    // parse_one never returns such a span; this arm only
                    // keeps the recursion well-founded.
                    Err(TlvError::TruncatedValue)
                }
            },
        }
    }
}

/// The first record whose tag equals the queried tag, in parse order.
pub open spec fn find_tag(records: Seq<TlvData>, tag: Seq<u8>) -> Option<TlvData>
    decreases records.len(),
{
    if records.len() == 0 {
        None
    } else if records[0].tag == tag {
        Some(records[0])
    } else {
        find_tag(records.skip(1), tag)
    }
}

/// A span returned by `tag_span_from` lies past its starting point and
/// within the buffer.
proof fn lemma_tag_span_from_bounds(data: Seq<u8>, i: int, t: int)
    requires
        tag_span_from(data, i) == Some(t),
    ensures
        i < t <= data.len(),
    decreases data.len() - i,
{
    if i < 0 || i >= data.len() {
    } else if data[i] & 0x80 == 0x80 {
        lemma_tag_span_from_bounds(data, i + 1, t);
    }
}

/// A tag span lies within the buffer and holds at least one byte.
proof fn lemma_tag_span_bounds(data: Seq<u8>, t: int)
    requires
        tag_span(data) == Some(t),
    ensures
        1 <= t <= data.len(),
{
    if data.len() == 0 {
    } else if data[0] & 0x1F != 0x1F {
    } else {
        lemma_tag_span_from_bounds(data, 1, t);
    }
}

/// A successful `parse_one` consumes at least two bytes and at most the
/// whole buffer.
proof fn lemma_parse_one_bounds(data: Seq<u8>, rec: TlvData, used: int)
    requires
        parse_one(data) == Ok::<(TlvData, int), TlvError>((rec, used)),
    ensures
        2 <= used <= data.len(),
{
    let t = tag_span(data)->Some_0;
    lemma_tag_span_bounds(data, t);
}

/// Joins records already taken off the front of a buffer with the outcome
/// of parsing the remainder.
spec fn prepend_records(
    recs: Seq<TlvData>,
    r: Result<Seq<TlvData>, TlvError>,
) -> Result<Seq<TlvData>, TlvError> {
    match r {
        Ok(s) => Ok(recs + s),
        Err(e) => Err(e),
    }
}

/// A prefix of a byte sequence never exceeds the whole as a big-endian
/// value.
proof fn lemma_be_value_take(s: Seq<u8>, j: int)
    requires
        0 <= j <= s.len(),
    ensures
        be_value(s.take(j)) <= be_value(s),
    decreases s.len(),
{
    if j == s.len() {
        assert(s.take(j) =~= s);
    } else {
        assert(s.drop_last().take(j) =~= s.take(j));
        lemma_be_value_take(s.drop_last(), j);
    }
}


/// A tag byte sequence as the decoder itself would accept it: one byte with
/// its low five bits not all set, or a multi-byte tag whose continuation
/// bytes keep the high bit set and whose final byte clears it.
pub open spec fn valid_tag(tag: Seq<u8>) -> bool {
    if tag.len() == 0 {
        false
    } else if tag[0] & 0x1F == 0x1F {
        tag.len() >= 2 && (forall|i: int| 1 <= i < tag.len() - 1 ==> (#[trigger] tag[i]) & 0x80
            == 0x80) && tag.last() & 0x80 != 0x80
    } else {
        tag.len() == 1
    }
}

/// A record the decoder's own short-form encoding can carry: a valid tag
/// and a value of at most 127 bytes.
pub open spec fn wf_short(r: TlvData) -> bool {
    valid_tag(r.tag) && r.value.len() <= 127
}

/// The short-form encoding of one record: tag bytes, one length byte, value
/// bytes.
pub open spec fn short_encoding(r: TlvData) -> Seq<u8> {
    r.tag + seq![r.value.len() as u8] + r.value
}

/// The short-form encodings of a sequence of records, one after another.
pub open spec fn serialize_tlvs(records: Seq<TlvData>) -> Seq<u8>
    decreases records.len(),
{
    if records.len() == 0 {
        Seq::empty()
    } else {
        short_encoding(records[0]) + serialize_tlvs(records.skip(1))
    }
}

/// Scanning a valid multi-byte tag laid down at the head of a buffer stops
/// exactly at the tag's end.
proof fn lemma_tag_span_from_encoding(data: Seq<u8>, tag: Seq<u8>, i: int)
    requires
        valid_tag(tag),
        tag.len() >= 2,
        data.len() > tag.len(),
        forall|k: int| 0 <= k < tag.len() ==> data[k] == tag[k],
        1 <= i <= tag.len() - 1,
    ensures
        tag_span_from(data, i) == Some(tag.len() as int),
    decreases tag.len() - i,
{
    if i < tag.len() - 1 {
        assert(data[i] == tag[i]);
        assert(tag[i] & 0x80 == 0x80);
        lemma_tag_span_from_encoding(data, tag, i + 1);
    } else {
        assert(data[i] == tag.last());
    }
}

/// A well-formed short-form record laid down at the head of a buffer is the
/// record `parse_one` takes off it, whatever follows.
proof fn lemma_parse_one_encoding(rec: TlvData, rest: Seq<u8>)
    requires
        wf_short(rec),
    ensures
        parse_one(short_encoding(rec) + rest) == Ok::<(TlvData, int), TlvError>((
            rec,
            short_encoding(rec).len() as int,
        )),
{
    let enc = short_encoding(rec);
    let data = enc + rest;
    let tl = rec.tag.len() as int;
    let lb = rec.value.len() as u8;
    assert(enc.len() == tl + 1 + rec.value.len());
    assert forall|k: int| 0 <= k < tl implies data[k] == rec.tag[k] by {
        assert(enc[k] == (rec.tag + seq![lb])[k]);
    }
    assert(data[tl] == lb);
    assert forall|k: int| 0 <= k < rec.value.len() implies data[tl + 1 + k] == rec.value[k] by {
        assert(enc[tl + 1 + k] == rec.value[k]);
    }
    if rec.tag[0] & 0x1F == 0x1F {
        lemma_tag_span_from_encoding(data, rec.tag, 1);
        assert(tag_span(data) == Some(tl));
    } else {
        assert(tag_span(data) == Some(1int));
    }
    assert(lb < 128);
    assert(lb & 0x80 == 0) by (bit_vector)
        requires
            lb < 128,
    ;
    assert(lb as int == rec.value.len());
    assert(data.subrange(0, tl) =~= rec.tag);
    assert(data.subrange(tl + 1, tl + 1 + rec.value.len() as int) =~= rec.value);
    assert(TlvData {
        tag: data.subrange(0, tl),
        value: data.subrange(tl + 1, tl + 1 + rec.value.len() as int),
    } =~= rec);
}

/// Round-trip law for the decoder's own encoding subset: a buffer assembled
/// from well-formed short-form records parses back to exactly those
/// records, so parsing such a buffer and re-serializing the parsed records
/// reproduces the original bytes.
pub proof fn lemma_parse_serialize_round_trip(records: Seq<TlvData>)
    requires
        forall|i: int| 0 <= i < records.len() ==> wf_short(#[trigger] records[i]),
    ensures
        parse_tlvs(serialize_tlvs(records)) == Ok::<Seq<TlvData>, TlvError>(records),
    decreases records.len(),
{
    if records.len() == 0 {
        assert(serialize_tlvs(records) =~= Seq::<u8>::empty());
        assert(records =~= Seq::<TlvData>::empty());
    } else {
        let head = records[0];
        let tail = records.skip(1);
        let enc = short_encoding(head);
        let data = serialize_tlvs(records);
        lemma_parse_one_encoding(head, serialize_tlvs(tail));
        assert forall|i: int| 0 <= i < tail.len() implies wf_short(#[trigger] tail[i]) by {
            assert(tail[i] == records[i + 1]);
        }
        lemma_parse_serialize_round_trip(tail);
        assert(data.skip(enc.len() as int) =~= serialize_tlvs(tail));
        assert(valid_tag(head.tag));
        assert(enc.len() >= 2);
        assert(seq![head] + tail =~= records);
    }
}

/// The round-trip law in terms of the bytes: parsing a short-form encoding
/// and re-serializing the parsed records reproduces the original buffer
/// exactly.
pub proof fn lemma_round_trip_bytes(data: Seq<u8>, records: Seq<TlvData>)
    requires
        data == serialize_tlvs(records),
        forall|i: int| 0 <= i < records.len() ==> wf_short(#[trigger] records[i]),
    ensures
        parse_tlvs(data) matches Ok(parsed) && serialize_tlvs(parsed) == data,
{
    lemma_parse_serialize_round_trip(records);
}

fn tlv_error_string(e: TlvError) -> (r: String)
    ensures
        r@ == tlv_error_message(e),
{
    match e {
        TlvError::TruncatedTag => String::from_str("Invalid TLV tag"),
        TlvError::TruncatedLength => String::from_str("Invalid length encoding"),
        TlvError::TruncatedValue => String::from_str("Invalid TLV data"),
    }
}

/// Element-wise equality of two byte slices.
fn bytes_equal(a: &[u8], b: &[u8]) -> (r: bool)
    ensures
        r == (a@ == b@),
{
    if a.len() != b.len() {
        return false;
    }
    let mut i: usize = 0;
    while i < a.len()
        invariant
            i <= a@.len(),
            a@.len() == b@.len(),
            forall|k: int| 0 <= k < i ==> a@[k] == b@[k],
        decreases a@.len() - i,
    {
        if a[i] != b[i] {
            return false;
        }
        i += 1;
    }
    proof {
        assert(a@ =~= b@);
    }
    true
}

/// Finds the index one past the end of the tag that starts at `pos`, or
/// `None` when the tag runs to the end of the buffer.
fn scan_tag(data: &[u8], pos: usize) -> (r: Option<usize>)
    requires
        pos < data@.len(),
    ensures
        (match r {
            Some(end) => pos < end <= data@.len() && tag_span(data@.skip(pos as int))
                == Some(end - pos),
            None => tag_span(data@.skip(pos as int)) is None,
        }),
{
    let ghost suffix = data@.skip(pos as int);
    let first = data[pos];
    proof {
        assert(suffix[0] == first);
    }
    if first & 0x1F != 0x1F {
        return Some(pos + 1);
    }
    let mut end = pos + 1;
    while end < data.len() && (data[end] & 0x80) == 0x80
        invariant
            pos < data@.len(),
            pos < end <= data@.len(),
            suffix == data@.skip(pos as int),
            suffix[0] & 0x1F == 0x1F,
            tag_span_from(suffix, 1) == tag_span_from(suffix, end - pos),
        decreases data@.len() - end,
    {
        proof {
            assert(suffix[end - pos] == data@[end as int]);
        }
        end = end + 1;
    }
    if end >= data.len() {
        proof {
            assert(tag_span_from(suffix, end - pos) is None);
        }
        return None;
    }
    proof {
        assert(suffix[end - pos] == data@[end as int]);
        assert(tag_span_from(suffix, end - pos) == Some(end - pos + 1));
    }
    Some(end + 1)
}

/// Reads `n` big-endian length bytes starting at `pos`; `None` when the
/// encoded value exceeds the buffer length, in which case no value of that
/// length can follow anyway.
fn read_be_length(data: &[u8], pos: usize, n: usize) -> (r: Option<usize>)
    requires
        pos + n <= data@.len(),
    ensures
        (match r {
            Some(len) => len as nat == be_value(
                data@.subrange(pos as int, pos as int + n as int),
            ) && len <= data@.len(),
            None => be_value(data@.subrange(pos as int, pos as int + n as int)) > data@.len(),
        }),
{
    let ghost lbytes = data@.subrange(pos as int, pos as int + n as int);
    let mut acc: u128 = 0;
    let mut j: usize = 0;
    while j < n
        invariant
            j <= n,
            pos + n <= data@.len(),
            lbytes == data@.subrange(pos as int, pos as int + n as int),
            acc as nat == be_value(lbytes.take(j as int)),
        decreases n - j,
    {
        if acc > data.len() as u128 {
            proof {
                lemma_be_value_take(lbytes, j as int);
            }
            return None;
        }
        proof {
            assert(lbytes[j as int] == data@[pos + j]);
            assert(lbytes.take(j as int + 1).drop_last() =~= lbytes.take(j as int));
            assert(lbytes.take(j as int + 1).last() == lbytes[j as int]);
            assert(acc <= data@.len() <= usize::MAX);
        }
        acc = acc * 256 + (data[pos + j] as u128);
        j += 1;
    }
    proof {
        assert(lbytes.take(n as int) =~= lbytes);
    }
    if acc > data.len() as u128 {
        return None;
    }
    Some(acc as usize)
}

impl Tlv {
    /// Takes the record that starts at `pos` off the buffer, returning it
    /// with the index of the first byte after it.
    fn parse_step(data: &[u8], pos: usize) -> (r: Result<(Tlv, usize), TlvError>)
        requires
            pos < data@.len(),
        ensures
            (match r {
                Ok(step) => pos < step.1 <= data@.len() && parse_one(data@.skip(pos as int))
                    == Ok::<(TlvData, int), TlvError>((step.0@, step.1 - pos)),
                Err(e) => parse_one(data@.skip(pos as int)) == Err::<(TlvData, int), TlvError>(
                    e,
                ),
            }),
    {
        let ghost suffix = data@.skip(pos as int);
        let tag_end = match scan_tag(data, pos) {
            Some(e) => e,
            None => {
                return Err(TlvError::TruncatedTag);
            },
        };
        let ghost t = tag_end - pos;
        if tag_end >= data.len() {
            return Err(TlvError::TruncatedTag);
        }
        let tag = slice_to_vec(slice_subrange(data, pos, tag_end));
        proof {
            assert(tag@ =~= suffix.subrange(0, t));
        }
        let length_byte = data[tag_end];
        proof {
            assert(suffix[t] == length_byte);
        }
        let mut vpos = tag_end + 1;
        let mut length: usize = 0;
        if length_byte & 0x80 == 0 {
            length = length_byte as usize;
        } else {
            let n = (length_byte & 0x7F) as usize;
            if n > data.len() - vpos {
                return Err(TlvError::TruncatedLength);
            }
            proof {
                assert(data@.subrange(vpos as int, vpos as int + n as int) =~= suffix.subrange(
                    t + 1,
                    t + 1 + n as int,
                ));
            }
            match read_be_length(data, vpos, n) {
                Some(len) => {
                    length = len;
                },
                None => {
                    return Err(TlvError::TruncatedValue);
                },
            }
            vpos = vpos + n;
        }
        let ghost vstart = vpos - pos;
        let ghost vlen = length as int;
        proof {
            assert(parse_one(suffix) == (if vstart + vlen <= suffix.len() {
                Ok::<(TlvData, int), TlvError>((
                    TlvData {
                        tag: suffix.subrange(0, t),
                        value: suffix.subrange(vstart, vstart + vlen),
                    },
                    vstart + vlen,
                ))
            } else {
                Err::<(TlvData, int), TlvError>(TlvError::TruncatedValue)
            }));
        }
        if length > data.len() - vpos {
            return Err(TlvError::TruncatedValue);
        }
        let value = slice_to_vec(slice_subrange(data, vpos, vpos + length));
        let entry = Tlv { tag, value };
        proof {
            assert(entry@ =~= TlvData {
                tag: suffix.subrange(0, t),
                value: suffix.subrange(vstart, vstart + vlen),
            });
        }
        Ok((entry, vpos + length))
    }

    /// Parses a whole buffer into its ordered records, or reports the first
    /// flaw: a buffer ending inside a tag or before a length byte, length
    /// bytes running past the end, or a declared value length exceeding the
    /// bytes that remain.
    pub fn parse(data: &[u8]) -> (r: Result<Vec<Tlv>, String>)
        ensures
            (match r {
                Ok(tlvs) => parse_tlvs(data@) == Ok::<Seq<TlvData>, TlvError>(views(tlvs@)),
                Err(m) => parse_tlvs(data@) matches Err(e) && m@ == tlv_error_message(e),
            }),
    {
        let mut tlvs: Vec<Tlv> = Vec::new();
        let mut pos: usize = 0;
        proof {
            assert(data@.skip(0) =~= data@);
            assert(views(tlvs@) =~= Seq::<TlvData>::empty());
            match parse_tlvs(data@) {
                Ok(s) => {
                    assert(Seq::<TlvData>::empty() + s =~= s);
                },
                Err(_) => {},
            }
        }
        while pos < data.len()
            invariant
                pos <= data@.len(),
                prepend_records(views(tlvs@), parse_tlvs(data@.skip(pos as int))) == parse_tlvs(
                    data@,
                ),
            decreases data@.len() - pos,
        {
            let ghost suffix = data@.skip(pos as int);
            let ghost entry_records = tlvs@;
            match Self::parse_step(data, pos) {
                Err(e) => {
                    proof {
                        assert(suffix.len() > 0);
                        assert(parse_tlvs(suffix) == Err::<Seq<TlvData>, TlvError>(e));
                    }
                    return Err(tlv_error_string(e));
                },
                Ok((entry, newpos)) => {
                    let ghost entry_view = entry@;
                    let ghost used = newpos - pos;
                    tlvs.push(entry);
                    proof {
                        assert(data@.skip(newpos as int) =~= suffix.skip(used));
                        assert(views(tlvs@) =~= views(entry_records).push(entry_view));
                        match parse_tlvs(suffix.skip(used)) {
                            Ok(rest) => {
                                assert(parse_tlvs(suffix) == Ok::<Seq<TlvData>, TlvError>(
                                    seq![entry_view] + rest,
                                ));
                                assert(views(entry_records).push(entry_view) + rest =~= views(
                                    entry_records,
                                ) + (seq![entry_view] + rest));
                            },
                            Err(_) => {},
                        }
                    }
                    pos = newpos;
                },
            }
        }
        proof {
            assert(data@.skip(data@.len() as int) =~= Seq::<u8>::empty());
            assert(views(tlvs@) + Seq::<TlvData>::empty() =~= views(tlvs@));
        }
        Ok(tlvs)
    }

    /// The first record, in parse order, whose tag equals the queried tag;
    /// `None` when no record carries it.
    pub fn find_by_tag<'a>(tlvs: &'a [Tlv], tag: &[u8]) -> (r: Option<&'a Tlv>)
        ensures
            (match r {
                Some(t) => find_tag(views(tlvs@), tag@) == Some(t@),
                None => find_tag(views(tlvs@), tag@) is None,
            }),
    {
        proof {
            assert(views(tlvs@).skip(0) =~= views(tlvs@));
        }
        let mut i: usize = 0;
        while i < tlvs.len()
            invariant
                i <= tlvs@.len(),
                find_tag(views(tlvs@), tag@) == find_tag(views(tlvs@).skip(i as int), tag@),
            decreases tlvs@.len() - i,
        {
            let t = slice_index_get(tlvs, i);
            proof {
                assert(views(tlvs@).skip(i as int)[0] == tlvs@[i as int]@);
            }
            if bytes_equal(t.tag.as_slice(), tag) {
                return Some(t);
            }
            proof {
                assert(views(tlvs@).skip(i as int).skip(1) =~= views(tlvs@).skip(i as int + 1));
            }
            i += 1;
        }
        proof {
            assert(views(tlvs@).skip(tlvs@.len() as int) =~= Seq::<TlvData>::empty());
        }
        None
    }
}


impl Tlv {
    /// Serializes this record in the decoder's own short form: tag bytes,
    /// one length byte, value bytes.
    pub fn to_bytes(&self) -> (r: Vec<u8>)
        requires
            self.value@.len() <= 127,
        ensures
            r@ == short_encoding(self@),
    {
        let mut out: Vec<u8> = Vec::new();
        let mut i: usize = 0;
        while i < self.tag.len()
            invariant
                i <= self.tag@.len(),
                out@ == self.tag@.take(i as int),
            decreases self.tag@.len() - i,
        {
            out.push(self.tag[i]);
            proof {
                assert(self.tag@.take(i + 1) =~= self.tag@.take(i as int).push(
                    self.tag@[i as int],
                ));
            }
            i += 1;
        }
        proof {
            assert(self.tag@.take(self.tag@.len() as int) =~= self.tag@);
        }
        out.push(self.value.len() as u8);
        let ghost header = self.tag@ + seq![self.value@.len() as u8];
        proof {
            assert(out@ =~= header);
        }
        let mut j: usize = 0;
        while j < self.value.len()
            invariant
                j <= self.value@.len(),
                header == self.tag@ + seq![self.value@.len() as u8],
                out@ == header + self.value@.take(j as int),
            decreases self.value@.len() - j,
        {
            out.push(self.value[j]);
            proof {
                assert(header + self.value@.take(j + 1) =~= (header + self.value@.take(
                    j as int,
                )).push(self.value@[j as int]));
            }
            j += 1;
        }
        proof {
            assert(self.value@.take(self.value@.len() as int) =~= self.value@);
            assert(out@ =~= short_encoding(self@));
        }
        out
    }

    /// Serializes a sequence of records in short form, one after another.
    pub fn serialize(tlvs: &[Tlv]) -> (r: Vec<u8>)
        requires
            forall|i: int| 0 <= i < tlvs@.len() ==> (#[trigger] tlvs@[i]).value@.len() <= 127,
        ensures
            r@ == serialize_tlvs(views(tlvs@)),
    {
        let mut out: Vec<u8> = Vec::new();
        proof {
            assert(views(tlvs@).skip(0) =~= views(tlvs@));
            assert(out@ + serialize_tlvs(views(tlvs@)) =~= serialize_tlvs(views(tlvs@)));
        }
        let mut i: usize = 0;
        while i < tlvs.len()
            invariant
                i <= tlvs@.len(),
                forall|k: int| 0 <= k < tlvs@.len() ==> (#[trigger] tlvs@[k]).value@.len()
                    <= 127,
                out@ + serialize_tlvs(views(tlvs@).skip(i as int)) == serialize_tlvs(
                    views(tlvs@),
                ),
            decreases tlvs@.len() - i,
        {
            let t = slice_index_get(tlvs, i);
            let ghost out_before = out@;
            let mut piece = t.to_bytes();
            out.append(&mut piece);
            proof {
                assert(views(tlvs@).skip(i as int)[0] == tlvs@[i as int]@);
                assert(views(tlvs@).skip(i as int).skip(1) =~= views(tlvs@).skip(i as int + 1));
                assert((out_before + short_encoding(tlvs@[i as int]@)) + serialize_tlvs(
                    views(tlvs@).skip(i as int + 1),
                ) =~= out_before + (short_encoding(tlvs@[i as int]@) + serialize_tlvs(
                    views(tlvs@).skip(i as int + 1),
                )));
            }
            i += 1;
        }
        proof {
            assert(views(tlvs@).skip(tlvs@.len() as int) =~= Seq::<TlvData>::empty());
            assert(out@ + Seq::<u8>::empty() =~= out@);
        }
        out
    }
}

} // verus!
