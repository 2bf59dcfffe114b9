//! Hand-rolled protobuf wire-format helpers used by gRPC server reflection:
//! base-128 varints, string fields, and the length-delimited fields of a message.
use vstd::prelude::*;
use vstd::utf8::*;
use vstd::string::{StringSliceAdditionalSpecFns, StrSliceExecFns};
use crate::text::{append_strings, concat, utf8_str};

verus! {

/// The protobuf base-128 varint encoding of `v`: seven bits per byte, least
/// significant group first, the high bit set on every byte but the last.
pub open spec fn varint_bytes(v: u64) -> Seq<u8>
    decreases v,
{
    if v < 0x80 {
        seq![v as u8]
    } else {
        proof {
            assert(v >= 0x80 ==> v >> 7 < v) by (bit_vector);
        }
        seq![((v & 0x7f) | 0x80) as u8] + varint_bytes(v >> 7)
    }
}

/// Decoding a varint that starts at index `i` of `buf`, where the groups of the
/// bytes before `i` have already been gathered in `acc`: byte `i` carries the
/// bits `7 * i ..`; a clear high bit ends the varint; a tenth continuation byte
/// (one that would need shifting by 64 or more) makes it invalid.
pub open spec fn decode_varint_from(buf: Seq<u8>, i: int, acc: u64) -> Option<(u64, int)>
    decreases buf.len() - i,
{
    if i < 0 || i >= buf.len() {
        None
    } else {
        let b = buf[i];
        let acc2 = acc | (((b & 0x7f) as u64) << ((7 * i) as u64));
        if b & 0x80 == 0 {
            Some((acc2, i + 1))
        } else if 7 * (i + 1) >= 64 {
            None
        } else {
            decode_varint_from(buf, i + 1, acc2)
        }
    }
}

/// The varint at the start of `buf`, with the number of bytes it takes.
pub open spec fn decode_varint_spec(buf: Seq<u8>) -> Option<(u64, int)> {
    decode_varint_from(buf, 0, 0)
}

pub proof fn lemma_decode_varint_from_bounds(buf: Seq<u8>, i: int, acc: u64)
    requires
        0 <= i <= 9,
    ensures
        decode_varint_from(buf, i, acc) matches Some((_, n)) ==> i < n <= buf.len() && n <= 10,
    decreases buf.len() - i,
{
    if 0 <= i < buf.len() {
        let b = buf[i];
        let acc2 = acc | (((b & 0x7f) as u64) << ((7 * i) as u64));
        if b & 0x80 != 0 && 7 * (i + 1) < 64 {
            lemma_decode_varint_from_bounds(buf, i + 1, acc2);
        }
    }
}

/// A decoded varint takes at least one and at most ten bytes of the buffer.
pub proof fn lemma_decode_varint_bounds(buf: Seq<u8>)
    ensures
        decode_varint_spec(buf) matches Some((_, n)) ==> 1 <= n <= buf.len() && n <= 10,
{
    lemma_decode_varint_from_bounds(buf, 0, 0);
}

/// Appends the varint encoding of `v` to `buf`.
pub fn encode_varint(buf: &mut Vec<u8>, v: u64)
    ensures
        final(buf)@ == old(buf)@ + varint_bytes(v),
{
    let ghost b0 = buf@;
    let ghost v0 = v;
    let mut v = v;
    loop
        invariant_except_break
            buf@ + varint_bytes(v) == b0 + varint_bytes(v0),
        ensures
            buf@ == b0 + varint_bytes(v0),
        decreases v,
    {
        if v < 0x80 {
            buf.push(v as u8);
            assert(varint_bytes(v) == seq![v as u8]);
            break ;
        }
        let byte = (v as u8 & 0x7f) | 0x80;
        assert(byte == ((v & 0x7f) | 0x80) as u8) by (bit_vector)
            requires
                byte == (v as u8 & 0x7f) | 0x80,
        ;
        assert(v >= 0x80 ==> v >> 7 < v) by (bit_vector);
        let ghost before = buf@;
        buf.push(byte);
        assert(varint_bytes(v) == seq![byte] + varint_bytes(v >> 7));
        assert(before + varint_bytes(v) == buf@ + varint_bytes(v >> 7));
        v = v >> 7;
    }
}

/// Decodes the varint that starts at `start` in `buf`: its value and the number
/// of bytes it takes, or `None` when the buffer ends first or the varint is longer
/// than ten bytes.
pub fn decode_varint_at(buf: &[u8], start: usize) -> (res: Option<(u64, usize)>)
    requires
        start <= buf.len(),
    ensures
        match decode_varint_spec(buf@.skip(start as int)) {
            None => res is None,
            Some((v, n)) => res == Some((v, n as usize)),
        },
{
    let ghost s = buf@.skip(start as int);
    let mut value: u64 = 0;
    let mut shift: u32 = 0;
    let mut i: usize = 0;
    let len = buf.len() - start;
    while i < len
        invariant
            start <= buf.len(),
            len == buf.len() - start,
            s == buf@.skip(start as int),
            s.len() == len,
            i <= len,
            shift == 7 * i,
            i <= 9,
            decode_varint_spec(s) == decode_varint_from(s, i as int, value),
        decreases len - i,
    {
        let b = buf[start + i];
        assert(b == s[i as int]);
        value = value | (((b & 0x7f) as u64) << shift);
        if b & 0x80 == 0 {
            return Some((value, i + 1));
        }
        shift = shift + 7;
        if shift >= 64 {
            return None;
        }
        i = i + 1;
    }
    None
}

/// Decodes the varint at the start of `buf`: its value and the number of bytes
/// it takes.
pub fn decode_varint(buf: &[u8]) -> (res: Option<(u64, usize)>)
    ensures
        match decode_varint_spec(buf@) {
            None => res is None,
            Some((v, n)) => res == Some((v, n as usize)),
        },
{
    assert(buf@.skip(0) == buf@);
    decode_varint_at(buf, 0)
}

proof fn lemma_decode_encoded(buf: Seq<u8>, i: int, acc: u64, v: u64)
    requires
        0 <= i <= 9,
        i + varint_bytes(v).len() <= buf.len(),
        buf.subrange(i, i + varint_bytes(v).len()) == varint_bytes(v),
        i == 0 || v >> ((64 - 7 * i) as u64) == 0,
    ensures
        decode_varint_from(buf, i, acc) == Some(
            (acc | (v << ((7 * i) as u64)), i + varint_bytes(v).len()),
        ),
    decreases v,
{
    let s: u64 = (7 * i) as u64;
    let b = buf[i];
    assert(b == buf.subrange(i, i + varint_bytes(v).len())[0]);
    if v < 0x80 {
        assert(b == v as u8);
        assert(v < 0x80 ==> ((v as u8) & 0x80 == 0 && (((v as u8) & 0x7f) as u64) == v))
            by (bit_vector);
    } else {
        let w = v >> 7;
        assert(v >= 0x80 ==> v >> 7 < v) by (bit_vector);
        assert(b == ((v & 0x7f) | 0x80) as u8);
        assert((((v & 0x7f) | 0x80) as u8) & 0x80 != 0) by (bit_vector);
        assert(((((v & 0x7f) | 0x80) as u8) & 0x7f) as u64 == v & 0x7f) by (bit_vector);
        if i > 0 {
            let t: u64 = (64 - 7 * i) as u64;
            assert(v >= 0x80 && v >> t == 0 ==> t >= 8) by (bit_vector);
            assert(t >= 8 && v >> t == 0 ==> (v >> 7) >> ((t - 7) as u64) == 0) by (bit_vector);
        } else {
            assert((v >> 7) >> 57u64 == 0) by (bit_vector);
        }
        assert(7 * (i + 1) < 64);
        let acc2 = acc | ((v & 0x7f) << s);
        assert(varint_bytes(v) == seq![((v & 0x7f) | 0x80) as u8] + varint_bytes(w));
        assert(buf.subrange(i + 1, i + 1 + varint_bytes(w).len()) =~= varint_bytes(w)) by {
            assert forall|k: int| 0 <= k < varint_bytes(w).len() implies buf[i + 1 + k]
                == varint_bytes(w)[k] by {
                assert(buf[i + 1 + k] == buf.subrange(i, i + varint_bytes(v).len())[1 + k]);
            }
        }
        lemma_decode_encoded(buf, i + 1, acc2, w);
        assert(((7 * (i + 1)) as u64) == s + 7);
        assert(s + 7 <= 63 ==> (acc | ((v & 0x7f) << s)) | ((v >> 7) << (s + 7)) == acc | (v
            << s)) by (bit_vector);
    }
}

/// A varint reads back as the value that was written, and takes exactly the
/// bytes of its encoding, whatever follows it.
pub proof fn law_varint_roundtrip(v: u64, rest: Seq<u8>)
    ensures
        decode_varint_spec(varint_bytes(v) + rest) == Some((v, varint_bytes(v).len() as int)),
{
    let buf = varint_bytes(v) + rest;
    assert(buf.subrange(0, varint_bytes(v).len() as int) =~= varint_bytes(v));
    lemma_decode_encoded(buf, 0, 0, v);
    assert((0u64 | (v << 0u64)) == v) by (bit_vector);
}


/// One length-delimited field of a protobuf message: its field number and payload.
pub struct ProtoField {
    pub number: u32,
    pub data: Vec<u8>,
}

/// The length-delimited fields (wire type 2) of a protobuf message, in order, as
/// `(field number, payload)`. Varint (0), 64-bit (1) and 32-bit (5) fields are
/// skipped; the walk stops at the first tag or length that cannot be read, at an
/// unknown wire type, or at a payload that runs past the end of the buffer.
pub open spec fn ld_fields(buf: Seq<u8>) -> Seq<(u32, Seq<u8>)>
    decreases buf.len(),
{
    if buf.len() == 0 {
        seq![]
    } else {
        match decode_varint_spec(buf) {
            None => seq![],
            Some((tag, tn)) => {
                proof {
                    lemma_decode_varint_bounds(buf);
                }
                let rest = buf.skip(tn);
                let wire = tag & 7;
                if wire == 0 {
                    match decode_varint_spec(rest) {
                        None => seq![],
                        Some((_, vn)) => {
                            proof {
                                lemma_decode_varint_bounds(rest);
                            }
                            ld_fields(rest.skip(vn))
                        },
                    }
                } else if wire == 1 {
                    if rest.len() <= 8 {
                        seq![]
                    } else {
                        ld_fields(rest.skip(8))
                    }
                } else if wire == 2 {
                    match decode_varint_spec(rest) {
                        None => seq![],
                        Some((len, ln)) => {
                            proof {
                                lemma_decode_varint_bounds(rest);
                            }
                            let body = rest.skip(ln);
                            if len > body.len() {
                                seq![]
                            } else {
                                seq![(((tag >> 3) as u32), body.take(len as int))] + ld_fields(
                                    body.skip(len as int),
                                )
                            }
                        },
                    }
                } else if wire == 5 {
                    if rest.len() <= 4 {
                        seq![]
                    } else {
                        ld_fields(rest.skip(4))
                    }
                } else {
                    seq![]
                }
            },
        }
    }
}

/// The view of a list of fields as `(number, payload)` pairs.
pub open spec fn fields_view(v: Seq<ProtoField>) -> Seq<(u32, Seq<u8>)> {
    Seq::new(v.len(), |i: int| (v[i].number, v[i].data@))
}

proof fn lemma_skip_skip(buf: Seq<u8>, a: int, b: int)
    requires
        0 <= a <= buf.len(),
        0 <= b <= buf.len() - a,
    ensures
        buf.skip(a).skip(b) == buf.skip(a + b),
{
    assert(buf.skip(a).skip(b) =~= buf.skip(a + b));
}

/// The length-delimited fields of the protobuf message `buf`, in order
/// (see `ld_fields`).
pub fn walk_proto(buf: &[u8]) -> (res: Vec<ProtoField>)
    ensures
        fields_view(res@) == ld_fields(buf@),
{
    let mut res: Vec<ProtoField> = Vec::new();
    let mut pos: usize = 0;
    let ghost all = ld_fields(buf@);
    assert(buf@.skip(0) =~= buf@);
    proof {
        assert(forall|q: int| q == buf.len() ==> #[trigger] buf@.skip(q) =~= Seq::<u8>::empty());
    }
    while pos < buf.len()
        invariant_except_break
            fields_view(res@) + ld_fields(buf@.skip(pos as int)) == all,
        invariant
            pos <= buf.len(),
            all == ld_fields(buf@),
        ensures
            fields_view(res@) == all,
        decreases buf.len() - pos,
    {
        let ghost s = buf@.skip(pos as int);
        let (tag, tn) = match decode_varint_at(buf, pos) {
            Some(p) => p,
            None => {
                assert(ld_fields(s) == Seq::<(u32, Seq<u8>)>::empty());
                assert(ld_fields(s) == Seq::<(u32, Seq<u8>)>::empty());
                assert(fields_view(res@) + ld_fields(s) =~= fields_view(res@));
                break ;
            },
        };
        proof {
            lemma_decode_varint_bounds(s);
            lemma_skip_skip(buf@, pos as int, tn as int);
        }
        pos = pos + tn;
        let ghost rest = buf@.skip(pos as int);
        let wire = tag & 7;
        if wire == 0 {
            match decode_varint_at(buf, pos) {
                Some((_, vn)) => {
                    proof {
                        lemma_decode_varint_bounds(rest);
                        lemma_skip_skip(buf@, pos as int, vn as int);
                    }
                    pos = pos + vn;
                },
                None => {
                    assert(ld_fields(s) == Seq::<(u32, Seq<u8>)>::empty());
                    assert(fields_view(res@) + ld_fields(s) =~= fields_view(res@));
                    break ;
                },
            }
        } else if wire == 1 {
            if buf.len() - pos <= 8 {
                assert(ld_fields(s) == Seq::<(u32, Seq<u8>)>::empty());
                assert(fields_view(res@) + ld_fields(s) =~= fields_view(res@));
                break ;
            }
            proof {
                lemma_skip_skip(buf@, pos as int, 8);
            }
            pos = pos + 8;
        } else if wire == 2 {
            match decode_varint_at(buf, pos) {
                Some((len, ln)) => {
                    proof {
                        lemma_decode_varint_bounds(rest);
                        lemma_skip_skip(buf@, pos as int, ln as int);
                    }
                    let start = pos + ln;
                    let ghost body = buf@.skip(start as int);
                    if len > (buf.len() - start) as u64 {
                        assert(ld_fields(s) == Seq::<(u32, Seq<u8>)>::empty());
                        assert(fields_view(res@) + ld_fields(s) =~= fields_view(res@));
                        break ;
                    }
                    let end = start + len as usize;
                    let mut data: Vec<u8> = Vec::new();
                    let mut k: usize = start;
                    while k < end
                        invariant
                            start <= k <= end <= buf.len(),
                            data@ == buf@.subrange(start as int, k as int),
                        decreases end - k,
                    {
                        data.push(buf[k]);
                        k = k + 1;
                    }
                    assert(data@ =~= body.take(len as int));
                    let ghost old_res = fields_view(res@);
                    let number = (#[verifier::truncate] ((tag >> 3) as u32));
                    res.push(ProtoField { number, data });
                    assert(fields_view(res@) =~= old_res + seq![(number, body.take(len as int))]);
                    proof {
                        lemma_skip_skip(buf@, start as int, len as int);
                    }
                    pos = end;
                },
                None => {
                    assert(ld_fields(s) == Seq::<(u32, Seq<u8>)>::empty());
                    assert(fields_view(res@) + ld_fields(s) =~= fields_view(res@));
                    break ;
                },
            }
        } else if wire == 5 {
            if buf.len() - pos <= 4 {
                assert(ld_fields(s) == Seq::<(u32, Seq<u8>)>::empty());
                assert(fields_view(res@) + ld_fields(s) =~= fields_view(res@));
                break ;
            }
            proof {
                lemma_skip_skip(buf@, pos as int, 4);
            }
            pos = pos + 4;
        } else {
            assert(fields_view(res@) + ld_fields(s) =~= fields_view(res@));
            break ;
        }
    }
    res
}


/// The bytes of a protobuf string field: the tag `(field_num << 3) | 2` (computed
/// in 32 bits) and the byte length, both as varints, then the bytes.
pub open spec fn string_field_bytes(field_num: u32, bytes: Seq<u8>) -> Seq<u8> {
    varint_bytes((((field_num << 3u32) | 2u32) as u64)) + varint_bytes(bytes.len() as u64) + bytes
}

/// Encodes the string `value` as protobuf field `field_num` (wire type 2).
pub fn encode_string_field(field_num: u32, value: &str) -> (res: Vec<u8>)
    ensures
        res@ == string_field_bytes(field_num, value.spec_bytes()),
{
    let tag = (field_num << 3) | 2;
    let bytes = value.as_bytes();
    let mut out: Vec<u8> = Vec::new();
    encode_varint(&mut out, tag as u64);
    encode_varint(&mut out, bytes.len() as u64);
    let ghost head = out@;
    for i in 0..bytes.len()
        invariant
            out@ == head + bytes@.take(i as int),
    {
        out.push(bytes[i]);
        assert(bytes@.take(i + 1) =~= bytes@.take(i as int) + seq![bytes@[i as int]]);
    }
    assert(bytes@.take(bytes.len() as int) =~= bytes@);
    out
}

/// A string field written for a field number below `2^29` walks back as exactly
/// that field with those bytes.
pub proof fn law_string_field_roundtrip(field_num: u32, bytes: Seq<u8>)
    requires
        field_num < 0x2000_0000,
        bytes.len() <= u64::MAX,
    ensures
        ld_fields(string_field_bytes(field_num, bytes)) == seq![(field_num, bytes)],
{
    let tag: u64 = ((field_num << 3u32) | 2u32) as u64;
    let lenv = varint_bytes(bytes.len() as u64);
    let buf = string_field_bytes(field_num, bytes);
    let tail = lenv + bytes;
    assert(buf =~= varint_bytes(tag) + tail);
    law_varint_roundtrip(tag, tail);
    assert(field_num < 0x2000_0000 ==> (((field_num << 3u32) | 2u32) as u64) & 7 == 2)
        by (bit_vector);
    assert(field_num < 0x2000_0000 ==> ((((field_num << 3u32) | 2u32) as u64) >> 3) as u32
        == field_num) by (bit_vector);
    let tn = varint_bytes(tag).len() as int;
    assert(buf.skip(tn) =~= tail);
    law_varint_roundtrip(bytes.len() as u64, bytes);
    let ln = lenv.len() as int;
    assert(tail.skip(ln) =~= bytes);
    assert(bytes.take(bytes.len() as int) =~= bytes);
    assert(bytes.skip(bytes.len() as int) =~= Seq::<u8>::empty());
    assert(ld_fields(Seq::<u8>::empty()) == Seq::<(u32, Seq<u8>)>::empty());
    assert(buf.len() > 0);
    assert(ld_fields(buf) =~= seq![(field_num, bytes)]);
}

/// The texts held by the fields numbered `n` whose payload is well-formed UTF-8,
/// in order.
pub open spec fn strings_in(fields: Seq<(u32, Seq<u8>)>, n: u32) -> Seq<Seq<char>>
    decreases fields.len(),
{
    if fields.len() == 0 {
        seq![]
    } else {
        strings_in(fields.drop_last(), n) + if fields.last().0 == n && valid_utf8(
            fields.last().1,
        ) {
            seq![decode_utf8(fields.last().1)]
        } else {
            seq![]
        }
    }
}

/// The text of the last field numbered `n` whose payload is well-formed UTF-8,
/// or the empty text when there is none.
pub open spec fn last_string(fields: Seq<(u32, Seq<u8>)>, n: u32) -> Seq<char>
    decreases fields.len(),
{
    if fields.len() == 0 {
        seq![]
    } else if fields.last().0 == n && valid_utf8(fields.last().1) {
        decode_utf8(fields.last().1)
    } else {
        last_string(fields.drop_last(), n)
    }
}

/// Service names in a `ListServiceResponse`: field 1 (`service`) holds a
/// `ServiceResponse`, whose field 1 is the name.
pub open spec fn listed_service_names(fields: Seq<(u32, Seq<u8>)>) -> Seq<Seq<char>>
    decreases fields.len(),
{
    if fields.len() == 0 {
        seq![]
    } else {
        listed_service_names(fields.drop_last()) + if fields.last().0 == 1 {
            strings_in(ld_fields(fields.last().1), 1)
        } else {
            seq![]
        }
    }
}

/// Service names in a `ServerReflectionResponse` (grpc.reflection.v1alpha):
/// field 6 is the `list_services_response`.
pub open spec fn reflected_service_names(fields: Seq<(u32, Seq<u8>)>) -> Seq<Seq<char>>
    decreases fields.len(),
{
    if fields.len() == 0 {
        seq![]
    } else {
        reflected_service_names(fields.drop_last()) + if fields.last().0 == 6 {
            listed_service_names(ld_fields(fields.last().1))
        } else {
            seq![]
        }
    }
}

proof fn lemma_take_last<A>(s: Seq<A>, i: int)
    requires
        0 <= i < s.len(),
    ensures
        s.take(i + 1).drop_last() == s.take(i),
        s.take(i + 1).last() == s[i],
        s.take(i + 1).len() == i + 1,
{
    assert(s.take(i + 1).drop_last() =~= s.take(i));
}

/// The texts of the fields numbered `n` of the message `buf` that hold
/// well-formed UTF-8.
pub fn strings_of_field(buf: &[u8], n: u32) -> (res: Vec<String>)
    ensures
        res.deep_view() == strings_in(ld_fields(buf@), n),
{
    let fields = walk_proto(buf);
    let ghost fv = fields_view(fields@);
    let mut res: Vec<String> = Vec::new();
    for i in 0..fields.len()
        invariant
            fv == fields_view(fields@),
            fv == ld_fields(buf@),
            res.deep_view() == strings_in(fv.take(i as int), n),
    {
        proof {
            lemma_take_last(fv, i as int);
        }
        let f = &fields[i];
        if f.number == n {
            if let Some(s) = utf8_str(f.data.as_slice()) {
                let ghost before = res.deep_view();
                res.push(s.to_owned());
                assert(res.deep_view() =~= before + seq![decode_utf8(fv[i as int].1)]);
            }
        }
    }
    assert(fv.take(fields.len() as int) =~= fv);
    res
}

/// The text of the last field numbered `n` of `buf` that holds well-formed UTF-8
/// (empty when none does).
pub fn last_string_of_field(buf: &[u8], n: u32) -> (res: String)
    ensures
        res@ == last_string(ld_fields(buf@), n),
{
    let fields = walk_proto(buf);
    let ghost fv = fields_view(fields@);
    let mut res = String::new();
    for i in 0..fields.len()
        invariant
            fv == fields_view(fields@),
            res@ == last_string(fv.take(i as int), n),
    {
        proof {
            lemma_take_last(fv, i as int);
        }
        let f = &fields[i];
        if f.number == n {
            if let Some(s) = utf8_str(f.data.as_slice()) {
                res = s.to_owned();
            }
        }
    }
    assert(fv.take(fields.len() as int) =~= fv);
    res
}

/// Service names from a gRPC `ServerReflectionResponse` answering `list_services`
/// (`list_services_response` = field 6, its repeated `service` = field 1, and the
/// service's `name` = field 1); names that are not well-formed UTF-8 are skipped.
pub fn parse_list_services(buf: &[u8]) -> (res: Vec<String>)
    ensures
        res.deep_view() == reflected_service_names(ld_fields(buf@)),
{
    let top = walk_proto(buf);
    let ghost tv = fields_view(top@);
    let mut res: Vec<String> = Vec::new();
    for i in 0..top.len()
        invariant
            tv == fields_view(top@),
            res.deep_view() == reflected_service_names(tv.take(i as int)),
    {
        proof {
            lemma_take_last(tv, i as int);
        }
        if top[i].number == 6 {
            let list = walk_proto(top[i].data.as_slice());
            let ghost lv = fields_view(list@);
            let mut names: Vec<String> = Vec::new();
            for j in 0..list.len()
                invariant
                    lv == fields_view(list@),
                    names.deep_view() == listed_service_names(lv.take(j as int)),
            {
                proof {
                    lemma_take_last(lv, j as int);
                }
                if list[j].number == 1 {
                    let found = strings_of_field(list[j].data.as_slice(), 1);
                    append_strings(&mut names, &found);
                }
            }
            assert(lv.take(list.len() as int) =~= lv);
            append_strings(&mut res, &names);
        }
    }
    assert(tv.take(top.len() as int) =~= tv);
    res
}


/// Method names in a `ServiceDescriptorProto`: its repeated `method` (field 2)
/// holds `MethodDescriptorProto`s whose `name` is field 1.
pub open spec fn method_names_in(fields: Seq<(u32, Seq<u8>)>) -> Seq<Seq<char>>
    decreases fields.len(),
{
    if fields.len() == 0 {
        seq![]
    } else {
        method_names_in(fields.drop_last()) + if fields.last().0 == 2 {
            strings_in(ld_fields(fields.last().1), 1)
        } else {
            seq![]
        }
    }
}

/// A service name qualified by its package, `package.Service`, or the bare name
/// when the package is empty.
pub open spec fn qualified(package: Seq<char>, name: Seq<char>) -> Seq<char> {
    if package.len() == 0 {
        name
    } else {
        package + seq!['.'] + name
    }
}

/// `service/method` for each method name.
pub open spec fn method_paths(service: Seq<char>, methods: Seq<Seq<char>>) -> Seq<Seq<char>> {
    Seq::new(methods.len(), |i: int| service + seq!['/'] + methods[i])
}

/// The method paths of the services (field 6) of a `FileDescriptorProto` whose
/// package is `package`.
pub open spec fn services_methods(fields: Seq<(u32, Seq<u8>)>, package: Seq<char>) -> Seq<
    Seq<char>,
>
    decreases fields.len(),
{
    if fields.len() == 0 {
        seq![]
    } else {
        services_methods(fields.drop_last(), package) + if fields.last().0 == 6 {
            let svc = ld_fields(fields.last().1);
            method_paths(qualified(package, last_string(svc, 1)), method_names_in(svc))
        } else {
            seq![]
        }
    }
}

/// The method paths of one `FileDescriptorProto`; its package is field 2.
pub open spec fn descriptor_methods(fd: Seq<u8>) -> Seq<Seq<char>> {
    services_methods(ld_fields(fd), last_string(ld_fields(fd), 2))
}

/// The method paths of a `FileDescriptorResponse`, whose repeated
/// `file_descriptor_proto` is field 1.
pub open spec fn descriptor_response_methods(fields: Seq<(u32, Seq<u8>)>) -> Seq<Seq<char>>
    decreases fields.len(),
{
    if fields.len() == 0 {
        seq![]
    } else {
        descriptor_response_methods(fields.drop_last()) + if fields.last().0 == 1 {
            descriptor_methods(fields.last().1)
        } else {
            seq![]
        }
    }
}

/// The method paths of a `ServerReflectionResponse` (grpc.reflection.v1alpha),
/// whose `file_descriptor_response` is field 4.
pub open spec fn reflected_methods(fields: Seq<(u32, Seq<u8>)>) -> Seq<Seq<char>>
    decreases fields.len(),
{
    if fields.len() == 0 {
        seq![]
    } else {
        reflected_methods(fields.drop_last()) + if fields.last().0 == 4 {
            descriptor_response_methods(ld_fields(fields.last().1))
        } else {
            seq![]
        }
    }
}

/// What `parse_file_descriptor_methods` answers: the reflected method paths, or,
/// when there are none and the service hint is not empty, `hint/` alone.
pub open spec fn file_descriptor_methods(buf: Seq<u8>, hint: Seq<char>) -> Seq<Seq<char>> {
    let all = reflected_methods(ld_fields(buf));
    if all.len() == 0 && hint.len() != 0 {
        seq![hint + seq!['/']]
    } else {
        all
    }
}

/// The method names of a `ServiceDescriptorProto`.
fn method_names_of(svc: &[u8]) -> (res: Vec<String>)
    ensures
        res.deep_view() == method_names_in(ld_fields(svc@)),
{
    let fields = walk_proto(svc);
    let ghost fv = fields_view(fields@);
    let mut res: Vec<String> = Vec::new();
    for i in 0..fields.len()
        invariant
            fv == fields_view(fields@),
            res.deep_view() == method_names_in(fv.take(i as int)),
    {
        proof {
            lemma_take_last(fv, i as int);
        }
        if fields[i].number == 2 {
            let found = strings_of_field(fields[i].data.as_slice(), 1);
            append_strings(&mut res, &found);
        }
    }
    assert(fv.take(fields.len() as int) =~= fv);
    res
}

/// `service/method` for each of `methods`, appended to `res`.
fn push_method_paths(res: &mut Vec<String>, service: &str, methods: &Vec<String>)
    ensures
        final(res).deep_view() == old(res).deep_view() + method_paths(service@, methods.deep_view()),
{
    let ghost r0 = res.deep_view();
    proof {
        reveal_strlit("/");
        assert("/"@ =~= seq!['/']);
    }
    let prefix = concat(service, "/");
    for i in 0..methods.len()
        invariant
            prefix@ == service@ + seq!['/'],
            res.deep_view() =~= r0 + method_paths(service@, methods.deep_view().take(i as int)),
    {
        let path = concat(prefix.as_str(), methods[i].as_str());
        let ghost before = res.deep_view();
        res.push(path);
        assert(res.deep_view() =~= before + seq![path@]);
    }
    assert(methods.deep_view().take(methods.len() as int) =~= methods.deep_view());
}

/// The method paths of one `FileDescriptorProto`.
fn descriptor_methods_of(fd: &[u8]) -> (res: Vec<String>)
    ensures
        res.deep_view() == descriptor_methods(fd@),
{
    let package = last_string_of_field(fd, 2);
    let fields = walk_proto(fd);
    let ghost fv = fields_view(fields@);
    let mut res: Vec<String> = Vec::new();
    for i in 0..fields.len()
        invariant
            fv == fields_view(fields@),
            fv == ld_fields(fd@),
            package@ == last_string(ld_fields(fd@), 2),
            res.deep_view() == services_methods(fv.take(i as int), package@),
    {
        proof {
            lemma_take_last(fv, i as int);
        }
        if fields[i].number == 6 {
            let svc = fields[i].data.as_slice();
            let name = last_string_of_field(svc, 1);
            let methods = method_names_of(svc);
            if package.as_str().is_empty() {
                push_method_paths(&mut res, name.as_str(), &methods);
            } else {
                proof {
                    reveal_strlit(".");
                    assert("."@ =~= seq!['.']);
                }
                let dotted = concat(package.as_str(), ".");
                let full = concat(dotted.as_str(), name.as_str());
                assert(full@ == qualified(package@, name@));
                push_method_paths(&mut res, full.as_str(), &methods);
            }
        }
    }
    assert(fv.take(fields.len() as int) =~= fv);
    res
}

/// Method paths (`package.Service/Method`) from a gRPC `ServerReflectionResponse`
/// answering `file_containing_symbol`: `file_descriptor_response` = field 4, its
/// repeated `file_descriptor_proto` = field 1, the file's `package` = field 2 and
/// `service` = field 6, the service's `name` = field 1 and `method` = field 2, the
/// method's `name` = field 1. When none is found and `service_hint` is not empty,
/// the answer is `service_hint/` alone.
pub fn parse_file_descriptor_methods(buf: &[u8], service_hint: &str) -> (res: Vec<String>)
    ensures
        res.deep_view() == file_descriptor_methods(buf@, service_hint@),
{
    let top = walk_proto(buf);
    let ghost tv = fields_view(top@);
    let mut res: Vec<String> = Vec::new();
    for i in 0..top.len()
        invariant
            tv == fields_view(top@),
            res.deep_view() == reflected_methods(tv.take(i as int)),
    {
        proof {
            lemma_take_last(tv, i as int);
        }
        if top[i].number == 4 {
            let inner = walk_proto(top[i].data.as_slice());
            let ghost iv = fields_view(inner@);
            let mut found: Vec<String> = Vec::new();
            for j in 0..inner.len()
                invariant
                    iv == fields_view(inner@),
                    found.deep_view() == descriptor_response_methods(iv.take(j as int)),
            {
                proof {
                    lemma_take_last(iv, j as int);
                }
                if inner[j].number == 1 {
                    let m = descriptor_methods_of(inner[j].data.as_slice());
                    append_strings(&mut found, &m);
                }
            }
            assert(iv.take(inner.len() as int) =~= iv);
            append_strings(&mut res, &found);
        }
    }
    assert(tv.take(top.len() as int) =~= tv);
    if res.len() == 0 && !service_hint.is_empty() {
        proof {
            reveal_strlit("/");
            assert("/"@ =~= seq!['/']);
        }
        let only = concat(service_hint, "/");
        let mut fallback: Vec<String> = Vec::new();
        fallback.push(only);
        assert(fallback.deep_view() =~= seq![service_hint@ + seq!['/']]);
        return fallback;
    }
    res
}


/// A service's method paths carry its package only when it has one: with an
/// empty package each path is `Service/method`, with a package `p` each is
/// `p.Service/method`.
pub proof fn law_method_paths_qualify_by_package(
    package: Seq<char>,
    service: Seq<char>,
    methods: Seq<Seq<char>>,
)
    ensures
        method_paths(qualified(package, service), methods).len() == methods.len(),
        forall|i: int| 0 <= i < methods.len() ==> #[trigger] method_paths(qualified(package, service), methods)[i]
            == if package.len() == 0 {
                service + seq!['/'] + methods[i]
            } else {
                package + seq!['.'] + service + seq!['/'] + methods[i]
            },
{
}

} // verus!
