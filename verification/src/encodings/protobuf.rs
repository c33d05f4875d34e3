use vstd::prelude::*;

verus! {

use crate::encodings::{bytes_to_string, EncodeError, Encoder};
use crate::message::Record;
use vstd::slice::{slice_subrange, slice_to_vec};
use vstd::string::StrSliceExecFns;
use vstd::utf8::{decode_utf8, encode_utf8, valid_utf8};

/// Base-128 varint bytes of `n`, least significant group first.
pub open spec fn varint(n: nat) -> Seq<u8>
    decreases n,
{
    if n < 128 {
        seq![n as u8]
    } else {
        seq![(128 + n % 128) as u8] + varint(n / 128)
    }
}

pub open spec fn pow128(k: nat) -> nat
    decreases k,
{
    if k == 0 {
        1
    } else {
        128 * pow128((k - 1) as nat)
    }
}

/// Reads one varint of at most `fuel` bytes from the front of `s`, yielding
/// its value and the remaining bytes.
pub open spec fn parse_varint_rec(s: Seq<u8>, fuel: nat) -> Option<(nat, Seq<u8>)>
    decreases fuel,
{
    if fuel == 0 || s.len() == 0 {
        None
    } else if s[0] < 128 {
        Some((s[0] as nat, s.drop_first()))
    } else {
        match parse_varint_rec(s.drop_first(), (fuel - 1) as nat) {
            Some((v, rest)) => Some((((s[0] - 128) + 128 * v) as nat, rest)),
            None => None,
        }
    }
}

/// Varints longer than five bytes are rejected; every value that the codec
/// writes fits in five groups.
pub open spec fn parse_varint(s: Seq<u8>) -> Option<(nat, Seq<u8>)> {
    parse_varint_rec(s, 5)
}

proof fn lemma_parse_varint_shrinks(s: Seq<u8>, fuel: nat)
    ensures
        match parse_varint_rec(s, fuel) {
            Some((v, rest)) => rest.len() < s.len(),
            None => true,
        },
    decreases fuel,
{
    if fuel > 0 && s.len() > 0 && s[0] >= 128 {
        lemma_parse_varint_shrinks(s.drop_first(), (fuel - 1) as nat);
    }
}

proof fn lemma_pow128_pos(k: nat)
    ensures
        pow128(k) >= 1,
    decreases k,
{
    if k > 0 {
        lemma_pow128_pos((k - 1) as nat);
    }
}

proof fn lemma_parse_varint_bound(s: Seq<u8>, fuel: nat)
    ensures
        match parse_varint_rec(s, fuel) {
            Some((v, rest)) => v < pow128(fuel),
            None => true,
        },
    decreases fuel,
{
    if fuel > 0 && s.len() > 0 {
        lemma_pow128_pos((fuel - 1) as nat);
        assert(pow128(fuel) == 128 * pow128((fuel - 1) as nat));
        if s[0] >= 128 {
            lemma_parse_varint_bound(s.drop_first(), (fuel - 1) as nat);
        }
    }
}

proof fn lemma_varint_len(n: nat, k: nat)
    requires
        k >= 1,
        n < pow128(k),
    ensures
        varint(n).len() <= k,
    decreases k,
{
    if n >= 128 {
        lemma_pow128_pos((k - 1) as nat);
        assert(pow128(k) == 128 * pow128((k - 1) as nat));
        if k == 1 {
            assert(pow128(0) == 1);
            assert(false);
        }
        lemma_varint_len(n / 128, (k - 1) as nat);
    }
}

proof fn lemma_parse_varint_embed_rec(n: nat, rest: Seq<u8>, fuel: nat)
    requires
        varint(n).len() <= fuel,
    ensures
        parse_varint_rec(varint(n) + rest, fuel) == Some((n, rest)),
    decreases n,
{
    let s = varint(n) + rest;
    if n < 128 {
        assert(s[0] == n as u8);
        assert(s.drop_first() =~= rest);
    } else {
        assert(s[0] == (128 + n % 128) as u8);
        assert(s.drop_first() =~= varint(n / 128) + rest);
        lemma_parse_varint_embed_rec(n / 128, rest, (fuel - 1) as nat);
        assert((s[0] - 128) + 128 * (n / 128) == n);
    }
}

/// A varint written for `n` (below 128^5) reads back as `n`, leaving the
/// following bytes untouched.
pub proof fn lemma_parse_varint_embed(n: nat, rest: Seq<u8>)
    requires
        n < pow128(5),
    ensures
        parse_varint(varint(n) + rest) == Some((n, rest)),
{
    lemma_varint_len(n, 5);
    lemma_parse_varint_embed_rec(n, rest, 5);
}

/// Reads the wire fields of the record message in order, starting from
/// defaults: field 1 is the varint `id`, field 2 the length-delimited name;
/// later occurrences win, unknown fields are skipped by their wire type.
pub open spec fn proto_parse_fields(s: Seq<u8>, id: u32, name: Seq<u8>) -> Option<(u32, Seq<u8>)>
    decreases s.len(),
        when true
        via proto_parse_fields_dec
{
    if s.len() == 0 {
        Some((id, name))
    } else {
        match parse_varint(s) {
            None => None,
            Some((tag, r1)) => {
                let field = tag / 8;
                let wire = tag % 8;
                if field == 0 {
                    None
                } else if field == 1 {
                    if wire != 0 {
                        None
                    } else {
                        match parse_varint(r1) {
                            None => None,
                            Some((v, r2)) => if v <= u32::MAX {
                                proto_parse_fields(r2, v as u32, name)
                            } else {
                                None
                            },
                        }
                    }
                } else if field == 2 {
                    if wire != 2 {
                        None
                    } else {
                        match parse_varint(r1) {
                            None => None,
                            Some((l, r2)) => if l <= r2.len() {
                                proto_parse_fields(r2.skip(l as int), id, r2.take(l as int))
                            } else {
                                None
                            },
                        }
                    }
                } else if wire == 0 {
                    match parse_varint(r1) {
                        None => None,
                        Some((v, r2)) => proto_parse_fields(r2, id, name),
                    }
                } else if wire == 2 {
                    match parse_varint(r1) {
                        None => None,
                        Some((l, r2)) => if l <= r2.len() {
                            proto_parse_fields(r2.skip(l as int), id, name)
                        } else {
                            None
                        },
                    }
                } else if wire == 5 {
                    if r1.len() >= 4 {
                        proto_parse_fields(r1.skip(4), id, name)
                    } else {
                        None
                    }
                } else if wire == 1 {
                    if r1.len() >= 8 {
                        proto_parse_fields(r1.skip(8), id, name)
                    } else {
                        None
                    }
                } else {
                    None
                }
            },
        }
    }
}

#[via_fn]
proof fn proto_parse_fields_dec(s: Seq<u8>, id: u32, name: Seq<u8>) {
    lemma_parse_varint_shrinks(s, 5);
    if s.len() > 0 {
        match parse_varint(s) {
            Some((tag, r1)) => {
                lemma_parse_varint_shrinks(r1, 5);
            },
            None => {},
        }
    }
}

pub open spec fn proto_record_parse(s: Seq<u8>) -> Option<(u32, Seq<u8>)> {
    proto_parse_fields(s, 0u32, seq![])
}

/// The wire form written for a record: fields in tag order, default values
/// omitted, as the binary encoding convention prescribes.
pub open spec fn proto_encoding(id: u32, name: Seq<u8>) -> Seq<u8> {
    (if id == 0 {
        seq![]
    } else {
        seq![8u8] + varint(id as nat)
    }) + (if name.len() == 0 {
        seq![]
    } else {
        seq![18u8] + varint(name.len()) + name
    })
}

/// Binary codec writing the record in the wire format above.
pub struct ProtobufEncoder;

impl ProtobufEncoder {
    pub fn new() -> (r: ProtobufEncoder) {
        ProtobufEncoder
    }

    pub fn encode(&self, value: &Record) -> (r: Result<Vec<u8>, EncodeError>)
        requires
            encode_utf8(value.name@).len() <= u32::MAX,
        ensures
            match r {
                Ok(out) => out@ == proto_encoding(value.id, encode_utf8(value.name@)),
                Err(_) => false,
            },
    {
        let mut out: Vec<u8> = Vec::new();
        if value.id != 0 {
            out.push(8);
            push_varint(value.id as u64, &mut out);
        }
        let ghost after_id = out@;
        proof {
            assert(after_id =~= (if value.id == 0 {
                seq![]
            } else {
                seq![8u8] + varint(value.id as nat)
            }));
        }
        let name_bytes = value.name.as_str().as_bytes();
        if name_bytes.len() > 0 {
            out.push(18);
            push_varint(name_bytes.len() as u64, &mut out);
            let mut i: usize = 0;
            let n: usize = name_bytes.len();
            let ghost before_payload = out@;
            while i < n
                invariant
                    n == name_bytes@.len(),
                    0 <= i <= n,
                    out@ == before_payload + name_bytes@.take(i as int),
                decreases n - i,
            {
                out.push(name_bytes[i]);
                proof {
                    assert(before_payload + name_bytes@.take(i as int + 1) =~= (before_payload
                        + name_bytes@.take(i as int)).push(name_bytes@[i as int]));
                }
                i = i + 1;
            }
            proof {
                assert(name_bytes@.take(n as int) =~= name_bytes@);
            }
        }
        proof {
            assert(out@ =~= proto_encoding(value.id, encode_utf8(value.name@)));
        }
        Ok(out)
    }

    pub fn decode(&self, data: &[u8]) -> (r: Result<Record, EncodeError>)
        ensures
            match r {
                Ok(rec) => proto_record_parse(data@) == Some((rec.id, encode_utf8(rec.name@)))
                    && valid_utf8(encode_utf8(rec.name@)),
                Err(_) => match proto_record_parse(data@) {
                    Some((id, name)) => !valid_utf8(name),
                    None => true,
                },
            },
    {
        let ghost target = proto_record_parse(data@);
        let n: usize = data.len();
        let mut pos: usize = 0;
        let mut id: u32 = 0;
        let mut name_bytes: Vec<u8> = Vec::new();
        proof {
            assert(data@.skip(0) =~= data@);
        }
        while pos < n
            invariant
                n == data@.len(),
                0 <= pos <= n,
                target == proto_record_parse(data@),
                proto_parse_fields(data@.skip(pos as int), id, name_bytes@) == target,
            decreases n - pos,
        {
            let ghost suffix = data@.skip(pos as int);
            let tag_read = read_varint(data, pos);
            let (tag, p1) = match tag_read {
                Some(t) => t,
                None => {
                    return Err(EncodeError(String::from_str("protobuf: truncated tag")));
                },
            };
            let ghost r1 = data@.skip(p1 as int);
            let field: u64 = tag / 8;
            let wire: u64 = tag % 8;
            if field == 0 {
                return Err(EncodeError(String::from_str("protobuf: zero field number")));
            } else if field == 1 {
                if wire != 0 {
                    return Err(EncodeError(String::from_str("protobuf: bad wire type for id")));
                }
                let val_read = read_varint(data, p1);
                let (v, p2) = match val_read {
                    Some(t) => t,
                    None => {
                        return Err(EncodeError(String::from_str("protobuf: truncated id")));
                    },
                };
                if v > 0xFFFF_FFFF {
                    return Err(EncodeError(String::from_str("protobuf: id out of range")));
                }
                id = v as u32;
                pos = p2;
            } else if field == 2 {
                if wire != 2 {
                    return Err(EncodeError(String::from_str("protobuf: bad wire type for name")));
                }
                let len_read = read_varint(data, p1);
                let (l, p2) = match len_read {
                    Some(t) => t,
                    None => {
                        return Err(EncodeError(String::from_str("protobuf: truncated length")));
                    },
                };
                let ghost r2 = data@.skip(p2 as int);
                if l > (n - p2) as u64 {
                    return Err(EncodeError(String::from_str("protobuf: name length overruns")));
                }
                let l_usize: usize = l as usize;
                let payload = slice_subrange(data, p2, p2 + l_usize);
                name_bytes = slice_to_vec(payload);
                pos = p2 + l_usize;
                proof {
                    assert(r2.take(l as int) =~= data@.subrange(p2 as int, p2 as int + l as int));
                    assert(r2.skip(l as int) =~= data@.skip(pos as int));
                }
            } else if wire == 0 {
                let skip_read = read_varint(data, p1);
                let p2 = match skip_read {
                    Some(t) => t.1,
                    None => {
                        return Err(EncodeError(String::from_str("protobuf: truncated field")));
                    },
                };
                pos = p2;
            } else if wire == 2 {
                let len_read = read_varint(data, p1);
                let (l, p2) = match len_read {
                    Some(t) => t,
                    None => {
                        return Err(EncodeError(String::from_str("protobuf: truncated length")));
                    },
                };
                let ghost r2 = data@.skip(p2 as int);
                if l > (n - p2) as u64 {
                    return Err(EncodeError(String::from_str("protobuf: field overruns input")));
                }
                pos = p2 + l as usize;
                proof {
                    assert(r2.skip(l as int) =~= data@.skip(pos as int));
                }
            } else if wire == 5 {
                if n - p1 < 4 {
                    return Err(EncodeError(String::from_str("protobuf: truncated field")));
                }
                pos = p1 + 4;
                proof {
                    assert(r1.skip(4) =~= data@.skip(pos as int));
                }
            } else if wire == 1 {
                if n - p1 < 8 {
                    return Err(EncodeError(String::from_str("protobuf: truncated field")));
                }
                pos = p1 + 8;
                proof {
                    assert(r1.skip(8) =~= data@.skip(pos as int));
                }
            } else {
                return Err(EncodeError(String::from_str("protobuf: unsupported wire type")));
            }
        }
        proof {
            assert(data@.skip(pos as int) =~= Seq::<u8>::empty());
            assert(target == Some((id, name_bytes@)));
        }
        let ghost parsed_name = name_bytes@;
        match bytes_to_string(name_bytes) {
            Some(name) => {
                proof {
                    vstd::utf8::decode_utf8_encode_utf8(parsed_name);
                }
                Ok(Record { id, name })
            },
            None => Err(EncodeError(String::from_str("protobuf: name is not valid utf-8"))),
        }
    }
}

impl Encoder<Record> for ProtobufEncoder {
    fn encode(&self, value: &Record) -> Result<Vec<u8>, EncodeError> {
        if value.name.as_str().as_bytes().len() > 0xFFFF_FFFFusize {
            return Err(EncodeError(String::from_str("protobuf: name too long")));
        }
        ProtobufEncoder::encode(self, value)
    }

    fn decode(&self, data: &[u8]) -> Result<Record, EncodeError> {
        ProtobufEncoder::decode(self, data)
    }
}

/// Appends the varint groups of `n` to `out`.
fn push_varint(n: u64, out: &mut Vec<u8>)
    ensures
        final(out)@ == old(out)@ + varint(n as nat),
    decreases n,
{
    if n < 128 {
        out.push(n as u8);
        proof {
            assert(final(out)@ =~= old(out)@ + varint(n as nat));
        }
    } else {
        out.push(128 + (n % 128) as u8);
        push_varint(n / 128, out);
        proof {
            assert(final(out)@ =~= old(out)@ + varint(n as nat));
        }
    }
}

fn read_varint_rec(s: &[u8], from: usize, fuel: u8) -> (r: Option<(u64, usize)>)
    requires
        from <= s@.len(),
        fuel <= 5,
    ensures
        match (r, parse_varint_rec(s@.skip(from as int), fuel as nat)) {
            (Some((v, end)), Some((sv, rest))) => v == sv && from < end <= s@.len() && rest == s@
                .skip(end as int),
            (None, None) => true,
            _ => false,
        },
    decreases fuel,
{
    let ghost suffix = s@.skip(from as int);
    if fuel == 0 || from >= s.len() {
        return None;
    }
    let b = s[from];
    proof {
        assert(suffix[0] == s@[from as int]);
    }
    if b < 128 {
        proof {
            assert(suffix.drop_first() =~= s@.skip(from as int + 1));
        }
        Some((b as u64, from + 1))
    } else {
        proof {
            assert(suffix.drop_first() =~= s@.skip(from as int + 1));
        }
        match read_varint_rec(s, from + 1, fuel - 1) {
            Some((v, end)) => {
                proof {
                    lemma_parse_varint_bound(s@.skip(from as int + 1), (fuel - 1) as nat);
                    let f1 = (fuel - 1) as nat;
                    assert(pow128(0) == 1);
                    assert(pow128(1) == 128);
                    assert(pow128(2) == 16384);
                    assert(pow128(3) == 2097152);
                    assert(pow128(4) == 268435456);
                    assert(f1 == 0 || f1 == 1 || f1 == 2 || f1 == 3 || f1 == 4);
                    assert(pow128(f1) <= 268435456);
                }
                Some(((b - 128) as u64 + 128 * v, end))
            },
            None => None,
        }
    }
}

fn read_varint(s: &[u8], from: usize) -> (r: Option<(u64, usize)>)
    requires
        from <= s@.len(),
    ensures
        match (r, parse_varint(s@.skip(from as int))) {
            (Some((v, end)), Some((sv, rest))) => v == sv && from < end <= s@.len() && rest == s@
                .skip(end as int),
            (None, None) => true,
            _ => false,
        },
{
    read_varint_rec(s, from, 5)
}

/// Law: the wire grammar accepts every byte string the binary writer
/// produces, and reads back exactly the record that was written.
pub proof fn lemma_proto_round_trip(id: u32, name: Seq<u8>)
    requires
        name.len() <= u32::MAX,
    ensures
        proto_record_parse(proto_encoding(id, name)) == Some((id, name)),
{
    let s = proto_encoding(id, name);
    let name_part = if name.len() == 0 {
        seq![]
    } else {
        seq![18u8] + varint(name.len()) + name
    };
    assert(pow128(0) == 1);
    assert(pow128(1) == 128);
    assert(pow128(2) == 16384);
    assert(pow128(3) == 2097152);
    assert(pow128(4) == 268435456);
    assert(pow128(5) == 34359738368);
    if id != 0 {
        assert(s =~= seq![8u8] + (varint(id as nat) + name_part));
        assert((seq![8u8] + (varint(id as nat) + name_part))[0] == 8);
        assert((seq![8u8] + (varint(id as nat) + name_part)).drop_first() =~= varint(id as nat)
            + name_part);
        lemma_parse_varint_embed(id as nat, name_part);
        lemma_proto_name_part(id, name);
    } else {
        assert(s =~= name_part);
        lemma_proto_name_part(id, name);
    }
}

proof fn lemma_proto_name_part(id: u32, name: Seq<u8>)
    requires
        name.len() <= u32::MAX,
    ensures
        proto_parse_fields(
            if name.len() == 0 {
                seq![]
            } else {
                seq![18u8] + varint(name.len()) + name
            },
            id,
            seq![],
        ) == Some((id, name)),
{
    assert(pow128(0) == 1);
    assert(pow128(1) == 128);
    assert(pow128(2) == 16384);
    assert(pow128(3) == 2097152);
    assert(pow128(4) == 268435456);
    assert(pow128(5) == 34359738368);
    if name.len() == 0 {
        assert(proto_parse_fields(Seq::<u8>::empty(), id, Seq::<u8>::empty()) == Some(
            (id, Seq::<u8>::empty()),
        ));
        assert(name =~= Seq::<u8>::empty());
    } else {
        let part = seq![18u8] + varint(name.len()) + name;
        assert(part =~= seq![18u8] + (varint(name.len()) + name));
        assert((seq![18u8] + (varint(name.len()) + name))[0] == 18);
        assert((seq![18u8] + (varint(name.len()) + name)).drop_first() =~= varint(name.len())
            + name);
        lemma_parse_varint_embed(name.len(), name);
        assert(name.take(name.len() as int) =~= name);
        assert(name.skip(name.len() as int) =~= Seq::<u8>::empty());
        assert(proto_parse_fields(Seq::<u8>::empty(), id, name) == Some((id, name)));
    }
}

} // verus!
