use vstd::prelude::*;

verus! {

use crate::encodings::text::{
    canonical_digits,
    dec_digits,
    dec_value_range,
    digits_end,
    escape_bytes,
    escape_into,
    lemma_dec_digits_end,
    lemma_dec_digits_value,
    lemma_unescape_escape,
    parse_u32,
    push_decimal,
    unescape_exec,
    unescape_from,
};
use crate::encodings::{bytes_to_string, EncodeError, Encoder};
use crate::message::Record;
use vstd::string::StrSliceExecFns;
use vstd::utf8::{decode_utf8, encode_utf8, valid_utf8};

/// The JSON text written for a record whose name has the byte form `name`:
/// the compact object `{"id":<digits>,"name":"<escaped>"}`.
pub open spec fn json_encoding(id: u32, name: Seq<u8>) -> Seq<u8> {
    seq![123u8, 34u8, 105u8, 100u8, 34u8, 58u8] + dec_digits(id as nat) + seq![
        44u8,
        34u8,
        110u8,
        97u8,
        109u8,
        101u8,
        34u8,
        58u8,
        34u8,
    ] + escape_bytes(name) + seq![34u8, 125u8]
}

pub open spec fn is_json_ws(b: u8) -> bool {
    b == 32 || b == 9 || b == 10 || b == 13
}

/// First index at or after `i` holding something other than JSON whitespace.
pub open spec fn json_ws_end(s: Seq<u8>, i: int) -> int
    decreases s.len() - i,
        when 0 <= i <= s.len()
{
    if i < s.len() && is_json_ws(s[i]) {
        json_ws_end(s, i + 1)
    } else {
        i
    }
}

/// `"id"`
pub open spec fn id_key() -> Seq<u8> {
    seq![34u8, 105u8, 100u8, 34u8]
}

/// `"name"`
pub open spec fn name_key() -> Seq<u8> {
    seq![34u8, 110u8, 97u8, 109u8, 101u8, 34u8]
}

/// Position of a value after a key: whitespace, a colon, whitespace.
pub open spec fn after_colon(s: Seq<u8>, i: int) -> Option<int>
    recommends
        0 <= i <= s.len(),
{
    let c = json_ws_end(s, i);
    if c < s.len() && s[c] == 58 {
        Some(json_ws_end(s, c + 1))
    } else {
        None
    }
}

/// The id value at `i`: a canonical digit run that fits `u32`.
pub open spec fn json_id_value_at(s: Seq<u8>, i: int) -> Option<(int, int)>
    recommends
        0 <= i <= s.len(),
{
    let dend = digits_end(s, i);
    if dend == i || !canonical_digits(s, i, dend) || dec_value_range(s, i, dend) > u32::MAX {
        None
    } else {
        Some((dec_value_range(s, i, dend), dend))
    }
}

/// The name value at `i`: a quoted string with escapes.
pub open spec fn json_name_value_at(s: Seq<u8>, i: int) -> Option<(Seq<u8>, int)>
    recommends
        0 <= i <= s.len(),
{
    if i < s.len() && s[i] == 34 {
        unescape_from(s, i + 1)
    } else {
        None
    }
}

/// The closing of the object after the last value: whitespace, the brace,
/// whitespace to the end.
pub open spec fn json_finish(s: Seq<u8>, i: int, idv: int, nm: Seq<u8>) -> Option<(u32, Seq<u8>)>
    recommends
        0 <= i <= s.len(),
{
    let p = json_ws_end(s, i);
    if p < s.len() && s[p] == 125 && json_ws_end(s, p + 1) == s.len() {
        Some((idv as u32, nm))
    } else {
        None
    }
}

/// The records the JSON grammar accepts: an object carrying exactly the two
/// fields, in either order, with whitespace allowed between tokens.
pub open spec fn json_record_parse(s: Seq<u8>) -> Option<(u32, Seq<u8>)> {
    let a = json_ws_end(s, 0);
    if a < s.len() && s[a] == 123 {
        let b = json_ws_end(s, a + 1);
        if b + 4 <= s.len() && s.subrange(b, b + 4) == id_key() {
            match after_colon(s, b + 4) {
                Some(v0) => match json_id_value_at(s, v0) {
                    Some((idv, e)) => {
                        let f = json_ws_end(s, e);
                        if f < s.len() && s[f] == 44 {
                            let g = json_ws_end(s, f + 1);
                            if g + 6 <= s.len() && s.subrange(g, g + 6) == name_key() {
                                match after_colon(s, g + 6) {
                                    Some(v1) => match json_name_value_at(s, v1) {
                                        Some((nm, e2)) => json_finish(s, e2, idv, nm),
                                        None => None,
                                    },
                                    None => None,
                                }
                            } else {
                                None
                            }
                        } else {
                            None
                        }
                    },
                    None => None,
                },
                None => None,
            }
        } else if b + 6 <= s.len() && s.subrange(b, b + 6) == name_key() {
            match after_colon(s, b + 6) {
                Some(v0) => match json_name_value_at(s, v0) {
                    Some((nm, e)) => {
                        let f = json_ws_end(s, e);
                        if f < s.len() && s[f] == 44 {
                            let g = json_ws_end(s, f + 1);
                            if g + 4 <= s.len() && s.subrange(g, g + 4) == id_key() {
                                match after_colon(s, g + 4) {
                                    Some(v1) => match json_id_value_at(s, v1) {
                                        Some((idv, e2)) => json_finish(s, e2, idv, nm),
                                        None => None,
                                    },
                                    None => None,
                                }
                            } else {
                                None
                            }
                        } else {
                            None
                        }
                    },
                    None => None,
                },
                None => None,
            }
        } else {
            None
        }
    } else {
        None
    }
}

/// Structured-text codec writing the record as a JSON object.
pub struct JsonEncoder;

fn ws_skip(s: &[u8], i: usize) -> (r: usize)
    requires
        i <= s@.len(),
    ensures
        r == json_ws_end(s@, i as int),
        i <= r <= s@.len(),
    decreases s@.len() - i,
{
    if i < s.len() {
        let b = s[i];
        if b == 32 || b == 9 || b == 10 || b == 13 {
            return ws_skip(s, i + 1);
        }
    }
    i
}

fn match_id_key(data: &[u8], b: usize) -> (r: bool)
    requires
        b <= data@.len(),
    ensures
        r == (b + 4 <= data@.len() && data@.subrange(b as int, b as int + 4) == id_key()),
{
    let n: usize = data.len();
    if n - b >= 4 && data[b] == 34 && data[b + 1] == 105 && data[b + 2] == 100 && data[b + 3]
        == 34 {
        proof {
            assert(data@.subrange(b as int, b as int + 4) =~= id_key());
        }
        true
    } else {
        proof {
            if b + 4 <= data@.len() && data@.subrange(b as int, b as int + 4) == id_key() {
                assert(data@[b as int] == id_key()[0]);
                assert(data@[b as int + 1] == id_key()[1]);
                assert(data@[b as int + 2] == id_key()[2]);
                assert(data@[b as int + 3] == id_key()[3]);
            }
        }
        false
    }
}

fn match_name_key(data: &[u8], b: usize) -> (r: bool)
    requires
        b <= data@.len(),
    ensures
        r == (b + 6 <= data@.len() && data@.subrange(b as int, b as int + 6) == name_key()),
{
    let n: usize = data.len();
    if n - b >= 6 && data[b] == 34 && data[b + 1] == 110 && data[b + 2] == 97 && data[b + 3] == 109
        && data[b + 4] == 101 && data[b + 5] == 34 {
        proof {
            assert(data@.subrange(b as int, b as int + 6) =~= name_key());
        }
        true
    } else {
        proof {
            if b + 6 <= data@.len() && data@.subrange(b as int, b as int + 6) == name_key() {
                assert(data@[b as int] == name_key()[0]);
                assert(data@[b as int + 1] == name_key()[1]);
                assert(data@[b as int + 2] == name_key()[2]);
                assert(data@[b as int + 3] == name_key()[3]);
                assert(data@[b as int + 4] == name_key()[4]);
                assert(data@[b as int + 5] == name_key()[5]);
            }
        }
        false
    }
}

/// Position after a key's colon, or `None` as [`after_colon`] decides.
fn colon_skip(data: &[u8], i: usize) -> (r: Option<usize>)
    requires
        i <= data@.len(),
    ensures
        match r {
            Some(v) => after_colon(data@, i as int) == Some(v as int) && v <= data@.len(),
            None => after_colon(data@, i as int) is None,
        },
{
    let n: usize = data.len();
    let c = ws_skip(data, i);
    if c < n && data[c] == 58 {
        Some(ws_skip(data, c + 1))
    } else {
        None
    }
}

impl JsonEncoder {
    pub fn encode(&self, value: &Record) -> (r: Result<Vec<u8>, EncodeError>)
        ensures
            match r {
                Ok(out) => out@ == json_encoding(value.id, encode_utf8(value.name@)),
                Err(_) => false,
            },
    {
        let mut out: Vec<u8> = Vec::new();
        out.push(123);
        out.push(34);
        out.push(105);
        out.push(100);
        out.push(34);
        out.push(58);
        let ghost prefix = out@;
        push_decimal(value.id as u64, &mut out);
        let ghost after_digits = out@;
        out.push(44);
        out.push(34);
        out.push(110);
        out.push(97);
        out.push(109);
        out.push(101);
        out.push(34);
        out.push(58);
        out.push(34);
        let name_bytes = value.name.as_str().as_bytes();
        escape_into(name_bytes, &mut out);
        out.push(34);
        out.push(125);
        proof {
            assert(out@ =~= json_encoding(value.id, encode_utf8(value.name@)));
        }
        Ok(out)
    }

    pub fn decode(&self, data: &[u8]) -> (r: Result<Record, EncodeError>)
        ensures
            match r {
                Ok(rec) => json_record_parse(data@) == Some((rec.id, encode_utf8(rec.name@)))
                    && valid_utf8(encode_utf8(rec.name@)),
                Err(_) => match json_record_parse(data@) {
                    Some((id, name)) => !valid_utf8(name),
                    None => true,
                },
            },
    {
        let n: usize = data.len();
        let a = ws_skip(data, 0);
        if !(a < n && data[a] == 123) {
            return Err(EncodeError(String::from_str("json: missing object frame")));
        }
        let b = ws_skip(data, a + 1);
        if match_id_key(data, b) {
            // id first, then name.
            let v0 = match colon_skip(data, b + 4) {
                Some(v) => v,
                None => {
                    return Err(EncodeError(String::from_str("json: missing colon")));
                },
            };
            let (id, e) = match parse_u32(data, v0) {
                Some(p) => p,
                None => {
                    return Err(EncodeError(String::from_str("json: malformed id")));
                },
            };
            let f = ws_skip(data, e);
            if !(f < n && data[f] == 44) {
                return Err(EncodeError(String::from_str("json: missing comma")));
            }
            let g = ws_skip(data, f + 1);
            if !match_name_key(data, g) {
                return Err(EncodeError(String::from_str("json: missing name field")));
            }
            let v1 = match colon_skip(data, g + 6) {
                Some(v) => v,
                None => {
                    return Err(EncodeError(String::from_str("json: missing colon")));
                },
            };
            if !(v1 < n && data[v1] == 34) {
                return Err(EncodeError(String::from_str("json: name is not a string")));
            }
            let (content, e2) = match unescape_exec(data, v1 + 1) {
                Some(u) => u,
                None => {
                    return Err(EncodeError(String::from_str("json: unterminated name")));
                },
            };
            let p = ws_skip(data, e2);
            if !(p < n && data[p] == 125) {
                return Err(EncodeError(String::from_str("json: missing closing brace")));
            }
            if ws_skip(data, p + 1) != n {
                return Err(EncodeError(String::from_str("json: trailing bytes")));
            }
            let ghost parsed_name = json_record_parse(data@).unwrap().1;
            match bytes_to_string(content) {
                Some(name) => {
                    proof {
                        vstd::utf8::decode_utf8_encode_utf8(parsed_name);
                    }
                    Ok(Record { id, name })
                },
                None => Err(EncodeError(String::from_str("json: name is not valid utf-8"))),
            }
        } else if match_name_key(data, b) {
            // name first, then id.
            let v0 = match colon_skip(data, b + 6) {
                Some(v) => v,
                None => {
                    return Err(EncodeError(String::from_str("json: missing colon")));
                },
            };
            if !(v0 < n && data[v0] == 34) {
                return Err(EncodeError(String::from_str("json: name is not a string")));
            }
            let (content, e) = match unescape_exec(data, v0 + 1) {
                Some(u) => u,
                None => {
                    return Err(EncodeError(String::from_str("json: unterminated name")));
                },
            };
            let f = ws_skip(data, e);
            if !(f < n && data[f] == 44) {
                return Err(EncodeError(String::from_str("json: missing comma")));
            }
            let g = ws_skip(data, f + 1);
            if !match_id_key(data, g) {
                return Err(EncodeError(String::from_str("json: missing id field")));
            }
            let v1 = match colon_skip(data, g + 4) {
                Some(v) => v,
                None => {
                    return Err(EncodeError(String::from_str("json: missing colon")));
                },
            };
            let (id, e2) = match parse_u32(data, v1) {
                Some(p) => p,
                None => {
                    return Err(EncodeError(String::from_str("json: malformed id")));
                },
            };
            let p = ws_skip(data, e2);
            if !(p < n && data[p] == 125) {
                return Err(EncodeError(String::from_str("json: missing closing brace")));
            }
            if ws_skip(data, p + 1) != n {
                return Err(EncodeError(String::from_str("json: trailing bytes")));
            }
            let ghost parsed_name = json_record_parse(data@).unwrap().1;
            match bytes_to_string(content) {
                Some(name) => {
                    proof {
                        vstd::utf8::decode_utf8_encode_utf8(parsed_name);
                    }
                    Ok(Record { id, name })
                },
                None => Err(EncodeError(String::from_str("json: name is not valid utf-8"))),
            }
        } else {
            Err(EncodeError(String::from_str("json: unknown first field")))
        }
    }
}

impl Encoder<Record> for JsonEncoder {
    fn encode(&self, value: &Record) -> Result<Vec<u8>, EncodeError> {
        JsonEncoder::encode(self, value)
    }

    fn decode(&self, data: &[u8]) -> Result<Record, EncodeError> {
        JsonEncoder::decode(self, data)
    }
}

/// Law: the JSON grammar accepts every text the JSON writer produces, and
/// reads back exactly the record that was written.
pub proof fn lemma_json_round_trip(id: u32, name: Seq<u8>)
    ensures
        json_record_parse(json_encoding(id, name)) == Some((id, name)),
{
    let s = json_encoding(id, name);
    let d = dec_digits(id as nat);
    let e = escape_bytes(name);
    let dlen = d.len() as int;
    let elen = e.len() as int;
    assert(s.len() == 6 + dlen + 9 + elen + 2);
    lemma_dec_digits_shape_local(id as nat);
    assert(json_ws_end(s, 0) == 0);
    assert(s[0] == 123);
    assert(json_ws_end(s, 1) == 1);
    assert(s.subrange(1, 5) =~= id_key()) by {
        assert forall|k: int| 0 <= k < 4 implies s.subrange(1, 5)[k] == id_key()[k] by {}
    }
    assert(json_ws_end(s, 5) == 5);
    assert(s[5] == 58);
    assert forall|k: int| 0 <= k < dlen implies s[6 + k] == d[k] by {}
    assert(s.subrange(6, 6 + dlen) =~= d);
    assert(!is_json_ws(s[6]));
    assert(json_ws_end(s, 6) == 6);
    lemma_dec_digits_end(s, 6, id as nat);
    lemma_dec_digits_value(s, 6, id as nat);
    let dend = digits_end(s, 6);
    assert(dend == 6 + dlen);
    assert(s[dend] == 44);
    assert(json_ws_end(s, dend) == dend);
    assert(json_ws_end(s, dend + 1) == dend + 1);
    assert(s.subrange(dend + 1, dend + 7) =~= name_key()) by {
        assert forall|k: int| 0 <= k < 6 implies s.subrange(dend + 1, dend + 7)[k]
            == name_key()[k] by {}
    }
    assert(json_ws_end(s, dend + 7) == dend + 7);
    assert(s[dend + 7] == 58);
    assert(json_ws_end(s, dend + 8) == dend + 8);
    assert(s[dend + 8] == 34);
    assert(s.subrange(dend + 9, dend + 9 + elen + 1) =~= e + seq![34u8]) by {
        assert forall|k: int| 0 <= k < elen + 1 implies s.subrange(dend + 9, dend + 9 + elen + 1)[k]
            == (e + seq![34u8])[k] by {}
    }
    lemma_unescape_escape(s, dend + 9, name);
    let end = dend + 9 + elen + 1;
    assert(json_ws_end(s, end) == end);
    assert(s[end] == 125);
    assert(json_ws_end(s, end + 1) == end + 1);
    assert(end + 1 == s.len());
}

proof fn lemma_dec_digits_shape_local(n: nat)
    ensures
        !is_json_ws(dec_digits(n)[0]),
        dec_digits(n).len() >= 1,
{
    crate::encodings::text::lemma_dec_digits_shape(n);
    assert(crate::encodings::text::is_digit(dec_digits(n)[0]));
}

} // verus!
