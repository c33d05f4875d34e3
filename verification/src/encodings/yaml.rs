use vstd::prelude::*;

verus! {

use crate::encodings::text::{
    canonical_digits,
    dec_digits,
    dec_value_range,
    digits_end,
    escape_bytes,
    escape_into,
    lemma_dec_digits_end,
    lemma_dec_digits_value,
    lemma_unescape_escape,
    parse_u32,
    push_decimal,
    unescape_exec,
    unescape_from,
};
use crate::encodings::{bytes_to_string, EncodeError, Encoder};
use crate::message::Record;
use vstd::slice::{slice_subrange, slice_to_vec};
use vstd::string::StrSliceExecFns;
use vstd::utf8::{decode_utf8, encode_utf8, valid_utf8};

/// `id: `
pub open spec fn yaml_prefix() -> Seq<u8> {
    seq![105u8, 100u8, 58u8, 32u8]
}

/// newline followed by `name: `
pub open spec fn yaml_mid() -> Seq<u8> {
    seq![10u8, 110u8, 97u8, 109u8, 101u8, 58u8, 32u8]
}

/// A byte a plain (unquoted) scalar may carry: printable, no whitespace, and
/// none of the characters that open another YAML construct or quote form.
pub open spec fn yaml_plain_byte(b: u8) -> bool {
    &&& b > 32
    &&& b != 33  // !
    &&& b != 34  // double quote
    &&& b != 35  // #
    &&& b != 37  // %
    &&& b != 38  // &
    &&& b != 39  // single quote
    &&& b != 42  // *
    &&& b != 44  // comma
    &&& b != 45  // leading dash opens a list entry; kept out everywhere
    &&& b != 58  // colon
    &&& b != 62  // >
    &&& b != 63  // ?
    &&& b != 64  // @
    &&& b != 91  // [
    &&& b != 92  // backslash
    &&& b != 93  // ]
    &&& b != 96  // backtick
    &&& b != 123  // {
    &&& b != 124  // |
    &&& b != 125  // }
}

/// Names written as a plain scalar: nonempty and made of plain bytes only;
/// anything else is written double-quoted.
pub open spec fn yaml_plain_safe(name: Seq<u8>) -> bool {
    name.len() > 0 && forall|i: int| 0 <= i < name.len() ==> yaml_plain_byte(#[trigger] name[i])
}

/// The YAML document written for a record whose name has the byte form
/// `name`: two lines, `id: <digits>` and `name: <scalar>`, each ended by a
/// newline. A name safe for the plain form is written as-is; any other name
/// becomes a double-quoted scalar with escapes.
pub open spec fn yaml_encoding(id: u32, name: Seq<u8>) -> Seq<u8> {
    if yaml_plain_safe(name) {
        yaml_prefix() + dec_digits(id as nat) + yaml_mid() + name + seq![10u8]
    } else {
        yaml_prefix() + dec_digits(id as nat) + yaml_mid() + seq![34u8] + escape_bytes(name)
            + seq![34u8, 10u8]
    }
}

/// The records that the YAML grammar accepts: the two-line frame above with
/// a canonical digit run that fits `u32`, and the name either double-quoted
/// with escapes or a plain scalar running to the final newline.
pub open spec fn yaml_record_parse(s: Seq<u8>) -> Option<(u32, Seq<u8>)> {
    if s.len() < 4 || s.subrange(0, 4) != yaml_prefix() {
        None
    } else {
        let dend = digits_end(s, 4);
        if dend == 4 || !canonical_digits(s, 4, dend) || dec_value_range(s, 4, dend) > u32::MAX {
            None
        } else if dend + 7 > s.len() || s.subrange(dend, dend + 7) != yaml_mid() {
            None
        } else if dend + 7 < s.len() && s[dend + 7] == 34 {
            match unescape_from(s, dend + 8) {
                None => None,
                Some((content, end)) => {
                    if end + 1 == s.len() && s[end] == 10 {
                        Some((dec_value_range(s, 4, dend) as u32, content))
                    } else {
                        None
                    }
                },
            }
        } else if dend + 8 <= s.len() && s.last() == 10 && (forall|i: int|
            dend + 7 <= i < s.len() - 1 ==> s[i] != 10) {
            Some((dec_value_range(s, 4, dend) as u32, s.subrange(dend + 7, s.len() - 1)))
        } else {
            None
        }
    }
}

/// Structured-text codec writing the record as a small YAML document.
pub struct YamlEncoder;

fn byte_is_plain(b: u8) -> (r: bool)
    ensures
        r == yaml_plain_byte(b),
{
    b > 32 && b != 33 && b != 34 && b != 35 && b != 37 && b != 38 && b != 39 && b != 42 && b != 44
        && b != 45 && b != 58 && b != 62 && b != 63 && b != 64 && b != 91 && b != 92 && b != 93
        && b != 96 && b != 123 && b != 124 && b != 125
}

fn plain_safe(name: &[u8]) -> (r: bool)
    ensures
        r == yaml_plain_safe(name@),
{
    let n: usize = name.len();
    if n == 0 {
        return false;
    }
    let mut i: usize = 0;
    while i < n
        invariant
            n == name@.len(),
            0 <= i <= n,
            forall|j: int| 0 <= j < i ==> yaml_plain_byte(#[trigger] name@[j]),
        decreases n - i,
    {
        if !byte_is_plain(name[i]) {
            return false;
        }
        i = i + 1;
    }
    true
}

impl YamlEncoder {
    pub fn encode(&self, value: &Record) -> (r: Result<Vec<u8>, EncodeError>)
        ensures
            match r {
                Ok(out) => out@ == yaml_encoding(value.id, encode_utf8(value.name@)),
                Err(_) => false,
            },
    {
        let mut out: Vec<u8> = Vec::new();
        out.push(105);
        out.push(100);
        out.push(58);
        out.push(32);
        proof {
            assert(out@ =~= yaml_prefix());
        }
        push_decimal(value.id as u64, &mut out);
        let ghost after_digits = out@;
        out.push(10);
        out.push(110);
        out.push(97);
        out.push(109);
        out.push(101);
        out.push(58);
        out.push(32);
        proof {
            assert(out@ =~= after_digits + yaml_mid());
        }
        let ghost after_mid = out@;
        let name_bytes = value.name.as_str().as_bytes();
        if plain_safe(name_bytes) {
            let n: usize = name_bytes.len();
            let mut i: usize = 0;
            while i < n
                invariant
                    n == name_bytes@.len(),
                    0 <= i <= n,
                    out@ == after_mid + name_bytes@.take(i as int),
                decreases n - i,
            {
                out.push(name_bytes[i]);
                proof {
                    assert(after_mid + name_bytes@.take(i as int + 1) =~= (after_mid
                        + name_bytes@.take(i as int)).push(name_bytes@[i as int]));
                }
                i = i + 1;
            }
            proof {
                assert(name_bytes@.take(n as int) =~= name_bytes@);
            }
            out.push(10);
            proof {
                assert(out@ =~= yaml_encoding(value.id, encode_utf8(value.name@)));
            }
        } else {
            out.push(34);
            escape_into(name_bytes, &mut out);
            out.push(34);
            out.push(10);
            proof {
                assert(out@ =~= yaml_encoding(value.id, encode_utf8(value.name@)));
            }
        }
        Ok(out)
    }

    pub fn decode(&self, data: &[u8]) -> (r: Result<Record, EncodeError>)
        ensures
            match r {
                Ok(rec) => yaml_record_parse(data@) == Some((rec.id, encode_utf8(rec.name@)))
                    && valid_utf8(encode_utf8(rec.name@)),
                Err(_) => match yaml_record_parse(data@) {
                    Some((id, name)) => !valid_utf8(name),
                    None => true,
                },
            },
    {
        let n: usize = data.len();
        if n < 4 || data[0] != 105 || data[1] != 100 || data[2] != 58 || data[3] != 32 {
            proof {
                if data@.len() >= 4 {
                    assert(data@.subrange(0, 4) != yaml_prefix()) by {
                        if data@.subrange(0, 4) == yaml_prefix() {
                            assert(data@[0] == yaml_prefix()[0]);
                            assert(data@[1] == yaml_prefix()[1]);
                            assert(data@[2] == yaml_prefix()[2]);
                            assert(data@[3] == yaml_prefix()[3]);
                        }
                    }
                }
            }
            return Err(EncodeError(String::from_str("yaml: missing id line")));
        }
        proof {
            assert(data@.subrange(0, 4) =~= yaml_prefix());
        }
        let parsed = parse_u32(data, 4);
        let (id, dend) = match parsed {
            Some(p) => p,
            None => {
                return Err(EncodeError(String::from_str("yaml: malformed id")));
            },
        };
        if n - dend < 7 || data[dend] != 10 || data[dend + 1] != 110 || data[dend + 2] != 97
            || data[dend + 3] != 109 || data[dend + 4] != 101 || data[dend + 5] != 58 || data[dend
            + 6] != 32 {
            proof {
                let d = dend as int;
                if data@.len() >= d + 7 {
                    assert(data@.subrange(d, d + 7) != yaml_mid()) by {
                        if data@.subrange(d, d + 7) == yaml_mid() {
                            assert(data@[d] == yaml_mid()[0]);
                            assert(data@[d + 1] == yaml_mid()[1]);
                            assert(data@[d + 2] == yaml_mid()[2]);
                            assert(data@[d + 3] == yaml_mid()[3]);
                            assert(data@[d + 4] == yaml_mid()[4]);
                            assert(data@[d + 5] == yaml_mid()[5]);
                            assert(data@[d + 6] == yaml_mid()[6]);
                        }
                    }
                }
            }
            return Err(EncodeError(String::from_str("yaml: missing name line")));
        }
        proof {
            assert(data@.subrange(dend as int, dend as int + 7) =~= yaml_mid());
        }
        if n - dend > 7 && data[dend + 7] == 34 {
            // Double-quoted scalar with escapes.
            let unescaped = unescape_exec(data, dend + 8);
            let (content, end) = match unescaped {
                Some(u) => u,
                None => {
                    return Err(EncodeError(String::from_str("yaml: unterminated name")));
                },
            };
            if end >= n || n - end != 1 || data[end] != 10 {
                return Err(EncodeError(String::from_str("yaml: trailing bytes")));
            }
            let ghost parsed_name = yaml_record_parse(data@).unwrap().1;
            match bytes_to_string(content) {
                Some(name) => {
                    proof {
                        vstd::utf8::decode_utf8_encode_utf8(parsed_name);
                    }
                    Ok(Record { id, name })
                },
                None => Err(EncodeError(String::from_str("yaml: name is not valid utf-8"))),
            }
        } else {
            // Plain scalar: everything up to the final newline.
            if n - dend < 8 || data[n - 1] != 10 {
                return Err(EncodeError(String::from_str("yaml: missing final newline")));
            }
            let mut i: usize = dend + 7;
            while i < n - 1
                invariant
                    n == data@.len(),
                    dend + 7 <= i <= n - 1,
                    n >= dend + 8,
                    4 < dend <= n,
                    data@.subrange(0, 4) == yaml_prefix(),
                    dend == digits_end(data@, 4),
                    canonical_digits(data@, 4, dend as int),
                    dec_value_range(data@, 4, dend as int) == id,
                    data@.subrange(dend as int, dend as int + 7) == yaml_mid(),
                    data@[n as int - 1] == 10,
                    data@[dend as int + 7] != 34,
                    forall|j: int| dend + 7 <= j < i ==> data@[j] != 10,
                decreases n - i,
            {
                if data[i] == 10 {
                    proof {
                        assert(!(forall|j: int|
                            dend + 7 <= j < data@.len() - 1 ==> data@[j] != 10)) by {
                            assert(data@[i as int] == 10);
                        }
                        assert(yaml_record_parse(data@) is None);
                    }
                    return Err(EncodeError(String::from_str("yaml: name spans lines")));
                }
                i = i + 1;
            }
            let content = slice_to_vec(slice_subrange(data, dend + 7, n - 1));
            let ghost parsed_name = yaml_record_parse(data@).unwrap().1;
            match bytes_to_string(content) {
                Some(name) => {
                    proof {
                        vstd::utf8::decode_utf8_encode_utf8(parsed_name);
                    }
                    Ok(Record { id, name })
                },
                None => Err(EncodeError(String::from_str("yaml: name is not valid utf-8"))),
            }
        }
    }
}

impl Encoder<Record> for YamlEncoder {
    fn encode(&self, value: &Record) -> Result<Vec<u8>, EncodeError> {
        YamlEncoder::encode(self, value)
    }

    fn decode(&self, data: &[u8]) -> Result<Record, EncodeError> {
        YamlEncoder::decode(self, data)
    }
}

/// Law: the YAML grammar accepts every document the YAML writer produces —
/// plain or quoted — and reads back exactly the record that was written.
pub proof fn lemma_yaml_round_trip(id: u32, name: Seq<u8>)
    ensures
        yaml_record_parse(yaml_encoding(id, name)) == Some((id, name)),
{
    let s = yaml_encoding(id, name);
    let d = dec_digits(id as nat);
    let dlen = d.len() as int;
    if yaml_plain_safe(name) {
        let nlen = name.len() as int;
        assert(s.len() == 4 + dlen + 7 + nlen + 1);
        assert forall|k: int| 0 <= k < 4 implies s[k] == yaml_prefix()[k] by {}
        assert(s.subrange(0, 4) =~= yaml_prefix());
        assert forall|k: int| 0 <= k < dlen implies s[4 + k] == d[k] by {}
        assert(s.subrange(4, 4 + dlen) =~= d);
        assert(s[4 + dlen] == yaml_mid()[0]);
        lemma_dec_digits_end(s, 4, id as nat);
        lemma_dec_digits_value(s, 4, id as nat);
        let dend = digits_end(s, 4);
        assert(dend == 4 + dlen);
        assert forall|k: int| 0 <= k < 7 implies s[dend + k] == yaml_mid()[k] by {}
        assert(s.subrange(dend, dend + 7) =~= yaml_mid());
        assert(s[dend + 7] == name[0]);
        assert(yaml_plain_byte(name[0]));
        assert(s[dend + 7] != 34);
        assert(s.last() == 10);
        assert forall|i: int| dend + 7 <= i < s.len() - 1 implies s[i] != 10 by {
            assert(s[i] == name[i - dend - 7]);
            assert(yaml_plain_byte(name[i - dend - 7]));
        }
        assert(s.subrange(dend + 7, s.len() - 1) =~= name);
    } else {
        let e = escape_bytes(name);
        let elen = e.len() as int;
        assert(s.len() == 4 + dlen + 7 + 1 + elen + 2);
        assert forall|k: int| 0 <= k < 4 implies s[k] == yaml_prefix()[k] by {}
        assert(s.subrange(0, 4) =~= yaml_prefix());
        assert forall|k: int| 0 <= k < dlen implies s[4 + k] == d[k] by {}
        assert(s.subrange(4, 4 + dlen) =~= d);
        assert(s[4 + dlen] == yaml_mid()[0]);
        lemma_dec_digits_end(s, 4, id as nat);
        lemma_dec_digits_value(s, 4, id as nat);
        let dend = digits_end(s, 4);
        assert(dend == 4 + dlen);
        assert forall|k: int| 0 <= k < 7 implies s[dend + k] == yaml_mid()[k] by {}
        assert(s.subrange(dend, dend + 7) =~= yaml_mid());
        assert(s[dend + 7] == 34);
        assert(s.subrange(dend + 8, dend + 8 + elen + 1) =~= e + seq![34u8]) by {
            assert forall|k: int|
                0 <= k < elen + 1 implies s.subrange(dend + 8, dend + 8 + elen + 1)[k] == (e
                + seq![34u8])[k] by {}
        }
        lemma_unescape_escape(s, dend + 8, name);
        let end = dend + 8 + elen + 1;
        assert(s[end] == 10);
        assert(end + 1 == s.len());
    }
}

} // verus!
