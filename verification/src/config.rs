use vstd::prelude::*;

verus! {

use crate::index::NameIndex;
use vstd::string::StrSliceExecFns;

/// Environment variable that carries the application configuration document.
pub const DEFAULT_ENV_VAR: &'static str = "MAKE87_CONFIG";

/// The weakly-typed configuration values a declaration may carry. Numbers are
/// held as signed integers; the transport settings this layer reads are all
/// integral.
#[derive(Debug)]
pub enum ConfigValue {
    Null,
    Bool(bool),
    Int(i64),
    Str(String),
    List(Vec<ConfigValue>),
    Object(Vec<(String, ConfigValue)>),
}

/// Looks a field up inside an object value.
pub fn object_get<'a>(entries: &'a Vec<(String, ConfigValue)>, key: &str) -> (r: Option<
    &'a ConfigValue,
>)
    ensures
        match r {
            Some(v) => crate::index::find_entry(entries@, key@) == Some(*v),
            None => crate::index::find_entry(entries@, key@) is None,
        },
{
    let key_string: String = String::from_str(key);
    let n: usize = entries.len();
    let mut i: usize = 0;
    while i < n
        invariant
            key_string@ == key@,
            n == entries@.len(),
            0 <= i <= n,
            forall|j: int| 0 <= j < i ==> entries@[j].0@ != key@,
        decreases n - i,
    {
        if entries[i].0 == key_string {
            proof {
                crate::index::lemma_find_entry_skip(entries@, i as int, key@);
                assert(entries@.skip(i as int)[0] == entries@[i as int]);
            }
            return Some(&entries[i].1);
        }
        i = i + 1;
    }
    proof {
        crate::index::lemma_find_entry_none(entries@, key@);
    }
    None
}

/// Looks a key up in the flat application-settings map.
pub fn get_config_value(config: &NameIndex<String>, key: &str) -> (r: Option<String>)
    ensures
        r == config.spec_get(key@),
{
    match config.get(key) {
        Some(v) => Some(v.clone()),
        None => None,
    }
}

// ---------------------------------------------------------------------------
// Secret references. A configuration string of the shape
// `{{ secret.NAME }}` (whitespace optional) names a secret to be loaded from
// the secret store; this layer only recognizes the reference, the caller
// performs the loading.
// ---------------------------------------------------------------------------

pub open spec fn is_space(c: char) -> bool {
    c == ' ' || c == '\t' || c == '\n' || c == '\r' || (c as u32) == 11 || (c as u32) == 12
}

pub open spec fn is_word_char(c: char) -> bool {
    (97 <= (c as u32) <= 122) || (65 <= (c as u32) <= 90) || (48 <= (c as u32) <= 57) || c == '_'
}

/// First index at or after `i` holding a non-whitespace character.
pub open spec fn skip_ws(s: Seq<char>, i: int) -> int
    decreases s.len() - i,
        when 0 <= i <= s.len()
{
    if i < s.len() && is_space(s[i]) {
        skip_ws(s, i + 1)
    } else {
        i
    }
}

/// End of the identifier run that starts at `i`.
pub open spec fn word_end(s: Seq<char>, i: int) -> int
    decreases s.len() - i,
        when 0 <= i <= s.len()
{
    if i < s.len() && is_word_char(s[i]) {
        word_end(s, i + 1)
    } else {
        i
    }
}

pub open spec fn secret_marker() -> Seq<char> {
    seq!['s', 'e', 'c', 'r', 'e', 't', '.']
}

/// The secret name referenced by `s`, when the whole string is a reference:
/// optional whitespace, `{{`, optional whitespace, `secret.`, the name,
/// optional whitespace, `}}`, optional whitespace to the end.
pub open spec fn parse_secret_ref(s: Seq<char>) -> Option<Seq<char>> {
    let i0 = skip_ws(s, 0);
    if i0 + 2 <= s.len() && s[i0] == '{' && s[i0 + 1] == '{' {
        let i1 = skip_ws(s, i0 + 2);
        if i1 + 7 <= s.len() && s.subrange(i1, i1 + 7) == secret_marker() {
            let we = word_end(s, i1 + 7);
            if we > i1 + 7 {
                let i2 = skip_ws(s, we);
                if i2 + 2 <= s.len() && s[i2] == '}' && s[i2 + 1] == '}' && skip_ws(s, i2 + 2)
                    == s.len() {
                    Some(s.subrange(i1 + 7, we))
                } else {
                    None
                }
            } else {
                None
            }
        } else {
            None
        }
    } else {
        None
    }
}

fn skip_ws_exec(s: &str, len: usize, i: usize) -> (r: usize)
    requires
        len == s@.len(),
        i <= len,
    ensures
        r == skip_ws(s@, i as int),
        i <= r <= len,
    decreases len - i,
{
    if i < len {
        let c = s.get_char(i);
        if c == ' ' || c == '\t' || c == '\n' || c == '\r' || (c as u32) == 11 || (c as u32)
            == 12 {
            return skip_ws_exec(s, len, i + 1);
        }
    }
    i
}

fn word_end_exec(s: &str, len: usize, i: usize) -> (r: usize)
    requires
        len == s@.len(),
        i <= len,
    ensures
        r == word_end(s@, i as int),
        i <= r <= len,
    decreases len - i,
{
    if i < len {
        let c = s.get_char(i);
        let u = c as u32;
        if (97 <= u && u <= 122) || (65 <= u && u <= 90) || (48 <= u && u <= 57) || c == '_' {
            return word_end_exec(s, len, i + 1);
        }
    }
    i
}

/// Recognizes a secret reference and returns the secret's name.
pub fn secret_ref_name(s: &str) -> (r: Option<String>)
    ensures
        match r {
            Some(name) => parse_secret_ref(s@) == Some(name@),
            None => parse_secret_ref(s@) is None,
        },
{
    let len: usize = s.unicode_len();
    let i0 = skip_ws_exec(s, len, 0);
    if !(len - i0 >= 2 && s.get_char(i0) == '{' && s.get_char(i0 + 1) == '{') {
        return None;
    }
    let i1 = skip_ws_exec(s, len, i0 + 2);
    if !(len - i1 >= 7) {
        return None;
    }
    proof {
        reveal_strlit("secret.");
    }
    if !(s.get_char(i1) == 's' && s.get_char(i1 + 1) == 'e' && s.get_char(i1 + 2) == 'c'
        && s.get_char(i1 + 3) == 'r' && s.get_char(i1 + 4) == 'e' && s.get_char(i1 + 5) == 't'
        && s.get_char(i1 + 6) == '.') {
        proof {
            let v = s@;
            if v.subrange(i1 as int, i1 as int + 7) == secret_marker() {
                assert(v[i1 as int] == secret_marker()[0]);
                assert(v[i1 as int + 1] == secret_marker()[1]);
                assert(v[i1 as int + 2] == secret_marker()[2]);
                assert(v[i1 as int + 3] == secret_marker()[3]);
                assert(v[i1 as int + 4] == secret_marker()[4]);
                assert(v[i1 as int + 5] == secret_marker()[5]);
                assert(v[i1 as int + 6] == secret_marker()[6]);
            }
        }
        return None;
    }
    proof {
        assert(s@.subrange(i1 as int, i1 as int + 7) =~= secret_marker());
    }
    let we = word_end_exec(s, len, i1 + 7);
    if !(we > i1 + 7) {
        return None;
    }
    let i2 = skip_ws_exec(s, len, we);
    if !(len - i2 >= 2 && s.get_char(i2) == '}' && s.get_char(i2 + 1) == '}') {
        return None;
    }
    if skip_ws_exec(s, len, i2 + 2) != len {
        return None;
    }
    let name = s.substring_char(i1 + 7, we);
    Some(String::from_str(name))
}

} // verus!
