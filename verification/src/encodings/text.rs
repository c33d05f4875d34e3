use vstd::prelude::*;

verus! {

// ---------------------------------------------------------------------------
// Decimal numerals
// ---------------------------------------------------------------------------

pub open spec fn is_digit(b: u8) -> bool {
    48 <= b <= 57
}

/// Decimal digits of `n`, most significant first, as ASCII bytes.
pub open spec fn dec_digits(n: nat) -> Seq<u8>
    decreases n,
{
    if n < 10 {
        seq![(48 + n) as u8]
    } else {
        dec_digits(n / 10).push((48 + n % 10) as u8)
    }
}

/// Value of the digit run `s[i..j]`, read most significant first.
pub open spec fn dec_value_range(s: Seq<u8>, i: int, j: int) -> int
    decreases j - i,
{
    if i >= j {
        0
    } else {
        dec_value_range(s, i, j - 1) * 10 + (s[j - 1] - 48)
    }
}

/// End of the digit run that starts at `i`.
pub open spec fn digits_end(s: Seq<u8>, i: int) -> int
    decreases s.len() - i,
        when 0 <= i <= s.len()
{
    if i < s.len() && is_digit(s[i]) {
        digits_end(s, i + 1)
    } else {
        i
    }
}

/// A digit run is canonical when it has no superfluous leading zero.
pub open spec fn canonical_digits(s: Seq<u8>, i: int, j: int) -> bool {
    j > i && (s[i] != 48 || j == i + 1)
}

pub proof fn lemma_dec_digits_shape(n: nat)
    ensures
        dec_digits(n).len() >= 1,
        forall|k: int| 0 <= k < dec_digits(n).len() ==> is_digit(#[trigger] dec_digits(n)[k]),
        n > 0 ==> dec_digits(n)[0] != 48,
        n < 10 ==> dec_digits(n).len() == 1,
    decreases n,
{
    if n >= 10 {
        lemma_dec_digits_shape(n / 10);
        assert(dec_digits(n)[0] == dec_digits(n / 10)[0]);
    }
}

proof fn lemma_dec_value_range_nonneg(s: Seq<u8>, i: int, j: int)
    requires
        forall|k: int| i <= k < j ==> is_digit(#[trigger] s[k]),
    ensures
        dec_value_range(s, i, j) >= 0,
    decreases j - i,
{
    if i < j {
        lemma_dec_value_range_nonneg(s, i, j - 1);
    }
}

/// The digit run written for `n` reads back as `n`: the run sits in `s` at
/// `[i..j]`, and its value over `dec_value_range` is `n` again.
pub proof fn lemma_dec_digits_value(s: Seq<u8>, i: int, n: nat)
    requires
        0 <= i,
        i + dec_digits(n).len() <= s.len(),
        s.subrange(i, i + dec_digits(n).len() as int) == dec_digits(n),
    ensures
        dec_value_range(s, i, i + dec_digits(n).len() as int) == n,
    decreases n,
{
    let len = dec_digits(n).len() as int;
    if n < 10 {
        assert(s[i] == dec_digits(n)[0]);
        assert(dec_value_range(s, i, i) == 0);
    } else {
        let hi = dec_digits(n / 10);
        assert(dec_digits(n) == hi.push((48 + n % 10) as u8));
        assert(s.subrange(i, i + hi.len() as int) =~= hi) by {
            assert forall|k: int| 0 <= k < hi.len() implies s.subrange(i, i + hi.len() as int)[k]
                == hi[k] by {
                assert(s[i + k] == dec_digits(n)[k]);
                assert(dec_digits(n)[k] == hi[k]);
            }
        }
        lemma_dec_digits_value(s, i, n / 10);
        assert(s[i + len - 1] == dec_digits(n)[len - 1]);
        assert(dec_digits(n)[len - 1] == (48 + n % 10) as u8);
    }
}

/// The digit run written for `n` ends exactly where the surrounding text
/// resumes with a non-digit byte (or at the end of the text).
pub proof fn lemma_dec_digits_end(s: Seq<u8>, i: int, n: nat)
    requires
        0 <= i,
        i + dec_digits(n).len() <= s.len(),
        s.subrange(i, i + dec_digits(n).len() as int) == dec_digits(n),
        i + dec_digits(n).len() < s.len() ==> !is_digit(s[i + dec_digits(n).len()]),
    ensures
        digits_end(s, i) == i + dec_digits(n).len(),
        canonical_digits(s, i, i + dec_digits(n).len() as int),
{
    let len = dec_digits(n).len() as int;
    lemma_dec_digits_shape(n);
    assert forall|k: int| i <= k < i + len implies is_digit(s[k]) by {
        assert(s[k] == dec_digits(n)[k - i]);
    }
    lemma_digits_end_run(s, i, i + len);
    assert(s[i] == dec_digits(n)[0]);
    if n >= 10 {
        assert(dec_digits(n)[0] == dec_digits(n / 10)[0]);
    }
}

proof fn lemma_digits_end_run(s: Seq<u8>, i: int, j: int)
    requires
        0 <= i <= j <= s.len(),
        forall|k: int| i <= k < j ==> is_digit(#[trigger] s[k]),
        j < s.len() ==> !is_digit(s[j]),
    ensures
        digits_end(s, i) == j,
    decreases j - i,
{
    if i < j {
        lemma_digits_end_run(s, i + 1, j);
    }
}

/// Scans the digit run starting at `from` and reads its value, rejecting an
/// empty run, a superfluous leading zero, and a value beyond `u32`.
pub fn parse_u32(s: &[u8], from: usize) -> (r: Option<(u32, usize)>)
    requires
        from <= s@.len(),
    ensures
        match r {
            Some((v, end)) => {
                &&& from < end <= s@.len()
                &&& end == digits_end(s@, from as int)
                &&& canonical_digits(s@, from as int, end as int)
                &&& v == dec_value_range(s@, from as int, end as int)
            },
            None => {
                ||| digits_end(s@, from as int) == from
                ||| !canonical_digits(s@, from as int, digits_end(s@, from as int))
                ||| dec_value_range(s@, from as int, digits_end(s@, from as int)) > u32::MAX
            },
        },
    decreases s@.len() - from,
{
    let ghost gs = s@;
    let n: usize = s.len();
    let mut i: usize = from;
    let mut acc: u64 = 0;
    let mut overflow: bool = false;
    while digit_at(s, i)
        invariant
            gs == s@,
            n == s@.len(),
            from <= i <= n,
            digits_end(gs, from as int) == digits_end(gs, i as int),
            forall|k: int| from <= k < i ==> is_digit(#[trigger] gs[k]),
            !overflow ==> acc == dec_value_range(gs, from as int, i as int) && acc <= u32::MAX,
            overflow ==> dec_value_range(gs, from as int, i as int) > u32::MAX,
        decreases n - i,
    {
        let b = s[i];
        proof {
            lemma_dec_value_range_nonneg(gs, from as int, i as int);
        }
        if overflow {
            proof {
                assert(dec_value_range(gs, from as int, i as int + 1) == dec_value_range(
                    gs,
                    from as int,
                    i as int,
                ) * 10 + (gs[i as int] - 48));
            }
        } else {
            let step: u64 = acc * 10 + ((b - 48) as u64);
            if step > 0xFFFF_FFFF {
                overflow = true;
            } else {
                acc = step;
            }
        }
        i = i + 1;
    }
    proof {
        assert(digits_end(gs, i as int) == i);
    }
    if i == from {
        return None;
    }
    if s[from] == 48 && i > from + 1 {
        return None;
    }
    if overflow {
        return None;
    }
    Some((acc as u32, i))
}

fn digit_at(s: &[u8], i: usize) -> (r: bool)
    ensures
        r == (i < s@.len() && is_digit(s@[i as int])),
{
    i < s.len() && 48 <= s[i] && s[i] <= 57
}

/// Appends the decimal digits of `n` to `out`.
pub fn push_decimal(n: u64, out: &mut Vec<u8>)
    ensures
        final(out)@ == old(out)@ + dec_digits(n as nat),
    decreases n,
{
    if n < 10 {
        out.push(48 + n as u8);
    } else {
        push_decimal(n / 10, out);
        out.push(48 + (n % 10) as u8);
    }
    proof {
        assert(final(out)@ =~= old(out)@ + dec_digits(n as nat));
    }
}

// ---------------------------------------------------------------------------
// Escaped strings (shared by the structured-text codecs): the writer wraps
// the payload in double quotes, escaping the quote, the backslash, the common
// control characters, and any other byte below 0x20 as a hexadecimal code.
// ---------------------------------------------------------------------------

pub open spec fn hex_digit(x: int) -> u8 {
    if x < 10 {
        (48 + x) as u8
    } else {
        (87 + x) as u8
    }
}

pub open spec fn is_hex(b: u8) -> bool {
    (48 <= b <= 57) || (97 <= b <= 102) || (65 <= b <= 70)
}

pub open spec fn hex_val(b: u8) -> int {
    if 48 <= b <= 57 {
        b - 48
    } else if 97 <= b <= 102 {
        b - 87
    } else {
        b - 55
    }
}

/// The bytes written for one payload byte.
pub open spec fn escape_byte(b: u8) -> Seq<u8> {
    if b == 34 {
        seq![92u8, 34u8]
    } else if b == 92 {
        seq![92u8, 92u8]
    } else if b == 10 {
        seq![92u8, 110u8]
    } else if b == 13 {
        seq![92u8, 114u8]
    } else if b == 9 {
        seq![92u8, 116u8]
    } else if b < 32 {
        seq![92u8, 117u8, 48u8, 48u8, hex_digit((b / 16) as int), hex_digit((b % 16) as int)]
    } else {
        seq![b]
    }
}

pub open spec fn escape_bytes(s: Seq<u8>) -> Seq<u8>
    decreases s.len(),
{
    if s.len() == 0 {
        seq![]
    } else {
        escape_byte(s[0]) + escape_bytes(s.drop_first())
    }
}

proof fn lemma_escape_snoc(s: Seq<u8>, b: u8)
    ensures
        escape_bytes(s.push(b)) == escape_bytes(s) + escape_byte(b),
    decreases s.len(),
{
    if s.len() == 0 {
        assert(s.push(b).drop_first() =~= Seq::<u8>::empty());
        assert(s.push(b)[0] == b);
        assert(escape_bytes(s.push(b)) == escape_byte(b) + escape_bytes(Seq::<u8>::empty()));
        assert(escape_bytes(Seq::<u8>::empty()) =~= Seq::<u8>::empty());
        assert(escape_bytes(s) =~= Seq::<u8>::empty());
        assert(escape_bytes(s.push(b)) =~= escape_bytes(s) + escape_byte(b));
    } else {
        assert(s.push(b).drop_first() =~= s.drop_first().push(b));
        lemma_escape_snoc(s.drop_first(), b);
        assert(s.push(b)[0] == s[0]);
        assert(escape_bytes(s.push(b)) == escape_byte(s[0]) + escape_bytes(s.drop_first().push(b)));
        assert(escape_bytes(s) == escape_byte(s[0]) + escape_bytes(s.drop_first()));
        assert(escape_bytes(s.push(b)) =~= escape_bytes(s) + escape_byte(b));
    }
}

/// Appends the escaped form of `data` to `out` (quotes not included).
pub fn escape_into(data: &[u8], out: &mut Vec<u8>)
    ensures
        final(out)@ == old(out)@ + escape_bytes(data@),
{
    let ghost base = out@;
    let n: usize = data.len();
    let mut i: usize = 0;
    proof {
        assert(data@.take(0) =~= seq![]);
        assert(out@ =~= base + escape_bytes(data@.take(0)));
    }
    while i < n
        invariant
            n == data@.len(),
            0 <= i <= n,
            out@ == base + escape_bytes(data@.take(i as int)),
        decreases n - i,
    {
        let b = data[i];
        if b == 34 {
            out.push(92);
            out.push(34);
        } else if b == 92 {
            out.push(92);
            out.push(92);
        } else if b == 10 {
            out.push(92);
            out.push(110);
        } else if b == 13 {
            out.push(92);
            out.push(114);
        } else if b == 9 {
            out.push(92);
            out.push(116);
        } else if b < 32 {
            out.push(92);
            out.push(117);
            out.push(48);
            out.push(48);
            let hi = b / 16;
            let lo = b % 16;
            out.push(if hi < 10 {
                48 + hi
            } else {
                87 + hi
            });
            out.push(if lo < 10 {
                48 + lo
            } else {
                87 + lo
            });
        } else {
            out.push(b);
        }
        proof {
            lemma_escape_snoc(data@.take(i as int), data@[i as int]);
            assert(data@.take(i as int).push(data@[i as int]) =~= data@.take(i as int + 1));
            assert(out@ =~= base + escape_bytes(data@.take(i as int + 1)));
        }
        i = i + 1;
    }
    proof {
        assert(data@.take(n as int) =~= data@);
    }
}

/// Reads an escaped string starting at `i` up to its closing quote; yields
/// the unescaped payload and the index just past the quote.
pub open spec fn unescape_from(s: Seq<u8>, i: int) -> Option<(Seq<u8>, int)>
    decreases s.len() - i,
        when 0 <= i <= s.len()
{
    if i >= s.len() {
        None
    } else if s[i] == 34 {
        Some((seq![], i + 1))
    } else if s[i] == 92 {
        if i + 1 >= s.len() {
            None
        } else {
            let e = s[i + 1];
            if e == 34 || e == 92 || e == 110 || e == 114 || e == 116 {
                let b: u8 = if e == 34 {
                    34
                } else if e == 92 {
                    92
                } else if e == 110 {
                    10
                } else if e == 114 {
                    13
                } else {
                    9
                };
                match unescape_from(s, i + 2) {
                    Some((c, end)) => Some((seq![b] + c, end)),
                    None => None,
                }
            } else if e == 117 {
                if i + 6 <= s.len() && s[i + 2] == 48 && s[i + 3] == 48 && is_hex(s[i + 4])
                    && is_hex(s[i + 5]) {
                    match unescape_from(s, i + 6) {
                        Some((c, end)) => Some(
                            (seq![(hex_val(s[i + 4]) * 16 + hex_val(s[i + 5])) as u8] + c, end),
                        ),
                        None => None,
                    }
                } else {
                    None
                }
            } else {
                None
            }
        }
    } else {
        match unescape_from(s, i + 1) {
            Some((c, end)) => Some((seq![s[i]] + c, end)),
            None => None,
        }
    }
}

/// Executable counterpart of [`unescape_from`].
pub fn unescape_exec(s: &[u8], from: usize) -> (r: Option<(Vec<u8>, usize)>)
    requires
        from <= s@.len(),
    ensures
        match (r, unescape_from(s@, from as int)) {
            (Some((content, end)), Some((c, e))) => content@ == c && end == e && from < end
                <= s@.len(),
            (None, None) => true,
            _ => false,
        },
    decreases s@.len() - from,
{
    let n: usize = s.len();
    if from >= n {
        return None;
    }
    let b = s[from];
    if b == 34 {
        return Some((Vec::new(), from + 1));
    }
    if b == 92 {
        if from + 1 >= n {
            return None;
        }
        let e = s[from + 1];
        if e == 34 || e == 92 || e == 110 || e == 114 || e == 116 {
            let decoded: u8 = if e == 34 {
                34
            } else if e == 92 {
                92
            } else if e == 110 {
                10
            } else if e == 114 {
                13
            } else {
                9
            };
            match unescape_exec(s, from + 2) {
                Some((mut content, end)) => {
                    content.insert(0, decoded);
                    proof {
                        let spec_tail = unescape_from(s@, from as int + 2).unwrap().0;
                        assert(content@ =~= seq![decoded] + spec_tail);
                    }
                    Some((content, end))
                },
                None => None,
            }
        } else if e == 117 {
            if n - from >= 6 && s[from + 2] == 48 && s[from + 3] == 48 && is_hex_exec(s[from + 4])
                && is_hex_exec(s[from + 5]) {
                let hi = hex_val_exec(s[from + 4]);
                let lo = hex_val_exec(s[from + 5]);
                let decoded: u8 = hi * 16 + lo;
                match unescape_exec(s, from + 6) {
                    Some((mut content, end)) => {
                        content.insert(0, decoded);
                        proof {
                            let spec_tail = unescape_from(s@, from as int + 6).unwrap().0;
                            assert(content@ =~= seq![decoded] + spec_tail);
                        }
                        Some((content, end))
                    },
                    None => None,
                }
            } else {
                None
            }
        } else {
            None
        }
    } else {
        match unescape_exec(s, from + 1) {
            Some((mut content, end)) => {
                content.insert(0, b);
                proof {
                    let spec_tail = unescape_from(s@, from as int + 1).unwrap().0;
                    assert(content@ =~= seq![b] + spec_tail);
                }
                Some((content, end))
            },
            None => None,
        }
    }
}

fn is_hex_exec(b: u8) -> (r: bool)
    ensures
        r == is_hex(b),
{
    (48 <= b && b <= 57) || (97 <= b && b <= 102) || (65 <= b && b <= 70)
}

fn hex_val_exec(b: u8) -> (r: u8)
    requires
        is_hex(b),
    ensures
        r == hex_val(b),
        r < 16,
{
    if 48 <= b && b <= 57 {
        b - 48
    } else if 97 <= b && b <= 102 {
        b - 87
    } else {
        b - 55
    }
}

/// Unescaping inverts escaping: when the text at `i` carries the escaped
/// payload followed by the closing quote, reading it back yields the payload
/// and stops just past the quote.
pub proof fn lemma_unescape_escape(s: Seq<u8>, i: int, content: Seq<u8>)
    requires
        0 <= i,
        i + escape_bytes(content).len() + 1 <= s.len(),
        s.subrange(i, i + escape_bytes(content).len() + 1) == escape_bytes(content) + seq![34u8],
    ensures
        unescape_from(s, i) == Some((content, i + escape_bytes(content).len() + 1)),
    decreases content.len(),
{
    let e = escape_bytes(content);
    if content.len() == 0 {
        assert(s[i] == (e + seq![34u8])[0]);
    } else {
        let b = content[0];
        let eb = escape_byte(b);
        let rest = content.drop_first();
        let erest = escape_bytes(rest);
        assert(e == eb + erest);
        assert forall|k: int| 0 <= k < eb.len() implies s[i + k] == eb[k] by {
            assert(s[i + k] == (e + seq![34u8])[k]);
            assert((eb + erest)[k] == eb[k]);
        }
        assert(s[i] == eb[0]) by {
            assert(s[i + 0] == eb[0]);
        }
        let j = i + eb.len();
        assert(s.subrange(j, j + erest.len() + 1) =~= erest + seq![34u8]) by {
            assert forall|k: int| 0 <= k < erest.len() + 1 implies s.subrange(
                j,
                j + erest.len() + 1,
            )[k] == (erest + seq![34u8])[k] by {
                assert(s[j + k] == (e + seq![34u8])[eb.len() + k]);
            }
        }
        lemma_unescape_escape(s, j, rest);
        if b == 34 || b == 92 || b == 10 || b == 13 || b == 9 {
            assert(s[i] == 92);
            assert(unescape_from(s, i) == Some((seq![b] + rest, j + erest.len() + 1)));
            assert(seq![b] + rest =~= content);
        } else if b < 32 {
            assert(s[i] == 92);
            assert(s[i + 1] == 117);
            assert(s[i + 2] == 48);
            assert(s[i + 3] == 48);
            assert(s[i + 4] == hex_digit((b / 16) as int));
            assert(s[i + 5] == hex_digit((b % 16) as int));
            assert(is_hex(hex_digit((b / 16) as int)));
            assert(is_hex(hex_digit((b % 16) as int)));
            assert(hex_val(hex_digit((b / 16) as int)) == b / 16);
            assert(hex_val(hex_digit((b % 16) as int)) == b % 16);
            assert((hex_val(s[i + 4]) * 16 + hex_val(s[i + 5])) as u8 == b);
            assert(unescape_from(s, i) == Some((seq![b] + rest, j + erest.len() + 1)));
            assert(seq![b] + rest =~= content);
        } else {
            assert(s[i] == b);
            assert(b != 34 && b != 92);
            assert(unescape_from(s, i) == Some((seq![b] + rest, j + erest.len() + 1)));
            assert(seq![b] + rest =~= content);
        }
    }
}

} // verus!
