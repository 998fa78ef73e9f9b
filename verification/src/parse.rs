//! A JSON parser over raw bytes.
//!
//! The grammar is standard JSON: objects, arrays, strings with the usual
//! escape sequences (including `\uXXXX` with surrogate pairs), numbers,
//! `true`, `false` and `null`, separated by optional whitespace. The
//! executable parser returns exactly what the specification-level parser
//! denotes; [`json_doc`] is the meaning of a whole body.
//!
//! Value-level recursion is bounded by a fuel argument. The fuel chosen by
//! [`json_doc`] and [`parse_json`] is larger than the number of values and
//! members any input of that length can hold, so it never cuts a parse short.

use vstd::prelude::*;

use crate::json::{Json, JsonVal, json_view, json_view_members, json_view_seq,
    lemma_json_view_members, lemma_json_view_seq};

verus! {

/// JSON insignificant whitespace.
pub open spec fn is_ws(b: u8) -> bool {
    b == 32 || b == 9 || b == 10 || b == 13
}

pub open spec fn is_digit(b: u8) -> bool {
    '0' as u8 <= b <= '9' as u8
}

/// The first index at or after `i` that does not hold whitespace.
pub open spec fn sp_ws(s: Seq<u8>, i: int) -> int
    decreases s.len() - i,
{
    if 0 <= i < s.len() && is_ws(s[i]) {
        sp_ws(s, i + 1)
    } else {
        i
    }
}


/// The value of one hex digit, if `b` is one.
pub open spec fn hex_val(b: u8) -> Option<u32> {
    if '0' as u8 <= b <= '9' as u8 {
        Some((b - '0' as u8) as u32)
    } else if 'a' as u8 <= b <= 'f' as u8 {
        Some((b - 'a' as u8 + 10) as u32)
    } else if 'A' as u8 <= b <= 'F' as u8 {
        Some((b - 'A' as u8 + 10) as u32)
    } else {
        None
    }
}

/// Four hex digits at `i`, as a code unit.
pub open spec fn sp_hex4(s: Seq<u8>, i: int) -> Option<u32> {
    if 0 <= i && i + 4 <= s.len() {
        match (hex_val(s[i]), hex_val(s[i + 1]), hex_val(s[i + 2]), hex_val(s[i + 3])) {
            (Some(a), Some(b), Some(c), Some(d)) => Some(
                (a * 0x1000 + b * 0x100 + c * 0x10 + d) as u32,
            ),
            _ => None,
        }
    } else {
        None
    }
}

/// The UTF-8 encoding of the scalar value `c` (meaningful for `c <= 0x10FFFF`).
pub open spec fn utf8_enc(c: u32) -> Seq<u8> {
    if c < 0x80 {
        seq![c as u8]
    } else if c < 0x800 {
        seq![(0xC0 + c / 0x40) as u8, (0x80 + c % 0x40) as u8]
    } else if c < 0x10000 {
        seq![(0xE0 + c / 0x1000) as u8, (0x80 + (c / 0x40) % 0x40) as u8, (0x80 + c % 0x40) as u8]
    } else {
        seq![
            (0xF0 + c / 0x40000) as u8,
            (0x80 + (c / 0x1000) % 0x40) as u8,
            (0x80 + (c / 0x40) % 0x40) as u8,
            (0x80 + c % 0x40) as u8,
        ]
    }
}

/// What one escape introducer (the byte after a backslash) stands for,
/// for the single-character escapes.
pub open spec fn simple_escape(e: u8) -> Option<u8> {
    if e == '"' as u8 {
        Some('"' as u8)
    } else if e == '\\' as u8 {
        Some('\\' as u8)
    } else if e == '/' as u8 {
        Some('/' as u8)
    } else if e == 'b' as u8 {
        Some(8u8)
    } else if e == 't' as u8 {
        Some(9u8)
    } else if e == 'n' as u8 {
        Some(10u8)
    } else if e == 'f' as u8 {
        Some(12u8)
    } else if e == 'r' as u8 {
        Some(13u8)
    } else {
        None
    }
}

/// String contents beginning at `i` (the byte after the opening quote):
/// the decoded bytes and the index just after the closing quote.
pub open spec fn sp_string(s: Seq<u8>, i: int) -> Option<(Seq<u8>, int)>
    decreases s.len() - i,
{
    if i < 0 || i >= s.len() {
        None
    } else {
        let b = s[i];
        if b == '"' as u8 {
            Some((Seq::empty(), i + 1))
        } else if b == '\\' as u8 {
            if i + 1 >= s.len() {
                None
            } else {
                let e = s[i + 1];
                if e == 'u' as u8 {
                    match sp_hex4(s, i + 2) {
                        None => None,
                        Some(c1) => if 0xD800 <= c1 < 0xDC00 {
                            // a high surrogate must be followed by an escaped low one
                            if s.len() - i >= 8 && s[i + 6] == '\\' as u8 && s[i + 7] == 'u' as u8 {
                                match sp_hex4(s, i + 8) {
                                    Some(c2) => if 0xDC00 <= c2 < 0xE000 {
                                        let cp = (0x10000 + (c1 - 0xD800) * 0x400 + (c2 - 0xDC00)) as u32;
                                        match sp_string(s, i + 12) {
                                            Some((rest, j)) => Some((utf8_enc(cp) + rest, j)),
                                            None => None,
                                        }
                                    } else {
                                        None
                                    },
                                    None => None,
                                }
                            } else {
                                None
                            }
                        } else if 0xDC00 <= c1 < 0xE000 {
                            None
                        } else {
                            match sp_string(s, i + 6) {
                                Some((rest, j)) => Some((utf8_enc(c1) + rest, j)),
                                None => None,
                            }
                        },
                    }
                } else {
                    match simple_escape(e) {
                        Some(d) => match sp_string(s, i + 2) {
                            Some((rest, j)) => Some((seq![d] + rest, j)),
                            None => None,
                        },
                        None => None,
                    }
                }
            }
        } else if b < 32 {
            None
        } else {
            match sp_string(s, i + 1) {
                Some((rest, j)) => Some((seq![b] + rest, j)),
                None => None,
            }
        }
    }
}


/// The end of the digit run beginning at `i`.
pub open spec fn sp_digits(s: Seq<u8>, i: int) -> int
    decreases s.len() - i,
{
    if 0 <= i < s.len() && is_digit(s[i]) {
        sp_digits(s, i + 1)
    } else {
        i
    }
}

pub proof fn lemma_sp_digits_bounds(s: Seq<u8>, i: int)
    requires
        0 <= i <= s.len(),
    ensures
        i <= sp_digits(s, i) <= s.len(),
    decreases s.len() - i,
{
    if i < s.len() && is_digit(s[i]) {
        lemma_sp_digits_bounds(s, i + 1);
    }
}

/// The end of the number literal beginning at `i`, if one stands there.
pub open spec fn sp_number(s: Seq<u8>, i: int) -> Option<int> {
    if i < 0 || i >= s.len() {
        None
    } else {
        let j0 = if s[i] == '-' as u8 {
            i + 1
        } else {
            i
        };
        if j0 >= s.len() || !is_digit(s[j0]) {
            None
        } else {
            let j1 = if s[j0] == '0' as u8 {
                j0 + 1
            } else {
                sp_digits(s, j0)
            };
            let j2 = if j1 < s.len() && s[j1] == '.' as u8 {
                sp_digits(s, j1 + 1)
            } else {
                j1
            };
            if j1 < s.len() && s[j1] == '.' as u8 && j2 == j1 + 1 {
                None
            } else if j2 < s.len() && (s[j2] == 'e' as u8 || s[j2] == 'E' as u8) {
                let j3 = if j2 + 1 < s.len() && (s[j2 + 1] == '+' as u8 || s[j2 + 1] == '-' as u8) {
                    j2 + 2
                } else {
                    j2 + 1
                };
                let j4 = sp_digits(s, j3);
                if j4 == j3 {
                    None
                } else {
                    Some(j4)
                }
            } else {
                Some(j2)
            }
        }
    }
}


/// Does `lit` stand at `i`?
pub open spec fn sp_lit(s: Seq<u8>, i: int, lit: Seq<u8>) -> bool {
    0 <= i && i + lit.len() <= s.len() && s.subrange(i, i + lit.len() as int) == lit
}

pub open spec fn lit_true() -> Seq<u8> {
    seq!['t' as u8, 'r' as u8, 'u' as u8, 'e' as u8]
}

pub open spec fn lit_false() -> Seq<u8> {
    seq!['f' as u8, 'a' as u8, 'l' as u8, 's' as u8, 'e' as u8]
}

pub open spec fn lit_null() -> Seq<u8> {
    seq!['n' as u8, 'u' as u8, 'l' as u8, 'l' as u8]
}

/// The value beginning at `i` (`i` must already stand at its first byte),
/// and the index just after it.
pub open spec fn sp_value(s: Seq<u8>, i: int, fuel: nat) -> Option<(JsonVal, int)>
    decreases fuel,
{
    if fuel == 0 || i < 0 || i >= s.len() {
        None
    } else {
        let b = s[i];
        if b == '{' as u8 {
            let j = sp_ws(s, i + 1);
            if j < s.len() && s[j] == '}' as u8 {
                Some((JsonVal::Obj(Seq::empty()), j + 1))
            } else {
                match sp_members(s, i + 1, (fuel - 1) as nat) {
                    Some((members, j)) => Some((JsonVal::Obj(members), j)),
                    None => None,
                }
            }
        } else if b == '[' as u8 {
            let j = sp_ws(s, i + 1);
            if j < s.len() && s[j] == ']' as u8 {
                Some((JsonVal::Arr(Seq::empty()), j + 1))
            } else {
                match sp_elements(s, i + 1, (fuel - 1) as nat) {
                    Some((items, j)) => Some((JsonVal::Arr(items), j)),
                    None => None,
                }
            }
        } else if b == '"' as u8 {
            match sp_string(s, i + 1) {
                Some((bytes, j)) => Some((JsonVal::Str(bytes), j)),
                None => None,
            }
        } else if b == 't' as u8 {
            if sp_lit(s, i, lit_true()) {
                Some((JsonVal::Bool(true), i + 4))
            } else {
                None
            }
        } else if b == 'f' as u8 {
            if sp_lit(s, i, lit_false()) {
                Some((JsonVal::Bool(false), i + 5))
            } else {
                None
            }
        } else if b == 'n' as u8 {
            if sp_lit(s, i, lit_null()) {
                Some((JsonVal::Null, i + 4))
            } else {
                None
            }
        } else if b == '-' as u8 || is_digit(b) {
            match sp_number(s, i) {
                Some(j) => Some((JsonVal::Num(s.subrange(i, j)), j)),
                None => None,
            }
        } else {
            None
        }
    }
}

/// One or more array elements beginning at `i` (just after `[` or a comma),
/// and the index just after the closing bracket.
pub open spec fn sp_elements(s: Seq<u8>, i: int, fuel: nat) -> Option<(Seq<JsonVal>, int)>
    decreases fuel,
{
    if fuel == 0 {
        None
    } else {
        let j = sp_ws(s, i);
        match sp_value(s, j, (fuel - 1) as nat) {
            None => None,
            Some((v, k)) => {
                let m = sp_ws(s, k);
                if m < s.len() && s[m] == ',' as u8 {
                    match sp_elements(s, m + 1, (fuel - 1) as nat) {
                        Some((rest, e)) => Some((seq![v] + rest, e)),
                        None => None,
                    }
                } else if m < s.len() && s[m] == ']' as u8 {
                    Some((seq![v], m + 1))
                } else {
                    None
                }
            },
        }
    }
}

/// One or more object members beginning at `i` (just after `{` or a comma),
/// and the index just after the closing brace.
pub open spec fn sp_members(s: Seq<u8>, i: int, fuel: nat) -> Option<
    (Seq<(Seq<u8>, JsonVal)>, int),
>
    decreases fuel,
{
    if fuel == 0 {
        None
    } else {
        let j = sp_ws(s, i);
        if j < s.len() && s[j] == '"' as u8 {
            match sp_string(s, j + 1) {
                None => None,
                Some((key, k)) => {
                    let m = sp_ws(s, k);
                    if m < s.len() && s[m] == ':' as u8 {
                        let n = sp_ws(s, m + 1);
                        match sp_value(s, n, (fuel - 1) as nat) {
                            None => None,
                            Some((v, p)) => {
                                let q = sp_ws(s, p);
                                if q < s.len() && s[q] == ',' as u8 {
                                    match sp_members(s, q + 1, (fuel - 1) as nat) {
                                        Some((rest, e)) => Some((seq![(key, v)] + rest, e)),
                                        None => None,
                                    }
                                } else if q < s.len() && s[q] == '}' as u8 {
                                    Some((seq![(key, v)], q + 1))
                                } else {
                                    None
                                }
                            },
                        }
                    } else {
                        None
                    }
                },
            }
        } else {
            None
        }
    }
}

/// The fuel that [`json_doc`] grants: ample for any input of this length.
pub open spec fn parse_fuel(s: Seq<u8>) -> nat {
    2 * s.len() + 2
}

/// The JSON value a whole body denotes, if any: one value surrounded by
/// optional whitespace.
pub open spec fn json_doc(s: Seq<u8>) -> Option<JsonVal> {
    let i = sp_ws(s, 0);
    match sp_value(s, i, parse_fuel(s)) {
        Some((v, j)) => if sp_ws(s, j) == s.len() {
            Some(v)
        } else {
            None
        },
        None => None,
    }
}

fn p_is_ws(b: u8) -> (r: bool)
    ensures
        r == is_ws(b),
{
    b == 32 || b == 9 || b == 10 || b == 13
}

fn p_is_digit(b: u8) -> (r: bool)
    ensures
        r == is_digit(b),
{
    '0' as u8 <= b && b <= '9' as u8
}

#[verifier::loop_isolation(false)]
fn p_ws(s: &Vec<u8>, i: usize) -> (r: usize)
    requires
        i <= s@.len(),
    ensures
        r as int == sp_ws(s@, i as int),
        i <= r <= s@.len(),
{
    let mut r: usize = i;
    while r < s.len() && p_is_ws(s[r])
        invariant
            i <= r <= s@.len(),
            sp_ws(s@, i as int) == sp_ws(s@, r as int),
        decreases s@.len() - r,
    {
        r = r + 1;
    }
    r
}

fn p_hex_val(b: u8) -> (r: Option<u32>)
    ensures
        r == hex_val(b),
{
    if '0' as u8 <= b && b <= '9' as u8 {
        Some((b - '0' as u8) as u32)
    } else if 'a' as u8 <= b && b <= 'f' as u8 {
        Some((b - 'a' as u8 + 10) as u32)
    } else if 'A' as u8 <= b && b <= 'F' as u8 {
        Some((b - 'A' as u8 + 10) as u32)
    } else {
        None
    }
}

fn p_hex4(s: &Vec<u8>, i: usize) -> (r: Option<u32>)
    requires
        i <= s@.len(),
    ensures
        r == sp_hex4(s@, i as int),
        r is Some ==> r.unwrap() < 0x10000,
{
    if s.len() >= 4 && i <= s.len() - 4 {
        match (p_hex_val(s[i]), p_hex_val(s[i + 1]), p_hex_val(s[i + 2]), p_hex_val(s[i + 3])) {
            (Some(a), Some(b), Some(c), Some(d)) => Some(a * 0x1000 + b * 0x100 + c * 0x10 + d),
            _ => None,
        }
    } else {
        None
    }
}

/// The UTF-8 encoding of the scalar value `c`.
fn utf8_bytes(c: u32) -> (v: Vec<u8>)
    requires
        c <= 0x10FFFF,
    ensures
        v@ == utf8_enc(c),
{
    let mut v: Vec<u8> = Vec::new();
    if c < 0x80 {
        v.push(c as u8);
    } else if c < 0x800 {
        v.push((0xC0 + c / 0x40) as u8);
        v.push((0x80 + c % 0x40) as u8);
    } else if c < 0x10000 {
        v.push((0xE0 + c / 0x1000) as u8);
        v.push((0x80 + (c / 0x40) % 0x40) as u8);
        v.push((0x80 + c % 0x40) as u8);
    } else {
        v.push((0xF0 + c / 0x40000) as u8);
        v.push((0x80 + (c / 0x1000) % 0x40) as u8);
        v.push((0x80 + (c / 0x40) % 0x40) as u8);
        v.push((0x80 + c % 0x40) as u8);
    }
    proof {
        assert(v@ =~= utf8_enc(c));
    }
    v
}

fn p_simple_escape(e: u8) -> (r: Option<u8>)
    ensures
        r == simple_escape(e),
{
    if e == '"' as u8 {
        Some('"' as u8)
    } else if e == '\\' as u8 {
        Some('\\' as u8)
    } else if e == '/' as u8 {
        Some('/' as u8)
    } else if e == 'b' as u8 {
        Some(8u8)
    } else if e == 't' as u8 {
        Some(9u8)
    } else if e == 'n' as u8 {
        Some(10u8)
    } else if e == 'f' as u8 {
        Some(12u8)
    } else if e == 'r' as u8 {
        Some(13u8)
    } else {
        None
    }
}

fn p_string(s: &Vec<u8>, i: usize) -> (r: Option<(Vec<u8>, usize)>)
    requires
        i <= s@.len(),
    ensures
        match r {
            Some((bytes, j)) => sp_string(s@, i as int) == Some((bytes@, j as int)) && i < j
                <= s@.len(),
            None => sp_string(s@, i as int) is None,
        },
    decreases s@.len() - i,
{
    if i >= s.len() {
        return None;
    }
    let b = s[i];
    if b == '"' as u8 {
        let bytes: Vec<u8> = Vec::new();
        Some((bytes, i + 1))
    } else if b == '\\' as u8 {
        if i + 1 >= s.len() {
            return None;
        }
        let e = s[i + 1];
        if e == 'u' as u8 {
            match p_hex4(s, i + 2) {
                None => None,
                Some(c1) => {
                    if 0xD800 <= c1 && c1 < 0xDC00 {
                        if s.len() - i >= 8 && s[i + 6] == '\\' as u8 && s[i + 7] == 'u' as u8 {
                            match p_hex4(s, i + 8) {
                                Some(c2) => {
                                    if 0xDC00 <= c2 && c2 < 0xE000 {
                                        let cp: u32 = 0x10000 + (c1 - 0xD800) * 0x400 + (c2
                                            - 0xDC00);
                                        match p_string(s, i + 12) {
                                            Some((mut rest, j)) => {
                                                let mut enc = utf8_bytes(cp);
                                                enc.append(&mut rest);
                                                Some((enc, j))
                                            },
                                            None => None,
                                        }
                                    } else {
                                        None
                                    }
                                },
                                None => None,
                            }
                        } else {
                            None
                        }
                    } else if 0xDC00 <= c1 && c1 < 0xE000 {
                        None
                    } else {
                        match p_string(s, i + 6) {
                            Some((mut rest, j)) => {
                                let mut enc = utf8_bytes(c1);
                                enc.append(&mut rest);
                                Some((enc, j))
                            },
                            None => None,
                        }
                    }
                },
            }
        } else {
            match p_simple_escape(e) {
                Some(d) => match p_string(s, i + 2) {
                    Some((mut rest, j)) => {
                        let mut enc: Vec<u8> = Vec::new();
                        enc.push(d);
                        enc.append(&mut rest);
                        proof {
                            assert(enc@ =~= seq![d] + sp_string(s@, i as int + 2).unwrap().0);
                        }
                        Some((enc, j))
                    },
                    None => None,
                },
                None => None,
            }
        }
    } else if b < 32 {
        None
    } else {
        match p_string(s, i + 1) {
            Some((mut rest, j)) => {
                let mut enc: Vec<u8> = Vec::new();
                enc.push(b);
                enc.append(&mut rest);
                proof {
                    assert(enc@ =~= seq![b] + sp_string(s@, i as int + 1).unwrap().0);
                }
                Some((enc, j))
            },
            None => None,
        }
    }
}

#[verifier::loop_isolation(false)]
fn p_digits(s: &Vec<u8>, i: usize) -> (r: usize)
    requires
        i <= s@.len(),
    ensures
        r as int == sp_digits(s@, i as int),
        i <= r <= s@.len(),
{
    let mut r: usize = i;
    while r < s.len() && p_is_digit(s[r])
        invariant
            i <= r <= s@.len(),
            sp_digits(s@, i as int) == sp_digits(s@, r as int),
        decreases s@.len() - r,
    {
        r = r + 1;
    }
    r
}

fn p_number(s: &Vec<u8>, i: usize) -> (r: Option<usize>)
    requires
        i <= s@.len(),
    ensures
        match r {
            Some(j) => sp_number(s@, i as int) == Some(j as int) && i < j <= s@.len(),
            None => sp_number(s@, i as int) is None,
        },
{
    if i >= s.len() {
        return None;
    }
    let j0: usize = if s[i] == '-' as u8 {
        i + 1
    } else {
        i
    };
    if j0 >= s.len() || !p_is_digit(s[j0]) {
        return None;
    }
    let j1: usize = if s[j0] == '0' as u8 {
        j0 + 1
    } else {
        p_digits(s, j0)
    };
    proof {
        lemma_sp_digits_bounds(s@, j0 as int + 1);
        assert(sp_digits(s@, j0 as int) == sp_digits(s@, j0 as int + 1));
        assert(j0 < j1 <= s@.len());
    }
    let j2: usize = if j1 < s.len() && s[j1] == '.' as u8 {
        p_digits(s, j1 + 1)
    } else {
        j1
    };
    if j1 < s.len() && s[j1] == '.' as u8 && j2 == j1 + 1 {
        None
    } else if j2 < s.len() && (s[j2] == 'e' as u8 || s[j2] == 'E' as u8) {
        let j3: usize = if j2 + 1 < s.len() && (s[j2 + 1] == '+' as u8 || s[j2 + 1] == '-' as u8) {
            j2 + 2
        } else {
            j2 + 1
        };
        let j4 = p_digits(s, j3);
        if j4 == j3 {
            None
        } else {
            Some(j4)
        }
    } else {
        Some(j2)
    }
}

/// Copies `s[i..j]` into a fresh vector.
#[verifier::loop_isolation(false)]
pub(crate) fn copy_vec_range(s: &Vec<u8>, i: usize, j: usize) -> (v: Vec<u8>)
    requires
        i <= j <= s@.len(),
    ensures
        v@ == s@.subrange(i as int, j as int),
{
    let mut v: Vec<u8> = Vec::new();
    let mut k: usize = i;
    while k < j
        invariant
            i <= k <= j,
            v@ == s@.subrange(i as int, k as int),
        decreases j - k,
    {
        v.push(s[k]);
        proof {
            assert(s@.subrange(i as int, k as int + 1) =~= s@.subrange(i as int, k as int)
                + seq![s@[k as int]]);
        }
        k = k + 1;
    }
    v
}

#[verifier::rlimit(60)]
fn p_value(s: &Vec<u8>, i: usize, fuel: usize) -> (r: Option<(Json, usize)>)
    requires
        i <= s@.len(),
    ensures
        match r {
            Some((v, j)) => sp_value(s@, i as int, fuel as nat) == Some((v@, j as int)) && i < j
                <= s@.len(),
            None => sp_value(s@, i as int, fuel as nat) is None,
        },
    decreases fuel, 1int,
{
    if fuel == 0 || i >= s.len() {
        return None;
    }
    let b = s[i];
    if b == '{' as u8 {
        let j = p_ws(s, i + 1);
        if j < s.len() && s[j] == '}' as u8 {
            Some((Json::Obj(Vec::new()), j + 1))
        } else {
            match p_members(s, i + 1, fuel - 1) {
                Some((members, j)) => Some((Json::Obj(members), j)),
                None => None,
            }
        }
    } else if b == '[' as u8 {
        let j = p_ws(s, i + 1);
        if j < s.len() && s[j] == ']' as u8 {
            Some((Json::Arr(Vec::new()), j + 1))
        } else {
            match p_elements(s, i + 1, fuel - 1) {
                Some((items, j)) => Some((Json::Arr(items), j)),
                None => None,
            }
        }
    } else if b == '"' as u8 {
        match p_string(s, i + 1) {
            Some((bytes, j)) => Some((Json::Str(bytes), j)),
            None => None,
        }
    } else if b == 't' as u8 {
        if s.len() - i >= 4 && s[i + 1] == 'r' as u8 && s[i + 2] == 'u' as u8 && s[i + 3]
            == 'e' as u8 {
            proof {
                assert(s@.subrange(i as int, i as int + 4) =~= lit_true());
            }
            Some((Json::Bool(true), i + 4))
        } else {
            proof {
                if sp_lit(s@, i as int, lit_true()) {
                    assert(s@[i as int + 1] == lit_true()[1]);
                    assert(s@[i as int + 2] == lit_true()[2]);
                    assert(s@[i as int + 3] == lit_true()[3]);
                }
            }
            None
        }
    } else if b == 'f' as u8 {
        if s.len() - i >= 5 && s[i + 1] == 'a' as u8 && s[i + 2] == 'l' as u8 && s[i + 3]
            == 's' as u8 && s[i + 4] == 'e' as u8 {
            proof {
                assert(s@.subrange(i as int, i as int + 5) =~= lit_false());
            }
            Some((Json::Bool(false), i + 5))
        } else {
            proof {
                if sp_lit(s@, i as int, lit_false()) {
                    assert(s@[i as int + 1] == lit_false()[1]);
                    assert(s@[i as int + 2] == lit_false()[2]);
                    assert(s@[i as int + 3] == lit_false()[3]);
                    assert(s@[i as int + 4] == lit_false()[4]);
                }
            }
            None
        }
    } else if b == 'n' as u8 {
        if s.len() - i >= 4 && s[i + 1] == 'u' as u8 && s[i + 2] == 'l' as u8 && s[i + 3]
            == 'l' as u8 {
            proof {
                assert(s@.subrange(i as int, i as int + 4) =~= lit_null());
            }
            Some((Json::Null, i + 4))
        } else {
            proof {
                if sp_lit(s@, i as int, lit_null()) {
                    assert(s@[i as int + 1] == lit_null()[1]);
                    assert(s@[i as int + 2] == lit_null()[2]);
                    assert(s@[i as int + 3] == lit_null()[3]);
                }
            }
            None
        }
    } else if b == '-' as u8 || p_is_digit(b) {
        match p_number(s, i) {
            Some(j) => Some((Json::Num(copy_vec_range(s, i, j)), j)),
            None => None,
        }
    } else {
        None
    }
}

fn p_elements(s: &Vec<u8>, i: usize, fuel: usize) -> (r: Option<(Vec<Json>, usize)>)
    requires
        i <= s@.len(),
    ensures
        match r {
            Some((items, j)) => sp_elements(s@, i as int, fuel as nat) == Some(
                (json_view_seq(items@), j as int),
            ) && i < j <= s@.len(),
            None => sp_elements(s@, i as int, fuel as nat) is None,
        },
    decreases fuel, 0int,
{
    if fuel == 0 {
        return None;
    }
    let j = p_ws(s, i);
    match p_value(s, j, fuel - 1) {
        None => None,
        Some((v, k)) => {
            let m = p_ws(s, k);
            if m < s.len() && s[m] == ',' as u8 {
                match p_elements(s, m + 1, fuel - 1) {
                    Some((rest, e)) => {
                        let ghost v0 = v;
                        let ghost rest0 = rest@;
                        let mut items: Vec<Json> = Vec::new();
                        items.push(v);
                        let mut rest = rest;
                        items.append(&mut rest);
                        proof {
                            assert(items@ =~= seq![v0] + rest0);
                            lemma_json_view_seq(items@);
                            lemma_json_view_seq(rest0);
                            assert(json_view_seq(items@) =~= seq![json_view(v0)]
                                + json_view_seq(rest0));
                        }
                        Some((items, e))
                    },
                    None => None,
                }
            } else if m < s.len() && s[m] == ']' as u8 {
                let ghost v0 = v;
                let mut items: Vec<Json> = Vec::new();
                items.push(v);
                proof {
                    assert(items@ =~= seq![v0]);
                    lemma_json_view_seq(items@);
                    assert(json_view_seq(items@) =~= seq![json_view(v0)]);
                }
                Some((items, m + 1))
            } else {
                None
            }
        },
    }
}

fn p_members(s: &Vec<u8>, i: usize, fuel: usize) -> (r: Option<(Vec<(Vec<u8>, Json)>, usize)>)
    requires
        i <= s@.len(),
    ensures
        match r {
            Some((members, j)) => sp_members(s@, i as int, fuel as nat) == Some(
                (json_view_members(members@), j as int),
            ) && i < j <= s@.len(),
            None => sp_members(s@, i as int, fuel as nat) is None,
        },
    decreases fuel, 0int,
{
    if fuel == 0 {
        return None;
    }
    let j = p_ws(s, i);
    if j < s.len() && s[j] == '"' as u8 {
        match p_string(s, j + 1) {
            None => None,
            Some((key, k)) => {
                let m = p_ws(s, k);
                if m < s.len() && s[m] == ':' as u8 {
                    let n = p_ws(s, m + 1);
                    match p_value(s, n, fuel - 1) {
                        None => None,
                        Some((v, p)) => {
                            let q = p_ws(s, p);
                            if q < s.len() && s[q] == ',' as u8 {
                                match p_members(s, q + 1, fuel - 1) {
                                    Some((rest, e)) => {
                                        let ghost k0 = key@;
                                        let ghost v0 = v;
                                        let ghost rest0 = rest@;
                                        let mut members: Vec<(Vec<u8>, Json)> = Vec::new();
                                        members.push((key, v));
                                        let mut rest = rest;
                                        members.append(&mut rest);
                                        proof {
                                            lemma_json_view_members(members@);
                                            lemma_json_view_members(rest0);
                                            assert(members@.skip(1) =~= rest0);
                                            assert(json_view_members(members@) =~= seq![
                                                (k0, json_view(v0)),
                                            ] + json_view_members(rest0));
                                        }
                                        Some((members, e))
                                    },
                                    None => None,
                                }
                            } else if q < s.len() && s[q] == '}' as u8 {
                                let ghost k0 = key@;
                                let ghost v0 = v;
                                let mut members: Vec<(Vec<u8>, Json)> = Vec::new();
                                members.push((key, v));
                                proof {
                                    lemma_json_view_members(members@);
                                    assert(json_view_members(members@) =~= seq![
                                        (k0, json_view(v0)),
                                    ]);
                                }
                                Some((members, q + 1))
                            } else {
                                None
                            }
                        },
                    }
                } else {
                    None
                }
            },
        }
    } else {
        None
    }
}

/// Parses a whole body: [`json_doc`] is the meaning of the result.
pub fn parse_json(s: &Vec<u8>) -> (r: Option<Json>)
    requires
        s@.len() < usize::MAX / 4,
    ensures
        match r {
            Some(v) => json_doc(s@) == Some(v@),
            None => json_doc(s@) is None,
        },
{
    let fuel: usize = 2 * s.len() + 2;
    let i = p_ws(s, 0);
    match p_value(s, i, fuel) {
        Some((v, j)) => {
            let e = p_ws(s, j);
            if e == s.len() {
                Some(v)
            } else {
                None
            }
        },
        None => None,
    }
}

} // verus!
