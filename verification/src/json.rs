//! JSON values, modelled at the byte level.
//!
//! A [`Json`] value holds strings and numbers as raw bytes: a number keeps the
//! literal digits it was written with, a string keeps its decoded (unescaped)
//! UTF-8 bytes. Object members keep their textual order.

use vstd::prelude::*;

verus! {

/// Mathematical model of a JSON value.
pub enum JsonVal {
    Null,
    Bool(bool),
    /// The literal bytes of the number, e.g. `-12.5e3`.
    Num(Seq<u8>),
    /// The decoded bytes of the string (escape sequences resolved).
    Str(Seq<u8>),
    Arr(Seq<JsonVal>),
    Obj(Seq<(Seq<u8>, JsonVal)>),
}

/// A JSON value as executable data.
#[derive(Debug, PartialEq, Eq)]
pub enum Json {
    Null,
    Bool(bool),
    /// The literal bytes of the number, e.g. `-12.5e3`.
    Num(Vec<u8>),
    /// The decoded bytes of the string (escape sequences resolved).
    Str(Vec<u8>),
    Arr(Vec<Json>),
    Obj(Vec<(Vec<u8>, Json)>),
}

/// The model of an executable JSON value.
pub open spec fn json_view(j: Json) -> JsonVal
    decreases j,
{
    match j {
        Json::Null => JsonVal::Null,
        Json::Bool(b) => JsonVal::Bool(b),
        Json::Num(n) => JsonVal::Num(n@),
        Json::Str(s) => JsonVal::Str(s@),
        Json::Arr(items) => JsonVal::Arr(json_view_seq(items@)),
        Json::Obj(members) => JsonVal::Obj(json_view_members(members@)),
    }
}

pub open spec fn json_view_seq(s: Seq<Json>) -> Seq<JsonVal>
    decreases s,
{
    if s.len() == 0 {
        Seq::empty()
    } else {
        json_view_seq(s.drop_last()).push(json_view(s.last()))
    }
}

pub open spec fn json_view_members(s: Seq<(Vec<u8>, Json)>) -> Seq<(Seq<u8>, JsonVal)>
    decreases s,
{
    if s.len() == 0 {
        Seq::empty()
    } else {
        json_view_members(s.drop_last()).push((s.last().0@, json_view(s.last().1)))
    }
}

impl View for Json {
    type V = JsonVal;

    open spec fn view(&self) -> JsonVal {
        json_view(*self)
    }
}

pub proof fn lemma_json_view_seq(s: Seq<Json>)
    ensures
        json_view_seq(s).len() == s.len(),
        forall|i: int| 0 <= i < s.len() ==> json_view_seq(s)[i] == json_view(s[i]),
    decreases s,
{
    if s.len() > 0 {
        lemma_json_view_seq(s.drop_last());
    }
}

pub proof fn lemma_json_view_members(s: Seq<(Vec<u8>, Json)>)
    ensures
        json_view_members(s).len() == s.len(),
        forall|i: int| 0 <= i < s.len() ==> json_view_members(s)[i] == (
            s[i].0@,
            json_view(s[i].1),
        ),
    decreases s,
{
    if s.len() > 0 {
        lemma_json_view_members(s.drop_last());
    }
}

/// One hex digit (lower case); meaningful for `n < 16`.
pub open spec fn spec_hex_digit(n: u8) -> u8 {
    if n < 10 {
        ('0' as u8 + n) as u8
    } else {
        ('a' as u8 + (n - 10)) as u8
    }
}

/// How one byte of string content is written inside a JSON string literal.
pub open spec fn esc_byte(b: u8) -> Seq<u8> {
    let bs = '\\' as u8;
    if b == '"' as u8 {
        seq![bs, '"' as u8]
    } else if b == bs {
        seq![bs, bs]
    } else if b == 8 {
        seq![bs, 'b' as u8]
    } else if b == 9 {
        seq![bs, 't' as u8]
    } else if b == 10 {
        seq![bs, 'n' as u8]
    } else if b == 12 {
        seq![bs, 'f' as u8]
    } else if b == 13 {
        seq![bs, 'r' as u8]
    } else if b < 32 {
        seq![bs, 'u' as u8, '0' as u8, '0' as u8, spec_hex_digit(b / 16), spec_hex_digit(b % 16)]
    } else {
        seq![b]
    }
}

/// String content, escaped for inclusion in a JSON string literal.
pub open spec fn esc_bytes(s: Seq<u8>) -> Seq<u8>
    decreases s.len(),
{
    if s.len() == 0 {
        Seq::empty()
    } else {
        esc_byte(s[0]) + esc_bytes(s.skip(1))
    }
}

/// The byte serialization of a JSON value: no added whitespace, object
/// members in stored order, numbers written with their stored digits.
pub open spec fn json_bytes(v: JsonVal) -> Seq<u8>
    decreases v,
{
    match v {
        JsonVal::Null => seq!['n' as u8, 'u' as u8, 'l' as u8, 'l' as u8],
        JsonVal::Bool(b) => if b {
            seq!['t' as u8, 'r' as u8, 'u' as u8, 'e' as u8]
        } else {
            seq!['f' as u8, 'a' as u8, 'l' as u8, 's' as u8, 'e' as u8]
        },
        JsonVal::Num(n) => n,
        JsonVal::Str(s) => seq!['"' as u8] + esc_bytes(s) + seq!['"' as u8],
        JsonVal::Arr(items) => seq!['[' as u8] + items_bytes(items) + seq![']' as u8],
        JsonVal::Obj(members) => seq!['{' as u8] + members_bytes(members) + seq!['}' as u8],
    }
}

pub open spec fn items_bytes(items: Seq<JsonVal>) -> Seq<u8>
    decreases items,
{
    if items.len() == 0 {
        Seq::empty()
    } else if items.len() == 1 {
        json_bytes(items[0])
    } else {
        items_bytes(items.drop_last()) + seq![',' as u8] + json_bytes(items.last())
    }
}

pub open spec fn member_bytes(m: (Seq<u8>, JsonVal)) -> Seq<u8>
    decreases m,
{
    seq!['"' as u8] + esc_bytes(m.0) + seq!['"' as u8, ':' as u8] + json_bytes(m.1)
}

pub open spec fn members_bytes(members: Seq<(Seq<u8>, JsonVal)>) -> Seq<u8>
    decreases members,
{
    if members.len() == 0 {
        Seq::empty()
    } else if members.len() == 1 {
        member_bytes(members[0])
    } else {
        members_bytes(members.drop_last()) + seq![',' as u8] + member_bytes(members.last())
    }
}

fn hex_digit(n: u8) -> (r: u8)
    requires
        n < 16,
    ensures
        r == spec_hex_digit(n),
{
    if n < 10 {
        '0' as u8 + n
    } else {
        'a' as u8 + (n - 10)
    }
}

/// Appends the escaped form of string content `s` to `out`.
#[verifier::loop_isolation(false)]
fn write_escaped(s: &Vec<u8>, out: &mut Vec<u8>)
    ensures
        final(out)@ == old(out)@ + esc_bytes(s@),
{
    let bs: u8 = '\\' as u8;
    let mut i: usize = 0;
    while i < s.len()
        invariant
            i <= s.len(),
            out@ == old(out)@ + esc_bytes(s@.take(i as int)),
        decreases s.len() - i,
    {
        let b = s[i];
        if b == '"' as u8 {
            out.push(bs);
            out.push('"' as u8);
        } else if b == bs {
            out.push(bs);
            out.push(bs);
        } else if b == 8 {
            out.push(bs);
            out.push('b' as u8);
        } else if b == 9 {
            out.push(bs);
            out.push('t' as u8);
        } else if b == 10 {
            out.push(bs);
            out.push('n' as u8);
        } else if b == 12 {
            out.push(bs);
            out.push('f' as u8);
        } else if b == 13 {
            out.push(bs);
            out.push('r' as u8);
        } else if b < 32 {
            out.push(bs);
            out.push('u' as u8);
            out.push('0' as u8);
            out.push('0' as u8);
            out.push(hex_digit(b / 16));
            out.push(hex_digit(b % 16));
        } else {
            out.push(b);
        }
        proof {
            lemma_esc_bytes_take(s@, i as int);
            assert(out@ =~= old(out)@ + esc_bytes(s@.take(i as int + 1)));
        }
        i = i + 1;
    }
    proof {
        assert(s@.take(s@.len() as int) =~= s@);
    }
}

proof fn lemma_esc_bytes_take(s: Seq<u8>, i: int)
    requires
        0 <= i < s.len(),
    ensures
        esc_bytes(s.take(i + 1)) == esc_bytes(s.take(i)) + esc_byte(s[i]),
    decreases i,
{
    if i == 0 {
        let t = s.take(1);
        assert(t.len() == 1);
        assert(t[0] == s[0]);
        assert(t.skip(1) =~= Seq::<u8>::empty());
        assert(esc_bytes(t) == esc_byte(t[0]) + esc_bytes(t.skip(1)));
        assert(esc_bytes(Seq::<u8>::empty()) == Seq::<u8>::empty());
        assert(esc_bytes(t) =~= esc_byte(s[0]));
        assert(esc_bytes(s.take(0)) =~= Seq::<u8>::empty());
        assert(esc_bytes(s.take(i + 1)) =~= esc_bytes(s.take(i)) + esc_byte(s[i]));
    } else {
        lemma_esc_bytes_take(s.skip(1), i - 1);
        assert(s.take(i + 1).skip(1) =~= s.skip(1).take(i));
        assert(s.take(i).skip(1) =~= s.skip(1).take(i - 1));
        assert(s.take(i + 1)[0] == s[0]);
        assert(s.take(i)[0] == s[0]);
        assert(s.skip(1)[i - 1] == s[i]);
        assert(esc_bytes(s.take(i + 1)) =~= esc_bytes(s.take(i)) + esc_byte(s[i]));
    }
}

/// Appends the serialization of `j` to `out`.
#[verifier::loop_isolation(false)]
#[verifier::rlimit(100)]
pub fn write_json(j: &Json, out: &mut Vec<u8>)
    ensures
        final(out)@ == old(out)@ + json_bytes(j@),
    decreases j,
{
    match j {
        Json::Null => {
            out.push('n' as u8);
            out.push('u' as u8);
            out.push('l' as u8);
            out.push('l' as u8);
            assert(final(out)@ =~= old(out)@ + json_bytes(j@));
        },
        Json::Bool(b) => {
            if *b {
                out.push('t' as u8);
                out.push('r' as u8);
                out.push('u' as u8);
                out.push('e' as u8);
            } else {
                out.push('f' as u8);
                out.push('a' as u8);
                out.push('l' as u8);
                out.push('s' as u8);
                out.push('e' as u8);
            }
            assert(final(out)@ =~= old(out)@ + json_bytes(j@));
        },
        Json::Num(n) => {
            let mut k: usize = 0;
            while k < n.len()
                invariant
                    k <= n.len(),
                    out@ == old(out)@ + n@.take(k as int),
                decreases n.len() - k,
            {
                out.push(n[k]);
                proof {
                    assert(n@.take(k as int + 1) =~= n@.take(k as int) + seq![n@[k as int]]);
                }
                k = k + 1;
            }
            assert(n@.take(n@.len() as int) =~= n@);
            assert(final(out)@ =~= old(out)@ + json_bytes(j@));
        },
        Json::Str(s) => {
            out.push('"' as u8);
            write_escaped(s, out);
            out.push('"' as u8);
            assert(final(out)@ =~= old(out)@ + json_bytes(j@));
        },
        Json::Arr(items) => {
            out.push('[' as u8);
            let mut k: usize = 0;
            while k < items.len()
                invariant
                    k <= items.len(),
                    out@ == old(out)@ + seq!['[' as u8] + items_bytes(
                        json_view_seq(items@.take(k as int)),
                    ),
                decreases items.len() - k,
            {
                if k > 0 {
                    out.push(',' as u8);
                }
                write_json(&items[k], out);
                proof {
                    lemma_items_bytes_take(items@, k as int);
                }
                k = k + 1;
            }
            out.push(']' as u8);
            proof {
                assert(items@.take(items@.len() as int) =~= items@);
            }
            assert(final(out)@ =~= old(out)@ + json_bytes(j@));
        },
        Json::Obj(members) => {
            out.push('{' as u8);
            let mut k: usize = 0;
            while k < members.len()
                invariant
                    k <= members.len(),
                    out@ == old(out)@ + seq!['{' as u8] + members_bytes(
                        json_view_members(members@.take(k as int)),
                    ),
                decreases members.len() - k,
            {
                if k > 0 {
                    out.push(',' as u8);
                }
                out.push('"' as u8);
                write_escaped(&members[k].0, out);
                out.push('"' as u8);
                out.push(':' as u8);
                write_json(&members[k].1, out);
                proof {
                    lemma_members_bytes_take(members@, k as int);
                }
                k = k + 1;
            }
            out.push('}' as u8);
            proof {
                assert(members@.take(members@.len() as int) =~= members@);
            }
            assert(final(out)@ =~= old(out)@ + json_bytes(j@));
        },
    }
}

proof fn lemma_items_bytes_take(items: Seq<Json>, k: int)
    requires
        0 <= k < items.len(),
    ensures
        items_bytes(json_view_seq(items.take(k + 1))) == if k == 0 {
            items_bytes(json_view_seq(items.take(0))) + json_bytes(json_view(items[0]))
        } else {
            items_bytes(json_view_seq(items.take(k))) + seq![',' as u8] + json_bytes(
                json_view(items[k]),
            )
        },
{
    lemma_json_view_seq(items.take(k + 1));
    lemma_json_view_seq(items.take(k));
    let v1 = json_view_seq(items.take(k + 1));
    let v0 = json_view_seq(items.take(k));
    assert(v1.drop_last() =~= v0);
    if k == 0 {
        assert(items_bytes(v1) == json_bytes(v1[0]));
        assert(items_bytes(v0) =~= Seq::<u8>::empty());
        assert(items_bytes(v0) + json_bytes(json_view(items[0])) =~= json_bytes(v1[0]));
    }
}

proof fn lemma_members_bytes_take(members: Seq<(Vec<u8>, Json)>, k: int)
    requires
        0 <= k < members.len(),
    ensures
        members_bytes(json_view_members(members.take(k + 1))) == if k == 0 {
            members_bytes(json_view_members(members.take(0))) + member_bytes(
                (members[0].0@, json_view(members[0].1)),
            )
        } else {
            members_bytes(json_view_members(members.take(k))) + seq![',' as u8] + member_bytes(
                (members[k].0@, json_view(members[k].1)),
            )
        },
{
    lemma_json_view_members(members.take(k + 1));
    lemma_json_view_members(members.take(k));
    let v1 = json_view_members(members.take(k + 1));
    let v0 = json_view_members(members.take(k));
    assert(v1.drop_last() =~= v0);
    if k == 0 {
        assert(members_bytes(v1) == member_bytes(v1[0]));
        assert(members_bytes(v0) =~= Seq::<u8>::empty());
        assert(members_bytes(v0) + member_bytes((members[0].0@, json_view(members[0].1))) =~= member_bytes(v1[0]));
    }
}

/// The serialization of `j` as a fresh byte vector.
pub fn json_to_bytes(j: &Json) -> (out: Vec<u8>)
    ensures
        out@ == json_bytes(j@),
{
    let mut out: Vec<u8> = Vec::new();
    write_json(j, &mut out);
    out
}

} // verus!
