//! Small byte-string helpers shared across the crate.
//!
//! Protocol keywords are written as `&str` literals and carried as their
//! UTF-8 bytes; `str_bytes` turns one into a `Vec<u8>` whose view is the
//! literal's `spec_bytes()`.

use vstd::prelude::*;
use vstd::string::{StrSliceExecFns, StringSliceAdditionalSpecFns};

verus! {

/// The UTF-8 bytes of a string slice, as a fresh vector.
pub fn str_bytes(s: &str) -> (v: Vec<u8>)
    ensures
        v@ == s.spec_bytes(),
{
    s.as_bytes_vec()
}

/// Byte-for-byte equality of two vectors.
#[verifier::loop_isolation(false)]
pub fn bytes_eq(a: &Vec<u8>, b: &Vec<u8>) -> (r: bool)
    ensures
        r == (a@ == b@),
{
    if a.len() != b.len() {
        assert(a@ != b@);
        return false;
    }
    let mut i: usize = 0;
    while i < a.len()
        invariant
            i <= a.len(),
            a@.len() == b@.len(),
            forall|k: int| 0 <= k < i ==> a@[k] == b@[k],
        decreases a.len() - i,
    {
        if a[i] != b[i] {
            assert(a@ != b@);
            return false;
        }
        i = i + 1;
    }
    proof {
        assert(a@ =~= b@);
    }
    true
}

/// Byte-for-byte equality of a vector and a string literal's bytes.
pub fn bytes_is(a: &Vec<u8>, lit: &str) -> (r: bool)
    ensures
        r == (a@ == lit.spec_bytes()),
{
    let b = str_bytes(lit);
    bytes_eq(a, &b)
}

/// ASCII lower-casing of one byte.
pub open spec fn lower_byte(b: u8) -> u8 {
    if 'A' as u8 <= b <= 'Z' as u8 {
        (b + 32) as u8
    } else {
        b
    }
}

/// Equality of two byte strings up to ASCII case.
pub open spec fn eq_ignore_case(a: Seq<u8>, b: Seq<u8>) -> bool {
    a.map_values(|x: u8| lower_byte(x)) == b.map_values(|x: u8| lower_byte(x))
}

#[verifier::loop_isolation(false)]
pub fn bytes_eq_ignore_case(a: &Vec<u8>, b: &Vec<u8>) -> (r: bool)
    ensures
        r == eq_ignore_case(a@, b@),
{
    let ghost la = a@.map_values(|x: u8| lower_byte(x));
    let ghost lb = b@.map_values(|x: u8| lower_byte(x));
    if a.len() != b.len() {
        assert(la.len() != lb.len());
        return false;
    }
    let mut i: usize = 0;
    while i < a.len()
        invariant
            i <= a.len(),
            a@.len() == b@.len(),
            la == a@.map_values(|x: u8| lower_byte(x)),
            lb == b@.map_values(|x: u8| lower_byte(x)),
            forall|k: int| 0 <= k < i ==> la[k] == lb[k],
        decreases a.len() - i,
    {
        let mut x = a[i];
        let mut y = b[i];
        if 'A' as u8 <= x && x <= 'Z' as u8 {
            x = x + 32;
        }
        if 'A' as u8 <= y && y <= 'Z' as u8 {
            y = y + 32;
        }
        if x != y {
            assert(la[i as int] != lb[i as int]);
            return false;
        }
        i = i + 1;
    }
    proof {
        assert(la =~= lb);
    }
    true
}

/// Does `a` end with the bytes of `suffix`?
pub open spec fn ends_with(a: Seq<u8>, suffix: Seq<u8>) -> bool {
    a.len() >= suffix.len() && a.skip(a.len() - suffix.len()) == suffix
}

#[verifier::loop_isolation(false)]
pub fn bytes_end_with(a: &Vec<u8>, lit: &str) -> (r: bool)
    ensures
        r == ends_with(a@, lit.spec_bytes()),
{
    let suffix = str_bytes(lit);
    if a.len() < suffix.len() {
        return false;
    }
    let start = a.len() - suffix.len();
    let mut i: usize = 0;
    while i < suffix.len()
        invariant
            i <= suffix@.len(),
            start == a@.len() - suffix@.len(),
            suffix@ == lit.spec_bytes(),
            a@.len() >= suffix@.len(),
            forall|k: int| 0 <= k < i ==> a@[start + k] == suffix@[k],
        decreases suffix.len() - i,
    {
        if a[start + i] != suffix[i] {
            assert(a@.skip(a@.len() - suffix@.len())[i as int] != suffix@[i as int]);
            return false;
        }
        i = i + 1;
    }
    proof {
        assert(a@.skip(a@.len() - suffix@.len()) =~= suffix@);
    }
    true
}

/// Does `a` start with the bytes of `prefix`?
pub open spec fn starts_with(a: Seq<u8>, prefix: Seq<u8>) -> bool {
    a.len() >= prefix.len() && a.take(prefix.len() as int) == prefix
}

#[verifier::loop_isolation(false)]
pub fn bytes_start_with(a: &Vec<u8>, lit: &str) -> (r: bool)
    ensures
        r == starts_with(a@, lit.spec_bytes()),
{
    let prefix = str_bytes(lit);
    if a.len() < prefix.len() {
        return false;
    }
    let mut i: usize = 0;
    while i < prefix.len()
        invariant
            i <= prefix@.len(),
            prefix@ == lit.spec_bytes(),
            a@.len() >= prefix@.len(),
            forall|k: int| 0 <= k < i ==> a@[k] == prefix@[k],
        decreases prefix.len() - i,
    {
        if a[i] != prefix[i] {
            assert(a@.take(prefix@.len() as int)[i as int] != prefix@[i as int]);
            return false;
        }
        i = i + 1;
    }
    proof {
        assert(a@.take(prefix@.len() as int) =~= prefix@);
    }
    true
}


/// The bytes of an ASCII literal, pointwise.
pub(crate) proof fn lemma_ascii_bytes(s: &str)
    requires
        vstd::utf8::is_ascii_chars(s@),
    ensures
        s.spec_bytes().len() == s@.len(),
        forall|i: int| 0 <= i < s@.len() ==> s.spec_bytes()[i] == s@[i] as u8,
{
    vstd::utf8::is_ascii_chars_encode_utf8(s@);
}

/// The four recognized method names are pairwise different byte strings.
pub proof fn lemma_method_names_distinct()
    ensures
        "initialize".spec_bytes() != "ping".spec_bytes(),
        "initialize".spec_bytes() != "tools/call".spec_bytes(),
        "initialize".spec_bytes() != "tools/list".spec_bytes(),
        "ping".spec_bytes() != "tools/call".spec_bytes(),
        "ping".spec_bytes() != "tools/list".spec_bytes(),
        "tools/call".spec_bytes() != "tools/list".spec_bytes(),
{
    reveal_strlit("initialize");
    reveal_strlit("ping");
    reveal_strlit("tools/call");
    reveal_strlit("tools/list");
    lemma_ascii_bytes("initialize");
    lemma_ascii_bytes("ping");
    lemma_ascii_bytes("tools/call");
    lemma_ascii_bytes("tools/list");
    assert("initialize".spec_bytes()[0] == 'i' as u8);
    assert("tools/call".spec_bytes()[0] == 't' as u8);
    assert("tools/call".spec_bytes()[6] == 'c' as u8);
    assert("tools/list".spec_bytes()[6] == 'l' as u8);
    assert("ping".spec_bytes().len() == 4);
    assert("initialize".spec_bytes().len() == 10);
}

/// The two known version tags are different byte strings.
pub proof fn lemma_version_tags_distinct()
    ensures
        "2025-06-18".spec_bytes() != "2025-03-26".spec_bytes(),
{
    reveal_strlit("2025-06-18");
    reveal_strlit("2025-03-26");
    lemma_ascii_bytes("2025-06-18");
    lemma_ascii_bytes("2025-03-26");
    assert("2025-06-18".spec_bytes()[6] == '6' as u8);
    assert("2025-03-26".spec_bytes()[6] == '3' as u8);
}

/// The envelope keys are pairwise different byte strings.
pub proof fn lemma_envelope_keys_distinct()
    ensures
        "jsonrpc".spec_bytes() != "id".spec_bytes(),
        "jsonrpc".spec_bytes() != "result".spec_bytes(),
        "jsonrpc".spec_bytes() != "error".spec_bytes(),
        "id".spec_bytes() != "result".spec_bytes(),
        "id".spec_bytes() != "error".spec_bytes(),
        "result".spec_bytes() != "error".spec_bytes(),
{
    reveal_strlit("jsonrpc");
    reveal_strlit("id");
    reveal_strlit("result");
    reveal_strlit("error");
    lemma_ascii_bytes("jsonrpc");
    lemma_ascii_bytes("id");
    lemma_ascii_bytes("result");
    lemma_ascii_bytes("error");
    assert("jsonrpc".spec_bytes().len() == 7);
    assert("id".spec_bytes().len() == 2);
    assert("result".spec_bytes().len() == 6);
    assert("error".spec_bytes().len() == 5);
}

/// The decimal digits of `n`.
pub open spec fn dec_u(n: nat) -> Seq<u8>
    decreases n,
{
    if n < 10 {
        seq![('0' as u8 + n) as u8]
    } else {
        dec_u(n / 10) + seq![('0' as u8 + n % 10) as u8]
    }
}

/// The decimal form of `n`, with a leading minus sign when negative.
pub open spec fn dec_i(n: int) -> Seq<u8> {
    if n < 0 {
        seq!['-' as u8] + dec_u((-n) as nat)
    } else {
        dec_u(n as nat)
    }
}

fn dec_u64(n: u64) -> (v: Vec<u8>)
    ensures
        v@ == dec_u(n as nat),
    decreases n,
{
    if n < 10 {
        let mut v: Vec<u8> = Vec::new();
        v.push('0' as u8 + n as u8);
        proof {
            assert(v@ =~= dec_u(n as nat));
        }
        v
    } else {
        let mut v = dec_u64(n / 10);
        v.push('0' as u8 + (n % 10) as u8);
        proof {
            assert(v@ =~= dec_u(n as nat));
        }
        v
    }
}

/// The decimal form of `n` as bytes.
pub fn dec_i64(n: i64) -> (v: Vec<u8>)
    ensures
        v@ == dec_i(n as int),
{
    if n < 0 {
        let m: u64 = (-(n as i128)) as u64;
        let mut v: Vec<u8> = Vec::new();
        v.push('-' as u8);
        let mut d = dec_u64(m);
        v.append(&mut d);
        proof {
            assert(v@ =~= dec_i(n as int));
        }
        v
    } else {
        dec_u64(n as u64)
    }
}

} // verus!
