//! Filmstrip thumbnails: how many a take gets and where they live. A
//! finished set lives in a directory named for the request it answers, so a
//! set decoded at another count or width never answers this one, and its
//! files are numbered from one with three digits.
use vstd::prelude::*;

use crate::text::{
    decimal, lemma_decimal_digits, lemma_decimal_injective, padded, push_decimal, push_padded,
};

verus! {

/// Width in pixels of each thumbnail.
pub const THUMB_WIDTH: u32 = 160;

/// One thumb every ~2s, bounded so short takes still get a strip and long
/// ones stay cheap.
pub fn thumb_count(duration_ns: u64) -> (r: u32)
    ensures
        r == if duration_ns / 2_000_000_000 < 8 {
            8
        } else if duration_ns / 2_000_000_000 > 60 {
            60
        } else {
            duration_ns / 2_000_000_000
        },
{
    let per_two_secs = duration_ns / 2_000_000_000;
    if per_two_secs < 8 {
        8
    } else if per_two_secs > 60 {
        60
    } else {
        per_two_secs as u32
    }
}

/// `{count}x{width}`: the directory of the set answering that request.
pub open spec fn set_name(count: nat, width: nat) -> Seq<char> {
    decimal(count) + "x"@ + decimal(width)
}

pub fn thumb_set_name(count: u32, width: u32) -> (r: String)
    ensures
        r@ == set_name(count as nat, width as nat),
{
    let mut s = String::new();
    push_decimal(&mut s, count as u64);
    s.append("x");
    push_decimal(&mut s, width as u64);
    assert(s@ =~= set_name(count as nat, width as nat));
    s
}

/// `NNN.jpg`: the file of thumbnail `n`, counted from one.
pub open spec fn thumb_name(n: nat) -> Seq<char> {
    padded(n, 3) + ".jpg"@
}

pub fn thumb_file_name(n: u32) -> (r: String)
    ensures
        r@ == thumb_name(n as nat),
{
    let mut s = String::new();
    push_padded(&mut s, n as u64, 3);
    s.append(".jpg");
    assert(s@ =~= thumb_name(n as nat));
    s
}

/// The files a set of `count` thumbnails may hold, in take order.
pub fn thumb_file_names(count: u32) -> (r: Vec<String>)
    ensures
        r@.len() == count,
        forall|i: int| 0 <= i < count ==> #[trigger] r@[i]@ == thumb_name((i + 1) as nat),
{
    let mut names: Vec<String> = Vec::new();
    for i in 0..count
        invariant
            names@.len() == i,
            forall|k: int| 0 <= k < i ==> #[trigger] names@[k]@ == thumb_name((k + 1) as nat),
    {
        names.push(thumb_file_name(i + 1));
    }
    names
}

/// A set directory answers exactly one request: sets decoded at different
/// counts or widths never share a directory name.
pub proof fn law_set_name_identifies_request(c1: nat, w1: nat, c2: nat, w2: nat)
    requires
        set_name(c1, w1) == set_name(c2, w2),
    ensures
        c1 == c2,
        w1 == w2,
{
    reveal_strlit("x");
    let a = decimal(c1);
    let b = decimal(w1);
    let c = decimal(c2);
    let d = decimal(w2);
    let s = set_name(c1, w1);
    lemma_decimal_digits(c1);
    lemma_decimal_digits(w1);
    lemma_decimal_digits(c2);
    lemma_decimal_digits(w2);
    assert(s == a + seq!['x'] + b);
    assert(s == c + seq!['x'] + d);
    if a.len() < c.len() {
        assert(s[a.len() as int] == 'x');
        assert(s[a.len() as int] == c[a.len() as int]);
    } else if c.len() < a.len() {
        assert(s[c.len() as int] == 'x');
        assert(s[c.len() as int] == a[c.len() as int]);
    }
    assert(a =~= s.subrange(0, a.len() as int));
    assert(c =~= s.subrange(0, c.len() as int));
    assert(b =~= s.subrange(a.len() as int + 1, s.len() as int));
    assert(d =~= s.subrange(c.len() as int + 1, s.len() as int));
    lemma_decimal_injective(c1, c2);
    lemma_decimal_injective(w1, w2);
}

} // verus!
