//! Entity tags derived from a stable digest of a value's content.
use vstd::prelude::*;
use std::collections::hash_map::DefaultHasher;
use std::hash::Hasher;
use vstd::std_specs::hash::DefaultHasherAdditionalSpecFns;
use vstd::string::StringExecFns;

verus! {

/// The decimal digit for `d`, which is below ten.
pub open spec fn digit(d: nat) -> char {
    seq!['0', '1', '2', '3', '4', '5', '6', '7', '8', '9'][d as int]
}

/// The decimal text of `n`, without leading zeros.
pub open spec fn decimal(n: nat) -> Seq<char>
    decreases n,
{
    if n < 10 {
        seq![digit(n)]
    } else {
        decimal(n / 10).push(digit(n % 10))
    }
}

/// The text of the strong entity tag that wraps the decimal text of `d`.
pub open spec fn strong_tag(d: u64) -> Seq<char> {
    seq!['"'] + decimal(d as nat) + seq!['"']
}

/// The digest of `content`: what a fresh `DefaultHasher` finishes to after one
/// write of those bytes.
pub open spec fn digest_of(content: Seq<u8>) -> u64 {
    DefaultHasher::spec_finish(seq![content])
}

/// The value of the `ETag` header for content `content`.
pub open spec fn etag_of(content: Seq<u8>) -> Seq<char> {
    strong_tag(digest_of(content))
}

/// Hashes `content` with a fresh `DefaultHasher`.
pub fn digest(content: &Vec<u8>) -> (r: u64)
    ensures
        r == digest_of(content@),
{
    let mut hasher = DefaultHasher::new();
    hasher.write(content.as_slice());
    assert(hasher@ =~= seq![content@]);
    hasher.finish()
}

fn digit_str(d: u64) -> (r: &'static str)
    requires
        d < 10,
    ensures
        r@ == seq![digit(d as nat)],
{
    if d == 0 {
        proof { reveal_strlit("0"); }
        "0"
    } else if d == 1 {
        proof { reveal_strlit("1"); }
        "1"
    } else if d == 2 {
        proof { reveal_strlit("2"); }
        "2"
    } else if d == 3 {
        proof { reveal_strlit("3"); }
        "3"
    } else if d == 4 {
        proof { reveal_strlit("4"); }
        "4"
    } else if d == 5 {
        proof { reveal_strlit("5"); }
        "5"
    } else if d == 6 {
        proof { reveal_strlit("6"); }
        "6"
    } else if d == 7 {
        proof { reveal_strlit("7"); }
        "7"
    } else if d == 8 {
        proof { reveal_strlit("8"); }
        "8"
    } else {
        proof { reveal_strlit("9"); }
        "9"
    }
}

/// Appends the decimal text of `n` to `s`.
pub fn push_decimal(s: &mut String, n: u64)
    ensures
        final(s)@ == old(s)@ + decimal(n as nat),
    decreases n,
{
    if n >= 10 {
        push_decimal(s, n / 10);
    }
    s.append(digit_str(n % 10));
    proof {
        if n >= 10 {
            assert(old(s)@ + decimal((n / 10) as nat) + seq![digit((n % 10) as nat)] =~= old(s)@
                + decimal(n as nat));
        } else {
            assert(n % 10 == n);
        }
    }
}

/// The strong entity tag for digest `d`, as header text.
pub fn strong_entity_tag(d: u64) -> (r: String)
    ensures
        r@ == strong_tag(d),
{
    let mut s = String::from_str("\"");
    push_decimal(&mut s, d);
    s.append("\"");
    proof {
        reveal_strlit("\"");
    }
    s
}

proof fn lemma_decimal_len(n: nat)
    ensures
        decimal(n).len() >= 1,
        n >= 10 ==> decimal(n).len() >= 2,
    decreases n,
{
    if n >= 10 {
        lemma_decimal_len(n / 10);
    }
}

/// Distinct numbers have distinct decimal text.
pub proof fn lemma_decimal_injective(a: nat, b: nat)
    ensures
        decimal(a) == decimal(b) ==> a == b,
    decreases a,
{
    lemma_decimal_len(a);
    lemma_decimal_len(b);
    let da = decimal(a);
    let db = decimal(b);
    if da == db {
        if a < 10 && b < 10 {
            assert(da[0] == db[0]);
            let ds = seq!['0', '1', '2', '3', '4', '5', '6', '7', '8', '9'];
            assert(ds[a as int] == ds[b as int]);
        } else if a >= 10 && b >= 10 {
            assert(da.drop_last() == decimal(a / 10));
            assert(db.drop_last() == decimal(b / 10));
            lemma_decimal_injective(a / 10, b / 10);
            assert(da.last() == db.last());
            let ds = seq!['0', '1', '2', '3', '4', '5', '6', '7', '8', '9'];
            assert(ds[(a % 10) as int] == ds[(b % 10) as int]);
        }
    }
}

/// Distinct digests give distinct entity tags, and equal contents equal ones.
pub proof fn lemma_strong_tag_injective(a: u64, b: u64)
    ensures
        strong_tag(a) == strong_tag(b) <==> a == b,
{
    if strong_tag(a) == strong_tag(b) {
        let la = decimal(a as nat).len() as int;
        let lb = decimal(b as nat).len() as int;
        assert(strong_tag(a).len() == la + 2);
        assert(strong_tag(a).subrange(1, la + 1) =~= decimal(a as nat));
        assert(strong_tag(b).subrange(1, lb + 1) =~= decimal(b as nat));
        lemma_decimal_injective(a as nat, b as nat);
    }
}

} // verus!
