//! Byte-string utilities: comparison, prefix tests, decimal rendering,
//! and the composite child-key convention `parent ++ "_" ++ counter`.

use vstd::prelude::*;

verus! {

/// The byte of the ASCII underscore, the separator of composite keys.
pub const KEY_SEPARATOR: u8 = 95;

/// `p` is an initial segment of `k`.
pub open spec fn is_prefix_of(p: Seq<u8>, k: Seq<u8>) -> bool {
    p.len() <= k.len() && k.subrange(0, p.len() as int) == p
}

/// The decimal digits of `n`, most significant first, as ASCII bytes.
pub open spec fn dec_digits(n: nat) -> Seq<u8>
    decreases n,
{
    if n < 10 {
        seq![(48 + n) as u8]
    } else {
        dec_digits(n / 10).push((48 + n % 10) as u8)
    }
}

/// The composite key under which a child record of `parent` with counter
/// `n` is stored: `parent ++ "_" ++ decimal(n)`.
pub open spec fn child_key_view(parent: Seq<u8>, n: nat) -> Seq<u8> {
    parent + seq![KEY_SEPARATOR] + dec_digits(n)
}

/// The prefix shared by every child key of `parent`: the parent key
/// followed by one underscore.
pub open spec fn child_prefix_view(parent: Seq<u8>) -> Seq<u8> {
    parent + seq![KEY_SEPARATOR]
}

/// Whether two byte strings hold the same bytes.
pub fn bytes_eq(a: &[u8], b: &[u8]) -> (r: bool)
    ensures
        r == (a@ == b@),
{
    if a.len() != b.len() {
        return false;
    }
    let mut i: usize = 0;
    while i < a.len()
        invariant
            0 <= i <= a@.len(),
            a@.len() == b@.len(),
            forall|j: int| 0 <= j < i ==> a@[j] == b@[j],
        decreases a@.len() - i,
    {
        if a[i] != b[i] {
            return false;
        }
        i = i + 1;
    }
    proof {
        assert(a@ =~= b@);
    }
    true
}

/// Whether `key` starts with `prefix`.
pub fn has_prefix(key: &[u8], prefix: &[u8]) -> (r: bool)
    ensures
        r == is_prefix_of(prefix@, key@),
{
    if key.len() < prefix.len() {
        return false;
    }
    let mut i: usize = 0;
    while i < prefix.len()
        invariant
            0 <= i <= prefix@.len(),
            prefix@.len() <= key@.len(),
            forall|j: int| 0 <= j < i ==> key@[j] == prefix@[j],
        decreases prefix@.len() - i,
    {
        if key[i] != prefix[i] {
            proof {
                assert(key@.subrange(0, prefix@.len() as int)[i as int] == key@[i as int]);
            }
            return false;
        }
        i = i + 1;
    }
    proof {
        assert(key@.subrange(0, prefix@.len() as int) =~= prefix@);
    }
    true
}

/// The decimal rendering of `n`, most significant digit first.
pub fn u64_to_dec(n: u64) -> (r: Vec<u8>)
    ensures
        r@ == dec_digits(n as nat),
    decreases n,
{
    if n < 10 {
        let mut v: Vec<u8> = Vec::new();
        v.push(48 + n as u8);
        proof {
            assert(v@ =~= dec_digits(n as nat));
        }
        v
    } else {
        let mut v = u64_to_dec(n / 10);
        v.push(48 + (n % 10) as u8);
        v
    }
}

/// Builds the composite key of a child record: the parent key, one
/// underscore, then the counter in decimal.
pub fn child_key(parent: &[u8], counter: u64) -> (r: Vec<u8>)
    ensures
        r@ == child_key_view(parent@, counter as nat),
{
    let mut r = vstd::slice::slice_to_vec(parent);
    r.push(KEY_SEPARATOR);
    let mut d = u64_to_dec(counter);
    r.append(&mut d);
    proof {
        assert(r@ =~= child_key_view(parent@, counter as nat));
    }
    r
}

/// Builds the prefix shared by every child key of `parent`.
pub fn child_prefix(parent: &[u8]) -> (r: Vec<u8>)
    ensures
        r@ == child_prefix_view(parent@),
{
    let mut r = vstd::slice::slice_to_vec(parent);
    r.push(KEY_SEPARATOR);
    proof {
        assert(r@ =~= child_prefix_view(parent@));
    }
    r
}

/// Every child key of `parent` starts with `parent ++ "_"`, so a prefix
/// scan with that prefix finds every child record.
pub proof fn lemma_child_key_has_parent_prefix(parent: Seq<u8>, n: nat)
    ensures
        is_prefix_of(child_prefix_view(parent), child_key_view(parent, n)),
{
    assert(child_key_view(parent, n).subrange(0, parent.len() as int + 1) =~= parent
        + seq![KEY_SEPARATOR]);
}

} // verus!
