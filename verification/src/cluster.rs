//! Which block explorer view a cluster URL belongs to.

use vstd::prelude::*;
use vstd::string::StringSliceAdditionalSpecFns;

verus! {

/// `needle` occurs in `hay` at some position.
pub open spec fn occurs_in(hay: Seq<u8>, needle: Seq<u8>) -> bool {
    exists|i: int|
        0 <= i && i + needle.len() <= hay.len() && #[trigger] hay.subrange(i, i + needle.len())
            == needle
}

/// `needle` occurs in `hay` at position `at`.
fn occurs_at(hay: &[u8], needle: &[u8], at: usize) -> (r: bool)
    requires
        at + needle@.len() <= hay@.len(),
        hay@.len() == hay.len(),
    ensures
        r == (hay@.subrange(at as int, at + needle@.len()) == needle@),
{
    let mut j: usize = 0;
    while j < needle.len()
        invariant
            at + needle@.len() <= hay@.len(),
            hay@.len() == hay.len(),
            0 <= j <= needle@.len(),
            forall|k: int| 0 <= k < j ==> hay@[at + k] == needle@[k],
        decreases needle@.len() - j,
    {
        if hay[at + j] != needle[j] {
            assert(hay@.subrange(at as int, at + needle@.len())[j as int] != needle@[j as int]);
            return false;
        }
        j += 1;
    }
    assert(hay@.subrange(at as int, at + needle@.len()) =~= needle@);
    true
}

/// Whether `needle` occurs anywhere in `hay`.
pub fn contains_bytes(hay: &[u8], needle: &[u8]) -> (r: bool)
    ensures
        r == occurs_in(hay@, needle@),
{
    if needle.len() > hay.len() {
        return false;
    }
    let last = hay.len() - needle.len();
    let mut at: usize = 0;
    loop
        invariant
            last + needle@.len() == hay@.len(),
            hay@.len() == hay.len(),
            0 <= at <= last,
            forall|i: int|
                0 <= i < at ==> #[trigger] hay@.subrange(i, i + needle@.len()) != needle@,
        decreases last - at,
    {
        if occurs_at(hay, needle, at) {
            return true;
        }
        if at == last {
            return false;
        }
        at += 1;
    }
}

/// The explorer suffix for a cluster URL: devnet, testnet, a local
/// validator, or none for mainnet, checked in that order.
pub open spec fn explorer_suffix_for(url: Seq<u8>) -> Seq<char> {
    if occurs_in(url, "devnet".spec_bytes()) {
        "?cluster=devnet"@
    } else if occurs_in(url, "testnet".spec_bytes()) {
        "?cluster=testnet"@
    } else if occurs_in(url, "127.0.0.1".spec_bytes()) || occurs_in(url, "localhost".spec_bytes()) {
        "?cluster=custom"@
    } else {
        ""@
    }
}

/// What to append to an explorer link so it opens on the cluster at `url`.
pub fn explorer_suffix(url: &str) -> (suffix: &'static str)
    ensures
        suffix@ == explorer_suffix_for(url.spec_bytes()),
{
    let bytes = url.as_bytes();
    if contains_bytes(bytes, "devnet".as_bytes()) {
        "?cluster=devnet"
    } else if contains_bytes(bytes, "testnet".as_bytes()) {
        "?cluster=testnet"
    } else if contains_bytes(bytes, "127.0.0.1".as_bytes()) || contains_bytes(
        bytes,
        "localhost".as_bytes(),
    ) {
        "?cluster=custom"
    } else {
        ""
    }
}

} // verus!
