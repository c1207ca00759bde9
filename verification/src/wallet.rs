//! The one decision the wallet helpers make: which HD derivation path a
//! chain prefix selects. Key derivation itself is the signing
//! collaborator's work and stays outside the core.

use vstd::prelude::*;

verus! {

/// Whether two strings hold the same characters.
fn str_eq(a: &str, b: &str) -> (r: bool)
    ensures
        r == (a@ == b@),
{
    let n = a.unicode_len();
    if n != b.unicode_len() {
        assert(a@ != b@) by {
            assert(a@.len() != b@.len());
        }
        return false;
    }
    let mut i: usize = 0;
    while i < n
        invariant
            i <= n,
            n == a@.len(),
            n == b@.len(),
            forall|j: int| 0 <= j < i ==> a@[j] == b@[j],
        decreases n - i,
    {
        if a.get_char(i) != b.get_char(i) {
            assert(a@ != b@) by {
                assert(a@[i as int] != b@[i as int]);
            }
            return false;
        }
        i += 1;
    }
    proof {
        assert(a@ =~= b@);
    }
    true
}

/// The HD wallet derivation path that a chain's address prefix selects:
/// `cosmos` and `und` have known paths, any other prefix has none.
pub fn hd_path_for_prefix(prefix: &str) -> (r: Option<&str>)
    ensures
        match r {
            Some(p) => (prefix@ == "cosmos"@ && p@ == "m/44'/118'/0'/0/0"@) || (prefix@ == "und"@
                && p@ == "m/44'/5555'/0'/0/0"@),
            None => prefix@ != "cosmos"@ && prefix@ != "und"@,
        },
{
    if str_eq(prefix, "cosmos") {
        Some("m/44'/118'/0'/0/0")
    } else if str_eq(prefix, "und") {
        Some("m/44'/5555'/0'/0/0")
    } else {
        None
    }
}

} // verus!
