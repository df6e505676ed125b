//! Which keys of a certificate are RSA keys.
use vstd::prelude::*;

verus! {

/// The arcs of the object identifier `rsaEncryption`, 1.2.840.113549.1.1.1.
pub open spec fn rsa_encryption() -> Seq<u32> {
    seq![1u32, 2u32, 840u32, 113549u32, 1u32, 1u32, 1u32]
}

/// Whether `arcs` are the arcs of `rsaEncryption`: the algorithm of a key
/// that is an RSA key.
pub fn is_rsa(arcs: &[u32]) -> (r: bool)
    ensures
        r == (arcs@ == rsa_encryption()),
{
    let r = arcs.len() == 7 && arcs[0] == 1 && arcs[1] == 2 && arcs[2] == 840 && arcs[3] == 113549
        && arcs[4] == 1 && arcs[5] == 1 && arcs[6] == 1;
    proof {
        if r {
            assert(arcs@ =~= rsa_encryption());
        } else if arcs.len() == 7 {
            assert(rsa_encryption()[0] == 1 && rsa_encryption()[1] == 2 && rsa_encryption()[2]
                == 840 && rsa_encryption()[3] == 113549 && rsa_encryption()[4] == 1
                && rsa_encryption()[5] == 1 && rsa_encryption()[6] == 1);
        } else {
            assert(rsa_encryption().len() == 7);
        }
    }
    r
}

} // verus!
