//! Principals: opaque identifiers of authenticated callers.
//!
//! A principal is a byte string of at most 29 bytes. The library keeps the
//! bytes in a value of its own, so that equality and the anonymous identity
//! can be reasoned about; the wire form belongs to the `candid` crate.

use vstd::prelude::*;
use vstd::std_specs::cmp::PartialEqSpecImpl;

verus! {

/// The longest byte string that is a principal.
pub const MAX_PRINCIPAL_LEN: usize = 29;

/// The byte string of the anonymous principal.
pub open spec fn anonymous_bytes() -> Seq<u8> {
    seq![4u8]
}

/// An identifier of a caller, owner or collaborator.
///
/// The view is the identifier's significant bytes. Two principals are equal
/// exactly when their views are.
#[derive(Clone, Copy, Debug, Hash)]
pub struct Principal {
    len: u8,
    bytes: [u8; 29],
}

impl View for Principal {
    type V = Seq<u8>;

    closed spec fn view(&self) -> Seq<u8> {
        self.bytes@.subrange(0, self.len as int)
    }
}

/// Asks `candid::Principal::anonymous` for the anonymous principal and copies
/// its significant bytes (`as_slice`). The contract claims that they are the
/// single byte 4, the tag that `candid` stores at index 0 with length 1.
#[verifier::external_body]
fn candid_anonymous_bytes() -> (bytes: Vec<u8>)
    ensures
        bytes@ == anonymous_bytes(),
{
    candid::Principal::anonymous().as_slice().to_vec()
}

impl Principal {
    #[verifier::type_invariant]
    spec fn well_formed(self) -> bool {
        &&& self.len <= 29
        &&& forall|i: int| self.len <= i < 29 ==> self.bytes@[i] == 0
    }

    /// The number of significant bytes, which is never more than 29.
    pub fn len(&self) -> (n: usize)
        ensures
            n == self@.len(),
            n <= MAX_PRINCIPAL_LEN,
    {
        proof {
            use_type_invariant(self);
        }
        self.len as usize
    }

    /// The principal with the given bytes, or `None` when there are more
    /// than 29 of them.
    pub fn from_slice(bytes: &[u8]) -> (r: Option<Principal>)
        ensures
            r is Some <==> bytes@.len() <= MAX_PRINCIPAL_LEN,
            r matches Some(p) ==> p@ == bytes@,
    {
        if bytes.len() > 29 {
            return None;
        }
        let mut buf = [0u8; 29];
        let mut i: usize = 0;
        while i < bytes.len()
            invariant
                i <= bytes.len() <= 29,
                forall|j: int| 0 <= j < i ==> buf@[j] == bytes@[j],
                forall|j: int| i <= j < 29 ==> buf@[j] == 0,
            decreases bytes.len() - i,
        {
            buf[i] = bytes[i];
            i += 1;
        }
        let p = Principal { len: bytes.len() as u8, bytes: buf };
        Some(p)
    }

    /// The significant bytes.
    pub fn to_bytes(&self) -> (r: Vec<u8>)
        ensures
            r@ == self@,
    {
        proof {
            use_type_invariant(self);
        }
        let mut out: Vec<u8> = Vec::new();
        let mut i: usize = 0;
        while i < self.len as usize
            invariant
                self.len <= 29,
                i <= self.len,
                out@ == self.bytes@.subrange(0, i as int),
            decreases self.len - i,
        {
            out.push(self.bytes[i]);
            i += 1;
        }
        out
    }

    /// The identity of a caller that has not authenticated.
    pub fn anonymous() -> (r: Principal)
        ensures
            r@ == anonymous_bytes(),
    {
        let bytes = candid_anonymous_bytes();
        match Principal::from_slice(bytes.as_slice()) {
            Some(p) => p,
            None => {
                assert(false);
                Principal { len: 0, bytes: [0u8; 29] }
            },
        }
    }

    /// Whether this is the anonymous principal.
    pub fn is_anonymous(&self) -> (r: bool)
        ensures
            r == (self@ == anonymous_bytes()),
    {
        let anonymous = Principal::anonymous();
        *self == anonymous
    }
}

impl PartialEq for Principal {
    fn eq(&self, other: &Principal) -> (r: bool) {
        proof {
            use_type_invariant(self);
            use_type_invariant(other);
        }
        if self.len != other.len {
            assert(self@.len() != other@.len());
            return false;
        }
        let mut i: usize = 0;
        while i < self.len as usize
            invariant
                self.len == other.len,
                self.len <= 29,
                i <= self.len,
                forall|j: int| 0 <= j < i ==> self.bytes@[j] == other.bytes@[j],
            decreases self.len - i,
        {
            if self.bytes[i] != other.bytes[i] {
                assert(self@[i as int] != other@[i as int]);
                return false;
            }
            i += 1;
        }
        assert(self@ =~= other@);
        true
    }
}

impl PartialEqSpecImpl for Principal {
    open spec fn obeys_eq_spec() -> bool {
        true
    }

    open spec fn eq_spec(&self, other: &Principal) -> bool {
        self@ == other@
    }
}

impl Eq for Principal {

}

} // verus!
