use vstd::prelude::*;
use crate::text::{chars_of, trim, trim_bounds};

verus! {

/// The password settings of a new user.
#[allow(non_snake_case)]
#[derive(Clone, Debug)]
pub struct PasswordProfile {
    pub forceChangePasswordNextSignIn: bool,
    pub password: String,
}

/// One sign-in identity of a new user.
#[allow(non_snake_case)]
#[derive(Clone, Debug)]
pub struct Identity {
    pub signInType: String,
    pub issuer: String,
    pub issuerAssignedId: String,
}

/// Whether `s` holds nothing but whitespace; such a value stands for an
/// empty list of identities.
pub fn is_blank(s: &str) -> (r: bool)
    ensures
        r == (trim(s@).len() == 0),
{
    let v = chars_of(s);
    let (a, b) = trim_bounds(&v, 0, v.len());
    assert(v@.subrange(0, v@.len() as int) =~= v@);
    a == b
}

/// The key that log lines of a record carry: the id assigned by the issuer of
/// its first identity, or nothing when it has none.
pub fn correlation_key(identities: &Vec<Identity>) -> (r: String)
    ensures
        identities@.len() > 0 ==> r@ == identities@[0].issuerAssignedId@,
        identities@.len() == 0 ==> r@ == Seq::<char>::empty(),
{
    if identities.len() > 0 {
        identities[0].issuerAssignedId.clone()
    } else {
        String::new()
    }
}

} // verus!
