use vstd::prelude::*;

use crate::errors::HubError;
use crate::identity::IdentityDirectory;
use crate::numerals::is_dec_string;
use crate::numerals::parse_usize;
use crate::numerals::val_of;

verus! {

/// The access gate of the hub. A credential is the caller's user id rendered
/// in decimal — nothing is signed or verified beyond existence — and it is
/// accepted exactly when that id names a registered user. Nothing is
/// mutated: an unrecognized credential is reported as `Unauthorized` and
/// that is all.
pub fn authenticate(directory: &IdentityDirectory, credential: &str) -> (r: Result<
    usize,
    HubError,
>)
    ensures
        (r is Ok) <==> (is_dec_string(credential@) && val_of(credential@) < directory@.len()),
        r matches Ok(id) ==> id as nat == val_of(credential@),
        r is Err ==> r == Err::<usize, HubError>(HubError::Unauthorized),
{
    let known = directory.user_count();
    match parse_usize(credential) {
        Some(id) => {
            if id < known {
                Ok(id)
            } else {
                Err(HubError::Unauthorized)
            }
        },
        None => Err(HubError::Unauthorized),
    }
}

} // verus!
