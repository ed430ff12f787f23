use vstd::prelude::*;

use crate::types::{VaultError, MAX_DESCRIPTION_LEN, MAX_NAME_LEN, MAX_NOTES_LEN};

verus! {

/// Descriptive text kept beside a vault: a name, a description and free notes, each held
/// as bytes.
#[derive(Clone, Debug, PartialEq, Eq)]
pub struct VaultNotes {
    pub name: Vec<u8>,
    pub description: Vec<u8>,
    pub notes: Vec<u8>,
}

impl VaultNotes {
    /// Notes with the given texts; the name may hold at most `MAX_NAME_LEN` bytes, the
    /// description `MAX_DESCRIPTION_LEN` and the notes `MAX_NOTES_LEN`.
    pub fn new(name: Vec<u8>, description: Vec<u8>, notes: Vec<u8>) -> (r: Result<
        VaultNotes,
        VaultError,
    >)
        ensures
            r is Ok <==> name@.len() <= MAX_NAME_LEN && description@.len() <= MAX_DESCRIPTION_LEN
                && notes@.len() <= MAX_NOTES_LEN,
            r is Err ==> r == Err::<VaultNotes, VaultError>(VaultError::MetadataTooLong),
            r matches Ok(n) ==> n == (VaultNotes { name, description, notes }),
    {
        if name.len() > MAX_NAME_LEN as usize || description.len() > MAX_DESCRIPTION_LEN as usize
            || notes.len() > MAX_NOTES_LEN as usize {
            return Err(VaultError::MetadataTooLong);
        }
        Ok(VaultNotes { name, description, notes })
    }
}

} // verus!
