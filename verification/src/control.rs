use vstd::prelude::*;

use crate::account::AccountId;
use crate::types::VaultError;

verus! {

/// Contract-wide administration: the admin, an admin proposed to take over, and whether
/// the contract is paused.
pub struct Control {
    pub admin: Option<AccountId>,
    pub pending_admin: Option<AccountId>,
    pub paused: bool,
}

/// Whether `caller` is the admin that `admin` names.
pub open spec fn is_admin(admin: Option<AccountId>, caller: Seq<u8>) -> bool {
    match admin {
        Some(a) => a@ == caller,
        None => false,
    }
}

impl Control {
    /// A contract administered by `admin`, not paused, with no admin proposed.
    pub fn new(admin: AccountId) -> (r: Control)
        ensures
            r.admin == Some(admin),
            r.pending_admin is None,
            !r.paused,
    {
        Control { admin: Some(admin), pending_admin: None, paused: false }
    }

    /// Succeeds exactly when `caller` is the admin.
    pub fn require_admin(&self, caller: &AccountId) -> (r: Result<(), VaultError>)
        ensures
            r is Ok <==> is_admin(self.admin, caller@),
            r is Err ==> r == Err::<(), VaultError>(VaultError::NotAdmin),
    {
        match &self.admin {
            Some(a) => {
                if a.same(caller) {
                    Ok(())
                } else {
                    Err(VaultError::NotAdmin)
                }
            },
            None => Err(VaultError::NotAdmin),
        }
    }

    /// Succeeds exactly when the contract is not paused; state changes call it first.
    pub fn require_active(&self) -> (r: Result<(), VaultError>)
        ensures
            r is Ok <==> !self.paused,
            r is Err ==> r == Err::<(), VaultError>(VaultError::ContractPaused),
    {
        if self.paused {
            Err(VaultError::ContractPaused)
        } else {
            Ok(())
        }
    }

    /// The admin proposes `new_admin` to take over; nothing changes until it accepts.
    pub fn propose_admin(&mut self, caller: &AccountId, new_admin: AccountId) -> (r: Result<
        (),
        VaultError,
    >)
        ensures
            r is Ok <==> is_admin(old(self).admin, caller@),
            r is Err ==> r == Err::<(), VaultError>(VaultError::NotAdmin) && *final(self) == *old(
                self,
            ),
            r is Ok ==> *final(self) == (Control { pending_admin: Some(new_admin), ..*old(self) }),
    {
        self.require_admin(caller)?;
        self.pending_admin = Some(new_admin);
        Ok(())
    }

    /// The proposed admin accepts and becomes the admin.
    pub fn accept_admin(&mut self, caller: &AccountId) -> (r: Result<(), VaultError>)
        ensures
            r is Ok <==> is_admin(old(self).pending_admin, caller@),
            r is Err ==> r == Err::<(), VaultError>(VaultError::NotPendingAdmin) && *final(self)
                == *old(self),
            r is Ok ==> *final(self) == (Control {
                admin: old(self).pending_admin,
                pending_admin: None,
                ..*old(self)
            }),
    {
        let accepted = match &self.pending_admin {
            Some(p) => p.same(caller),
            None => false,
        };
        if !accepted {
            return Err(VaultError::NotPendingAdmin);
        }
        let pending = self.pending_admin.take();
        self.admin = pending;
        Ok(())
    }

    /// The admin pauses (`paused`) or unpauses (`!paused`) the contract.
    pub fn set_paused(&mut self, caller: &AccountId, paused: bool) -> (r: Result<(), VaultError>)
        ensures
            r is Ok <==> is_admin(old(self).admin, caller@),
            r is Err ==> r == Err::<(), VaultError>(VaultError::NotAdmin) && *final(self) == *old(
                self,
            ),
            r is Ok ==> *final(self) == (Control { paused: paused, ..*old(self) }),
    {
        self.require_admin(caller)?;
        self.paused = paused;
        Ok(())
    }
}

/// Whether a vault may hold `token`: the contract's default token always may, any other
/// token only once whitelisted.
pub fn token_allowed(token: &AccountId, default_token: &AccountId, whitelisted: bool) -> (r: bool)
    ensures
        r == (token@ == default_token@ || whitelisted),
{
    token.same(default_token) || whitelisted
}

} // verus!
