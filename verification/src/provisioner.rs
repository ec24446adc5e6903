//! Storage provisioning: whether the target account has to be created before
//! the digest is written, and with what.
//!
//! The accounts of a call belong to the host. The processor reads two facts
//! of each, held in [`AccountState`], and never creates an account itself: it
//! asks the host to, in two steps. A [`Provision`] says which account is
//! missing and how large it must be; the host looks up the balance that keeps
//! an account of that size exempt from rent, and [`Provision::fund`] turns the
//! two into the [`CreateAccount`] request that the host hands to its system
//! program. [`CreateAccount::settle`] is what the call makes of the answer.
use crate::error::ProcessError;
use vstd::prelude::*;

verus! {

/// What the processor reads of an account: its address, whether it signed the
/// transaction, and how many bytes of data it holds. An account without data
/// does not exist yet.
#[derive(Debug, Clone, Copy, PartialEq, Eq)]
pub struct AccountState {
    pub key: [u8; 32],
    pub is_signer: bool,
    pub data_len: usize,
}

/// An account that has to be created: `target`, with `space` bytes of data,
/// owned by `owner` and paid for by `payer`.
#[derive(Debug, Clone, Copy, PartialEq, Eq)]
pub struct Provision {
    pub payer: [u8; 32],
    pub target: [u8; 32],
    pub space: usize,
    pub owner: [u8; 32],
}

/// The request to the host's system program: create `to` with `space` zeroed
/// bytes, owned by `owner`, and move `lamports` from `from` into it.
#[derive(Debug, Clone, Copy, PartialEq, Eq)]
pub struct CreateAccount {
    pub from: [u8; 32],
    pub to: [u8; 32],
    pub lamports: u64,
    pub space: u64,
    pub owner: [u8; 32],
}

/// The provisioner's decision. A target that holds data is left as it is,
/// whoever pays. An empty one is created at exactly `required_len` bytes for
/// `owner`, which takes a payer who signed.
pub open spec fn spec_ensure_provisioned(
    target: AccountState,
    payer: AccountState,
    owner: [u8; 32],
    required_len: usize,
) -> Result<Option<Provision>, ProcessError> {
    if target.data_len != 0 {
        Ok(None)
    } else if !payer.is_signer {
        Err(ProcessError::MissingRequiredSignature)
    } else {
        Ok(Some(Provision { payer: payer.key, target: target.key, space: required_len, owner }))
    }
}

/// Decides whether `target` has to be created to hold `required_len` bytes.
/// `Ok(None)`: it exists already, and nothing is asked of the host.
/// `Ok(Some(..))`: the host has to create it as described.
pub fn ensure_provisioned(
    target: &AccountState,
    payer: &AccountState,
    owner: &[u8; 32],
    required_len: usize,
) -> (r: Result<Option<Provision>, ProcessError>)
    ensures
        r == spec_ensure_provisioned(*target, *payer, *owner, required_len),
{
    if target.data_len != 0 {
        Ok(None)
    } else if !payer.is_signer {
        Err(ProcessError::MissingRequiredSignature)
    } else {
        Ok(Some(Provision { payer: payer.key, target: target.key, space: required_len, owner: *owner }))
    }
}

impl Provision {
    /// The creation request for this account, funded with `minimum_balance`:
    /// the balance that the host's rent schedule gives for `self.space` bytes.
    pub fn fund(&self, minimum_balance: u64) -> (request: CreateAccount)
        ensures
            request == (CreateAccount {
                from: self.payer,
                to: self.target,
                lamports: minimum_balance,
                space: self.space as u64,
                owner: self.owner,
            }),
    {
        CreateAccount {
            from: self.payer,
            to: self.target,
            lamports: minimum_balance,
            space: self.space as u64,
            owner: self.owner,
        }
    }
}

impl CreateAccount {
    /// What the call makes of the host's answer to this request: it goes on
    /// where the account was created, and ends with `CreationRejected` where
    /// it was not. A rejected creation is not tried again.
    pub fn settle(&self, created: bool) -> (r: Result<(), ProcessError>)
        ensures
            r == if created {
                Ok::<(), ProcessError>(())
            } else {
                Err(ProcessError::CreationRejected)
            },
    {
        if created {
            Ok(())
        } else {
            Err(ProcessError::CreationRejected)
        }
    }
}

} // verus!
