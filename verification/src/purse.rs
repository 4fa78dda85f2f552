//! Purses and transfers, as far as a program needs them: the operations by
//! which the host creates a purse and moves an amount, and a mathematical
//! account of what they do.

use crate::host::{Exit, HostState};
use crate::value::{PublicKey, PurseId, U512};
use vstd::prelude::*;

verus! {

/// How a transfer between two purses ended.
#[derive(Clone, Copy, Debug, PartialEq, Eq, Structural)]
pub enum PurseTransferResult {
    TransferSuccessful,
    TransferError,
}

/// How a transfer to an account ended.
#[derive(Clone, Copy, Debug, PartialEq, Eq, Structural)]
pub enum TransferResult {
    TransferredToExistingAccount,
    TransferredToNewAccount,
    TransferError,
}

/// Where a transfer goes.
#[derive(Clone, Copy, Debug, PartialEq, Eq)]
pub enum Target {
    Purse(PurseId),
    Account(PublicKey),
}

/// A transfer that the host carried out.
#[derive(Clone, Copy, Debug, PartialEq, Eq)]
pub struct Transfer {
    pub source: PurseId,
    pub target: Target,
    pub amount: U512,
}

/// What the host keeps about purses for one execution.
pub struct PurseState {
    /// The main purse of the account that runs the execution.
    pub main: PurseId,
    /// The purses created so far, in order.
    pub created: Seq<PurseId>,
    /// The purse that the host hands out when as many purses as the argument
    /// says were created before.
    pub mint: spec_fn(int) -> PurseId,
    /// Whether the host lets the amount leave the purse.
    pub solvent: spec_fn(PurseId, U512) -> bool,
    /// The accounts that exist.
    pub accounts: Set<PublicKey>,
    /// The transfers carried out so far, in order.
    pub transfers: Seq<Transfer>,
}

/// Creating a purse: the host hands out the next purse and records it.
pub open spec fn create_purse_step(p: PurseState) -> (PurseState, PurseId) {
    let purse = (p.mint)(p.created.len() as int);
    (PurseState { created: p.created.push(purse), ..p }, purse)
}

/// Moving an amount from purse to purse: carried out and recorded where the
/// host lets the amount leave the source.
pub open spec fn purse_transfer_step(
    p: PurseState,
    source: PurseId,
    target: PurseId,
    amount: U512,
) -> (PurseState, PurseTransferResult) {
    if (p.solvent)(source, amount) {
        (
            PurseState {
                transfers: p.transfers.push(
                    Transfer { source, target: Target::Purse(target), amount },
                ),
                ..p
            },
            PurseTransferResult::TransferSuccessful,
        )
    } else {
        (p, PurseTransferResult::TransferError)
    }
}

/// Moving an amount to an account: carried out and recorded where the host
/// lets the amount leave the source; an account that did not exist comes
/// into being.
pub open spec fn account_transfer_step(
    p: PurseState,
    source: PurseId,
    target: PublicKey,
    amount: U512,
) -> (PurseState, TransferResult) {
    if (p.solvent)(source, amount) {
        (
            PurseState {
                accounts: p.accounts.insert(target),
                transfers: p.transfers.push(
                    Transfer { source, target: Target::Account(target), amount },
                ),
                ..p
            },
            if p.accounts.contains(target) {
                TransferResult::TransferredToExistingAccount
            } else {
                TransferResult::TransferredToNewAccount
            },
        )
    } else {
        (p, TransferResult::TransferError)
    }
}

/// Asking for the main purse.
pub open spec fn main_purse_reply(s: HostState) -> Result<PurseId, Exit> {
    match s.exit {
        Some(x) => Err(x),
        None => Ok(s.purses.main),
    }
}

/// Creating a purse, while the execution runs.
pub open spec fn create_purse_host_step(s: HostState) -> (HostState, Result<PurseId, Exit>) {
    match s.exit {
        Some(x) => (s, Err(x)),
        None => (
            HostState { purses: create_purse_step(s.purses).0, ..s },
            Ok(create_purse_step(s.purses).1),
        ),
    }
}

/// Moving an amount from purse to purse, while the execution runs.
pub open spec fn purse_transfer_host_step(
    s: HostState,
    source: PurseId,
    target: PurseId,
    amount: U512,
) -> (HostState, Result<PurseTransferResult, Exit>) {
    match s.exit {
        Some(x) => (s, Err(x)),
        None => (
            HostState { purses: purse_transfer_step(s.purses, source, target, amount).0, ..s },
            Ok(purse_transfer_step(s.purses, source, target, amount).1),
        ),
    }
}

/// Moving an amount to an account, while the execution runs.
pub open spec fn account_transfer_host_step(
    s: HostState,
    source: PurseId,
    target: PublicKey,
    amount: U512,
) -> (HostState, Result<TransferResult, Exit>) {
    match s.exit {
        Some(x) => (s, Err(x)),
        None => (
            HostState { purses: account_transfer_step(s.purses, source, target, amount).0, ..s },
            Ok(account_transfer_step(s.purses, source, target, amount).1),
        ),
    }
}

} // verus!
