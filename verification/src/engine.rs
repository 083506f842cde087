//! The decision layer of the engine interface.
//!
//! The engine itself is a ledger simulator, an outside service that cannot
//! be driven from verified code here, so the interface is split: this type
//! fixes, as verified functions over plain values, everything the interface
//! decides on its own — the genesis settings of a fresh session, the shape
//! and constants of each transaction it submits, the timestamp arithmetic
//! of time advancement, and how the engine's answers are folded into
//! results — while the unverified glue performs the engine calls and hands
//! the answers back. Methods that decide nothing (plain state reads such as
//! balances, metadata and epoch queries) live wholly in that glue.

use vstd::prelude::*;

use crate::identifier::Identifier;

verus! {

/// Settings a fresh simulation session is created with.
#[derive(Clone, Copy, Debug)]
pub struct GenesisSettings {
    /// The epoch the ledger starts in.
    pub initial_epoch: u64,
    /// Whether the kernel traces execution.
    pub kernel_trace: bool,
}

/// How a new account is created.
#[derive(Clone, Copy, Debug)]
pub struct AccountCreation {
    /// Whether the account address is pre-allocated.
    pub preallocated: bool,
}

/// The shape of the transaction that publishes a compiled package.
#[derive(Clone, Debug)]
pub struct PackagePublication {
    /// The package's compiled code.
    pub code: Vec<u8>,
    /// The fee is locked from the faucet.
    pub lock_fee_from_faucet: bool,
    /// The package is published without an owner.
    pub owner_none: bool,
    /// No metadata is attached beyond the defaults.
    pub with_extra_metadata: bool,
}

/// How a manifest is turned into a transaction.
#[derive(Clone, Copy, Debug)]
pub struct ManifestExecution {
    /// The nonce the transaction is built from.
    pub nonce: u32,
    /// Whether the kernel traces this execution.
    pub kernel_trace: bool,
}

/// The shape of a new fungible resource.
#[derive(Clone, Copy, Debug)]
pub struct FungibleCreation {
    /// The divisibility of the resource.
    pub divisibility: u8,
}

/// One round advancement to a proposer timestamp.
#[derive(Clone, Copy, Debug)]
pub struct TimeAdvance {
    /// The round to advance to.
    pub round: u64,
    /// The proposer timestamp, in milliseconds since the Unix epoch.
    pub proposer_timestamp_ms: i64,
}

/// The fixed shape of the system transaction that materializes a token at a
/// pre-allocated address: one create-with-initial-supply call on the
/// fungible resource manager using the address reservation, then one
/// deposit of the whole worktop into the funding account.
#[derive(Clone, Debug)]
pub struct PreAllocatedTokenPlan {
    /// The divisibility of the created resource.
    pub divisibility: u8,
    /// Whether the total supply is tracked.
    pub track_total_supply: bool,
    /// The resource is created without an owner.
    pub owner_none: bool,
    /// The index of the address reservation the creation call uses.
    pub reservation_index: u8,
    /// The account method the created supply is deposited through.
    pub deposit_method: String,
    /// The deposit takes the entire worktop.
    pub deposit_entire_worktop: bool,
}

/// The verified decision layer over the ledger-simulation engine.
///
/// Test suites use it through the surrounding glue, which owns the
/// simulator: each method here states exactly what is to be done, and the
/// glue does it.
pub struct EngineInterface {
    /// The settings this session was created with.
    pub genesis: GenesisSettings,
}

impl EngineInterface {
    /// Opens a session: the ledger starts in epoch 1 and the kernel does
    /// not trace.
    pub fn new() -> (r: EngineInterface)
        ensures
            r.genesis.initial_epoch == 1,
            !r.genesis.kernel_trace,
    {
        EngineInterface {
            genesis: GenesisSettings { initial_epoch: 1, kernel_trace: false },
        }
    }

    /// A new account is an ordinary one, not pre-allocated.
    pub fn new_account(&self) -> (r: AccountCreation)
        ensures
            !r.preallocated,
    {
        AccountCreation { preallocated: false }
    }

    /// Publishing a compiled package locks the fee from the faucet and
    /// publishes the code with no owner and no extra metadata. The package
    /// definition accompanies the code unchanged through the glue.
    pub fn publish_compiled_package(&self, code: Vec<u8>) -> (r: PackagePublication)
        ensures
            r.code@ == code@,
            r.lock_fee_from_faucet,
            r.owner_none,
            !r.with_extra_metadata,
    {
        PackagePublication {
            code,
            lock_fee_from_faucet: true,
            owner_none: true,
            with_extra_metadata: false,
        }
    }

    /// Executing a manifest builds a test transaction from the engine's
    /// next nonce and traces the kernel exactly when asked to.
    pub fn execute_manifest(&self, nonce: u32, with_trace: bool) -> (r: ManifestExecution)
        ensures
            r.nonce == nonce,
            r.kernel_trace == with_trace,
    {
        ManifestExecution { nonce, kernel_trace: with_trace }
    }

    /// Folds the engine's answers into the list of non-fungible ids held
    /// by an account: no vault, or a vault that is not a non-fungible
    /// vault, yields the empty list; otherwise the inspected ids are the
    /// result.
    pub fn nft_ids(&self, vault_found: bool, inspected: Option<Vec<Identifier>>) -> (r: Vec<
        Identifier,
    >)
        ensures
            !vault_found ==> r@.len() == 0,
            inspected is None ==> r@.len() == 0,
            vault_found ==> (inspected matches Some(ids) ==> r@ == ids@),
    {
        if !vault_found {
            return Vec::new();
        }
        match inspected {
            None => Vec::new(),
            Some(ids) => ids,
        }
    }

    /// A new fungible resource has divisibility 18.
    pub fn new_fungible(&self) -> (r: FungibleCreation)
        ensures
            r.divisibility == 18,
    {
        FungibleCreation { divisibility: 18 }
    }

    /// Advancing time by `delta_seconds` moves round 1 to the proposer
    /// timestamp `(current + delta) * 1000` milliseconds; a target outside
    /// the signed 64-bit range is reported as `None` rather than computed
    /// wrongly.
    pub fn advance_time(&self, current_seconds: i64, delta_seconds: u64) -> (r: Option<TimeAdvance>)
        ensures
            ({
                let target = (current_seconds + delta_seconds) * 1000;
                if i64::MIN <= target <= i64::MAX {
                    r matches Some(a) && a.round == 1 && a.proposer_timestamp_ms == target
                } else {
                    r is None
                }
            }),
    {
        let sum: i128 = current_seconds as i128 + delta_seconds as i128;
        let target: i128 = sum * 1000;
        if i64::MIN as i128 <= target && target <= i64::MAX as i128 {
            Some(TimeAdvance { round: 1, proposer_timestamp_ms: target as i64 })
        } else {
            None
        }
    }

    /// The plan for materializing a token at a pre-allocated address: a
    /// create-with-initial-supply call with no owner, divisibility 18 and
    /// untracked total supply against reservation 0, then a deposit of the
    /// entire worktop through `deposit_batch`.
    pub fn create_pre_allocated_token(&self) -> (r: PreAllocatedTokenPlan)
        ensures
            r.divisibility == 18,
            !r.track_total_supply,
            r.owner_none,
            r.reservation_index == 0,
            r.deposit_method@ == "deposit_batch"@,
            r.deposit_entire_worktop,
    {
        PreAllocatedTokenPlan {
            divisibility: 18,
            track_total_supply: false,
            owner_none: true,
            reservation_index: 0,
            deposit_method: "deposit_batch".to_owned(),
            deposit_entire_worktop: true,
        }
    }
}

} // verus!
