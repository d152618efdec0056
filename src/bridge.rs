//! The on-chain state machine: bridge configuration and its administration,
//! the replay guard, and the mint (inbound) and burn (outbound) paths.
use vstd::prelude::*;
use crate::keys::{find_key, keys_equal, Pubkey};

verus! {

/// Most validators a bridge can register.
pub const MAX_VALIDATORS: usize = 100;

/// Why a bridge operation was refused. A refused operation changes nothing.
#[derive(Clone, Copy, Debug, PartialEq, Eq, Structural)]
pub enum BridgeError {
    BridgeInactive,
    Unauthorized,
    InvalidProof,
    InsufficientSignatures,
    SignatureInvalid,
    AlreadyProcessed,
    InvalidAmount,
    ValidatorExists,
    ValidatorNotFound,
    ValidatorLimitReached,
    InsufficientFunds,
    Overflow,
    MalformedEvent,
}

/// The bridge's configuration: its administrator, the remote chain, the
/// registered validators with the quorum they must reach, the active flag on both
/// transfer paths and the outbound nonce.
#[derive(Clone, Debug)]
pub struct BridgeState {
    pub authority: Pubkey,
    pub bnb_chain_id: u64,
    pub validator_threshold: u8,
    pub is_active: bool,
    pub authority_bump: u8,
    pub bump: u8,
    pub nonce: u64,
    pub validators: Vec<Pubkey>,
}

impl BridgeState {
    /// Validators are distinct and within the capacity.
    pub open spec fn wf(&self) -> bool {
        &&& self.validators@.no_duplicates()
        &&& self.validators@.len() <= MAX_VALIDATORS
    }

    pub open spec fn validator_set(&self) -> Set<Pubkey> {
        self.validators@.to_set()
    }

    /// Every field but the validator list is the same in `self` and `o`.
    pub open spec fn same_config(&self, o: &BridgeState) -> bool {
        &&& self.authority == o.authority
        &&& self.bnb_chain_id == o.bnb_chain_id
        &&& self.validator_threshold == o.validator_threshold
        &&& self.is_active == o.is_active
        &&& self.authority_bump == o.authority_bump
        &&& self.bump == o.bump
        &&& self.nonce == o.nonce
    }
}

/// Creates the bridge state: `authority` administers it, it starts active with
/// nonce zero and no validators.
pub fn initialize(
    authority: Pubkey,
    bnb_chain_id: u64,
    validator_threshold: u8,
    bump: u8,
    authority_bump: u8,
) -> (r: BridgeState)
    ensures
        r.wf(),
        r.authority == authority,
        r.bnb_chain_id == bnb_chain_id,
        r.validator_threshold == validator_threshold,
        r.is_active,
        r.bump == bump,
        r.authority_bump == authority_bump,
        r.nonce == 0,
        r.validators@ == Seq::<Pubkey>::empty(),
{
    BridgeState {
        authority,
        bnb_chain_id,
        validator_threshold,
        is_active: true,
        authority_bump,
        bump,
        nonce: 0,
        validators: Vec::new(),
    }
}

/// Registers `validator`; only the authority may. A validator already
/// registered is refused with `ValidatorExists`, and a full set with
/// `ValidatorLimitReached`.
pub fn add_validator(bridge: &mut BridgeState, signer: &Pubkey, validator: Pubkey) -> (r: Result<(), BridgeError>)
    requires
        old(bridge).wf(),
    ensures
        final(bridge).wf(),
        *signer != old(bridge).authority ==> r == Err::<(), BridgeError>(BridgeError::Unauthorized),
        *signer == old(bridge).authority && old(bridge).validators@.contains(validator) ==> r == Err::<
            (),
            BridgeError,
        >(BridgeError::ValidatorExists),
        *signer == old(bridge).authority && !old(bridge).validators@.contains(validator)
            && old(bridge).validators@.len() == MAX_VALIDATORS ==> r == Err::<(), BridgeError>(
            BridgeError::ValidatorLimitReached,
        ),
        *signer == old(bridge).authority && !old(bridge).validators@.contains(validator)
            && old(bridge).validators@.len() < MAX_VALIDATORS ==> r is Ok,
        r is Ok ==> final(bridge).validators@ == old(bridge).validators@.push(validator)
            && final(bridge).same_config(old(bridge)),
        r is Err ==> *final(bridge) == *old(bridge),
{
    if !keys_equal(signer, &bridge.authority) {
        return Err(BridgeError::Unauthorized);
    }
    if find_key(&bridge.validators, &validator).is_some() {
        return Err(BridgeError::ValidatorExists);
    }
    if bridge.validators.len() >= MAX_VALIDATORS {
        return Err(BridgeError::ValidatorLimitReached);
    }
    bridge.validators.push(validator);
    Ok(())
}

/// Deregisters `validator`; only the authority may. Removing a validator that
/// is not registered succeeds and changes nothing.
pub fn remove_validator(bridge: &mut BridgeState, signer: &Pubkey, validator: Pubkey) -> (r: Result<(), BridgeError>)
    requires
        old(bridge).wf(),
    ensures
        final(bridge).wf(),
        r is Err <==> *signer != old(bridge).authority,
        r is Err ==> r == Err::<(), BridgeError>(BridgeError::Unauthorized) && *final(bridge) == *old(
            bridge,
        ),
        r is Ok ==> final(bridge).validator_set() == old(bridge).validator_set().remove(validator)
            && final(bridge).same_config(old(bridge)),
        r is Ok && !old(bridge).validators@.contains(validator) ==> *final(bridge) == *old(bridge),
{
    if !keys_equal(signer, &bridge.authority) {
        return Err(BridgeError::Unauthorized);
    }
    match find_key(&bridge.validators, &validator) {
        None => {
            assert(bridge.validator_set() =~= bridge.validator_set().remove(validator));
            Ok(())
        },
        Some(i) => {
            let ghost before = bridge.validators@;
            bridge.validators.remove(i);
            proof {
                let after = bridge.validators@;
                assert(after =~= before.remove(i as int));
                assert(after.no_duplicates()) by {
                    assert forall|a: int, b: int|
                        0 <= a < after.len() && 0 <= b < after.len() && a != b implies #[trigger] after[a]
                        != #[trigger] after[b] by {
                        let a0 = if a < i { a } else { a + 1 };
                        let b0 = if b < i { b } else { b + 1 };
                        assert(after[a] == before[a0] && after[b] == before[b0]);
                    }
                };
                assert(after.to_set() =~= before.to_set().remove(validator)) by {
                    assert forall|v: Pubkey| #[trigger] after.to_set().contains(v) <==> before.to_set().remove(
                        validator,
                    ).contains(v) by {
                        if after.contains(v) {
                            let k = choose|k: int| 0 <= k < after.len() && after[k] == v;
                            let k0 = if k < i { k } else { k + 1 };
                            assert(before[k0] == v && k0 != i);
                        }
                        if v != validator && before.contains(v) {
                            let k = choose|k: int| 0 <= k < before.len() && before[k] == v;
                            assert(k != i);
                            let k1 = if k < i { k } else { k - 1 };
                            assert(after[k1] == v);
                        }
                    }
                };
            }
            Ok(())
        },
    }
}

/// Opens or closes the active flag on both transfer paths; only the authority may.
pub fn set_bridge_active(bridge: &mut BridgeState, signer: &Pubkey, is_active: bool) -> (r: Result<(), BridgeError>)
    ensures
        r is Err <==> *signer != old(bridge).authority,
        r is Err ==> r == Err::<(), BridgeError>(BridgeError::Unauthorized) && *final(bridge) == *old(
            bridge,
        ),
        r is Ok ==> final(bridge).is_active == is_active && final(bridge).validators@ == old(
            bridge,
        ).validators@ && final(bridge).authority == old(bridge).authority && final(bridge).nonce
            == old(bridge).nonce && final(bridge).validator_threshold == old(bridge).validator_threshold
            && final(bridge).bnb_chain_id == old(bridge).bnb_chain_id && final(bridge).bump == old(
            bridge,
        ).bump && final(bridge).authority_bump == old(bridge).authority_bump,
{
    if !keys_equal(signer, &bridge.authority) {
        return Err(BridgeError::Unauthorized);
    }
    bridge.is_active = is_active;
    Ok(())
}

} // verus!
