use vstd::prelude::*;
use crate::bytes::{bytes_eq, copy_bytes};
use crate::errors::BridgeError;
use multiversx_sc::chain_core::types::CodeMetadata;

verus! {

/// Code-metadata bits that a deployed bridge carries: payable by contracts,
/// upgradeable and readable (0x0004 | 0x0100 | 0x0400).
pub open spec fn bridge_code_metadata() -> u16 {
    0x0504
}

/// The code-metadata flags of a bridge deployment, combined by the protocol's
/// own flag type (`multiversx_chain_core::types::CodeMetadata`). Its source
/// defines `PAYABLE_BY_SC` as 0x0004, `UPGRADEABLE` as 0x0100 and `READABLE`
/// as 0x0400; the contract states their union.
#[verifier::external_body]
fn payable_upgradeable_readable() -> (r: u16)
    ensures
        r == bridge_code_metadata(),
{
    (CodeMetadata::PAYABLE_BY_SC | CodeMetadata::UPGRADEABLE | CodeMetadata::READABLE).bits()
}

/// The constructor call of a bridge contract: how many signers a valid
/// signature needs, and the signers.
pub struct BridgeProxy {
    pub min_valid_signers: u32,
    pub signers: Vec<Vec<u8>>,
}

/// Deployment of a bridge contract: its code, the flags it is deployed with,
/// and its constructor call.
pub struct BridgeDeployment {
    pub code: Vec<u8>,
    pub code_metadata: u16,
    pub init: BridgeProxy,
}

/// The Chain-Config module that deploys one bridge contract and remembers it.
pub struct BridgeModule {
    pub owner: Vec<u8>,
    pub bridge_address: Option<Vec<u8>>,
}

impl BridgeModule {
    /// Plans the bridge's deployment (owner only, once).
    pub fn deploy_bridge(&self, caller: &Vec<u8>, code: Vec<u8>, min_valid_signers: u32, signers: Vec<Vec<u8>>) -> (r: Result<BridgeDeployment, BridgeError>)
        ensures
            caller@ != self.owner@ ==> r == Err::<BridgeDeployment, BridgeError>(BridgeError::OnlyOwner),
            caller@ == self.owner@ && self.bridge_address is Some
                ==> r == Err::<BridgeDeployment, BridgeError>(BridgeError::BridgeAlreadyDeployed),
            caller@ == self.owner@ && self.bridge_address is None ==> r is Ok && ({
                let d = r->Ok_0;
                &&& d.code@ == code@
                &&& d.code_metadata == bridge_code_metadata()
                &&& d.init.min_valid_signers == min_valid_signers
                &&& d.init.signers == signers
            }),
    {
        if !bytes_eq(caller, &self.owner) {
            return Err(BridgeError::OnlyOwner);
        }
        if self.bridge_address.is_some() {
            return Err(BridgeError::BridgeAlreadyDeployed);
        }
        Ok(BridgeDeployment { code, code_metadata: payable_upgradeable_readable(), init: BridgeProxy { min_valid_signers, signers } })
    }

    /// Records the address of the bridge just deployed.
    pub fn bridge_deployed(&mut self, address: &Vec<u8>)
        ensures
            final(self).bridge_address matches Some(a) && a@ == address@,
            final(self).owner == old(self).owner,
    {
        self.bridge_address = Some(copy_bytes(address));
    }
}

} // verus!
