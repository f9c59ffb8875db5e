use sovereign_bridge::chain_factory::{
    ChainFactoryContract, ContractInfo, ContractMapArgs, FactoryCall, FactoryError, ScArray,
};
use sovereign_bridge::errors::BridgeError;

fn address(name: &str) -> Vec<u8> {
    let mut a = name.as_bytes().to_vec();
    a.resize(32, b'_');
    a
}

fn factory() -> ChainFactoryContract {
    ChainFactoryContract::init(
        address("owner"),
        address("sovereign-forge"),
        address("chain-config"),
        address("header-verifier"),
        address("esdt-safe"),
        address("fee-market"),
        [true; 5],
    )
    .ok()
    .expect("deploy")
}

fn with_contracts(chain_id: &str, contracts: Vec<ContractInfo>) -> ChainFactoryContract {
    let mut f = factory();
    f.all_deployed_contracts.insert(
        address("creator"),
        ContractMapArgs { chain_id: chain_id.as_bytes().to_vec(), contracts_info: contracts },
    );
    f
}

#[test]
fn lookup_without_contracts_names_the_chain() {
    let f = factory();
    match f.get_contract_address(&address("creator"), &b"sov1".to_vec(), ScArray::ChainConfig) {
        Err(e) => {
            assert!(matches!(&e, FactoryError::NoRegisteredContracts { chain_id } if chain_id == b"sov1"));
            assert_eq!(e.message_bytes(), b"There are no registered contracts in the sov1 chain".to_vec());
        },
        Ok(_) => panic!("a lookup without contracts succeeded"),
    }
}

#[test]
fn lookup_of_a_missing_kind_names_its_number() {
    let f = with_contracts("sov1", vec![ContractInfo { id: ScArray::FeeMarket, address: address("fee") }]);
    match f.get_contract_address(&address("creator"), &b"sov1".to_vec(), ScArray::ChainConfig) {
        Err(e) => assert_eq!(e.message_bytes(), b"The contract with 6 id was not deployed".to_vec()),
        Ok(_) => panic!("a missing contract was found"),
    }
    assert_eq!(
        f.get_contract_address(&address("creator"), &b"other".to_vec(), ScArray::FeeMarket).ok(),
        Some(address("fee"))
    );
}

#[test]
fn contracts_of_another_chain_are_refused_with_its_name() {
    let f = with_contracts("sov1", vec![ContractInfo { id: ScArray::ChainConfig, address: address("cc") }]);
    match f.is_contract_registered(&address("creator"), &b"sov2".to_vec(), ScArray::ChainConfig) {
        Err(e) => assert_eq!(
            e.message_bytes(),
            b"There are no registered contracts by the caller it the sov2 chain".to_vec()
        ),
        Ok(_) => panic!("another chain was accepted"),
    }
    assert_eq!(f.is_contract_registered(&address("creator"), &b"sov1".to_vec(), ScArray::ChainConfig).ok(), Some(true));
    assert_eq!(f.is_contract_registered(&address("creator"), &b"sov1".to_vec(), ScArray::Slashing).ok(), Some(false));
    assert_eq!(f.is_contract_registered(&address("nobody"), &b"sov1".to_vec(), ScArray::Slashing).ok(), Some(false));
}

#[test]
fn bls_key_count_is_checked_against_the_chain_config() {
    let f = with_contracts("sov1", vec![ContractInfo { id: ScArray::ChainConfig, address: address("cc") }]);
    assert!(f.require_bls_keys_in_range(&address("creator"), &b"sov1".to_vec(), 3, 1, 5).is_ok());
    match f.require_bls_keys_in_range(&address("creator"), &b"sov1".to_vec(), 5, 1, 5) {
        Err(e) => {
            assert!(matches!(e, FactoryError::Refused(BridgeError::InvalidNumberOfBlsKeys)));
            assert_eq!(e.message_bytes(), b"The number of validator BLS Keys is not correct".to_vec());
        },
        Ok(()) => panic!("a count at the maximum was accepted"),
    }
    let zero = with_contracts("sov1", vec![ContractInfo { id: ScArray::ChainConfig, address: vec![0u8; 32] }]);
    assert!(matches!(
        zero.require_bls_keys_in_range(&address("creator"), &b"sov1".to_vec(), 3, 1, 5),
        Err(FactoryError::Refused(BridgeError::ChainConfigNotDeployed))
    ));
}

#[test]
fn deployed_fee_market_address_goes_to_its_esdt_safe() {
    let f = factory();
    let deployment = f
        .deploy_fee_market(&address("sovereign-forge"), address("esdt-safe-1"), None)
        .ok()
        .expect("deploy fee market");
    match ChainFactoryContract::fee_market_deployed(&deployment, address("new-fee-market")) {
        FactoryCall::SetFeeMarketAddress { to, fee_market_address } => {
            assert_eq!(to, address("esdt-safe-1"));
            assert_eq!(fee_market_address, address("new-fee-market"));
        },
        _ => panic!("another call was planned"),
    }
}
