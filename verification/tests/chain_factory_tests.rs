use sovereign_bridge::chain_factory::{ChainFactoryContract, FactoryCall};
use sovereign_bridge::config::SovereignConfig;

fn address(name: &str) -> Vec<u8> {
    let mut a = name.as_bytes().to_vec();
    a.resize(32, b'_');
    a
}

fn deploy_chain_factory() -> ChainFactoryContract {
    ChainFactoryContract::init(
        address("owner"),
        address("sovereign-forge"),
        address("chain-config"),
        address("header-verifier"),
        address("esdt-safe"),
        address("fee-market"),
        [true; 5],
    )
    .ok()
    .expect("deploy")
}

#[test]
fn test_deploy() {
    let factory = deploy_chain_factory();
    assert!(factory.is_admin(&address("sovereign-forge")));
    assert_eq!(factory.chain_config_template, address("chain-config"));
}

#[test]
fn test_deploy_chain_config_from_factory() {
    let factory = deploy_chain_factory();
    let call = factory
        .deploy_sovereign_chain_config_contract(&address("sovereign-forge"), None)
        .ok()
        .expect("deploy chain config");
    match call {
        FactoryCall::DeployChainConfig { source, opt_sovereign_config } => {
            assert_eq!(source, address("chain-config"));
            assert!(opt_sovereign_config.is_none());
        },
        _ => panic!("another call was planned"),
    }
}

#[test]
fn deploy() {
    let factory = deploy_chain_factory();
    assert_eq!(factory.header_verifier_template, address("header-verifier"));
}

#[test]
fn deploy_chain_config_from_factory() {
    let factory = deploy_chain_factory();
    let config = SovereignConfig::new(0, 1, 0, None);
    let call = factory
        .deploy_sovereign_chain_config_contract(&address("sovereign-forge"), Some(config))
        .ok()
        .expect("deploy chain config");
    match call {
        FactoryCall::DeployChainConfig { opt_sovereign_config: Some(c), .. } => {
            assert_eq!(c.min_validators, 0);
            assert_eq!(c.max_validators, 1);
        },
        _ => panic!("another call was planned"),
    }
}
