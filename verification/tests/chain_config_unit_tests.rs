use sovereign_bridge::chain_config::ChainConfigContract;
use sovereign_bridge::config::SovereignConfig;

fn owner() -> Vec<u8> {
    let mut a = b"owner".to_vec();
    a.resize(32, b'_');
    a
}

fn deploy_with(config: SovereignConfig) -> ChainConfigContract {
    ChainConfigContract::init(owner(), Some(config)).ok().expect("deploy")
}

#[test]
fn deploy_chain_config() {
    let config = SovereignConfig::new(0, 1, 0, None);
    let c = deploy_with(config);
    assert_eq!(c.sovereign_config.max_validators, 1);
}

#[test]
fn update_config() {
    let config = SovereignConfig::new(0, 1, 0, None);
    let mut c = deploy_with(config);
    let new_config = SovereignConfig::new(2, 4, 0, None);
    assert!(c.update_sovereign_config_during_setup_phase(&owner(), new_config).is_ok());
}

#[test]
fn update_config_wrong_validators_array() {
    let config = SovereignConfig::new(0, 1, 0, None);
    let mut c = deploy_with(config);
    let new_config = SovereignConfig::new(2, 1, 0, None);
    match c.update_sovereign_config_during_setup_phase(&owner(), new_config) {
        Err(e) => assert_eq!(e.message(), "Invalid validator range"),
        Ok(()) => panic!("an invalid configuration was accepted"),
    }
}

#[test]
fn complete_setup_phase() {
    let config = SovereignConfig::new(0, 1, 0, None);
    let mut c = deploy_with(config);
    assert!(matches!(c.complete_setup_phase(&owner()), Ok(true)));
}
