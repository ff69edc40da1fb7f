use iota_logic::base_types::IotaAddress;
use iota_logic::client_config::{
    ClientConfigError, IotaClientConfig, IotaEnv, Keystore, IOTA_DEVNET_URL,
    IOTA_LOCAL_NETWORK_URL, IOTA_TESTNET_URL,
};

fn config() -> IotaClientConfig {
    IotaClientConfig::new(Keystore { addresses: vec![IotaAddress([1; 32])] })
}

#[test]
fn new_config_has_no_environment() {
    let c = config();
    assert!(c.envs.is_empty());
    assert_eq!(c.active_env, None);
    assert_eq!(c.active_address, None);
    assert_eq!(c.keystore.addresses(), &vec![IotaAddress([1; 32])]);
    assert_eq!(
        c.get_active_env(),
        Err(ClientConfigError::EnvNotFound { env: "None".to_string() })
    );
}

#[test]
fn well_known_environments() {
    assert_eq!(IotaEnv::devnet().rpc, IOTA_DEVNET_URL);
    assert_eq!(IotaEnv::testnet().alias, "testnet");
    assert_eq!(IotaEnv::testnet().rpc, IOTA_TESTNET_URL);
    let local = IotaEnv::localnet();
    assert_eq!(local.alias, "local");
    assert_eq!(local.rpc, IOTA_LOCAL_NETWORK_URL);
    assert_eq!(local.ws, None);
}

#[test]
fn add_env_keeps_the_first_of_an_alias() {
    let mut c = config();
    c.add_env(IotaEnv::devnet());
    c.add_env(IotaEnv::localnet());
    c.add_env(IotaEnv { alias: "devnet".to_string(), rpc: "http://other".to_string(), ws: None });
    assert_eq!(c.envs.len(), 2);
    assert_eq!(c.get_env(&Some("devnet".to_string())).unwrap().rpc, IOTA_DEVNET_URL);
    assert_eq!(c.get_env(&Some("local".to_string())).unwrap().rpc, IOTA_LOCAL_NETWORK_URL);
    assert!(c.get_env(&Some("mainnet".to_string())).is_none());
    assert_eq!(c.get_env(&None).unwrap().alias, "devnet");
}

#[test]
fn active_env_is_looked_up_by_alias() {
    let mut c = config();
    c.add_env(IotaEnv::devnet());
    c.add_env(IotaEnv::testnet());
    assert_eq!(c.get_active_env().unwrap().alias, "devnet");
    c.active_env = Some("testnet".to_string());
    assert_eq!(c.get_active_env().unwrap().rpc, IOTA_TESTNET_URL);
    c.active_env = Some("mainnet".to_string());
    assert_eq!(
        c.get_active_env(),
        Err(ClientConfigError::EnvNotFound { env: "mainnet".to_string() })
    );
    assert_eq!(
        c.get_active_env().unwrap_err().to_display_string(),
        "Environment configuration not found for env [mainnet]"
    );
}

#[test]
fn environment_description() {
    let env = IotaEnv { alias: "x".to_string(), rpc: "http://r".to_string(), ws: Some("ws://w".to_string()) };
    assert_eq!(
        env.to_display_string(),
        "Active environment: x\nRPC URL: http://r\nWebsocket URL: ws://w"
    );
    assert_eq!(
        IotaEnv::localnet().to_display_string(),
        "Active environment: local\nRPC URL: http://127.0.0.1:9000"
    );
}
