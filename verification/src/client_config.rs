//! The client configuration: the keystore, the known network environments,
//! and which environment and address are active.
use vstd::prelude::*;

use crate::base_types::IotaAddress;

verus! {

/// URL of the RPC server of the development network.
pub const IOTA_DEVNET_URL: &'static str = "https://api.devnet.iota.cafe";

/// URL of the RPC server of the test network.
pub const IOTA_TESTNET_URL: &'static str = "https://api.testnet.iota.cafe";

/// URL of the RPC server of a local network.
pub const IOTA_LOCAL_NETWORK_URL: &'static str = "http://127.0.0.1:9000";

/// The keys the client manages; the configuration reads their addresses.
#[derive(Clone, Debug, PartialEq, Eq)]
pub struct Keystore {
    pub addresses: Vec<IotaAddress>,
}

impl Keystore {
    /// The managed addresses.
    pub fn addresses(&self) -> (r: &Vec<IotaAddress>)
        ensures
            r@ == self.addresses@,
    {
        &self.addresses
    }
}

/// A network environment: its alias, RPC URL and optional websocket URL.
#[derive(Clone, Debug, PartialEq, Eq)]
pub struct IotaEnv {
    pub alias: String,
    pub rpc: String,
    pub ws: Option<String>,
}

/// The client configuration.
#[derive(Clone, Debug, PartialEq, Eq)]
pub struct IotaClientConfig {
    pub keystore: Keystore,
    pub envs: Vec<IotaEnv>,
    pub active_env: Option<String>,
    pub active_address: Option<IotaAddress>,
}

/// Why a configuration cannot give its active environment.
#[derive(Clone, Debug, PartialEq, Eq)]
pub enum ClientConfigError {
    /// No environment has the active alias (or, with no active alias, there
    /// is no environment at all). `env` is the active alias, or "None".
    EnvNotFound { env: String },
}

/// The position of the first environment whose alias is `alias`.
pub open spec fn env_position(envs: Seq<IotaEnv>, alias: Seq<char>) -> Option<int>
    decreases envs.len(),
{
    if envs.len() == 0 {
        None
    } else if envs[0].alias@ == alias {
        Some(0)
    } else {
        match env_position(envs.drop_first(), alias) {
            Some(i) => Some(i + 1),
            None => None,
        }
    }
}

/// Some environment has the alias.
pub open spec fn has_alias(envs: Seq<IotaEnv>, alias: Seq<char>) -> bool {
    exists|i: int| 0 <= i < envs.len() && #[trigger] envs[i].alias@ == alias
}

/// No alias occurs twice.
pub open spec fn aliases_unique(envs: Seq<IotaEnv>) -> bool {
    forall|i: int, j: int| 0 <= i < j < envs.len() ==> envs[i].alias@ != envs[j].alias@
}

/// The environment that `get_env` selects: the first with the alias, or the
/// first of all when no alias is given.
pub open spec fn selected_env(envs: Seq<IotaEnv>, alias: Option<String>) -> Option<IotaEnv> {
    match alias {
        Some(a) => match env_position(envs, a@) {
            Some(i) => Some(envs[i]),
            None => None,
        },
        None => if envs.len() > 0 {
            Some(envs[0])
        } else {
            None
        },
    }
}

/// What `env_position` finds: an environment with the alias, before which none has it.
pub proof fn lemma_env_position(envs: Seq<IotaEnv>, alias: Seq<char>)
    ensures
        env_position(envs, alias) matches Some(i) ==> 0 <= i < envs.len() && envs[i].alias@
            == alias && forall|j: int| 0 <= j < i ==> envs[j].alias@ != alias,
        env_position(envs, alias) is None <==> !has_alias(envs, alias),
    decreases envs.len(),
{
    if envs.len() > 0 {
        lemma_env_position(envs.drop_first(), alias);
        if envs[0].alias@ != alias {
            if has_alias(envs, alias) {
                let k = choose|k: int| 0 <= k < envs.len() && #[trigger] envs[k].alias@ == alias;
                assert(envs.drop_first()[k - 1].alias@ == alias);
            }
            if let Some(i) = env_position(envs, alias) {
                assert forall|j: int| 0 <= j < i implies envs[j].alias@ != alias by {
                    if j > 0 {
                        assert(envs[j] == envs.drop_first()[j - 1]);
                    }
                }
            }
            if has_alias(envs.drop_first(), alias) {
                let k = choose|k: int|
                    0 <= k < envs.drop_first().len() && #[trigger] envs.drop_first()[k].alias@
                        == alias;
                assert(envs[k + 1].alias@ == alias);
            }
        }
    }
}

/// The message of a configuration error.
pub open spec fn spec_error_message(e: ClientConfigError) -> Seq<char> {
    match e {
        ClientConfigError::EnvNotFound { env } => "Environment configuration not found for env ["@
            + env@ + "]"@,
    }
}

impl ClientConfigError {
    /// The message of the error.
    pub fn to_display_string(&self) -> (r: String)
        ensures
            r@ == spec_error_message(*self),
    {
        match self {
            ClientConfigError::EnvNotFound { env } => {
                let mut s = String::from_str("Environment configuration not found for env [");
                s.append(env.as_str());
                s.append("]");
                s
            },
        }
    }
}

/// Compares two strings.
fn str_eq(a: &String, b: &String) -> (r: bool)
    ensures
        r == (a@ == b@),
{
    <String as PartialEq>::eq(a, b)
}

impl IotaClientConfig {
    /// A configuration with the keystore and no environment, no active
    /// environment and no active address.
    pub fn new(keystore: Keystore) -> (r: Self)
        ensures
            r.keystore == keystore,
            r.envs@ == Seq::<IotaEnv>::empty(),
            r.active_env is None,
            r.active_address is None,
    {
        IotaClientConfig { keystore, envs: Vec::new(), active_env: None, active_address: None }
    }

    /// The first environment with the alias; with no alias, the first
    /// environment.
    pub fn get_env(&self, alias: &Option<String>) -> (r: Option<&IotaEnv>)
        ensures
            match r {
                Some(e) => selected_env(self.envs@, *alias) == Some(*e),
                None => selected_env(self.envs@, *alias) is None,
            },
    {
        match alias {
            Some(a) => {
                let mut i: usize = 0;
                assert(self.envs@.skip(0) =~= self.envs@);
                while i < self.envs.len()
                    invariant
                        i <= self.envs@.len(),
                        *alias == Some(*a),
                        env_position(self.envs@, a@) == match env_position(
                            self.envs@.skip(i as int),
                            a@,
                        ) {
                            Some(k) => Some(k + i),
                            None => None,
                        },
                    decreases self.envs@.len() - i,
                {
                    proof {
                        assert(self.envs@.skip(i as int).drop_first() =~= self.envs@.skip(
                            i + 1,
                        ));
                    }
                    if str_eq(&self.envs[i].alias, a) {
                        proof {
                            assert(self.envs@.skip(i as int)[0] == self.envs@[i as int]);
                        }
                        return Some(&self.envs[i]);
                    }
                    i = i + 1;
                }
                proof {
                    assert(self.envs@.skip(i as int).len() == 0);
                }
                None
            },
            None => {
                if self.envs.len() > 0 {
                    Some(&self.envs[0])
                } else {
                    None
                }
            },
        }
    }

    /// The active environment, or an error naming the active alias.
    pub fn get_active_env(&self) -> (r: Result<&IotaEnv, ClientConfigError>)
        ensures
            match r {
                Ok(e) => selected_env(self.envs@, self.active_env) == Some(*e),
                Err(ClientConfigError::EnvNotFound { env }) => selected_env(
                    self.envs@,
                    self.active_env,
                ) is None && env@ == match self.active_env {
                    Some(a) => a@,
                    None => "None"@,
                },
            },
    {
        match self.get_env(&self.active_env) {
            Some(e) => Ok(e),
            None => {
                let env = match &self.active_env {
                    Some(a) => a.clone(),
                    None => String::from_str("None"),
                };
                Err(ClientConfigError::EnvNotFound { env })
            },
        }
    }

    /// Adds the environment unless one with the same alias exists.
    pub fn add_env(&mut self, env: IotaEnv)
        ensures
            has_alias(old(self).envs@, env.alias@) ==> final(self).envs@ == old(self).envs@,
            !has_alias(old(self).envs@, env.alias@) ==> final(self).envs@ == old(
                self,
            ).envs@.push(env),
            final(self).keystore == old(self).keystore,
            final(self).active_env == old(self).active_env,
            final(self).active_address == old(self).active_address,
    {
        let mut i: usize = 0;
        let mut found = false;
        while i < self.envs.len()
            invariant
                i <= self.envs@.len(),
                !found ==> forall|j: int| 0 <= j < i ==> self.envs@[j].alias@ != env.alias@,
                found ==> has_alias(self.envs@, env.alias@),
            decreases self.envs@.len() - i,
        {
            if str_eq(&self.envs[i].alias, &env.alias) {
                found = true;
            }
            i = i + 1;
        }
        if !found {
            self.envs.push(env);
        }
    }
}

/// Adding an environment keeps the aliases unique, and afterwards the
/// environment with its alias is found.
pub proof fn lemma_add_env_unique(old_envs: Seq<IotaEnv>, new_envs: Seq<IotaEnv>, env: IotaEnv)
    requires
        aliases_unique(old_envs),
        has_alias(old_envs, env.alias@) ==> new_envs == old_envs,
        !has_alias(old_envs, env.alias@) ==> new_envs == old_envs.push(env),
    ensures
        aliases_unique(new_envs),
        has_alias(new_envs, env.alias@),
        !has_alias(old_envs, env.alias@) ==> selected_env(new_envs, Some(env.alias)) == Some(env),
{
    lemma_env_position(new_envs, env.alias@);
    if !has_alias(old_envs, env.alias@) {
        assert(new_envs[old_envs.len() as int] == env);
        assert forall|i: int, j: int| 0 <= i < j < new_envs.len() implies new_envs[i].alias@
            != new_envs[j].alias@ by {
            if j == old_envs.len() {
                assert(new_envs[i] == old_envs[i]);
            }
        }
        let p = env_position(new_envs, env.alias@).unwrap();
        if p < old_envs.len() {
            assert(old_envs[p].alias@ == env.alias@);
        }
    }
}

impl IotaEnv {
    /// The development network.
    pub fn devnet() -> (r: Self)
        ensures
            r.alias@ == "devnet"@,
            r.rpc@ == IOTA_DEVNET_URL@,
            r.ws is None,
    {
        IotaEnv { alias: String::from_str("devnet"), rpc: String::from_str(IOTA_DEVNET_URL), ws: None }
    }

    /// The test network.
    pub fn testnet() -> (r: Self)
        ensures
            r.alias@ == "testnet"@,
            r.rpc@ == IOTA_TESTNET_URL@,
            r.ws is None,
    {
        IotaEnv {
            alias: String::from_str("testnet"),
            rpc: String::from_str(IOTA_TESTNET_URL),
            ws: None,
        }
    }

    /// A local network.
    pub fn localnet() -> (r: Self)
        ensures
            r.alias@ == "local"@,
            r.rpc@ == IOTA_LOCAL_NETWORK_URL@,
            r.ws is None,
    {
        IotaEnv {
            alias: String::from_str("local"),
            rpc: String::from_str(IOTA_LOCAL_NETWORK_URL),
            ws: None,
        }
    }

    /// A description of the environment: its alias, RPC URL and, if any,
    /// websocket URL, one per line.
    pub fn to_display_string(&self) -> (r: String)
        ensures
            r@ == "Active environment: "@ + self.alias@ + "\nRPC URL: "@ + self.rpc@ + match self.ws {
                Some(ws) => "\nWebsocket URL: "@ + ws@,
                None => Seq::<char>::empty(),
            },
    {
        let mut s = String::from_str("Active environment: ");
        s.append(self.alias.as_str());
        s.append("\nRPC URL: ");
        s.append(self.rpc.as_str());
        if let Some(ws) = &self.ws {
            s.append("\nWebsocket URL: ");
            s.append(ws.as_str());
        }
        proof {
            assert(s@ =~= "Active environment: "@ + self.alias@ + "\nRPC URL: "@ + self.rpc@
                + match self.ws {
                Some(ws) => "\nWebsocket URL: "@ + ws@,
                None => Seq::<char>::empty(),
            });
        }
        s
    }
}

} // verus!
