//! The database handle: its settings, and the vaults it keeps in memory.

use crate::models::Vault;
use crate::pool::PoolConfig;
use crate::sql::{SqlView, Statement, StatementView};
use crate::vaults::{create_vault_store, looked_up, VaultStore};
use vstd::prelude::*;

verus! {

/// The database handle. Its methods make the statements to run and read the answers.
pub struct Db {
    pub pool_config: PoolConfig,
    /// The vaults that are kept in memory.
    pub vault_store: VaultStore,
}

/// How to connect to the database.
#[derive(Debug)]
pub struct Connect {
    pub path: String,
    /// How long to wait for a busy database, in seconds.
    pub busy_timeout_secs: u64,
}

pub const CONNECTIVITY_SQL: &'static str = "SELECT 1";

impl Db {
    /// A handle with the standard settings, and how to connect it to the database at `path`.
    pub fn open(path: &str) -> (opened: (Db, Connect))
        ensures
            opened.0.pool_config == PoolConfig::standard(),
            opened.0.vault_store@ == Map::<Seq<char>, Vault>::empty(),
            opened.0.vault_store.values() == Seq::<Vault>::empty(),
            opened.1.path@ == path@,
            opened.1.busy_timeout_secs == 30,
    {
        Db::open_with_pool_config(path, &PoolConfig::default())
    }

    /// A handle with the given settings, and how to connect it to the database at `path`.
    pub fn open_with_pool_config(path: &str, config: &PoolConfig) -> (opened: (Db, Connect))
        ensures
            opened.0.pool_config == *config,
            opened.0.vault_store@ == Map::<Seq<char>, Vault>::empty(),
            opened.0.vault_store.values() == Seq::<Vault>::empty(),
            opened.1.path@ == path@,
            opened.1.busy_timeout_secs == config.timeout_secs,
    {
        (
            Db { pool_config: *config, vault_store: create_vault_store() },
            Connect { path: path.to_owned(), busy_timeout_secs: config.timeout_secs as u64 },
        )
    }

    /// Keeps a vault in memory under its id, in place of an earlier one.
    pub fn insert_vault(&mut self, vault: Vault)
        ensures
            final(self).vault_store.extends(old(self).vault_store, vault.id@, vault),
            final(self).pool_config == old(self).pool_config,
    {
        let key: String = vault.id.clone();
        self.vault_store.insert(key, vault);
    }

    /// The vault that is kept in memory under an id.
    pub fn get_vault(&self, vault_id: &str) -> (vault: Option<Vault>)
        ensures
            vault == looked_up(self.vault_store@, vault_id@),
    {
        match self.vault_store.get(vault_id) {
            Some(vault) => Some(vault.clone()),
            None => None,
        }
    }

    /// The statement that shows whether the database answers.
    pub fn check_connectivity(&self) -> (statement: Statement)
        ensures
            statement@ == (StatementView { sql: CONNECTIVITY_SQL@, params: Seq::empty() }),
    {
        let statement: Statement = Statement {
            sql: CONNECTIVITY_SQL.to_owned(),
            params: Vec::new(),
        };
        assert(statement@.params =~= Seq::<SqlView>::empty());
        statement
    }
}

} // verus!
