//! Settings of the enrichment.

use crate::text_map::TextMap;
use vstd::prelude::*;

verus! {

/// One named account.
#[derive(Debug)]
pub struct AntAccount {
    /// Program and arguments that print the account's key. The key itself is never kept.
    pub admin_key_command: Vec<String>,
}

impl Default for AntAccount {
    fn default() -> (r: Self)
        ensures
            r.admin_key_command@.len() == 0,
    {
        AntAccount { admin_key_command: Vec::new() }
    }
}

/// The enrichment's section of the configuration.
#[derive(Debug)]
pub struct AntConfig {
    /// Off unless the user turns it on.
    pub enabled: bool,
    /// Name of the profile to fetch with; empty for the default one.
    pub profile: String,
    /// Accounts by label.
    pub accounts: TextMap<AntAccount>,
    /// Age from which the usage cache counts as stale.
    pub usage_stale_after: String,
    /// Age from which the models cache counts as stale.
    pub models_stale_after: String,
}

impl Default for AntConfig {
    fn default() -> (r: Self)
        ensures
            !r.enabled,
            r.profile@ == Seq::<char>::empty(),
            r.accounts@ == Map::<Seq<char>, AntAccount>::empty(),
            r.usage_stale_after@ == "30m"@,
            r.models_stale_after@ == "48h"@,
    {
        AntConfig {
            enabled: false,
            profile: String::new(),
            accounts: TextMap::new(),
            usage_stale_after: "30m".to_owned(),
            models_stale_after: "48h".to_owned(),
        }
    }
}

} // verus!
