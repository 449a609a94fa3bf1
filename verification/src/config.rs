//! Process-lifetime configuration.

use vstd::prelude::*;

verus! {

/// Which remote endpoint is active.
pub enum ProviderConfig {
    Folder { sync_dir: String },
    Hosted { api_url: String, api_key: String },
}

/// Application configuration: paths, retention, debounce, provider, device.
pub struct AppConfig {
    /// Directory holding the Engine's database triple.
    pub steelseries_db_path: String,
    /// Directory holding the backups.
    pub backup_dir: String,
    /// How many backups retention keeps.
    pub max_backups: usize,
    /// Debounce window in seconds.
    pub debounce_secs: u64,
    /// Active sync provider.
    pub provider: ProviderConfig,
    /// This machine's name, used in metadata and messages.
    pub device_name: String,
}

} // verus!
