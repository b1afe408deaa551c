//! The settings the scan pipeline reads.

use vstd::prelude::*;

verus! {

/// How a scan's leading marker is removed: `mode` is `"none"`, `"default"`
/// (the marker `QR:`) or `"custom"` (the marker in `value`).
#[derive(Debug, Clone)]
pub struct PrefixConfig {
    pub mode: String,
    pub value: Option<String>,
}

/// How a scan's trailing marker is removed: `mode` is `"none"`, `"enter"` or
/// `"newline"` (trailing line breaks), `"tab"` (trailing tabs) or `"custom"`
/// (the marker in `value`). `"tab"` also makes Tab the trigger key.
#[derive(Debug, Clone)]
pub struct SuffixConfig {
    pub mode: String,
    pub value: Option<String>,
}

/// The application settings.
#[derive(Debug, Clone)]
pub struct Config {
    pub allowlist: Vec<String>,
    pub blocklist: Vec<String>,
    /// `"sqlite"` selects the relational history, anything else the flat one.
    pub history_storage_method: String,
    pub scan_mode: String,
    pub notification_type: String,
    pub max_history_items: u32,
    pub prefix: PrefixConfig,
    pub suffix: SuffixConfig,
    pub close_to_tray: bool,
}

impl Default for Config {
    fn default() -> (r: Config)
        ensures
            r.allowlist@.len() == 0,
            r.blocklist@.len() == 0,
            r.history_storage_method@ == "json"@,
            r.scan_mode@ == "single"@,
            r.notification_type@ == "toast"@,
            r.max_history_items == 100,
            r.prefix.mode@ == "none"@,
            r.prefix.value is None,
            r.suffix.mode@ == "enter"@,
            r.suffix.value is None,
            !r.close_to_tray,
    {
        Config {
            allowlist: Vec::new(),
            blocklist: Vec::new(),
            history_storage_method: String::from_str("json"),
            scan_mode: String::from_str("single"),
            notification_type: String::from_str("toast"),
            max_history_items: 100,
            prefix: PrefixConfig { mode: String::from_str("none"), value: None },
            suffix: SuffixConfig { mode: String::from_str("enter"), value: None },
            close_to_tray: false,
        }
    }
}

} // verus!
