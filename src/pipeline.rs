//! One scan from raw text to a record ready to store: normalise, check,
//! stamp.

use vstd::prelude::*;
use crate::config::Config;
use crate::domain::{url_verdict, validate_url};
use crate::history::ScanObject;
use crate::normalize::{clean_scan, cleaned};

verus! {

/// A scan the domain check accepted: the host it returned and the record to store.
pub struct AcceptedScan {
    pub host: String,
    pub scan: ScanObject,
}

/// The outcome for a raw scan: the normalised text and the host, or the
/// domain check's message.
pub open spec fn scan_verdict(raw: Seq<char>, config: Config) -> Result<(Seq<char>, Seq<char>), Seq<char>> {
    let text = cleaned(raw, config.prefix, config.suffix);
    match url_verdict(text, config.allowlist@, config.blocklist@) {
        Ok(host) => Ok((text, host)),
        Err(e) => Err(e),
    }
}

/// Relies on chrono::Local::now for the local time and on DateTime::format
/// to write it as `YYYY-MM-DD HH:MM:SS`; nothing is known of the value.
#[verifier::external_body]
fn local_timestamp() -> (r: String) {
    chrono::Local::now().format("%Y-%m-%d %H:%M:%S").to_string()
}

/// Normalises and checks a raw scan; gives the normalised text and the host.
pub fn check_scan(raw_input: &str, config: &Config) -> (r: Result<(String, String), String>)
    ensures
        match scan_verdict(raw_input@, *config) {
            Ok((text, host)) => r is Ok && r->Ok_0.0@ == text && r->Ok_0.1@ == host,
            Err(e) => r is Err && r->Err_0@ == e,
        },
{
    let text = clean_scan(raw_input, &config.prefix, &config.suffix);
    match validate_url(text.as_str(), config.allowlist.as_slice(), config.blocklist.as_slice()) {
        Ok(host) => Ok((text, host)),
        Err(e) => Err(e),
    }
}

/// Normalises and checks a raw scan and, when accepted, makes the record to
/// store, stamped with the local time now. A rejected scan yields the domain check's
/// message and no record.
pub fn process_scan(raw_input: &str, config: &Config) -> (r: Result<AcceptedScan, String>)
    ensures
        match scan_verdict(raw_input@, *config) {
            Ok((text, host)) => r is Ok && r->Ok_0.host@ == host && r->Ok_0.scan.url@ == text
                && r->Ok_0.scan.id == 0,
            Err(e) => r is Err && r->Err_0@ == e,
        },
{
    match check_scan(raw_input, config) {
        Ok((text, host)) => {
            let scan = ScanObject::new(text, local_timestamp());
            Ok(AcceptedScan { host, scan })
        },
        Err(e) => Err(e),
    }
}

} // verus!
