//! The domain check: turns a normalised scan into a URL and accepts or rejects
//! its domain against the allow and block lists.

use vstd::prelude::*;
use vstd::string::*;
use crate::text::{contains, opt_text, text_contains, texts};

verus! {

/// Whether `Url::parse` accepts the text.
pub uninterp spec fn url_parses(s: Seq<char>) -> bool;

/// `Url::domain` of the URL parsed from the text.
pub uninterp spec fn url_domain(s: Seq<char>) -> Option<Seq<char>>;

/// `Url::host_str` of the URL parsed from the text.
pub uninterp spec fn url_host(s: Seq<char>) -> Option<Seq<char>>;

/// `str::to_lowercase` of the text.
pub uninterp spec fn lower_of(s: Seq<char>) -> Seq<char>;

/// The parts of a parsed URL that the domain check reads.
pub struct UrlParts {
    pub domain: Option<String>,
    pub host: Option<String>,
}

/// Relies on url::Url::parse to parse the text, and on Url::domain and
/// Url::host_str of the parsed URL for its domain and host.
#[verifier::external_body]
fn parse_url(s: &str) -> (r: Option<UrlParts>)
    ensures
        r is Some <==> url_parses(s@),
        r matches Some(p) ==> opt_text(p.domain) == url_domain(s@) && opt_text(p.host) == url_host(s@),
{
    match url::Url::parse(s) {
        Ok(u) => Some(UrlParts {
            domain: u.domain().map(str::to_string),
            host: u.host_str().map(str::to_string),
        }),
        Err(_) => None,
    }
}

/// Relies on str::to_lowercase: the result depends on the characters alone.
#[verifier::external_body]
fn lowercase(s: &str) -> (r: String)
    ensures
        r@ == lower_of(s@),
{
    s.to_lowercase()
}

pub open spec fn res_text(r: Result<String, String>) -> Result<Seq<char>, Seq<char>> {
    match r {
        Ok(s) => Ok(s@),
        Err(e) => Err(e@),
    }
}

/// The text with a scheme: unchanged when it holds `://`, else behind
/// `https://`.
pub open spec fn with_scheme(url: Seq<char>) -> Seq<char> {
    if contains(url, "://"@) {
        url
    } else {
        "https://"@ + url
    }
}

/// Some entry of `list` is a piece of the domain or of the host.
pub open spec fn list_matches(domain: Seq<char>, host: Seq<char>, list: Seq<Seq<char>>) -> bool {
    exists|i: int| 0 <= i < list.len() && (contains(domain, list[i]) || contains(host, list[i]))
}

pub open spec fn blocked_message(domain: Seq<char>) -> Seq<char> {
    "Domain '"@ + domain + "' is blocked."@
}

pub open spec fn not_allowed_message(domain: Seq<char>) -> Seq<char> {
    "Domain '"@ + domain + "' is not in your allowlist."@
}

/// The verdict on a domain and host: blocked when a block entry
/// matches; else refused when the allow list is non-empty and no entry
/// matches; else the host.
pub open spec fn domain_verdict(domain: Seq<char>, host: Seq<char>, allow: Seq<Seq<char>>, block: Seq<Seq<char>>) -> Result<Seq<char>, Seq<char>> {
    if list_matches(domain, host, block) {
        Err(blocked_message(domain))
    } else if allow.len() > 0 && !list_matches(domain, host, allow) {
        Err(not_allowed_message(domain))
    } else {
        Ok(host)
    }
}

pub open spec fn lowered(list: Seq<String>) -> Seq<Seq<char>> {
    list.map_values(|s: String| lower_of(s@))
}

/// The verdict of `check_url`.
pub open spec fn url_verdict(url: Seq<char>, allow: Seq<String>, block: Seq<String>) -> Result<Seq<char>, Seq<char>> {
    let full = with_scheme(url);
    if !url_parses(full) {
        Err("Invalid URL format"@)
    } else {
        match url_domain(full) {
            None => Err("URL has no valid domain"@),
            Some(d) => match url_host(full) {
                None => Err("URL has no valid hostname"@),
                Some(h) => domain_verdict(lower_of(d), lower_of(h), lowered(allow), lowered(block)),
            },
        }
    }
}

/// Adds the default scheme `https://` to a text that has none.
pub fn normalize_url(url: &str) -> (r: Result<String, String>)
    ensures
        r is Ok,
        res_text(r) == Ok::<Seq<char>, Seq<char>>(with_scheme(url@)),
{
    if text_contains(url, "://") {
        Ok(String::from_str(url))
    } else {
        let mut full = String::from_str("https://");
        full.append(url);
        Ok(full)
    }
}

/// Every entry in lower case.
pub fn normalize_list(list: Vec<String>) -> (r: Vec<String>)
    ensures
        texts(r@) == lowered(list@),
{
    lowercase_all(list.as_slice())
}

fn lowercase_all(list: &[String]) -> (r: Vec<String>)
    ensures
        texts(r@) == lowered(list@),
{
    let mut out: Vec<String> = Vec::new();
    let mut i: usize = 0;
    while i < list.len()
        invariant
            i <= list@.len(),
            texts(out@) == lowered(list@.take(i as int)),
        decreases list@.len() - i,
    {
        let entry = lowercase(list[i].as_str());
        let ghost before = out@;
        out.push(entry);
        assert(texts(out@) =~= texts(before).push(entry@));
        assert(lowered(list@.take(i + 1)) =~= lowered(list@.take(i as int)).push(lower_of(list@[i as int]@)));
        i += 1;
    }
    assert(list@.take(list@.len() as int) =~= list@);
    out
}

/// Whether some entry of `list` is a piece of `domain` or of `host`.
pub fn matches_list(domain: &str, host: &str, list: &[String]) -> (r: bool)
    ensures
        r == list_matches(domain@, host@, texts(list@)),
{
    let mut i: usize = 0;
    while i < list.len()
        invariant
            i <= list@.len(),
            forall|j: int| 0 <= j < i ==> !(contains(domain@, list@[j]@) || contains(host@, list@[j]@)),
        decreases list@.len() - i,
    {
        let entry = list[i].as_str();
        if text_contains(domain, entry) || text_contains(host, entry) {
            assert(texts(list@)[i as int] == list@[i as int]@);
            return true;
        }
        i += 1;
    }
    assert forall|j: int| 0 <= j < texts(list@).len() implies !(contains(domain@, texts(list@)[j]) || contains(host@, texts(list@)[j])) by {
        assert(texts(list@)[j] == list@[j]@);
    }
    false
}

fn domain_message(domain: &str, tail: &str) -> (r: String)
    ensures
        r@ == "Domain '"@ + domain@ + tail@,
{
    let mut m = String::from_str("Domain '");
    m.append(domain);
    m.append(tail);
    m
}

/// The domain check on an already lower-cased domain, host and lists: the block list
/// is checked first and always wins; an empty allow list lets everything
/// else through. Success gives the host.
pub fn filter_domain(domain: &str, host: &str, allow_list: &[String], block_list: &[String]) -> (r: Result<String, String>)
    ensures
        res_text(r) == domain_verdict(domain@, host@, texts(allow_list@), texts(block_list@)),
{
    if matches_list(domain, host, block_list) {
        return Err(domain_message(domain, "' is blocked."));
    }
    if allow_list.len() > 0 && !matches_list(domain, host, allow_list) {
        return Err(domain_message(domain, "' is not in your allowlist."));
    }
    Ok(String::from_str(host))
}

/// Validates a scan as a URL: adds a scheme when it has none, parses it,
/// lower-cases its domain, host and both lists, then applies the domain check.
pub fn check_url(url: String, allow_list: Vec<String>, block_list: Vec<String>) -> (r: Result<String, String>)
    ensures
        res_text(r) == url_verdict(url@, allow_list@, block_list@),
{
    validate_url(url.as_str(), allow_list.as_slice(), block_list.as_slice())
}

/// `check_url` on borrowed lists.
pub fn validate_url(url: &str, allow_list: &[String], block_list: &[String]) -> (r: Result<String, String>)
    ensures
        res_text(r) == url_verdict(url@, allow_list@, block_list@),
{
    let full = match normalize_url(url) {
        Ok(f) => f,
        Err(e) => return Err(e),
    };
    let parts = match parse_url(full.as_str()) {
        Some(p) => p,
        None => return Err(String::from_str("Invalid URL format")),
    };
    let domain = match &parts.domain {
        Some(d) => lowercase(d.as_str()),
        None => return Err(String::from_str("URL has no valid domain")),
    };
    let host = match &parts.host {
        Some(h) => lowercase(h.as_str()),
        None => return Err(String::from_str("URL has no valid hostname")),
    };
    let allow = lowercase_all(allow_list);
    let block = lowercase_all(block_list);
    filter_domain(domain.as_str(), host.as_str(), allow.as_slice(), block.as_slice())
}

/// A domain or host that some block entry matches is rejected, whatever the
/// allow list holds, even when the same entry is allowed too.
pub proof fn lemma_block_outranks_allow(domain: Seq<char>, host: Seq<char>, allow: Seq<Seq<char>>, block: Seq<Seq<char>>)
    requires
        list_matches(domain, host, block),
    ensures
        domain_verdict(domain, host, allow, block) == Err::<Seq<char>, Seq<char>>(blocked_message(domain)),
{
}

/// With an empty allow list every domain and host that no block entry
/// matches is accepted.
pub proof fn lemma_empty_allow_accepts(domain: Seq<char>, host: Seq<char>, block: Seq<Seq<char>>)
    requires
        !list_matches(domain, host, block),
    ensures
        domain_verdict(domain, host, Seq::empty(), block) == Ok::<Seq<char>, Seq<char>>(host),
{
}

} // verus!
