//! The scan normaliser: strips the configured prefix and suffix framing and
//! the surrounding white space.

use vstd::prelude::*;
use vstd::string::*;
use crate::config::{PrefixConfig, SuffixConfig};
use crate::text::{ends_with, starts_with, text_ends_with, text_equals, text_slice, text_starts_with, text_trim_end_char, trim_end_char};

verus! {

/// `s` without one leading `p`, when it starts with `p`.
pub open spec fn drop_prefix(s: Seq<char>, p: Seq<char>) -> Seq<char> {
    if starts_with(s, p) {
        s.subrange(p.len() as int, s.len() as int)
    } else {
        s
    }
}

/// `s` without one trailing `p`, when it ends with `p`.
pub open spec fn drop_suffix(s: Seq<char>, p: Seq<char>) -> Seq<char> {
    if ends_with(s, p) {
        s.subrange(0, s.len() - p.len())
    } else {
        s
    }
}

/// What `strip_prefix` makes of `input`.
pub open spec fn prefix_stripped(input: Seq<char>, prefix: PrefixConfig) -> Seq<char> {
    if prefix.mode@ == "default"@ {
        drop_prefix(input, "QR:"@)
    } else if prefix.mode@ == "custom"@ && prefix.value is Some {
        drop_prefix(input, prefix.value->0@)
    } else {
        input
    }
}

/// What `strip_suffix` makes of `input`.
pub open spec fn suffix_stripped(input: Seq<char>, suffix: SuffixConfig) -> Seq<char> {
    if suffix.mode@ == "enter"@ || suffix.mode@ == "newline"@ {
        trim_end_char(trim_end_char(input, '\n'), '\r')
    } else if suffix.mode@ == "tab"@ {
        trim_end_char(input, '\t')
    } else if suffix.mode@ == "custom"@ && suffix.value is Some {
        drop_suffix(input, suffix.value->0@)
    } else {
        input
    }
}

/// A character with the Unicode White_Space property.
pub open spec fn is_white_space(c: char) -> bool {
    let u = c as u32;
    (0x9 <= u && u <= 0xd) || u == 0x20 || u == 0x85 || u == 0xa0 || u == 0x1680
        || (0x2000 <= u && u <= 0x200a) || u == 0x2028 || u == 0x2029 || u == 0x202f
        || u == 0x205f || u == 0x3000
}

pub open spec fn trim_start_white(s: Seq<char>) -> Seq<char>
    decreases s.len(),
{
    if s.len() > 0 && is_white_space(s[0]) {
        trim_start_white(s.drop_first())
    } else {
        s
    }
}

pub open spec fn trim_end_white(s: Seq<char>) -> Seq<char>
    decreases s.len(),
{
    if s.len() > 0 && is_white_space(s.last()) {
        trim_end_white(s.drop_last())
    } else {
        s
    }
}

/// `s` without leading and trailing white space.
pub open spec fn trim_white(s: Seq<char>) -> Seq<char> {
    trim_end_white(trim_start_white(s))
}

/// The normalised form of a raw scan.
pub open spec fn cleaned(raw: Seq<char>, prefix: PrefixConfig, suffix: SuffixConfig) -> Seq<char> {
    trim_white(suffix_stripped(prefix_stripped(raw, prefix), suffix))
}

/// Relies on str::trim: removes leading and trailing characters with the
/// White_Space property.
#[verifier::external_body]
fn trim_text(s: &str) -> (r: String)
    ensures
        r@ == trim_white(s@),
{
    s.trim().to_string()
}

fn drop_prefix_text(input: &str, p: &str) -> (r: String)
    ensures
        r@ == drop_prefix(input@, p@),
{
    if text_starts_with(input, p) {
        text_slice(input, p.unicode_len(), input.unicode_len())
    } else {
        text_slice(input, 0, input.unicode_len())
    }
}

fn drop_suffix_text(input: &str, p: &str) -> (r: String)
    ensures
        r@ == drop_suffix(input@, p@),
{
    let n = input.unicode_len();
    if text_ends_with(input, p) {
        text_slice(input, 0, n - p.unicode_len())
    } else {
        text_slice(input, 0, n)
    }
}

/// Removes the configured prefix: one leading `QR:` in `"default"` mode, one
/// leading copy of the configured value in `"custom"` mode. An absent prefix,
/// another mode or a custom mode without a value leave `input` unchanged.
pub fn strip_prefix(input: &str, prefix: &PrefixConfig) -> (r: String)
    ensures
        r@ == prefix_stripped(input@, *prefix),
{
    let mode = prefix.mode.as_str();
    if text_equals(mode, "default") {
        drop_prefix_text(input, "QR:")
    } else if text_equals(mode, "custom") {
        match &prefix.value {
            Some(v) => drop_prefix_text(input, v.as_str()),
            None => text_slice(input, 0, input.unicode_len()),
        }
    } else {
        text_slice(input, 0, input.unicode_len())
    }
}

/// Removes the configured suffix: trailing line feeds and then trailing
/// carriage returns in `"enter"` and `"newline"` mode, trailing tabs in
/// `"tab"` mode, one trailing copy of the configured value in `"custom"`
/// mode. An absent suffix or another mode leave `input` unchanged.
pub fn strip_suffix(input: &str, suffix: &SuffixConfig) -> (r: String)
    ensures
        r@ == suffix_stripped(input@, *suffix),
{
    let mode = suffix.mode.as_str();
    if text_equals(mode, "enter") || text_equals(mode, "newline") {
        let without_lf = text_trim_end_char(input, '\n');
        text_trim_end_char(without_lf.as_str(), '\r')
    } else if text_equals(mode, "tab") {
        text_trim_end_char(input, '\t')
    } else if text_equals(mode, "custom") {
        match &suffix.value {
            Some(v) => drop_suffix_text(input, v.as_str()),
            None => text_slice(input, 0, input.unicode_len()),
        }
    } else {
        text_slice(input, 0, input.unicode_len())
    }
}

/// The normalised scan: prefix removed, then suffix, then surrounding white
/// space.
pub fn clean_scan(raw: &str, prefix: &PrefixConfig, suffix: &SuffixConfig) -> (r: String)
    ensures
        r@ == cleaned(raw@, *prefix, *suffix),
{
    let after_prefix = strip_prefix(raw, prefix);
    let after_suffix = strip_suffix(after_prefix.as_str(), suffix);
    trim_text(after_suffix.as_str())
}

/// A prefix literal, the default one or a custom one, is removed once when
/// the input starts with it, and the input is left as it is otherwise.
pub proof fn lemma_prefix_literal_removed_once(input: Seq<char>, prefix: PrefixConfig, literal: Seq<char>)
    requires
        (prefix.mode@ == "default"@ && literal == "QR:"@) || (prefix.mode@ == "custom"@
            && prefix.value is Some && prefix.value->0@ == literal),
    ensures
        starts_with(input, literal) ==> literal + prefix_stripped(input, prefix) == input,
        !starts_with(input, literal) ==> prefix_stripped(input, prefix) == input,
{
    reveal_strlit("custom");
    reveal_strlit("default");
    assert("custom"@[0] != "default"@[0]);
    if starts_with(input, literal) {
        assert(literal + input.subrange(literal.len() as int, input.len() as int) =~= input);
    }
}

/// A custom suffix literal is removed once when the input ends with it, and
/// the input is left as it is otherwise.
pub proof fn lemma_suffix_literal_removed_once(input: Seq<char>, suffix: SuffixConfig, literal: Seq<char>)
    requires
        suffix.mode@ == "custom"@,
        suffix.value is Some,
        suffix.value->0@ == literal,
    ensures
        ends_with(input, literal) ==> suffix_stripped(input, suffix) + literal == input,
        !ends_with(input, literal) ==> suffix_stripped(input, suffix) == input,
{
    reveal_strlit("custom");
    reveal_strlit("enter");
    reveal_strlit("newline");
    reveal_strlit("tab");
    assert(suffix.mode@[0] != "enter"@[0]);
    assert(suffix.mode@[0] != "newline"@[0]);
    assert(suffix.mode@[0] != "tab"@[0]);
    if ends_with(input, literal) {
        assert(input.subrange(0, input.len() - literal.len()) + literal =~= input);
    }
}

} // verus!
