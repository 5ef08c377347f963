//! Every point where the library hands work to an outside crate: the
//! declarations of their types, the names given to what their functions
//! compute, and the wrappers whose contracts the proofs rest on.

use vstd::prelude::*;

use crate::module::{CompiledRegex, CompiledSelector, HtmlDocument};
use crate::text::views;

verus! {

// The outside types that pass through the library, opaque to Verus.
#[verifier::external_type_specification]
#[verifier::external_body]
pub struct ExRegex(regex::Regex);

#[verifier::external_type_specification]
#[verifier::external_body]
pub struct ExRegexError(regex::Error);

#[verifier::external_type_specification]
#[verifier::external_body]
pub struct ExSelector(scraper::Selector);

#[verifier::external_type_specification]
#[verifier::external_body]
pub struct ExSelectorErrorKind(scraper::error::SelectorErrorKind);

#[verifier::external_type_specification]
#[verifier::external_body]
pub struct ExHtml(scraper::Html);

/// Whether `regex::Regex::new` accepts `pattern`.
pub uninterp spec fn regex_compiles(pattern: Seq<char>) -> bool;

/// The text of capture group 1 of the leftmost match of `pattern` in `text`,
/// as `regex::Regex::captures` and `Captures::get(1)` find it; `None` when
/// there is no match or the match leaves group 1 unset.
pub uninterp spec fn regex_first_group(pattern: Seq<char>, text: Seq<char>) -> Option<Seq<char>>;

/// Calls `regex::Regex::new`: it succeeds exactly on the patterns the regex
/// crate compiles. The compiled value is opaque here; `CompiledRegex` keeps
/// it beside the pattern it was compiled from.
#[verifier::external_body]
pub(crate) fn regex_new(pattern: &str) -> (res: Result<regex::Regex, regex::Error>)
    ensures
        res is Ok <==> regex_compiles(pattern@),
{
    regex::Regex::new(pattern)
}

/// Whether `scraper::Selector::parse` accepts `selector`.
pub uninterp spec fn selector_parses(selector: Seq<char>) -> bool;

/// The outer HTML of each element that `scraper::Html::select` yields for
/// `selector` in the document parsed from `document`, in the order the
/// iterator yields them, each serialised by `ElementRef::html`.
pub uninterp spec fn selected_fragments(document: Seq<char>, selector: Seq<char>) -> Seq<Seq<char>>;

/// What `regex::Regex::replace_all` gives for `pattern` on `text` with the
/// replacement string `replacement`.
pub uninterp spec fn regex_replaced_all(pattern: Seq<char>, text: Seq<char>, replacement: Seq<char>) -> Seq<char>;

/// The `weighted_length` of `twitter_text::parse(text, twitter_text_config::default(), true)`.
pub uninterp spec fn twitter_weighted_length(text: Seq<char>) -> i32;

/// Calls `scraper::Selector::parse`: it succeeds exactly on the selectors
/// scraper parses.
#[verifier::external_body]
pub(crate) fn selector_parse(selector: &str) -> (res: Result<scraper::Selector, scraper::error::SelectorErrorKind>)
    ensures
        res is Ok <==> selector_parses(selector@),
{
    scraper::Selector::parse(selector)
}

/// Calls `scraper::Html::parse_document`, which never fails; the tree is
/// opaque here and nothing is claimed of it.
#[verifier::external_body]
pub(crate) fn html_parse_document(document: &str) -> (res: scraper::Html) {
    scraper::Html::parse_document(document)
}

/// Calls `scraper::Html::select` on the parsed tree of `document` and
/// `ElementRef::html` on each element it yields: the outer HTML of the
/// selected elements, in order, as named by `selected_fragments`. The claim
/// rests on how the library builds its values: an `HtmlDocument` only by
/// `parse_html`, from its source, and a `CompiledSelector` only by
/// `compiled_selector`, from its source.
#[verifier::external_body]
pub(crate) fn select_fragments(document: &HtmlDocument, selector: &CompiledSelector) -> (res: Vec<String>)
    ensures
        views(res@) == selected_fragments(document@, selector@),
{
    let mut out: Vec<String> = Vec::new();
    for element in document.tree.select(&selector.compiled) {
        out.push(element.html());
    }
    out
}

/// Calls `regex::Regex::captures` on `text`, then `Captures::get(1)` and
/// `Match::as_str`: the text of group 1 of the leftmost match, as named by
/// `regex_first_group`, or `None` exactly when that name is `None`. A
/// `CompiledRegex` is only built by `compiled_regex`, from its pattern.
#[verifier::external_body]
pub(crate) fn regex_captures_first(regex: &CompiledRegex, text: &str) -> (res: Option<String>)
    ensures
        res matches Some(g) ==> regex_first_group(regex@, text@) == Some(g@),
        res is None ==> regex_first_group(regex@, text@) is None,
{
    match regex.compiled.captures(text) {
        Some(caps) => match caps.get(1) {
            Some(m) => Some(m.as_str().to_string()),
            None => None,
        },
        None => None,
    }
}

/// Calls `regex::Regex::replace_all` with `replacement` (in which `$` group
/// references expand as the regex crate expands them): the result is the one
/// named by `regex_replaced_all`.
#[verifier::external_body]
pub(crate) fn regex_replace_all(regex: &CompiledRegex, text: &str, replacement: &str) -> (res: String)
    ensures
        res@ == regex_replaced_all(regex@, text@, replacement@),
{
    regex.compiled.replace_all(text, replacement).into_owned()
}

/// Calls `twitter_text::parse` with `twitter_text_config::default()` and URL
/// extraction on, and reads `weighted_length`, as named by
/// `twitter_weighted_length`.
#[verifier::external_body]
pub(crate) fn twitter_parse_weighted_length(text: &str) -> (res: i32)
    ensures
        res == twitter_weighted_length(text@),
{
    twitter_text::parse(text, twitter_text_config::default(), true).weighted_length
}

} // verus!
