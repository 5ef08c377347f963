//! The first version of the shared helpers.

use vstd::prelude::*;

use crate::outside::regex_first_group;
use crate::text::{is_line_split, split_line_slices};

pub use crate::module::{
    CompiledRegex, CompiledSelector, HtmlDocument, compiled_regex, compiled_selector, parse_html, re_find,
    scraping,
};

verus! {

/// `Ok` when `regex` matches `string` with capture group 1 set, else `Err`.
pub fn is_re_match(regex: &CompiledRegex, string: &str) -> (res: Result<(), ()>)
    ensures
        res is Ok <==> regex_first_group(regex@, string@) is Some,
{
    if crate::module::is_re_match(regex, string) {
        Ok(())
    } else {
        Err(())
    }
}

/// Splits `string` at every line break, as `string.split("\n")` does, into
/// slices of `string`.
pub fn split_by_line(string: &String) -> (res: Vec<&str>)
    ensures
        is_line_split(string@, res@.map_values(|p: &str| p@)),
{
    split_line_slices(string.as_str())
}

/// Whether `string` is one of the four entries of `in_vec`.
pub fn is_array_contein(in_vec: [&str; 4], string: &String) -> (res: bool)
    ensures
        res == exists|i: int| 0 <= i < 4 && (#[trigger] in_vec@[i])@ == string@,
{
    crate::module::is_array_contein(in_vec, string.as_str())
}

} // verus!
