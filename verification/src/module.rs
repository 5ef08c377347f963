//! Regex and CSS-selector scraping of news pages, line lists, and the other
//! helpers that the archiver and the announcer share.

use vstd::prelude::*;

use crate::outside::{
    html_parse_document, regex_captures_first, regex_compiles, regex_first_group, regex_new,
    select_fragments, selected_fragments, selector_parse, selector_parses, twitter_parse_weighted_length,
    twitter_weighted_length,
};
use crate::text::{
    is_line_split, join_lines, join_with_line_breaks, no_line_breaks, split_lines_owned, str_eq, views,
    lemma_line_split_unique,
};

verus! {

/// A regular expression compiled by the regex crate, kept with its source
/// pattern; it is only ever built from a pattern that compiled.
pub struct CompiledRegex {
    pub(crate) pattern: String,
    pub(crate) compiled: regex::Regex,
}

impl CompiledRegex {
    /// The pattern is one the regex crate compiles.
    #[verifier::type_invariant]
    spec fn compiles(self) -> bool {
        regex_compiles(self.pattern@)
    }
}

impl View for CompiledRegex {
    type V = Seq<char>;

    /// The source pattern.
    closed spec fn view(&self) -> Seq<char> {
        self.pattern@
    }
}

/// A CSS selector group parsed by scraper, kept with its source text.
pub struct CompiledSelector {
    pub(crate) source: String,
    pub(crate) compiled: scraper::Selector,
}

impl CompiledSelector {
    /// The source is a selector group scraper parses.
    #[verifier::type_invariant]
    spec fn parses(self) -> bool {
        selector_parses(self.source@)
    }
}

impl View for CompiledSelector {
    type V = Seq<char>;

    /// The source text of the selector.
    closed spec fn view(&self) -> Seq<char> {
        self.source@
    }
}

/// An HTML document parsed by scraper, kept with its source text.
pub struct HtmlDocument {
    pub(crate) source: String,
    pub(crate) tree: scraper::Html,
}

impl View for HtmlDocument {
    type V = Seq<char>;

    /// The source text of the document.
    closed spec fn view(&self) -> Seq<char> {
        self.source@
    }
}

/// Why a fixed pattern of the bot could not be prepared.
#[derive(Debug, Clone, Copy, PartialEq, Eq, Structural)]
pub enum PatternError {
    /// The regex crate refused the pattern.
    InvalidRegex,
    /// scraper refused the selector.
    InvalidSelector,
}

/// Compiles `reg`, which must be a pattern the regex crate accepts.
pub fn compiled_regex(reg: &str) -> (res: CompiledRegex)
    requires
        regex_compiles(reg@),
    ensures
        res@ == reg@,
{
    let compiled = regex_new(reg).unwrap();
    CompiledRegex { pattern: reg.to_owned(), compiled }
}

/// Compiles `reg`, or says that the regex crate refuses it.
pub fn try_compiled_regex(reg: &str) -> (res: Result<CompiledRegex, PatternError>)
    ensures
        res is Ok <==> regex_compiles(reg@),
        res matches Ok(r) ==> r@ == reg@,
        res matches Err(e) ==> e == PatternError::InvalidRegex,
{
    match regex_new(reg) {
        Ok(_) => Ok(compiled_regex(reg)),
        Err(_) => Err(PatternError::InvalidRegex),
    }
}

/// Parses `selector`, which must be a selector group scraper accepts.
pub fn compiled_selector(selector: &str) -> (res: CompiledSelector)
    requires
        selector_parses(selector@),
    ensures
        res@ == selector@,
{
    let compiled = selector_parse(selector).unwrap();
    CompiledSelector { source: selector.to_owned(), compiled }
}

/// Parses `selector`, or says that scraper refuses it.
pub fn try_compiled_selector(selector: &str) -> (res: Result<CompiledSelector, PatternError>)
    ensures
        res is Ok <==> selector_parses(selector@),
        res matches Ok(s) ==> s@ == selector@,
        res matches Err(e) ==> e == PatternError::InvalidSelector,
{
    match selector_parse(selector) {
        Ok(_) => Ok(compiled_selector(selector)),
        Err(_) => Err(PatternError::InvalidSelector),
    }
}

/// Parses `html` as a whole document.
pub fn parse_html(html: &str) -> (res: HtmlDocument)
    ensures
        res@ == html@,
{
    let tree = html_parse_document(html);
    HtmlDocument { source: html.to_owned(), tree }
}

/// The text of capture group 1 of the first match of `regex` in `text`;
/// `text` must hold such a match.
pub fn re_find(regex: &CompiledRegex, text: &str) -> (res: String)
    requires
        regex_first_group(regex@, text@) is Some,
    ensures
        Some(res@) == regex_first_group(regex@, text@),
{
    regex_captures_first(regex, text).unwrap()
}

/// Whether `regex` matches `text` with capture group 1 set.
pub fn is_re_match(regex: &CompiledRegex, text: &str) -> (res: bool)
    ensures
        res == regex_first_group(regex@, text@) is Some,
{
    regex_captures_first(regex, text).is_some()
}

/// The text of capture group 1 of the first match, if there is one.
pub fn find_first_group(regex: &CompiledRegex, text: &str) -> (res: Option<String>)
    ensures
        res is Some <==> regex_first_group(regex@, text@) is Some,
        res matches Some(g) ==> Some(g@) == regex_first_group(regex@, text@),
{
    if is_re_match(regex, text) {
        Some(re_find(regex, text))
    } else {
        None
    }
}

/// Whether `regex` finds group 1 in every one of `fragments`.
pub open spec fn all_groups_found(pattern: Seq<char>, fragments: Seq<Seq<char>>) -> bool {
    forall|i: int| 0 <= i < fragments.len() ==> #[trigger] regex_first_group(pattern, fragments[i]) is Some
}

/// Group 1 of `pattern` in each of `fragments`.
pub open spec fn first_groups(pattern: Seq<char>, fragments: Seq<Seq<char>>) -> Seq<Seq<char>> {
    fragments.map_values(|f: Seq<char>| regex_first_group(pattern, f)->0)
}

/// For every element that `selector` picks out of `html`, in order, the text
/// of group 1 of `regex` in the element's outer HTML; every such element
/// must hold a match.
pub fn scraping(regex: &CompiledRegex, selector: &CompiledSelector, html: &HtmlDocument) -> (res: Vec<String>)
    requires
        all_groups_found(regex@, selected_fragments(html@, selector@)),
    ensures
        views(res@) == first_groups(regex@, selected_fragments(html@, selector@)),
        res@.len() == selected_fragments(html@, selector@).len(),
{
    let fragments = select_fragments(html, selector);
    let ghost frags = views(fragments@);
    let mut x: Vec<String> = Vec::new();
    let mut i: usize = 0;
    while i < fragments.len()
        invariant
            i <= fragments.len(),
            frags == views(fragments@),
            frags == selected_fragments(html@, selector@),
            all_groups_found(regex@, frags),
            views(x@) == first_groups(regex@, frags.take(i as int)),
        decreases fragments.len() - i,
    {
        assert(frags[i as int] == fragments@[i as int]@);
        assert(regex_first_group(regex@, frags[i as int]) is Some);
        let found = re_find(regex, fragments[i].as_str());
        assert(found@ == regex_first_group(regex@, frags[i as int])->0);
        let ghost before = views(x@);
        x.push(found);
        assert(views(x@) =~= before.push(found@));
        assert(frags.take((i + 1) as int) =~= frags.take(i as int).push(frags[i as int]));
        assert(views(x@) =~= first_groups(regex@, frags.take((i + 1) as int)));
        i = i + 1;
    }
    assert(frags.take(fragments.len() as int) =~= frags);
    proof {
        lemma_first_groups_one_per_fragment(regex@, frags);
        assert(views(x@).len() == x@.len());
    }
    x
}

/// `scraping`, or `None` when some selected element holds no match of
/// `regex` with group 1 set.
pub fn try_scraping(regex: &CompiledRegex, selector: &CompiledSelector, html: &HtmlDocument) -> (res: Option<Vec<String>>)
    ensures
        res is Some <==> all_groups_found(regex@, selected_fragments(html@, selector@)),
        res matches Some(v) ==> views(v@) == first_groups(regex@, selected_fragments(html@, selector@)),
{
    let fragments = select_fragments(html, selector);
    let ghost frags = views(fragments@);
    let mut i: usize = 0;
    while i < fragments.len()
        invariant
            i <= fragments.len(),
            frags == views(fragments@),
            frags == selected_fragments(html@, selector@),
            forall|j: int| 0 <= j < i ==> #[trigger] regex_first_group(regex@, frags[j]) is Some,
        decreases fragments.len() - i,
    {
        assert(frags[i as int] == fragments@[i as int]@);
        if !is_re_match(regex, fragments[i].as_str()) {
            return None;
        }
        i = i + 1;
    }
    Some(scraping(regex, selector, html))
}


/// Splits `text` at every line break, as `text.split("\n")` does.
pub fn split_by_line(text: &str) -> (res: Vec<String>)
    ensures
        is_line_split(text@, views(res@)),
{
    split_lines_owned(text)
}

/// Whether `text` is one of the four entries of `in_vec`.
pub fn is_array_contein(in_vec: [&str; 4], text: &str) -> (res: bool)
    ensures
        res == exists|i: int| 0 <= i < 4 && (#[trigger] in_vec@[i])@ == text@,
{
    let mut i: usize = 0;
    while i < 4
        invariant
            i <= 4,
            forall|j: int| 0 <= j < i ==> (#[trigger] in_vec@[j])@ != text@,
        decreases 4 - i,
    {
        if str_eq(in_vec[i], text) {
            assert(in_vec@[i as int]@ == text@);
            return true;
        }
        i = i + 1;
    }
    false
}

/// Whether `text` is one of the entries of `in_vec`.
pub fn is_vec_contein(in_vec: &Vec<String>, text: &str) -> (res: bool)
    ensures
        res == views(in_vec@).contains(text@),
{
    let mut i: usize = 0;
    while i < in_vec.len()
        invariant
            i <= in_vec.len(),
            forall|j: int| 0 <= j < i ==> (#[trigger] in_vec@[j])@ != text@,
        decreases in_vec.len() - i,
    {
        if str_eq(in_vec[i].as_str(), text) {
            assert(views(in_vec@)[i as int] == text@);
            return true;
        }
        i = i + 1;
    }
    assert forall|j: int| 0 <= j < views(in_vec@).len() implies #[trigger] views(in_vec@)[j] != text@ by {
        assert(views(in_vec@)[j] == in_vec@[j]@);
    }
    false
}

/// The weighted length that Twitter counts against a tweet's limit.
pub fn count_twitter_str(tweet: &str) -> (res: i32)
    ensures
        res == twitter_weighted_length(tweet@),
{
    twitter_parse_weighted_length(tweet)
}

/// The text stored for a list of lines: the lines joined with line breaks
/// and a final line break, less a line break at the very start.
pub open spec fn line_file_text(lines: Seq<Seq<char>>) -> Seq<char> {
    let joined = join_lines(lines).push('\n');
    if joined[0] == '\n' {
        joined.drop_first()
    } else {
        joined
    }
}

/// `content` less one line break at its very end.
pub open spec fn without_final_break(content: Seq<char>) -> Seq<char> {
    if content.len() > 0 && content.last() == '\n' {
        content.drop_last()
    } else {
        content
    }
}

/// The lines held in a stored list: the stored text, less one final line
/// break, split at every line break.
pub fn lines_from_file_text(content: &str) -> (res: Vec<String>)
    ensures
        is_line_split(without_final_break(content@), views(res@)),
{
    let n = content.unicode_len();
    if n > 0 && content.get_char(n - 1) == '\n' {
        let body = content.substring_char(0, n - 1);
        proof {
            assert(body@ =~= without_final_break(content@));
        }
        split_lines_owned(body)
    } else {
        split_lines_owned(content)
    }
}

/// The text to store for `lines`.
pub fn file_text_from_lines(lines: &Vec<String>) -> (res: String)
    ensures
        res@ == line_file_text(views(lines@)),
{
    let mut joined = join_with_line_breaks(lines);
    joined.append("\n");
    proof {
        reveal_strlit("\n");
        assert(joined@ =~= join_lines(views(lines@)).push('\n'));
    }
    let n = joined.as_str().unicode_len();
    if joined.as_str().get_char(0) == '\n' {
        let rest = joined.as_str().substring_char(1, n).to_owned();
        proof {
            assert(rest@ =~= joined@.drop_first());
        }
        rest
    } else {
        joined
    }
}

proof fn lemma_join_starts_with_first(parts: Seq<Seq<char>>)
    requires
        parts.len() >= 1,
    ensures
        join_lines(parts).len() >= parts[0].len(),
        join_lines(parts).take(parts[0].len() as int) == parts[0],
    decreases parts.len(),
{
    if parts.len() > 1 {
        lemma_join_starts_with_first(parts.drop_last());
        let j = join_lines(parts.drop_last());
        assert(parts.drop_last()[0] == parts[0]);
        assert(join_lines(parts).take(parts[0].len() as int) =~= j.take(parts[0].len() as int));
    } else {
        assert(join_lines(parts).take(parts[0].len() as int) =~= parts[0]);
    }
}

/// Storing a list of lines and reading it back gives the same list, for
/// every non-empty list of lines without line breaks whose first line is
/// non-empty or alone.
pub proof fn lemma_line_file_roundtrip(lines: Seq<Seq<char>>, read: Seq<Seq<char>>)
    requires
        lines.len() >= 1,
        no_line_breaks(lines),
        lines.len() == 1 || lines[0].len() > 0,
        is_line_split(without_final_break(line_file_text(lines)), read),
    ensures
        read == lines,
{
    let j = join_lines(lines);
    if lines[0].len() > 0 {
        lemma_join_starts_with_first(lines);
        assert(j[0] == lines[0][0]);
        assert(!lines[0].contains('\n'));
        assert(j.push('\n')[0] == j[0]);
        assert(without_final_break(line_file_text(lines)) =~= j);
    } else {
        assert(j == lines[0]);
        assert(without_final_break(line_file_text(lines)) =~= j);
    }
    lemma_line_split_unique(j, read, lines);
}

/// One group per fragment, in order: the `i`-th result is group 1 of the
/// regex in the `i`-th fragment.
pub proof fn lemma_first_groups_one_per_fragment(pattern: Seq<char>, fragments: Seq<Seq<char>>)
    ensures
        first_groups(pattern, fragments).len() == fragments.len(),
        forall|i: int| 0 <= i < fragments.len() ==>
            Some(#[trigger] first_groups(pattern, fragments)[i]) == regex_first_group(pattern, fragments[i])
            || regex_first_group(pattern, fragments[i]) is None,
        all_groups_found(pattern, fragments) ==> forall|i: int| 0 <= i < fragments.len() ==>
            Some(#[trigger] first_groups(pattern, fragments)[i]) == regex_first_group(pattern, fragments[i]),
{
}

} // verus!
