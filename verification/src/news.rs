//! Walking the news site: the category pages and their numbering, what is
//! read from each listing page, and the downloads asked for it.

use vstd::prelude::*;

use crate::archive::{ArchiveJob, JobFields, job_views};
use crate::module::{
    CompiledRegex, CompiledSelector, HtmlDocument, PatternError, all_groups_found, first_groups,
    try_compiled_regex, try_compiled_selector, try_scraping,
};
use crate::outside::{regex_compiles, selected_fragments, selector_parses};
use crate::text::views;

verus! {

/// The news categories that are archived, in order.
pub fn categories() -> (res: [&'static str; 3])
    ensures
        res@[0]@ == "information"@,
        res@[1]@ == "maintenance"@,
        res@[2]@ == "update"@,
{
    ["information", "maintenance", "update"]
}

/// The first listing page of `category` on `host`.
pub open spec fn category_url_text(host: Seq<char>, category: Seq<char>) -> Seq<char> {
    host + "/cat_news/"@ + category
}

/// The first listing page of `category` on `host`.
pub fn category_url(host: &str, category: &str) -> (res: String)
    ensures
        res@ == category_url_text(host@, category@),
{
    let mut url = String::from_str(host);
    url.append("/cat_news/");
    url.append(category);
    url
}

/// The decimal digit for `d`.
pub open spec fn digit_char(d: int) -> char {
    if d == 0 { '0' } else if d == 1 { '1' } else if d == 2 { '2' } else if d == 3 { '3' }
    else if d == 4 { '4' } else if d == 5 { '5' } else if d == 6 { '6' } else if d == 7 { '7' }
    else if d == 8 { '8' } else { '9' }
}

/// `n` written in decimal, without leading zeros.
pub open spec fn decimal_text(n: nat) -> Seq<char>
    decreases n,
{
    if n < 10 {
        seq![digit_char(n as int)]
    } else {
        decimal_text(n / 10).push(digit_char((n % 10) as int))
    }
}

/// Appends `n` written in decimal to `out`.
pub fn append_decimal(out: &mut String, n: u32)
    ensures
        final(out)@ == old(out)@ + decimal_text(n as nat),
    decreases n,
{
    if n >= 10 {
        append_decimal(out, n / 10);
    }
    let d = n % 10;
    let digits = "0123456789";
    proof {
        reveal_strlit("0123456789");
    }
    let digit = digits.substring_char(d as usize, (d + 1) as usize);
    let ghost before = out@;
    out.append(digit);
    proof {
        assert(digit@ =~= seq![digit_char(d as int)]);
        if n >= 10 {
            assert(final(out)@ =~= old(out)@ + decimal_text(n as nat)) by {
                assert(decimal_text(n as nat) == decimal_text((n / 10) as nat).push(digit_char((n % 10) as int)));
            }
        } else {
            assert(out@ =~= old(out)@ + decimal_text(n as nat));
        }
    }
}

/// The listing page numbered `page` of `category` on `host`.
pub open spec fn category_page_url_text(host: Seq<char>, category: Seq<char>, page: nat) -> Seq<char> {
    host + "/cat_news/"@ + category + "/?page="@ + decimal_text(page)
}

/// The listing page numbered `page` of `category` on `host`.
pub fn category_page_url(host: &str, category: &str, page: u32) -> (res: String)
    ensures
        res@ == category_page_url_text(host@, category@, page as nat),
{
    let mut url = String::from_str(host);
    url.append("/cat_news/");
    url.append(category);
    url.append("/?page=");
    append_decimal(&mut url, page);
    url
}

/// An ASCII decimal digit.
pub open spec fn is_digit(c: char) -> bool {
    '0' <= c && c <= '9'
}

/// The value of a string of decimal digits.
pub open spec fn digits_value(d: Seq<char>) -> int
    decreases d.len(),
{
    if d.len() == 0 {
        0
    } else {
        digits_value(d.drop_last()) * 10 + (d.last() as int - '0' as int)
    }
}

/// The digits after an optional leading sign.
pub open spec fn unsigned_part(s: Seq<char>) -> Seq<char> {
    if s.len() > 0 && (s[0] == '-' || s[0] == '+') {
        s.drop_first()
    } else {
        s
    }
}

/// What `s.parse::<i32>()` gives: an optional `+` or `-` followed by one or
/// more ASCII digits, whose value fits an `i32`; `None` for anything else.
pub open spec fn parsed_i32(s: Seq<char>) -> Option<i32> {
    let body = unsigned_part(s);
    let value = if s.len() > 0 && s[0] == '-' { -digits_value(body) } else { digits_value(body) };
    if body.len() > 0 && (forall|i: int| 0 <= i < body.len() ==> is_digit(#[trigger] body[i]))
        && i32::MIN <= value <= i32::MAX {
        Some(value as i32)
    } else {
        None
    }
}

proof fn lemma_digits_value_grows(d: Seq<char>, k: int)
    requires
        0 <= k <= d.len(),
        forall|i: int| 0 <= i < d.len() ==> is_digit(#[trigger] d[i]),
    ensures
        0 <= digits_value(d.take(k)) <= digits_value(d),
    decreases d.len() - k,
{
    if k < d.len() {
        lemma_digits_value_grows(d, k + 1);
        assert(d.take(k + 1).drop_last() =~= d.take(k));
        assert(is_digit(d[k]));
    } else {
        assert(d.take(k) =~= d);
    }
    if d.len() > 0 {
        lemma_digits_value_nonneg(d);
    }
}

proof fn lemma_digits_value_nonneg(d: Seq<char>)
    requires
        forall|i: int| 0 <= i < d.len() ==> is_digit(#[trigger] d[i]),
    ensures
        digits_value(d) >= 0,
    decreases d.len(),
{
    if d.len() > 0 {
        assert(forall|i: int| 0 <= i < d.drop_last().len() ==> d.drop_last()[i] == d[i]);
        lemma_digits_value_nonneg(d.drop_last());
        assert(is_digit(d[d.len() - 1]));
    }
}

/// Reads `s` as an `i32` the way `s.parse::<i32>()` does.
pub fn parse_i32(s: &str) -> (res: Option<i32>)
    ensures
        res == parsed_i32(s@),
{
    let n = s.unicode_len();
    let mut start: usize = 0;
    let mut negative = false;
    if n > 0 {
        let c = s.get_char(0);
        if c == '-' {
            negative = true;
            start = 1;
        } else if c == '+' {
            start = 1;
        }
    }
    let ghost body = unsigned_part(s@);
    assert(body =~= s@.skip(start as int));
    if start >= n {
        return None;
    }
    let mut value: i64 = 0;
    let mut i: usize = start;
    while i < n
        invariant
            n == s@.len(),
            start <= i <= n,
            body == s@.skip(start as int),
            body == unsigned_part(s@),
            negative == (s@.len() > 0 && s@[0] == '-'),
            forall|k: int| 0 <= k < i - start ==> is_digit(#[trigger] body[k]),
            value == digits_value(body.take(i - start)),
            0 <= value <= 2147483648,
        decreases n - i,
    {
        let c = s.get_char(i);
        assert(c == body[i - start]);
        if !('0' <= c && c <= '9') {
            assert(!is_digit(body[i - start]));
            return None;
        }
        let d = (c as u32 - '0' as u32) as i64;
        let next = value * 10 + d;
        proof {
            assert(body.take(i + 1 - start).drop_last() =~= body.take(i - start));
            assert(digits_value(body.take(i + 1 - start)) == next);
        }
        if next > 2147483648 {
            proof {
                if forall|k: int| 0 <= k < body.len() ==> is_digit(#[trigger] body[k]) {
                    lemma_digits_value_grows(body, i + 1 - start);
                }
            }
            return None;
        }
        value = next;
        i = i + 1;
    }
    assert(body.take(n - start) =~= body);
    if negative {
        Some((-value) as i32)
    } else if value <= 2147483647 {
        Some(value as i32)
    } else {
        None
    }
}


/// The number of the last listing page: the last page number read from the
/// page list, or `None` when there is none or it is not an `i32`.
pub fn last_page(pagelist: &Vec<String>) -> (res: Option<i32>)
    ensures
        pagelist@.len() == 0 ==> res is None,
        pagelist@.len() > 0 ==> res == parsed_i32(pagelist@.last()@),
{
    if pagelist.len() == 0 {
        None
    } else {
        parse_i32(pagelist[pagelist.len() - 1].as_str())
    }
}

/// The patterns a listing page is read with.
pub struct NewsPatterns {
    /// `.newsPost > a`.
    pub page_urls: CompiledSelector,
    /// `.newsPost > a > dl > dd`.
    pub page_titles: CompiledSelector,
    /// `.newsPost > a > dl > dt`.
    pub dates: CompiledSelector,
    /// `script[src]`.
    pub js: CompiledSelector,
    /// `link`.
    pub css: CompiledSelector,
    /// `a.page-numbers`.
    pub page_list: CompiledSelector,
    /// The address opened by a news link: `Unity\.call\('([^?]+)\?auser_id=`.
    pub urls: CompiledRegex,
    /// A quoted address: `"([^?"]+)`.
    pub links: CompiledRegex,
    /// The target of an `href` attribute: `href="([^?"]+)`.
    pub css_links: CompiledRegex,
    /// A page number: `=(\d+)`.
    pub page_number: CompiledRegex,
    /// The text of an element: `>([^<]+)<`.
    pub inner: CompiledRegex,
}

impl NewsPatterns {
    /// The patterns hold the fixed sources.
    pub open spec fn wf(&self) -> bool {
        &&& self.page_urls@ == ".newsPost > a"@
        &&& self.page_titles@ == ".newsPost > a > dl > dd"@
        &&& self.dates@ == ".newsPost > a > dl > dt"@
        &&& self.js@ == "script[src]"@
        &&& self.css@ == "link"@
        &&& self.page_list@ == "a.page-numbers"@
        &&& self.urls@ == "Unity\\.call\\('([^?]+)\\?auser_id="@
        &&& self.links@ == "\"([^?\"]+)"@
        &&& self.css_links@ == "href=\"([^?\"]+)"@
        &&& self.page_number@ == "=(\\d+)"@
        &&& self.inner@ == ">([^<]+)<"@
    }

    /// Compiles the patterns, or says that one was refused.
    pub fn new() -> (res: Result<NewsPatterns, PatternError>)
        ensures
            res matches Ok(p) ==> p.wf(),
            res is Ok <==> (selector_parses(".newsPost > a"@) && selector_parses(".newsPost > a > dl > dd"@)
                && selector_parses(".newsPost > a > dl > dt"@) && selector_parses("script[src]"@)
                && selector_parses("link"@) && selector_parses("a.page-numbers"@)
                && regex_compiles("Unity\\.call\\('([^?]+)\\?auser_id="@)
                && regex_compiles("\"([^?\"]+)"@) && regex_compiles("href=\"([^?\"]+)"@)
                && regex_compiles("=(\\d+)"@) && regex_compiles(">([^<]+)<"@)),
    {
        let page_urls = try_compiled_selector(".newsPost > a")?;
        let page_titles = try_compiled_selector(".newsPost > a > dl > dd")?;
        let dates = try_compiled_selector(".newsPost > a > dl > dt")?;
        let js = try_compiled_selector("script[src]")?;
        let css = try_compiled_selector("link")?;
        let page_list = try_compiled_selector("a.page-numbers")?;
        let urls = try_compiled_regex("Unity\\.call\\('([^?]+)\\?auser_id=")?;
        let links = try_compiled_regex("\"([^?\"]+)")?;
        let css_links = try_compiled_regex("href=\"([^?\"]+)")?;
        let page_number = try_compiled_regex("=(\\d+)")?;
        let inner = try_compiled_regex(">([^<]+)<")?;
        Ok(NewsPatterns { page_urls, page_titles, dates, js, css, page_list, urls, links, css_links, page_number, inner })
    }
}

/// The page numbers linked from a listing page, or `None` when a page link
/// holds no number.
pub fn page_numbers(page: &HtmlDocument, pats: &NewsPatterns) -> (res: Option<Vec<String>>)
    ensures
        res is Some <==> all_groups_found(pats.page_number@, selected_fragments(page@, pats.page_list@)),
        res matches Some(v) ==> views(v@) == first_groups(pats.page_number@, selected_fragments(page@, pats.page_list@)),
{
    try_scraping(&pats.page_number, &pats.page_list, page)
}

/// What is read from one listing page.
pub struct ListingLinks {
    pub titles: Vec<String>,
    pub urls: Vec<String>,
    pub js: Vec<String>,
    pub css: Vec<String>,
    pub dates: Vec<String>,
}

/// The titles, news links, scripts, stylesheets and dates of a listing page,
/// or `None` when an element picked out holds none.
pub fn listing_links(page: &HtmlDocument, pats: &NewsPatterns) -> (res: Option<ListingLinks>)
    ensures
        res is Some <==> {
            &&& all_groups_found(pats.inner@, selected_fragments(page@, pats.page_titles@))
            &&& all_groups_found(pats.urls@, selected_fragments(page@, pats.page_urls@))
            &&& all_groups_found(pats.links@, selected_fragments(page@, pats.js@))
            &&& all_groups_found(pats.css_links@, selected_fragments(page@, pats.css@))
            &&& all_groups_found(pats.inner@, selected_fragments(page@, pats.dates@))
        },
        res matches Some(l) ==> {
            &&& views(l.titles@) == first_groups(pats.inner@, selected_fragments(page@, pats.page_titles@))
            &&& views(l.urls@) == first_groups(pats.urls@, selected_fragments(page@, pats.page_urls@))
            &&& views(l.js@) == first_groups(pats.links@, selected_fragments(page@, pats.js@))
            &&& views(l.css@) == first_groups(pats.css_links@, selected_fragments(page@, pats.css@))
            &&& views(l.dates@) == first_groups(pats.inner@, selected_fragments(page@, pats.dates@))
        },
{
    let titles = try_scraping(&pats.inner, &pats.page_titles, page);
    let urls = try_scraping(&pats.urls, &pats.page_urls, page);
    let js = try_scraping(&pats.links, &pats.js, page);
    let css = try_scraping(&pats.css_links, &pats.css, page);
    let dates = try_scraping(&pats.inner, &pats.dates, page);
    match (titles, urls, js, css, dates) {
        (Some(titles), Some(urls), Some(js), Some(css), Some(dates)) => Some(ListingLinks { titles, urls, js, css, dates }),
        _ => None,
    }
}

/// A job downloading each of `links`, put after `host`, of type `kind`,
/// with `host` as the page it came from.
pub open spec fn hosted_jobs(host: Seq<char>, links: Seq<Seq<char>>, kind: Seq<char>) -> Seq<JobFields> {
    links.map_values(|l: Seq<char>| (host + l, kind, Seq::<char>::empty(), host, Seq::<char>::empty(), Seq::<char>::empty()))
}

fn push_hosted_jobs(out: &mut Vec<ArchiveJob>, host: &str, links: &Vec<String>, kind: &str)
    ensures
        job_views(final(out)@) == job_views(old(out)@) + hosted_jobs(host@, views(links@), kind@),
{
    let ghost start = job_views(out@);
    let mut i: usize = 0;
    while i < links.len()
        invariant
            i <= links.len(),
            job_views(out@) == start + hosted_jobs(host@, views(links@).take(i as int), kind@),
        decreases links.len() - i,
    {
        let mut url = String::from_str(host);
        url.append(links[i].as_str());
        let job = ArchiveJob {
            url,
            filetype: String::from_str(kind),
            savepath: String::new(),
            baseurl: String::from_str(host),
            date: String::new(),
            title: String::new(),
        };
        let ghost before = job_views(out@);
        out.push(job);
        proof {
            assert(job_views(out@) =~= before.push(job@));
            assert(views(links@).take((i + 1) as int) =~= views(links@).take(i as int).push(links@[i as int]@));
            assert(job_views(out@) =~= start + hosted_jobs(host@, views(links@).take((i + 1) as int), kind@));
        }
        i = i + 1;
    }
    proof {
        assert(views(links@).take(links@.len() as int) =~= views(links@));
    }
}

/// The downloads asked for the scripts and stylesheets of a listing page on
/// `host`: each link put after `host`, scripts first.
pub fn page_asset_jobs(host: &str, js: &Vec<String>, css: &Vec<String>) -> (res: Vec<ArchiveJob>)
    ensures
        job_views(res@) == hosted_jobs(host@, views(js@), "js"@) + hosted_jobs(host@, views(css@), "css"@),
        res@.len() == js@.len() + css@.len(),
{
    let mut jobs: Vec<ArchiveJob> = Vec::new();
    assert(job_views(jobs@) =~= Seq::empty());
    push_hosted_jobs(&mut jobs, host, js, "js");
    push_hosted_jobs(&mut jobs, host, css, "css");
    assert(job_views(jobs@) =~= hosted_jobs(host@, views(js@), "js"@) + hosted_jobs(host@, views(css@), "css"@));
    proof {
        lemma_hosted_jobs_one_per_link(host@, views(js@), "js"@);
        lemma_hosted_jobs_one_per_link(host@, views(css@), "css"@);
        assert(job_views(jobs@).len() == jobs@.len());
    }
    jobs
}

/// The download asked for the news item at `link`, the `i`-th on a listing
/// page of `host`, filed under its date and title; `None` when the page
/// lists no date or no title at `i`.
pub fn article_job(host: &str, link: &str, i: usize, titles: &Vec<String>, dates: &Vec<String>) -> (res: Option<ArchiveJob>)
    ensures
        res is Some <==> i < titles@.len() && i < dates@.len(),
        res matches Some(j) ==> j@ == (link@, "html"@, Seq::<char>::empty(), host@, dates@[i as int]@, titles@[i as int]@),
{
    if i < titles.len() && i < dates.len() {
        Some(ArchiveJob {
            url: String::from_str(link),
            filetype: String::from_str("html"),
            savepath: String::new(),
            baseurl: String::from_str(host),
            date: dates[i].clone(),
            title: titles[i].clone(),
        })
    } else {
        None
    }
}

/// Each decimal digit is written as its ASCII character: `'0'` plus the digit.
pub proof fn lemma_digit_chars(d: int)
    requires
        0 <= d < 10,
    ensures
        '0' <= digit_char(d) <= '9',
        digit_char(d) as int - '0' as int == d,
{
}

proof fn lemma_decimal_text_digits(n: nat)
    ensures
        decimal_text(n).len() >= 1,
        forall|k: int| 0 <= k < decimal_text(n).len() ==> '0' <= #[trigger] decimal_text(n)[k] <= '9',
        digits_value(decimal_text(n)) == n,
        n >= 10 ==> decimal_text(n)[0] != '0',
    decreases n,
{
    lemma_digit_chars((n % 10) as int);
    if n >= 10 {
        lemma_decimal_text_digits(n / 10);
        let t = decimal_text(n);
        let p = decimal_text(n / 10);
        assert(t == p.push(digit_char((n % 10) as int)));
        assert(t.drop_last() =~= p);
        assert forall|k: int| 0 <= k < t.len() implies '0' <= #[trigger] t[k] <= '9' by {
            if k < p.len() {
                assert(t[k] == p[k]);
            }
        }
        assert(t.last() == digit_char((n % 10) as int));
        assert(digits_value(t) == digits_value(p) * 10 + (digit_char((n % 10) as int) as int - '0' as int));
        assert((n / 10) * 10 + n % 10 == n);
        assert(t[0] == p[0]);
        if n / 10 < 10 {
            lemma_digit_chars((n / 10) as int);
            assert(p[0] == digit_char((n / 10) as int));
        }
    } else {
        let t = decimal_text(n);
        assert(t.drop_last() =~= Seq::<char>::empty());
        assert(t.last() == digit_char(n as int));
        assert(digits_value(t) == digits_value(t.drop_last()) * 10 + (t.last() as int - '0' as int));
    }
}

/// Writing a page number in decimal and reading it back gives the number:
/// the decimal text of every `n` up to `i32::MAX` parses to `n`, and it has
/// no leading zero.
pub proof fn lemma_decimal_text_parses(n: nat)
    requires
        n <= i32::MAX,
    ensures
        parsed_i32(decimal_text(n)) == Some(n as i32),
        forall|k: int| 0 <= k < decimal_text(n).len() ==> '0' <= #[trigger] decimal_text(n)[k] <= '9',
        n > 0 ==> decimal_text(n)[0] != '0',
{
    lemma_decimal_text_digits(n);
    let t = decimal_text(n);
    assert(unsigned_part(t) == t);
    assert forall|i: int| 0 <= i < t.len() implies is_digit(#[trigger] t[i]) by {}
    if 0 < n < 10 {
        lemma_digit_chars(n as int);
    }
}

/// A single ASCII digit reads as its value.
pub proof fn lemma_parse_single_digit(c: char)
    requires
        '0' <= c <= '9',
    ensures
        parsed_i32(seq![c]) == Some((c as int - '0' as int) as i32),
{
    let s = seq![c];
    assert(unsigned_part(s) == s);
    assert(s.drop_last() =~= Seq::<char>::empty());
    assert(digits_value(s) == digits_value(s.drop_last()) * 10 + (s.last() as int - '0' as int));
    assert(digits_value(s) == c as int - '0' as int);
    assert(forall|i: int| 0 <= i < s.len() ==> is_digit(#[trigger] s[i]));
}

/// Appending an ASCII digit to a number written with digits only multiplies
/// it by ten and adds the digit, as long as the result fits an `i32`.
pub proof fn lemma_parse_append_digit(s: Seq<char>, c: char, v: i32)
    requires
        s.len() > 0,
        '0' <= s[0] <= '9',
        parsed_i32(s) == Some(v),
        '0' <= c <= '9',
        10 * v + (c as int - '0' as int) <= i32::MAX,
    ensures
        parsed_i32(s.push(c)) == Some((10 * v + (c as int - '0' as int)) as i32),
{
    let t = s.push(c);
    assert(unsigned_part(s) == s);
    assert(unsigned_part(t) == t);
    assert(t.drop_last() =~= s);
    assert forall|i: int| 0 <= i < t.len() implies is_digit(#[trigger] t[i]) by {
        if i < s.len() {
            assert(t[i] == s[i]);
            assert(is_digit(s[i]));
        }
    }
    lemma_digits_value_nonneg(s);
}

/// A leading minus sign before a number written with digits only negates it.
pub proof fn lemma_parse_negative(s: Seq<char>, v: i32)
    requires
        s.len() > 0,
        '0' <= s[0] <= '9',
        parsed_i32(s) == Some(v),
    ensures
        parsed_i32(seq!['-'] + s) == Some((-v) as i32),
{
    let t = seq!['-'] + s;
    assert(unsigned_part(s) == s);
    assert(unsigned_part(t) =~= s);
    lemma_digits_value_nonneg(s);
}

/// A character other than an ASCII digit, anywhere after the first place,
/// or in the first place when it is not a sign, makes the text unreadable.
pub proof fn lemma_parse_rejects(s: Seq<char>, k: int)
    requires
        0 <= k < s.len(),
        !('0' <= s[k] <= '9'),
        k == 0 ==> s[0] != '+' && s[0] != '-',
    ensures
        parsed_i32(s) is None,
{
    let body = unsigned_part(s);
    if s.len() > 0 && (s[0] == '-' || s[0] == '+') {
        assert(body[k - 1] == s[k]);
        assert(!is_digit(body[k - 1]));
    } else {
        assert(body[k] == s[k]);
        assert(!is_digit(body[k]));
    }
}

/// One job per link, in order: the `i`-th job downloads the `i`-th link put
/// after `host`, with the given type, for the page `host`, with no save
/// path, date or title.
pub proof fn lemma_hosted_jobs_one_per_link(host: Seq<char>, links: Seq<Seq<char>>, kind: Seq<char>)
    ensures
        hosted_jobs(host, links, kind).len() == links.len(),
        forall|i: int| 0 <= i < links.len() ==> {
            let job = #[trigger] hosted_jobs(host, links, kind)[i];
            &&& job.0 == host + links[i]
            &&& job.1 == kind
            &&& job.2.len() == 0
            &&& job.3 == host
            &&& job.4.len() == 0
            &&& job.5.len() == 0
        },
{
}

/// The URL of listing page `page` ends with the page number, which reads
/// back as `page`: the page fetched is the page asked for.
pub proof fn lemma_page_url_names_page(host: Seq<char>, category: Seq<char>, page: nat)
    requires
        page <= i32::MAX,
    ensures
        category_page_url_text(host, category, page).len() == host.len() + category.len() + 17 + decimal_text(page).len(),
        parsed_i32(category_page_url_text(host, category, page).skip((host.len() + category.len() + 17) as int)) == Some(page as i32),
        category_page_url_text(host, category, page).take((host.len() + category.len() + 17) as int)
            == host + "/cat_news/"@ + category + "/?page="@,
{
    reveal_strlit("/cat_news/");
    reveal_strlit("/?page=");
    let prefix = host + "/cat_news/"@ + category + "/?page="@;
    let url = category_page_url_text(host, category, page);
    assert(prefix.len() == host.len() + category.len() + 17);
    assert(url == prefix + decimal_text(page));
    assert(url.skip(prefix.len() as int) =~= decimal_text(page));
    assert(url.take(prefix.len() as int) =~= prefix);
    lemma_decimal_text_parses(page);
}

/// A numbered listing page is the category's first page followed by
/// `/?page=` and the number.
pub proof fn lemma_page_url_extends_category_url(host: Seq<char>, category: Seq<char>, page: nat)
    ensures
        category_page_url_text(host, category, page) == category_url_text(host, category) + "/?page="@ + decimal_text(page),
{
}

} // verus!
