//! Saving one news item: the links read from its page and the downloads
//! that are asked for them.

use vstd::prelude::*;

use crate::archive::{ArchiveJob, JobFields, job_views, lemma_link_jobs_one_per_link, link_jobs, push_link_jobs};
use crate::module::{
    CompiledRegex, CompiledSelector, HtmlDocument, PatternError, all_groups_found, first_groups,
    try_compiled_regex, try_compiled_selector, try_scraping,
};
use crate::outside::{regex_compiles, selected_fragments, selector_parses};
use crate::text::views;

verus! {

/// The patterns a news item's page is read with.
pub struct SavenewsPatterns {
    /// The target of a `src` attribute: `src="([^?"]+)`.
    pub src_link: CompiledRegex,
    /// The target of an `href` attribute: `href="([^?"]+)`.
    pub href_link: CompiledRegex,
    /// The target of a CSS `url(...)`: `url\(([^?)]+)`.
    pub url_link: CompiledRegex,
    /// `script[src]`.
    pub js: CompiledSelector,
    /// `link[rel="stylesheet"]`.
    pub css: CompiledSelector,
    /// `img[src]`.
    pub img: CompiledSelector,
    /// `div[style*='background-image']`.
    pub assets: CompiledSelector,
}

impl SavenewsPatterns {
    /// The patterns hold the fixed sources.
    pub open spec fn wf(&self) -> bool {
        &&& self.src_link@ == "src=\"([^?\"]+)"@
        &&& self.href_link@ == "href=\"([^?\"]+)"@
        &&& self.url_link@ == "url\\(([^?)]+)"@
        &&& self.js@ == "script[src]"@
        &&& self.css@ == "link[rel=\"stylesheet\"]"@
        &&& self.img@ == "img[src]"@
        &&& self.assets@ == "div[style*='background-image']"@
    }

    /// Compiles the patterns, or says that one was refused.
    pub fn new() -> (res: Result<SavenewsPatterns, PatternError>)
        ensures
            res matches Ok(p) ==> p.wf(),
            res is Ok <==> (regex_compiles("src=\"([^?\"]+)"@) && regex_compiles("href=\"([^?\"]+)"@)
                && regex_compiles("url\\(([^?)]+)"@) && selector_parses("script[src]"@)
                && selector_parses("link[rel=\"stylesheet\"]"@) && selector_parses("img[src]"@)
                && selector_parses("div[style*='background-image']"@)),
    {
        let src_link = try_compiled_regex("src=\"([^?\"]+)")?;
        let href_link = try_compiled_regex("href=\"([^?\"]+)")?;
        let url_link = try_compiled_regex("url\\(([^?)]+)")?;
        let js = try_compiled_selector("script[src]")?;
        let css = try_compiled_selector("link[rel=\"stylesheet\"]")?;
        let img = try_compiled_selector("img[src]")?;
        let assets = try_compiled_selector("div[style*='background-image']")?;
        Ok(SavenewsPatterns { src_link, href_link, url_link, js, css, img, assets })
    }
}

/// The links found on a news item's page.
pub struct SavenewsLinks {
    pub js: Vec<String>,
    pub css: Vec<String>,
    pub img: Vec<String>,
    pub assets: Vec<String>,
}

/// The page can be read: every element picked by each selector holds a link.
pub open spec fn page_readable(pats: SavenewsPatterns, page: Seq<char>) -> bool {
    &&& all_groups_found(pats.src_link@, selected_fragments(page, pats.js@))
    &&& all_groups_found(pats.href_link@, selected_fragments(page, pats.css@))
    &&& all_groups_found(pats.src_link@, selected_fragments(page, pats.img@))
    &&& all_groups_found(pats.url_link@, selected_fragments(page, pats.assets@))
}

/// The script, stylesheet, image and background links of a news item's
/// page, or `None` when an element picked out holds no link.
pub fn savenews_links(page: &HtmlDocument, pats: &SavenewsPatterns) -> (res: Option<SavenewsLinks>)
    ensures
        res is Some <==> page_readable(*pats, page@),
        res matches Some(l) ==> {
            &&& views(l.js@) == first_groups(pats.src_link@, selected_fragments(page@, pats.js@))
            &&& views(l.css@) == first_groups(pats.href_link@, selected_fragments(page@, pats.css@))
            &&& views(l.img@) == first_groups(pats.src_link@, selected_fragments(page@, pats.img@))
            &&& views(l.assets@) == first_groups(pats.url_link@, selected_fragments(page@, pats.assets@))
        },
{
    let js = try_scraping(&pats.src_link, &pats.js, page);
    let css = try_scraping(&pats.href_link, &pats.css, page);
    let img = try_scraping(&pats.src_link, &pats.img, page);
    let assets = try_scraping(&pats.url_link, &pats.assets, page);
    match (js, css, img, assets) {
        (Some(js), Some(css), Some(img), Some(assets)) => Some(SavenewsLinks { js, css, img, assets }),
        _ => None,
    }
}

/// The downloads asked for a news item fetched from `path` and filed under
/// `url` and `folder`: its scripts, stylesheets and backgrounds as shared
/// assets, then its images into the item's own folder.
pub open spec fn savenews_job_list(
    path: Seq<char>,
    url: Seq<char>,
    folder: Seq<char>,
    js: Seq<Seq<char>>,
    css: Seq<Seq<char>>,
    img: Seq<Seq<char>>,
    assets: Seq<Seq<char>>,
) -> Seq<(Seq<char>, Seq<char>, Seq<char>, Seq<char>, Seq<char>, Seq<char>)> {
    link_jobs(js, "js"@, Seq::empty(), path)
        + link_jobs(css, "css"@, Seq::empty(), path)
        + link_jobs(assets, "asset"@, Seq::empty(), path)
        + link_jobs(img, "img"@, url + "/"@ + folder + "/"@, path)
}

/// The downloads asked for the news item fetched from `path`, whose page
/// holds `links`, filed under `url` and `folder`.
pub fn savenews_jobs(path: &str, url: &str, folder: &str, links: &SavenewsLinks) -> (res: Vec<ArchiveJob>)
    ensures
        job_views(res@) == savenews_job_list(
            path@,
            url@,
            folder@,
            views(links.js@),
            views(links.css@),
            views(links.img@),
            views(links.assets@),
        ),
        res@.len() == links.js@.len() + links.css@.len() + links.assets@.len() + links.img@.len(),
{
    let mut jobs: Vec<ArchiveJob> = Vec::new();
    proof {
        reveal_strlit("");
        assert(""@ =~= Seq::<char>::empty());
        assert(job_views(jobs@) =~= Seq::empty());
    }
    push_link_jobs(&mut jobs, &links.js, "js", "", path);
    push_link_jobs(&mut jobs, &links.css, "css", "", path);
    push_link_jobs(&mut jobs, &links.assets, "asset", "", path);
    let mut img_path = String::from_str(url);
    img_path.append("/");
    img_path.append(folder);
    img_path.append("/");
    push_link_jobs(&mut jobs, &links.img, "img", img_path.as_str(), path);
    proof {
        assert(img_path@ =~= url@ + "/"@ + folder@ + "/"@);
        assert(job_views(jobs@) =~= savenews_job_list(
            path@,
            url@,
            folder@,
            views(links.js@),
            views(links.css@),
            views(links.img@),
            views(links.assets@),
        ));
        lemma_savenews_one_job_per_link(path@, url@, folder@, views(links.js@), views(links.css@), views(links.img@), views(links.assets@));
        assert(job_views(jobs@).len() == jobs@.len());
    }
    jobs
}

/// The downloads for a news item: one per link found, scripts first, then
/// stylesheets, then backgrounds, then images; each downloads its own link,
/// for the item's page, with no date or title; scripts, stylesheets and
/// backgrounds are shared assets with no save path, images are filed under
/// the item's `url` and `folder`.
pub proof fn lemma_savenews_one_job_per_link(
    path: Seq<char>,
    url: Seq<char>,
    folder: Seq<char>,
    js: Seq<Seq<char>>,
    css: Seq<Seq<char>>,
    img: Seq<Seq<char>>,
    assets: Seq<Seq<char>>,
)
    ensures
        ({
            let jobs = savenews_job_list(path, url, folder, js, css, img, assets);
            &&& jobs.len() == js.len() + css.len() + assets.len() + img.len()
            &&& forall|i: int| 0 <= i < js.len() ==> #[trigger] jobs[i] == (js[i], "js"@, Seq::<char>::empty(), path, Seq::<char>::empty(), Seq::<char>::empty())
            &&& forall|i: int| 0 <= i < css.len() ==> #[trigger] jobs[js.len() + i] == (css[i], "css"@, Seq::<char>::empty(), path, Seq::<char>::empty(), Seq::<char>::empty())
            &&& forall|i: int| 0 <= i < assets.len() ==> #[trigger] jobs[js.len() + css.len() + i] == (assets[i], "asset"@, Seq::<char>::empty(), path, Seq::<char>::empty(), Seq::<char>::empty())
            &&& forall|i: int| 0 <= i < img.len() ==> #[trigger] jobs[js.len() + css.len() + assets.len() + i] == (img[i], "img"@, url + "/"@ + folder + "/"@, path, Seq::<char>::empty(), Seq::<char>::empty())
        }),
{
    let e = Seq::<char>::empty();
    let a = link_jobs(js, "js"@, e, path);
    let b = link_jobs(css, "css"@, e, path);
    let c = link_jobs(assets, "asset"@, e, path);
    let d = link_jobs(img, "img"@, url + "/"@ + folder + "/"@, path);
    lemma_link_jobs_one_per_link(js, "js"@, e, path);
    lemma_link_jobs_one_per_link(css, "css"@, e, path);
    lemma_link_jobs_one_per_link(assets, "asset"@, e, path);
    lemma_link_jobs_one_per_link(img, "img"@, url + "/"@ + folder + "/"@, path);
    let jobs = savenews_job_list(path, url, folder, js, css, img, assets);
    assert(jobs == a + b + c + d);
    assert forall|i: int| 0 <= i < js.len() implies #[trigger] jobs[i] == (js[i], "js"@, e, path, e, e) by {
        assert(jobs[i] == a[i]);
        assert(a[i].4 =~= e);
        assert(a[i].5 =~= e);
    }
    assert forall|i: int| 0 <= i < css.len() implies #[trigger] jobs[js.len() + i] == (css[i], "css"@, e, path, e, e) by {
        assert(jobs[js.len() + i] == b[i]);
        assert(b[i].4 =~= e);
        assert(b[i].5 =~= e);
    }
    assert forall|i: int| 0 <= i < assets.len() implies #[trigger] jobs[js.len() + css.len() + i] == (assets[i], "asset"@, e, path, e, e) by {
        assert(jobs[js.len() + css.len() + i] == c[i]);
        assert(c[i].4 =~= e);
        assert(c[i].5 =~= e);
    }
    assert forall|i: int| 0 <= i < img.len() implies #[trigger] jobs[js.len() + css.len() + assets.len() + i] == (img[i], "img"@, url + "/"@ + folder + "/"@, path, e, e) by {
        assert(jobs[js.len() + css.len() + assets.len() + i] == d[i]);
        assert(d[i].4 =~= e);
        assert(d[i].5 =~= e);
    }
}

} // verus!
