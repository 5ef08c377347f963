//! Where the archiver saves a downloaded page or asset: the skip list, the
//! resolution of root-relative links against the page they came from, and
//! the folder and file that a URL is saved to.

use vstd::prelude::*;

use crate::module::{
    CompiledRegex, PatternError, is_re_match, re_find, try_compiled_regex,
};
use crate::outside::{regex_first_group, regex_compiles, regex_replace_all, regex_replaced_all};
use crate::text::{replace_slashes, views, widen_slashes};

verus! {

/// The folder under which the archive is kept.
pub const HOMEPATH: &'static str = "/home/pi/kirafan-news_rs";

/// One download that the archiver is asked to make.
#[derive(Debug)]
pub struct ArchiveJob {
    pub url: String,
    pub filetype: String,
    pub savepath: String,
    pub baseurl: String,
    pub date: String,
    pub title: String,
}

/// The fields of a job: url, file type, save path, base URL, date, title.
pub type JobFields = (Seq<char>, Seq<char>, Seq<char>, Seq<char>, Seq<char>, Seq<char>);

impl View for ArchiveJob {
    type V = JobFields;

    open spec fn view(&self) -> JobFields {
        (self.url@, self.filetype@, self.savepath@, self.baseurl@, self.date@, self.title@)
    }
}

/// The views of a list of jobs.
pub open spec fn job_views(jobs: Seq<ArchiveJob>) -> Seq<JobFields> {
    jobs.map_values(|j: ArchiveJob| j@)
}

/// A job downloading each of `links`, of type `kind`, for the page at
/// `baseurl`, with no date or title.
pub open spec fn link_jobs(links: Seq<Seq<char>>, kind: Seq<char>, savepath: Seq<char>, baseurl: Seq<char>) -> Seq<JobFields> {
    links.map_values(|l: Seq<char>| (l, kind, savepath, baseurl, Seq::<char>::empty(), Seq::<char>::empty()))
}

/// Appends to `out` a job for each of `links`, of type `kind`, for the page
/// at `baseurl`, with no date or title.
pub fn push_link_jobs(out: &mut Vec<ArchiveJob>, links: &Vec<String>, kind: &str, savepath: &str, baseurl: &str)
    ensures
        job_views(final(out)@) == job_views(old(out)@) + link_jobs(views(links@), kind@, savepath@, baseurl@),
        final(out)@.len() == old(out)@.len() + links@.len(),
        forall|i: int| 0 <= i < old(out)@.len() ==> #[trigger] final(out)@[i]@ == old(out)@[i]@,
        forall|i: int| 0 <= i < links@.len() ==> {
            let job = #[trigger] final(out)@[old(out)@.len() + i];
            &&& job.url@ == links@[i]@
            &&& job.filetype@ == kind@
            &&& job.savepath@ == savepath@
            &&& job.baseurl@ == baseurl@
            &&& job.date@.len() == 0
            &&& job.title@.len() == 0
        },
{
    let ghost start = job_views(out@);
    let mut i: usize = 0;
    while i < links.len()
        invariant
            i <= links.len(),
            job_views(out@) == start + link_jobs(views(links@).take(i as int), kind@, savepath@, baseurl@),
        decreases links.len() - i,
    {
        let job = ArchiveJob {
            url: links[i].clone(),
            filetype: String::from_str(kind),
            savepath: String::from_str(savepath),
            baseurl: String::from_str(baseurl),
            date: String::new(),
            title: String::new(),
        };
        let ghost before = job_views(out@);
        out.push(job);
        proof {
            assert(job_views(out@) =~= before.push(job@));
            assert(views(links@).take((i + 1) as int) =~= views(links@).take(i as int).push(links@[i as int]@));
            assert(job_views(out@) =~= start + link_jobs(views(links@).take((i + 1) as int), kind@, savepath@, baseurl@));
        }
        i = i + 1;
    }
    proof {
        assert(views(links@).take(links@.len() as int) =~= views(links@));
        let total = job_views(out@);
        assert(total.len() == out@.len());
        assert forall|i: int| 0 <= i < old(out)@.len() implies #[trigger] out@[i]@ == old(out)@[i]@ by {
            assert(total[i] == out@[i]@);
            assert(start[i] == old(out)@[i]@);
        }
        assert forall|i: int| 0 <= i < links@.len() implies {
            let job = #[trigger] out@[old(out)@.len() + i];
            &&& job.url@ == links@[i]@
            &&& job.filetype@ == kind@
            &&& job.savepath@ == savepath@
            &&& job.baseurl@ == baseurl@
            &&& job.date@.len() == 0
            &&& job.title@.len() == 0
        } by {
            assert(total[old(out)@.len() + i] == out@[old(out)@.len() + i]@);
            assert(views(links@)[i] == links@[i]@);
        }
    }
}

/// The folder to create and the file to write for one download.
#[derive(Debug)]
pub struct SaveTarget {
    pub dir: String,
    pub file: String,
}

/// The patterns the archiver reads URLs with.
pub struct ArchivePatterns {
    /// A root-relative link: `^/` (it sets no group 1).
    pub is_root: CompiledRegex,
    /// The scheme and host of a URL: `(https?://[^/]+)/`.
    pub host: CompiledRegex,
    /// Everything after the scheme: `//(.+)$`.
    pub path: CompiledRegex,
    /// The folders after the scheme: `//((?:[^/]+/)+)[^/]*$`.
    pub folder: CompiledRegex,
    /// A URL naming a folder: `/$` (it sets no group 1).
    pub is_html: CompiledRegex,
    /// A slash: `/`.
    pub slash: CompiledRegex,
}

/// The four URLs that are never downloaded.
pub open spec fn no_download_urls() -> Seq<Seq<char>> {
    seq![
        "https://krr-dev-web.star-api.com/wp-content/uploads/2019/09/専用武器追加_201910-1.png"@,
        "https://krr-dev-web.star-api.com/wp-content/uploads/2019/05/NEW-GAME_-期間限定特別_クロモン.png"@,
        "http://krr-dev-web.star-api.com/wp-content/uploads/2018/05/Profile_naru_hanayamata1_1_Ud7fKyWG.png"@,
        "https://krr-dev-web.star-api.com/wp-content/uploads/2018/08/29002000用帯.png"@,
    ]
}

/// The four URLs that are never downloaded.
pub fn no_download_list() -> (res: [&'static str; 4])
    ensures
        forall|i: int| 0 <= i < 4 ==> (#[trigger] res@[i])@ == no_download_urls()[i],
{
    [
        "https://krr-dev-web.star-api.com/wp-content/uploads/2019/09/専用武器追加_201910-1.png",
        "https://krr-dev-web.star-api.com/wp-content/uploads/2019/05/NEW-GAME_-期間限定特別_クロモン.png",
        "http://krr-dev-web.star-api.com/wp-content/uploads/2018/05/Profile_naru_hanayamata1_1_Ud7fKyWG.png",
        "https://krr-dev-web.star-api.com/wp-content/uploads/2018/08/29002000用帯.png",
    ]
}

impl ArchivePatterns {
    /// The patterns hold the archiver's fixed sources.
    pub open spec fn wf(&self) -> bool {
        &&& self.is_root@ == "^/"@
        &&& self.host@ == "(https?://[^/]+)/"@
        &&& self.path@ == "//(.+)$"@
        &&& self.folder@ == "//((?:[^/]+/)+)[^/]*$"@
        &&& self.is_html@ == "/$"@
        &&& self.slash@ == "/"@
    }

    /// Compiles the archiver's patterns, or says that one was refused.
    pub fn new() -> (res: Result<ArchivePatterns, PatternError>)
        ensures
            res matches Ok(p) ==> p.wf(),
            res is Ok <==> (regex_compiles("^/"@) && regex_compiles("(https?://[^/]+)/"@)
                && regex_compiles("//(.+)$"@) && regex_compiles("//((?:[^/]+/)+)[^/]*$"@)
                && regex_compiles("/$"@) && regex_compiles("/"@)),
    {
        let is_root = try_compiled_regex("^/")?;
        let host = try_compiled_regex("(https?://[^/]+)/")?;
        let path = try_compiled_regex("//(.+)$")?;
        let folder = try_compiled_regex("//((?:[^/]+/)+)[^/]*$")?;
        let is_html = try_compiled_regex("/$")?;
        let slash = try_compiled_regex("/")?;
        Ok(ArchivePatterns { is_root, host, path, folder, is_html, slash })
    }
}

/// Whether `url` is on the list of URLs never downloaded.
pub open spec fn never_downloaded(url: Seq<char>) -> bool {
    no_download_urls().contains(url)
}

/// The URL that is downloaded for the link `in_url` found on `baseurl`: a
/// root-relative link is put after the scheme and host of `baseurl`.
pub open spec fn resolved_url(pats: ArchivePatterns, in_url: Seq<char>, baseurl: Seq<char>) -> Seq<char> {
    if regex_first_group(pats.is_root@, in_url) is Some {
        regex_first_group(pats.host@, baseurl)->0 + in_url
    } else {
        in_url
    }
}

/// The link can be resolved: when it is root-relative, `baseurl` names a host.
pub open spec fn resolvable(pats: ArchivePatterns, in_url: Seq<char>, baseurl: Seq<char>) -> bool {
    regex_first_group(pats.is_root@, in_url) is Some ==> regex_first_group(pats.host@, baseurl) is Some
}

/// `date`, then `title` with its slashes replaced as the archiver does: the
/// name of the folder of one news item.
pub open spec fn item_segment(pats: ArchivePatterns, date: Seq<char>, title: Seq<char>) -> Seq<char> {
    widen_slashes(date) + regex_replaced_all(pats.slash@, title, "／"@)
}

/// The folder that a download from `url` is filed under.
pub open spec fn target_dir(pats: ArchivePatterns, url: Seq<char>, date: Seq<char>, title: Seq<char>) -> Seq<char> {
    HOMEPATH@ + "/"@ + regex_first_group(pats.folder@, url)->0 + "/"@ + item_segment(pats, date, title) + "/"@
}

/// The file that a download from `url` is written to.
pub open spec fn target_file(pats: ArchivePatterns, url: Seq<char>, date: Seq<char>, title: Seq<char>) -> Seq<char> {
    let base = HOMEPATH@ + "/"@ + regex_first_group(pats.path@, url)->0;
    if regex_first_group(pats.is_html@, url) is Some {
        base + item_segment(pats, date, title) + "/"@ + "index.html"@
    } else {
        base
    }
}

/// The URL can be filed: it has folders and a path after its scheme.
pub open spec fn fileable(pats: ArchivePatterns, url: Seq<char>) -> bool {
    &&& regex_first_group(pats.folder@, url) is Some
    &&& regex_first_group(pats.path@, url) is Some
}

/// Whether `url` is on the list of URLs never downloaded.
pub fn is_never_downloaded(url: &str) -> (res: bool)
    ensures
        res == never_downloaded(url@),
{
    let list = no_download_list();
    let listed = crate::module::is_array_contein(list, url);
    proof {
        if listed {
            let i = choose|i: int| 0 <= i < 4 && (#[trigger] list@[i])@ == url@;
            assert(no_download_urls()[i] == url@);
        } else {
            assert forall|i: int| 0 <= i < 4 implies #[trigger] no_download_urls()[i] != url@ by {
                assert(list@[i]@ == no_download_urls()[i]);
            }
        }
    }
    listed
}

/// The URL to download for the link `in_url` found on `baseurl`, or `None`
/// when the link is on the list of URLs never downloaded.
pub fn resolve_archive_url(in_url: &str, baseurl: &str, pats: &ArchivePatterns) -> (res: Option<String>)
    requires
        !never_downloaded(in_url@) ==> resolvable(*pats, in_url@, baseurl@),
    ensures
        res is None <==> never_downloaded(in_url@),
        res matches Some(u) ==> u@ == resolved_url(*pats, in_url@, baseurl@),
{
    let listed = is_never_downloaded(in_url);
    if listed {
        return None;
    }
    if is_re_match(&pats.is_root, in_url) {
        let mut url = re_find(&pats.host, baseurl);
        url.append(in_url);
        Some(url)
    } else {
        Some(in_url.to_owned())
    }
}

/// The folder to create and the file to write for a download from `url` of
/// the news item dated `date` and titled `title`.
pub fn save_target(url: &str, date: &str, title: &str, pats: &ArchivePatterns) -> (res: SaveTarget)
    requires
        fileable(*pats, url@),
    ensures
        res.dir@ == target_dir(*pats, url@, date@, title@),
        res.file@ == target_file(*pats, url@, date@, title@),
{
    let folder = re_find(&pats.folder, url);
    let url_path = re_find(&pats.path, url);
    let date_seg = replace_slashes(date);
    let title_seg = regex_replace_all(&pats.slash, title, "／");
    let mut file = String::from_str(HOMEPATH);
    file.append("/");
    file.append(url_path.as_str());
    if is_re_match(&pats.is_html, url) {
        file.append(date_seg.as_str());
        file.append(title_seg.as_str());
        file.append("/");
        file.append("index.html");
    }
    let mut dir = String::from_str(HOMEPATH);
    dir.append("/");
    dir.append(folder.as_str());
    dir.append("/");
    dir.append(date_seg.as_str());
    dir.append(title_seg.as_str());
    dir.append("/");
    proof {
        assert(dir@ =~= target_dir(*pats, url@, date@, title@));
        assert(file@ =~= target_file(*pats, url@, date@, title@));
    }
    SaveTarget { dir, file }
}

/// What the archiver does with one link.
#[derive(Debug)]
pub enum ArchivePlan {
    /// The link is on the list of URLs never downloaded.
    Skip,
    /// Download `url` into `target`.
    Save { url: String, target: SaveTarget },
    /// The link or the page it came from cannot be read as a URL.
    Unreadable,
}

/// What the archiver does with the link `in_url` found on `baseurl`, for
/// the news item dated `date` and titled `title`.
pub fn archive_plan(in_url: &str, baseurl: &str, date: &str, title: &str, pats: &ArchivePatterns) -> (res: ArchivePlan)
    ensures
        res is Skip <==> never_downloaded(in_url@),
        res is Unreadable <==> !never_downloaded(in_url@) && (!resolvable(*pats, in_url@, baseurl@)
            || !fileable(*pats, resolved_url(*pats, in_url@, baseurl@))),
        res matches ArchivePlan::Save { url, target } ==> {
            &&& url@ == resolved_url(*pats, in_url@, baseurl@)
            &&& target.dir@ == target_dir(*pats, url@, date@, title@)
            &&& target.file@ == target_file(*pats, url@, date@, title@)
        },
{
    let listed = is_never_downloaded(in_url);
    if !listed && is_re_match(&pats.is_root, in_url) && !is_re_match(&pats.host, baseurl) {
        return ArchivePlan::Unreadable;
    }
    match resolve_archive_url(in_url, baseurl, pats) {
        None => ArchivePlan::Skip,
        Some(url) => {
            if is_re_match(&pats.folder, url.as_str()) && is_re_match(&pats.path, url.as_str()) {
                let target = save_target(url.as_str(), date, title, pats);
                ArchivePlan::Save { url, target }
            } else {
                ArchivePlan::Unreadable
            }
        },
    }
}

/// The URLs never downloaded are exactly the four of the skip list, no
/// more and no fewer, written out here as they stand in the list.
pub proof fn lemma_skip_list_exact(url: Seq<char>)
    ensures
        never_downloaded(url) <==> (
            url == "https://krr-dev-web.star-api.com/wp-content/uploads/2019/09/専用武器追加_201910-1.png"@
            || url == "https://krr-dev-web.star-api.com/wp-content/uploads/2019/05/NEW-GAME_-期間限定特別_クロモン.png"@
            || url == "http://krr-dev-web.star-api.com/wp-content/uploads/2018/05/Profile_naru_hanayamata1_1_Ud7fKyWG.png"@
            || url == "https://krr-dev-web.star-api.com/wp-content/uploads/2018/08/29002000用帯.png"@),
{
    let list = no_download_urls();
    if never_downloaded(url) {
        let i = choose|i: int| 0 <= i < list.len() && list[i] == url;
        assert(0 <= i < 4);
    } else {
        assert(list[0] != url);
        assert(list[1] != url);
        assert(list[2] != url);
        assert(list[3] != url);
    }
    if url == "http://krr-dev-web.star-api.com/wp-content/uploads/2018/05/Profile_naru_hanayamata1_1_Ud7fKyWG.png"@ {
        assert(list[2] == url);
    }
    if url == "https://krr-dev-web.star-api.com/wp-content/uploads/2019/09/専用武器追加_201910-1.png"@ {
        assert(list[0] == url);
    }
    if url == "https://krr-dev-web.star-api.com/wp-content/uploads/2019/05/NEW-GAME_-期間限定特別_クロモン.png"@ {
        assert(list[1] == url);
    }
    if url == "https://krr-dev-web.star-api.com/wp-content/uploads/2018/08/29002000用帯.png"@ {
        assert(list[3] == url);
    }
}

/// The archive is kept under `/home/pi/kirafan-news_rs`.
pub proof fn lemma_archive_root()
    ensures
        HOMEPATH@ == "/home/pi/kirafan-news_rs"@,
{
}

/// One job per link, in the order of the links: the `i`-th job downloads the
/// `i`-th link, with the given type, save path and page, and no date or title.
pub proof fn lemma_link_jobs_one_per_link(links: Seq<Seq<char>>, kind: Seq<char>, savepath: Seq<char>, baseurl: Seq<char>)
    ensures
        link_jobs(links, kind, savepath, baseurl).len() == links.len(),
        forall|i: int| 0 <= i < links.len() ==> {
            let job = #[trigger] link_jobs(links, kind, savepath, baseurl)[i];
            &&& job.0 == links[i]
            &&& job.1 == kind
            &&& job.2 == savepath
            &&& job.3 == baseurl
            &&& job.4.len() == 0
            &&& job.5.len() == 0
        },
{
}

} // verus!
