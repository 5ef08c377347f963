//! The first version of the archiver: a download is filed by its file type,
//! shared assets by kind and pages and images under the item's save path.

use vstd::prelude::*;

use crate::archive::is_never_downloaded;
pub use crate::archive::{never_downloaded, no_download_list, no_download_urls};
use crate::module::{CompiledRegex, PatternError, is_re_match, re_find, try_compiled_regex};
use crate::outside::{regex_compiles, regex_first_group};
use crate::text::str_eq;

verus! {

/// The folder under which the first version kept its archive.
pub const HOMEPATH: &'static str = "/home/y52en";

/// The patterns the first version read URLs with.
pub struct ArchivePatterns {
    /// A root-relative link: `^(/)`.
    pub is_root: CompiledRegex,
    /// The scheme and host of a URL: `(https?://[^/]+)/`.
    pub host: CompiledRegex,
    /// The last segment of a URL: `/(([^/]+$))`.
    pub filename: CompiledRegex,
}

impl ArchivePatterns {
    /// The patterns hold the fixed sources.
    pub open spec fn wf(&self) -> bool {
        &&& self.is_root@ == "^(/)"@
        &&& self.host@ == "(https?://[^/]+)/"@
        &&& self.filename@ == "/(([^/]+$))"@
    }

    /// Compiles the patterns, or says that one was refused.
    pub fn new() -> (res: Result<ArchivePatterns, PatternError>)
        ensures
            res matches Ok(p) ==> p.wf(),
            res is Ok <==> (regex_compiles("^(/)"@) && regex_compiles("(https?://[^/]+)/"@)
                && regex_compiles("/(([^/]+$))"@)),
    {
        let is_root = try_compiled_regex("^(/)")?;
        let host = try_compiled_regex("(https?://[^/]+)/")?;
        let filename = try_compiled_regex("/(([^/]+$))")?;
        Ok(ArchivePatterns { is_root, host, filename })
    }
}

/// The folder, under the archive's root, that a file of type `filetype` is
/// saved in; `None` for an unknown type.
pub open spec fn filetype_folder(filetype: Seq<char>, savepath: Seq<char>) -> Option<Seq<char>> {
    if filetype == "js"@ {
        Some("/kirafan-news_rs/assets/js/"@)
    } else if filetype == "css"@ {
        Some("/kirafan-news_rs/assets/css/"@)
    } else if filetype == "asset"@ {
        Some("/kirafan-news_rs/assets/img/"@)
    } else if filetype == "img"@ || filetype == "html"@ {
        Some("/kirafan-news_rs/news/"@ + savepath + "/"@)
    } else {
        None
    }
}

/// The URL downloaded for `in_url` found on `baseurl`.
pub open spec fn resolved_url(pats: ArchivePatterns, in_url: Seq<char>, baseurl: Seq<char>) -> Seq<char> {
    if regex_first_group(pats.is_root@, in_url) is Some {
        regex_first_group(pats.host@, baseurl)->0 + in_url
    } else {
        in_url
    }
}

/// The name of the saved file: `index.html` for a page, else the last
/// segment of the URL.
pub open spec fn saved_name(pats: ArchivePatterns, url: Seq<char>, filetype: Seq<char>) -> Option<Seq<char>> {
    if filetype == "html"@ {
        Some("index.html"@)
    } else {
        regex_first_group(pats.filename@, url)
    }
}

/// The link can be read: a root-relative link comes from a page with a
/// host, and the saved file has a name.
pub open spec fn readable(pats: ArchivePatterns, in_url: Seq<char>, baseurl: Seq<char>, filetype: Seq<char>) -> bool {
    &&& (regex_first_group(pats.is_root@, in_url) is Some ==> regex_first_group(pats.host@, baseurl) is Some)
    &&& saved_name(pats, resolved_url(pats, in_url, baseurl), filetype) is Some
}

/// What the first version does with one link.
#[derive(Debug)]
pub enum ArchivePlan {
    /// The link is on the list of URLs never downloaded.
    Skip,
    /// Download `url` to the file `path`.
    Save { url: String, path: String },
    /// The link, its page or its file name cannot be read.
    Unreadable,
    /// The file type is none of `js`, `css`, `asset`, `img`, `html`.
    UnknownFiletype,
}

/// What the first version does with the link `in_url` of type `filetype`
/// found on `baseurl`, for an item saved under `savepath`.
pub fn archive_plan(in_url: &str, filetype: &str, savepath: &str, baseurl: &str, pats: &ArchivePatterns) -> (res: ArchivePlan)
    ensures
        res is Skip <==> never_downloaded(in_url@),
        res is Unreadable <==> !never_downloaded(in_url@) && !readable(*pats, in_url@, baseurl@, filetype@),
        res is UnknownFiletype <==> !never_downloaded(in_url@) && readable(*pats, in_url@, baseurl@, filetype@)
            && filetype_folder(filetype@, savepath@) is None,
        res matches ArchivePlan::Save { url, path } ==> {
            &&& url@ == resolved_url(*pats, in_url@, baseurl@)
            &&& filetype_folder(filetype@, savepath@) is Some
            &&& saved_name(*pats, url@, filetype@) is Some
            &&& path@ == HOMEPATH@ + filetype_folder(filetype@, savepath@)->0 + saved_name(*pats, url@, filetype@)->0
        },
        res matches ArchivePlan::Save { url, path } ==> {
            &&& filetype@ == "js"@ ==> path@ == "/home/y52en"@ + "/kirafan-news_rs/assets/js/"@ + regex_first_group(pats.filename@, url@)->0
            &&& filetype@ == "css"@ ==> path@ == "/home/y52en"@ + "/kirafan-news_rs/assets/css/"@ + regex_first_group(pats.filename@, url@)->0
            &&& filetype@ == "asset"@ ==> path@ == "/home/y52en"@ + "/kirafan-news_rs/assets/img/"@ + regex_first_group(pats.filename@, url@)->0
            &&& filetype@ == "img"@ ==> path@ == "/home/y52en"@ + "/kirafan-news_rs/news/"@ + savepath@ + "/"@ + regex_first_group(pats.filename@, url@)->0
            &&& filetype@ == "html"@ ==> path@ == "/home/y52en"@ + "/kirafan-news_rs/news/"@ + savepath@ + "/"@ + "index.html"@
        },
{
    if is_never_downloaded(in_url) {
        return ArchivePlan::Skip;
    }
    let mut url = in_url.to_owned();
    if is_re_match(&pats.is_root, in_url) {
        if !is_re_match(&pats.host, baseurl) {
            return ArchivePlan::Unreadable;
        }
        let mut host = re_find(&pats.host, baseurl);
        host.append(in_url);
        url = host;
    }
    let is_html = str_eq(filetype, "html");
    proof {
        reveal_strlit("html");
    }
    let filename = if is_html {
        String::from_str("index.html")
    } else {
        if !is_re_match(&pats.filename, url.as_str()) {
            return ArchivePlan::Unreadable;
        }
        re_find(&pats.filename, url.as_str())
    };
    let folder = if str_eq(filetype, "js") {
        String::from_str("/kirafan-news_rs/assets/js/")
    } else if str_eq(filetype, "css") {
        String::from_str("/kirafan-news_rs/assets/css/")
    } else if str_eq(filetype, "asset") {
        String::from_str("/kirafan-news_rs/assets/img/")
    } else if str_eq(filetype, "img") || is_html {
        let mut f = String::from_str("/kirafan-news_rs/news/");
        f.append(savepath);
        f.append("/");
        f
    } else {
        return ArchivePlan::UnknownFiletype;
    };
    let mut path = String::from_str(HOMEPATH);
    path.append(folder.as_str());
    path.append(filename.as_str());
    proof {
        assert(path@ =~= HOMEPATH@ + filetype_folder(filetype@, savepath@)->0 + saved_name(*pats, url@, filetype@)->0);
        lemma_filetype_folders(*pats, url@, filetype@, savepath@);
        let name = saved_name(*pats, url@, filetype@)->0;
        if filetype@ == "img"@ || filetype@ == "html"@ {
            assert(path@ =~= "/home/y52en"@ + "/kirafan-news_rs/news/"@ + savepath@ + "/"@ + name);
        }
        if filetype@ == "js"@ {
            assert(path@ =~= "/home/y52en"@ + "/kirafan-news_rs/assets/js/"@ + name);
        }
        if filetype@ == "css"@ {
            assert(path@ =~= "/home/y52en"@ + "/kirafan-news_rs/assets/css/"@ + name);
        }
        if filetype@ == "asset"@ {
            assert(path@ =~= "/home/y52en"@ + "/kirafan-news_rs/assets/img/"@ + name);
        }
    }
    ArchivePlan::Save { url, path }
}

/// Where each file type is saved, under `/home/y52en`: scripts, stylesheets
/// and backgrounds in the shared asset folders (backgrounds with the images),
/// images and pages under the item's save path, and nothing for any other
/// type.
pub proof fn lemma_filetype_folders(pats: ArchivePatterns, url: Seq<char>, filetype: Seq<char>, savepath: Seq<char>)
    ensures
        HOMEPATH@ == "/home/y52en"@,
        filetype == "js"@ ==> filetype_folder(filetype, savepath) == Some("/kirafan-news_rs/assets/js/"@),
        filetype == "css"@ ==> filetype_folder(filetype, savepath) == Some("/kirafan-news_rs/assets/css/"@),
        filetype == "asset"@ ==> filetype_folder(filetype, savepath) == Some("/kirafan-news_rs/assets/img/"@),
        filetype == "img"@ ==> filetype_folder(filetype, savepath) == Some("/kirafan-news_rs/news/"@ + savepath + "/"@),
        filetype == "html"@ ==> filetype_folder(filetype, savepath) == Some("/kirafan-news_rs/news/"@ + savepath + "/"@),
        filetype == "html"@ ==> saved_name(pats, url, filetype) == Some("index.html"@),
        filetype != "html"@ ==> saved_name(pats, url, filetype) == regex_first_group(pats.filename@, url),
        filetype == "js"@ || filetype == "css"@ || filetype == "asset"@ || filetype == "img"@
            ==> saved_name(pats, url, filetype) == regex_first_group(pats.filename@, url),
        filetype != "js"@ && filetype != "css"@ && filetype != "asset"@ && filetype != "img"@ && filetype != "html"@
            ==> filetype_folder(filetype, savepath) is None,
{
    reveal_strlit("js");
    reveal_strlit("css");
    reveal_strlit("asset");
    reveal_strlit("img");
    reveal_strlit("html");
    assert("js"@.len() == 2 && "css"@.len() == 3 && "asset"@.len() == 5 && "img"@.len() == 3 && "html"@.len() == 4);
    assert("css"@[0] == 'c' && "img"@[0] == 'i');
    if filetype == "js"@ {
        assert(filetype != "html"@);
    }
    if filetype == "css"@ {
        assert(filetype != "js"@);
        assert(filetype != "html"@);
    }
    if filetype == "asset"@ {
        assert(filetype != "js"@);
        assert(filetype != "css"@);
        assert(filetype != "html"@);
    }
    if filetype == "img"@ {
        assert(filetype != "js"@);
        assert(filetype != "css"@);
        assert(filetype != "asset"@);
        assert(filetype != "html"@);
    }
    if filetype == "html"@ {
        assert(filetype != "js"@);
        assert(filetype != "css"@);
        assert(filetype != "asset"@);
    }
}

} // verus!
