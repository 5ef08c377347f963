//! Announcing new news items once: which listed items have not been
//! announced yet, the list of announced titles afterwards, and the opening
//! line of the announcement.

use vstd::prelude::*;

use crate::module::is_vec_contein;
use crate::text::views;

verus! {

/// The positions, among `titles`, of the titles not yet in `tweeted`, in order.
pub open spec fn fresh_positions(titles: Seq<Seq<char>>, tweeted: Seq<Seq<char>>) -> Seq<int>
    decreases titles.len(),
{
    if titles.len() == 0 {
        Seq::empty()
    } else {
        let rest = fresh_positions(titles.drop_last(), tweeted);
        if tweeted.contains(titles.last()) {
            rest
        } else {
            rest.push(titles.len() - 1)
        }
    }
}

/// The titles not yet in `tweeted`, in the order they are listed.
pub open spec fn fresh_titles(titles: Seq<Seq<char>>, tweeted: Seq<Seq<char>>) -> Seq<Seq<char>> {
    fresh_positions(titles, tweeted).map_values(|i: int| titles[i])
}

/// The links of the titles not yet in `tweeted`.
pub open spec fn fresh_urls(titles: Seq<Seq<char>>, urls: Seq<Seq<char>>, tweeted: Seq<Seq<char>>) -> Seq<Seq<char>> {
    fresh_positions(titles, tweeted).map_values(|i: int| urls[i])
}

/// Every title not yet announced has a link.
pub open spec fn fresh_have_urls(titles: Seq<Seq<char>>, urls: Seq<Seq<char>>, tweeted: Seq<Seq<char>>) -> bool {
    forall|k: int| 0 <= k < fresh_positions(titles, tweeted).len()
        ==> #[trigger] fresh_positions(titles, tweeted)[k] < urls.len()
}

proof fn lemma_fresh_positions_bounds(titles: Seq<Seq<char>>, tweeted: Seq<Seq<char>>)
    ensures
        forall|k: int| 0 <= k < fresh_positions(titles, tweeted).len() ==>
            0 <= #[trigger] fresh_positions(titles, tweeted)[k] < titles.len()
            && !tweeted.contains(titles[fresh_positions(titles, tweeted)[k]]),
        forall|i: int| 0 <= i < titles.len() && !tweeted.contains(#[trigger] titles[i]) ==>
            fresh_positions(titles, tweeted).contains(i),
    decreases titles.len(),
{
    if titles.len() > 0 {
        lemma_fresh_positions_bounds(titles.drop_last(), tweeted);
        let rest = fresh_positions(titles.drop_last(), tweeted);
        assert forall|k: int| 0 <= k < rest.len() implies titles.drop_last()[rest[k]] == titles[rest[k]] by {}
        assert forall|i: int| 0 <= i < titles.len() && !tweeted.contains(#[trigger] titles[i]) implies
            fresh_positions(titles, tweeted).contains(i) by {
            if i < titles.len() - 1 {
                assert(titles.drop_last()[i] == titles[i]);
                let k = choose|k: int| 0 <= k < rest.len() && rest[k] == i;
                if !tweeted.contains(titles.last()) {
                    assert(fresh_positions(titles, tweeted)[k] == i);
                }
            } else {
                assert(fresh_positions(titles, tweeted).last() == i);
            }
        }
    }
}

/// The titles listed on a page that are not yet in `tweeted`, with their
/// links, in listed order; `None` when such a title has no link.
pub fn untweeted_posts(titles: &Vec<String>, urls: &Vec<String>, tweeted: &Vec<String>) -> (res: Option<(Vec<String>, Vec<String>)>)
    ensures
        res is Some <==> fresh_have_urls(views(titles@), views(urls@), views(tweeted@)),
        res matches Some((t, u)) ==> {
            &&& views(t@) == fresh_titles(views(titles@), views(tweeted@))
            &&& views(u@) == fresh_urls(views(titles@), views(urls@), views(tweeted@))
        },
{
    let ghost ts = views(titles@);
    let ghost us = views(urls@);
    let ghost tw = views(tweeted@);
    let mut new_titles: Vec<String> = Vec::new();
    let mut new_urls: Vec<String> = Vec::new();
    let mut i: usize = 0;
    assert(ts.take(0) =~= Seq::<Seq<char>>::empty());
    assert(views(new_titles@) =~= fresh_titles(ts.take(0), tw));
    assert(views(new_urls@) =~= fresh_urls(ts.take(0), us, tw));
    while i < titles.len()
        invariant
            i <= titles.len(),
            ts == views(titles@),
            us == views(urls@),
            tw == views(tweeted@),
            fresh_have_urls(ts.take(i as int), us, tw),
            views(new_titles@) == fresh_titles(ts.take(i as int), tw),
            views(new_urls@) == fresh_urls(ts.take(i as int), us, tw),
        decreases titles.len() - i,
    {
        let ghost pre = ts.take(i as int);
        let ghost next = ts.take((i + 1) as int);
        proof {
            assert(next.drop_last() =~= pre);
            assert(next.last() == ts[i as int]);
            lemma_fresh_positions_bounds(pre, tw);
            lemma_fresh_positions_bounds(ts, tw);
            assert(titles@[i as int]@ == ts[i as int]);
        }
        let old_title = is_vec_contein(tweeted, titles[i].as_str());
        if !old_title {
            if i >= urls.len() {
                proof {
                    let k = choose|k: int| 0 <= k < fresh_positions(ts, tw).len() && fresh_positions(ts, tw)[k] == i;
                    assert(fresh_positions(ts, tw)[k] >= us.len());
                }
                return None;
            }
            let ghost bt = views(new_titles@);
            let ghost bu = views(new_urls@);
            new_titles.push(titles[i].clone());
            new_urls.push(urls[i].clone());
            proof {
                assert(urls@[i as int]@ == us[i as int]);
                assert(fresh_positions(next, tw) == fresh_positions(pre, tw).push(i as int));
                assert(views(new_titles@) =~= bt.push(ts[i as int]));
                assert(views(new_urls@) =~= bu.push(us[i as int]));
                assert(views(new_titles@) =~= fresh_titles(next, tw));
                assert(views(new_urls@) =~= fresh_urls(next, us, tw));
            }
        } else {
            proof {
                assert(fresh_positions(next, tw) == fresh_positions(pre, tw));
                assert(views(new_titles@) =~= fresh_titles(next, tw));
                assert(views(new_urls@) =~= fresh_urls(next, us, tw));
            }
        }
        i = i + 1;
    }
    assert(ts.take(titles.len() as int) =~= ts);
    Some((new_titles, new_urls))
}

/// Adds the titles just announced to the list of announced titles.
pub fn record_tweeted(tweeted: &mut Vec<String>, new_titles: &Vec<String>)
    ensures
        views(final(tweeted)@) == views(old(tweeted)@) + views(new_titles@),
{
    let ghost start = views(tweeted@);
    let mut i: usize = 0;
    while i < new_titles.len()
        invariant
            i <= new_titles.len(),
            views(tweeted@) == start + views(new_titles@).take(i as int),
        decreases new_titles.len() - i,
    {
        let ghost before = views(tweeted@);
        tweeted.push(new_titles[i].clone());
        assert(views(tweeted@) =~= before.push(new_titles@[i as int]@));
        assert(views(new_titles@).take((i + 1) as int) =~= views(new_titles@).take(i as int).push(new_titles@[i as int]@));
        i = i + 1;
    }
    assert(views(new_titles@).take(new_titles@.len() as int) =~= views(new_titles@));
}

/// The opening line of the announcement for the category at `category_index`
/// in the list of categories.
pub open spec fn announcement_header_text(category_index: int) -> Seq<char> {
    if category_index == 1 {
        "新しい"@ + "メンテナンスの"@ + "お知らせがあります\n"@
    } else if category_index == 2 {
        "新しい"@ + "アップデートの"@ + "お知らせがあります\n"@
    } else {
        "新しい"@ + "お知らせがあります\n"@
    }
}

/// The opening line of the announcement for the category at `category_index`.
pub fn announcement_header(category_index: usize) -> (res: String)
    ensures
        res@ == announcement_header_text(category_index as int),
{
    let mut text = String::from_str("新しい");
    if category_index == 1 {
        text.append("メンテナンスの");
    } else if category_index == 2 {
        text.append("アップデートの");
    }
    text.append("お知らせがあります\n");
    text
}

proof fn lemma_none_fresh(titles: Seq<Seq<char>>, tweeted: Seq<Seq<char>>)
    requires
        forall|i: int| 0 <= i < titles.len() ==> tweeted.contains(#[trigger] titles[i]),
    ensures
        fresh_positions(titles, tweeted).len() == 0,
    decreases titles.len(),
{
    if titles.len() > 0 {
        assert forall|i: int| 0 <= i < titles.drop_last().len() implies tweeted.contains(#[trigger] titles.drop_last()[i]) by {
            assert(titles.drop_last()[i] == titles[i]);
        }
        lemma_none_fresh(titles.drop_last(), tweeted);
        assert(tweeted.contains(titles[titles.len() - 1]));
    }
}

/// Once the titles found new are added to the announced list, none of the
/// listed titles is new any more: an item is announced at most once.
pub proof fn lemma_announced_once(titles: Seq<Seq<char>>, tweeted: Seq<Seq<char>>)
    ensures
        fresh_titles(titles, tweeted + fresh_titles(titles, tweeted)).len() == 0,
{
    let fresh = fresh_titles(titles, tweeted);
    let all = tweeted + fresh;
    lemma_fresh_positions_bounds(titles, tweeted);
    assert forall|i: int| 0 <= i < titles.len() implies all.contains(#[trigger] titles[i]) by {
        if tweeted.contains(titles[i]) {
            let j = choose|j: int| 0 <= j < tweeted.len() && tweeted[j] == titles[i];
            assert(all[j] == titles[i]);
        } else {
            let k = choose|k: int| 0 <= k < fresh_positions(titles, tweeted).len() && fresh_positions(titles, tweeted)[k] == i;
            assert(fresh[k] == titles[i]);
            assert(all[tweeted.len() + k] == titles[i]);
        }
    }
    lemma_none_fresh(titles, all);
}

/// The titles found new are exactly the listed titles not yet announced:
/// every listed title not in `tweeted` is among them, each of them is listed
/// and not in `tweeted`, they keep the listed order, and each comes with the
/// link listed beside it.
pub proof fn lemma_fresh_titles_exact(titles: Seq<Seq<char>>, urls: Seq<Seq<char>>, tweeted: Seq<Seq<char>>)
    ensures
        forall|i: int| 0 <= i < titles.len() && !tweeted.contains(#[trigger] titles[i]) ==>
            fresh_titles(titles, tweeted).contains(titles[i]),
        forall|k: int| 0 <= k < fresh_titles(titles, tweeted).len() ==>
            !tweeted.contains(#[trigger] fresh_titles(titles, tweeted)[k])
            && titles.contains(fresh_titles(titles, tweeted)[k]),
        fresh_titles(titles, tweeted).len() <= titles.len(),
        (forall|i: int| 0 <= i < titles.len() ==> !tweeted.contains(#[trigger] titles[i]))
            ==> fresh_titles(titles, tweeted) == titles,
        urls.len() >= titles.len() ==> forall|k: int| 0 <= k < fresh_titles(titles, tweeted).len() ==>
            exists|i: int| 0 <= i < titles.len() && titles[i] == #[trigger] fresh_titles(titles, tweeted)[k]
                && urls[i] == fresh_urls(titles, urls, tweeted)[k],
    decreases titles.len(),
{
    let pos = fresh_positions(titles, tweeted);
    let fresh = fresh_titles(titles, tweeted);
    lemma_fresh_positions_bounds(titles, tweeted);
    lemma_fresh_positions_increasing(titles, tweeted);
    assert forall|i: int| 0 <= i < titles.len() && !tweeted.contains(#[trigger] titles[i]) implies fresh.contains(titles[i]) by {
        let k = choose|k: int| 0 <= k < pos.len() && pos[k] == i;
        assert(fresh[k] == titles[i]);
    }
    assert forall|k: int| 0 <= k < fresh.len() implies !tweeted.contains(#[trigger] fresh[k]) && titles.contains(fresh[k]) by {
        assert(fresh[k] == titles[pos[k]]);
    }
    lemma_positions_len(pos, titles.len() as int);
    if forall|i: int| 0 <= i < titles.len() ==> !tweeted.contains(#[trigger] titles[i]) {
        lemma_all_fresh(titles, tweeted);
        assert(fresh =~= titles);
    }
    if urls.len() >= titles.len() {
        assert forall|k: int| 0 <= k < fresh.len() implies
            exists|i: int| 0 <= i < titles.len() && titles[i] == #[trigger] fresh[k]
                && urls[i] == fresh_urls(titles, urls, tweeted)[k] by {
            let i = pos[k];
            assert(titles[i] == fresh[k]);
            assert(urls[i] == fresh_urls(titles, urls, tweeted)[k]);
        }
    }
}

proof fn lemma_fresh_positions_increasing(titles: Seq<Seq<char>>, tweeted: Seq<Seq<char>>)
    ensures
        forall|a: int, b: int| 0 <= a < b < fresh_positions(titles, tweeted).len() ==>
            #[trigger] fresh_positions(titles, tweeted)[a] < #[trigger] fresh_positions(titles, tweeted)[b],
    decreases titles.len(),
{
    if titles.len() > 0 {
        lemma_fresh_positions_increasing(titles.drop_last(), tweeted);
        lemma_fresh_positions_bounds(titles.drop_last(), tweeted);
        let rest = fresh_positions(titles.drop_last(), tweeted);
        let pos = fresh_positions(titles, tweeted);
        assert forall|a: int, b: int| 0 <= a < b < pos.len() implies #[trigger] pos[a] < #[trigger] pos[b] by {
            if b < rest.len() {
                assert(pos[a] == rest[a] && pos[b] == rest[b]);
            } else {
                assert(pos[a] == rest[a]);
                assert(pos[b] == titles.len() - 1);
                assert(rest[a] < titles.drop_last().len());
            }
        }
    }
}

proof fn lemma_positions_len(pos: Seq<int>, n: int)
    requires
        forall|k: int| 0 <= k < pos.len() ==> 0 <= #[trigger] pos[k] < n,
        forall|a: int, b: int| 0 <= a < b < pos.len() ==> #[trigger] pos[a] < #[trigger] pos[b],
    ensures
        pos.len() <= if n > 0 { n } else { 0 },
    decreases pos.len(),
{
    if pos.len() > 0 {
        let last = pos.last();
        assert forall|k: int| 0 <= k < pos.drop_last().len() implies 0 <= #[trigger] pos.drop_last()[k] < last by {
            assert(pos[k] < pos[pos.len() - 1]);
        }
        lemma_positions_len(pos.drop_last(), last);
    }
}

proof fn lemma_all_fresh(titles: Seq<Seq<char>>, tweeted: Seq<Seq<char>>)
    requires
        forall|i: int| 0 <= i < titles.len() ==> !tweeted.contains(#[trigger] titles[i]),
    ensures
        fresh_positions(titles, tweeted) == Seq::new(titles.len(), |i: int| i),
    decreases titles.len(),
{
    if titles.len() > 0 {
        assert forall|i: int| 0 <= i < titles.drop_last().len() implies !tweeted.contains(#[trigger] titles.drop_last()[i]) by {
            assert(titles.drop_last()[i] == titles[i]);
        }
        lemma_all_fresh(titles.drop_last(), tweeted);
        assert(!tweeted.contains(titles[titles.len() - 1]));
        assert(fresh_positions(titles, tweeted) =~= Seq::new(titles.len(), |i: int| i));
    } else {
        assert(fresh_positions(titles, tweeted) =~= Seq::new(titles.len(), |i: int| i));
    }
}

/// The announcement of a maintenance or update category is the general one
/// with the category's word put after its first word `新しい`.
pub proof fn lemma_headers_share_wording()
    ensures
        announcement_header_text(0) == "新しい"@ + "お知らせがあります\n"@,
        announcement_header_text(1) == "新しい"@ + "メンテナンスの"@ + announcement_header_text(0).skip("新しい"@.len() as int),
        announcement_header_text(2) == "新しい"@ + "アップデートの"@ + announcement_header_text(0).skip("新しい"@.len() as int),
        forall|k: int| k != 1 && k != 2 ==> #[trigger] announcement_header_text(k) == announcement_header_text(0),
{
    let h = "新しい"@;
    let tail = "お知らせがあります\n"@;
    assert((h + tail).skip(h.len() as int) =~= tail);
}

} // verus!
