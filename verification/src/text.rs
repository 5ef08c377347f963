//! Plain text helpers: line splitting and joining, exact string equality,
//! and the slash replacement used for path segments.

use vstd::prelude::*;

verus! {

/// The character views of a sequence of owned strings.
pub open spec fn views(v: Seq<String>) -> Seq<Seq<char>> {
    v.map_values(|s: String| s@)
}

/// The pieces of `parts` joined with a single `'\n'` between neighbours.
pub open spec fn join_lines(parts: Seq<Seq<char>>) -> Seq<char>
    decreases parts.len(),
{
    if parts.len() == 0 {
        Seq::empty()
    } else if parts.len() == 1 {
        parts[0]
    } else {
        join_lines(parts.drop_last()) + seq!['\n'] + parts.last()
    }
}

/// No piece holds a line break.
pub open spec fn no_line_breaks(parts: Seq<Seq<char>>) -> bool {
    forall|i: int| 0 <= i < parts.len() ==> !#[trigger] parts[i].contains('\n')
}

/// `parts` is what splitting `s` at every `'\n'` gives: the pieces, none of
/// which holds a line break, joined with line breaks give back `s`.
pub open spec fn is_line_split(s: Seq<char>, parts: Seq<Seq<char>>) -> bool {
    &&& parts.len() >= 1
    &&& no_line_breaks(parts)
    &&& join_lines(parts) == s
}

proof fn lemma_join_extend_last(parts: Seq<Seq<char>>, c: char)
    requires
        parts.len() >= 1,
    ensures
        join_lines(parts.drop_last().push(parts.last().push(c))) == join_lines(parts).push(c),
{
    let q = parts.drop_last().push(parts.last().push(c));
    assert(q.drop_last() =~= parts.drop_last());
    if parts.len() > 1 {
        assert(join_lines(q) == join_lines(q.drop_last()) + seq!['\n'] + q.last());
        assert(join_lines(q) =~= join_lines(parts).push(c));
    } else {
        assert(join_lines(q) =~= join_lines(parts).push(c));
    }
}

proof fn lemma_join_new_piece(parts: Seq<Seq<char>>)
    requires
        parts.len() >= 1,
    ensures
        join_lines(parts.push(Seq::empty())) == join_lines(parts).push('\n'),
{
    let q = parts.push(Seq::<char>::empty());
    assert(q.drop_last() =~= parts);
    assert(join_lines(q) =~= join_lines(parts).push('\n'));
}

/// Two line splits of one text are the same split.
pub proof fn lemma_line_split_unique(s: Seq<char>, a: Seq<Seq<char>>, b: Seq<Seq<char>>)
    requires
        is_line_split(s, a),
        is_line_split(s, b),
    ensures
        a == b,
    decreases s.len(),
{
    if a.len() == 1 && b.len() > 1 {
        lemma_join_has_break(b);
    } else if b.len() == 1 && a.len() > 1 {
        lemma_join_has_break(a);
    } else if a.len() > 1 && b.len() > 1 {
        let ta = a.last();
        let tb = b.last();
        let pa = join_lines(a.drop_last());
        let pb = join_lines(b.drop_last());
        assert(s == pa + seq!['\n'] + ta);
        assert(s == pb + seq!['\n'] + tb);
        assert(!ta.contains('\n'));
        assert(!tb.contains('\n'));
        if ta.len() < tb.len() {
            let k = tb.len() - ta.len() - 1;
            assert(s[s.len() - ta.len() - 1] == '\n');
            assert(tb[k] == s[s.len() - ta.len() - 1]);
            assert(false);
        } else if tb.len() < ta.len() {
            let k = ta.len() - tb.len() - 1;
            assert(s[s.len() - tb.len() - 1] == '\n');
            assert(ta[k] == s[s.len() - tb.len() - 1]);
            assert(false);
        }
        assert(ta =~= s.skip(s.len() - ta.len()));
        assert(tb =~= s.skip(s.len() - tb.len()));
        assert(pa =~= s.take(s.len() - ta.len() - 1));
        assert(pb =~= s.take(s.len() - tb.len() - 1));
        assert(no_line_breaks(a.drop_last())) by {
            assert forall|i: int| 0 <= i < a.drop_last().len() implies
                !#[trigger] a.drop_last()[i].contains('\n') by {
                assert(a.drop_last()[i] == a[i]);
            }
        }
        assert(no_line_breaks(b.drop_last())) by {
            assert forall|i: int| 0 <= i < b.drop_last().len() implies
                !#[trigger] b.drop_last()[i].contains('\n') by {
                assert(b.drop_last()[i] == b[i]);
            }
        }
        lemma_line_split_unique(pa, a.drop_last(), b.drop_last());
        assert(a =~= a.drop_last().push(ta));
        assert(b =~= b.drop_last().push(tb));
    } else {
        assert(a =~= b);
    }
}

proof fn lemma_join_has_break(parts: Seq<Seq<char>>)
    requires
        parts.len() > 1,
    ensures
        join_lines(parts).contains('\n'),
{
    let p = join_lines(parts.drop_last());
    assert(join_lines(parts)[p.len() as int] == '\n');
}

/// Splits `text` at every line break, as `text.split("\n")` does, into
/// slices of `text`.
pub fn split_line_slices(text: &str) -> (res: Vec<&str>)
    ensures
        is_line_split(text@, res@.map_values(|p: &str| p@)),
{
    let n = text.unicode_len();
    let mut pieces: Vec<&str> = Vec::new();
    let mut start: usize = 0;
    let mut i: usize = 0;
    while i < n
        invariant
            n == text@.len(),
            start <= i <= n,
            no_line_breaks(pieces@.map_values(|p: &str| p@)),
            !text@.subrange(start as int, i as int).contains('\n'),
            join_lines(pieces@.map_values(|p: &str| p@).push(text@.subrange(start as int, i as int))) == text@.take(i as int),
        decreases n - i,
    {
        let c = text.get_char(i);
        let ghost cur = text@.subrange(start as int, i as int);
        let ghost before = pieces@.map_values(|p: &str| p@).push(cur);
        if c == '\n' {
            let piece = text.substring_char(start, i);
            pieces.push(piece);
            proof {
                assert(pieces@.map_values(|p: &str| p@) =~= before);
                lemma_join_new_piece(before);
                assert(text@.subrange((i + 1) as int, (i + 1) as int) =~= Seq::<char>::empty());
                assert(text@.take((i + 1) as int) =~= text@.take(i as int).push('\n'));
                let after = pieces@.map_values(|p: &str| p@);
                assert forall|k: int| 0 <= k < after.len() implies !#[trigger] after[k].contains('\n') by {
                    if k < after.len() - 1 {
                        assert(after[k] == before[k]);
                    }
                }
            }
            start = i + 1;
        } else {
            proof {
                lemma_join_extend_last(before, c);
                assert(before.drop_last() =~= pieces@.map_values(|p: &str| p@));
                assert(text@.subrange(start as int, (i + 1) as int) =~= cur.push(c));
                assert(text@.take((i + 1) as int) =~= text@.take(i as int).push(c));
                let next = text@.subrange(start as int, (i + 1) as int);
                assert forall|k: int| 0 <= k < next.len() implies #[trigger] next[k] != '\n' by {
                    if k < cur.len() {
                        assert(next[k] == cur[k]);
                        assert(!cur.contains('\n'));
                    }
                }
            }
        }
        i = i + 1;
    }
    let ghost before = pieces@.map_values(|p: &str| p@);
    pieces.push(text.substring_char(start, n));
    proof {
        let after = pieces@.map_values(|p: &str| p@);
        assert(after =~= before.push(text@.subrange(start as int, n as int)));
        assert(text@.take(n as int) =~= text@);
        assert forall|k: int| 0 <= k < after.len() implies !#[trigger] after[k].contains('\n') by {
            if k < after.len() - 1 {
                assert(after[k] == before[k]);
            }
        }
    }
    pieces
}

/// Splits `text` at every line break, as `text.split("\n")` does.
pub fn split_lines_owned(text: &str) -> (res: Vec<String>)
    ensures
        is_line_split(text@, views(res@)),
{
    let slices = split_line_slices(text);
    let ghost parts = slices@.map_values(|p: &str| p@);
    let mut out: Vec<String> = Vec::new();
    let mut i: usize = 0;
    while i < slices.len()
        invariant
            i <= slices.len(),
            parts == slices@.map_values(|p: &str| p@),
            views(out@) == parts.take(i as int),
        decreases slices.len() - i,
    {
        let ghost before = views(out@);
        out.push(slices[i].to_owned());
        assert(views(out@) =~= before.push(parts[i as int]));
        assert(parts.take((i + 1) as int) =~= parts.take(i as int).push(parts[i as int]));
        i = i + 1;
    }
    assert(parts.take(slices@.len() as int) =~= parts);
    out
}

/// Whether two texts are the same characters.
pub fn str_eq(a: &str, b: &str) -> (res: bool)
    ensures
        res == (a@ == b@),
{
    a.to_owned() == b.to_owned()
}

/// The pieces of `parts` joined with line breaks, as `parts.join("\n")` does.
pub fn join_with_line_breaks(parts: &Vec<String>) -> (res: String)
    ensures
        res@ == join_lines(views(parts@)),
{
    let mut out = String::new();
    let mut i: usize = 0;
    while i < parts.len()
        invariant
            i <= parts.len(),
            out@ == join_lines(views(parts@).take(i as int)),
        decreases parts.len() - i,
    {
        let ghost before = views(parts@).take(i as int);
        if i > 0 {
            out.append("\n");
        }
        out.append(parts[i].as_str());
        proof {
            let after = views(parts@).take((i + 1) as int);
            assert(after.drop_last() =~= before);
            if i == 0 {
                assert(out@ =~= join_lines(after));
            } else {
                reveal_strlit("\n");
                assert(out@ =~= join_lines(after));
            }
        }
        i = i + 1;
    }
    proof {
        assert(views(parts@).take(parts@.len() as int) =~= views(parts@));
    }
    out
}


/// `c`, with a slash turned into a full-width slash.
pub open spec fn widen_slash(c: char) -> char {
    if c == '/' {
        '／'
    } else {
        c
    }
}

/// `s` with every `'/'` turned into `'／'`, as `s.replace("/", "／")` does.
pub open spec fn widen_slashes(s: Seq<char>) -> Seq<char> {
    s.map_values(|c: char| widen_slash(c))
}

/// `text` with every slash turned into a full-width slash, so that it can
/// stand as one path segment.
pub fn replace_slashes(text: &str) -> (res: String)
    ensures
        res@ == widen_slashes(text@),
        !res@.contains('/'),
        res@.len() == text@.len(),
        forall|i: int| 0 <= i < text@.len() ==> #[trigger] res@[i] == if text@[i] == '/' { '／' } else { text@[i] },
{
    let n = text.unicode_len();
    let mut out = String::new();
    let mut i: usize = 0;
    while i < n
        invariant
            n == text@.len(),
            i <= n,
            out@ == widen_slashes(text@.take(i as int)),
        decreases n - i,
    {
        let c = text.get_char(i);
        if c == '/' {
            out.append("／");
            proof {
                reveal_strlit("／");
            }
        } else {
            out.append(text.substring_char(i, i + 1));
        }
        proof {
            assert(text@.take((i + 1) as int) =~= text@.take(i as int).push(c));
            assert(out@ =~= widen_slashes(text@.take((i + 1) as int)));
        }
        i = i + 1;
    }
    proof {
        assert(text@.take(n as int) =~= text@);
        lemma_widen_slashes(text@);
        assert forall|k: int| 0 <= k < out@.len() implies #[trigger] out@[k] != '/' by {
            assert(out@[k] == widen_slash(text@[k]));
        }
    }
    out
}

/// Widening keeps the length, turns each slash into a full-width slash and
/// keeps every other character where it was.
pub proof fn lemma_widen_slashes(s: Seq<char>)
    ensures
        widen_slashes(s).len() == s.len(),
        forall|i: int| 0 <= i < s.len() ==> #[trigger] widen_slashes(s)[i] == if s[i] == '/' { '／' } else { s[i] },
        !widen_slashes(s).contains('/'),
{
    assert forall|i: int| 0 <= i < widen_slashes(s).len() implies #[trigger] widen_slashes(s)[i] != '/' by {}
}

/// Joining puts exactly one line break between neighbours: one piece joins
/// to itself, and one more piece adds a line break and that piece.
pub proof fn lemma_join_lines_steps(parts: Seq<Seq<char>>, last: Seq<char>)
    ensures
        join_lines(seq![last]) == last,
        parts.len() >= 1 ==> join_lines(parts.push(last)) == join_lines(parts) + seq!['\n'] + last,
        join_lines(parts).len() + (if parts.len() > 0 { 1int } else { 0 }) + last.len() == join_lines(parts.push(last)).len()
            || parts.len() == 0,
{
    if parts.len() >= 1 {
        assert(parts.push(last).drop_last() =~= parts);
    }
}

} // verus!
