//! Paths as text: `/` separates components, as on every platform the tool
//! targets.

use vstd::prelude::*;

verus! {

/// `rel` appended to `base` as `PathBuf::push` does: an absolute `rel`
/// replaces `base`, and a separator is put between the two unless `base` is
/// empty or already ends in one.
pub open spec fn path_join(base: Seq<char>, rel: Seq<char>) -> Seq<char> {
    if rel.len() > 0 && rel[0] == '/' {
        rel
    } else if base.len() == 0 || base.last() == '/' {
        base + rel
    } else {
        base + seq!['/'] + rel
    }
}

/// Index at which the text after the last separator of `p` begins.
pub open spec fn last_segment_start(p: Seq<char>) -> int
    decreases p.len(),
{
    if p.len() == 0 {
        0
    } else if p.last() == '/' {
        p.len() as int
    } else {
        last_segment_start(p.drop_last())
    }
}

/// True when `p` ends in a `.` component (`.`, or `/.` at the end).
pub open spec fn ends_in_cur_dir(p: Seq<char>) -> bool {
    p.len() > 0 && p.last() == '.' && (p.len() == 1 || p[p.len() - 2] == '/')
}

/// The final component of `p`, as `Path::file_name` gives it: trailing
/// separators and `.` components are skipped; a path that ends in `..`, or
/// has no component left, has none.
pub open spec fn final_component(p: Seq<char>) -> Option<Seq<char>>
    decreases p.len(),
{
    if p.len() == 0 {
        None
    } else if p.last() == '/' || ends_in_cur_dir(p) {
        final_component(p.drop_last())
    } else {
        let seg = p.subrange(last_segment_start(p), p.len() as int);
        if seg == seq!['.', '.'] {
            None
        } else {
            Some(seg)
        }
    }
}

proof fn lemma_last_segment_start(p: Seq<char>)
    ensures
        0 <= last_segment_start(p) <= p.len(),
        p.len() > 0 && p.last() != '/' ==> last_segment_start(p) < p.len(),
        forall|k: int| last_segment_start(p) <= k < p.len() ==> p[k] != '/',
        last_segment_start(p) > 0 ==> p[last_segment_start(p) - 1] == '/',
    decreases p.len(),
{
    if p.len() > 0 && p.last() != '/' {
        let q = p.drop_last();
        lemma_last_segment_start(q);
        assert forall|k: int| last_segment_start(p) <= k < p.len() implies p[k] != '/' by {
            if k < q.len() {
                assert(p[k] == q[k]);
            }
        }
    }
}

/// `rel` appended to `base` (see `path_join`).
pub fn join(base: &str, rel: &str) -> (r: String)
    ensures
        r@ == path_join(base@, rel@),
{
    proof {
        reveal_strlit("/");
    }
    if rel.unicode_len() > 0 && rel.get_char(0) == '/' {
        return rel.to_owned();
    }
    let n = base.unicode_len();
    let mut r = base.to_owned();
    if n > 0 && base.get_char(n - 1) != '/' {
        let sep = "/";
        assert(sep@ =~= seq!['/']);
        r.append(sep);
    }
    r.append(rel);
    r
}

/// The final component of `p` (see `final_component`).
pub fn file_name(p: &str) -> (r: Option<String>)
    ensures
        r.is_some() == final_component(p@).is_some(),
        r matches Some(s) ==> final_component(p@) == Some(s@),
{
    let n = p.unicode_len();
    let mut end: usize = n;
    assert(p@.subrange(0, n as int) =~= p@);
    loop
        invariant
            end <= n,
            n == p@.len(),
            final_component(p@.subrange(0, end as int)) == final_component(p@),
        ensures
            0 < end <= n,
            n == p@.len(),
            final_component(p@.subrange(0, end as int)) == final_component(p@),
            p@[end - 1] != '/',
            !ends_in_cur_dir(p@.subrange(0, end as int)),
        decreases end,
    {
        if end == 0 {
            return None;
        }
        let c = p.get_char(end - 1);
        let dot_component = c == '.' && (end == 1 || p.get_char(end - 2) == '/');
        let ghost q = p@.subrange(0, end as int);
        if c == '/' || dot_component {
            assert(q.drop_last() =~= p@.subrange(0, end - 1));
            end = end - 1;
        } else {
            break;
        }
    }
    let ghost q = p@.subrange(0, end as int);
    let mut start: usize = end - 1;
    assert(q.subrange(0, start + 1) =~= q);
    loop
        invariant
            start < end <= n,
            n == p@.len(),
            q == p@.subrange(0, end as int),
            q[q.len() - 1] != '/',
            last_segment_start(q.subrange(0, start + 1)) == last_segment_start(q),
            forall|k: int| start <= k < end ==> q[k] != '/',
        ensures
            start < end <= n,
            q == p@.subrange(0, end as int),
            last_segment_start(q.subrange(0, start + 1)) == last_segment_start(q),
            start == 0 || q[start - 1] == '/',
        decreases start,
    {
        if start == 0 || p.get_char(start - 1) == '/' {
            break;
        }
        assert(q.subrange(0, start + 1).drop_last() =~= q.subrange(0, start as int));
        start = start - 1;
    }
    proof {
        lemma_last_segment_start(q);
        let s = q.subrange(0, start + 1);
        if start > 0 {
            assert(s.drop_last().last() == '/');
            assert(last_segment_start(s.drop_last()) == start);
        } else {
            assert(last_segment_start(s.drop_last()) == 0);
        }
    }
    let seg = p.substring_char(start, end);
    assert(seg@ =~= q.subrange(last_segment_start(q), q.len() as int));
    if end - start == 2 && p.get_char(start) == '.' && p.get_char(start + 1) == '.' {
        assert(seg@ =~= seq!['.', '.']);
        None
    } else {
        Some(seg.to_owned())
    }
}

} // verus!
