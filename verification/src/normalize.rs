//! Normalization of a watch-folder path as the user typed it: the
//! string is trimmed of surrounding whitespace, empty input is
//! treated as absent, a relative path is rejected, and an absolute
//! path is rewritten in canonical form — separator runs collapsed,
//! `.` segments dropped, no trailing separator.

use vstd::prelude::*;
use vstd::string::*;
use crate::chars::{chars_of, string_of};

verus! {

/// The whitespace trimmed from either end: ASCII blanks and line
/// breaks.
pub open spec fn is_space(c: char) -> bool {
    c == ' ' || c == '\t' || c == '\n' || c == '\r'
}

/// `s` without leading whitespace.
pub open spec fn trim_start(s: Seq<char>) -> Seq<char>
    decreases s.len(),
{
    if s.len() > 0 && is_space(s.first()) {
        trim_start(s.drop_first())
    } else {
        s
    }
}

/// `s` without trailing whitespace.
pub open spec fn trim_end(s: Seq<char>) -> Seq<char>
    decreases s.len(),
{
    if s.len() > 0 && is_space(s.last()) {
        trim_end(s.drop_last())
    } else {
        s
    }
}

/// `s` without surrounding whitespace.
pub open spec fn trimmed(s: Seq<char>) -> Seq<char> {
    trim_end(trim_start(s))
}

/// The end of the segment starting at `i`: the first separator at or
/// after `i`, or the end of the string.
pub open spec fn seg_end(s: Seq<char>, i: int) -> int
    decreases s.len() - i,
{
    if i < 0 {
        0
    } else if i >= s.len() {
        s.len() as int
    } else if s[i] == '/' {
        i
    } else {
        seg_end(s, i + 1)
    }
}

proof fn lemma_seg_end_bounds(s: Seq<char>, i: int)
    requires
        0 <= i <= s.len(),
    ensures
        i <= seg_end(s, i) <= s.len(),
    decreases s.len() - i,
{
    if i < s.len() && s[i] != '/' {
        lemma_seg_end_bounds(s, i + 1);
    }
}

/// The path's segments from position `i` on, split at separators,
/// with empty and `.` segments dropped.
pub open spec fn norm_segs(s: Seq<char>, i: int) -> Seq<Seq<char>>
    decreases s.len() + 1 - i,
    via norm_segs_dec
{
    if i < 0 || i >= s.len() {
        Seq::empty()
    } else {
        let e = seg_end(s, i);
        let seg = s.subrange(i, e);
        let rest = norm_segs(s, e + 1);
        if seg.len() == 0 || seg == seq!['.'] {
            rest
        } else {
            seq![seg] + rest
        }
    }
}

#[via_fn]
proof fn norm_segs_dec(s: Seq<char>, i: int) {
    if 0 <= i < s.len() {
        lemma_seg_end_bounds(s, i);
    }
}

/// Segments joined by single separators.
pub open spec fn joined_segs(segs: Seq<Seq<char>>) -> Seq<char>
    decreases segs.len(),
{
    if segs.len() == 0 {
        Seq::empty()
    } else if segs.len() == 1 {
        segs[0]
    } else {
        segs[0] + seq!['/'] + joined_segs(segs.drop_first())
    }
}

/// The canonical form of an absolute path: a root separator, then the
/// kept segments joined by single separators.
pub open spec fn normalized_abs(t: Seq<char>) -> Seq<char> {
    seq!['/'] + joined_segs(norm_segs(t, 0))
}

proof fn lemma_joined_segs_append(a: Seq<Seq<char>>, b: Seq<Seq<char>>)
    requires
        a.len() > 0,
        b.len() > 0,
    ensures
        joined_segs(a + b) == joined_segs(a) + seq!['/'] + joined_segs(b),
    decreases a.len(),
{
    if a.len() == 1 {
        assert((a + b).drop_first() =~= b);
        assert((a + b)[0] == a[0]);
    } else {
        assert((a + b).drop_first() =~= a.drop_first() + b);
        lemma_joined_segs_append(a.drop_first(), b);
    }
}

/// The trimmed characters of `v`: the subrange that drops leading and
/// trailing whitespace.
fn trim_chars(v: &Vec<char>) -> (r: Vec<char>)
    ensures
        r@ == trimmed(v@),
{
    let mut a: usize = 0;
    assert(v@.skip(0) =~= v@);
    while a < v.len() && is_space_char(v[a])
        invariant
            a <= v@.len(),
            trim_start(v@) == trim_start(v@.skip(a as int)),
        decreases v@.len() - a,
    {
        assert(v@.skip(a as int).first() == v@[a as int]);
        assert(v@.skip(a as int).drop_first() =~= v@.skip(a + 1));
        a = a + 1;
    }
    proof {
        if a < v@.len() {
            assert(v@.skip(a as int).first() == v@[a as int]);
        }
        assert(trim_start(v@) == v@.skip(a as int));
    }
    let mut b: usize = v.len();
    assert(v@.subrange(a as int, b as int) =~= v@.skip(a as int));
    while b > a && is_space_char(v[b - 1])
        invariant
            a <= b <= v@.len(),
            trim_end(v@.skip(a as int)) == trim_end(v@.subrange(a as int, b as int)),
        decreases b,
    {
        assert(v@.subrange(a as int, b as int).last() == v@[b - 1]);
        assert(v@.subrange(a as int, b as int).drop_last() =~= v@.subrange(a as int, b - 1));
        b = b - 1;
    }
    proof {
        if b > a {
            assert(v@.subrange(a as int, b as int).last() == v@[b - 1]);
        }
        assert(trim_end(v@.skip(a as int)) == v@.subrange(a as int, b as int));
    }
    let mut r: Vec<char> = Vec::new();
    let mut k: usize = a;
    while k < b
        invariant
            a <= k <= b <= v@.len(),
            r@ == v@.subrange(a as int, k as int),
        decreases b - k,
    {
        r.push(v[k]);
        k = k + 1;
        assert(r@ =~= v@.subrange(a as int, k as int));
    }
    assert(r@ =~= v@.subrange(a as int, b as int));
    r
}

fn is_space_char(c: char) -> (r: bool)
    ensures
        r == is_space(c),
{
    c == ' ' || c == '\t' || c == '\n' || c == '\r'
}

/// Normalizes one watch-folder path as entered. Surrounding
/// whitespace is dropped; an empty entry means "no folder"; a
/// relative path is refused with an error naming it; an absolute path
/// comes back in canonical form.
pub fn normalize_watch_folder_path(raw: &str) -> (r: Result<Option<String>, String>)
    ensures
        match r {
            Result::Ok(o) => match o {
                Option::Some(p) => trimmed(raw@).len() > 0 && trimmed(raw@).first() == '/' && p@
                    == normalized_abs(trimmed(raw@)),
                Option::None => trimmed(raw@).len() == 0,
            },
            Result::Err(m) => trimmed(raw@).len() > 0 && trimmed(raw@).first() != '/' && m@
                == "watch folder must be absolute: "@ + trimmed(raw@),
        },
{
    let v = chars_of(raw);
    let t = trim_chars(&v);
    if t.len() == 0 {
        return Result::Ok(Option::None);
    }
    if t[0] != '/' {
        let t_str = string_of(&t);
        let mut m = String::new();
        m.append("watch folder must be absolute: ");
        m.append(t_str.as_str());
        return Result::Err(m);
    }
    let mut segs: Vec<Vec<char>> = Vec::new();
    let ghost gsegs = Seq::<Seq<char>>::empty();
    let mut i: usize = 0;
    proof {
        assert(gsegs + norm_segs(t@, 0) =~= norm_segs(t@, 0));
        assert(segs.deep_view() =~= gsegs);
    }
    while i < t.len()
        invariant
            i <= t@.len(),
            segs.deep_view() == gsegs,
            gsegs + norm_segs(t@, i as int) == norm_segs(t@, 0),
        decreases t@.len() - i,
    {
        let mut j: usize = i;
        while j < t.len() && t[j] != '/'
            invariant
                i <= j <= t@.len(),
                seg_end(t@, i as int) == seg_end(t@, j as int),
            decreases t@.len() - j,
        {
            j = j + 1;
        }
        proof {
            assert(seg_end(t@, j as int) == j);
        }
        let mut seg: Vec<char> = Vec::new();
        let mut k: usize = i;
        while k < j
            invariant
                i <= k <= j <= t@.len(),
                seg@ == t@.subrange(i as int, k as int),
            decreases j - k,
        {
            seg.push(t[k]);
            k = k + 1;
            assert(seg@ =~= t@.subrange(i as int, k as int));
        }
        assert(seg@ =~= t@.subrange(i as int, j as int));
        let keep = seg.len() > 0 && !(seg.len() == 1 && seg[0] == '.');
        proof {
            if seg@.len() == 1 && seg@[0] == '.' {
                assert(seg@ =~= seq!['.']);
            }
            if seg@ == seq!['.'] {
                assert(seg@.len() == 1 && seg@[0] == '.');
            }
        }
        if keep {
            let ghost gseg = seg@;
            let ghost before = segs.deep_view();
            segs.push(seg);
            proof {
                assert(segs.deep_view() =~~= before + seq![gseg]);
                assert(norm_segs(t@, i as int) == seq![gseg] + norm_segs(t@, j + 1));
                let prior = gsegs;
                gsegs = gsegs + seq![gseg];
                assert(segs.deep_view() =~~= gsegs);
                assert(gsegs + norm_segs(t@, j + 1) =~= prior + (seq![gseg] + norm_segs(
                    t@,
                    j + 1,
                )));
                assert(gsegs + norm_segs(t@, j + 1) =~= norm_segs(t@, 0));
            }
        } else {
            proof {
                assert(norm_segs(t@, i as int) == norm_segs(t@, j + 1));
            }
        }
        if j < t.len() {
            i = j + 1;
        } else {
            proof {
                assert(norm_segs(t@, j + 1) =~= norm_segs(t@, t@.len() as int));
            }
            i = t.len();
        }
    }
    proof {
        assert(norm_segs(t@, i as int) =~= Seq::<Seq<char>>::empty());
        assert(gsegs + Seq::<Seq<char>>::empty() =~= gsegs);
        assert(gsegs =~= norm_segs(t@, 0));
    }
    let mut out: Vec<char> = Vec::new();
    out.push('/');
    assert(out@ =~= seq!['/']);
    let mut s: usize = 0;
    while s < segs.len()
        invariant
            s <= segs.deep_view().len(),
            gsegs == segs.deep_view(),
            s == 0 ==> out@ == seq!['/'],
            s > 0 ==> out@ == seq!['/'] + joined_segs(gsegs.take(s as int)),
        decreases segs.deep_view().len() - s,
    {
        if s > 0 {
            out.push('/');
        }
        let seg = &segs[s];
        let ghost before = out@;
        let mut k: usize = 0;
        while k < seg.len()
            invariant
                k <= seg@.len(),
                out@ == before + seg@.subrange(0, k as int),
            decreases seg@.len() - k,
        {
            out.push(seg[k]);
            k = k + 1;
            assert(out@ =~= before + seg@.subrange(0, k as int));
        }
        assert(seg@.subrange(0, seg@.len() as int) =~= seg@);
        proof {
            assert(segs.deep_view()[s as int] =~= segs@[s as int]@);
            if s == 0 {
                assert(gsegs.take(1) =~= seq![gsegs[0]]);
                assert(joined_segs(gsegs.take(1)) == gsegs[0]);
                assert(out@ =~= seq!['/'] + joined_segs(gsegs.take(1)));
            } else {
                assert(gsegs.take(s + 1) =~= gsegs.take(s as int) + seq![gsegs[s as int]]);
                lemma_joined_segs_append(gsegs.take(s as int), seq![gsegs[s as int]]);
                assert(out@ =~= seq!['/'] + joined_segs(gsegs.take(s + 1)));
            }
        }
        s = s + 1;
    }
    proof {
        assert(gsegs.take(gsegs.len() as int) =~= gsegs);
        if gsegs.len() == 0 {
            assert(joined_segs(gsegs) == Seq::<char>::empty());
            assert(out@ =~= seq!['/'] + joined_segs(gsegs));
        }
    }
    let out_s = string_of(&out);
    Result::Ok(Option::Some(out_s))
}

} // verus!
