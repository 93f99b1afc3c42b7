//! Output-path resolution. A converted image is published next to its
//! source, under the source's stem with a `.jpg` extension; when that
//! name is taken, a parenthesized counter is appended (`stem (1).jpg`,
//! `stem (2).jpg`, …) and the first free name wins. The same scheme
//! names a retired original inside the recycle directory. The caller
//! supplies the set of names that already exist; resolution itself is
//! pure and provably deterministic and collision-free.

use vstd::prelude::*;
use vstd::string::*;
use vstd::seq_lib::*;
use vstd::set_lib::lemma_len_subset;
use crate::chars::{chars_of, decimal_seq, decimal_string, lemma_decimal_injective, push_char, string_of};
use crate::pathname::{
    dir_prefix_of, extension_of, file_name_of, file_name_start, find_file_name_start,
    find_stem_dot, lemma_file_name_start_bounds, lemma_stem_dot_bounds, stem_dot, stem_of,
};

verus! {

/// The views of a list of path strings.
pub open spec fn view_seq(paths: Seq<String>) -> Seq<Seq<char>> {
    paths.map_values(|s: String| s@)
}

/// The `i`-th name tried for a given base and suffix: `base ++ suffix`
/// first, then `base ++ " (i)" ++ suffix`.
pub open spec fn numbered_candidate(base: Seq<char>, suffix: Seq<char>, i: nat) -> Seq<char> {
    if i == 0 {
        base + suffix
    } else {
        base + seq![' ', '('] + decimal_seq(i) + seq![')'] + suffix
    }
}

/// `r` is the candidate with the least index whose name is not taken.
pub open spec fn resolved_candidate(
    base: Seq<char>,
    suffix: Seq<char>,
    taken: Seq<Seq<char>>,
    r: Seq<char>,
) -> bool {
    exists|i: nat|
        #![trigger numbered_candidate(base, suffix, i)]
        r == numbered_candidate(base, suffix, i) && !taken.contains(
            numbered_candidate(base, suffix, i),
        ) && forall|j: nat|
            j < i ==> taken.contains(#[trigger] numbered_candidate(base, suffix, j))
}

/// Distinct indices give distinct candidate names.
pub proof fn lemma_candidate_injective(base: Seq<char>, suffix: Seq<char>, i: nat, j: nat)
    ensures
        numbered_candidate(base, suffix, i) == numbered_candidate(base, suffix, j) ==> i == j,
{
    if numbered_candidate(base, suffix, i) == numbered_candidate(base, suffix, j) && i != j {
        let ci = numbered_candidate(base, suffix, i);
        let cj = numbered_candidate(base, suffix, j);
        crate::chars::lemma_decimal_len(i);
        crate::chars::lemma_decimal_len(j);
        if i == 0 || j == 0 {
            assert(ci.len() != cj.len());
        } else {
            let b = base.len() as int;
            let di = decimal_seq(i).len() as int;
            let dj = decimal_seq(j).len() as int;
            assert(ci.len() == b + 2 + di + 1 + suffix.len());
            assert(cj.len() == b + 2 + dj + 1 + suffix.len());
            assert(di == dj);
            assert forall|k: int| 0 <= k < di implies decimal_seq(i)[k] == decimal_seq(j)[k] by {
                assert(ci[b + 2 + k] == decimal_seq(i)[k]);
                assert(cj[b + 2 + k] == decimal_seq(j)[k]);
            }
            assert(decimal_seq(i) =~= decimal_seq(j));
            lemma_decimal_injective(i, j);
        }
    }
}

/// If every candidate up to index `i` is taken, the taken list has more
/// than `i` entries.
proof fn lemma_candidate_pigeonhole(base: Seq<char>, suffix: Seq<char>, taken: Seq<Seq<char>>, i: nat)
    requires
        forall|j: nat| j <= i ==> taken.contains(#[trigger] numbered_candidate(base, suffix, j)),
    ensures
        i + 1 <= taken.len(),
{
    broadcast use vstd::set::group_set_axioms;
    broadcast use seq_to_set_is_finite;

    let cands = Seq::<Seq<char>>::new(i + 1, |j: int| numbered_candidate(base, suffix, j as nat));
    assert(cands.no_duplicates()) by {
        assert forall|p: int, q: int| 0 <= p < cands.len() && 0 <= q < cands.len() && p != q implies cands[p]
            != cands[q] by {
            lemma_candidate_injective(base, suffix, p as nat, q as nat);
        }
    }
    cands.unique_seq_to_set();
    assert(cands.to_set().subset_of(taken.to_set())) by {
        assert forall|x: Seq<char>| cands.to_set().contains(x) implies taken.to_set().contains(
            x,
        ) by {
            let j = choose|j: int| 0 <= j < cands.len() && cands[j] == x;
            assert(taken.contains(numbered_candidate(base, suffix, j as nat)));
        }
    }
    taken.lemma_cardinality_of_set();
    lemma_len_subset(cands.to_set(), taken.to_set());
}

/// The least free index is unique, so resolution is deterministic.
pub proof fn lemma_resolution_deterministic(
    base: Seq<char>,
    suffix: Seq<char>,
    taken: Seq<Seq<char>>,
    r1: Seq<char>,
    r2: Seq<char>,
)
    requires
        resolved_candidate(base, suffix, taken, r1),
        resolved_candidate(base, suffix, taken, r2),
    ensures
        r1 == r2,
{
    let i1 = choose|i: nat|
        #![trigger numbered_candidate(base, suffix, i)]
        r1 == numbered_candidate(base, suffix, i) && !taken.contains(
            numbered_candidate(base, suffix, i),
        ) && forall|j: nat| j < i ==> taken.contains(#[trigger] numbered_candidate(base, suffix, j));
    let i2 = choose|i: nat|
        #![trigger numbered_candidate(base, suffix, i)]
        r2 == numbered_candidate(base, suffix, i) && !taken.contains(
            numbered_candidate(base, suffix, i),
        ) && forall|j: nat| j < i ==> taken.contains(#[trigger] numbered_candidate(base, suffix, j));
    if i1 < i2 {
        assert(taken.contains(numbered_candidate(base, suffix, i1)));
    }
    if i2 < i1 {
        assert(taken.contains(numbered_candidate(base, suffix, i2)));
    }
}

/// Whether some path in `paths` reads exactly `s`.
pub fn contains_path(paths: &Vec<String>, s: &String) -> (r: bool)
    ensures
        r == view_seq(paths@).contains(s@),
{
    let mut i: usize = 0;
    while i < paths.len()
        invariant
            i <= paths@.len(),
            forall|k: int| 0 <= k < i ==> view_seq(paths@)[k] != s@,
        decreases paths@.len() - i,
    {
        assert(view_seq(paths@)[i as int] == paths@[i as int]@);
        if paths[i].eq(s) {
            return true;
        }
        i = i + 1;
    }
    false
}

/// The `i`-th candidate name, as characters.
fn make_candidate(base: &Vec<char>, suffix: &Vec<char>, i: u64) -> (r: Vec<char>)
    ensures
        r@ == numbered_candidate(base@, suffix@, i as nat),
{
    let mut r: Vec<char> = Vec::new();
    let mut k: usize = 0;
    while k < base.len()
        invariant
            k <= base@.len(),
            r@ == base@.subrange(0, k as int),
        decreases base@.len() - k,
    {
        r.push(base[k]);
        k = k + 1;
        assert(r@ =~= base@.subrange(0, k as int));
    }
    assert(r@ =~= base@);
    if i > 0 {
        r.push(' ');
        r.push('(');
        let digits = chars_of(decimal_string(i).as_str());
        let mut k2: usize = 0;
        while k2 < digits.len()
            invariant
                k2 <= digits@.len(),
                digits@ == decimal_seq(i as nat),
                r@ == base@ + seq![' ', '('] + digits@.subrange(0, k2 as int),
            decreases digits@.len() - k2,
        {
            r.push(digits[k2]);
            k2 = k2 + 1;
            assert(r@ =~= base@ + seq![' ', '('] + digits@.subrange(0, k2 as int));
        }
        assert(digits@.subrange(0, digits@.len() as int) =~= digits@);
        r.push(')');
        assert(r@ =~= base@ + seq![' ', '('] + decimal_seq(i as nat) + seq![')']);
    }
    let mut k3: usize = 0;
    let ghost before = r@;
    while k3 < suffix.len()
        invariant
            k3 <= suffix@.len(),
            r@ == before + suffix@.subrange(0, k3 as int),
        decreases suffix@.len() - k3,
    {
        r.push(suffix[k3]);
        k3 = k3 + 1;
        assert(r@ =~= before + suffix@.subrange(0, k3 as int));
    }
    assert(suffix@.subrange(0, suffix@.len() as int) =~= suffix@);
    assert(r@ =~= before + suffix@);
    assert(r@ =~= numbered_candidate(base@, suffix@, i as nat));
    r
}

/// The candidate name with the least index that does not occur in
/// `existing`.
fn first_free_candidate(base: &Vec<char>, suffix: &Vec<char>, existing: &Vec<String>) -> (r: String)
    ensures
        resolved_candidate(base@, suffix@, view_seq(existing@), r@),
{
    let ghost taken = view_seq(existing@);
    let n = existing.len();
    let mut i: u64 = 0;
    loop
        invariant
            n == existing@.len(),
            i <= n as u64,
            forall|j: nat| j < i ==> taken.contains(#[trigger] numbered_candidate(base@, suffix@, j)),
            taken == view_seq(existing@),
        decreases existing@.len() - i,
    {
        let cand = make_candidate(base, suffix, i);
        let cand_s = string_of(&cand);
        if !contains_path(existing, &cand_s) {
            return cand_s;
        }
        proof {
            assert(forall|j: nat|
                j <= i as nat ==> taken.contains(#[trigger] numbered_candidate(base@, suffix@, j)));
            lemma_candidate_pigeonhole(base@, suffix@, taken, i as nat);
        }
        i = i + 1;
    }
}

/// Copies the first `n` characters of `s`.
fn prefix_chars(s: &Vec<char>, n: usize) -> (r: Vec<char>)
    requires
        n <= s@.len(),
    ensures
        r@ == s@.subrange(0, n as int),
{
    let mut r: Vec<char> = Vec::new();
    let mut k: usize = 0;
    while k < n
        invariant
            k <= n <= s@.len(),
            r@ == s@.subrange(0, k as int),
        decreases n - k,
    {
        r.push(s[k]);
        k = k + 1;
        assert(r@ =~= s@.subrange(0, k as int));
    }
    r
}

/// The path a converted image is published under: the source's
/// directory and stem with a `.jpg` extension, disambiguated with the
/// first free parenthesized counter when names in `existing` collide.
pub fn resolve_output_path(input_path: &str, existing: &Vec<String>) -> (r: String)
    ensures
        resolved_candidate(
            dir_prefix_of(input_path@) + stem_of(input_path@),
            seq!['.', 'j', 'p', 'g'],
            view_seq(existing@),
            r@,
        ),
{
    let v = chars_of(input_path);
    let start = find_file_name_start(&v);
    proof {
        lemma_file_name_start_bounds(v@);
    }
    let mut name: Vec<char> = Vec::new();
    let mut k: usize = start;
    while k < v.len()
        invariant
            file_name_start(v@) <= k <= v@.len(),
            start == file_name_start(v@),
            name@ == v@.subrange(start as int, k as int),
        decreases v@.len() - k,
    {
        name.push(v[k]);
        k = k + 1;
        assert(name@ =~= v@.subrange(start as int, k as int));
    }
    assert(name@ =~= file_name_of(v@));
    let stem_len: usize = match find_stem_dot(&name) {
        Option::Some(d) => d,
        Option::None => name.len(),
    };
    proof {
        lemma_stem_dot_bounds(name@);
    }
    let base = prefix_chars(&v, start + stem_len);
    proof {
        assert(base@ =~= dir_prefix_of(v@) + stem_of(v@));
    }
    let suffix: Vec<char> = vec!['.', 'j', 'p', 'g'];
    assert(suffix@ =~= seq!['.', 'j', 'p', 'g']);
    first_free_candidate(&base, &suffix, existing)
}

/// Where the conversion tool writes before the atomic rename: the final
/// output path with a `.tmp` suffix.
pub fn tmp_output_path_for(output_path: &str) -> (r: String)
    ensures
        r@ == output_path@ + seq!['.', 't', 'm', 'p'],
{
    let mut s = String::new();
    s.append(output_path);
    push_char(&mut s, '.');
    push_char(&mut s, 't');
    push_char(&mut s, 'm');
    push_char(&mut s, 'p');
    assert(s@ =~= output_path@ + seq!['.', 't', 'm', 'p']);
    s
}

/// The sibling name a finished conversion would occupy: same directory,
/// same stem, `.jpg` extension.
pub open spec fn jpeg_sibling_of(p: Seq<char>) -> Seq<char> {
    dir_prefix_of(p) + stem_of(p) + seq!['.', 'j', 'p', 'g']
}

/// Whether the already-converted sibling of `path` occurs among
/// `files_present`.
pub fn has_jpeg_sibling(path: &str, files_present: &Vec<String>) -> (r: bool)
    ensures
        r == view_seq(files_present@).contains(jpeg_sibling_of(path@)),
{
    let v = chars_of(path);
    let start = find_file_name_start(&v);
    proof {
        lemma_file_name_start_bounds(v@);
    }
    let mut name: Vec<char> = Vec::new();
    let mut k: usize = start;
    while k < v.len()
        invariant
            file_name_start(v@) <= k <= v@.len(),
            start == file_name_start(v@),
            name@ == v@.subrange(start as int, k as int),
        decreases v@.len() - k,
    {
        name.push(v[k]);
        k = k + 1;
        assert(name@ =~= v@.subrange(start as int, k as int));
    }
    assert(name@ =~= file_name_of(v@));
    let stem_len: usize = match find_stem_dot(&name) {
        Option::Some(d) => d,
        Option::None => name.len(),
    };
    proof {
        lemma_stem_dot_bounds(name@);
    }
    let mut sib = prefix_chars(&v, start + stem_len);
    proof {
        assert(sib@ =~= dir_prefix_of(v@) + stem_of(v@));
    }
    sib.push('.');
    sib.push('j');
    sib.push('p');
    sib.push('g');
    assert(sib@ =~= jpeg_sibling_of(v@));
    let sib_s = string_of(&sib);
    contains_path(files_present, &sib_s)
}

/// The base a retired file's candidates share: the recycle directory
/// (given without a trailing separator), a separator, and the source's
/// stem.
pub open spec fn dest_base(dir: Seq<char>, source: Seq<char>) -> Seq<char> {
    dir + seq!['/'] + stem_of(source)
}

/// The suffix a retired file's candidates share: the source's dotted
/// extension, or nothing when it has none.
pub open spec fn dest_suffix(source: Seq<char>) -> Seq<char> {
    match extension_of(source) {
        Option::Some(e) => seq!['.'] + e,
        Option::None => Seq::empty(),
    }
}

/// The first free name for `source_path` inside `dir`: the plain file
/// name first, then stem-with-counter variants, skipping everything in
/// `existing`.
pub fn unique_destination_path(dir: &str, source_path: &str, existing: &Vec<String>) -> (r: String)
    ensures
        resolved_candidate(
            dest_base(dir@, source_path@),
            dest_suffix(source_path@),
            view_seq(existing@),
            r@,
        ),
{
    let v = chars_of(source_path);
    let start = find_file_name_start(&v);
    proof {
        lemma_file_name_start_bounds(v@);
    }
    let mut name: Vec<char> = Vec::new();
    let mut k: usize = start;
    while k < v.len()
        invariant
            file_name_start(v@) <= k <= v@.len(),
            start == file_name_start(v@),
            name@ == v@.subrange(start as int, k as int),
        decreases v@.len() - k,
    {
        name.push(v[k]);
        k = k + 1;
        assert(name@ =~= v@.subrange(start as int, k as int));
    }
    assert(name@ =~= file_name_of(v@));
    let dot = find_stem_dot(&name);
    proof {
        lemma_stem_dot_bounds(name@);
    }
    let mut base = chars_of(dir);
    base.push('/');
    let mut suffix: Vec<char> = Vec::new();
    match dot {
        Option::Some(d) => {
            let mut k2: usize = 0;
            let ghost before = base@;
            while k2 < d
                invariant
                    stem_dot(name@) == d,
                    1 <= d < name@.len(),
                    k2 <= d,
                    base@ == before + name@.subrange(0, k2 as int),
                decreases d - k2,
            {
                base.push(name[k2]);
                k2 = k2 + 1;
                assert(base@ =~= before + name@.subrange(0, k2 as int));
            }
            assert(base@ =~= dest_base(dir@, v@));
            suffix.push('.');
            let mut k3: usize = d + 1;
            while k3 < name.len()
                invariant
                    stem_dot(name@) == d,
                    1 <= d < name@.len(),
                    d + 1 <= k3 <= name@.len(),
                    suffix@ == seq!['.'] + name@.subrange(d + 1, k3 as int),
                decreases name@.len() - k3,
            {
                suffix.push(name[k3]);
                k3 = k3 + 1;
                assert(suffix@ =~= seq!['.'] + name@.subrange(d + 1, k3 as int));
            }
            assert(suffix@ =~= dest_suffix(v@));
        },
        Option::None => {
            let mut k2: usize = 0;
            let ghost before = base@;
            while k2 < name.len()
                invariant
                    k2 <= name@.len(),
                    base@ == before + name@.subrange(0, k2 as int),
                decreases name@.len() - k2,
            {
                base.push(name[k2]);
                k2 = k2 + 1;
                assert(base@ =~= before + name@.subrange(0, k2 as int));
            }
            assert(name@.subrange(0, name@.len() as int) =~= name@);
            assert(base@ =~= dest_base(dir@, v@));
            assert(suffix@ =~= dest_suffix(v@));
        },
    }
    first_free_candidate(&base, &suffix, existing)
}

} // verus!
