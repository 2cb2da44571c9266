//! Trusted boundary around the `glob` crate, and the verified exclusion
//! rules built on it: an entry is skipped when its whole relative path
//! matches an exclude pattern, or when any single path component does. A
//! pattern with a trailing `/` names a directory and is compared to a
//! component by exact name instead of as a glob.

use vstd::prelude::*;

verus! {

#[verifier::external_type_specification]
#[verifier::external_body]
pub struct ExPattern(glob::Pattern);

/// The source text a compiled pattern was built from.
pub uninterp spec fn pattern_src(p: glob::Pattern) -> Seq<char>;

/// Whether `glob::Pattern::new` accepts a pattern text.
pub uninterp spec fn glob_valid(pattern: Seq<char>) -> bool;

/// Whether a text matches a glob pattern, by `glob::Pattern::matches`.
pub uninterp spec fn glob_match(pattern: Seq<char>, text: Seq<char>) -> bool;

/// Relies on glob::Pattern::new: compiling succeeds on exactly the
/// well-formed patterns, and the compiled pattern keeps its source text.
#[verifier::external_body]
pub fn compile_pattern(s: &str) -> (r: Option<glob::Pattern>)
    ensures
        (r is Some) == glob_valid(s@),
        r is Some ==> pattern_src(r->0) == s@,
{
    glob::Pattern::new(s).ok()
}

/// Relies on glob::Pattern::matches: whether a text matches is a function
/// of the pattern's source text and the text alone.
#[verifier::external_body]
pub fn pattern_matches(p: &glob::Pattern, text: &str) -> (r: bool)
    ensures
        r == glob_match(pattern_src(*p), text@),
{
    p.matches(text)
}

/// The source texts of a sequence of compiled patterns.
pub open spec fn pattern_srcs(ps: Seq<glob::Pattern>) -> Seq<Seq<char>> {
    ps.map(|i: int, p: glob::Pattern| pattern_src(p))
}

/// Compile exclude patterns, dropping the ill-formed ones silently.
pub fn compile_excludes(excludes: &Vec<String>) -> (r: Vec<glob::Pattern>)
    ensures
        pattern_srcs(r@) == excludes@.map(
            |i: int, s: String| s@,
        ).filter(|p: Seq<char>| glob_valid(p)),
{
    let mut r: Vec<glob::Pattern> = Vec::new();
    let mut k: usize = 0;
    while k < excludes.len()
        invariant
            k <= excludes@.len(),
            pattern_srcs(r@) == excludes@.map(|i: int, s: String| s@).take(k as int).filter(
                |p: Seq<char>| glob_valid(p),
            ),
        decreases excludes@.len() - k,
    {
        let ghost prefix = excludes@.map(|i: int, s: String| s@).take(k as int);
        match compile_pattern(excludes[k].as_str()) {
            Some(p) => {
                r.push(p);
                proof {
                    assert(pattern_srcs(r@) =~= pattern_srcs(r@.drop_last()).push(
                        pattern_src(r@.last()),
                    ));
                    assert(excludes@.map(|i: int, s: String| s@).take(k + 1 as int).drop_last()
                        =~= prefix);
                    reveal(Seq::filter);
                }
            },
            None => {
                proof {
                    assert(excludes@.map(|i: int, s: String| s@).take(k + 1 as int).drop_last()
                        =~= prefix);
                    reveal(Seq::filter);
                }
            },
        }
        k = k + 1;
    }
    proof {
        assert(excludes@.map(|i: int, s: String| s@).take(excludes@.len() as int) =~= excludes@.map(
            |i: int, s: String| s@,
        ));
    }
    r
}

/// Relies on glob::Pattern::as_str: it hands back the source text.
#[verifier::external_body]
pub fn pattern_as_str<'a>(p: &'a glob::Pattern) -> (r: &'a str)
    ensures
        r@ == pattern_src(*p),
{
    p.as_str()
}

/// The views of a vector of path components.
pub open spec fn comp_views(v: Seq<String>) -> Seq<Seq<char>> {
    v.map(|i: int, c: String| c@)
}

/// Split on `/`, gathering the current component and the finished ones.
pub open spec fn split_acc(s: Seq<char>, cur: Seq<char>, acc: Seq<Seq<char>>) -> Seq<Seq<char>>
    decreases s.len(),
{
    if s.len() == 0 {
        if cur.len() > 0 {
            acc.push(cur)
        } else {
            acc
        }
    } else if s[0] == '/' {
        split_acc(
            s.drop_first(),
            Seq::empty(),
            if cur.len() > 0 {
                acc.push(cur)
            } else {
                acc
            },
        )
    } else {
        split_acc(s.drop_first(), cur.push(s[0]), acc)
    }
}

/// The non-empty components of a path, split on `/`.
pub open spec fn components(s: Seq<char>) -> Seq<Seq<char>> {
    split_acc(s, Seq::empty(), Seq::empty())
}

/// Split a relative path into its non-empty components.
pub fn split_components(s: &str) -> (r: Vec<String>)
    ensures
        comp_views(r@) == components(s@),
{
    let len = s.unicode_len();
    let mut acc: Vec<String> = Vec::new();
    let mut start: usize = 0;
    let mut i: usize = 0;
    proof {
        assert(s@.skip(0) =~= s@);
        assert(s@.subrange(0, 0) =~= Seq::<char>::empty());
        assert(comp_views(acc@) =~= Seq::<Seq<char>>::empty());
    }
    while i < len
        invariant
            len == s@.len(),
            start <= i <= len,
            forall|k: int| start <= k < i ==> s@[k] != '/',
            split_acc(s@.skip(i as int), s@.subrange(start as int, i as int), comp_views(acc@))
                == components(s@),
        decreases len - i,
    {
        let ghost pre_cur = s@.subrange(start as int, i as int);
        let ghost pre_acc = comp_views(acc@);
        proof {
            assert(s@.skip(i as int)[0] == s@[i as int]);
            assert(s@.skip(i as int).drop_first() =~= s@.skip(i + 1 as int));
        }
        if s.get_char(i) == '/' {
            if i > start {
                let piece = String::from_str(s.substring_char(start, i));
                acc.push(piece);
                proof {
                    assert(comp_views(acc@) =~= pre_acc.push(pre_cur));
                }
            }
            start = i + 1;
            proof {
                assert(s@.subrange(start as int, start as int) =~= Seq::<char>::empty());
            }
        } else {
            proof {
                assert(s@.subrange(start as int, i + 1 as int) =~= pre_cur.push(s@[i as int]));
            }
        }
        i = i + 1;
    }
    proof {
        assert(s@.skip(len as int) =~= Seq::<char>::empty());
    }
    if len > start {
        let piece = String::from_str(s.substring_char(start, len));
        let ghost pre_acc = comp_views(acc@);
        acc.push(piece);
        proof {
            assert(comp_views(acc@) =~= pre_acc.push(s@.subrange(start as int, len as int)));
        }
    }
    acc
}

/// A pattern text with its trailing `/` characters removed.
pub open spec fn strip_trailing_slashes(p: Seq<char>) -> Seq<char>
    decreases p.len(),
{
    if p.len() > 0 && p.last() == '/' {
        strip_trailing_slashes(p.drop_last())
    } else {
        p
    }
}

proof fn lemma_strip_trailing_slashes(p: Seq<char>, end: int)
    requires
        0 <= end <= p.len(),
        forall|k: int| end <= k < p.len() ==> p[k] == '/',
        end > 0 ==> p[end - 1] != '/',
    ensures
        strip_trailing_slashes(p) == p.subrange(0, end),
    decreases p.len(),
{
    if p.len() > end {
        assert(p.last() == '/');
        lemma_strip_trailing_slashes(p.drop_last(), end);
        assert(p.drop_last().subrange(0, end) =~= p.subrange(0, end));
    } else {
        assert(p.subrange(0, end) =~= p);
    }
}

/// Whether one exclude pattern strikes one path component: a pattern with a
/// trailing `/` is an exact directory name, any other is a glob.
pub open spec fn comp_hit(pat: Seq<char>, comp: Seq<char>) -> bool {
    if pat.len() > 0 && pat.last() == '/' {
        comp == strip_trailing_slashes(pat)
    } else {
        glob_match(pat, comp)
    }
}

/// Whether an entry with this relative path is excluded: its whole path
/// matches some pattern, or some component is struck by some pattern.
pub open spec fn path_excluded(rel: Seq<char>, pats: Seq<Seq<char>>) -> bool {
    (exists|i: int| 0 <= i < pats.len() && glob_match(pats[i], rel)) || (exists|i: int, j: int|
        0 <= i < pats.len() && 0 <= j < components(rel).len() && comp_hit(
            pats[i],
            components(rel)[j],
        ))
}

fn comp_hit_exec(p: &glob::Pattern, comp: &str) -> (r: bool)
    ensures
        r == comp_hit(pattern_src(*p), comp@),
{
    let ps = pattern_as_str(p);
    let len = ps.unicode_len();
    if len > 0 && ps.get_char(len - 1) == '/' {
        let mut end: usize = len;
        while end > 0 && ps.get_char(end - 1) == '/'
            invariant
                len == ps@.len(),
                end <= len,
                forall|k: int| end <= k < len ==> ps@[k] == '/',
            decreases end,
        {
            end = end - 1;
        }
        proof {
            lemma_strip_trailing_slashes(ps@, end as int);
        }
        let stripped = ps.substring_char(0, end);
        crate::strutil::str_eq(comp, stripped)
    } else {
        pattern_matches(p, comp)
    }
}

/// Whether the entry at this relative path is skipped by the excludes.
pub fn is_excluded(rel: &str, patterns: &Vec<glob::Pattern>) -> (r: bool)
    ensures
        r == path_excluded(rel@, pattern_srcs(patterns@)),
{
    let mut i: usize = 0;
    while i < patterns.len()
        invariant
            forall|ii: int| 0 <= ii < i ==> !glob_match(pattern_srcs(patterns@)[ii], rel@),
        decreases patterns@.len() - i,
    {
        if pattern_matches(&patterns[i], rel) {
            proof {
                assert(glob_match(pattern_srcs(patterns@)[i as int], rel@));
            }
            return true;
        }
        i = i + 1;
    }
    let comps = split_components(rel);
    let mut j: usize = 0;
    while j < comps.len()
        invariant
            comp_views(comps@) == components(rel@),
            forall|ii: int| 0 <= ii < patterns@.len() ==> !glob_match(
                pattern_srcs(patterns@)[ii],
                rel@,
            ),
            forall|ii: int, jj: int|
                0 <= ii < patterns@.len() && 0 <= jj < j ==> !comp_hit(
                    pattern_srcs(patterns@)[ii],
                    components(rel@)[jj],
                ),
        decreases comps@.len() - j,
    {
        let mut k: usize = 0;
        while k < patterns.len()
            invariant
                comp_views(comps@) == components(rel@),
                j < comps@.len(),
                forall|ii: int| 0 <= ii < k ==> !comp_hit(
                    pattern_srcs(patterns@)[ii],
                    components(rel@)[j as int],
                ),
            decreases patterns@.len() - k,
        {
            if comp_hit_exec(&patterns[k], comps[j].as_str()) {
                proof {
                    assert(comp_views(comps@)[j as int] == comps@[j as int]@);
                    assert(comp_hit(
                        pattern_srcs(patterns@)[k as int],
                        components(rel@)[j as int],
                    ));
                }
                return true;
            }
            k = k + 1;
        }
        j = j + 1;
    }
    false
}

} // verus!
