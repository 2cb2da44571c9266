//! Construction of the remote command lines run over ssh, and the error
//! type a failed invocation surfaces as. Values are single-quoted, not
//! fully shell-escaped, as the tool has always done; a value holding a
//! single quote breaks the remote command.

use crate::strutil::str_eq;
use vstd::prelude::*;

verus! {

pub enum TransferError {
    /// The local process could not be launched.
    ExecError { cmd: String, source: String },
    /// The remote command exited non-zero.
    CommandFailed { cmd: String, code: i32, stderr: String },
    /// The remote command was killed by a signal.
    Killed { cmd: String },
    /// The local file to send does not exist.
    LocalNotFound(String),
}

/// `dir/name`, the remote file placed under a remote directory.
pub fn path_join(dir: &str, name: &str) -> (r: String)
    ensures
        r@ == dir@ + "/"@ + name@,
{
    proof {
        reveal_strlit("/");
    }
    let mut r = String::from_str(dir);
    r.append("/");
    r.append(name);
    r
}

/// The directory `mkdir -p` is given for a target path: the path itself
/// when it ends in `/`, else everything before the last `/` (the root `/`
/// is kept, and a bare name has no directory part).
pub open spec fn spec_parent_dir(p: Seq<char>) -> Seq<char> {
    if p.len() == 0 {
        "/"@
    } else if p.last() == '/' {
        p
    } else {
        match p.index_of_last('/') {
            None => Seq::<char>::empty(),
            Some(j) => if j == 0 {
                "/"@
            } else {
                p.take(j)
            },
        }
    }
}

/// The directory part of a remote target path.
pub fn parent_dir(path: &str) -> (r: String)
    ensures
        r@ == spec_parent_dir(path@),
{
    proof {
        path@.index_of_last_ensures('/');
        reveal_strlit("/");
    }
    let len = path.unicode_len();
    if len == 0 {
        return String::from_str("/");
    }
    if path.get_char(len - 1) == '/' {
        proof {
            assert(path@.contains('/')) by {
                assert(path@[len - 1 as int] == '/');
            }
        }
        return String::from_str(path);
    }
    let mut j: usize = len - 1;
    loop
        invariant
            len == path@.len(),
            0 < len,
            j < len,
            path@.last() != '/',
            forall|k: int| j < k < len ==> path@[k] != '/',
        decreases j,
    {
        if path.get_char(j) == '/' {
            proof {
                reveal_strlit("/");
                path@.index_of_last_ensures('/');
                assert(path@.contains('/')) by {
                    assert(path@[j as int] == '/');
                }
                let m = path@.index_of_last('/')->Some_0;
                assert(path@[m] == '/');
                if m < j as int {
                    assert(false);
                }
                if m > j as int {
                    assert(false);
                }
            }
            if j == 0 {
                return String::from_str("/");
            }
            let r = String::from_str(path.substring_char(0, j));
            proof {
                assert(r@ =~= path@.take(j as int));
            }
            return r;
        }
        if j == 0 {
            proof {
                path@.index_of_last_ensures('/');
                if path@.contains('/') {
                    let k = choose|k: int| 0 <= k < path@.len() && path@[k] == '/';
                    assert(false);
                }
            }
            return String::new();
        }
        j = j - 1;
    }
}

/// `mkdir -p '<dir>'`, run remotely before a transfer.
pub fn mkdir_command(dir: &str) -> (r: String)
    ensures
        r@ == "mkdir -p '"@ + dir@ + "'"@,
{
    proof {
        reveal_strlit("mkdir -p '");
        reveal_strlit("'");
    }
    let mut r = String::from_str("mkdir -p '");
    r.append(dir);
    r.append("'");
    r
}

/// `test -e '<path>'`, the remote existence probe.
pub fn test_exists_command(path: &str) -> (r: String)
    ensures
        r@ == "test -e '"@ + path@ + "'"@,
{
    proof {
        reveal_strlit("test -e '");
        reveal_strlit("'");
    }
    let mut r = String::from_str("test -e '");
    r.append(path);
    r.append("'");
    r
}

/// `rm -f '<path>'`, the remote cleanup of a stale archive.
pub fn rm_command(path: &str) -> (r: String)
    ensures
        r@ == "rm -f '"@ + path@ + "'"@,
{
    proof {
        reveal_strlit("rm -f '");
        reveal_strlit("'");
    }
    let mut r = String::from_str("rm -f '");
    r.append(path);
    r.append("'");
    r
}

/// A path with every trailing `.zip` suffix removed, as the extraction
/// directory of a remote archive.
pub open spec fn spec_strip_zip(p: Seq<char>) -> Seq<char>
    decreases p.len(),
{
    if p.len() >= 4 && p.skip(p.len() - 4) == ".zip"@ {
        spec_strip_zip(p.take(p.len() - 4))
    } else {
        p
    }
}

/// The directory a remote archive is extracted into: its path minus the
/// `.zip` suffix.
pub fn extract_dir_of(zip_path: &str) -> (r: String)
    ensures
        r@ == spec_strip_zip(zip_path@),
{
    let mut end = zip_path.unicode_len();
    proof {
        assert(zip_path@.take(end as int) =~= zip_path@);
    }
    loop
        invariant
            end <= zip_path@.len(),
            spec_strip_zip(zip_path@.take(end as int)) == spec_strip_zip(zip_path@),
        decreases end,
    {
        proof {
            reveal_strlit(".zip");
        }
        let ghost pre = zip_path@.take(end as int);
        if end >= 4 && str_eq(zip_path.substring_char(end - 4, end), ".zip") {
            proof {
                assert(pre.skip(end - 4 as int) =~= zip_path@.subrange(
                    end - 4 as int,
                    end as int,
                ));
                assert(pre.take(end - 4 as int) =~= zip_path@.take(end - 4 as int));
            }
            end = end - 4;
        } else {
            proof {
                if end >= 4 {
                    assert(pre.skip(end - 4 as int) =~= zip_path@.subrange(
                        end - 4 as int,
                        end as int,
                    ));
                }
            }
            let r = String::from_str(zip_path.substring_char(0, end));
            proof {
                assert(r@ =~= zip_path@.take(end as int));
            }
            return r;
        }
    }
}

/// `unzip -o '<zip>' -d '<dir>'`, the remote extraction.
pub fn unzip_command(zip_path: &str, extract_dir: &str) -> (r: String)
    ensures
        r@ == "unzip -o '"@ + zip_path@ + "' -d '"@ + extract_dir@ + "'"@,
{
    proof {
        reveal_strlit("unzip -o '");
        reveal_strlit("' -d '");
        reveal_strlit("'");
    }
    let mut r = String::from_str("unzip -o '");
    r.append(zip_path);
    r.append("' -d '");
    r.append(extract_dir);
    r.append("'");
    r
}

/// The exclude arguments handed to the remote zip tool: `-x` and the
/// quoted pattern, for each pattern in order.
pub fn zip_exclude_args(excludes: &Vec<String>) -> (r: Vec<String>)
    ensures
        r@.len() == 2 * excludes@.len(),
        forall|j: int|
            0 <= j < r@.len() ==> (#[trigger] r@[j])@ == if j % 2 == 0 {
                "-x"@
            } else {
                "'"@ + excludes@[j / 2]@ + "'"@
            },
{
    proof {
        reveal_strlit("-x");
        reveal_strlit("'");
    }
    let mut r: Vec<String> = Vec::new();
    let mut i: usize = 0;
    while i < excludes.len()
        invariant
            i <= excludes@.len(),
            r@.len() == 2 * i,
            forall|j: int|
                0 <= j < r@.len() ==> (#[trigger] r@[j])@ == if j % 2 == 0 {
                    "-x"@
                } else {
                    "'"@ + excludes@[j / 2]@ + "'"@
                },
        decreases excludes@.len() - i,
    {
        proof {
            reveal_strlit("-x");
            reveal_strlit("'");
        }
        r.push(String::from_str("-x"));
        let mut quoted = String::from_str("'");
        quoted.append(excludes[i].as_str());
        quoted.append("'");
        r.push(quoted);
        proof {
            assert(r@[2 * (i as int)]@ == "-x"@);
            assert(r@[2 * (i as int) + 1]@ == "'"@ + excludes@[i as int]@ + "'"@);
        }
        i = i + 1;
    }
    r
}

/// The words after the first, each led by a space.
pub open spec fn spec_tail_join(parts: Seq<Seq<char>>) -> Seq<char>
    decreases parts.len(),
{
    if parts.len() == 0 {
        Seq::<char>::empty()
    } else {
        " "@ + parts[0] + spec_tail_join(parts.drop_first())
    }
}

/// Words joined by single spaces.
pub open spec fn spec_join(parts: Seq<Seq<char>>) -> Seq<char> {
    if parts.len() == 0 {
        Seq::<char>::empty()
    } else {
        parts[0] + spec_tail_join(parts.drop_first())
    }
}

proof fn lemma_tail_join_push(parts: Seq<Seq<char>>, last: Seq<char>)
    ensures
        spec_tail_join(parts.push(last)) == spec_tail_join(parts) + " "@ + last,
    decreases parts.len(),
{
    if parts.len() == 0 {
        assert(parts.push(last)[0] == last);
        assert(parts.push(last).drop_first() =~= Seq::<Seq<char>>::empty());
        assert(spec_tail_join(parts.push(last)) == " "@ + last + spec_tail_join(
            Seq::<Seq<char>>::empty(),
        ));
        assert((" "@ + last) + Seq::<char>::empty() =~= " "@ + last);
        assert((Seq::<char>::empty() + " "@) + last =~= " "@ + last);
        assert(spec_tail_join(parts.push(last)) =~= spec_tail_join(parts) + " "@ + last);
    } else {
        assert(parts.push(last)[0] == parts[0]);
        assert(parts.push(last).drop_first() =~= parts.drop_first().push(last));
        lemma_tail_join_push(parts.drop_first(), last);
        let head = " "@ + parts[0];
        let tail = spec_tail_join(parts.drop_first());
        assert(spec_tail_join(parts.push(last)) == head + (tail + " "@ + last));
        vstd::seq_lib::lemma_concat_associative(head, tail + " "@, last);
        vstd::seq_lib::lemma_concat_associative(head, tail, " "@);
        assert(spec_tail_join(parts.push(last)) =~= spec_tail_join(parts) + " "@ + last);
    }
}

/// Join words with single spaces.
pub fn join_spaces(parts: &Vec<String>) -> (r: String)
    ensures
        r@ == spec_join(parts@.map(|i: int, s: String| s@)),
{
    proof {
        reveal_strlit(" ");
    }
    let ghost views = parts@.map(|i: int, s: String| s@);
    if parts.len() == 0 {
        return String::new();
    }
    let mut r = parts[0].clone();
    let mut i: usize = 1;
    while i < parts.len()
        invariant
            views == parts@.map(|i: int, s: String| s@),
            1 <= i <= parts@.len(),
            r@ == views[0] + spec_tail_join(views.subrange(1, i as int)),
        decreases parts@.len() - i,
    {
        r.append(" ");
        r.append(parts[i].as_str());
        proof {
            lemma_tail_join_push(views.subrange(1, i as int), views[i as int]);
            assert(views.subrange(1, i + 1 as int) =~= views.subrange(1, i as int).push(
                views[i as int],
            ));
            assert(r@ =~= views[0] + spec_tail_join(views.subrange(1, i + 1 as int)));
        }
        i = i + 1;
    }
    proof {
        assert(views.subrange(1, views.len() as int) =~= views.drop_first());
    }
    r
}

/// `cd '<dir>' && zip -r '<archive>' . <exclude args>`, the remote archive
/// construction.
pub fn zip_command(dir_path: &str, archive_path: &str, exclude_args: &Vec<String>) -> (r: String)
    ensures
        r@ == "cd '"@ + dir_path@ + "' && zip -r '"@ + archive_path@ + "' . "@ + spec_join(
            exclude_args@.map(|i: int, s: String| s@),
        ),
{
    proof {
        reveal_strlit("cd '");
        reveal_strlit("' && zip -r '");
        reveal_strlit("' . ");
    }
    let mut r = String::from_str("cd '");
    r.append(dir_path);
    r.append("' && zip -r '");
    r.append(archive_path);
    r.append("' . ");
    let joined = join_spaces(exclude_args);
    r.append(joined.as_str());
    r
}

/// A string with every occurrence of a pattern replaced, left to right and
/// without overlap; an empty pattern replaces nothing.
pub open spec fn spec_replace(s: Seq<char>, pat: Seq<char>, repl: Seq<char>) -> Seq<char>
    decreases s.len(),
{
    if pat.len() == 0 || s.len() < pat.len() {
        s
    } else if s.take(pat.len() as int) == pat {
        repl + spec_replace(s.skip(pat.len() as int), pat, repl)
    } else {
        seq![s[0]] + spec_replace(s.drop_first(), pat, repl)
    }
}

/// Replace every occurrence of a pattern, left to right.
pub fn replace_all(s: &str, pat: &str, repl: &str) -> (r: String)
    ensures
        r@ == spec_replace(s@, pat@, repl@),
{
    let len = s.unicode_len();
    let plen = pat.unicode_len();
    if plen == 0 {
        return String::from_str(s);
    }
    let mut r = String::new();
    let mut i: usize = 0;
    proof {
        assert(s@.skip(0) =~= s@);
        assert(r@ + spec_replace(s@, pat@, repl@) =~= spec_replace(s@, pat@, repl@));
    }
    while i < len
        invariant
            len == s@.len(),
            plen == pat@.len(),
            plen > 0,
            i <= len,
            r@ + spec_replace(s@.skip(i as int), pat@, repl@) == spec_replace(s@, pat@, repl@),
        decreases len - i,
    {
        let ghost rest = s@.skip(i as int);
        let ghost pre_r = r@;
        if plen <= len - i && str_eq(s.substring_char(i, i + plen), pat) {
            proof {
                assert(rest.take(plen as int) =~= s@.subrange(i as int, i + plen as int));
                assert(rest.skip(plen as int) =~= s@.skip(i + plen as int));
            }
            r.append(repl);
            proof {
                assert(r@ + spec_replace(s@.skip(i + plen as int), pat@, repl@) =~= pre_r
                    + spec_replace(rest, pat@, repl@));
            }
            i = i + plen;
        } else {
            proof {
                if i + plen <= len {
                    assert(rest.take(plen as int) =~= s@.subrange(i as int, i + plen as int));
                }
                assert(rest.drop_first() =~= s@.skip(i + 1 as int));
            }
            let c = s.substring_char(i, i + 1);
            r.append(c);
            proof {
                assert(c@ =~= seq![rest[0]]);
                assert(r@ + spec_replace(s@.skip(i + 1 as int), pat@, repl@) =~= pre_r
                    + spec_replace(rest, pat@, repl@));
            }
            i = i + 1;
        }
    }
    proof {
        assert(s@.skip(len as int) =~= Seq::<char>::empty());
        assert(r@ =~= r@ + spec_replace(s@.skip(len as int), pat@, repl@));
    }
    r
}

/// Expand the dump layout template: `{source}` becomes the source machine
/// name, then `{date}` the date.
pub fn build_layout_path(layout: &str, source: &str, date: &str) -> (r: String)
    ensures
        r@ == spec_replace(spec_replace(layout@, "{source}"@, source@), "{date}"@, date@),
{
    let with_source = replace_all(layout, "{source}", source);
    replace_all(with_source.as_str(), "{date}", date)
}

} // verus!
