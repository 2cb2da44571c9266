//! The configuration model: connection defaults, named hosts with their
//! path-alias tables, and share destinations. Host and alias tables are
//! association lists looked up by exact key, first match first.

use crate::strutil::{lower_of, str_eq, str_starts_with, to_lowercase};
use vstd::prelude::*;

verus! {

/// Connection info and path aliases of one named remote machine.
pub struct Host {
    pub host: String,
    pub user: Option<String>,
    pub port: Option<u16>,
    pub identity_file: Option<String>,
    pub role: Option<String>,
    pub paths: Vec<(String, String)>,
}

/// Default exclude patterns and link handling for archives.
pub struct ZipDefaults {
    pub exclude: Vec<String>,
    pub follow_symlinks: bool,
}

/// Connection defaults applied where a host gives no override.
pub struct Defaults {
    pub user: String,
    pub port: u16,
    pub default_path_alias: String,
    pub zip: ZipDefaults,
    pub staging_dir: String,
}

/// The default dump destination and its layout template.
pub struct Shares {
    pub default: String,
    pub layout: String,
}

/// A loaded configuration, immutable for the run.
pub struct Config {
    pub version: u32,
    pub defaults: Defaults,
    pub hosts: Vec<(String, Host)>,
    pub shares: Shares,
}

/// The first value bound to a key in an association list of strings.
pub open spec fn find_value(pairs: Seq<(String, String)>, key: Seq<char>) -> Option<Seq<char>>
    decreases pairs.len(),
{
    if pairs.len() == 0 {
        None
    } else if pairs[0].0@ == key {
        Some(pairs[0].1@)
    } else {
        find_value(pairs.drop_first(), key)
    }
}

/// The first host bound to a name in the host table.
pub open spec fn find_host(pairs: Seq<(String, Host)>, name: Seq<char>) -> Option<Host>
    decreases pairs.len(),
{
    if pairs.len() == 0 {
        None
    } else if pairs[0].0@ == name {
        Some(pairs[0].1)
    } else {
        find_host(pairs.drop_first(), name)
    }
}

/// Whether two names are similar for a typo suggestion: one lowercase
/// folding is a prefix of the other.
pub open spec fn similar_names(a: Seq<char>, b: Seq<char>) -> bool {
    lower_of(a).is_prefix_of(lower_of(b)) || lower_of(b).is_prefix_of(lower_of(a))
}

/// The first configured host name similar to the given one.
pub open spec fn find_similar(pairs: Seq<(String, Host)>, name: Seq<char>) -> Option<Seq<char>>
    decreases pairs.len(),
{
    if pairs.len() == 0 {
        None
    } else if similar_names(pairs[0].0@, name) {
        Some(pairs[0].0@)
    } else {
        find_similar(pairs.drop_first(), name)
    }
}

impl Host {
    /// Well-formedness: the alias keys of the path table are pairwise
    /// distinct, as a configuration file's mapping guarantees.
    pub open spec fn wf(self) -> bool {
        forall|i: int, j: int|
            0 <= i < j < self.paths@.len() ==> (#[trigger] self.paths@[i]).0@ != (
            #[trigger] self.paths@[j]).0@
    }
}

impl Config {
    /// Well-formedness: host names are pairwise distinct and every host's
    /// own path table is well formed.
    pub open spec fn wf(self) -> bool {
        &&& forall|i: int, j: int|
            0 <= i < j < self.hosts@.len() ==> (#[trigger] self.hosts@[i]).0@ != (
            #[trigger] self.hosts@[j]).0@
        &&& forall|i: int| 0 <= i < self.hosts@.len() ==> (#[trigger] self.hosts@[i]).1.wf()
    }
}

/// Under pairwise-distinct keys, a key bound anywhere in the table is
/// bound exactly once: the first match is that binding.
pub proof fn lemma_find_value_unique(pairs: Seq<(String, String)>, key: Seq<char>, i: int)
    requires
        forall|p: int, q: int|
            0 <= p < q < pairs.len() ==> (#[trigger] pairs[p]).0@ != (#[trigger] pairs[q]).0@,
        0 <= i < pairs.len(),
        pairs[i].0@ == key,
    ensures
        find_value(pairs, key) == Some(pairs[i].1@),
    decreases pairs.len(),
{
    if i > 0 {
        assert(pairs[0].0@ != key);
        assert forall|p: int, q: int|
            0 <= p < q < pairs.drop_first().len() implies (#[trigger] pairs.drop_first()[p]).0@
            != (#[trigger] pairs.drop_first()[q]).0@ by {
            assert(pairs.drop_first()[p] == pairs[p + 1]);
            assert(pairs.drop_first()[q] == pairs[q + 1]);
        }
        assert(pairs.drop_first()[i - 1] == pairs[i]);
        lemma_find_value_unique(pairs.drop_first(), key, i - 1);
    }
}

/// Under pairwise-distinct host names, a host configured anywhere in the
/// table is the one resolution finds.
pub proof fn lemma_find_host_unique(pairs: Seq<(String, Host)>, name: Seq<char>, i: int)
    requires
        forall|p: int, q: int|
            0 <= p < q < pairs.len() ==> (#[trigger] pairs[p]).0@ != (#[trigger] pairs[q]).0@,
        0 <= i < pairs.len(),
        pairs[i].0@ == name,
    ensures
        find_host(pairs, name) == Some(pairs[i].1),
    decreases pairs.len(),
{
    if i > 0 {
        assert(pairs[0].0@ != name);
        assert forall|p: int, q: int|
            0 <= p < q < pairs.drop_first().len() implies (#[trigger] pairs.drop_first()[p]).0@
            != (#[trigger] pairs.drop_first()[q]).0@ by {
            assert(pairs.drop_first()[p] == pairs[p + 1]);
            assert(pairs.drop_first()[q] == pairs[q + 1]);
        }
        assert(pairs.drop_first()[i - 1] == pairs[i]);
        lemma_find_host_unique(pairs.drop_first(), name, i - 1);
    }
}

/// Look up an alias in a host's path table.
pub fn lookup_path<'a>(paths: &'a Vec<(String, String)>, alias: &str) -> (r: Option<&'a String>)
    ensures
        match r {
            Some(v) => find_value(paths@, alias@) == Some(v@),
            None => find_value(paths@, alias@) is None,
        },
{
    let mut i: usize = 0;
    proof {
        assert(paths@.skip(0) =~= paths@);
    }
    while i < paths.len()
        invariant
            i <= paths@.len(),
            find_value(paths@, alias@) == find_value(paths@.skip(i as int), alias@),
        decreases paths@.len() - i,
    {
        proof {
            assert(paths@.skip(i as int).drop_first() =~= paths@.skip(i + 1 as int));
        }
        if str_eq(paths[i].0.as_str(), alias) {
            return Some(&paths[i].1);
        }
        i = i + 1;
    }
    None
}

impl Config {
    /// The host configured under exactly this name, if any.
    pub fn get_host(&self, name: &str) -> (r: Option<&Host>)
        ensures
            match r {
                Some(h) => find_host(self.hosts@, name@) == Some(*h),
                None => find_host(self.hosts@, name@) is None,
            },
    {
        let mut i: usize = 0;
        proof {
            assert(self.hosts@.skip(0) =~= self.hosts@);
        }
        while i < self.hosts.len()
            invariant
                i <= self.hosts@.len(),
                find_host(self.hosts@, name@) == find_host(self.hosts@.skip(i as int), name@),
            decreases self.hosts@.len() - i,
        {
            proof {
                assert(self.hosts@.skip(i as int).drop_first() =~= self.hosts@.skip(i + 1 as int));
            }
            if str_eq(self.hosts[i].0.as_str(), name) {
                return Some(&self.hosts[i].1);
            }
            i = i + 1;
        }
        None
    }

    /// The configured host names, in table order.
    pub fn host_names(&self) -> (r: Vec<&String>)
        ensures
            r@.len() == self.hosts@.len(),
            forall|i: int| 0 <= i < r@.len() ==> r@[i]@ == self.hosts@[i].0@,
    {
        let mut r: Vec<&String> = Vec::new();
        let mut i: usize = 0;
        while i < self.hosts.len()
            invariant
                i <= self.hosts@.len(),
                r@.len() == i,
                forall|j: int| 0 <= j < i ==> r@[j]@ == self.hosts@[j].0@,
            decreases self.hosts@.len() - i,
        {
            r.push(&self.hosts[i].0);
            i = i + 1;
        }
        r
    }

    /// The first configured host name similar to the given one, for a typo
    /// suggestion: one lowercase folding is a prefix of the other.
    pub fn find_similar_host(&self, name: &str) -> (r: Option<&String>)
        ensures
            match r {
                Some(h) => find_similar(self.hosts@, name@) == Some(h@),
                None => find_similar(self.hosts@, name@) is None,
            },
    {
        let name_lower = to_lowercase(name);
        let mut i: usize = 0;
        proof {
            assert(self.hosts@.skip(0) =~= self.hosts@);
        }
        while i < self.hosts.len()
            invariant
                name_lower@ == lower_of(name@),
                i <= self.hosts@.len(),
                find_similar(self.hosts@, name@) == find_similar(
                    self.hosts@.skip(i as int),
                    name@,
                ),
            decreases self.hosts@.len() - i,
        {
            proof {
                assert(self.hosts@.skip(i as int).drop_first() =~= self.hosts@.skip(i + 1 as int));
            }
            let h_lower = to_lowercase(self.hosts[i].0.as_str());
            if str_starts_with(h_lower.as_str(), name_lower.as_str()) || str_starts_with(
                name_lower.as_str(),
                h_lower.as_str(),
            ) {
                return Some(&self.hosts[i].0);
            }
            i = i + 1;
        }
        None
    }
}

/// The connection port used where neither host nor config gives one.
pub fn default_port() -> (r: u16)
    ensures
        r == 22,
{
    22
}

/// The path alias used where a destination names none.
pub fn default_path_alias() -> (r: String)
    ensures
        r@ == "scratch"@,
{
    String::from_str("scratch")
}

/// The local scratch directory where archives are staged.
pub fn default_staging_dir() -> (r: String)
    ensures
        r@ == "/tmp"@,
{
    String::from_str("/tmp")
}

/// The share destination used where a dump names none.
pub fn default_share() -> (r: String)
    ensures
        r@ == "ganymede:dumps"@,
{
    String::from_str("ganymede:dumps")
}

/// The layout template that organises dumped content.
pub fn default_layout() -> (r: String)
    ensures
        r@ == "{source}/{date}"@,
{
    String::from_str("{source}/{date}")
}

} // verus!
