use vstd::prelude::*;

use crate::pattern::names_ieq;
use crate::pattern::seq_ieq;

verus! {

/// One configured domain, identified by its fully-qualified name.
pub struct DomainEntry {
    pub name: String,
}

impl DomainEntry {
    pub fn new(name: String) -> (e: DomainEntry)
        ensures
            e.name@ == name@,
    {
        DomainEntry { name }
    }
}

impl Clone for DomainEntry {
    fn clone(&self) -> (e: Self)
        ensures
            e.name@ == self.name@,
    {
        DomainEntry { name: self.name.clone() }
    }
}

/// Why a present configuration document was rejected.
#[derive(Debug)]
pub enum ConfigError {
    /// The document could not be parsed as the expected schema.
    Malformed(String),
    /// Two entries carry the same name, compared case-insensitively.
    /// Holds the name of the later of the two entries.
    DuplicateDomain(String),
}

/// The declared entries, or none when the document declares no
/// `domains` field.
pub open spec fn entries_or_default(domains: Option<Vec<DomainEntry>>) -> Seq<DomainEntry> {
    match domains {
        Option::Some(d) => d@,
        Option::None => Seq::<DomainEntry>::empty(),
    }
}

/// The names of a sequence of entries, in order.
pub open spec fn names_of(s: Seq<DomainEntry>) -> Seq<Seq<char>> {
    s.map_values(|e: DomainEntry| e.name@)
}

/// No two of `names` are equal under case-insensitive comparison.
pub open spec fn distinct_ci(names: Seq<Seq<char>>) -> bool {
    forall|i: int, j: int|
        0 <= i < j < names.len() ==> !seq_ieq(#[trigger] names[i], #[trigger] names[j])
}

/// Whether the name at `j` repeats an earlier name, case-insensitively.
pub open spec fn dup_at(names: Seq<Seq<char>>, j: int) -> bool {
    exists|i: int| 0 <= i < j && seq_ieq(#[trigger] names[i], names[j])
}

/// A loaded configuration: a schema tag and the declared domains, in
/// document order.
pub struct Config {
    pub version: String,
    pub domains: Vec<DomainEntry>,
}

/// The schema tag used when a configuration carries no explicit version.
pub fn default_version() -> (v: String)
    ensures
        v@ == ("v1")@,
{
    String::from_str("v1")
}

/// The domain list used when a configuration declares none.
pub fn default_domains() -> (d: Vec<DomainEntry>)
    ensures
        d@ == Seq::<DomainEntry>::empty(),
{
    let d: Vec<DomainEntry> = Vec::new();
    d
}

impl Config {
    /// Well-formed: no two domains share a name, case-insensitively.
    pub open spec fn wf(&self) -> bool {
        distinct_ci(names_of(self.domains@))
    }

    /// The configuration that stands in for an absent file: schema tag
    /// `"v1"` and no domains. A missing file is not an error.
    pub fn default_config() -> (c: Config)
        ensures
            c.version@ == ("v1")@,
            c.domains@ == Seq::<DomainEntry>::empty(),
            c.wf(),
    {
        let c = Config { version: default_version(), domains: default_domains() };
        proof {
            assert(names_of(c.domains@).len() == 0);
        }
        c
    }

    /// Builds a configuration from the fields of a parsed document,
    /// supplying the defaults for absent fields and rejecting duplicate
    /// domain names (case-insensitively). On rejection the error carries
    /// the name of the earliest entry that repeats an earlier one.
    pub fn from_parts(version: Option<String>, domains: Option<Vec<DomainEntry>>) -> (r: Result<
        Config,
        ConfigError,
    >)
        ensures
            (r is Ok) <==> distinct_ci(names_of(entries_or_default(domains))),
            r matches Ok(c) ==> c.domains@ == entries_or_default(domains) && c.wf(),
            (r is Ok && version is Some) ==> r->Ok_0.version@ == version->0@,
            (r is Ok && version is None) ==> r->Ok_0.version@ == ("v1")@,
            r matches Err(e) ==> (e matches ConfigError::DuplicateDomain(nm)
                && exists|j: int|
                    0 <= j < names_of(entries_or_default(domains)).len() && #[trigger] dup_at(
                        names_of(entries_or_default(domains)),
                        j,
                    ) && (forall|k: int|
                        0 <= k < j ==> !dup_at(names_of(entries_or_default(domains)), k))
                        && nm@ == names_of(entries_or_default(domains))[j]),
    {
        let entries = match domains {
            Option::Some(d) => d,
            Option::None => default_domains(),
        };
        proof {
            assert(entries@ == entries_or_default(domains));
        }
        let ghost names = names_of(entries@);
        let n = entries.len();
        let mut j: usize = 0;
        while j < n
            invariant
                n == entries@.len(),
                entries@ == entries_or_default(domains),
                names == names_of(entries@),
                j <= n,
                forall|k: int| 0 <= k < j ==> !dup_at(names, k),
            decreases n - j,
        {
            let mut i: usize = 0;
            while i < j
                invariant
                    n == entries@.len(),
                    entries@ == entries_or_default(domains),
                    names == names_of(entries@),
                    i <= j < n,
                    forall|t: int| 0 <= t < i ==> !seq_ieq(#[trigger] names[t], names[j as int]),
                    forall|k: int| 0 <= k < j ==> !dup_at(names, k),
                decreases j - i,
            {
                if names_ieq(entries[i].name.as_str(), entries[j].name.as_str()) {
                    proof {
                        assert(names[i as int] == entries@[i as int].name@);
                        assert(names[j as int] == entries@[j as int].name@);
                        assert(0 <= i < j && seq_ieq(names[i as int], names[j as int]));
                        assert(dup_at(names, j as int));
                        assert(!distinct_ci(names));
                    }
                    return Err(ConfigError::DuplicateDomain(entries[j].name.clone()));
                }
                i += 1;
            }
            proof {
                assert(!dup_at(names, j as int));
            }
            j += 1;
        }
        proof {
            assert forall|a: int, b: int|
                0 <= a < b < names.len() implies !seq_ieq(#[trigger] names[a], #[trigger] names[b]) by {
                assert(!dup_at(names, b));
                if seq_ieq(names[a], names[b]) {
                    assert(0 <= a < b && seq_ieq(names[a], names[b]));
                    assert(dup_at(names, b));
                }
            }
            assert(distinct_ci(names));
        }
        let ver = match version {
            Some(v) => v,
            None => default_version(),
        };
        Ok(Config { version: ver, domains: entries })
    }
}

} // verus!
