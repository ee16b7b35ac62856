use vstd::prelude::*;

use crate::config::Config;
use crate::config::DomainEntry;
use crate::config::distinct_ci;
use crate::config::names_of;
use crate::pattern::glob_match;
use crate::pattern::lemma_star_matches_all;
use crate::pattern::pattern_matches;
use crate::pattern::seq_ieq;

verus! {

/// The views of the supplied pattern strings, in order.
pub open spec fn pattern_views(ps: Seq<String>) -> Seq<Seq<char>> {
    ps.map_values(|p: String| p@)
}

/// Whether `name` matches at least one of `patterns`.
pub open spec fn selected(patterns: Seq<Seq<char>>, name: Seq<char>) -> bool {
    exists|k: int| 0 <= k < patterns.len() && glob_match(#[trigger] patterns[k], name)
}

/// The names among `names` that match at least one of `patterns`, in order.
pub open spec fn resolved_names(patterns: Seq<Seq<char>>, names: Seq<Seq<char>>) -> Seq<
    Seq<char>,
> {
    names.filter(|nm: Seq<char>| selected(patterns, nm))
}

/// The domains selected by the invocation's patterns, in configuration order.
pub struct ResolvedDomainSet {
    pub entries: Vec<DomainEntry>,
}

/// Applies the default pattern: an invocation that names no patterns
/// means `"*"`, every configured domain.
pub fn effective_patterns(patterns: Vec<String>) -> (r: Vec<String>)
    ensures
        patterns@.len() == 0 ==> r@.len() == 1 && r@[0]@ == ("*")@,
        patterns@.len() > 0 ==> r@ == patterns@,
{
    if patterns.len() == 0 {
        let mut r: Vec<String> = Vec::new();
        r.push(String::from_str("*"));
        r
    } else {
        patterns
    }
}

/// Whether `name` matches at least one of `patterns`.
pub fn matches_any(patterns: &Vec<String>, name: &str) -> (r: bool)
    ensures
        r == selected(pattern_views(patterns@), name@),
{
    let n = patterns.len();
    let mut k: usize = 0;
    while k < n
        invariant
            n == patterns@.len(),
            k <= n,
            forall|t: int|
                0 <= t < k ==> !glob_match(#[trigger] pattern_views(patterns@)[t], name@),
        decreases n - k,
    {
        if pattern_matches(patterns[k].as_str(), name) {
            proof {
                assert(pattern_views(patterns@)[k as int] == patterns@[k as int]@);
                assert(selected(pattern_views(patterns@), name@));
            }
            return true;
        }
        k += 1;
    }
    false
}

/// Resolves the patterns against the configured domains: the result holds,
/// in configuration order, exactly the entries whose name matches at least
/// one pattern.
pub fn resolve(patterns: &Vec<String>, config: &Config) -> (r: ResolvedDomainSet)
    ensures
        names_of(r.entries@) == resolved_names(
            pattern_views(patterns@),
            names_of(config.domains@),
        ),
{
    let ghost pv = pattern_views(patterns@);
    let ghost dnames = names_of(config.domains@);
    let mut entries: Vec<DomainEntry> = Vec::new();
    let n = config.domains.len();
    let mut i: usize = 0;
    proof {
        lemma_resolved_names_empty(pv);
        assert(dnames.take(0) =~= Seq::<Seq<char>>::empty());
        assert(names_of(entries@) =~= Seq::<Seq<char>>::empty());
    }
    while i < n
        invariant
            n == config.domains@.len(),
            i <= n,
            pv == pattern_views(patterns@),
            dnames == names_of(config.domains@),
            names_of(entries@) == resolved_names(pv, dnames.take(i as int)),
        decreases n - i,
    {
        let e = config.domains[i].clone();
        let m = matches_any(patterns, e.name.as_str());
        proof {
            assert(dnames[i as int] == config.domains@[i as int].name@);
            assert(dnames.take(i as int).push(dnames[i as int]) =~= dnames.take(i as int + 1));
            lemma_resolved_names_push(pv, dnames.take(i as int), dnames[i as int]);
        }
        if m {
            let ghost before = entries@;
            entries.push(e);
            proof {
                assert(names_of(entries@) =~= names_of(before).push(e.name@));
            }
        }
        i += 1;
    }
    proof {
        assert(dnames.take(n as int) =~= dnames);
    }
    ResolvedDomainSet { entries }
}

/// Resolving against no names yields no names.
pub proof fn lemma_resolved_names_empty(patterns: Seq<Seq<char>>)
    ensures
        resolved_names(patterns, Seq::<Seq<char>>::empty()) == Seq::<Seq<char>>::empty(),
{
    Seq::<Seq<char>>::empty().lemma_filter_len(|nm: Seq<char>| selected(patterns, nm));
    assert(resolved_names(patterns, Seq::<Seq<char>>::empty()) =~= Seq::<Seq<char>>::empty());
}

/// Appending a name keeps the earlier resolution and appends the new name
/// exactly when it is selected.
pub proof fn lemma_resolved_names_push(patterns: Seq<Seq<char>>, names: Seq<Seq<char>>, nm: Seq<char>)
    ensures
        selected(patterns, nm) ==> resolved_names(patterns, names.push(nm)) == resolved_names(
            patterns,
            names,
        ).push(nm),
        !selected(patterns, nm) ==> resolved_names(patterns, names.push(nm)) == resolved_names(
            patterns,
            names,
        ),
{
    names.lemma_filter_push(nm, |nm: Seq<char>| selected(patterns, nm));
}

/// Law: a pattern list that contains `"*"` selects every configured name,
/// in the original order.
pub proof fn lemma_resolve_star(patterns: Seq<Seq<char>>, names: Seq<Seq<char>>)
    requires
        patterns.contains(("*")@),
    ensures
        resolved_names(patterns, names) == names,
    decreases names.len(),
{
    if names.len() == 0 {
        assert(names =~= Seq::<Seq<char>>::empty());
        lemma_resolved_names_empty(patterns);
    } else {
        let prefix = names.drop_last();
        let last = names.last();
        lemma_resolve_star(patterns, prefix);
        lemma_star_matches_all(last);
        let k = choose|k: int| 0 <= k < patterns.len() && patterns[k] == ("*")@;
        assert(glob_match(patterns[k], last));
        assert(selected(patterns, last));
        assert(prefix.push(last) =~= names);
        lemma_resolved_names_push(patterns, prefix, last);
        assert(resolved_names(patterns, names) =~= names);
    }
}

/// Law: every resolved name is one of the configured names, and matches at
/// least one of the patterns.
pub proof fn lemma_resolve_sound(patterns: Seq<Seq<char>>, names: Seq<Seq<char>>)
    ensures
        forall|i: int|
            0 <= i < resolved_names(patterns, names).len() ==> names.contains(
                #[trigger] resolved_names(patterns, names)[i],
            ),
        forall|i: int|
            0 <= i < resolved_names(patterns, names).len() ==> selected(
                patterns,
                #[trigger] resolved_names(patterns, names)[i],
            ),
    decreases names.len(),
{
    assert forall|i: int| 0 <= i < resolved_names(patterns, names).len() implies selected(
        patterns,
        #[trigger] resolved_names(patterns, names)[i],
    ) by {
        names.lemma_filter_pred(|nm: Seq<char>| selected(patterns, nm), i);
    }
    if names.len() == 0 {
        assert(names =~= Seq::<Seq<char>>::empty());
        lemma_resolved_names_empty(patterns);
    } else {
        let prefix = names.drop_last();
        let last = names.last();
        lemma_resolve_sound(patterns, prefix);
        assert(prefix.push(last) =~= names);
        lemma_resolved_names_push(patterns, prefix, last);
        assert forall|i: int| 0 <= i < resolved_names(patterns, names).len() implies names
            .contains(#[trigger] resolved_names(patterns, names)[i]) by {
            let rp = resolved_names(patterns, prefix);
            if i < rp.len() {
                assert(resolved_names(patterns, names)[i] == rp[i]);
                let j = choose|j: int| 0 <= j < prefix.len() && prefix[j] == rp[i];
                assert(names[j] == rp[i]);
            } else {
                assert(resolved_names(patterns, names)[i] == last);
                assert(names[names.len() - 1] == last);
            }
        }
    }
}

/// Law: resolution never repeats a domain: when the configured names are
/// pairwise distinct (case-insensitively), so are the resolved names.
pub proof fn lemma_resolve_distinct(patterns: Seq<Seq<char>>, names: Seq<Seq<char>>)
    requires
        distinct_ci(names),
    ensures
        distinct_ci(resolved_names(patterns, names)),
    decreases names.len(),
{
    if names.len() == 0 {
        assert(names =~= Seq::<Seq<char>>::empty());
        lemma_resolved_names_empty(patterns);
    } else {
        let prefix = names.drop_last();
        let last = names.last();
        assert forall|i: int, j: int| 0 <= i < j < prefix.len() implies !seq_ieq(
            #[trigger] prefix[i],
            #[trigger] prefix[j],
        ) by {
            assert(prefix[i] == names[i]);
            assert(prefix[j] == names[j]);
        }
        lemma_resolve_distinct(patterns, prefix);
        lemma_resolve_sound(patterns, prefix);
        assert(prefix.push(last) =~= names);
        lemma_resolved_names_push(patterns, prefix, last);
        let rp = resolved_names(patterns, prefix);
        if selected(patterns, last) {
            assert forall|i: int| 0 <= i < rp.len() implies !seq_ieq(rp[i], last) by {
                let j = choose|j: int| 0 <= j < prefix.len() && prefix[j] == rp[i];
                assert(names[j] == rp[i]);
                assert(names[names.len() - 1] == last);
                assert(!seq_ieq(names[j], names[names.len() - 1]));
            }
            let rn = resolved_names(patterns, names);
            assert(rn == rp.push(last));
            assert forall|i: int, j: int| 0 <= i < j < rn.len() implies !seq_ieq(
                #[trigger] rn[i],
                #[trigger] rn[j],
            ) by {
                if j < rp.len() {
                    assert(rn[i] == rp[i]);
                    assert(rn[j] == rp[j]);
                } else {
                    assert(rn[i] == rp[i]);
                    assert(rn[j] == last);
                }
            }
        }
    }
}

} // verus!
