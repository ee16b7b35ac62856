use vstd::prelude::*;

use crate::config::DomainEntry;
use crate::config::names_of;
use crate::resolve::ResolvedDomainSet;

verus! {

/// A category of network inquiry against a domain, in canonical order.
#[derive(Clone, Copy, Debug, PartialEq, Eq, Structural)]
pub enum ProbeKind {
    Host,
    Dig,
    Ssl,
    Whois,
}

/// What a probe collaborator reported for one request.
pub enum ProbeStatus {
    /// The probe succeeded; carries its details.
    Passed(String),
    /// The probe failed; carries the reason.
    Failed(String),
    /// The probe did not answer within its deadline.
    TimedOut,
}

/// One probe to run: a resolved domain and a requested kind.
pub struct ProbeRequest {
    pub domain: DomainEntry,
    pub kind: ProbeKind,
}

impl Clone for ProbeRequest {
    fn clone(&self) -> (r: Self)
        ensures
            r.domain.name@ == self.domain.name@,
            r.kind == self.kind,
    {
        ProbeRequest { domain: self.domain.clone(), kind: self.kind }
    }
}

/// The result of one probe, as handed to the reporter.
pub struct ProbeOutcome {
    pub domain: DomainEntry,
    pub kind: ProbeKind,
    pub status: ProbeStatus,
}

/// Bounds on how an invocation's probes are run: the per-probe deadline
/// and how many probes may be in flight at once.
pub struct DispatchPolicy {
    pub timeout_secs: u64,
    pub concurrency: u64,
}

impl Default for DispatchPolicy {
    /// Ten seconds per probe, eight probes in flight.
    fn default() -> (p: Self)
        ensures
            p.timeout_secs == 10,
            p.concurrency == 8,
    {
        DispatchPolicy { timeout_secs: 10, concurrency: 8 }
    }
}

/// The kinds selected by the invocation's flags, in canonical order.
pub open spec fn kinds_spec(host: bool, dig: bool, ssl: bool, whois: bool) -> Seq<ProbeKind> {
    (if host {
        seq![ProbeKind::Host]
    } else {
        Seq::<ProbeKind>::empty()
    }) + (if dig {
        seq![ProbeKind::Dig]
    } else {
        Seq::<ProbeKind>::empty()
    }) + (if ssl {
        seq![ProbeKind::Ssl]
    } else {
        Seq::<ProbeKind>::empty()
    }) + (if whois {
        seq![ProbeKind::Whois]
    } else {
        Seq::<ProbeKind>::empty()
    })
}

/// Turns the invocation's flags into the list of kinds to probe, in the
/// canonical order Host, Dig, Ssl, Whois.
pub fn requested_kinds(host: bool, dig: bool, ssl: bool, whois: bool) -> (r: Vec<ProbeKind>)
    ensures
        r@ == kinds_spec(host, dig, ssl, whois),
{
    let mut r: Vec<ProbeKind> = Vec::new();
    if host {
        r.push(ProbeKind::Host);
    }
    if dig {
        r.push(ProbeKind::Dig);
    }
    if ssl {
        r.push(ProbeKind::Ssl);
    }
    if whois {
        r.push(ProbeKind::Whois);
    }
    proof {
        assert(r@ =~= kinds_spec(host, dig, ssl, whois));
    }
    r
}

/// The (domain name, kind) views of a request list, in order.
pub open spec fn request_views(rs: Seq<ProbeRequest>) -> Seq<(Seq<char>, ProbeKind)> {
    rs.map_values(|r: ProbeRequest| (r.domain.name@, r.kind))
}

/// One domain name paired with each kind, in kind order.
pub open spec fn kind_pairs(nm: Seq<char>, kinds: Seq<ProbeKind>) -> Seq<(Seq<char>, ProbeKind)> {
    kinds.map_values(|k: ProbeKind| (nm, k))
}

/// The cross product of the resolved names and the requested kinds:
/// grouped by domain in resolved order, then by kind in canonical order.
pub open spec fn cross_pairs(names: Seq<Seq<char>>, kinds: Seq<ProbeKind>) -> Seq<
    (Seq<char>, ProbeKind),
>
    decreases names.len(),
{
    if names.len() == 0 {
        Seq::<(Seq<char>, ProbeKind)>::empty()
    } else {
        kind_pairs(names[0], kinds) + cross_pairs(names.skip(1), kinds)
    }
}

/// The cross product has one request per resolved domain and kind.
pub proof fn lemma_cross_pairs_len(names: Seq<Seq<char>>, kinds: Seq<ProbeKind>)
    ensures
        cross_pairs(names, kinds).len() == names.len() * kinds.len(),
    decreases names.len(),
{
    if names.len() == 0 {
    } else {
        lemma_cross_pairs_len(names.skip(1), kinds);
        assert(names.len() * kinds.len() == (names.len() - 1) * kinds.len() + kinds.len())
            by (nonlinear_arith);
    }
}

/// Builds one request per resolved domain and requested kind: the cross
/// product, grouped by domain in resolved order, then by kind.
pub fn plan_requests(resolved: &ResolvedDomainSet, kinds: &Vec<ProbeKind>) -> (r: Vec<
    ProbeRequest,
>)
    ensures
        request_views(r@) == cross_pairs(names_of(resolved.entries@), kinds@),
        r@.len() == resolved.entries@.len() * kinds@.len(),
{
    let ghost dnames = names_of(resolved.entries@);
    let mut r: Vec<ProbeRequest> = Vec::new();
    let n = resolved.entries.len();
    let m = kinds.len();
    let mut i: usize = 0;
    proof {
        assert(dnames.skip(0) =~= dnames);
        assert(request_views(r@) =~= Seq::<(Seq<char>, ProbeKind)>::empty());
    }
    while i < n
        invariant
            n == resolved.entries@.len(),
            m == kinds@.len(),
            i <= n,
            dnames == names_of(resolved.entries@),
            request_views(r@) + cross_pairs(dnames.skip(i as int), kinds@) == cross_pairs(
                dnames,
                kinds@,
            ),
        decreases n - i,
    {
        let ghost before = request_views(r@);
        let ghost nm = dnames[i as int];
        proof {
            assert(dnames.skip(i as int)[0] == dnames[i as int]);
            assert(dnames.skip(i as int).skip(1) =~= dnames.skip(i as int + 1));
        }
        let mut j: usize = 0;
        while j < m
            invariant
                n == resolved.entries@.len(),
                m == kinds@.len(),
                i < n,
                j <= m,
                dnames == names_of(resolved.entries@),
                nm == dnames[i as int],
                request_views(r@) == before + kind_pairs(nm, kinds@.take(j as int)),
            decreases m - j,
        {
            let entry = resolved.entries[i].clone();
            let req = ProbeRequest { domain: entry, kind: kinds[j] };
            proof {
                assert(req.domain.name@ == nm);
            }
            let ghost prev = request_views(r@);
            r.push(req);
            proof {
                assert(request_views(r@) =~= prev.push((nm, kinds@[j as int])));
                assert(kind_pairs(nm, kinds@.take(j as int + 1)) =~= kind_pairs(
                    nm,
                    kinds@.take(j as int),
                ).push((nm, kinds@[j as int])));
                assert(request_views(r@) =~= before + kind_pairs(nm, kinds@.take(j as int + 1)));
            }
            j += 1;
        }
        proof {
            assert(kinds@.take(m as int) =~= kinds@);
            assert(request_views(r@) =~= before + kind_pairs(nm, kinds@));
            assert(request_views(r@) + cross_pairs(dnames.skip(i as int + 1), kinds@)
                =~= cross_pairs(dnames, kinds@));
        }
        i += 1;
    }
    proof {
        assert(dnames.skip(n as int) =~= Seq::<Seq<char>>::empty());
        assert(request_views(r@) =~= cross_pairs(dnames, kinds@));
        lemma_cross_pairs_len(dnames, kinds@);
        assert(request_views(r@).len() == r@.len());
    }
    r
}

/// Runs an invocation's probes one request at a time. The probes
/// themselves are outside collaborators: the caller fetches the next
/// pending request, runs it (bounding it by the policy's deadline), and
/// records what came back. A failure or a missed deadline is recorded
/// like any other outcome and never stops the remaining probes.
pub struct Dispatcher {
    pub requests: Vec<ProbeRequest>,
    pub outcomes: Vec<ProbeOutcome>,
}

impl Dispatcher {
    /// Outcomes recorded so far pair with the requests, in order.
    pub open spec fn wf(&self) -> bool {
        &&& self.outcomes@.len() <= self.requests@.len()
        &&& forall|i: int|
            0 <= i < self.outcomes@.len() ==> (#[trigger] self.outcomes@[i]).domain.name@
                == self.requests@[i].domain.name@ && self.outcomes@[i].kind
                == self.requests@[i].kind
    }

    /// A dispatcher over the full cross product, with nothing run yet.
    pub fn new(resolved: &ResolvedDomainSet, kinds: &Vec<ProbeKind>) -> (d: Dispatcher)
        ensures
            d.outcomes@ == Seq::<ProbeOutcome>::empty(),
            request_views(d.requests@) == cross_pairs(names_of(resolved.entries@), kinds@),
            d.requests@.len() == resolved.entries@.len() * kinds@.len(),
            d.wf(),
    {
        Dispatcher { requests: plan_requests(resolved, kinds), outcomes: Vec::new() }
    }

    /// Whether every request has an outcome.
    pub fn is_done(&self) -> (r: bool)
        ensures
            r == (self.outcomes@.len() == self.requests@.len()),
    {
        self.outcomes.len() == self.requests.len()
    }

    /// The next request still to run, if any.
    pub fn pending(&self) -> (r: Option<ProbeRequest>)
        ensures
            self.outcomes@.len() < self.requests@.len() ==> (r matches Some(q)
                && q.domain.name@ == self.requests@[self.outcomes@.len() as int].domain.name@
                && q.kind == self.requests@[self.outcomes@.len() as int].kind),
            self.outcomes@.len() >= self.requests@.len() ==> r is None,
    {
        if self.outcomes.len() < self.requests.len() {
            Some(self.requests[self.outcomes.len()].clone())
        } else {
            None
        }
    }

    /// Records what the current pending request's probe reported and moves
    /// on. Earlier outcomes are kept unchanged, whatever `status` is.
    pub fn record(&mut self, status: ProbeStatus)
        requires
            old(self).outcomes@.len() < old(self).requests@.len(),
        ensures
            final(self).requests@ == old(self).requests@,
            final(self).outcomes@ == old(self).outcomes@.push(final(self).outcomes@.last()),
            final(self).outcomes@.last().domain.name@ == old(self).requests@[old(
                self,
            ).outcomes@.len() as int].domain.name@,
            final(self).outcomes@.last().kind == old(self).requests@[old(
                self,
            ).outcomes@.len() as int].kind,
            final(self).outcomes@.last().status == status,
            old(self).wf() ==> final(self).wf(),
    {
        let idx = self.outcomes.len();
        let domain = self.requests[idx].domain.clone();
        let kind = self.requests[idx].kind;
        self.outcomes.push(ProbeOutcome { domain, kind, status });
    }

    /// Hands the collected outcomes to the reporter.
    pub fn into_outcomes(self) -> (r: Vec<ProbeOutcome>)
        ensures
            r@ == self.outcomes@,
    {
        self.outcomes
    }
}

} // verus!
