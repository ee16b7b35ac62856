use vstd::prelude::*;

use crate::dispatch::Dispatcher;
use crate::dispatch::ProbeKind;
use crate::dispatch::ProbeOutcome;
use crate::dispatch::ProbeStatus;
use crate::dispatch::cross_pairs;
use crate::dispatch::request_views;
use crate::resolve::ResolvedDomainSet;

verus! {

/// The label of a probe kind in the report.
pub open spec fn kind_label(k: ProbeKind) -> Seq<char> {
    match k {
        ProbeKind::Host => ("Host")@,
        ProbeKind::Dig => ("Dig")@,
        ProbeKind::Ssl => ("Ssl")@,
        ProbeKind::Whois => ("Whois")@,
    }
}

/// The label of a probe status in the report: `Ok` with its details if
/// any, `Failed` with the reason, or `TimedOut`.
pub open spec fn status_label(s: ProbeStatus) -> Seq<char> {
    match s {
        ProbeStatus::Passed(d) => if d@.len() == 0 {
            ("Ok")@
        } else {
            ("Ok ")@ + d@
        },
        ProbeStatus::Failed(reason) => ("Failed: ")@ + reason@,
        ProbeStatus::TimedOut => ("TimedOut")@,
    }
}

/// One report line: the domain, the kind, and what the probe reported.
pub open spec fn outcome_line(o: ProbeOutcome) -> Seq<char> {
    o.domain.name@ + (" ")@ + kind_label(o.kind) + (": ")@ + status_label(o.status)
}

/// Every outcome reports success.
pub open spec fn all_ok(os: Seq<ProbeOutcome>) -> bool {
    forall|i: int| 0 <= i < os.len() ==> (#[trigger] os[i]).status is Passed
}

/// Law: a dispatcher over an empty resolved set plans no probes, so its
/// outcome sequence is empty and the report is vacuously successful.
pub proof fn lemma_empty_dispatch(d: Dispatcher, kinds: Seq<ProbeKind>)
    requires
        d.wf(),
        request_views(d.requests@) == cross_pairs(Seq::<Seq<char>>::empty(), kinds),
    ensures
        d.outcomes@ == Seq::<ProbeOutcome>::empty(),
        all_ok(d.outcomes@),
{
    assert(cross_pairs(Seq::<Seq<char>>::empty(), kinds).len() == 0);
    assert(request_views(d.requests@).len() == d.requests@.len());
    assert(d.outcomes@ =~= Seq::<ProbeOutcome>::empty());
}

/// The report label of a probe kind.
pub fn kind_text(k: ProbeKind) -> (r: &'static str)
    ensures
        r@ == kind_label(k),
{
    match k {
        ProbeKind::Host => "Host",
        ProbeKind::Dig => "Dig",
        ProbeKind::Ssl => "Ssl",
        ProbeKind::Whois => "Whois",
    }
}

/// The report label of a probe status.
pub fn status_text(s: &ProbeStatus) -> (r: String)
    ensures
        r@ == status_label(*s),
{
    match s {
        ProbeStatus::Passed(d) => {
            if d.as_str().is_empty() {
                String::from_str("Ok")
            } else {
                let mut t = String::from_str("Ok ");
                t.append(d.as_str());
                t
            }
        },
        ProbeStatus::Failed(reason) => {
            let mut t = String::from_str("Failed: ");
            t.append(reason.as_str());
            t
        },
        ProbeStatus::TimedOut => String::from_str("TimedOut"),
    }
}

/// One report line for one outcome.
pub fn render_outcome(o: &ProbeOutcome) -> (r: String)
    ensures
        r@ == outcome_line(*o),
{
    let mut t = String::from_str(o.domain.name.as_str());
    t.append(" ");
    t.append(kind_text(o.kind));
    t.append(": ");
    let status = status_text(&o.status);
    t.append(status.as_str());
    t
}

/// Renders the outcome report: one line per outcome, grouped as the
/// dispatcher ordered them, and whether every probe succeeded (vacuously
/// so when nothing was probed).
pub fn render_outcomes(outcomes: &Vec<ProbeOutcome>) -> (r: (Vec<String>, bool))
    ensures
        r.0@.len() == outcomes@.len(),
        forall|i: int| 0 <= i < outcomes@.len() ==> (#[trigger] r.0@[i])@ == outcome_line(
            outcomes@[i],
        ),
        r.1 == all_ok(outcomes@),
{
    let mut lines: Vec<String> = Vec::new();
    let mut ok = true;
    let n = outcomes.len();
    let mut i: usize = 0;
    while i < n
        invariant
            n == outcomes@.len(),
            i <= n,
            lines@.len() == i,
            forall|j: int| 0 <= j < i ==> (#[trigger] lines@[j])@ == outcome_line(outcomes@[j]),
            ok == all_ok(outcomes@.take(i as int)),
        decreases n - i,
    {
        let o = &outcomes[i];
        lines.push(render_outcome(o));
        let passed = match &o.status {
            ProbeStatus::Passed(_) => true,
            _ => false,
        };
        proof {
            assert(outcomes@.take(i as int + 1).drop_last() =~= outcomes@.take(i as int));
            assert(outcomes@.take(i as int + 1).last() == outcomes@[i as int]);
            if !passed {
                assert(!all_ok(outcomes@.take(i as int + 1)));
            }
            if ok && passed {
                assert forall|j: int| 0 <= j < i + 1 implies (#[trigger] outcomes@.take(
                    i as int + 1,
                )[j]).status is Passed by {
                    if j < i {
                        assert(outcomes@.take(i as int)[j].status is Passed);
                    }
                }
            }
        }
        ok = ok && passed;
        i += 1;
    }
    proof {
        assert(outcomes@.take(n as int) =~= outcomes@);
    }
    (lines, ok)
}

/// Renders list mode: just the resolved domain names, one line each, in
/// resolved order. No probes run in list mode, so the report is vacuously
/// successful.
pub fn render_list(resolved: &ResolvedDomainSet) -> (r: Vec<String>)
    ensures
        r@.len() == resolved.entries@.len(),
        forall|i: int| 0 <= i < resolved.entries@.len() ==> (#[trigger] r@[i])@
            == resolved.entries@[i].name@,
{
    let mut lines: Vec<String> = Vec::new();
    let n = resolved.entries.len();
    let mut i: usize = 0;
    while i < n
        invariant
            n == resolved.entries@.len(),
            i <= n,
            lines@.len() == i,
            forall|j: int| 0 <= j < i ==> (#[trigger] lines@[j])@ == resolved.entries@[j].name@,
        decreases n - i,
    {
        lines.push(String::from_str(resolved.entries[i].name.as_str()));
        i += 1;
    }
    lines
}

/// The process exit status for an overall outcome: zero exactly on
/// success.
pub fn exit_code(success: bool) -> (c: i32)
    ensures
        c == (if success {
            0int
        } else {
            1int
        }),
{
    if success {
        0
    } else {
        1
    }
}

} // verus!
