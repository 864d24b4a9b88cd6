//! The engine: from configured rules to running listeners and sessions.
//!
//! At startup the engine rejects a configuration with no rules — the one
//! startup-fatal condition — and otherwise expands each rule into one
//! listener per concrete address its listen specification resolved to.
//! A rule whose resolution failed is skipped, alone: its failure never
//! aborts the startup of its siblings.  Afterwards every listener runs
//! independently, and every accepted connection gets a session of its
//! own; nothing one of them does enters another's behaviour.

use vstd::prelude::*;
use crate::config::Config;
use crate::config::Error;
use crate::config::Proxy;
use crate::config::ProxyView;
use crate::proxy::ListenerEvent;
use crate::proxy::ListenerReport;
use crate::proxy::Tcp;
use crate::proxy::TcpView;
use crate::proxy::report_matches;
use crate::proxy::run_listener;
use crate::session::SessionReport;
use crate::session::SessionTrace;
use crate::session::report_matches_trace;
use crate::session::run_session;
use crate::pump::run_trace;

verus! {

/// Checks the loaded configuration at startup.  A configuration that
/// defines no rules at all is rejected: there is nothing useful left to
/// run, so the process must stop with [`Error::NoProxies`].  Any other
/// configuration is accepted unchanged; a rule with a broken endpoint
/// degrades later, at that rule alone.
pub fn startup(cfg: &Config) -> (r: Result<&Vec<Proxy>, Error>)
    ensures
        r is Ok <==> cfg@.rule_count() > 0,
        (r matches Ok(l) ==> Option::Some(l@.map_values(|p: Proxy| p@)) == cfg@.proxy),
        (r matches Err(e) ==> e is NoProxies),
{
    match cfg.proxy() {
        Option::Some(l) => {
            if l.len() == 0 {
                Result::Err(Error::NoProxies)
            } else {
                Result::Ok(l)
            }
        },
        Option::None => Result::Err(Error::NoProxies),
    }
}

/// The outcome of resolving one rule's listen specification: the ordered
/// concrete addresses it names, or a resolution failure.
#[derive(Debug)]
pub enum Resolution {
    /// The ordered addresses the name resolved to.
    Resolved(Vec<String>),
    /// Resolution failed; the rule is logged and skipped.
    Failed,
}

/// Mathematical image of a [`Resolution`].
pub enum ResolutionView {
    Resolved(Seq<Seq<char>>),
    Failed,
}

impl View for Resolution {
    type V = ResolutionView;

    open spec fn view(&self) -> ResolutionView {
        match self {
            Resolution::Resolved(addrs) => ResolutionView::Resolved(
                addrs@.map_values(|a: String| a@),
            ),
            Resolution::Failed => ResolutionView::Failed,
        }
    }
}

/// The listeners one rule contributes: one per resolved address, each
/// forwarding to the rule's connect target; none when resolution failed.
pub open spec fn rule_expansion(rule: ProxyView, res: ResolutionView) -> Seq<TcpView> {
    match res {
        ResolutionView::Resolved(addrs) => addrs.map_values(
            |a: Seq<char>| TcpView { listen_address: a, connect_address: rule.connect },
        ),
        ResolutionView::Failed => Seq::empty(),
    }
}

/// The engine's listener plan: each rule's expansion, in rule order.
pub open spec fn plan(rules: Seq<ProxyView>, ress: Seq<ResolutionView>) -> Seq<TcpView>
    decreases rules.len(),
{
    if rules.len() == 0 || ress.len() == 0 {
        Seq::empty()
    } else {
        plan(rules.drop_last(), ress.drop_last()) + rule_expansion(rules.last(), ress.last())
    }
}

/// The plan splits at any rule boundary: the rules before it and the
/// rules from it on contribute their listeners one after the other.
pub proof fn lemma_plan_split(rules: Seq<ProxyView>, ress: Seq<ResolutionView>, k: int)
    requires
        rules.len() == ress.len(),
        0 <= k <= rules.len(),
    ensures
        plan(rules, ress) == plan(rules.take(k), ress.take(k)) + plan(
            rules.skip(k),
            ress.skip(k),
        ),
    decreases rules.len(),
{
    if k == rules.len() {
        assert(rules.take(k) =~= rules);
        assert(ress.take(k) =~= ress);
        assert(plan(rules.skip(k), ress.skip(k)) =~= Seq::<TcpView>::empty());
        assert(plan(rules.take(k), ress.take(k)) + plan(rules.skip(k), ress.skip(k)) =~= plan(
            rules,
            ress,
        ));
    } else {
        let rp = rules.drop_last();
        let sp = ress.drop_last();
        lemma_plan_split(rp, sp, k);
        assert(rp.take(k) =~= rules.take(k));
        assert(sp.take(k) =~= ress.take(k));
        assert(rp.skip(k) =~= rules.skip(k).drop_last());
        assert(sp.skip(k) =~= ress.skip(k).drop_last());
        assert(rules.skip(k).last() == rules.last());
        assert(ress.skip(k).last() == ress.last());
        assert(plan(rules.skip(k), ress.skip(k)) == plan(rules.skip(k).drop_last(),
            ress.skip(k).drop_last()) + rule_expansion(rules.last(), ress.last()));
        assert(plan(rules.take(k), ress.take(k)) + plan(rules.skip(k), ress.skip(k)) =~= plan(
            rules,
            ress,
        ));
    }
}

/// Resolution isolation: when one rule's resolution fails, exactly that
/// rule's listeners are missing from the plan — every other rule's
/// listeners stand as they would have stood anyway.  One broken endpoint
/// never aborts the startup of the remaining rules.
pub proof fn lemma_resolution_isolation(rules: Seq<ProxyView>, ress: Seq<ResolutionView>, k: int)
    requires
        rules.len() == ress.len(),
        0 <= k < rules.len(),
    ensures
        plan(rules, ress.update(k, ResolutionView::Failed)) == plan(rules.take(k), ress.take(k))
            + plan(rules.skip(k + 1), ress.skip(k + 1)),
{
    let failed = ress.update(k, ResolutionView::Failed);
    lemma_plan_split(rules, failed, k);
    lemma_plan_split(rules.skip(k), failed.skip(k), 1);
    assert(rules.take(k) =~= rules.take(k));
    assert(failed.take(k) =~= ress.take(k));
    assert(rules.skip(k).skip(1) =~= rules.skip(k + 1));
    assert(failed.skip(k).skip(1) =~= ress.skip(k + 1));
    let head_r = rules.skip(k).take(1);
    let head_s = failed.skip(k).take(1);
    assert(head_r.len() == 1 && head_s.len() == 1);
    assert(head_s.last() == ResolutionView::Failed);
    assert(head_r.drop_last() =~= Seq::<ProxyView>::empty());
    assert(plan(head_r.drop_last(), head_s.drop_last()) =~= Seq::<TcpView>::empty());
    assert(plan(head_r, head_s) =~= Seq::<TcpView>::empty());
    assert(plan(rules, failed) =~= plan(rules.take(k), ress.take(k)) + plan(
        rules.skip(k + 1),
        ress.skip(k + 1),
    ));
}

/// Builds the engine's listeners from the rules and what each rule's
/// listen specification resolved to: one listener per resolved address,
/// a failed rule skipped, rule order kept.
pub fn plan_proxies(rules: &Vec<Proxy>, resolutions: &Vec<Resolution>) -> (r: Vec<Tcp>)
    requires
        rules@.len() == resolutions@.len(),
    ensures
        r@.map_values(|t: Tcp| t@) == plan(
            rules@.map_values(|p: Proxy| p@),
            resolutions@.map_values(|q: Resolution| q@),
        ),
{
    let ghost rv = rules@.map_values(|p: Proxy| p@);
    let ghost sv = resolutions@.map_values(|q: Resolution| q@);
    let mut out: Vec<Tcp> = Vec::new();
    let mut i: usize = 0;
    proof {
        assert(rv.take(0) =~= Seq::<ProxyView>::empty());
        assert(out@.map_values(|t: Tcp| t@) =~= plan(rv.take(0), sv.take(0)));
    }
    while i < rules.len()
        invariant
            i <= rules.len(),
            rules@.len() == resolutions@.len(),
            rv == rules@.map_values(|p: Proxy| p@),
            sv == resolutions@.map_values(|q: Resolution| q@),
            out@.map_values(|t: Tcp| t@) == plan(rv.take(i as int), sv.take(i as int)),
        decreases rules.len() - i,
    {
        let ghost before = out@.map_values(|t: Tcp| t@);
        match &resolutions[i] {
            Resolution::Failed => {
                proof {
                    assert(rv.take(i as int + 1).drop_last() =~= rv.take(i as int));
                    assert(sv.take(i as int + 1).drop_last() =~= sv.take(i as int));
                    assert(sv.take(i as int + 1).last() == sv[i as int]);
                    assert(out@.map_values(|t: Tcp| t@) =~= plan(
                        rv.take(i as int + 1),
                        sv.take(i as int + 1),
                    ));
                }
            },
            Resolution::Resolved(addrs) => {
                let ghost av = addrs@.map_values(|a: String| a@);
                let ghost expansion = rule_expansion(rv[i as int], sv[i as int]);
                let mut j: usize = 0;
                proof {
                    assert(av.take(0).map_values(
                        |a: Seq<char>| TcpView {
                            listen_address: a,
                            connect_address: rv[i as int].connect,
                        },
                    ) =~= Seq::<TcpView>::empty());
                    assert(out@.map_values(|t: Tcp| t@) =~= before + av.take(0).map_values(
                        |a: Seq<char>| TcpView {
                            listen_address: a,
                            connect_address: rv[i as int].connect,
                        },
                    ));
                }
                while j < addrs.len()
                    invariant
                        j <= addrs.len(),
                        i < rules.len(),
                        rules@.len() == resolutions@.len(),
                        rv == rules@.map_values(|p: Proxy| p@),
                        av == addrs@.map_values(|a: String| a@),
                        out@.map_values(|t: Tcp| t@) == before + av.take(j as int).map_values(
                            |a: Seq<char>| TcpView {
                                listen_address: a,
                                connect_address: rv[i as int].connect,
                            },
                        ),
                    decreases addrs.len() - j,
                {
                    let ghost prev_maps = out@.map_values(|t: Tcp| t@);
                    let t = Tcp::new(addrs[j].clone(), rules[i].connect().as_str());
                    let ghost tv = t@;
                    out.push(t);
                    proof {
                        let g = |a: Seq<char>| TcpView {
                            listen_address: a,
                            connect_address: rv[i as int].connect,
                        };
                        assert(rv[i as int] == rules@[i as int]@);
                        assert(av[j as int] == addrs@[j as int]@);
                        assert(tv == g(av[j as int]));
                        assert(out@.map_values(|t: Tcp| t@) =~= prev_maps.push(tv));
                        assert(av.take(j as int + 1).map_values(g) =~= av.take(
                            j as int,
                        ).map_values(g).push(g(av[j as int])));
                        assert(out@.map_values(|t: Tcp| t@) =~= before + av.take(j as int
                            + 1).map_values(g));
                    }
                    j = j + 1;
                }
                proof {
                    assert(av.take(av.len() as int) =~= av);
                    assert(expansion == av.map_values(
                        |a: Seq<char>| TcpView {
                            listen_address: a,
                            connect_address: rv[i as int].connect,
                        },
                    ));
                    assert(rv.take(i as int + 1).drop_last() =~= rv.take(i as int));
                    assert(sv.take(i as int + 1).drop_last() =~= sv.take(i as int));
                    assert(sv.take(i as int + 1).last() == sv[i as int]);
                    assert(out@.map_values(|t: Tcp| t@) =~= plan(
                        rv.take(i as int + 1),
                        sv.take(i as int + 1),
                    ));
                }
            },
        }
        i = i + 1;
    }
    proof {
        assert(rv.take(rv.len() as int) =~= rv);
        assert(sv.take(sv.len() as int) =~= sv);
    }
    out
}

/// Runs every listener over its own bind outcome and accept-loop events.
/// Each listener's report is a function of its own inputs alone: what
/// happens on one rule's listener — every upstream connect refused
/// included — enters no other listener's behaviour.
pub fn run_listeners(binds: &Vec<bool>, traces: &Vec<Vec<ListenerEvent>>) -> (rs: Vec<
    ListenerReport,
>)
    requires
        binds@.len() == traces@.len(),
    ensures
        rs@.len() == traces@.len(),
        forall|i: int|
            0 <= i < traces@.len() ==> report_matches(#[trigger] rs@[i], binds@[i], traces@[i]@),
{
    let mut rs: Vec<ListenerReport> = Vec::new();
    let mut i: usize = 0;
    while i < traces.len()
        invariant
            i <= traces@.len(),
            binds@.len() == traces@.len(),
            rs@.len() == i,
            forall|k: int|
                0 <= k < i ==> report_matches(#[trigger] rs@[k], binds@[k], traces@[k]@),
        decreases traces.len() - i,
    {
        let report = run_listener(binds[i], &traces[i]);
        rs.push(report);
        i = i + 1;
    }
    rs
}

/// Runs every accepted connection's session over its own trace.  Each
/// session's report is a function of its own trace alone: bytes of one
/// connection never appear in another's, however many run at once.
pub fn run_connections(traces: &Vec<SessionTrace>) -> (rs: Vec<SessionReport>)
    ensures
        rs@.len() == traces@.len(),
        forall|i: int|
            0 <= i < traces@.len() ==> report_matches_trace(#[trigger] rs@[i], traces@[i]@),
{
    let mut rs: Vec<SessionReport> = Vec::new();
    let mut i: usize = 0;
    while i < traces.len()
        invariant
            i <= traces@.len(),
            rs@.len() == i,
            forall|k: int|
                0 <= k < i ==> report_matches_trace(#[trigger] rs@[k], traces@[k]@),
        decreases traces.len() - i,
    {
        let t = &traces[i];
        let report = run_session(&t.forward_events, &t.backward_events, t.first_done);
        rs.push(report);
        i = i + 1;
    }
    rs
}

/// Listener isolation: a listener's behaviour is a function of its own
/// bind outcome and accept-loop events alone.  Let every upstream
/// connect of some other rule be refused — a rule whose own events
/// relay traffic relays it exactly the same.
pub proof fn lemma_listener_isolation(
    binds1: Seq<bool>,
    traces1: Seq<Seq<ListenerEvent>>,
    binds2: Seq<bool>,
    traces2: Seq<Seq<ListenerEvent>>,
    i: int,
)
    requires
        0 <= i < traces1.len(),
        0 <= i < traces2.len(),
        0 <= i < binds1.len(),
        0 <= i < binds2.len(),
        binds1[i] == binds2[i],
        traces1[i] == traces2[i],
    ensures
        crate::proxy::spec_listener_report(binds1[i], traces1[i])
            == crate::proxy::spec_listener_report(binds2[i], traces2[i]),
{
}

/// Connection isolation: the bytes a session relays are a function of
/// that session's own transport events alone.  Change every other
/// connection's traffic — the reports of this one are unchanged.
pub proof fn lemma_connection_isolation(
    traces1: Seq<crate::session::SessionTraceView>,
    traces2: Seq<crate::session::SessionTraceView>,
    i: int,
)
    requires
        0 <= i < traces1.len(),
        0 <= i < traces2.len(),
        traces1[i] == traces2[i],
    ensures
        run_trace(traces1[i].forward).written == run_trace(traces2[i].forward).written,
        run_trace(traces1[i].backward).written == run_trace(traces2[i].backward).written,
{
}

} // verus!
