use vstd::prelude::*;

use crate::doc::{DocNode, field_of, get_field};
use crate::errors::{ConfigError, PairPart, PairStructure, RunError};
use crate::request::{
    CallDescriptor, DescView, KvPair, PairView, RequestType, build_descriptor, desc_spec,
    pairs_view, parse_request_type, req_type_of,
};

verus! {

/// Where the engine stands in a run: the next (group, path) pair to resolve.
#[derive(Clone, Copy, Debug, PartialEq, Eq, Structural)]
pub struct EngineState {
    pub group: usize,
    pub path: usize,
}

impl EngineState {
    /// The state a run begins in.
    pub fn start() -> (s: EngineState)
        ensures
            s.group == 0 && s.path == 0,
    {
        EngineState { group: 0, path: 0 }
    }
}

/// What one engine step decides: dispatch one call and continue from the new
/// state, stop on a fatal condition, or report the run complete.
#[derive(Debug)]
pub enum StepResult {
    Dispatch(CallDescriptor, EngineState),
    Fatal(RunError),
    Done,
}

/// The mathematical image of one engine decision.
#[verifier::ext_equal]
pub enum StepView {
    Dispatch(DescView, int, int),
    Fatal(RunError),
    Done,
}

/// What the transport reported for one dispatched call.
#[derive(Clone, Copy, Debug, PartialEq, Eq, Structural)]
pub enum HttpOutcome {
    /// The exchange completed; the response carried this status code.
    Status(u16),
    /// The client classified the exchange as a status-carrying failure.
    StatusError(u16),
    /// Any other transport failure: connectivity, TLS, timeout.
    Fault,
}

/// The request type a group names, resolved at point of use.
pub open spec fn group_type(group: DocNode) -> Option<RequestType> {
    match field_of(group, "type"@) {
        Some(node) => match node {
            DocNode::Text(s) => req_type_of(s@),
            _ => None,
        },
        _ => None,
    }
}

/// The non-empty domain string a group names, resolved at point of use.
pub open spec fn group_domain(group: DocNode) -> Option<Seq<char>> {
    match field_of(group, "domain"@) {
        Some(node) => match node {
            DocNode::Text(s) => if s@.len() > 0 {
                Some(s@)
            } else {
                None
            },
            _ => None,
        },
        _ => None,
    }
}

/// The sequence of path nodes under a group's `api` key.
pub open spec fn group_api(group: DocNode) -> Option<Seq<DocNode>> {
    match field_of(group, "api"@) {
        Some(node) => match node {
            DocNode::Sequence(paths) => Some(paths@),
            _ => None,
        },
        _ => None,
    }
}

/// One `headers` or `query_strings` entry resolved to a pair, or the part
/// that is missing or not a string.
pub open spec fn entry_pair(entry: DocNode) -> Result<PairView, PairPart> {
    match field_of(entry, "key"@) {
        Some(knode) => match knode {
            DocNode::Text(k) => match field_of(entry, "value"@) {
                Some(vnode) => match vnode {
                    DocNode::Text(v) => Ok(PairView { key: k@, value: v@ }),
                    _ => Err(PairPart::ValuePart),
                },
                _ => Err(PairPart::ValuePart),
            },
            _ => Err(PairPart::KeyPart),
        },
        _ => Err(PairPart::KeyPart),
    }
}

/// All entries resolved in order, or the first malformed part.
pub open spec fn entries_pairs(entries: Seq<DocNode>) -> Result<Seq<PairView>, PairPart>
    decreases entries.len(),
{
    if entries.len() == 0 {
        Ok(Seq::empty())
    } else {
        match entry_pair(entries[0]) {
            Ok(pair) => match entries_pairs(entries.drop_first()) {
                Ok(rest) => Ok(seq![pair] + rest),
                Err(part) => Err(part),
            },
            Err(part) => Err(part),
        }
    }
}

/// A group's `headers` or `query_strings` under `key`: absent or null means
/// no pairs; a sequence is resolved entry by entry; anything else is
/// malformed (`Err(None)`).
pub open spec fn group_pairs(group: DocNode, key: Seq<char>) -> Result<
    Seq<PairView>,
    Option<PairPart>,
> {
    match field_of(group, key) {
        None => Ok(Seq::empty()),
        Some(node) => match node {
            DocNode::Null => Ok(Seq::empty()),
            DocNode::Sequence(entries) => match entries_pairs(entries@) {
                Ok(pairs) => Ok(pairs),
                Err(part) => Err(Some(part)),
            },
            _ => Err(None),
        },
    }
}

/// The error reported for a malformed pair structure, naming the structure
/// and, for an entry, the missing sub-field.
pub open spec fn pairs_error(which: PairStructure, part: Option<PairPart>) -> RunError {
    match part {
        Some(p) => RunError::Configuration(ConfigError::PairFieldMissing(which, p)),
        None => RunError::Configuration(ConfigError::PairsMalformed(which)),
    }
}

/// One engine decision over the group sequence, standing at group `g`, path
/// `p`. Each group's fields are checked at point of use, in the order the run
/// reads them: type, domain, api shape, the path entry, headers, query
/// strings. A group whose paths are exhausted hands over to the next group.
pub open spec fn spec_step(groups: Seq<DocNode>, g: int, p: int) -> StepView
    decreases groups.len() - g,
{
    if g >= groups.len() {
        StepView::Done
    } else {
        let group = groups[g];
        match group_type(group) {
            None => StepView::Fatal(RunError::UnsupportedRequestType),
            Some(method) => match group_domain(group) {
                None => StepView::Fatal(RunError::Configuration(ConfigError::DomainMissing)),
                Some(domain) => match group_api(group) {
                    None => StepView::Fatal(RunError::Configuration(ConfigError::ApiMissing)),
                    Some(paths) => if p >= paths.len() {
                        spec_step(groups, g + 1, 0)
                    } else {
                        match paths[p] {
                            DocNode::Text(path) => match group_pairs(group, "headers"@) {
                                Err(part) => StepView::Fatal(
                                    pairs_error(PairStructure::Headers, part),
                                ),
                                Ok(headers) => match group_pairs(group, "query_strings"@) {
                                    Err(part) => StepView::Fatal(
                                        pairs_error(PairStructure::QueryStrings, part),
                                    ),
                                    Ok(query) => StepView::Dispatch(
                                        desc_spec(method, domain, path@, headers, query),
                                        g,
                                        p + 1,
                                    ),
                                },
                            },
                            _ => StepView::Fatal(
                                RunError::Configuration(ConfigError::ApiPathMalformed),
                            ),
                        }
                    },
                },
            },
        }
    }
}

/// One engine decision over the whole plan document: the `https` key must be
/// present, non-null and a sequence before any group is read.
pub open spec fn plan_step(root: DocNode, g: int, p: int) -> StepView {
    match field_of(root, "https"@) {
        None => StepView::Fatal(RunError::Configuration(ConfigError::NoRequestsDefined)),
        Some(node) => match node {
            DocNode::Null => StepView::Fatal(
                RunError::Configuration(ConfigError::NoRequestsDefined),
            ),
            DocNode::Sequence(groups) => spec_step(groups@, g, p),
            _ => StepView::Fatal(RunError::Configuration(ConfigError::PlanMalformed)),
        },
    }
}

/// `r` is the executable image of the decision `v`.
pub open spec fn step_matches(r: StepResult, v: StepView) -> bool {
    match (r, v) {
        (StepResult::Dispatch(d, s), StepView::Dispatch(dv, g, p)) => d@ == dv && s.group == g
            && s.path == p,
        (StepResult::Fatal(e), StepView::Fatal(ev)) => e == ev,
        (StepResult::Done, StepView::Done) => true,
        _ => false,
    }
}

/// Resolves a group's request type as `group_type` describes.
fn read_group_type(group: &DocNode) -> (r: Option<RequestType>)
    ensures
        r == group_type(*group),
{
    match get_field(group, "type") {
        Some(node) => match node {
            DocNode::Text(s) => parse_request_type(s.as_str()),
            _ => None,
        },
        _ => None,
    }
}

/// Resolves a group's domain as `group_domain` describes.
fn read_group_domain<'a>(group: &'a DocNode) -> (r: Option<&'a String>)
    ensures
        match group_domain(*group) {
            Some(d) => r matches Some(s) && s@ == d,
            None => r is None,
        },
{
    match get_field(group, "domain") {
        Some(node) => match node {
            DocNode::Text(s) => if s.as_str().is_empty() {
                None
            } else {
                Some(s)
            },
            _ => None,
        },
        _ => None,
    }
}

/// Resolves a group's `api` sequence as `group_api` describes.
fn read_group_api<'a>(group: &'a DocNode) -> (r: Option<&'a Vec<DocNode>>)
    ensures
        match group_api(*group) {
            Some(paths) => r matches Some(v) && v@ == paths,
            None => r is None,
        },
{
    match get_field(group, "api") {
        Some(node) => match node {
            DocNode::Sequence(paths) => Some(paths),
            _ => None,
        },
        _ => None,
    }
}

/// Resolves one pair structure of a group as `group_pairs` describes,
/// reporting errors under the structure's name.
#[verifier::loop_isolation(false)]
fn read_group_pairs(group: &DocNode, key: &str, which: PairStructure) -> (r: Result<
    Vec<KvPair>,
    RunError,
>)
    ensures
        match group_pairs(*group, key@) {
            Ok(pairs) => r matches Ok(v) && pairs_view(v@) == pairs,
            Err(part) => r matches Err(e) && e == pairs_error(which, part),
        },
{
    match get_field(group, key) {
        None => {
            let empty: Vec<KvPair> = Vec::new();
            assert(pairs_view(empty@) =~= Seq::<PairView>::empty());
            Ok(empty)
        },
        Some(node) => match node {
            DocNode::Null => {
                let empty: Vec<KvPair> = Vec::new();
                assert(pairs_view(empty@) =~= Seq::<PairView>::empty());
                Ok(empty)
            },
            DocNode::Sequence(entries) => {
                let n = entries.len();
                let mut out: Vec<KvPair> = Vec::new();
                let mut i: usize = 0;
                assert(entries@.skip(0) =~= entries@);
                while i < n
                    invariant
                        i <= n,
                        entries_pairs(entries@) matches Ok(all) ==> entries_pairs(
                            entries@.skip(i as int),
                        ) matches Ok(rest) && all =~= pairs_view(out@) + rest,
                        entries_pairs(entries@) matches Err(part) ==> entries_pairs(
                            entries@.skip(i as int),
                        ) matches Err(p2) && p2 == part,
                    decreases n - i,
                {
                    assert(entries@.skip(i as int)[0] == entries@[i as int]);
                    assert(entries@.skip(i as int).drop_first() =~= entries@.skip(i as int + 1));
                    let entry = &entries[i];
                    let knode = match get_field(entry, "key") {
                        Some(k) => k,
                        None => {
                            return Err(RunError::Configuration(ConfigError::PairFieldMissing(
                                which,
                                PairPart::KeyPart,
                            )));
                        },
                    };
                    let key_text = match knode {
                        DocNode::Text(k) => k,
                        _ => {
                            return Err(RunError::Configuration(ConfigError::PairFieldMissing(
                                which,
                                PairPart::KeyPart,
                            )));
                        },
                    };
                    let vnode = match get_field(entry, "value") {
                        Some(v) => v,
                        None => {
                            return Err(RunError::Configuration(ConfigError::PairFieldMissing(
                                which,
                                PairPart::ValuePart,
                            )));
                        },
                    };
                    let value_text = match vnode {
                        DocNode::Text(v) => v,
                        _ => {
                            return Err(RunError::Configuration(ConfigError::PairFieldMissing(
                                which,
                                PairPart::ValuePart,
                            )));
                        },
                    };
                    out.push(KvPair { key: key_text.clone(), value: value_text.clone() });
                    i = i + 1;
                }
                assert(entries@.skip(n as int) =~= Seq::<DocNode>::empty());
                proof {
                    if let Ok(all) = entries_pairs(entries@) {
                        assert(entries_pairs(entries@.skip(n as int)) == Ok::<
                            Seq<PairView>,
                            PairPart,
                        >(Seq::empty()));
                        assert(pairs_view(out@) + Seq::<PairView>::empty() =~= pairs_view(out@));
                    }
                }
                Ok(out)
            },
            _ => Err(RunError::Configuration(ConfigError::PairsMalformed(which))),
        },
    }
}

/// One step of the execution engine: standing at `state`, validate the fields
/// the run reads next, and either hand out the call descriptor of the next
/// (group, path) pair together with the state that follows it, stop on the
/// fatal condition the plan holds, or report the run complete.
#[verifier::loop_isolation(false)]
pub fn engine_step(root: &DocNode, state: &EngineState) -> (r: StepResult)
    ensures
        step_matches(r, plan_step(*root, state.group as int, state.path as int)),
{
    let https = match get_field(root, "https") {
        None => {
            return StepResult::Fatal(RunError::Configuration(ConfigError::NoRequestsDefined));
        },
        Some(node) => node,
    };
    let groups: &Vec<DocNode> = match https {
        DocNode::Null => {
            return StepResult::Fatal(RunError::Configuration(ConfigError::NoRequestsDefined));
        },
        DocNode::Sequence(groups) => groups,
        _ => {
            return StepResult::Fatal(RunError::Configuration(ConfigError::PlanMalformed));
        },
    };
    let mut g: usize = state.group;
    let mut p: usize = state.path;
    while g < groups.len()
        invariant
            spec_step(groups@, g as int, p as int) == spec_step(
                groups@,
                state.group as int,
                state.path as int,
            ),
        decreases groups.len() - g,
    {
        let group = &groups[g];
        let method = match read_group_type(group) {
            Some(m) => m,
            None => {
                return StepResult::Fatal(RunError::UnsupportedRequestType);
            },
        };
        let domain = match read_group_domain(group) {
            Some(d) => d,
            None => {
                return StepResult::Fatal(RunError::Configuration(ConfigError::DomainMissing));
            },
        };
        let paths = match read_group_api(group) {
            Some(a) => a,
            None => {
                return StepResult::Fatal(RunError::Configuration(ConfigError::ApiMissing));
            },
        };
        if p < paths.len() {
            let path = match &paths[p] {
                DocNode::Text(path) => path,
                _ => {
                    return StepResult::Fatal(
                        RunError::Configuration(ConfigError::ApiPathMalformed),
                    );
                },
            };
            let headers = match read_group_pairs(group, "headers", PairStructure::Headers) {
                Ok(h) => h,
                Err(e) => {
                    return StepResult::Fatal(e);
                },
            };
            let query = match read_group_pairs(
                group,
                "query_strings",
                PairStructure::QueryStrings,
            ) {
                Ok(q) => q,
                Err(e) => {
                    return StepResult::Fatal(e);
                },
            };
            let desc = build_descriptor(method, domain.as_str(), path.as_str(), &headers, &query);
            return StepResult::Dispatch(desc, EngineState { group: g, path: p + 1 });
        } else {
            g = g + 1;
            p = 0;
        }
    }
    StepResult::Done
}

/// The path nodes of a group, empty when `api` is absent or malformed.
pub open spec fn api_paths(group: DocNode) -> Seq<DocNode> {
    match group_api(group) {
        Some(paths) => paths,
        None => Seq::empty(),
    }
}

/// Every field of the group resolves: the run dispatches each of its paths
/// and never stops on it.
pub open spec fn group_wf(group: DocNode) -> bool {
    &&& group_type(group) is Some
    &&& group_domain(group) is Some
    &&& group_api(group) is Some
    &&& forall|i: int|
        0 <= i < api_paths(group).len() ==> ((#[trigger] api_paths(group)[i]) matches DocNode::Text(
            _,
        ))
    &&& group_pairs(group, "headers"@) is Ok
    &&& group_pairs(group, "query_strings"@) is Ok
}

pub open spec fn group_rt(group: DocNode) -> RequestType {
    match group_type(group) {
        Some(t) => t,
        None => RequestType::Get,
    }
}

pub open spec fn group_dom(group: DocNode) -> Seq<char> {
    match group_domain(group) {
        Some(d) => d,
        None => Seq::empty(),
    }
}

pub open spec fn path_text(node: DocNode) -> Seq<char> {
    match node {
        DocNode::Text(s) => s@,
        _ => Seq::empty(),
    }
}

pub open spec fn group_headers(group: DocNode) -> Seq<PairView> {
    match group_pairs(group, "headers"@) {
        Ok(h) => h,
        Err(_) => Seq::empty(),
    }
}

pub open spec fn group_query(group: DocNode) -> Seq<PairView> {
    match group_pairs(group, "query_strings"@) {
        Ok(q) => q,
        Err(_) => Seq::empty(),
    }
}

/// The descriptor the engine dispatches for path `p` of a well-formed group.
pub open spec fn group_call(group: DocNode, p: int) -> DescView {
    desc_spec(
        group_rt(group),
        group_dom(group),
        path_text(api_paths(group)[p]),
        group_headers(group),
        group_query(group),
    )
}

/// Every call of one group, in its listed path order.
pub open spec fn group_calls(group: DocNode) -> Seq<DescView> {
    Seq::new(api_paths(group).len(), |i: int| group_call(group, i))
}

/// Every call of the plan, in group-then-path listed order.
pub open spec fn plan_calls(groups: Seq<DocNode>) -> Seq<DescView>
    decreases groups.len(),
{
    if groups.len() == 0 {
        Seq::empty()
    } else {
        group_calls(groups[0]) + plan_calls(groups.drop_first())
    }
}

/// How many calls a run has dispatched when it stands at group `g`, path `p`.
pub open spec fn calls_before(groups: Seq<DocNode>, g: int, p: int) -> int {
    plan_calls(groups.take(g)).len() + p
}

/// The sum over the groups of the number of their listed paths.
pub open spec fn total_paths(groups: Seq<DocNode>) -> int
    decreases groups.len(),
{
    if groups.len() == 0 {
        0
    } else {
        api_paths(groups[0]).len() + total_paths(groups.drop_first())
    }
}

/// The plan schedules exactly the sum of the groups' path counts.
pub proof fn lemma_plan_calls_len(groups: Seq<DocNode>)
    ensures
        plan_calls(groups).len() == total_paths(groups),
    decreases groups.len(),
{
    if groups.len() > 0 {
        lemma_plan_calls_len(groups.drop_first());
    }
}

proof fn lemma_plan_calls_take_succ(groups: Seq<DocNode>, g: int)
    requires
        0 <= g < groups.len(),
    ensures
        plan_calls(groups.take(g + 1)) == plan_calls(groups.take(g)) + group_calls(groups[g]),
    decreases g,
{
    let pre = groups.take(g + 1);
    assert(pre[0] == groups[0]);
    if g == 0 {
        assert(pre.drop_first() =~= Seq::<DocNode>::empty());
        assert(groups.take(0) =~= Seq::<DocNode>::empty());
        assert(plan_calls(pre) == group_calls(groups[0]) + plan_calls(Seq::empty()));
        assert(group_calls(groups[0]) + Seq::<DescView>::empty() =~= group_calls(groups[0]));
        assert(Seq::<DescView>::empty() + group_calls(groups[0]) =~= group_calls(groups[0]));
    } else {
        let rest = groups.drop_first();
        assert(pre.drop_first() =~= rest.take(g));
        assert(plan_calls(pre) == group_calls(groups[0]) + plan_calls(rest.take(g)));
        lemma_plan_calls_take_succ(rest, g - 1);
        assert(rest.take(g - 1 + 1) == rest.take(g));
        assert(rest[g - 1] == groups[g]);
        assert(groups.take(g)[0] == groups[0]);
        assert(groups.take(g).drop_first() =~= rest.take(g - 1));
        assert(plan_calls(groups.take(g)) == group_calls(groups[0]) + plan_calls(rest.take(g - 1)));
        assert(group_calls(groups[0]) + (plan_calls(rest.take(g - 1)) + group_calls(groups[g]))
            =~= (group_calls(groups[0]) + plan_calls(rest.take(g - 1))) + group_calls(groups[g]));
    }
}

proof fn lemma_plan_calls_split(groups: Seq<DocNode>, g: int)
    requires
        0 <= g <= groups.len(),
    ensures
        plan_calls(groups) == plan_calls(groups.take(g)) + plan_calls(groups.skip(g)),
    decreases g,
{
    if g == 0 {
        assert(groups.take(0) =~= Seq::<DocNode>::empty());
        assert(groups.skip(0) =~= groups);
        assert(Seq::<DescView>::empty() + plan_calls(groups) =~= plan_calls(groups));
    } else {
        lemma_plan_calls_split(groups, g - 1);
        lemma_plan_calls_take_succ(groups, g - 1);
        let tail = groups.skip(g - 1);
        assert(tail[0] == groups[g - 1]);
        assert(tail.drop_first() =~= groups.skip(g));
        assert(plan_calls(tail) == group_calls(groups[g - 1]) + plan_calls(groups.skip(g)));
        assert(plan_calls(groups.take(g - 1)) + (group_calls(groups[g - 1]) + plan_calls(
            groups.skip(g),
        )) =~= (plan_calls(groups.take(g - 1)) + group_calls(groups[g - 1])) + plan_calls(
            groups.skip(g),
        ));
    }
}

proof fn lemma_plan_calls_index(groups: Seq<DocNode>, g: int, p: int)
    requires
        0 <= g < groups.len(),
        0 <= p < api_paths(groups[g]).len(),
    ensures
        0 <= calls_before(groups, g, p) < plan_calls(groups).len(),
        plan_calls(groups)[calls_before(groups, g, p)] == group_call(groups[g], p),
{
    lemma_plan_calls_split(groups, g);
    let tail = groups.skip(g);
    assert(tail[0] == groups[g]);
    assert(tail.drop_first() =~= groups.skip(g + 1));
    assert(plan_calls(tail) == group_calls(groups[g]) + plan_calls(groups.skip(g + 1)));
    let before = plan_calls(groups.take(g)).len() as int;
    assert(plan_calls(groups)[before + p] == plan_calls(tail)[p]);
    assert(plan_calls(tail)[p] == group_calls(groups[g])[p]);
}

/// A run over a fully well-formed plan dispatches exactly the plan's calls,
/// in group-then-path listed order, and reports completion exactly when all
/// of them are dispatched: standing at a state that has dispatched `n` of the
/// scheduled calls, the engine's next decision is the `n`-th scheduled call
/// when one remains, and completion otherwise — never a fatal condition.
pub proof fn lemma_engine_schedule(groups: Seq<DocNode>, g: int, p: int)
    requires
        forall|i: int| 0 <= i < groups.len() ==> group_wf(#[trigger] groups[i]),
        0 <= g <= groups.len(),
        g < groups.len() ==> 0 <= p <= api_paths(groups[g]).len(),
        g == groups.len() ==> p == 0,
    ensures
        0 <= calls_before(groups, g, p) <= plan_calls(groups).len(),
        calls_before(groups, g, p) == plan_calls(groups).len() ==> spec_step(groups, g, p)
            == StepView::Done,
        calls_before(groups, g, p) < plan_calls(groups).len() ==> (spec_step(groups, g, p) matches
            StepView::Dispatch(d, g2, p2) && d == plan_calls(groups)[calls_before(groups, g, p)]
            && 0 <= g2 < groups.len() && 0 < p2 <= api_paths(groups[g2]).len() && calls_before(
            groups,
            g2,
            p2,
        ) == calls_before(groups, g, p) + 1),
    decreases groups.len() - g,
{
    if g == groups.len() {
        assert(groups.take(g) =~= groups);
    } else {
        let group = groups[g];
        assert(group_wf(group));
        lemma_plan_calls_split(groups, g);
        let tail = groups.skip(g);
        assert(tail[0] == group);
        assert(tail.drop_first() =~= groups.skip(g + 1));
        assert(plan_calls(tail) == group_calls(group) + plan_calls(groups.skip(g + 1)));
        if p < api_paths(group).len() {
            assert(api_paths(group)[p] matches DocNode::Text(_));
            lemma_plan_calls_index(groups, g, p);
            assert(spec_step(groups, g, p) matches StepView::Dispatch(d, g2, p2) && d
                == group_call(group, p) && g2 == g && p2 == p + 1);
        } else {
            lemma_plan_calls_take_succ(groups, g);
            assert(calls_before(groups, g + 1, 0) == calls_before(groups, g, p));
            lemma_engine_schedule(groups, g + 1, 0);
            assert(spec_step(groups, g, p) == spec_step(groups, g + 1, 0));
        }
    }
}

/// A plan whose `https` key is absent or null fails fast: at every state,
/// and so before any call is dispatched, the engine's decision is the fatal
/// `no requests defined` configuration error.
pub proof fn lemma_missing_requests_fails_fast(root: DocNode, g: int, p: int)
    requires
        field_of(root, "https"@) is None || field_of(root, "https"@) == Some(DocNode::Null),
    ensures
        plan_step(root, g, p) == StepView::Fatal(
            RunError::Configuration(ConfigError::NoRequestsDefined),
        ),
{
}

/// A group whose `type` is outside the fixed request-type set aborts the run
/// before any of its own calls: with every earlier group well-formed, the
/// engine dispatches exactly the earlier groups' calls, in order, and its
/// next decision after the last of them is the fatal unsupported-request-type
/// error — no rollback of the calls already made.
pub proof fn lemma_unsupported_type_aborts(groups: Seq<DocNode>, k: int, g: int, p: int)
    requires
        0 <= k < groups.len(),
        group_type(groups[k]) is None,
        forall|i: int| 0 <= i < k ==> group_wf(#[trigger] groups[i]),
        0 <= g <= k,
        g < k ==> 0 <= p <= api_paths(groups[g]).len(),
        g == k ==> p == 0,
    ensures
        0 <= calls_before(groups, g, p) <= plan_calls(groups.take(k)).len(),
        calls_before(groups, g, p) == plan_calls(groups.take(k)).len() ==> spec_step(groups, g, p)
            == StepView::Fatal(RunError::UnsupportedRequestType),
        calls_before(groups, g, p) < plan_calls(groups.take(k)).len() ==> (spec_step(groups, g, p)
            matches StepView::Dispatch(d, g2, p2) && d == plan_calls(groups.take(k))[calls_before(
            groups,
            g,
            p,
        )] && 0 <= g2 < k && 0 < p2 <= api_paths(groups[g2]).len() && calls_before(groups, g2, p2)
            == calls_before(groups, g, p) + 1),
    decreases k - g,
{
    let pre = groups.take(k);
    if g == k {
        assert(pre.take(g) =~= pre);
        assert(groups.take(g) =~= pre);
        assert(spec_step(groups, g, p) == StepView::Fatal(RunError::UnsupportedRequestType));
    } else {
        let group = groups[g];
        assert(group_wf(group));
        lemma_plan_calls_split(pre, g);
        assert(pre.take(g) =~= groups.take(g));
        let tail = pre.skip(g);
        assert(tail[0] == group);
        assert(tail.drop_first() =~= pre.skip(g + 1));
        assert(plan_calls(tail) == group_calls(group) + plan_calls(pre.skip(g + 1)));
        if p < api_paths(group).len() {
            assert(api_paths(group)[p] matches DocNode::Text(_));
            lemma_plan_calls_index(pre, g, p);
            assert(pre[g] == group);
            assert(calls_before(pre, g, p) == calls_before(groups, g, p));
            assert(spec_step(groups, g, p) matches StepView::Dispatch(d, g2, p2) && d
                == group_call(group, p) && g2 == g && p2 == p + 1);
        } else {
            lemma_plan_calls_take_succ(groups, g);
            assert(calls_before(groups, g + 1, 0) == calls_before(groups, g, p));
            lemma_unsupported_type_aborts(groups, k, g + 1, 0);
            assert(spec_step(groups, g, p) == spec_step(groups, g + 1, 0));
        }
    }
}

/// Interprets what the transport reported for one dispatched call: a
/// completed exchange yields its status code, whatever that code is; a
/// status-classified failure and any other transport fault are fatal.
pub fn interpret_response(outcome: &HttpOutcome) -> (r: Result<u16, RunError>)
    ensures
        match *outcome {
            HttpOutcome::Status(code) => r == Ok::<u16, RunError>(code),
            HttpOutcome::StatusError(code) => r == Err::<u16, RunError>(
                RunError::TransportStatus(code),
            ),
            HttpOutcome::Fault => r == Err::<u16, RunError>(RunError::TransportFault),
        },
{
    match outcome {
        HttpOutcome::Status(code) => Ok(*code),
        HttpOutcome::StatusError(code) => Err(RunError::TransportStatus(*code)),
        HttpOutcome::Fault => Err(RunError::TransportFault),
    }
}

} // verus!
