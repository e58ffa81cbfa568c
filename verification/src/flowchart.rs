//! Flowchart synthesizer: builds the three view kinds — system
//! overview, category view, and single-service detail view — with
//! deterministic node/edge identifiers and ordering.

use vstd::prelude::*;

use crate::models::{
    ConnectionType, ContainerInfo, ContainerStatus, Flowchart, FlowchartConnection, FlowchartNode,
    NodeType, ServiceCategory, category_tag, spec_category_tag,
};
use crate::models::{category_display_name, spec_category_display};
use crate::models::{NetworkInfo, spec_category_of_tag, category_of_tag};
use crate::normalize::first_match;
use crate::strutil::{
    concat2, concat3, contains_seq_ci, contains_str_ci, dec_str, ends_with, eq_ci, lex_le,
    lemma_lex_le_total, lemma_lex_le_trans, natural_key, natural_key_exec, opt_view, push_dec,
    str_eq, str_eq_ci, str_le, suffix_of, to_string_owned,
};
use crate::topology::{
    category_order, category_order_exec, count_cat, count_up_cat, count_category,
    count_up_category, lemma_count_up_cat_bounds, present_cats_prefix,
};
use vstd::multiset::Multiset;

verus! {

/// Title of a category's group node in the system view.
pub open spec fn spec_group_title(c: ServiceCategory) -> Seq<char> {
    match c {
        ServiceCategory::Aiml => "AI/ML Services"@,
        ServiceCategory::Application => "Application Services"@,
        ServiceCategory::Infrastructure => "Infrastructure"@,
        ServiceCategory::Frontend => "Frontend"@,
        ServiceCategory::Monitoring => "Monitoring"@,
        ServiceCategory::Game => "Game Services"@,
        ServiceCategory::Val => "Val Autonomy"@,
        ServiceCategory::Blockchain => "Blockchain"@,
        ServiceCategory::Other => "Other"@,
    }
}

fn group_title(c: &ServiceCategory) -> (r: &'static str)
    ensures
        r@ == spec_group_title(*c),
{
    match c {
        ServiceCategory::Aiml => "AI/ML Services",
        ServiceCategory::Application => "Application Services",
        ServiceCategory::Infrastructure => "Infrastructure",
        ServiceCategory::Frontend => "Frontend",
        ServiceCategory::Monitoring => "Monitoring",
        ServiceCategory::Game => "Game Services",
        ServiceCategory::Val => "Val Autonomy",
        ServiceCategory::Blockchain => "Blockchain",
        ServiceCategory::Other => "Other",
    }
}

/// Description of a category's group node in the system view.
pub open spec fn spec_group_desc(c: ServiceCategory) -> Seq<char> {
    match c {
        ServiceCategory::Aiml => "Consciousness, Learning, Memory systems"@,
        ServiceCategory::Application => "Backend APIs, Automation, Gateway"@,
        ServiceCategory::Infrastructure => "Databases, Cache, Message Queue"@,
        ServiceCategory::Frontend => "Web dashboards and UIs"@,
        ServiceCategory::Monitoring => "Prometheus, Grafana, Logging"@,
        ServiceCategory::Game => "RPG Engine, Game Backend"@,
        ServiceCategory::Val => "Goal Manager, Code Editor, Git Service"@,
        ServiceCategory::Blockchain => "Validators, Chain, Faucet"@,
        ServiceCategory::Other => "Other services"@,
    }
}

fn group_desc(c: &ServiceCategory) -> (r: &'static str)
    ensures
        r@ == spec_group_desc(*c),
{
    match c {
        ServiceCategory::Aiml => "Consciousness, Learning, Memory systems",
        ServiceCategory::Application => "Backend APIs, Automation, Gateway",
        ServiceCategory::Infrastructure => "Databases, Cache, Message Queue",
        ServiceCategory::Frontend => "Web dashboards and UIs",
        ServiceCategory::Monitoring => "Prometheus, Grafana, Logging",
        ServiceCategory::Game => "RPG Engine, Game Backend",
        ServiceCategory::Val => "Goal Manager, Code Editor, Git Service",
        ServiceCategory::Blockchain => "Validators, Chain, Faucet",
        ServiceCategory::Other => "Other services",
    }
}

/// Rollup status of a category: `Healthy` when every member is up,
/// `Running` when some are, `Unhealthy` when none are.
pub open spec fn spec_rollup(s: Seq<ContainerInfo>, c: ServiceCategory) -> ContainerStatus {
    if count_up_cat(s, c) == count_cat(s, c) {
        ContainerStatus::Healthy
    } else if count_up_cat(s, c) > 0 {
        ContainerStatus::Running
    } else {
        ContainerStatus::Unhealthy
    }
}

/// `nd` is the group node of category `c` in the system view over `s`.
pub open spec fn group_node_matches(nd: FlowchartNode, s: Seq<ContainerInfo>, c: ServiceCategory) -> bool {
    &&& nd.id@ == spec_category_tag(c)
    &&& nd.name@ == spec_group_title(c) + " ("@ + dec_str(count_cat(s, c) as nat) + ")"@
    &&& nd.description@ == spec_group_desc(c)
    &&& nd.status == spec_rollup(s, c)
    &&& nd.node_type == NodeType::Group
    &&& nd.category == c
    &&& nd.port is None
    &&& opt_view(nd.child_flowchart) == Some(spec_category_tag(c) + "-overview"@)
    &&& nd.stats is None
}

/// Source category of the `j`-th entry of the fixed relationship table.
pub open spec fn edge_source(j: int) -> ServiceCategory {
    if j == 0 {
        ServiceCategory::Frontend
    } else if j == 1 {
        ServiceCategory::Application
    } else if j == 2 {
        ServiceCategory::Application
    } else if j == 3 {
        ServiceCategory::Aiml
    } else if j == 4 {
        ServiceCategory::Val
    } else if j == 5 {
        ServiceCategory::Val
    } else if j == 6 {
        ServiceCategory::Monitoring
    } else if j == 7 {
        ServiceCategory::Monitoring
    } else if j == 8 {
        ServiceCategory::Game
    } else {
        ServiceCategory::Blockchain
    }
}

/// Target category of the `j`-th entry of the fixed relationship table.
pub open spec fn edge_target(j: int) -> ServiceCategory {
    if j == 0 {
        ServiceCategory::Application
    } else if j == 1 {
        ServiceCategory::Infrastructure
    } else if j == 2 {
        ServiceCategory::Aiml
    } else if j == 3 {
        ServiceCategory::Infrastructure
    } else if j == 4 {
        ServiceCategory::Aiml
    } else if j == 5 {
        ServiceCategory::Application
    } else if j == 6 {
        ServiceCategory::Application
    } else if j == 7 {
        ServiceCategory::Aiml
    } else if j == 8 {
        ServiceCategory::Application
    } else {
        ServiceCategory::Infrastructure
    }
}

/// Label of the `j`-th entry of the fixed relationship table.
pub open spec fn edge_label(j: int) -> Seq<char> {
    if j == 0 {
        "API calls"@
    } else if j == 1 {
        "Data"@
    } else if j == 2 {
        "AI requests"@
    } else if j == 3 {
        "Data"@
    } else if j == 4 {
        "Intelligence"@
    } else if j == 5 {
        "Automation"@
    } else if j == 6 {
        "Metrics"@
    } else if j == 7 {
        "Metrics"@
    } else if j == 8 {
        "Backend"@
    } else {
        "State"@
    }
}

fn edge_table_exec(j: usize) -> (r: (ServiceCategory, ServiceCategory, &'static str))
    requires
        j < 10,
    ensures
        r.0 == edge_source(j as int),
        r.1 == edge_target(j as int),
        r.2@ == edge_label(j as int),
{
    if j == 0 {
        (ServiceCategory::Frontend, ServiceCategory::Application, "API calls")
    } else if j == 1 {
        (ServiceCategory::Application, ServiceCategory::Infrastructure, "Data")
    } else if j == 2 {
        (ServiceCategory::Application, ServiceCategory::Aiml, "AI requests")
    } else if j == 3 {
        (ServiceCategory::Aiml, ServiceCategory::Infrastructure, "Data")
    } else if j == 4 {
        (ServiceCategory::Val, ServiceCategory::Aiml, "Intelligence")
    } else if j == 5 {
        (ServiceCategory::Val, ServiceCategory::Application, "Automation")
    } else if j == 6 {
        (ServiceCategory::Monitoring, ServiceCategory::Application, "Metrics")
    } else if j == 7 {
        (ServiceCategory::Monitoring, ServiceCategory::Aiml, "Metrics")
    } else if j == 8 {
        (ServiceCategory::Game, ServiceCategory::Application, "Backend")
    } else {
        (ServiceCategory::Blockchain, ServiceCategory::Infrastructure, "State")
    }
}

/// Both endpoint categories of table entry `j` have records in `s`.
pub open spec fn edge_present(s: Seq<ContainerInfo>, j: int) -> bool {
    count_cat(s, edge_source(j)) > 0 && count_cat(s, edge_target(j)) > 0
}

/// The indices among the first `j` table entries whose edges are
/// present, in table order.
pub open spec fn present_edges_prefix(s: Seq<ContainerInfo>, j: int) -> Seq<int>
    decreases j,
{
    if j <= 0 {
        Seq::empty()
    } else {
        present_edges_prefix(s, j - 1) + if edge_present(s, j - 1) {
            seq![j - 1]
        } else {
            Seq::<int>::empty()
        }
    }
}

/// The present edges of the fixed ten-entry relationship table.
pub open spec fn present_edges(s: Seq<ContainerInfo>) -> Seq<int> {
    present_edges_prefix(s, 10)
}

/// `e` is the system-view edge for table entry `j`.
pub open spec fn system_edge_matches(e: FlowchartConnection, j: int) -> bool {
    &&& e.id@ == spec_category_tag(edge_source(j)) + "-to-"@ + spec_category_tag(edge_target(j))
    &&& e.source@ == spec_category_tag(edge_source(j))
    &&& e.target@ == spec_category_tag(edge_target(j))
    &&& opt_view(e.label) == Some(edge_label(j))
    &&& e.connection_type == ConnectionType::Primary
}

/// `f` is the system overview of `s`: one group node per non-empty
/// category in the fixed order, and the present table edges in table
/// order.
pub open spec fn system_view_matches(f: Flowchart, s: Seq<ContainerInfo>) -> bool {
    &&& f.id@ == "system-overview"@
    &&& f.name@ == "VAL System Overview"@
    &&& f.description@ == "Complete system topology: "@ + dec_str(s.len()) + " containers across "@
        + dec_str(present_cats_prefix(s, 8).len() as nat) + " categories"@
    &&& f.parent_id is None
    &&& f.nodes@.len() == present_cats_prefix(s, 8).len()
    &&& forall|k: int|
        0 <= k < present_cats_prefix(s, 8).len() ==> group_node_matches(
            #[trigger] f.nodes@[k],
            s,
            present_cats_prefix(s, 8)[k],
        )
    &&& f.connections@.len() == present_edges(s).len()
    &&& forall|k: int|
        0 <= k < present_edges(s).len() ==> system_edge_matches(
            #[trigger] f.connections@[k],
            present_edges(s)[k],
        )
}

/// Membership in the present edges: table entry `j` appears if and
/// only if both its endpoint categories have records — so an edge is
/// included exactly when both its endpoint nodes exist in the view.
pub proof fn lemma_present_edges_iff(s: Seq<ContainerInfo>, j: int, m: int)
    requires
        0 <= m <= 10,
    ensures
        present_edges_prefix(s, m).contains(j) <==> (0 <= j < m && edge_present(s, j)),
    decreases m,
{
    if m > 0 {
        lemma_present_edges_iff(s, j, m - 1);
        let prev = present_edges_prefix(s, m - 1);
        let cur = present_edges_prefix(s, m);
        if edge_present(s, m - 1) {
            assert(cur =~= prev.push(m - 1));
            assert forall|x: int| cur.contains(x) implies prev.contains(x) || x == m - 1 by {
                let idx = choose|idx: int| 0 <= idx < cur.len() && cur[idx] == x;
                if idx < prev.len() {
                    assert(prev[idx] == x);
                }
            }
            if 0 <= j < m && edge_present(s, j) {
                if j == m - 1 {
                    assert(cur[cur.len() - 1] == j);
                } else {
                    let idx = choose|idx: int| 0 <= idx < prev.len() && prev[idx] == j;
                    assert(cur[idx] == j);
                }
            }
        } else {
            assert(cur =~= prev);
        }
    }
}

/// A category's group node exists in the system view if and only if
/// the category has at least one record.
pub proof fn lemma_present_cats_iff(s: Seq<ContainerInfo>, c: ServiceCategory, m: int)
    requires
        0 <= m <= 9,
    ensures
        present_cats_prefix(s, m).contains(c) <==> exists|i: int|
            0 <= i < m && category_order(i) == c && count_cat(s, #[trigger] category_order(i)) > 0,
    decreases m,
{
    if m > 0 {
        lemma_present_cats_iff(s, c, m - 1);
        let prev = present_cats_prefix(s, m - 1);
        let cur = present_cats_prefix(s, m);
        if count_cat(s, category_order(m - 1)) > 0 {
            assert(cur =~= prev.push(category_order(m - 1)));
            assert forall|x: ServiceCategory| cur.contains(x) implies prev.contains(x) || x
                == category_order(m - 1) by {
                let idx = choose|idx: int| 0 <= idx < cur.len() && cur[idx] == x;
                if idx < prev.len() {
                    assert(prev[idx] == x);
                }
            }
            if exists|i: int|
                0 <= i < m && category_order(i) == c && count_cat(s, #[trigger] category_order(i))
                    > 0 {
                let i = choose|i: int|
                    0 <= i < m && category_order(i) == c && count_cat(
                        s,
                        #[trigger] category_order(i),
                    ) > 0;
                if i == m - 1 {
                    assert(cur[cur.len() - 1] == c);
                } else {
                    assert(prev.contains(c));
                    let idx = choose|idx: int| 0 <= idx < prev.len() && prev[idx] == c;
                    assert(cur[idx] == c);
                }
            }
        } else {
            assert(cur =~= prev);
            if exists|i: int|
                0 <= i < m && category_order(i) == c && count_cat(s, #[trigger] category_order(i))
                    > 0 {
                let i = choose|i: int|
                    0 <= i < m && category_order(i) == c && count_cat(
                        s,
                        #[trigger] category_order(i),
                    ) > 0;
                assert(i < m - 1);
            }
        }
    }
}

/// Build the system overview flowchart.
pub fn generate_system_overview(records: &Vec<ContainerInfo>) -> (f: Flowchart)
    ensures
        system_view_matches(f, records@),
{
    let mut nodes: Vec<FlowchartNode> = Vec::new();
    let mut i: usize = 0;
    while i < 8
        invariant
            i <= 8,
            nodes@.len() == present_cats_prefix(records@, i as int).len(),
            forall|k: int|
                0 <= k < present_cats_prefix(records@, i as int).len() ==> group_node_matches(
                    #[trigger] nodes@[k],
                    records@,
                    present_cats_prefix(records@, i as int)[k],
                ),
        decreases 8 - i,
    {
        let c = category_order_exec(i);
        let count = count_category(records, &c);
        if count > 0 {
            let up = count_up_category(records, &c);
            proof {
                lemma_count_up_cat_bounds(records@, c);
            }
            let status = if up == count {
                ContainerStatus::Healthy
            } else if up > 0 {
                ContainerStatus::Running
            } else {
                ContainerStatus::Unhealthy
            };
            let tag = category_tag(&c);
            let mut name = to_string_owned(group_title(&c));
            name.append(" (");
            push_dec(&mut name, count as u64);
            name.append(")");
            proof {
                assert(name@ =~= spec_group_title(c) + " ("@ + dec_str(count as nat) + ")"@);
            }
            nodes.push(
                FlowchartNode {
                    id: to_string_owned(tag),
                    name,
                    description: to_string_owned(group_desc(&c)),
                    status,
                    node_type: NodeType::Group,
                    category: c,
                    port: None,
                    child_flowchart: Some(concat2(tag, "-overview")),
                    stats: None,
                },
            );
        }
        i += 1;
    }
    let mut connections: Vec<FlowchartConnection> = Vec::new();
    let mut j: usize = 0;
    while j < 10
        invariant
            j <= 10,
            connections@.len() == present_edges_prefix(records@, j as int).len(),
            forall|k: int|
                0 <= k < present_edges_prefix(records@, j as int).len() ==> system_edge_matches(
                    #[trigger] connections@[k],
                    present_edges_prefix(records@, j as int)[k],
                ),
        decreases 10 - j,
    {
        let (src, tgt, label) = edge_table_exec(j);
        let src_count = count_category(records, &src);
        let tgt_count = count_category(records, &tgt);
        if src_count > 0 && tgt_count > 0 {
            let src_tag = category_tag(&src);
            let tgt_tag = category_tag(&tgt);
            connections.push(
                FlowchartConnection {
                    id: concat3(src_tag, "-to-", tgt_tag),
                    source: to_string_owned(src_tag),
                    target: to_string_owned(tgt_tag),
                    label: Some(to_string_owned(label)),
                    connection_type: ConnectionType::Primary,
                },
            );
        }
        j += 1;
    }
    let mut description = to_string_owned("Complete system topology: ");
    push_dec(&mut description, records.len() as u64);
    description.append(" containers across ");
    push_dec(&mut description, nodes.len() as u64);
    description.append(" categories");
    proof {
        assert(description@ =~= "Complete system topology: "@ + dec_str(records@.len())
            + " containers across "@ + dec_str(present_cats_prefix(records@, 8).len() as nat)
            + " categories"@);
    }
    Flowchart {
        id: to_string_owned("system-overview"),
        name: to_string_owned("VAL System Overview"),
        description,
        nodes,
        connections,
        parent_id: None,
    }
}

/// The records of `s` in category `c`, in listing order.
pub open spec fn cat_members(s: Seq<ContainerInfo>, c: ServiceCategory) -> Seq<ContainerInfo>
    decreases s.len(),
{
    if s.len() == 0 {
        Seq::empty()
    } else {
        cat_members(s.drop_last(), c) + if s.last().category == c {
            seq![s.last()]
        } else {
            Seq::<ContainerInfo>::empty()
        }
    }
}

/// A category's member list has exactly its count of records.
pub proof fn lemma_cat_members_len(s: Seq<ContainerInfo>, c: ServiceCategory)
    ensures
        cat_members(s, c).len() == count_cat(s, c),
    decreases s.len(),
{
    if s.len() > 0 {
        lemma_cat_members_len(s.drop_last(), c);
    }
}

/// Extract a category's members from the listing, in listing order.
pub fn filter_category(records: Vec<ContainerInfo>, c: &ServiceCategory) -> (r: Vec<
    ContainerInfo,
>)
    ensures
        r@ == cat_members(records@, *c),
{
    let ghost orig = records@;
    let mut rest = records;
    let mut out: Vec<ContainerInfo> = Vec::new();
    let ghost i: int = 0;
    proof {
        assert(rest@ =~= orig.skip(0));
        assert(orig.take(0) =~= Seq::<ContainerInfo>::empty());
    }
    while rest.len() > 0
        invariant
            0 <= i <= orig.len(),
            i + rest@.len() == orig.len(),
            rest@ =~= orig.skip(i),
            out@ == cat_members(orig.take(i), *c),
        decreases rest.len(),
    {
        let x = rest.remove(0);
        proof {
            assert(orig.skip(i)[0] == orig[i]);
            assert(orig.skip(i).remove(0) =~= orig.skip(i + 1));
            assert(orig.take(i + 1).drop_last() =~= orig.take(i));
            assert(orig.take(i + 1).last() == orig[i]);
        }
        if x.category == *c {
            out.push(x);
            proof {
                assert(out@ =~= cat_members(orig.take(i + 1), *c));
            }
        }
        proof {
            i = i + 1;
        }
    }
    proof {
        assert(orig.take(orig.len() as int) =~= orig);
    }
    out
}

/// Natural order on records: ascending trailing numeric key, ties by
/// name in code-point order.
pub open spec fn nat_leq(a: ContainerInfo, b: ContainerInfo) -> bool {
    ||| natural_key(a.name@) < natural_key(b.name@)
    ||| (natural_key(a.name@) == natural_key(b.name@) && lex_le(a.name@, b.name@))
}

/// The sequence is sorted by the natural order.
pub open spec fn sorted_natural(s: Seq<ContainerInfo>) -> bool {
    forall|i: int, j: int| 0 <= i < j < s.len() ==> nat_leq(s[i], s[j])
}

proof fn lemma_nat_leq_total(a: ContainerInfo, b: ContainerInfo)
    ensures
        nat_leq(a, b) || nat_leq(b, a),
{
    lemma_lex_le_total(a.name@, b.name@);
}

proof fn lemma_nat_leq_trans(a: ContainerInfo, b: ContainerInfo, c: ContainerInfo)
    requires
        nat_leq(a, b),
        nat_leq(b, c),
    ensures
        nat_leq(a, c),
{
    if natural_key(a.name@) == natural_key(b.name@) && natural_key(b.name@) == natural_key(
        c.name@,
    ) {
        lemma_lex_le_trans(a.name@, b.name@, c.name@);
    }
}

fn nat_le_exec(a: &ContainerInfo, b: &ContainerInfo) -> (r: bool)
    ensures
        r == nat_leq(*a, *b),
{
    let ka = natural_key_exec(a.name.as_str());
    let kb = natural_key_exec(b.name.as_str());
    if ka < kb {
        true
    } else if ka > kb {
        false
    } else {
        str_le(a.name.as_str(), b.name.as_str())
    }
}

fn min_natural_index(v: &Vec<ContainerInfo>) -> (mi: usize)
    requires
        v@.len() > 0,
    ensures
        mi < v@.len(),
        forall|j: int| 0 <= j < v@.len() ==> nat_leq(v@[mi as int], v@[j]),
{
    let mut mi: usize = 0;
    let mut k: usize = 1;
    proof {
        lemma_nat_leq_total(v@[0], v@[0]);
    }
    while k < v.len()
        invariant
            mi < k,
            k <= v@.len(),
            forall|j: int| 0 <= j < k ==> nat_leq(v@[mi as int], v@[j]),
        decreases v@.len() - k,
    {
        if !nat_le_exec(&v[mi], &v[k]) {
            proof {
                lemma_nat_leq_total(v@[mi as int], v@[k as int]);
                assert forall|j: int| 0 <= j <= k implies nat_leq(v@[k as int], v@[j]) by {
                    if j < k as int {
                        lemma_nat_leq_trans(v@[k as int], v@[mi as int], v@[j]);
                    } else {
                        lemma_nat_leq_total(v@[k as int], v@[k as int]);
                    }
                }
            }
            mi = k;
        } else {
            proof {
                lemma_nat_leq_total(v@[k as int], v@[k as int]);
            }
        }
        k += 1;
    }
    mi
}

/// Sort records by the natural order: ascending trailing numeric key,
/// ties by name. The result holds exactly the input records.
pub fn sort_records_natural(v: Vec<ContainerInfo>) -> (r: Vec<ContainerInfo>)
    ensures
        r@.to_multiset() == v@.to_multiset(),
        r@.len() == v@.len(),
        sorted_natural(r@),
{
    broadcast use vstd::seq_lib::group_to_multiset_ensures;
    broadcast use vstd::multiset::group_multiset_axioms;

    let ghost orig = v@;
    let mut rest = v;
    let mut out: Vec<ContainerInfo> = Vec::new();
    while rest.len() > 0
        invariant
            out@.to_multiset().add(rest@.to_multiset()) =~= orig.to_multiset(),
            out@.len() + rest@.len() == orig.len(),
            sorted_natural(out@),
            forall|a: int, b: int|
                0 <= a < out@.len() && 0 <= b < rest@.len() ==> nat_leq(out@[a], rest@[b]),
        decreases rest.len(),
    {
        let ghost rest_old = rest@;
        let ghost out_old = out@;
        let mi = min_natural_index(&rest);
        let x = rest.remove(mi);
        out.push(x);
        proof {
            vstd::seq_lib::to_multiset_remove(rest_old, mi as int);
            vstd::seq_lib::to_multiset_build(out_old, rest_old[mi as int]);
            assert(rest_old.contains(rest_old[mi as int])) by {
                assert(rest_old[mi as int] == rest_old[mi as int]);
            }
            vstd::seq_lib::to_multiset_contains(rest_old, rest_old[mi as int]);
            assert(rest_old.to_multiset().count(rest_old[mi as int]) > 0);
            assert(out@.to_multiset().add(rest@.to_multiset()) =~= orig.to_multiset());
            assert forall|a: int, b: int|
                0 <= a < out@.len() && 0 <= b < rest@.len() implies nat_leq(
                out@[a],
                rest@[b],
            ) by {
                if a < out@.len() - 1 {
                    if b < mi as int {
                        assert(rest@[b] == rest_old[b]);
                    } else {
                        assert(rest@[b] == rest_old[b + 1]);
                    }
                } else {
                    assert(out@[a] == rest_old[mi as int]);
                    if b < mi as int {
                        assert(rest@[b] == rest_old[b]);
                    } else {
                        assert(rest@[b] == rest_old[b + 1]);
                    }
                }
            }
        }
    }
    proof {
        assert(rest@.to_multiset() =~= Multiset::<ContainerInfo>::empty());
        assert(out@.to_multiset() =~= orig.to_multiset());
    }
    out
}

/// First published host port of a record, when any.
pub open spec fn spec_first_host_port(m: ContainerInfo) -> Option<u16> {
    if m.ports@.len() > 0 {
        m.ports@[0].host_port
    } else {
        None
    }
}

/// `nd` is the service node of member `m`.
pub open spec fn service_node_matches(nd: FlowchartNode, m: ContainerInfo) -> bool {
    &&& nd.id == m.id
    &&& nd.name == m.name
    &&& nd.description@ == "Image: "@ + m.image@
    &&& nd.status == m.status
    &&& nd.node_type == NodeType::Service
    &&& nd.category == m.category
    &&& nd.port == spec_first_host_port(m)
    &&& nd.child_flowchart == Some(m.name)
    &&& nd.stats == m.stats
}

fn make_service_node(m: &ContainerInfo, is_seed: bool) -> (nd: FlowchartNode)
    ensures
        is_seed ==> seed_node_matches(nd, *m),
        !is_seed ==> service_node_matches(nd, *m),
{
    let port = if m.ports.len() > 0 {
        m.ports[0].host_port
    } else {
        None
    };
    FlowchartNode {
        id: m.id.clone(),
        name: m.name.clone(),
        description: concat2("Image: ", m.image.as_str()),
        status: m.status,
        node_type: NodeType::Service,
        category: m.category,
        port,
        child_flowchart: if is_seed {
            None
        } else {
            Some(m.name.clone())
        },
        stats: m.stats,
    }
}

/// `nd` is the seed node of a detail view: as a service node, but with
/// no child view pointer.
pub open spec fn seed_node_matches(nd: FlowchartNode, m: ContainerInfo) -> bool {
    &&& nd.id == m.id
    &&& nd.name == m.name
    &&& nd.description@ == "Image: "@ + m.image@
    &&& nd.status == m.status
    &&& nd.node_type == NodeType::Service
    &&& nd.category == m.category
    &&& nd.port == spec_first_host_port(m)
    &&& nd.child_flowchart is None
    &&& nd.stats == m.stats
}

/// The connections form a ring over the nodes: node `k` connects to
/// node `(k+1) mod n`, one edge per node when `n > 1`, none otherwise.
pub open spec fn ring_edges_match(f: Flowchart) -> bool {
    let n = f.nodes@.len() as int;
    if n <= 1 {
        f.connections@.len() == 0
    } else {
        &&& f.connections@.len() == n
        &&& forall|k: int|
            0 <= k < n ==> {
                let e = #[trigger] f.connections@[k];
                &&& e.id@ == f.nodes@[k].id@ + "-to-"@ + f.nodes@[(k + 1) % n].id@
                &&& e.source == f.nodes@[k].id
                &&& e.target == f.nodes@[(k + 1) % n].id
                &&& e.label is None
                &&& e.connection_type == ConnectionType::Network
            }
    }
}

/// `f` is the category view of `members` (the records of one category):
/// one service node per member in natural order, ring connections, and
/// the category's overview identity.
pub open spec fn category_view_matches(f: Flowchart, c: ServiceCategory, members: Seq<ContainerInfo>) -> bool {
    &&& f.id@ == spec_category_tag(c) + "-overview"@
    &&& f.name@ == spec_category_display(c) + " Services"@
    &&& f.description@ == dec_str(members.len()) + " services in the "@ + spec_category_display(c)
        + " category"@
    &&& opt_view(f.parent_id) == Some("system-overview"@)
    &&& f.nodes@.len() == members.len()
    &&& exists|sorted: Seq<ContainerInfo>|
        #![trigger sorted.to_multiset()]
        {
            &&& sorted.to_multiset() == members.to_multiset()
            &&& sorted.len() == members.len()
            &&& sorted_natural(sorted)
            &&& forall|k: int|
                0 <= k < sorted.len() ==> service_node_matches(#[trigger] f.nodes@[k], sorted[k])
        }
    &&& ring_edges_match(f)
}

/// Build the flowchart for one category from its member records.
pub fn generate_category_flowchart(category: &ServiceCategory, members: Vec<ContainerInfo>) -> (f:
    Flowchart)
    ensures
        category_view_matches(f, *category, members@),
{
    let n = members.len();
    let sorted = sort_records_natural(members);
    let mut nodes: Vec<FlowchartNode> = Vec::new();
    let mut i: usize = 0;
    while i < n
        invariant
            n == sorted@.len(),
            i <= n,
            nodes@.len() == i,
            forall|k: int|
                0 <= k < i ==> service_node_matches(#[trigger] nodes@[k], sorted@[k]),
        decreases n - i,
    {
        nodes.push(make_service_node(&sorted[i], false));
        i += 1;
    }
    let mut connections: Vec<FlowchartConnection> = Vec::new();
    if n > 1 {
        let mut k: usize = 0;
        while k < n
            invariant
                1 < n == sorted@.len(),
                k <= n,
                connections@.len() == k,
                forall|t: int|
                    0 <= t < k ==> {
                        let e = #[trigger] connections@[t];
                        &&& e.id@ == sorted@[t].id@ + "-to-"@ + sorted@[(t + 1) % (n as int)].id@
                        &&& e.source == sorted@[t].id
                        &&& e.target == sorted@[(t + 1) % (n as int)].id
                        &&& e.label is None
                        &&& e.connection_type == ConnectionType::Network
                    },
            decreases n - k,
        {
            let next = if k + 1 == n {
                0
            } else {
                k + 1
            };
            proof {
                if k + 1 == n {
                    vstd::arithmetic::div_mod::lemma_mod_self_0(n as int);
                } else {
                    vstd::arithmetic::div_mod::lemma_small_mod((k + 1) as nat, n as nat);
                }
            }
            connections.push(
                FlowchartConnection {
                    id: concat3(sorted[k].id.as_str(), "-to-", sorted[next].id.as_str()),
                    source: sorted[k].id.clone(),
                    target: sorted[next].id.clone(),
                    label: None,
                    connection_type: ConnectionType::Network,
                },
            );
            k += 1;
        }
    }
    let tag = category_tag(category);
    let display = category_display_name(category);
    let mut description = String::new();
    push_dec(&mut description, n as u64);
    description.append(" services in the ");
    description.append(display);
    description.append(" category");
    proof {
        assert(description@ =~= dec_str(n as nat) + " services in the "@ + spec_category_display(
            *category,
        ) + " category"@);
    }
    let f = Flowchart {
        id: concat2(tag, "-overview"),
        name: concat2(display, " Services"),
        description,
        nodes,
        connections,
        parent_id: Some(to_string_owned("system-overview")),
    };
    proof {
        assert(f.nodes@.len() == sorted@.len());
        assert(sorted@.to_multiset() == members@.to_multiset() && sorted@.len() == members@.len()
            && sorted_natural(sorted@) && (forall|k: int|
            0 <= k < sorted@.len() ==> service_node_matches(#[trigger] f.nodes@[k], sorted@[k])));
    }
    f
}

/// `o` is a peer of `t`: a different container (by id) sharing at
/// least one non-`"bridge"` network with it.
pub open spec fn is_peer(o: ContainerInfo, t: ContainerInfo) -> bool {
    o.id@ != t.id@ && shares_non_bridge(t, o)
}

/// `a` and `b` are attached to a common network that is not the
/// default `"bridge"` network (checked on `a`'s side).
pub open spec fn shares_non_bridge(a: ContainerInfo, b: ContainerInfo) -> bool {
    exists|k: int|
        0 <= k < a.networks@.len() && (#[trigger] a.networks@[k])@ != "bridge"@ && exists|l: int|
            0 <= l < b.networks@.len() && (#[trigger] b.networks@[l])@ == a.networks@[k]@
}

fn shares_non_bridge_exec(a: &ContainerInfo, b: &ContainerInfo) -> (r: bool)
    ensures
        r == shares_non_bridge(*a, *b),
{
    let mut k: usize = 0;
    while k < a.networks.len()
        invariant
            k <= a.networks@.len(),
            forall|kk: int|
                0 <= kk < k ==> !((#[trigger] a.networks@[kk])@ != "bridge"@ && exists|l: int|
                    0 <= l < b.networks@.len() && (#[trigger] b.networks@[l])@
                        == a.networks@[kk]@),
        decreases a.networks@.len() - k,
    {
        if !str_eq(a.networks[k].as_str(), "bridge") {
            let mut l: usize = 0;
            while l < b.networks.len()
                invariant
                    k < a.networks@.len(),
                    a.networks@[k as int]@ != "bridge"@,
                    l <= b.networks@.len(),
                    forall|ll: int|
                        0 <= ll < l ==> (#[trigger] b.networks@[ll])@ != a.networks@[k as int]@,
                decreases b.networks@.len() - l,
            {
                if str_eq(b.networks[l].as_str(), a.networks[k].as_str()) {
                    proof {
                        assert(0 <= k < a.networks@.len() && a.networks@[k as int]@ != "bridge"@
                            && b.networks@[l as int]@ == a.networks@[k as int]@);
                    }
                    return true;
                }
                l += 1;
            }
        }
        k += 1;
    }
    false
}

/// Indices among the first `i` records that are peers of `t`, in
/// listing order.
pub open spec fn peer_indices_prefix(s: Seq<ContainerInfo>, t: ContainerInfo, i: int) -> Seq<int>
    decreases i,
{
    if i <= 0 {
        Seq::empty()
    } else {
        peer_indices_prefix(s, t, i - 1) + if is_peer(s[i - 1], t) {
            seq![i - 1]
        } else {
            Seq::<int>::empty()
        }
    }
}

/// Indices of the peers of `t` in `s`, in listing order.
pub open spec fn peer_indices(s: Seq<ContainerInfo>, t: ContainerInfo) -> Seq<int> {
    peer_indices_prefix(s, t, s.len() as int)
}

/// Every peer index among the first `i` lies below `i`.
pub proof fn lemma_peer_indices_bounds(s: Seq<ContainerInfo>, t: ContainerInfo, i: int)
    ensures
        forall|k: int|
            0 <= k < peer_indices_prefix(s, t, i).len() ==> 0 <= #[trigger] peer_indices_prefix(
                s,
                t,
                i,
            )[k] < i,
    decreases i,
{
    if i > 0 {
        lemma_peer_indices_bounds(s, t, i - 1);
        let p_old = peer_indices_prefix(s, t, i - 1);
        let p = peer_indices_prefix(s, t, i);
        assert forall|k: int| 0 <= k < p.len() implies 0 <= #[trigger] p[k] < i by {
            if k < p_old.len() {
                assert(p[k] == p_old[k]);
            } else {
                assert(p[k] == i - 1);
            }
        }
    }
}

/// `f` is the detail view for the record at index `ti` of `s`: the
/// target as sole seed node, one node and one edge per peer, in
/// listing order.
pub open spec fn detail_view_matches(f: Flowchart, s: Seq<ContainerInfo>, ti: int) -> bool {
    let t = s[ti];
    let peers = peer_indices(s, t);
    &&& f.id == t.name
    &&& f.name@ == t.name@ + " Detail"@
    &&& f.description@ == "Container "@ + t.name@ + " and its "@ + dec_str(peers.len())
        + " connected services"@
    &&& opt_view(f.parent_id) == Some(spec_category_tag(t.category) + "-overview"@)
    &&& f.nodes@.len() == 1 + peers.len()
    &&& seed_node_matches(f.nodes@[0], t)
    &&& forall|k: int|
        0 <= k < peers.len() ==> service_node_matches(#[trigger] f.nodes@[k + 1], s[peers[k]])
    &&& f.connections@.len() == peers.len()
    &&& forall|k: int|
        0 <= k < peers.len() ==> {
            let e = #[trigger] f.connections@[k];
            &&& e.id@ == t.id@ + "-to-"@ + s[peers[k]].id@
            &&& e.source == t.id
            &&& e.target == s[peers[k]].id
            &&& e.label is None
            &&& e.connection_type == ConnectionType::Network
        }
}

/// Build the detail view for the record at index `ti`.
pub fn generate_container_flowchart(records: &Vec<ContainerInfo>, ti: usize) -> (f: Flowchart)
    requires
        ti < records@.len(),
    ensures
        detail_view_matches(f, records@, ti as int),
{
    let ghost t = records@[ti as int];
    let mut nodes: Vec<FlowchartNode> = Vec::new();
    let mut connections: Vec<FlowchartConnection> = Vec::new();
    nodes.push(make_service_node(&records[ti], true));
    let mut i: usize = 0;
    while i < records.len()
        invariant
            ti < records@.len(),
            t == records@[ti as int],
            i <= records@.len(),
            nodes@.len() == 1 + peer_indices_prefix(records@, t, i as int).len(),
            seed_node_matches(nodes@[0], t),
            forall|k: int|
                0 <= k < peer_indices_prefix(records@, t, i as int).len()
                    ==> service_node_matches(
                    #[trigger] nodes@[k + 1],
                    records@[peer_indices_prefix(records@, t, i as int)[k]],
                ),
            connections@.len() == peer_indices_prefix(records@, t, i as int).len(),
            forall|k: int|
                0 <= k < peer_indices_prefix(records@, t, i as int).len() ==> {
                    let e = #[trigger] connections@[k];
                    let idx = peer_indices_prefix(records@, t, i as int)[k];
                    &&& e.id@ == t.id@ + "-to-"@ + records@[idx].id@
                    &&& e.source == t.id
                    &&& e.target == records@[idx].id
                    &&& e.label is None
                    &&& e.connection_type == ConnectionType::Network
                },
        decreases records@.len() - i,
    {
        proof {
            lemma_peer_indices_bounds(records@, t, i as int);
            lemma_peer_indices_bounds(records@, t, i + 1 as int);
        }
        if !str_eq(records[i].id.as_str(), records[ti].id.as_str()) && shares_non_bridge_exec(
            &records[ti],
            &records[i],
        ) {
            proof {
                assert(is_peer(records@[i as int], t));
                assert(peer_indices_prefix(records@, t, i + 1 as int) =~= peer_indices_prefix(
                    records@,
                    t,
                    i as int,
                ).push(i as int));
            }
            nodes.push(make_service_node(&records[i], false));
            connections.push(
                FlowchartConnection {
                    id: concat3(records[ti].id.as_str(), "-to-", records[i].id.as_str()),
                    source: records[ti].id.clone(),
                    target: records[i].id.clone(),
                    label: None,
                    connection_type: ConnectionType::Network,
                },
            );
        } else {
            proof {
                assert(!is_peer(records@[i as int], t));
                assert(peer_indices_prefix(records@, t, i + 1 as int) =~= peer_indices_prefix(
                    records@,
                    t,
                    i as int,
                ));
            }
        }
        i += 1;
    }
    proof {
        lemma_peer_indices_bounds(records@, t, records@.len() as int);
    }
    let mut name = records[ti].name.clone();
    name.append(" Detail");
    let mut description = to_string_owned("Container ");
    description.append(records[ti].name.as_str());
    description.append(" and its ");
    push_dec(&mut description, connections.len() as u64);
    description.append(" connected services");
    proof {
        assert(name@ =~= t.name@ + " Detail"@);
        assert(description@ =~= "Container "@ + t.name@ + " and its "@ + dec_str(
            peer_indices(records@, t).len(),
        ) + " connected services"@);
    }
    Flowchart {
        id: records[ti].name.clone(),
        name,
        description,
        nodes,
        connections,
        parent_id: Some(concat2(category_tag(&records[ti].category), "-overview")),
    }
}

/// Category of a category-overview view id: the id must end in
/// `"-overview"` and the part before it must be a recognized tag.
pub open spec fn view_category(id: Seq<char>) -> Option<ServiceCategory> {
    if suffix_of(id, "-overview"@) {
        spec_category_of_tag(id.take(id.len() - 9))
    } else {
        None
    }
}

/// Resolve a view id to a flowchart, a three-way dispatch in order:
/// the system overview, a category overview, a container's detail view
/// by id or name; `None` when nothing matches — the id is then
/// unknown.
pub fn resolve_view(id: &str, records: Vec<ContainerInfo>, networks: &Vec<NetworkInfo>) -> (r:
    Option<Flowchart>)
    ensures
        id@ == "system-overview"@ ==> (r matches Some(f) && system_view_matches(f, records@)),
        (id@ != "system-overview"@ && view_category(id@) is Some) ==> (r matches Some(f)
            && category_view_matches(
            f,
            view_category(id@)->0,
            cat_members(records@, view_category(id@)->0),
        )),
        id@ != "system-overview"@ && view_category(id@) is None && first_match(records@, id@) >= 0
            ==> (r matches Some(f) && detail_view_matches(f, records@, first_match(records@, id@))),
        r is None <==> (id@ != "system-overview"@ && view_category(id@) is None && first_match(
            records@,
            id@,
        ) < 0),
{
    if str_eq(id, "system-overview") {
        let f = generate_system_overview(&records);
        return Some(f);
    }
    if ends_with(id, "-overview") {
        proof {
            reveal_strlit("-overview");
        }
        let n = id.unicode_len();
        let tag = id.substring_char(0, n - 9);
        proof {
            assert(tag@ =~= id@.take(id@.len() - 9));
        }
        match category_of_tag(tag) {
            Some(c) => {
                let members = filter_category(records, &c);
                let f = generate_category_flowchart(&c, members);
                return Some(f);
            },
            None => {},
        }
    }
    let n = records.len();
    let mut i: usize = 0;
    while i < n
        invariant
            n == records@.len(),
            i <= n,
            id@ != "system-overview"@,
            view_category(id@) is None,
            forall|k: int|
                0 <= k < i ==> (#[trigger] records@[k]).id@ != id@ && records@[k].name@ != id@,
        decreases n - i,
    {
        if str_eq(records[i].id.as_str(), id) || str_eq(records[i].name.as_str(), id) {
            proof {
                crate::normalize::lemma_first_match_at(records@, id@, i as int);
            }
            let f = generate_container_flowchart(&records, i);
            return Some(f);
        }
        i += 1;
    }
    proof {
        crate::normalize::lemma_first_match_at(records@, id@, n as int);
    }
    None
}

/// Number of occurrences of `x` in a sequence of strings' views.
pub open spec fn count_occ(s: Seq<Seq<char>>, x: Seq<char>) -> int
    decreases s.len(),
{
    if s.len() == 0 {
        0
    } else {
        count_occ(s.drop_last(), x) + if s.last() == x {
            1int
        } else {
            0int
        }
    }
}

/// Out-degree of the node id `x` in `f`: edges whose source is `x`.
pub open spec fn out_degree(f: Flowchart, x: Seq<char>) -> int {
    count_occ(f.connections@.map_values(|e: FlowchartConnection| e.source@), x)
}

/// In-degree of the node id `x` in `f`: edges whose target is `x`.
pub open spec fn in_degree(f: Flowchart, x: Seq<char>) -> int {
    count_occ(f.connections@.map_values(|e: FlowchartConnection| e.target@), x)
}

proof fn lemma_count_occ_zero(s: Seq<Seq<char>>, x: Seq<char>)
    requires
        forall|k: int| 0 <= k < s.len() ==> s[k] != x,
    ensures
        count_occ(s, x) == 0,
    decreases s.len(),
{
    if s.len() > 0 {
        lemma_count_occ_zero(s.drop_last(), x);
    }
}

proof fn lemma_count_occ_one(s: Seq<Seq<char>>, x: Seq<char>, i: int)
    requires
        0 <= i < s.len(),
        s[i] == x,
        forall|k: int| 0 <= k < s.len() && k != i ==> s[k] != x,
    ensures
        count_occ(s, x) == 1,
    decreases s.len(),
{
    if i == s.len() - 1 {
        lemma_count_occ_zero(s.drop_last(), x);
    } else {
        lemma_count_occ_one(s.drop_last(), x, i);
    }
}

/// Ring property of a category view: with more than two nodes whose
/// identifiers are pairwise distinct, every node has out-degree exactly
/// one and in-degree exactly one; the edge count itself is the node
/// count when there is more than one node, and zero otherwise.
pub proof fn lemma_ring_degrees(f: Flowchart, i: int)
    requires
        ring_edges_match(f),
        f.nodes@.len() > 2,
        forall|a: int, b: int|
            0 <= a < b < f.nodes@.len() ==> (#[trigger] f.nodes@[a]).id@ != (
            #[trigger] f.nodes@[b]).id@,
        0 <= i < f.nodes@.len(),
    ensures
        out_degree(f, f.nodes@[i].id@) == 1,
        in_degree(f, f.nodes@[i].id@) == 1,
{
    let n = f.nodes@.len() as int;
    let x = f.nodes@[i].id@;
    let srcs = f.connections@.map_values(|e: FlowchartConnection| e.source@);
    assert(srcs.len() == n);
    assert(forall|k: int| 0 <= k < n ==> srcs[k] == (#[trigger] f.connections@[k]).source@);
    assert forall|k: int| 0 <= k < n && k != i implies srcs[k] != x by {
        assert(f.connections@[k].source == f.nodes@[k].id);
    }
    assert(srcs[i] == x) by {
        assert(f.connections@[i].source == f.nodes@[i].id);
    }
    lemma_count_occ_one(srcs, x, i);
    let tgts = f.connections@.map_values(|e: FlowchartConnection| e.target@);
    assert(tgts.len() == n);
    let t = if i == 0 {
        n - 1
    } else {
        i - 1
    };
    assert((t + 1) % n == i) by {
        if i == 0 {
            vstd::arithmetic::div_mod::lemma_mod_self_0(n);
        } else {
            vstd::arithmetic::div_mod::lemma_small_mod(i as nat, n as nat);
        }
    }
    assert(tgts[t] == x) by {
        assert(f.connections@[t].target == f.nodes@[(t + 1) % n].id);
    }
    assert forall|k: int| 0 <= k < n && k != t implies tgts[k] != x by {
        assert(f.connections@[k].target == f.nodes@[(k + 1) % n].id);
        if k < n - 1 {
            vstd::arithmetic::div_mod::lemma_small_mod((k + 1) as nat, n as nat);
            assert((k + 1) % n == k + 1);
            assert(k + 1 != i);
        } else {
            vstd::arithmetic::div_mod::lemma_mod_self_0(n);
            assert((k + 1) % n == 0);
            assert(i != 0);
        }
    }
    lemma_count_occ_one(tgts, x, t);
}

/// Two system views of one listing are interchangeable: they carry
/// identical node and connection identifier sequences.
pub proof fn lemma_system_view_idempotent(f1: Flowchart, f2: Flowchart, s: Seq<ContainerInfo>)
    requires
        system_view_matches(f1, s),
        system_view_matches(f2, s),
    ensures
        f1.nodes@.len() == f2.nodes@.len(),
        forall|k: int| 0 <= k < f1.nodes@.len() ==> (#[trigger] f1.nodes@[k]).id@ == f2.nodes@[k].id@,
        f1.connections@.len() == f2.connections@.len(),
        forall|k: int|
            0 <= k < f1.connections@.len() ==> (#[trigger] f1.connections@[k]).id@
                == f2.connections@[k].id@,
{
}

/// Well-formedness of a flowchart: every connection's source and
/// target reference the id of a node present in the same flowchart.
pub open spec fn edges_reference_nodes(f: Flowchart) -> bool {
    forall|k: int|
        0 <= k < f.connections@.len() ==> {
            let e = #[trigger] f.connections@[k];
            &&& exists|i: int| 0 <= i < f.nodes@.len() && (#[trigger] f.nodes@[i]).id@ == e.source@
            &&& exists|i: int| 0 <= i < f.nodes@.len() && (#[trigger] f.nodes@[i]).id@ == e.target@
        }
}

proof fn lemma_present_edges_elements(s: Seq<ContainerInfo>, m: int)
    ensures
        forall|k: int|
            0 <= k < present_edges_prefix(s, m).len() ==> {
                let j = #[trigger] present_edges_prefix(s, m)[k];
                0 <= j < m && edge_present(s, j)
            },
    decreases m,
{
    if m > 0 {
        lemma_present_edges_elements(s, m - 1);
        let p_old = present_edges_prefix(s, m - 1);
        let p = present_edges_prefix(s, m);
        assert forall|k: int| 0 <= k < p.len() implies {
            let j = #[trigger] p[k];
            0 <= j < m && edge_present(s, j)
        } by {
            if k < p_old.len() {
                assert(p[k] == p_old[k]);
            } else {
                assert(p[k] == m - 1);
            }
        }
    }
}

proof fn lemma_edge_cat_in_order(c: ServiceCategory)
    requires
        c != ServiceCategory::Other,
    ensures
        exists|i: int| 0 <= i < 8 && #[trigger] category_order(i) == c,
{
    match c {
        ServiceCategory::Aiml => assert(category_order(0) == c),
        ServiceCategory::Application => assert(category_order(1) == c),
        ServiceCategory::Infrastructure => assert(category_order(2) == c),
        ServiceCategory::Frontend => assert(category_order(3) == c),
        ServiceCategory::Monitoring => assert(category_order(4) == c),
        ServiceCategory::Val => assert(category_order(5) == c),
        ServiceCategory::Blockchain => assert(category_order(6) == c),
        ServiceCategory::Game => assert(category_order(7) == c),
        ServiceCategory::Other => assert(false),
    }
}

/// The system view is well-formed: each of its edges connects two
/// group nodes that exist in the view.
pub proof fn lemma_system_view_edges_closed(f: Flowchart, s: Seq<ContainerInfo>)
    requires
        system_view_matches(f, s),
    ensures
        edges_reference_nodes(f),
{
    lemma_present_edges_elements(s, 10);
    assert forall|k: int| 0 <= k < f.connections@.len() implies {
        let e = #[trigger] f.connections@[k];
        &&& exists|i: int| 0 <= i < f.nodes@.len() && (#[trigger] f.nodes@[i]).id@ == e.source@
        &&& exists|i: int| 0 <= i < f.nodes@.len() && (#[trigger] f.nodes@[i]).id@ == e.target@
    } by {
        let j = present_edges(s)[k];
        let e = f.connections@[k];
        assert(system_edge_matches(e, j));
        let src = edge_source(j);
        let tgt = edge_target(j);
        assert(src != ServiceCategory::Other && tgt != ServiceCategory::Other);
        lemma_edge_cat_in_order(src);
        lemma_edge_cat_in_order(tgt);
        lemma_present_cats_iff(s, src, 8);
        lemma_present_cats_iff(s, tgt, 8);
        assert(present_cats_prefix(s, 8).contains(src));
        assert(present_cats_prefix(s, 8).contains(tgt));
        let si = choose|si: int|
            0 <= si < present_cats_prefix(s, 8).len() && present_cats_prefix(s, 8)[si] == src;
        assert(group_node_matches(f.nodes@[si], s, src));
        assert(f.nodes@[si].id@ == e.source@);
        let ti = choose|ti: int|
            0 <= ti < present_cats_prefix(s, 8).len() && present_cats_prefix(s, 8)[ti] == tgt;
        assert(group_node_matches(f.nodes@[ti], s, tgt));
        assert(f.nodes@[ti].id@ == e.target@);
    }
}

/// A ring-shaped flowchart is well-formed: each edge connects two of
/// its nodes.
pub proof fn lemma_ring_edges_closed(f: Flowchart)
    requires
        ring_edges_match(f),
    ensures
        edges_reference_nodes(f),
{
    let n = f.nodes@.len() as int;
    assert forall|k: int| 0 <= k < f.connections@.len() implies {
        let e = #[trigger] f.connections@[k];
        &&& exists|i: int| 0 <= i < f.nodes@.len() && (#[trigger] f.nodes@[i]).id@ == e.source@
        &&& exists|i: int| 0 <= i < f.nodes@.len() && (#[trigger] f.nodes@[i]).id@ == e.target@
    } by {
        let e = f.connections@[k];
        assert(f.nodes@[k].id@ == e.source@);
        vstd::arithmetic::div_mod::lemma_mod_bound(k + 1, n);
        assert(f.nodes@[(k + 1) % n].id@ == e.target@);
    }
}

/// A detail view is well-formed: each edge connects the seed node to a
/// peer node of the same view.
pub proof fn lemma_detail_view_edges_closed(f: Flowchart, s: Seq<ContainerInfo>, ti: int)
    requires
        0 <= ti < s.len(),
        detail_view_matches(f, s, ti),
    ensures
        edges_reference_nodes(f),
{
    let t = s[ti];
    let peers = peer_indices(s, t);
    assert forall|k: int| 0 <= k < f.connections@.len() implies {
        let e = #[trigger] f.connections@[k];
        &&& exists|i: int| 0 <= i < f.nodes@.len() && (#[trigger] f.nodes@[i]).id@ == e.source@
        &&& exists|i: int| 0 <= i < f.nodes@.len() && (#[trigger] f.nodes@[i]).id@ == e.target@
    } by {
        let e = f.connections@[k];
        assert(seed_node_matches(f.nodes@[0], t));
        assert(f.nodes@[0].id@ == e.source@);
        assert(service_node_matches(f.nodes@[k + 1], s[peers[k]]));
        assert(f.nodes@[k + 1].id@ == e.target@);
    }
}

/// First token of a name: the characters before the first `'-'`, the
/// whole name when it has none.
pub open spec fn first_dash(s: Seq<char>) -> int
    decreases s.len(),
{
    if s.len() == 0 {
        0
    } else if s[0] == '-' {
        0
    } else {
        1 + first_dash(s.skip(1))
    }
}

/// The characters before the first `'-'`.
pub open spec fn first_token(s: Seq<char>) -> Seq<char> {
    s.take(first_dash(s))
}

proof fn lemma_first_dash_at(s: Seq<char>, e: int)
    requires
        0 <= e <= s.len(),
        forall|k: int| 0 <= k < e ==> s[k] != '-',
        e < s.len() ==> s[e] == '-',
    ensures
        first_dash(s) == e,
    decreases s.len(),
{
    if s.len() > 0 && s[0] != '-' {
        assert(e >= 1);
        lemma_first_dash_at(s.skip(1), e - 1);
    }
}

/// Heuristic connection type from two service names: gateway/router
/// sources, database/queue targets, or a shared first name token. No
/// view builder currently uses it; connections are typed by their view
/// kind instead.
pub open spec fn spec_infer_connection(source: Seq<char>, target: Seq<char>) -> Option<
    ConnectionType,
> {
    if contains_seq_ci(source, "gateway"@) || contains_seq_ci(source, "router"@) {
        Some(ConnectionType::Primary)
    } else if contains_seq_ci(target, "postgres"@) || contains_seq_ci(target, "redis"@)
        || contains_seq_ci(target, "db"@) {
        Some(ConnectionType::Data)
    } else if contains_seq_ci(target, "rabbitmq"@) || contains_seq_ci(target, "queue"@) {
        Some(ConnectionType::Secondary)
    } else if first_token(source).len() > 0 && eq_ci(first_token(source), first_token(target)) {
        Some(ConnectionType::Control)
    } else {
        None
    }
}

fn first_token_exec<'a>(s: &'a str) -> (r: &'a str)
    ensures
        r@ == first_token(s@),
{
    let n = s.unicode_len();
    let mut e: usize = 0;
    while e < n && s.get_char(e) != '-'
        invariant
            n == s@.len(),
            e <= n,
            forall|k: int| 0 <= k < e ==> s@[k] != '-',
        decreases n - e,
    {
        e += 1;
    }
    proof {
        lemma_first_dash_at(s@, e as int);
    }
    let token = s.substring_char(0, e);
    proof {
        assert(token@ =~= s@.take(e as int));
    }
    token
}

/// Infer a connection type from two service names.
pub fn infer_connection_type(source: &str, target: &str) -> (r: Option<ConnectionType>)
    ensures
        r == spec_infer_connection(source@, target@),
{
    if contains_str_ci(source, "gateway") || contains_str_ci(source, "router") {
        Some(ConnectionType::Primary)
    } else if contains_str_ci(target, "postgres") || contains_str_ci(target, "redis")
        || contains_str_ci(target, "db") {
        Some(ConnectionType::Data)
    } else if contains_str_ci(target, "rabbitmq") || contains_str_ci(target, "queue") {
        Some(ConnectionType::Secondary)
    } else {
        let st = first_token_exec(source);
        let tt = first_token_exec(target);
        if !st.is_empty() && str_eq_ci(st, tt) {
            proof {
                assert(first_token(source@).len() > 0);
            }
            Some(ConnectionType::Control)
        } else {
            None
        }
    }
}

} // verus!
