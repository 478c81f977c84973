//! The recursive SELECT builder: business-scope predicates for the root
//! table, then one `IN` subquery per foreign-key edge, built over the
//! referenced table in turn. A table already on the path from the root is
//! not entered again, so cyclic foreign keys end the descent.
use vstd::prelude::*;

use crate::config::{opt_int, partition_name, BatchConfig, ScopeView};
use crate::custom_error::CustomError;
use crate::schema::{has_table, table_of, Catalog, ColumnProps, EdgeView, FkColumnUsage, TableView};
use crate::text::{int_decimal, push_char, push_i64, push_str};

verus! {

/// One predicate of a WHERE clause.
pub enum Pred {
    /// `<column> = <value>`
    Eq(Seq<char>, int),
    /// `issue_id IN (SELECT id FROM <issues> WHERE study_id = <s>[ AND subject_id = <x>])`
    IssueIn(Seq<char>, int, Option<int>),
    /// `<column> IN (<subquery>)`
    In(Seq<char>, Query),
}

/// `SELECT <proj> FROM <table>` with its predicates, in order.
pub struct Query {
    pub proj: Seq<char>,
    pub table: Seq<char>,
    pub preds: Seq<Pred>,
}

pub open spec fn connector(first: bool) -> Seq<char> {
    if first {
        " WHERE "@
    } else {
        " AND "@
    }
}

pub open spec fn subject_suffix(subject: Option<int>) -> Seq<char> {
    match subject {
        Some(x) => " AND subject_id = "@ + int_decimal(x),
        None => seq![],
    }
}

pub open spec fn render_pred(p: Pred, first: bool) -> Seq<char>
    decreases p,
{
    match p {
        Pred::Eq(c, v) => connector(first) + c + " = "@ + int_decimal(v),
        Pred::IssueIn(t, s, x) => connector(first) + "issue_id IN (SELECT id FROM "@ + t
            + " WHERE study_id = "@ + int_decimal(s) + subject_suffix(x) + seq![')'],
        Pred::In(c, sub) => (if first {
            "\nWHERE "@
        } else {
            " AND "@
        }) + c + " IN (\n"@ + render_query(sub) + "\n)"@,
    }
}

pub open spec fn render_preds(ps: Seq<Pred>) -> Seq<char>
    decreases ps,
{
    if ps.len() == 0 {
        seq![]
    } else {
        render_preds(ps.drop_last()) + render_pred(ps.last(), ps.len() == 1)
    }
}

pub open spec fn render_query(q: Query) -> Seq<char>
    decreases q,
{
    "SELECT "@ + q.proj + " FROM "@ + q.table + render_preds(q.preds)
}

pub open spec fn opt_eq(column: Seq<char>, v: Option<int>) -> Seq<Pred> {
    match v {
        Some(x) => seq![Pred::Eq(column, x)],
        None => seq![],
    }
}

/// The run table, whose rows are chosen by the business scope itself.
pub open spec fn is_run_table(t: Seq<char>) -> bool {
    t == "cb_batch_runs"@
}

/// Root predicates: the full scope on the run table, nothing elsewhere.
pub open spec fn root_preds(t: Seq<char>, scope: ScopeView) -> Seq<Pred> {
    if is_run_table(t) {
        seq![
            Pred::Eq("study_id"@, scope.study),
            Pred::Eq("area_id"@, scope.area),
            Pred::Eq("lifecycle_id"@, scope.lifecycle),
        ] + opt_eq("subject_id"@, scope.subject) + opt_eq("job_id"@, scope.job)
    } else {
        seq![]
    }
}

/// `preds` when the table has a column named `column`, else nothing.
pub open spec fn if_column(cols: Seq<Seq<char>>, column: Seq<char>, preds: Seq<Pred>) -> Seq<Pred> {
    if cols.contains(column) {
        preds
    } else {
        seq![]
    }
}

pub open spec fn issue_pred(scope: ScopeView) -> Pred {
    Pred::IssueIn(partition_name("issues"@, scope), scope.study, scope.subject)
}

/// Narrowing of a partitioned table by the scope columns it has.
pub open spec fn column_preds(cols: Seq<Seq<char>>, scope: ScopeView) -> Seq<Pred> {
    if_column(cols, "study_id"@, seq![Pred::Eq("study_id"@, scope.study)])
        + if_column(cols, "subject_id"@, opt_eq("subject_id"@, scope.subject))
        + if_column(cols, "job_id"@, opt_eq("job_id"@, scope.job))
        + if_column(cols, "issue_id"@, seq![issue_pred(scope)])
}

pub open spec fn scope_preds(
    cat: Seq<TableView>,
    scope: ScopeView,
    partitioned: bool,
    t: Seq<char>,
) -> Seq<Pred> {
    root_preds(t, scope) + if partitioned {
        column_preds(table_of(cat, t).columns, scope)
    } else {
        seq![]
    }
}

/// The query for table `t` projected on `proj`, reached through the
/// ancestor tables `path`; `None` when some table it needs is not in the
/// catalog.
pub open spec fn select_model(
    cat: Seq<TableView>,
    scope: ScopeView,
    partitioned: bool,
    t: Seq<char>,
    proj: Seq<char>,
    path: Seq<Seq<char>>,
) -> Option<Query>
    decreases cat.len() - path.len(), 0int,
{
    if !has_table(cat, t) || path.len() >= cat.len() {
        None
    } else {
        let edges = table_of(cat, t).edges;
        match edge_preds(cat, scope, partitioned, edges, path.push(t), edges.len() as int) {
            Some(ep) => Some(
                Query { proj, table: t, preds: scope_preds(cat, scope, partitioned, t) + ep },
            ),
            None => None,
        }
    }
}

/// The `IN` predicates of the first `k` edges; an edge back to a table on
/// `path` contributes none.
pub open spec fn edge_preds(
    cat: Seq<TableView>,
    scope: ScopeView,
    partitioned: bool,
    edges: Seq<EdgeView>,
    path: Seq<Seq<char>>,
    k: int,
) -> Option<Seq<Pred>>
    decreases cat.len() - path.len(), k,
{
    if k <= 0 || k > edges.len() {
        Some(seq![])
    } else {
        match edge_preds(cat, scope, partitioned, edges, path, k - 1) {
            None => None,
            Some(prev) => {
                let e = edges[k - 1];
                if path.contains(e.table) {
                    Some(prev)
                } else {
                    match select_model(cat, scope, partitioned, e.table, e.referenced, path) {
                        Some(q) => Some(prev.push(Pred::In(e.column, q))),
                        None => None,
                    }
                }
            },
        }
    }
}

/// The table names held by a path.
pub open spec fn names(v: Seq<String>) -> Seq<Seq<char>> {
    v.map_values(|s: String| s@)
}

/// Ancestor tables: known to the catalog, none twice.
pub open spec fn path_ok(cat: Seq<TableView>, path: Seq<Seq<char>>) -> bool {
    &&& path.no_duplicates()
    &&& forall|i: int| 0 <= i < path.len() ==> has_table(cat, #[trigger] path[i])
}

/// A path of distinct known tables is no longer than the catalog.
pub proof fn lemma_path_bound(cat: Seq<TableView>, path: Seq<Seq<char>>)
    requires
        path_ok(cat, path),
    ensures
        path.len() <= cat.len(),
{
    let all = cat.map_values(|t: TableView| t.name);
    assert forall|x: Seq<char>| path.to_set().contains(x) implies all.to_set().contains(x) by {
        let i = choose|i: int| 0 <= i < path.len() && path[i] == x;
        assert(has_table(cat, path[i]));
        let j = choose|j: int| 0 <= j < cat.len() && cat[j].name == x;
        assert(all[j] == x);
    }
    path.unique_seq_to_set();
    all.lemma_cardinality_of_set();
    vstd::set_lib::lemma_len_subset(path.to_set(), all.to_set());
}

/// Once an edge's subquery cannot be built, no longer prefix of the edges
/// can be either.
pub proof fn lemma_edge_preds_none(
    cat: Seq<TableView>,
    scope: ScopeView,
    partitioned: bool,
    edges: Seq<EdgeView>,
    path: Seq<Seq<char>>,
    k: int,
    j: int,
)
    requires
        0 <= k <= j <= edges.len(),
        edge_preds(cat, scope, partitioned, edges, path, k) is None,
    ensures
        edge_preds(cat, scope, partitioned, edges, path, j) is None,
    decreases j - k,
{
    if j > k {
        lemma_edge_preds_none(cat, scope, partitioned, edges, path, k, j - 1);
    }
}

proof fn lemma_render_push(ps: Seq<Pred>, p: Pred)
    ensures
        render_preds(ps.push(p)) == render_preds(ps) + render_pred(p, ps.len() == 0),
{
    assert(ps.push(p).drop_last() =~= ps);
}

/// Appends `<connector><column> = <value>`.
fn push_eq(out: &mut String, first: bool, column: &str, value: i64)
    ensures
        final(out)@ == old(out)@ + render_pred(Pred::Eq(column@, value as int), first),
{
    let ghost start = out@;
    if first {
        push_str(out, " WHERE ");
    } else {
        push_str(out, " AND ");
    }
    push_str(out, column);
    push_str(out, " = ");
    push_i64(out, value);
    assert(out@ =~= start + render_pred(Pred::Eq(column@, value as int), first));
}

/// True when a column named `name` is among `cols`.
pub fn has_column(cols: &Vec<ColumnProps>, name: &str) -> (r: bool)
    ensures
        r == cols@.map_values(|p: ColumnProps| p.name@).contains(name@),
{
    let target = String::from_str(name);
    let ghost view = cols@.map_values(|p: ColumnProps| p.name@);
    let mut i: usize = 0;
    while i < cols.len()
        invariant
            i <= cols.len(),
            view == cols@.map_values(|p: ColumnProps| p.name@),
            target@ == name@,
            forall|j: int| 0 <= j < i ==> view[j] != name@,
        decreases cols.len() - i,
    {
        if cols[i].name == target {
            assert(view[i as int] == name@);
            return true;
        }
        i = i + 1;
    }
    false
}

fn path_contains(path: &Vec<String>, t: &String) -> (r: bool)
    ensures
        r == names(path@).contains(t@),
{
    let mut i: usize = 0;
    while i < path.len()
        invariant
            i <= path.len(),
            forall|j: int| 0 <= j < i ==> names(path@)[j] != t@,
        decreases path.len() - i,
    {
        if path[i] == *t {
            assert(names(path@)[i as int] == t@);
            return true;
        }
        i = i + 1;
    }
    false
}

/// Appends `issue_id IN (SELECT id FROM issues_<l>_<a> WHERE study_id = <s>[ AND subject_id = <x>])`.
fn push_issue_pred(out: &mut String, first: bool, scope: &BatchConfig)
    ensures
        final(out)@ == old(out)@ + render_pred(
            issue_pred(scope@),
            first,
        ),
{
    let ghost start = out@;
    let issues = String::from_str("issues");
    let issue_table = scope.partition_table_name(&issues);
    if first {
        push_str(out, " WHERE ");
    } else {
        push_str(out, " AND ");
    }
    push_str(out, "issue_id IN (SELECT id FROM ");
    push_str(out, issue_table.as_str());
    push_str(out, " WHERE study_id = ");
    push_i64(out, scope.study_id);
    let ghost mid = out@;
    match scope.subject_id {
        Some(x) => {
            push_str(out, " AND subject_id = ");
            push_i64(out, x);
        },
        None => {},
    }
    assert(out@ =~= mid + subject_suffix(scope@.subject));
    push_char(out, ')');
    assert(out@ =~= start + render_pred(issue_pred(scope@), first));
}

/// Appends the root predicates of table `t`; returns how many there are.
pub(crate) fn push_root_preds(out: &mut String, scope: &BatchConfig, t: &String) -> (count: usize)
    ensures
        final(out)@ == old(out)@ + render_preds(root_preds(t@, scope@)),
        count == root_preds(t@, scope@).len(),
{
    let ghost mut ps: Seq<Pred> = seq![];
    let mut n: usize = 0;
    let run = String::from_str("cb_batch_runs");
    if *t == run {
        push_eq(out, true, "study_id", scope.study_id);
        proof {
            lemma_render_push(ps, Pred::Eq("study_id"@, scope@.study));
            ps = ps.push(Pred::Eq("study_id"@, scope@.study));
        }
        push_eq(out, false, "area_id", scope.area_id as i64);
        proof {
            lemma_render_push(ps, Pred::Eq("area_id"@, scope@.area));
            ps = ps.push(Pred::Eq("area_id"@, scope@.area));
        }
        push_eq(out, false, "lifecycle_id", scope.lifecycle_id as i64);
        proof {
            lemma_render_push(ps, Pred::Eq("lifecycle_id"@, scope@.lifecycle));
            ps = ps.push(Pred::Eq("lifecycle_id"@, scope@.lifecycle));
        }
        n = 3;
        if let Some(x) = scope.subject_id {
            push_eq(out, false, "subject_id", x);
            proof {
                lemma_render_push(ps, Pred::Eq("subject_id"@, x as int));
                ps = ps.push(Pred::Eq("subject_id"@, x as int));
            }
            n = n + 1;
        }
        if let Some(x) = scope.job_id {
            push_eq(out, false, "job_id", x);
            proof {
                lemma_render_push(ps, Pred::Eq("job_id"@, x as int));
                ps = ps.push(Pred::Eq("job_id"@, x as int));
            }
            n = n + 1;
        }
    }
    assert(ps =~= root_preds(t@, scope@));
    n
}

/// Appends `p` after the predicates `ps` already rendered after `base`.
fn push_eq_after(
    out: &mut String,
    Ghost(base): Ghost<Seq<char>>,
    Ghost(ps): Ghost<Seq<Pred>>,
    first: bool,
    column: &str,
    value: i64,
)
    requires
        old(out)@ == base + render_preds(ps),
        first == (ps.len() == 0),
    ensures
        final(out)@ == base + render_preds(ps.push(Pred::Eq(column@, value as int))),
{
    push_eq(out, first, column, value);
    proof {
        lemma_render_push(ps, Pred::Eq(column@, value as int));
    }
}

/// Appends the scope predicate on `column` when the table has that column
/// and the scope gives a value for it.
fn push_optional_column(
    out: &mut String,
    cols: &Vec<ColumnProps>,
    Ghost(base): Ghost<Seq<char>>,
    Ghost(ps): Ghost<Seq<Pred>>,
    first: bool,
    column: &str,
    value: Option<i64>,
) -> (still_first: bool)
    requires
        old(out)@ == base + render_preds(ps),
        first == (ps.len() == 0),
    ensures
        final(out)@ == base + render_preds(
            ps + if_column(cols@.map_values(|p: ColumnProps| p.name@), column@, opt_eq(column@, opt_int(value))),
        ),
        still_first == ((ps + if_column(cols@.map_values(|p: ColumnProps| p.name@), column@, opt_eq(column@, opt_int(value)))).len() == 0),
{
    let ghost added = if_column(cols@.map_values(|p: ColumnProps| p.name@), column@, opt_eq(column@, opt_int(value)));
    if has_column(cols, column) {
        match value {
            Some(x) => {
                push_eq_after(out, Ghost(base), Ghost(ps), first, column, x);
                assert(ps.push(Pred::Eq(column@, x as int)) =~= ps + added);
                return false;
            },
            None => {},
        }
    }
    assert(ps + added =~= ps);
    first
}

/// Appends the column predicates of a partitioned table after `before`.
fn push_column_preds(
    out: &mut String,
    scope: &BatchConfig,
    cols: &Vec<ColumnProps>,
    Ghost(base): Ghost<Seq<char>>,
    Ghost(before): Ghost<Seq<Pred>>,
    first: bool,
) -> (still_first: bool)
    requires
        old(out)@ == base + render_preds(before),
        first == (before.len() == 0),
    ensures
        final(out)@ == base + render_preds(
            before + column_preds(cols@.map_values(|p: ColumnProps| p.name@), scope@),
        ),
        still_first == ((before + column_preds(cols@.map_values(|p: ColumnProps| p.name@), scope@)).len() == 0),
{
    let ghost cv = cols@.map_values(|p: ColumnProps| p.name@);
    let ghost s1 = if_column(cv, "study_id"@, seq![Pred::Eq("study_id"@, scope@.study)]);
    let ghost s2 = if_column(cv, "subject_id"@, opt_eq("subject_id"@, scope@.subject));
    let ghost s3 = if_column(cv, "job_id"@, opt_eq("job_id"@, scope@.job));
    let ghost s4 = if_column(cv, "issue_id"@, seq![issue_pred(scope@)]);
    let first = push_optional_column(out, cols, Ghost(base), Ghost(before), first, "study_id", Some(scope.study_id));
    let first = push_optional_column(out, cols, Ghost(base), Ghost(before + s1), first, "subject_id", scope.subject_id);
    let first = push_optional_column(out, cols, Ghost(base), Ghost(before + s1 + s2), first, "job_id", scope.job_id);
    let ghost ps = before + s1 + s2 + s3;
    let first = if has_column(cols, "issue_id") {
        push_issue_pred(out, first, scope);
        proof {
            lemma_render_push(ps, issue_pred(scope@));
            assert(ps.push(issue_pred(scope@)) =~= ps + s4);
        }
        false
    } else {
        assert(ps + s4 =~= ps);
        first
    };
    assert(before + column_preds(cv, scope@) =~= before + s1 + s2 + s3 + s4);
    first
}

/// Builds the query for `table` projected on `proj`, with `path` holding
/// the ancestor tables; `path` is as before when it returns.
pub fn build_select(
    scope: &BatchConfig,
    cat: &Catalog,
    partitioned: bool,
    table: &String,
    proj: &String,
    path: &mut Vec<String>,
) -> (r: Result<String, CustomError>)
    requires
        cat.wf(),
        path_ok(cat@, names(old(path)@)),
        !names(old(path)@).contains(table@),
    ensures
        final(path)@ == old(path)@,
        r is Ok <==> select_model(cat@, scope@, partitioned, table@, proj@, names(old(path)@)) is Some,
        r matches Ok(s) ==> s@ == render_query(
            select_model(cat@, scope@, partitioned, table@, proj@, names(old(path)@))->0,
        ),
        r matches Err(e) ==> e is DbTableStructure,
    decreases cat@.len() - old(path)@.len(),
{
    let ghost p0 = names(path@);
    let refs = match cat.get_table_references(table) {
        Some(refs) => refs,
        None => {
            return Err(CustomError::DbTableStructure);
        },
    };
    let ghost edges = table_of(cat@, table@).edges;
    let ghost p1 = p0.push(table@);
    proof {
        assert(path_ok(cat@, p1)) by {
            assert forall|i: int| 0 <= i < p1.len() implies has_table(cat@, #[trigger] p1[i]) by {
                if i < p0.len() {
                    assert(p1[i] == p0[i]);
                }
            }
        }
        lemma_path_bound(cat@, p1);
    }
    let mut query = String::new();
    push_str(&mut query, "SELECT ");
    push_str(&mut query, proj.as_str());
    push_str(&mut query, " FROM ");
    push_str(&mut query, table.as_str());
    let ghost head = query@;
    let n_root = push_root_preds(&mut query, scope, table);
    let mut first: bool = n_root == 0;
    if partitioned {
        let cols = cat.get_columns(table).unwrap();
        first = push_column_preds(
            &mut query,
            scope,
            cols,
            Ghost(head),
            Ghost(root_preds(table@, scope@)),
            first,
        );
    } else {
        assert(root_preds(table@, scope@) + Seq::<Pred>::empty() =~= root_preds(table@, scope@));
    }
    let ghost sp = scope_preds(cat@, scope@, partitioned, table@);
    assert(query@ == head + render_preds(sp));
    assert(sp + Seq::<Pred>::empty() =~= sp);
    path.push(table.clone());
    assert(names(path@) =~= p1);
    let ghost mut prev: Seq<Pred> = seq![];
    let mut k: usize = 0;
    while k < refs.len()
        invariant
            cat.wf(),
            p0 == names(old(path)@),
            p1 == p0.push(table@),
            has_table(cat@, table@),
            edges == table_of(cat@, table@).edges,
            sp == scope_preds(cat@, scope@, partitioned, table@),
            head == "SELECT "@ + proj@ + " FROM "@ + table@,
            path_ok(cat@, p1),
            p1.len() <= cat@.len(),
            names(path@) == p1,
            path@.len() == old(path)@.len() + 1,
            path@.drop_last() == old(path)@,
            k <= refs.len(),
            refs@.map_values(|f: FkColumnUsage| f@) == edges,
            edge_preds(cat@, scope@, partitioned, edges, p1, k as int) == Some(prev),
            first == ((sp + prev).len() == 0),
            query@ == head + render_preds(sp + prev),
        decreases refs.len() - k,
    {
        let e = &refs[k];
        assert(edges[k as int] == e@);
        if !path_contains(path, &e.referenced_table_name) {
            let sub = build_select(
                scope,
                cat,
                partitioned,
                &e.referenced_table_name,
                &e.referenced_column_name,
                path,
            );
            match sub {
                Ok(sub) => {
                    let ghost q = select_model(cat@, scope@, partitioned, e@.table, e@.referenced, p1)->0;
                    let ghost before = query@;
                    if first {
                        push_str(&mut query, "\nWHERE ");
                    } else {
                        push_str(&mut query, " AND ");
                    }
                    push_str(&mut query, e.column_name.as_str());
                    push_str(&mut query, " IN (\n");
                    push_str(&mut query, sub.as_str());
                    push_str(&mut query, "\n)");
                    proof {
                        let p = Pred::In(e@.column, q);
                        assert(query@ =~= before + render_pred(p, first));
                        lemma_render_push(sp + prev, p);
                        assert((sp + prev).push(p) =~= sp + prev.push(p));
                        prev = prev.push(p);
                    }
                    first = false;
                },
                Err(err) => {
                    proof {
                        assert(edge_preds(cat@, scope@, partitioned, edges, p1, k + 1) is None);
                        lemma_edge_preds_none(cat@, scope@, partitioned, edges, p1, k + 1, edges.len() as int);
                    }
                    path.pop();
                    assert(path@ =~= old(path)@);
                    assert(select_model(cat@, scope@, partitioned, table@, proj@, p0) is None);
                    return Err(err);
                },
            }
        }
        k = k + 1;
    }
    path.pop();
    assert(path@ =~= old(path)@);
    assert(query@ == render_query(Query { proj: proj@, table: table@, preds: sp + prev }));
    Ok(query)
}

/// The edges whose referenced table is not on `path`, in discovery order.
pub open spec fn eligible(edges: Seq<EdgeView>, path: Seq<Seq<char>>) -> Seq<EdgeView>
    decreases edges.len(),
{
    if edges.len() == 0 {
        seq![]
    } else if path.contains(edges.last().table) {
        eligible(edges.drop_last(), path)
    } else {
        eligible(edges.drop_last(), path).push(edges.last())
    }
}

/// The `IN` predicate built for edge `e` below the ancestors `path`.
pub open spec fn edge_pred(
    cat: Seq<TableView>,
    scope: ScopeView,
    partitioned: bool,
    e: EdgeView,
    path: Seq<Seq<char>>,
) -> Pred {
    Pred::In(e.column, select_model(cat, scope, partitioned, e.table, e.referenced, path)->0)
}

proof fn lemma_edge_preds_shape(
    cat: Seq<TableView>,
    scope: ScopeView,
    partitioned: bool,
    edges: Seq<EdgeView>,
    path: Seq<Seq<char>>,
    k: int,
)
    requires
        0 <= k <= edges.len(),
        edge_preds(cat, scope, partitioned, edges, path, k) is Some,
    ensures
        ({
            let ep = edge_preds(cat, scope, partitioned, edges, path, k)->0;
            let el = eligible(edges.take(k), path);
            &&& ep.len() == el.len()
            &&& forall|i: int|
                0 <= i < el.len() ==> select_model(
                    cat,
                    scope,
                    partitioned,
                    (#[trigger] el[i]).table,
                    el[i].referenced,
                    path,
                ) is Some && ep[i] == edge_pred(cat, scope, partitioned, el[i], path)
        }),
    decreases k,
{
    if k > 0 {
        lemma_edge_preds_shape(cat, scope, partitioned, edges, path, k - 1);
        assert(edges.take(k).drop_last() =~= edges.take(k - 1));
        assert(edges.take(k).last() == edges[k - 1]);
    } else {
        assert(edges.take(0) =~= Seq::<EdgeView>::empty());
    }
}

proof fn lemma_scope_preds_not_in(cat: Seq<TableView>, scope: ScopeView, partitioned: bool, t: Seq<char>)
    ensures
        forall|i: int|
            0 <= i < scope_preds(cat, scope, partitioned, t).len() ==> !((#[trigger] scope_preds(
                cat,
                scope,
                partitioned,
                t,
            )[i]) is In),
{
    let cols = table_of(cat, t).columns;
    let sp = scope_preds(cat, scope, partitioned, t);
    assert forall|i: int| 0 <= i < sp.len() implies !((#[trigger] sp[i]) is In) by {
        let r = root_preds(t, scope);
        let c = column_preds(cols, scope);
        if i < r.len() {
            assert(sp[i] == r[i]);
        } else {
            assert(partitioned);
            assert(sp[i] == c[i - r.len()]);
            let s1 = if_column(cols, "study_id"@, seq![Pred::Eq("study_id"@, scope.study)]);
            let s2 = if_column(cols, "subject_id"@, opt_eq("subject_id"@, scope.subject));
            let s3 = if_column(cols, "job_id"@, opt_eq("job_id"@, scope.job));
            let s4 = if_column(cols, "issue_id"@, seq![issue_pred(scope)]);
            assert(c == s1 + s2 + s3 + s4);
        }
    }
}

/// Foreign-key closure: the query for `t` holds its scope predicates, none
/// of them an `IN` subquery, followed by exactly one `IN` predicate per
/// edge of `t` whose table is not already an ancestor, in discovery order,
/// each over the query built in the same way for the referenced table and
/// column.
pub proof fn lemma_fk_closure(
    cat: Seq<TableView>,
    scope: ScopeView,
    partitioned: bool,
    t: Seq<char>,
    proj: Seq<char>,
    path: Seq<Seq<char>>,
)
    requires
        select_model(cat, scope, partitioned, t, proj, path) is Some,
    ensures
        ({
            let q = select_model(cat, scope, partitioned, t, proj, path)->0;
            let sp = scope_preds(cat, scope, partitioned, t);
            let el = eligible(table_of(cat, t).edges, path.push(t));
            &&& q.table == t
            &&& q.proj == proj
            &&& q.preds.len() == sp.len() + el.len()
            &&& q.preds.take(sp.len() as int) == sp
            &&& forall|i: int| 0 <= i < sp.len() ==> !((#[trigger] q.preds[i]) is In)
            &&& forall|i: int|
                0 <= i < el.len() ==> select_model(
                    cat,
                    scope,
                    partitioned,
                    (#[trigger] el[i]).table,
                    el[i].referenced,
                    path.push(t),
                ) is Some && q.preds[sp.len() + i] == edge_pred(
                    cat,
                    scope,
                    partitioned,
                    el[i],
                    path.push(t),
                )
        }),
{
    let edges = table_of(cat, t).edges;
    let q = select_model(cat, scope, partitioned, t, proj, path)->0;
    let sp = scope_preds(cat, scope, partitioned, t);
    lemma_edge_preds_shape(cat, scope, partitioned, edges, path.push(t), edges.len() as int);
    assert(edges.take(edges.len() as int) =~= edges);
    lemma_scope_preds_not_in(cat, scope, partitioned, t);
    assert(q.preds.take(sp.len() as int) =~= sp);
    assert forall|i: int| 0 <= i < sp.len() implies !((#[trigger] q.preds[i]) is In) by {
        assert(q.preds[i] == sp[i]);
    }
}

/// A predicate that compares `column` with a value.
pub open spec fn compares(p: Pred, column: Seq<char>) -> bool {
    p matches Pred::Eq(c, _) && c == column
}

/// Scope on the run table: with no subject configured the query has no
/// `subject_id` predicate; with subject `x` it has exactly one, and that
/// one compares with `x`.
pub proof fn lemma_subject_scope(
    cat: Seq<TableView>,
    scope: ScopeView,
    t: Seq<char>,
    proj: Seq<char>,
    path: Seq<Seq<char>>,
)
    requires
        is_run_table(t),
        select_model(cat, scope, false, t, proj, path) is Some,
    ensures
        ({
            let q = select_model(cat, scope, false, t, proj, path)->0;
            &&& scope.subject is None ==> forall|i: int|
                0 <= i < q.preds.len() ==> !compares(#[trigger] q.preds[i], "subject_id"@)
            &&& scope.subject matches Some(x) ==> exists|i: int|
                0 <= i < q.preds.len() && q.preds[i] == Pred::Eq("subject_id"@, x) && forall|j: int|
                    0 <= j < q.preds.len() && j != i ==> !compares(
                        #[trigger] q.preds[j],
                        "subject_id"@,
                    )
        }),
{
    let q = select_model(cat, scope, false, t, proj, path)->0;
    let sp = scope_preds(cat, scope, false, t);
    let r = root_preds(t, scope);
    lemma_fk_closure(cat, scope, false, t, proj, path);
    assert(sp =~= r);
    let el = eligible(table_of(cat, t).edges, path.push(t));
    reveal_strlit("study_id");
    reveal_strlit("area_id");
    reveal_strlit("lifecycle_id");
    reveal_strlit("subject_id");
    reveal_strlit("job_id");
    assert("study_id"@[1] != "subject_id"@[1]);
    assert("area_id"@[0] != "subject_id"@[0]);
    assert("lifecycle_id"@[0] != "subject_id"@[0]);
    assert("job_id"@[0] != "subject_id"@[0]);
    assert forall|i: int| r.len() <= i < q.preds.len() implies !compares(
        #[trigger] q.preds[i],
        "subject_id"@,
    ) by {
        assert(q.preds[sp.len() + (i - sp.len())] == edge_pred(cat, scope, false, el[i - sp.len()], path.push(t)));
    }
    match scope.subject {
        None => {
            assert forall|i: int| 0 <= i < q.preds.len() implies !compares(
                #[trigger] q.preds[i],
                "subject_id"@,
            ) by {
                if i < r.len() {
                    assert(q.preds[i] == q.preds.take(sp.len() as int)[i]);
                }
            }
        },
        Some(x) => {
            assert(q.preds[3] == q.preds.take(sp.len() as int)[3]);
            assert(q.preds[3] == Pred::Eq("subject_id"@, x));
            assert forall|j: int| 0 <= j < q.preds.len() && j != 3 implies !compares(
                #[trigger] q.preds[j],
                "subject_id"@,
            ) by {
                if j < r.len() {
                    assert(q.preds[j] == q.preds.take(sp.len() as int)[j]);
                }
            }
        },
    }
}

} // verus!
