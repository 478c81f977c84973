//! Table-group orchestration: for each configured table of a category, the
//! SELECT statement to run, and from the fetched rows the category's
//! script, which holds the non-empty INSERT statements separated by a
//! blank line.
use vstd::prelude::*;

use crate::config::{partition_name, Config, ScopeView};
use crate::custom_error::{CustomError, CustomResult};
use crate::insert::{
    generate_insert_query, generate_plain_insert_query, join, mysql_insert_text, plain_insert_text, rows_aligned, named_rows_aligned, rows_are_aligned, named_rows_are_aligned, views,
    ColumnValue, NamedValue, all_literals,
};
use crate::providers::{
    category_query, BatchTableQueryProvider, DoubleStagedTableQueryProvider,
};
use crate::redshift::{redshift_select_text, RedshiftTableQueryProvider};
use crate::schema::Catalog;
use crate::select::render_query;
use crate::text::{push_char, push_str};

verus! {

/// The statements of a script: those that are not empty.
pub open spec fn non_empty(stmts: Seq<Seq<char>>) -> Seq<Seq<char>>
    decreases stmts.len(),
{
    if stmts.len() == 0 {
        seq![]
    } else if stmts.last().len() == 0 {
        non_empty(stmts.drop_last())
    } else {
        non_empty(stmts.drop_last()).push(stmts.last())
    }
}

/// The script of a category: `None` when no statement has text.
pub open spec fn script_of(stmts: Seq<Seq<char>>) -> Option<Seq<char>> {
    if non_empty(stmts).len() == 0 {
        None
    } else {
        Some(join(non_empty(stmts), "\n\n"@))
    }
}

/// Joins the non-empty statements with a blank line between them.
pub fn assemble_script(stmts: &Vec<String>) -> (r: Option<String>)
    ensures
        r matches Some(s) ==> script_of(views(stmts@)) == Some(s@),
        r is None ==> script_of(views(stmts@)) is None,
{
    let mut out = String::new();
    let mut count: usize = 0;
    let mut i: usize = 0;
    while i < stmts.len()
        invariant
            i <= stmts.len(),
            count <= i,
            count == non_empty(views(stmts@).take(i as int)).len(),
            out@ == join(non_empty(views(stmts@).take(i as int)), "\n\n"@),
        decreases stmts.len() - i,
    {
        proof {
            assert(views(stmts@).take(i + 1).drop_last() =~= views(stmts@).take(i as int));
        }
        if !stmts[i].as_str().is_empty() {
            proof {
                assert(stmts@[i as int]@.len() > 0);
            }
            if count > 0 {
                push_str(&mut out, "\n\n");
            } else {
                assert(non_empty(views(stmts@).take(i as int)) =~= Seq::<Seq<char>>::empty());
            }
            push_str(&mut out, stmts[i].as_str());
            let ghost prev = non_empty(views(stmts@).take(i as int));
            proof {
                assert(prev.push(stmts@[i as int]@).drop_last() =~= prev);
            }
            count = count + 1;
        } else {
            proof {
                assert(stmts@[i as int]@.len() == 0);
            }
        }
        i = i + 1;
    }
    assert(views(stmts@).take(stmts.len() as int) =~= views(stmts@));
    if count == 0 {
        None
    } else {
        Some(out)
    }
}

/// The SELECT statements of the tables, each ending in `;`.
pub open spec fn terminated(q: Seq<char>) -> Seq<char> {
    q + seq![';']
}

/// The flat batch tables of the configuration.
pub struct BatchTablesQueryGenerator<'config> {
    pub config: &'config Config,
}

impl<'config> BatchTablesQueryGenerator<'config> {
    /// The statement to run for each configured batch table, in order.
    pub fn select_queries(&self, catalog: &Catalog) -> (r: CustomResult<Vec<String>>)
        requires
            catalog.wf(),
        ensures
            r is Ok <==> forall|i: int|
                0 <= i < self.config.tables.batch_tables.len() ==> (#[trigger] category_query(
                    *self.config,
                    catalog@,
                    false,
                    self.config.tables.batch_tables[i]@,
                    None,
                )) is Some,
            r matches Ok(v) ==> v.len() == self.config.tables.batch_tables.len() && forall|i: int|
                0 <= i < v.len() ==> (#[trigger] v[i])@ == terminated(
                    render_query(
                        category_query(
                            *self.config,
                            catalog@,
                            false,
                            self.config.tables.batch_tables[i]@,
                            None,
                        )->0,
                    ),
                ),
            r matches Err(e) ==> e is DbTableStructure,
    {
        let tables = &self.config.tables.batch_tables;
        let provider = BatchTableQueryProvider { config: self.config };
        let mut out: Vec<String> = Vec::new();
        let mut i: usize = 0;
        while i < tables.len()
            invariant
                catalog.wf(),
                provider.config == self.config,
                tables == &self.config.tables.batch_tables,
                i <= tables.len(),
                out.len() == i,
                forall|j: int|
                    0 <= j < i ==> (#[trigger] category_query(
                        *self.config,
                        catalog@,
                        false,
                        tables[j]@,
                        None,
                    )) is Some,
                forall|j: int|
                    0 <= j < i ==> (#[trigger] out[j])@ == terminated(
                        render_query(
                            category_query(*self.config, catalog@, false, tables[j]@, None)->0,
                        ),
                    ),
            decreases tables.len() - i,
        {
            match provider.get_select_query(catalog, &tables[i], None) {
                Ok(q) => {
                    let mut q = q;
                    push_char(&mut q, ';');
                    out.push(q);
                },
                Err(e) => {
                    return Err(e);
                },
            }
            i = i + 1;
        }
        Ok(out)
    }

    pub open spec fn insert_script_ok(&self, data: Seq<Vec<Vec<ColumnValue>>>) -> bool {
        table_rows_ok(data, self.config.tables.batch_tables@.len())
    }

    /// The script from the rows fetched for each batch table, in order.
    pub fn insert_script(&self, data: &Vec<Vec<Vec<ColumnValue>>>) -> (r: CustomResult<
        Option<String>,
    >)
        ensures
            r is Ok <==> table_rows_ok(data@, self.config.tables.batch_tables@.len()),
            r matches Ok(s) ==> opt_view(s) == script_of(
                mysql_statements(data@, views(self.config.tables.batch_tables@)),
            ),
            r matches Err(e) ==> e is DbTableStructure,
    {
        mysql_script(data, &self.config.tables.batch_tables)
    }
}

pub open spec fn opt_view(o: Option<String>) -> Option<Seq<char>> {
    match o {
        Some(s) => Some(s@),
        None => None,
    }
}

/// Rows for every table, each table's rows aligned on the first row's
/// columns and all with a literal form.
pub open spec fn table_rows_ok(data: Seq<Vec<Vec<ColumnValue>>>, n: nat) -> bool {
    &&& data.len() == n
    &&& forall|i: int|
        0 <= i < data.len() ==> rows_aligned((#[trigger] data[i])@) && (data[i]@.len() == 0
            || data[i]@[0].len() == 0 || all_literals(data[i]@))
}

/// The physical names of partitioned tables given by base name.
pub open spec fn partition_names(bases: Seq<String>, scope: ScopeView) -> Seq<Seq<char>> {
    Seq::new(bases.len(), |i: int| partition_name(bases[i]@, scope))
}

pub open spec fn mysql_statements(data: Seq<Vec<Vec<ColumnValue>>>, tables: Seq<Seq<char>>) -> Seq<
    Seq<char>,
> {
    Seq::new(data.len(), |i: int| mysql_insert_text(data[i]@, tables[i]))
}

/// The script of the catalog-driven engine for rows fetched per table.
pub fn mysql_script(data: &Vec<Vec<Vec<ColumnValue>>>, tables: &Vec<String>) -> (r: CustomResult<
    Option<String>,
>)
    ensures
        r is Ok <==> table_rows_ok(data@, tables.len() as nat),
        r matches Ok(s) ==> opt_view(s) == script_of(mysql_statements(data@, views(tables@))),
        r matches Err(e) ==> e is DbTableStructure,
{
    if data.len() != tables.len() {
        return Err(CustomError::DbTableStructure);
    }
    let mut stmts: Vec<String> = Vec::new();
    let mut i: usize = 0;
    while i < data.len()
        invariant
            data.len() == tables.len(),
            i <= data.len(),
            views(stmts@) == mysql_statements(data@, views(tables@)).take(i as int),
            forall|j: int|
                0 <= j < i ==> rows_aligned((#[trigger] data@[j])@) && (data@[j]@.len() == 0
                    || data@[j]@[0].len() == 0 || all_literals(data@[j]@)),
        decreases data.len() - i,
    {
        if !rows_are_aligned(&data[i]) {
            return Err(CustomError::DbTableStructure);
        }
        let stmt = generate_insert_query(&data[i], &tables[i])?;
        let ghost before = views(stmts@);
        stmts.push(stmt);
        proof {
            assert(views(stmts@) =~= before.push(stmt@));
            assert(mysql_statements(data@, views(tables@)).take(i + 1) =~= mysql_statements(
                data@,
                views(tables@),
            ).take(i as int).push(stmt@));
        }
        i = i + 1;
    }
    assert(mysql_statements(data@, views(tables@)).take(data.len() as int) =~= mysql_statements(
        data@,
        views(tables@),
    ));
    Ok(assemble_script(&stmts))
}

/// Tables partitioned by lifecycle and area, by configured base name.
pub struct DoubleStagedTablesQueryGenerator<'config> {
    pub config: &'config Config,
}

impl<'config> DoubleStagedTablesQueryGenerator<'config> {
    /// The physical names of the configured partitioned tables, in order.
    pub fn table_names(&self) -> (r: Vec<String>)
        ensures
            r.len() == self.config.tables.double_partitioned_tables.len(),
            forall|i: int|
                0 <= i < r.len() ==> (#[trigger] r[i])@ == partition_name(
                    self.config.tables.double_partitioned_tables[i]@,
                    self.config.business@,
                ),
    {
        let prefixes = &self.config.tables.double_partitioned_tables;
        let provider = DoubleStagedTableQueryProvider { config: self.config };
        let mut out: Vec<String> = Vec::new();
        let mut i: usize = 0;
        while i < prefixes.len()
            invariant
                provider.config == self.config,
                prefixes == &self.config.tables.double_partitioned_tables,
                i <= prefixes.len(),
                out.len() == i,
                forall|j: int|
                    0 <= j < i ==> (#[trigger] out[j])@ == partition_name(
                        prefixes[j]@,
                        self.config.business@,
                    ),
            decreases prefixes.len() - i,
        {
            out.push(provider.get_table_name(&prefixes[i]));
            i = i + 1;
        }
        out
    }

    /// The statement to run for each configured partitioned table, in order.
    pub fn select_queries(&self, catalog: &Catalog) -> (r: CustomResult<Vec<String>>)
        requires
            catalog.wf(),
        ensures
            r is Ok <==> forall|i: int|
                0 <= i < self.config.tables.double_partitioned_tables.len() ==> (#[trigger] category_query(
                    *self.config,
                    catalog@,
                    true,
                    partition_name(self.config.tables.double_partitioned_tables[i]@, self.config.business@),
                    None,
                )) is Some,
            r matches Ok(v) ==> v.len() == self.config.tables.double_partitioned_tables.len() && forall|i: int|
                0 <= i < v.len() ==> (#[trigger] v[i])@ == terminated(
                    render_query(
                        category_query(
                            *self.config,
                            catalog@,
                            true,
                            partition_name(self.config.tables.double_partitioned_tables[i]@, self.config.business@),
                            None,
                        )->0,
                    ),
                ),
            r matches Err(e) ==> e is DbTableStructure,
    {
        let tables = &self.config.tables.double_partitioned_tables;
        let provider = DoubleStagedTableQueryProvider { config: self.config };
        let mut out: Vec<String> = Vec::new();
        let mut i: usize = 0;
        while i < tables.len()
            invariant
                catalog.wf(),
                provider.config == self.config,
                tables == &self.config.tables.double_partitioned_tables,
                i <= tables.len(),
                out.len() == i,
                forall|j: int|
                    0 <= j < i ==> (#[trigger] category_query(
                        *self.config,
                        catalog@,
                        true,
                        partition_name(tables[j]@, self.config.business@),
                        None,
                    )) is Some,
                forall|j: int|
                    0 <= j < i ==> (#[trigger] out[j])@ == terminated(
                        render_query(
                            category_query(
                                *self.config,
                                catalog@,
                                true,
                                partition_name(tables[j]@, self.config.business@),
                                None,
                            )->0,
                        ),
                    ),
            decreases tables.len() - i,
        {
            match provider.get_select_query(catalog, &tables[i], None) {
                Ok(q) => {
                    let mut q = q;
                    push_char(&mut q, ';');
                    out.push(q);
                },
                Err(e) => {
                    return Err(e);
                },
            }
            i = i + 1;
        }
        Ok(out)
    }

    pub open spec fn insert_script_ok(&self, data: Seq<Vec<Vec<ColumnValue>>>) -> bool {
        table_rows_ok(data, self.config.tables.double_partitioned_tables@.len())
    }

    /// The script from the rows fetched for each partitioned table, in order.
    pub fn insert_script(&self, data: &Vec<Vec<Vec<ColumnValue>>>) -> (r: CustomResult<
        Option<String>,
    >)
        ensures
            r is Ok <==> table_rows_ok(data@, self.config.tables.double_partitioned_tables@.len()),
            r matches Ok(s) ==> opt_view(s) == script_of(
                mysql_statements(
                    data@,
                    partition_names(
                        self.config.tables.double_partitioned_tables@,
                        self.config.business@,
                    ),
                ),
            ),
            r matches Err(e) ==> e is DbTableStructure,
    {
        let names = self.table_names();
        assert(views(names@) =~= partition_names(
            self.config.tables.double_partitioned_tables@,
            self.config.business@,
        ));
        mysql_script(data, &names)
    }
}

/// The configured Redshift tables.
pub struct RedshiftTablesQueryGenerator<'config> {
    pub config: &'config Config,
}

pub open spec fn plain_statements(data: Seq<Vec<Vec<NamedValue>>>, tables: Seq<String>) -> Seq<
    Seq<char>,
> {
    Seq::new(data.len(), |i: int| plain_insert_text(data[i]@, tables[i]@))
}

impl<'config> RedshiftTablesQueryGenerator<'config> {
    /// The statement to run for each configured Redshift table, in order.
    pub fn select_queries(&self) -> (r: Vec<String>)
        ensures
            r.len() == self.config.tables.redshift_tables.len(),
            forall|i: int|
                0 <= i < r.len() ==> (#[trigger] r[i])@ == terminated(
                    redshift_select_text(
                        self.config.business@,
                        self.config.tables.redshift_tables[i]@,
                    ),
                ),
    {
        let tables = &self.config.tables.redshift_tables;
        let provider = RedshiftTableQueryProvider { config: self.config };
        let mut out: Vec<String> = Vec::new();
        let mut i: usize = 0;
        while i < tables.len()
            invariant
                provider.config == self.config,
                tables == &self.config.tables.redshift_tables,
                i <= tables.len(),
                out.len() == i,
                forall|j: int|
                    0 <= j < i ==> (#[trigger] out[j])@ == terminated(
                        redshift_select_text(self.config.business@, tables[j]@),
                    ),
            decreases tables.len() - i,
        {
            let mut q = provider.select_text(&tables[i]);
            push_char(&mut q, ';');
            out.push(q);
            i = i + 1;
        }
        out
    }

    /// The script from the rows fetched for each Redshift table, in order;
    /// `None` when the rows do not match the configured tables.
    pub fn generate(&self, data: &Vec<Vec<Vec<NamedValue>>>) -> (r: Option<String>)
        ensures
            (data.len() == self.config.tables.redshift_tables.len() && forall|i: int|
                0 <= i < data.len() ==> named_rows_aligned((#[trigger] data[i])@)) ==> opt_view(r)
                == script_of(plain_statements(data@, self.config.tables.redshift_tables@)),
            !(data.len() == self.config.tables.redshift_tables.len() && forall|i: int|
                0 <= i < data.len() ==> named_rows_aligned((#[trigger] data[i])@)) ==> r is None,
    {
        let tables = &self.config.tables.redshift_tables;
        if data.len() != tables.len() {
            return None;
        }
        let mut stmts: Vec<String> = Vec::new();
        let mut i: usize = 0;
        while i < data.len()
            invariant
                tables == &self.config.tables.redshift_tables,
                data.len() == tables.len(),
                i <= data.len(),
                views(stmts@) == plain_statements(data@, tables@).take(i as int),
                forall|j: int| 0 <= j < i ==> named_rows_aligned((#[trigger] data@[j])@),
            decreases data.len() - i,
        {
            if !named_rows_are_aligned(&data[i]) {
                return None;
            }
            let stmt = generate_plain_insert_query(&data[i], &tables[i]);
            let ghost before = views(stmts@);
            stmts.push(stmt);
            proof {
                assert(views(stmts@) =~= before.push(stmt@));
                assert(plain_statements(data@, tables@).take(i + 1) =~= plain_statements(
                    data@,
                    tables@,
                ).take(i as int).push(stmt@));
            }
            i = i + 1;
        }
        assert(plain_statements(data@, tables@).take(data.len() as int) =~= plain_statements(
            data@,
            tables@,
        ));
        assemble_script(&stmts)
    }
}

/// A table category whose script comes from the rows fetched per table.
pub trait TablesInsertQueryGeneratorTrait {
    /// The category's script for `data`, the rows fetched per configured
    /// table; `None` when the rows do not fit the configured tables.
    spec fn script_model(&self, data: Seq<Vec<Vec<ColumnValue>>>) -> Option<Option<Seq<char>>>;

    /// The script, or the first error met while building it.
    fn generate(&self, data: &Vec<Vec<Vec<ColumnValue>>>) -> (r: CustomResult<Option<String>>)
        ensures
            r is Ok <==> self.script_model(data@) is Some,
            r matches Ok(s) ==> opt_view(s) == self.script_model(data@)->0,
            r matches Err(e) ==> e is DbTableStructure,
    ;
}

impl<'config> TablesInsertQueryGeneratorTrait for BatchTablesQueryGenerator<'config> {
    open spec fn script_model(&self, data: Seq<Vec<Vec<ColumnValue>>>) -> Option<Option<Seq<char>>> {
        if table_rows_ok(data, self.config.tables.batch_tables@.len()) {
            Some(script_of(mysql_statements(data, views(self.config.tables.batch_tables@))))
        } else {
            None
        }
    }

    fn generate(&self, data: &Vec<Vec<Vec<ColumnValue>>>) -> (r: CustomResult<Option<String>>) {
        self.insert_script(data)
    }
}

impl<'config> TablesInsertQueryGeneratorTrait for DoubleStagedTablesQueryGenerator<'config> {
    open spec fn script_model(&self, data: Seq<Vec<Vec<ColumnValue>>>) -> Option<Option<Seq<char>>> {
        if table_rows_ok(data, self.config.tables.double_partitioned_tables@.len()) {
            Some(
                script_of(
                    mysql_statements(
                        data,
                        partition_names(
                            self.config.tables.double_partitioned_tables@,
                            self.config.business@,
                        ),
                    ),
                ),
            )
        } else {
            None
        }
    }

    fn generate(&self, data: &Vec<Vec<Vec<ColumnValue>>>) -> (r: CustomResult<Option<String>>) {
        self.insert_script(data)
    }
}

} // verus!
