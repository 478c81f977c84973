//! SELECT statement providers, one per table category of the catalog-driven
//! engine: flat batch tables and tables partitioned by lifecycle and area.
use vstd::prelude::*;

use crate::config::{partition_name, Config};
use crate::custom_error::CustomError;
use crate::schema::Catalog;
use crate::select::{build_select, render_query, root_preds, select_model, Query};
use crate::text::push_str;

verus! {

/// The projection: the requested column, or `*`.
pub open spec fn projection(select_column: Option<String>) -> Seq<char> {
    match select_column {
        Some(c) => c@,
        None => "*"@,
    }
}

pub fn get_select_column(select_column: Option<String>) -> (r: String)
    ensures
        r@ == projection(select_column),
{
    match select_column {
        Some(column) => column,
        None => String::from_str("*"),
    }
}

/// The statement for `table` of the given category, built from the root.
pub open spec fn category_query(
    config: Config,
    cat: Seq<crate::schema::TableView>,
    partitioned: bool,
    table: Seq<char>,
    select_column: Option<String>,
) -> Option<Query> {
    select_model(cat, config.business@, partitioned, table, projection(select_column), seq![])
}

fn build_root(
    config: &Config,
    catalog: &Catalog,
    partitioned: bool,
    table: &String,
    select_column: Option<String>,
) -> (r: Result<String, CustomError>)
    requires
        catalog.wf(),
    ensures
        r is Ok <==> category_query(*config, catalog@, partitioned, table@, select_column) is Some,
        r matches Ok(s) ==> s@ == render_query(
            category_query(*config, catalog@, partitioned, table@, select_column)->0,
        ),
        r matches Err(e) ==> e is DbTableStructure,
{
    let proj = get_select_column(select_column);
    let mut path: Vec<String> = Vec::new();
    proof {
        assert(crate::select::names(path@) =~= Seq::<Seq<char>>::empty());
    }
    build_select(&config.business, catalog, partitioned, table, &proj, &mut path)
}

/// Flat batch tables, selected by name.
pub struct BatchTableQueryProvider<'config> {
    pub config: &'config Config,
}

impl<'config> BatchTableQueryProvider<'config> {
    /// The statement for a flat table: the business scope on the run table,
    /// and one `IN` subquery per foreign-key edge.
    pub fn get_select_query(
        &self,
        catalog: &Catalog,
        table: &String,
        select_column: Option<String>,
    ) -> (r: Result<String, CustomError>)
        requires
            catalog.wf(),
        ensures
            r is Ok <==> category_query(*self.config, catalog@, false, table@, select_column) is Some,
            r matches Ok(s) ==> s@ == render_query(
                category_query(*self.config, catalog@, false, table@, select_column)->0,
            ),
            r matches Err(e) ==> e is DbTableStructure,
    {
        build_root(self.config, catalog, false, table, select_column)
    }
}

/// The same statements for flat tables, for the select-only path.
pub struct BatchTableSelectQueryProvider<'config> {
    pub config: &'config Config,
}

impl<'config> BatchTableSelectQueryProvider<'config> {
    pub fn get_select_query(
        &self,
        catalog: &Catalog,
        table: &String,
        select_column: Option<String>,
    ) -> (r: Result<String, CustomError>)
        requires
            catalog.wf(),
        ensures
            r is Ok <==> category_query(*self.config, catalog@, false, table@, select_column) is Some,
            r matches Ok(s) ==> s@ == render_query(
                category_query(*self.config, catalog@, false, table@, select_column)->0,
            ),
            r matches Err(e) ==> e is DbTableStructure,
    {
        build_root(self.config, catalog, false, table, select_column)
    }
}

/// Tables partitioned by lifecycle and area: `<base>_<lifecycle>_<area>`.
pub struct DoubleStagedTableQueryProvider<'config> {
    pub config: &'config Config,
}

impl<'config> DoubleStagedTableQueryProvider<'config> {
    pub fn get_table_name(&self, table: &String) -> (r: String)
        ensures
            r@ == partition_name(table@, self.config.business@),
    {
        self.config.business.partition_table_name(table)
    }

    /// The statement for the partition of `table_prefix`: narrowed by the
    /// scope columns the table has, and one `IN` subquery per foreign-key edge.
    pub fn get_select_query(
        &self,
        catalog: &Catalog,
        table_prefix: &String,
        select_column: Option<String>,
    ) -> (r: Result<String, CustomError>)
        requires
            catalog.wf(),
        ensures
            r is Ok <==> category_query(
                *self.config,
                catalog@,
                true,
                partition_name(table_prefix@, self.config.business@),
                select_column,
            ) is Some,
            r matches Ok(s) ==> s@ == render_query(
                category_query(
                    *self.config,
                    catalog@,
                    true,
                    partition_name(table_prefix@, self.config.business@),
                    select_column,
                )->0,
            ),
            r matches Err(e) ==> e is DbTableStructure,
    {
        let table = self.get_table_name(table_prefix);
        build_root(self.config, catalog, true, &table, select_column)
    }
}

/// The same statements for partitioned tables, for the select-only path.
pub struct DoubleStagedTableSelectQueryProvider<'config> {
    pub config: &'config Config,
}

impl<'config> DoubleStagedTableSelectQueryProvider<'config> {
    pub fn get_table_name(&self, table: &String) -> (r: String)
        ensures
            r@ == partition_name(table@, self.config.business@),
    {
        self.config.business.partition_table_name(table)
    }

    pub fn get_select_query(
        &self,
        catalog: &Catalog,
        table_prefix: &String,
        select_column: Option<String>,
    ) -> (r: Result<String, CustomError>)
        requires
            catalog.wf(),
        ensures
            r is Ok <==> category_query(
                *self.config,
                catalog@,
                true,
                partition_name(table_prefix@, self.config.business@),
                select_column,
            ) is Some,
            r matches Ok(s) ==> s@ == render_query(
                category_query(
                    *self.config,
                    catalog@,
                    true,
                    partition_name(table_prefix@, self.config.business@),
                    select_column,
                )->0,
            ),
            r matches Err(e) ==> e is DbTableStructure,
    {
        let table = self.get_table_name(table_prefix);
        build_root(self.config, catalog, true, &table, select_column)
    }
}

/// Statements that need no catalog: the scope on the run table, every
/// other table whole.
pub struct SimpleTableSelectQueryProvider<'config> {
    pub config: &'config Config,
}

pub open spec fn simple_select_text(config: Config, table: Seq<char>) -> Seq<char> {
    if table == "cb_batch_runs"@ {
        render_query(Query { proj: "*"@, table, preds: root_preds(table, config.business@) })
            + ";\n\n"@
    } else {
        render_query(Query { proj: "*"@, table, preds: seq![] })
    }
}

impl<'config> SimpleTableSelectQueryProvider<'config> {
    pub fn new(config: &'config Config) -> (r: SimpleTableSelectQueryProvider<'config>)
        ensures
            r.config == config,
    {
        SimpleTableSelectQueryProvider { config }
    }

    pub fn get_select_query(&self, table: &String) -> (r: String)
        ensures
            r@ == simple_select_text(*self.config, table@),
    {
        let star = String::from_str("*");
        let mut query = String::new();
        push_str(&mut query, "SELECT ");
        push_str(&mut query, star.as_str());
        push_str(&mut query, " FROM ");
        push_str(&mut query, table.as_str());
        let run = String::from_str("cb_batch_runs");
        if *table == run {
            crate::select::push_root_preds(&mut query, &self.config.business, table);
            push_str(&mut query, ";\n\n");
            assert(query@ =~= simple_select_text(*self.config, table@));
        } else {
            assert(query@ =~= simple_select_text(*self.config, table@));
        }
        query
    }
}

} // verus!
