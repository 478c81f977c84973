//! What a finished run hands to its sink: the scripts per category, the
//! files they go to, and the statement sequence that loads them into a
//! target database with foreign-key checks switched off.
use vstd::prelude::*;

use crate::config::Config;
use crate::custom_error::CustomResult;
use crate::generators::{
    mysql_statements, opt_view, partition_names, script_of, BatchTablesQueryGenerator,
    DoubleStagedTablesQueryGenerator,
};
use crate::insert::{views, ColumnValue};
use crate::text::{push_char, push_str};

verus! {

/// The script of each table category; `None` where it produced nothing.
#[derive(Debug, Clone)]
pub struct InsertQueries {
    pub batch_tables: Option<String>,
    pub double_staged_tables: Option<String>,
    pub triple_staged_tables: Option<String>,
    pub redshift_tables: Option<String>,
}

/// A file to write: where, and what.
#[derive(Debug, Clone)]
pub struct OutputFile {
    pub path: String,
    pub content: String,
}

pub open spec fn file_entry(folder: Seq<char>, name: Seq<char>, content: Option<String>) -> Seq<
    (Seq<char>, Seq<char>),
> {
    match content {
        Some(c) => seq![(folder + seq!['/'] + name, c@)],
        None => seq![],
    }
}

/// One file per category that has a script, named after the category.
pub open spec fn output_plan(data: InsertQueries, folder: Seq<char>) -> Seq<(Seq<char>, Seq<char>)> {
    file_entry(folder, "batch_tables.sql"@, data.batch_tables) + file_entry(
        folder,
        "double_staged_tables.sql"@,
        data.double_staged_tables,
    ) + file_entry(folder, "triple_staged_tables.sql"@, data.triple_staged_tables) + file_entry(
        folder,
        "redshift_tables.sql"@,
        data.redshift_tables,
    )
}

pub open spec fn file_views(v: Seq<OutputFile>) -> Seq<(Seq<char>, Seq<char>)> {
    v.map_values(|f: OutputFile| (f.path@, f.content@))
}

fn push_file(out: &mut Vec<OutputFile>, folder: &String, name: &str, content: &Option<String>)
    ensures
        file_views(final(out)@) == file_views(old(out)@) + file_entry(folder@, name@, *content),
{
    match content {
        Some(c) => {
            let mut path = folder.clone();
            push_char(&mut path, '/');
            push_str(&mut path, name);
            let ghost before = file_views(out@);
            let f = OutputFile { path, content: c.clone() };
            out.push(f);
            proof {
                assert(f.path@ =~= folder@ + seq!['/'] + name@);
                assert(file_views(out@) =~= before.push((f.path@, f.content@)));
                assert(file_views(out@) =~= before + file_entry(folder@, name@, *content));
            }
        },
        None => {
            assert(file_views(out@) =~= file_views(out@) + file_entry(folder@, name@, *content));
        },
    }
}

/// The files for the scripts of `data` inside `folder`.
pub fn output_files(data: &InsertQueries, folder: &String) -> (r: Vec<OutputFile>)
    ensures
        file_views(r@) == output_plan(*data, folder@),
{
    let mut out: Vec<OutputFile> = Vec::new();
    push_file(&mut out, folder, "batch_tables.sql", &data.batch_tables);
    push_file(&mut out, folder, "double_staged_tables.sql", &data.double_staged_tables);
    push_file(&mut out, folder, "triple_staged_tables.sql", &data.triple_staged_tables);
    push_file(&mut out, folder, "redshift_tables.sql", &data.redshift_tables);
    assert(file_views(out@) =~= output_plan(*data, folder@));
    out
}

pub open spec fn opt_stmt(s: Option<String>) -> Seq<Seq<char>> {
    match s {
        Some(t) => seq![t@],
        None => seq![],
    }
}

/// Checks off, the scripts of the catalog-driven categories, checks on.
pub open spec fn load_plan(data: InsertQueries) -> Seq<Seq<char>> {
    seq!["SET FOREIGN_KEY_CHECKS = 0"@] + opt_stmt(data.batch_tables) + opt_stmt(
        data.double_staged_tables,
    ) + opt_stmt(data.triple_staged_tables) + seq!["SET FOREIGN_KEY_CHECKS = 1"@]
}

pub open spec fn stmt_views(v: Seq<String>) -> Seq<Seq<char>> {
    v.map_values(|s: String| s@)
}

fn push_opt(out: &mut Vec<String>, s: &Option<String>)
    ensures
        stmt_views(final(out)@) == stmt_views(old(out)@) + opt_stmt(*s),
{
    let ghost before = stmt_views(out@);
    match s {
        Some(t) => {
            out.push(t.clone());
            assert(stmt_views(out@) =~= before + opt_stmt(*s));
        },
        None => {
            assert(stmt_views(out@) =~= before + opt_stmt(*s));
        },
    }
}

/// Saves the scripts of the catalog-driven engine.
pub struct DataSaver<'config> {
    pub config: &'config Config,
}

impl<'config> DataSaver<'config> {
    /// The statements that load `data` into a target database, in order.
    pub fn get_db_statements(&self, data: &InsertQueries) -> (r: Vec<String>)
        ensures
            stmt_views(r@) == load_plan(*data),
    {
        let mut out: Vec<String> = Vec::new();
        let off = String::from_str("SET FOREIGN_KEY_CHECKS = 0");
        out.push(off);
        assert(stmt_views(out@) =~= seq![off@]);
        push_opt(&mut out, &data.batch_tables);
        push_opt(&mut out, &data.double_staged_tables);
        push_opt(&mut out, &data.triple_staged_tables);
        let ghost before = stmt_views(out@);
        let on = String::from_str("SET FOREIGN_KEY_CHECKS = 1");
        out.push(on);
        assert(stmt_views(out@) =~= before.push(on@));
        assert(stmt_views(out@) =~= load_plan(*data));
        out
    }

    /// The files for `data` in the configured output folder.
    pub fn get_output_files(&self, data: &InsertQueries) -> (r: Vec<OutputFile>)
        ensures
            file_views(r@) == output_plan(*data, self.config.target_path.path@),
    {
        output_files(data, &self.config.target_path.path)
    }
}

/// The scripts of the catalog-driven engine, per category.
pub struct InsertQueryGenerator<'config> {
    pub config: &'config Config,
}

impl<'config> InsertQueryGenerator<'config> {
    /// The batch and partitioned scripts from their fetched rows.
    pub fn generate(
        &self,
        batch_data: &Vec<Vec<Vec<ColumnValue>>>,
        double_staged_data: &Vec<Vec<Vec<ColumnValue>>>,
    ) -> (r: CustomResult<InsertQueries>)
        ensures
            r is Ok <==> (BatchTablesQueryGenerator { config: self.config }).insert_script_ok(
                batch_data@,
            ) && (DoubleStagedTablesQueryGenerator { config: self.config }).insert_script_ok(
                double_staged_data@,
            ),
            r matches Ok(q) ==> opt_view(q.batch_tables) == script_of(
                mysql_statements(batch_data@, views(self.config.tables.batch_tables@)),
            ),
            r matches Ok(q) ==> opt_view(q.double_staged_tables) == script_of(
                mysql_statements(
                    double_staged_data@,
                    partition_names(
                        self.config.tables.double_partitioned_tables@,
                        self.config.business@,
                    ),
                ),
            ),
            r matches Ok(q) ==> q.triple_staged_tables is None && q.redshift_tables is None,
            r matches Err(e) ==> e is DbTableStructure,
    {
        let batch = BatchTablesQueryGenerator { config: self.config };
        let batch_tables = batch.insert_script(batch_data)?;
        let double = DoubleStagedTablesQueryGenerator { config: self.config };
        let double_staged_tables = double.insert_script(double_staged_data)?;
        Ok(
            InsertQueries {
                batch_tables,
                double_staged_tables,
                triple_staged_tables: None,
                redshift_tables: None,
            },
        )
    }
}

} // verus!
