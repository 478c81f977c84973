//! The type-code (Redshift) engine: its SELECT statements, the dispatch of
//! a column's numeric type code to a value kind, the literal text of each
//! kind, and its INSERT statements, whose column names stay unquoted.
use vstd::prelude::*;

use crate::config::{url_text, connection_url, Config, DbConfig, ScopeView};
use crate::generators::{opt_view, plain_statements, script_of, RedshiftTablesQueryGenerator};
use crate::saver::{file_views, output_files, output_plan, InsertQueries, OutputFile};
use crate::custom_error::{CustomError, CustomResult};
use crate::insert::{generate_plain_insert_query, plain_insert_text, named_rows_aligned, NamedValue};
use crate::text::{int_decimal, nat_decimal, push_char, push_i64, push_str, push_u64};

verus! {

/// The connection URL of the Redshift database.
pub fn get_url(db_config: &DbConfig) -> (r: String)
    ensures
        r@ == url_text("redshift"@, *db_config),
{
    connection_url("redshift", db_config)
}

/// ` AND subject_id=<x>`, ` AND job_id=<j>` and ` LIMIT <n>`, each when set.
pub open spec fn scope_suffix(scope: ScopeView) -> Seq<char> {
    (match scope.subject {
        Some(x) => " AND subject_id="@ + int_decimal(x),
        None => seq![],
    }) + (match scope.job {
        Some(j) => " AND job_id="@ + int_decimal(j),
        None => seq![],
    }) + (match scope.limit {
        Some(n) => " LIMIT "@ + int_decimal(n),
        None => seq![],
    })
}

pub open spec fn records_trail_text(scope: ScopeView) -> Seq<char> {
    "SELECT * FROM records_trail_"@ + int_decimal(scope.lifecycle) + " WHERE study_id="@
        + int_decimal(scope.study) + " AND (parent_area_id="@ + int_decimal(scope.area)
        + " OR child_area_id="@ + int_decimal(scope.area) + seq![')'] + scope_suffix(scope)
}

pub open spec fn audit_text(scope: ScopeView) -> Seq<char> {
    "SELECT * FROM audit WHERE study_id="@ + int_decimal(scope.study) + " AND lifecycle_id="@
        + int_decimal(scope.lifecycle) + " AND area_id="@ + int_decimal(scope.area)
        + scope_suffix(scope)
}

/// The statement for a Redshift table: the scoped trail and audit tables,
/// every other table whole.
pub open spec fn redshift_select_text(scope: ScopeView, table: Seq<char>) -> Seq<char> {
    if table == "records_trail"@ {
        records_trail_text(scope)
    } else if table == "audit"@ {
        audit_text(scope)
    } else {
        "SELECT * FROM "@ + table
    }
}

fn push_scope_suffix(out: &mut String, config: &Config)
    ensures
        final(out)@ == old(out)@ + scope_suffix(config.business@),
{
    let ghost start = out@;
    if let Some(x) = config.business.subject_id {
        push_str(out, " AND subject_id=");
        push_i64(out, x);
    }
    if let Some(j) = config.business.job_id {
        push_str(out, " AND job_id=");
        push_i64(out, j);
    }
    if let Some(n) = config.business.limit {
        push_str(out, " LIMIT ");
        push_i64(out, n);
    }
    assert(out@ =~= start + scope_suffix(config.business@));
}

/// Provides the statements and INSERT text of Redshift tables.
pub struct RedshiftTableQueryProvider<'config> {
    pub config: &'config Config,
}

impl<'config> RedshiftTableQueryProvider<'config> {
    pub fn get_select_query(&self, table: &String, _select_column: Option<String>) -> (r: Result<
        String,
        CustomError,
    >)
        ensures
            r matches Ok(s) && s@ == redshift_select_text(self.config.business@, table@),
    {
        Ok(self.select_text(table))
    }

    /// The statement for `table`, without terminator.
    pub fn select_text(&self, table: &String) -> (r: String)
        ensures
            r@ == redshift_select_text(self.config.business@, table@),
    {
        let trail = String::from_str("records_trail");
        let audit = String::from_str("audit");
        if *table == trail {
            return self.get_records_trail_select();
        }
        if *table == audit {
            return self.get_audit_select();
        }
        let mut query = String::new();
        push_str(&mut query, "SELECT * FROM ");
        push_str(&mut query, table.as_str());
        query
    }

    fn get_records_trail_select(&self) -> (r: String)
        ensures
            r@ == records_trail_text(self.config.business@),
    {
        let b = &self.config.business;
        let mut query = String::new();
        push_str(&mut query, "SELECT * FROM records_trail_");
        push_i64(&mut query, b.lifecycle_id as i64);
        push_str(&mut query, " WHERE study_id=");
        push_i64(&mut query, b.study_id);
        push_str(&mut query, " AND (parent_area_id=");
        push_i64(&mut query, b.area_id as i64);
        push_str(&mut query, " OR child_area_id=");
        push_i64(&mut query, b.area_id as i64);
        push_char(&mut query, ')');
        push_scope_suffix(&mut query, self.config);
        assert(query@ =~= records_trail_text(self.config.business@));
        query
    }

    fn get_audit_select(&self) -> (r: String)
        ensures
            r@ == audit_text(self.config.business@),
    {
        let b = &self.config.business;
        let mut query = String::new();
        push_str(&mut query, "SELECT * FROM audit WHERE study_id=");
        push_i64(&mut query, b.study_id);
        push_str(&mut query, " AND lifecycle_id=");
        push_i64(&mut query, b.lifecycle_id as i64);
        push_str(&mut query, " AND area_id=");
        push_i64(&mut query, b.area_id as i64);
        push_scope_suffix(&mut query, self.config);
        assert(query@ =~= audit_text(self.config.business@));
        query
    }

    /// The INSERT statement for rows whose cells are already literal text;
    /// empty when there is no row.
    pub fn generate_insert_query(&self, data: &Vec<Vec<NamedValue>>, table: &String) -> (r: Result<
        String,
        CustomError,
    >)
        requires
            named_rows_aligned(data@),
        ensures
            r matches Ok(s) && s@ == plain_insert_text(data@, table@),
    {
        Ok(generate_plain_insert_query(data, table))
    }
}

/// How a column's value is read, by the column's type code.
#[derive(Debug, Clone, Copy, PartialEq, Eq)]
pub enum PgKind {
    Bool,
    Int2,
    Int4,
    Int8,
    Float4,
    Float8,
    Timestamp,
    TimestampTz,
    Other,
}

pub open spec fn kind_of_oid(oid: u32) -> PgKind {
    if oid == 16 {
        PgKind::Bool
    } else if oid == 20 {
        PgKind::Int8
    } else if oid == 21 {
        PgKind::Int2
    } else if oid == 23 {
        PgKind::Int4
    } else if oid == 700 {
        PgKind::Float4
    } else if oid == 701 {
        PgKind::Float8
    } else if oid == 1114 {
        PgKind::Timestamp
    } else if oid == 1184 {
        PgKind::TimestampTz
    } else {
        PgKind::Other
    }
}

/// The kind of a column with type code `oid`: boolean, 16/32/64-bit
/// integer, 32/64-bit float, naive or zoned timestamp, else text.
pub fn pg_value_kind(oid: u32) -> (r: PgKind)
    ensures
        r == kind_of_oid(oid),
{
    match oid {
        16 => PgKind::Bool,
        20 => PgKind::Int8,
        21 => PgKind::Int2,
        23 => PgKind::Int4,
        700 => PgKind::Float4,
        701 => PgKind::Float8,
        1114 => PgKind::Timestamp,
        1184 => PgKind::TimestampTz,
        _ => PgKind::Other,
    }
}

/// A calendar date and time of day; a leap second counts as second 60.
#[derive(Debug, Clone, Copy, PartialEq, Eq)]
pub struct Timestamp {
    pub year: i32,
    pub month: u8,
    pub day: u8,
    pub hour: u8,
    pub minute: u8,
    pub second: u8,
}

/// A value read from a column; floats arrive as their text.
#[derive(Debug, Clone)]
pub enum PgValue {
    Null,
    Bool(bool),
    Int(i64),
    Timestamp(Timestamp),
    Text(String),
}

/// The decimal digits of `n`, zero-padded on the left to `width`.
pub open spec fn padded(n: nat, width: nat) -> Seq<char> {
    let d = nat_decimal(n);
    if d.len() < width {
        Seq::new((width - d.len()) as nat, |i: int| '0') + d
    } else {
        d
    }
}

/// Years 0 to 9999 as four digits; others with their sign.
pub open spec fn year_text(y: int) -> Seq<char> {
    if 0 <= y <= 9999 {
        padded(y as nat, 4)
    } else if y < 0 {
        seq!['-'] + padded((-y) as nat, 4)
    } else {
        seq!['+'] + padded(y as nat, 4)
    }
}

/// `YYYY-MM-DD HH:MM:SS`
pub open spec fn timestamp_text(t: Timestamp) -> Seq<char> {
    year_text(t.year as int) + seq!['-'] + padded(t.month as nat, 2) + seq!['-'] + padded(
        t.day as nat,
        2,
    ) + seq![' '] + padded(t.hour as nat, 2) + seq![':'] + padded(t.minute as nat, 2) + seq![':']
        + padded(t.second as nat, 2)
}

pub open spec fn pg_value_text(v: PgValue) -> Seq<char> {
    match v {
        PgValue::Null => "NULL"@,
        PgValue::Bool(b) => if b {
            "true"@
        } else {
            "false"@
        },
        PgValue::Int(n) => int_decimal(n as int),
        PgValue::Timestamp(t) => timestamp_text(t),
        PgValue::Text(s) => s@,
    }
}

proof fn lemma_decimal_len(n: nat)
    ensures
        nat_decimal(n).len() >= 1,
        n < 10 ==> nat_decimal(n).len() == 1,
        10 <= n < 100 ==> nat_decimal(n).len() == 2,
        100 <= n < 1000 ==> nat_decimal(n).len() == 3,
        1000 <= n < 10000 ==> nat_decimal(n).len() == 4,
        n >= 10000 ==> nat_decimal(n).len() >= 5,
    decreases n,
{
    if n >= 10 {
        lemma_decimal_len(n / 10);
    }
}

/// Appends `n` zero-padded to `width` digits.
fn push_padded(out: &mut String, n: u64, width: u64)
    requires
        width <= 4,
    ensures
        final(out)@ == old(out)@ + padded(n as nat, width as nat),
{
    let ghost start = out@;
    proof {
        lemma_decimal_len(n as nat);
    }
    let digits: u64 = if n < 10 {
        1
    } else if n < 100 {
        2
    } else if n < 1000 {
        3
    } else if n < 10000 {
        4
    } else {
        5
    };
    let ghost d = nat_decimal(n as nat);
    let mut k: u64 = digits;
    while k < width
        invariant
            k >= digits,
            k == digits || (digits < width && k <= width),
            width <= 4,
            d == nat_decimal(n as nat),
            n < 10000 ==> d.len() == digits,
            n >= 10000 ==> d.len() >= 5 && digits == 5,
            out@ == start + Seq::new((k - digits) as nat, |i: int| '0'),
        decreases width - k,
    {
        push_char(out, '0');
        assert(out@ =~= start + Seq::new((k + 1 - digits) as nat, |i: int| '0'));
        k = k + 1;
    }
    push_u64(out, n);
    proof {
        if d.len() < width {
            assert(out@ =~= start + padded(n as nat, width as nat));
        } else {
            assert(Seq::new((k - digits) as nat, |i: int| '0') =~= Seq::<char>::empty());
            assert(out@ =~= start + padded(n as nat, width as nat));
        }
    }
}

fn push_year(out: &mut String, y: i32)
    ensures
        final(out)@ == old(out)@ + year_text(y as int),
{
    let ghost start = out@;
    if 0 <= y && y <= 9999 {
        push_padded(out, y as u64, 4);
    } else if y < 0 {
        push_char(out, '-');
        push_padded(out, (-(y as i64)) as u64, 4);
    } else {
        push_char(out, '+');
        push_padded(out, y as u64, 4);
    }
    assert(out@ =~= start + year_text(y as int));
}

/// Appends `<sep><two digits>`.
fn push_field(out: &mut String, sep: char, v: u8)
    ensures
        final(out)@ == old(out)@ + seq![sep] + padded(v as nat, 2),
{
    let ghost start = out@;
    push_char(out, sep);
    push_padded(out, v as u64, 2);
    assert(out@ =~= start + seq![sep] + padded(v as nat, 2));
}

/// Appends `YYYY-MM-DD HH:MM:SS`.
pub fn push_timestamp(out: &mut String, t: &Timestamp)
    ensures
        final(out)@ == old(out)@ + timestamp_text(*t),
{
    let ghost start = out@;
    push_year(out, t.year);
    push_field(out, '-', t.month);
    push_field(out, '-', t.day);
    push_field(out, ' ', t.hour);
    push_field(out, ':', t.minute);
    push_field(out, ':', t.second);
    assert(out@ =~= start + timestamp_text(*t));
}

/// The text a value takes in a Redshift INSERT statement.
pub fn pg_value_to_string(value: &PgValue) -> (r: String)
    ensures
        r@ == pg_value_text(*value),
{
    match value {
        PgValue::Null => String::from_str("NULL"),
        PgValue::Bool(b) => if *b {
            String::from_str("true")
        } else {
            String::from_str("false")
        },
        PgValue::Int(n) => {
            let mut s = String::new();
            push_i64(&mut s, *n);
            assert(s@ =~= int_decimal(*n as int));
            s
        },
        PgValue::Timestamp(t) => {
            let mut s = String::new();
            push_timestamp(&mut s, t);
            assert(s@ =~= timestamp_text(*t));
            s
        },
        PgValue::Text(s) => s.clone(),
    }
}

/// The scripts of the Redshift engine: its own category only.
pub struct InsertQueryGenerator<'config> {
    pub config: &'config Config,
}

impl<'config> InsertQueryGenerator<'config> {
    pub fn generate(&self, data: &Vec<Vec<Vec<NamedValue>>>) -> (r: CustomResult<InsertQueries>)
        ensures
            r matches Ok(q) && q.batch_tables is None && q.double_staged_tables is None
                && q.triple_staged_tables is None && ((data.len()
                == self.config.tables.redshift_tables.len() && forall|i: int|
                0 <= i < data.len() ==> named_rows_aligned((#[trigger] data[i])@)) ==> opt_view(
                q.redshift_tables,
            ) == script_of(plain_statements(data@, self.config.tables.redshift_tables@))),
    {
        let generator = RedshiftTablesQueryGenerator { config: self.config };
        let redshift_tables = generator.generate(data);
        Ok(
            InsertQueries {
                batch_tables: None,
                double_staged_tables: None,
                triple_staged_tables: None,
                redshift_tables,
            },
        )
    }
}

/// Saves the scripts of the Redshift engine: to files only.
pub struct DataSaver<'config> {
    pub config: &'config Config,
}

impl<'config> DataSaver<'config> {
    /// The files for `data` in the configured output folder.
    pub fn get_output_files(&self, data: &InsertQueries) -> (r: Vec<OutputFile>)
        ensures
            file_views(r@) == output_plan(*data, self.config.target_path.path@),
    {
        output_files(data, &self.config.target_path.path)
    }

    /// Loading into a target database is not available for this engine.
    pub fn save_to_db(&self, _data: &InsertQueries, _config: &DbConfig) -> (r: CustomResult<()>)
        ensures
            r matches Err(e) && e is NotImplemented,
    {
        Err(CustomError::NotImplemented)
    }
}

} // verus!
