//! Catalog metadata of the source database: the columns of each table and
//! its outgoing foreign-key edges, as read once from the catalog.
use vstd::prelude::*;

verus! {

/// One column as the catalog describes it (`SHOW COLUMNS`).
#[derive(Debug, Clone)]
pub struct ColumnProps {
    pub name: String,
    pub data_type: String,
    pub is_nullable: String,
    pub key: String,
    pub default_value: Option<String>,
    pub extra: String,
}

/// One foreign-key edge: `column_name` of the owning table refers to
/// `referenced_column_name` of `referenced_table_name`.
#[derive(Debug, Clone)]
pub struct FkColumnUsage {
    pub column_name: String,
    pub referenced_table_name: String,
    pub referenced_column_name: String,
}

/// What the catalog reported for one table: its columns in declaration
/// order and its foreign-key edges in discovery order.
#[derive(Debug, Clone)]
pub struct TableSchema {
    pub name: String,
    pub columns: Vec<ColumnProps>,
    pub references: Vec<FkColumnUsage>,
}

pub struct EdgeView {
    pub column: Seq<char>,
    pub table: Seq<char>,
    pub referenced: Seq<char>,
}

pub struct TableView {
    pub name: Seq<char>,
    pub columns: Seq<Seq<char>>,
    pub edges: Seq<EdgeView>,
}

impl View for FkColumnUsage {
    type V = EdgeView;

    open spec fn view(&self) -> EdgeView {
        EdgeView {
            column: self.column_name@,
            table: self.referenced_table_name@,
            referenced: self.referenced_column_name@,
        }
    }
}

impl View for TableSchema {
    type V = TableView;

    open spec fn view(&self) -> TableView {
        TableView {
            name: self.name@,
            columns: self.columns@.map_values(|c: ColumnProps| c.name@),
            edges: self.references@.map_values(|e: FkColumnUsage| e@),
        }
    }
}

/// The metadata of every table known so far; no two entries share a name.
pub struct Catalog {
    tables: Vec<TableSchema>,
}

pub open spec fn names_unique(tables: Seq<TableView>) -> bool {
    forall|i: int, j: int|
        0 <= i < tables.len() && 0 <= j < tables.len() && tables[i].name == tables[j].name ==> i
            == j
}

pub open spec fn has_table(tables: Seq<TableView>, name: Seq<char>) -> bool {
    exists|i: int| 0 <= i < tables.len() && tables[i].name == name
}

/// The entry named `name` (meaningful when `has_table`).
pub open spec fn table_of(tables: Seq<TableView>, name: Seq<char>) -> TableView {
    tables[choose|i: int| 0 <= i < tables.len() && tables[i].name == name]
}

/// Every table named by an edge of a known table is known too.
pub open spec fn references_closed(tables: Seq<TableView>) -> bool {
    forall|i: int, k: int|
        0 <= i < tables.len() && 0 <= k < tables[i].edges.len() ==> has_table(
            tables,
            #[trigger] tables[i].edges[k].table,
        )
}

impl View for Catalog {
    type V = Seq<TableView>;

    closed spec fn view(&self) -> Seq<TableView> {
        self.tables@.map_values(|t: TableSchema| t@)
    }
}

impl Catalog {
    pub open spec fn wf(&self) -> bool {
        names_unique(self@)
    }

    closed spec fn index_of(&self, name: Seq<char>) -> int {
        choose|i: int| 0 <= i < self.tables@.len() && self.tables@[i].name@ == name
    }

    /// The full column descriptors recorded for `name`.
    pub closed spec fn columns_of(&self, name: Seq<char>) -> Seq<ColumnProps> {
        self.tables@[self.index_of(name)].columns@
    }

    /// The full edge descriptors recorded for `name`.
    pub closed spec fn references_of(&self, name: Seq<char>) -> Seq<FkColumnUsage> {
        self.tables@[self.index_of(name)].references@
    }

    pub fn new() -> (r: Catalog)
        ensures
            r.wf(),
            r@ == Seq::<TableView>::empty(),
    {
        Catalog { tables: Vec::new() }
    }

    /// Index of the entry named `name`.
    fn position(&self, name: &String) -> (r: Option<usize>)
        requires
            self.wf(),
        ensures
            r matches Some(i) ==> i < self@.len() && self@[i as int].name == name@,
            r is None <==> !has_table(self@, name@),
    {
        let mut i: usize = 0;
        while i < self.tables.len()
            invariant
                i <= self.tables.len(),
                forall|j: int| 0 <= j < i ==> self@[j].name != name@,
            decreases self.tables.len() - i,
        {
            if self.tables[i].name == *name {
                assert(self@[i as int] == self.tables@[i as int]@);
                return Some(i);
            }
            i = i + 1;
        }
        None
    }

    pub fn contains_table(&self, name: &String) -> (r: bool)
        requires
            self.wf(),
        ensures
            r == has_table(self@, name@),
    {
        self.position(name).is_some()
    }

    /// Records what the catalog reported for `table`; a table already
    /// known keeps its first entry.
    pub fn add_table(&mut self, table: TableSchema)
        requires
            old(self).wf(),
        ensures
            final(self).wf(),
            has_table(old(self)@, table.name@) ==> final(self)@ == old(self)@,
            !has_table(old(self)@, table.name@) ==> final(self)@ == old(self)@.push(table@),
    {
        if self.position(&table.name).is_none() {
            let ghost before = self@;
            self.tables.push(table);
            assert(self@ =~= before.push(table@));
        }
    }

    /// The columns of `table`, in declaration order.
    pub fn get_columns(&self, table: &String) -> (r: Option<&Vec<ColumnProps>>)
        requires
            self.wf(),
        ensures
            r is None <==> !has_table(self@, table@),
            r matches Some(c) ==> c@.map_values(|p: ColumnProps| p.name@) == table_of(
                self@,
                table@,
            ).columns,
            r matches Some(c) ==> c@ == self.columns_of(table@),
    {
        match self.position(table) {
            Some(i) => {
                proof {
                    self.lemma_unique_entry(table@, i as int);
                    self.lemma_unique_raw(table@, i as int);
                }
                Some(&self.tables[i].columns)
            },
            None => None,
        }
    }

    /// The foreign-key edges of `table`, in discovery order.
    pub fn get_table_references(&self, table: &String) -> (r: Option<&Vec<FkColumnUsage>>)
        requires
            self.wf(),
        ensures
            r is None <==> !has_table(self@, table@),
            r matches Some(e) ==> e@.map_values(|f: FkColumnUsage| f@) == table_of(
                self@,
                table@,
            ).edges,
            r matches Some(e) ==> e@ == self.references_of(table@),
    {
        match self.position(table) {
            Some(i) => {
                proof {
                    self.lemma_unique_entry(table@, i as int);
                    self.lemma_unique_raw(table@, i as int);
                }
                Some(&self.tables[i].references)
            },
            None => None,
        }
    }

    /// The entry at `i`, when it is named `name`, is `table_of(name)`.
    pub proof fn lemma_unique_entry(&self, name: Seq<char>, i: int)
        requires
            self.wf(),
            0 <= i < self@.len(),
            self@[i].name == name,
        ensures
            table_of(self@, name) == self@[i],
    {
        let j = choose|j: int| 0 <= j < self@.len() && self@[j].name == name;
        assert(0 <= j < self@.len() && self@[j].name == name);
    }

    proof fn lemma_unique_raw(&self, name: Seq<char>, i: int)
        requires
            self.wf(),
            0 <= i < self@.len(),
            self@[i].name == name,
        ensures
            self.columns_of(name) == self.tables@[i].columns@,
            self.references_of(name) == self.tables@[i].references@,
    {
        assert(self@[i] == self.tables@[i]@);
        assert(self.tables@[i].name@ == name);
        let j = self.index_of(name);
        assert(0 <= j < self.tables@.len() && self.tables@[j].name@ == name);
        assert(self@[j] == self.tables@[j]@);
        assert(self@[j].name == self@[i].name);
        assert(i == j);
    }

    /// Reading a table's metadata twice from an unchanged catalog gives the
    /// same column descriptors and the same edges, in the same order.
    pub proof fn lemma_introspection_repeatable(
        &self,
        table: Seq<char>,
        first_columns: Seq<ColumnProps>,
        second_columns: Seq<ColumnProps>,
        first_edges: Seq<FkColumnUsage>,
        second_edges: Seq<FkColumnUsage>,
    )
        requires
            first_columns == self.columns_of(table),
            second_columns == self.columns_of(table),
            first_edges == self.references_of(table),
            second_edges == self.references_of(table),
        ensures
            first_columns == second_columns,
            first_edges == second_edges,
    {
    }

    /// The next table whose metadata must be read: the first root that is
    /// not known, else a table that a known table refers to but that is not
    /// known; `None` once the roots and everything they reach are known.
    pub fn next_table_to_read(&self, roots: &Vec<String>) -> (r: Option<String>)
        requires
            self.wf(),
        ensures
            r is None <==> (forall|i: int| 0 <= i < roots.len() ==> has_table(self@, #[trigger] roots[i]@))
                && references_closed(self@),
            r matches Some(t) ==> !has_table(self@, t@) && ((exists|i: int|
                0 <= i < roots.len() && roots[i]@ == t@) || exists|i: int, k: int|
                0 <= i < self@.len() && 0 <= k < self@[i].edges.len() && self@[i].edges[k].table
                    == t@),
    {
        let mut i: usize = 0;
        while i < roots.len()
            invariant
                self.wf(),
                i <= roots.len(),
                forall|j: int| 0 <= j < i ==> has_table(self@, #[trigger] roots[j]@),
            decreases roots.len() - i,
        {
            if !self.contains_table(&roots[i]) {
                return Some(roots[i].clone());
            }
            i = i + 1;
        }
        self.first_unknown_reference()
    }

    /// A table named by some edge of a known table but not known itself;
    /// `None` once every referenced table is known.
    pub fn first_unknown_reference(&self) -> (r: Option<String>)
        requires
            self.wf(),
        ensures
            r is None <==> references_closed(self@),
            r matches Some(t) ==> !has_table(self@, t@) && exists|i: int, k: int|
                0 <= i < self@.len() && 0 <= k < self@[i].edges.len() && self@[i].edges[k].table
                    == t@,
    {
        let mut i: usize = 0;
        while i < self.tables.len()
            invariant
                self.wf(),
                i <= self.tables.len(),
                forall|a: int, k: int|
                    0 <= a < i && 0 <= k < self@[a].edges.len() ==> has_table(
                        self@,
                        #[trigger] self@[a].edges[k].table,
                    ),
            decreases self.tables.len() - i,
        {
            let refs = &self.tables[i].references;
            let mut k: usize = 0;
            while k < refs.len()
                invariant
                    self.wf(),
                    i < self.tables.len(),
                    refs == &self.tables[i as int].references,
                    k <= refs.len(),
                    forall|a: int, k2: int|
                        0 <= a < i && 0 <= k2 < self@[a].edges.len() ==> has_table(
                            self@,
                            #[trigger] self@[a].edges[k2].table,
                        ),
                    forall|k2: int|
                        0 <= k2 < k ==> has_table(self@, #[trigger] self@[i as int].edges[k2].table),
                decreases refs.len() - k,
            {
                let target = &refs[k].referenced_table_name;
                if !self.contains_table(target) {
                    assert(self@[i as int].edges[k as int].table == target@);
                    return Some(target.clone());
                }
                k = k + 1;
            }
            i = i + 1;
        }
        None
    }
}

} // verus!
