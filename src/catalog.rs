//! Tables and the catalog that holds them.
use crate::sql::{opt_view, Literal, NameView, QualifiedName};
use vstd::prelude::*;

verus! {

/// What a table holds: its name, its definition, and its rows in order.
pub struct TableView {
    pub name: NameView,
    pub definition: Seq<char>,
    pub rows: Seq<Seq<Literal>>,
}

/// The rows of a table as sequences of literals.
pub open spec fn rows_view(rows: Seq<Vec<Literal>>) -> Seq<Seq<Literal>> {
    rows.map_values(|r: Vec<Literal>| r@)
}

/// A table: its name and definition, fixed when it is created, and its rows,
/// which only grow.
#[derive(Debug)]
pub struct NimbusTable {
    pub tbl_name: QualifiedName,
    pub definition: String,
    pub data: Vec<Vec<Literal>>,
}

impl View for NimbusTable {
    type V = TableView;

    open spec fn view(&self) -> TableView {
        TableView { name: self.tbl_name@, definition: self.definition@, rows: rows_view(self.data@) }
    }
}

/// Copies of the given rows, equal to them.
pub fn copy_rows(rows: &Vec<Vec<Literal>>) -> (r: Vec<Vec<Literal>>)
    ensures
        rows_view(r@) == rows_view(rows@),
{
    let mut out: Vec<Vec<Literal>> = Vec::new();
    let mut i: usize = 0;
    while i < rows.len()
        invariant
            i <= rows@.len(),
            out@.len() == i,
            forall|k: int| 0 <= k < i ==> #[trigger] out@[k]@ == rows@[k]@,
        decreases rows@.len() - i,
    {
        let row = &rows[i];
        let mut copied: Vec<Literal> = Vec::new();
        let mut j: usize = 0;
        while j < row.len()
            invariant
                j <= row@.len(),
                copied@ == row@.subrange(0, j as int),
            decreases row@.len() - j,
        {
            copied.push(row[j].copy());
            j = j + 1;
            assert(copied@ =~= row@.subrange(0, j as int));
        }
        assert(copied@ =~= row@);
        out.push(copied);
        i = i + 1;
    }
    assert(rows_view(out@) =~= rows_view(rows@));
    out
}

impl NimbusTable {
    /// A new table with no rows.
    pub fn from_create_stmt(tbl_name: QualifiedName, definition: String) -> (r: NimbusTable)
        ensures
            r@ == (TableView { name: tbl_name@, definition: definition@, rows: Seq::empty() }),
    {
        let r = NimbusTable { tbl_name, definition, data: Vec::new() };
        assert(rows_view(r.data@) =~= Seq::empty());
        r
    }

    /// The table's qualified name.
    pub fn tbl_name(&self) -> (r: &QualifiedName)
        ensures
            r@ == self@.name,
    {
        &self.tbl_name
    }

    /// The unqualified part of the table's name.
    pub fn name(&self) -> (r: &String)
        ensures
            r@ == self@.name.name,
    {
        &self.tbl_name.name
    }

    /// The text of the table's definition.
    pub fn definition(&self) -> (r: &String)
        ensures
            r@ == self@.definition,
    {
        &self.definition
    }

    /// A copy of the table's rows.
    pub fn rows(&self) -> (r: Vec<Vec<Literal>>)
        ensures
            rows_view(r@) == self@.rows,
    {
        copy_rows(&self.data)
    }
}

/// No two tables share a name.
pub open spec fn names_unique(c: Seq<TableView>) -> bool {
    forall|i: int, j: int| 0 <= i < c.len() && 0 <= j < c.len() && i != j ==> c[i].name != c[j].name
}

/// Some table of the catalog has the name.
pub open spec fn has_table(c: Seq<TableView>, n: NameView) -> bool {
    exists|i: int| 0 <= i < c.len() && c[i].name == n
}

/// The position of the table with the name, where there is one.
pub open spec fn index_of(c: Seq<TableView>, n: NameView) -> int {
    choose|i: int| 0 <= i < c.len() && c[i].name == n
}

/// The parts of a qualified name, by which the catalog finds a table.
pub type NameKey = (Option<String>, String, Option<String>);

/// What identifies a key: its characters, part by part.
pub open spec fn key_view(k: NameKey) -> NameView {
    NameView { db_name: opt_view(k.0), name: k.1@, alias: opt_view(k.2) }
}

#[verifier::external_type_specification]
#[verifier::external_body]
#[verifier::reject_recursive_types(K)]
#[verifier::reject_recursive_types(V)]
#[verifier::reject_recursive_types(S)]
pub struct ExIndexMap<K, V, S>(indexmap::IndexMap<K, V, S>);

/// The map that holds the tables, by name, in order of insertion.
pub type TableMap = indexmap::IndexMap<NameKey, NimbusTable>;

/// The keys of the map, in its order.
pub uninterp spec fn map_keys(m: TableMap) -> Seq<NameView>;

/// The tables of the map, in its order.
pub uninterp spec fn map_tables(m: TableMap) -> Seq<TableView>;

/// Relies on `IndexMap::new`: an empty map.
#[verifier::external_body]
fn map_new() -> (r: TableMap)
    ensures
        map_keys(r) == Seq::<NameView>::empty(),
        map_tables(r) == Seq::<TableView>::empty(),
{
    indexmap::IndexMap::new()
}

/// Relies on `IndexMap::len`: the number of entries.
#[verifier::external_body]
fn map_len(m: &TableMap) -> (r: usize)
    ensures
        r == map_keys(*m).len(),
        r == map_tables(*m).len(),
{
    m.len()
}

/// Relies on `IndexMap::get_index_of`: the position of the entry whose key
/// equals `k`. Keys are compared by `==` on their strings.
#[verifier::external_body]
fn map_index_of(m: &TableMap, k: &NameKey) -> (r: Option<usize>)
    ensures
        match r {
            Some(i) => i < map_keys(*m).len() && map_keys(*m)[i as int] == key_view(*k),
            None => forall|i: int| 0 <= i < map_keys(*m).len() ==> map_keys(*m)[i] != key_view(*k),
        },
{
    m.get_index_of(k)
}

/// Relies on `Index<usize>` of `IndexMap`: the value of the entry at the
/// position.
#[verifier::external_body]
fn map_at(m: &TableMap, i: usize) -> (r: &NimbusTable)
    requires
        i < map_tables(*m).len(),
    ensures
        r@ == map_tables(*m)[i as int],
{
    &m[i]
}

/// Relies on `IndexMap::insert`: where an entry has a key equal to `k`, it
/// keeps its key and place and takes the value `v`, and its former value is
/// returned; otherwise the entry is added last.
#[verifier::external_body]
fn map_insert(m: &mut TableMap, k: NameKey, v: NimbusTable) -> (r: Option<NimbusTable>)
    ensures
        map_keys(*old(m)).len() == map_tables(*old(m)).len() ==> map_keys(*final(m)).len()
            == map_tables(*final(m)).len(),
        forall|i: int|
            0 <= i < map_keys(*old(m)).len() && map_keys(*old(m))[i] == key_view(k) ==> {
                &&& map_keys(*final(m)) == map_keys(*old(m))
                &&& map_tables(*final(m)) == map_tables(*old(m)).update(i, v@)
                &&& r matches Some(o) && o@ == map_tables(*old(m))[i]
            },
        (forall|i: int|
            0 <= i < map_keys(*old(m)).len() ==> map_keys(*old(m))[i] != key_view(k)) ==> {
            &&& map_keys(*final(m)) == map_keys(*old(m)).push(key_view(k))
            &&& map_tables(*final(m)) == map_tables(*old(m)).push(v@)
            &&& r is None
        },
{
    m.insert(k, v)
}

fn name_key(n: &QualifiedName) -> (r: NameKey)
    ensures
        key_view(r) == n@,
{
    let q = n.copy();
    (q.db_name, q.name, q.alias)
}

/// The tables, in order of creation, each name at most once.
#[derive(Debug)]
pub struct NimbusData {
    tables: TableMap,
}

impl View for NimbusData {
    type V = Seq<TableView>;

    closed spec fn view(&self) -> Seq<TableView> {
        map_tables(self.tables)
    }
}

impl NimbusData {
    /// Each table is kept under its own name, and no two under one name.
    pub closed spec fn wf(&self) -> bool {
        &&& map_keys(self.tables).len() == map_tables(self.tables).len()
        &&& forall|i: int|
            0 <= i < map_keys(self.tables).len() ==> #[trigger] map_keys(self.tables)[i]
                == map_tables(self.tables)[i].name
        &&& names_unique(self@)
    }

    /// In a well-formed catalog no two tables share a name.
    pub proof fn lemma_names_unique(&self)
        requires
            self.wf(),
        ensures
            names_unique(self@),
    {
    }

    /// An empty catalog.
    pub fn new() -> (r: NimbusData)
        ensures
            r@ == Seq::<TableView>::empty(),
            r.wf(),
    {
        NimbusData { tables: map_new() }
    }

    /// The number of tables.
    pub fn len(&self) -> (r: usize)
        ensures
            r == self@.len(),
    {
        map_len(&self.tables)
    }

    /// The table at a position, in order of creation.
    pub fn table(&self, i: usize) -> (r: &NimbusTable)
        requires
            i < self@.len(),
        ensures
            r@ == self@[i as int],
    {
        map_at(&self.tables, i)
    }

    /// The position of the table with the given name.
    pub fn get_table(&self, tbl_name: &QualifiedName) -> (r: Option<usize>)
        requires
            self.wf(),
        ensures
            match r {
                Some(i) => {
                    &&& has_table(self@, tbl_name@)
                    &&& i == index_of(self@, tbl_name@)
                    &&& i < self@.len()
                    &&& self@[i as int].name == tbl_name@
                    &&& forall|j: int| 0 <= j < i ==> self@[j].name != tbl_name@
                },
                None => !has_table(self@, tbl_name@),
            },
    {
        let r = map_index_of(&self.tables, &name_key(tbl_name));
        proof {
            match r {
                Some(i) => {
                    assert(self@[i as int].name == tbl_name@);
                    let k = index_of(self@, tbl_name@);
                    assert(0 <= k < self@.len() && self@[k].name == tbl_name@);
                    if k != i {
                        assert(self@[k].name != self@[i as int].name);
                    }
                    assert forall|j: int| 0 <= j < i implies self@[j].name != tbl_name@ by {
                        assert(self@[j].name != self@[i as int].name);
                    }
                },
                None => {
                    assert forall|i: int| 0 <= i < self@.len() implies self@[i].name != tbl_name@ by {
                        assert(map_keys(self.tables)[i] == self@[i].name);
                    }
                },
            }
        }
        r
    }

    /// Adds a table under a name that no table has.
    pub fn add_table(&mut self, t: NimbusTable)
        requires
            old(self).wf(),
            !has_table(old(self)@, t@.name),
        ensures
            final(self).wf(),
            final(self)@ == old(self)@.push(t@),
    {
        let ghost c = self@;
        let ghost n = t@.name;
        let k = name_key(&t.tbl_name);
        proof {
            assert forall|i: int| 0 <= i < map_keys(self.tables).len() implies map_keys(
                self.tables,
            )[i] != key_view(k) by {
                assert(map_keys(self.tables)[i] == c[i].name);
            }
        }
        let _ = map_insert(&mut self.tables, k, t);
        assert(names_unique(self@)) by {
            assert forall|i: int, j: int|
                0 <= i < self@.len() && 0 <= j < self@.len() && i != j implies self@[i].name
                != self@[j].name by {
                if i == c.len() {
                    assert(c[j].name != n);
                } else if j == c.len() {
                    assert(c[i].name != n);
                }
            }
        }
        assert forall|i: int| 0 <= i < map_keys(self.tables).len() implies #[trigger] map_keys(
            self.tables,
        )[i] == map_tables(self.tables)[i].name by {
            if i < c.len() {
                assert(map_keys(self.tables)[i] == map_keys(old(self).tables)[i]);
            }
        }
    }

    /// Appends rows to the table at a position.
    pub fn append_rows(&mut self, i: usize, rows: Vec<Vec<Literal>>)
        requires
            old(self).wf(),
            i < old(self)@.len(),
        ensures
            final(self).wf(),
            final(self)@ == old(self)@.update(
                i as int,
                TableView { rows: old(self)@[i as int].rows + rows_view(rows@), ..old(self)@[i as int] },
            ),
    {
        let ghost c = self@;
        let ghost added = rows_view(rows@);
        let t = map_at(&self.tables, i);
        let k = name_key(&t.tbl_name);
        let placeholder = NimbusTable::from_create_stmt(t.tbl_name.copy(), t.definition.clone());
        assert(map_keys(self.tables)[i as int] == key_view(k));
        let taken = map_insert(&mut self.tables, k, placeholder);
        let ghost keys = map_keys(self.tables);
        let mut rows = rows;
        if let Some(table) = taken {
            let mut table = table;
            let ghost old_data = table.data@;
            table.data.append(&mut rows);
            assert(rows_view(table.data@) =~= rows_view(old_data) + added);
            let k2 = name_key(&table.tbl_name);
            assert(keys[i as int] == key_view(k2));
            let _ = map_insert(&mut self.tables, k2, table);
            assert(self@ =~= c.update(
                i as int,
                TableView { rows: c[i as int].rows + added, ..c[i as int] },
            ));
            assert(names_unique(self@)) by {
                assert forall|a: int, b: int|
                    0 <= a < self@.len() && 0 <= b < self@.len() && a != b implies self@[a].name
                    != self@[b].name by {
                    assert(self@[a].name == c[a].name);
                    assert(self@[b].name == c[b].name);
                }
            }
            assert forall|j: int| 0 <= j < map_keys(self.tables).len() implies #[trigger] map_keys(
                self.tables,
            )[j] == map_tables(self.tables)[j].name by {
                assert(map_keys(self.tables)[j] == map_keys(old(self).tables)[j]);
            }
        }
    }
}

} // verus!
