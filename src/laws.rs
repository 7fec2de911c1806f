//! Properties of the executor that hold over every catalog and statement.
use crate::catalog::{has_table, index_of, names_unique, TableView};
use crate::executor::{all_literal, plan_of, step, Failure, Outcome, Plan};
use crate::sql::{InsertBody, Literal, NameView, OneSelect, QualifiedName, Select, Stmt};
use vstd::prelude::*;

verus! {

/// The catalog after each statement in turn.
pub open spec fn run(c: Seq<TableView>, stmts: Seq<Stmt>) -> Seq<TableView>
    decreases stmts.len(),
{
    if stmts.len() == 0 {
        c
    } else {
        run(step(c, stmts[0]).0, stmts.drop_first())
    }
}

/// The rows that an `INSERT` of the supported form adds.
pub open spec fn rows_of(stmt: Stmt) -> Seq<Seq<Literal>> {
    match plan_of(stmt) {
        Ok(Plan::Insert { rows, .. }) => rows,
        _ => Seq::empty(),
    }
}

/// The rows that the statements add, statement after statement.
pub open spec fn all_rows_of(stmts: Seq<Stmt>) -> Seq<Seq<Literal>>
    decreases stmts.len(),
{
    if stmts.len() == 0 {
        Seq::empty()
    } else {
        rows_of(stmts[0]) + all_rows_of(stmts.drop_first())
    }
}

/// The statement is an `INSERT` of the supported form into the named table.
pub open spec fn inserts_into(stmt: Stmt, n: NameView) -> bool {
    match plan_of(stmt) {
        Ok(Plan::Insert { name, .. }) => name == n,
        _ => false,
    }
}

/// The statement is an `INSERT ... VALUES` in which some value is not a
/// literal constant.
pub open spec fn has_non_literal_value(stmt: Stmt) -> bool {
    match stmt {
        Stmt::Insert { body: InsertBody::Select(s, _), .. } => match s.body {
            OneSelect::Values(values) => !all_literal(values@),
            _ => false,
        },
        _ => false,
    }
}

/// The select names result columns other than a single `*`, or has a
/// `WHERE` or a `LIMIT` clause.
pub open spec fn narrows_rows(s: Select) -> bool {
    s.limit || match s.body {
        OneSelect::Select { columns, where_clause, .. } => where_clause || !(columns@.len() == 1
            && columns@[0] is Star),
        OneSelect::Values(_) => false,
    }
}

/// Within a catalog whose names are unique, a table found under a name is
/// the one `index_of` picks.
pub proof fn lemma_index_of_unique(c: Seq<TableView>, n: NameView, i: int)
    requires
        names_unique(c),
        0 <= i < c.len(),
        c[i].name == n,
    ensures
        has_table(c, n),
        index_of(c, n) == i,
{
    let k = index_of(c, n);
    assert(0 <= k < c.len() && c[k].name == n);
    if k != i {
        assert(c[k].name != c[i].name);
    }
}

/// Every statement keeps the names of the catalog unique.
pub proof fn lemma_step_keeps_names_unique(c: Seq<TableView>, stmt: Stmt)
    requires
        names_unique(c),
    ensures
        names_unique(step(c, stmt).0),
{
    let c2 = step(c, stmt).0;
    match plan_of(stmt) {
        Ok(Plan::Create { name, definition }) => {
            if !has_table(c, name) {
                assert forall|i: int, j: int|
                    0 <= i < c2.len() && 0 <= j < c2.len() && i != j implies c2[i].name
                    != c2[j].name by {
                    if i == c.len() {
                        assert(c[j].name != name);
                    } else if j == c.len() {
                        assert(c[i].name != name);
                    }
                }
            }
        },
        Ok(Plan::Insert { name, rows }) => {
            if has_table(c, name) {
                assert forall|i: int, j: int|
                    0 <= i < c2.len() && 0 <= j < c2.len() && i != j implies c2[i].name
                    != c2[j].name by {
                    assert(c2[i].name == c[i].name);
                    assert(c2[j].name == c[j].name);
                }
            }
        },
        _ => {},
    }
}

/// A statement that fails leaves the catalog as it was.
pub proof fn lemma_failure_changes_nothing(c: Seq<TableView>, stmt: Stmt)
    ensures
        step(c, stmt).1 is Err ==> step(c, stmt).0 == c,
{
}

/// Creating a table under a name that no table has, then selecting all of it,
/// gives no rows.
pub proof fn lemma_create_then_select_is_empty(
    c: Seq<TableView>,
    tbl_name: QualifiedName,
    definition: String,
    select: Stmt,
)
    requires
        names_unique(c),
        !has_table(c, tbl_name@),
        plan_of(select) == (Ok::<Plan, Failure>(Plan::SelectAll { name: tbl_name@ })),
    ensures
        step(step(c, Stmt::CreateTable { tbl_name, definition }).0, select).1 == (Ok::<
            Outcome,
            Failure,
        >(Outcome::Selected(Seq::empty()))),
{
    let create = Stmt::CreateTable { tbl_name, definition };
    let n = tbl_name@;
    let c2 = step(c, create).0;
    lemma_step_keeps_names_unique(c, create);
    assert(c2[c.len() as int].name == n);
    lemma_index_of_unique(c2, n, c.len() as int);
}

/// Adding rows to a table keeps its position and every name, and appends
/// the rows to it.
pub proof fn lemma_insert_appends(c: Seq<TableView>, stmt: Stmt, n: NameView)
    requires
        names_unique(c),
        has_table(c, n),
        inserts_into(stmt, n),
    ensures
        names_unique(step(c, stmt).0),
        has_table(step(c, stmt).0, n),
        index_of(step(c, stmt).0, n) == index_of(c, n),
        step(c, stmt).0[index_of(c, n)].rows == c[index_of(c, n)].rows + rows_of(stmt),
{
    let c2 = step(c, stmt).0;
    let i = index_of(c, n);
    lemma_step_keeps_names_unique(c, stmt);
    assert(c2[i].name == n);
    lemma_index_of_unique(c2, n, i);
}

/// After any run of `INSERT`s into an existing table, selecting all of it
/// gives the rows it had, then the inserted rows in the order of the
/// statements and, within each, in the order written: nothing reordered,
/// nothing merged.
pub proof fn lemma_inserts_then_select(
    c: Seq<TableView>,
    n: NameView,
    stmts: Seq<Stmt>,
    select: Stmt,
)
    requires
        names_unique(c),
        has_table(c, n),
        forall|i: int| 0 <= i < stmts.len() ==> inserts_into(#[trigger] stmts[i], n),
        plan_of(select) == (Ok::<Plan, Failure>(Plan::SelectAll { name: n })),
    ensures
        step(run(c, stmts), select).1 == (Ok::<Outcome, Failure>(
            Outcome::Selected(c[index_of(c, n)].rows + all_rows_of(stmts)),
        )),
    decreases stmts.len(),
{
    if stmts.len() == 0 {
        assert(c[index_of(c, n)].rows + all_rows_of(stmts) =~= c[index_of(c, n)].rows);
    } else {
        let c2 = step(c, stmts[0]).0;
        assert(inserts_into(stmts[0], n));
        lemma_insert_appends(c, stmts[0], n);
        let rest = stmts.drop_first();
        assert forall|i: int| 0 <= i < rest.len() implies inserts_into(#[trigger] rest[i], n) by {
            assert(rest[i] == stmts[i + 1]);
        }
        lemma_inserts_then_select(c2, n, rest, select);
        assert(c[index_of(c, n)].rows + all_rows_of(stmts) =~= c2[index_of(c2, n)].rows
            + all_rows_of(rest));
    }
}

/// An `INSERT` into a name that no table has fails with `TableNotFound` and
/// leaves the catalog as it was.
pub proof fn lemma_insert_into_missing_table(c: Seq<TableView>, stmt: Stmt, n: NameView)
    requires
        inserts_into(stmt, n),
        !has_table(c, n),
    ensures
        step(c, stmt) == (c, Err::<Outcome, Failure>(Failure::TableNotFound(n))),
{
}

/// An `INSERT ... VALUES` with any value that is not a literal is refused as
/// a whole: no row of it is added.
pub proof fn lemma_non_literal_insert_adds_nothing(c: Seq<TableView>, stmt: Stmt)
    requires
        has_non_literal_value(stmt),
    ensures
        step(c, stmt).0 == c,
        step(c, stmt).1 is Err,
{
}

/// A `SELECT` of columns other than `*`, or with `WHERE` or `LIMIT`, is
/// refused as unsupported and leaves the catalog as it was.
pub proof fn lemma_narrowed_select_refused(c: Seq<TableView>, s: Select)
    requires
        narrows_rows(s),
    ensures
        step(c, Stmt::Select(s)).0 == c,
        step(c, Stmt::Select(s)).1 is Err,
        step(c, Stmt::Select(s)).1->Err_0 is Unsupported,
{
}

/// Creating a table under a name that a table already has reports that
/// nothing was created, and leaves every table and row as it was.
pub proof fn lemma_create_existing_is_noop(
    c: Seq<TableView>,
    tbl_name: QualifiedName,
    definition: String,
)
    requires
        has_table(c, tbl_name@),
    ensures
        step(c, Stmt::CreateTable { tbl_name, definition }) == (c, Ok::<Outcome, Failure>(
            Outcome::Created(false),
        )),
{
}

} // verus!
