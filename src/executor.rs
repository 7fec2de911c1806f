//! Deciding whether a statement lies inside the supported subset, and
//! carrying it out against a catalog.
use crate::catalog::{
    copy_rows, has_table, index_of, names_unique, rows_view, NimbusData, NimbusTable, TableView,
};
use crate::sql::{
    Expr, FromClause, InsertBody, Literal, NameView, OneSelect, QualifiedName, ResultColumn,
    Select, SelectTable, Stmt,
};
use vstd::prelude::*;

verus! {

/// The clause or shape that puts a command outside the supported subset.
#[derive(Debug, PartialEq, Eq, Structural, Clone, Copy)]
pub enum Unsupported {
    Explain,
    ExplainQueryPlan,
    SelectWith,
    SelectOrderBy,
    SelectLimit,
    SelectCompound,
    SelectValues,
    SelectDistinct,
    SelectWhere,
    SelectGroupBy,
    SelectHaving,
    SelectWindow,
    /// the `FROM` clause is missing or does not start with a plain table
    SelectNoTable,
    /// the result columns are other than a single `*`
    SelectColumns,
    SelectAlias,
    SelectIndexed,
    SelectJoin,
    InsertWith,
    InsertOrConflict,
    InsertColumns,
    InsertReturning,
    InsertUpsert,
    InsertDefaultValues,
    /// the rows come from a `SELECT`, or from `VALUES` with `WITH`,
    /// `ORDER BY`, `LIMIT` or a compound operator
    InsertSelect,
    /// a value to insert is not a literal constant
    NonLiteral,
    /// a kind of statement other than `CREATE TABLE`, `INSERT`, `SELECT`
    /// and `UPDATE`
    Statement,
}

/// Why a command failed.
#[derive(Debug, PartialEq, Eq)]
pub enum NimbusError {
    Unsupported(Unsupported),
    TableNotFound(QualifiedName),
    NotImplemented,
}

/// What a command produced.
#[derive(Debug, PartialEq, Eq)]
pub enum NimbusExecuteResult {
    /// nothing was parsed
    NoneResult,
    /// a table was created (`true`), or one of that name already existed
    /// (`false`)
    CreateTableResult(bool),
    InsertResult,
    /// a copy of the rows of the table
    SelectResult(Vec<Vec<Literal>>),
}

/// A failure, as the contracts speak of it.
pub enum Failure {
    Unsupported(Unsupported),
    TableNotFound(NameView),
    NotImplemented,
}

/// An outcome, as the contracts speak of it.
pub enum Outcome {
    Empty,
    Created(bool),
    Inserted,
    Selected(Seq<Seq<Literal>>),
}

impl View for NimbusError {
    type V = Failure;

    open spec fn view(&self) -> Failure {
        match self {
            NimbusError::Unsupported(u) => Failure::Unsupported(*u),
            NimbusError::TableNotFound(n) => Failure::TableNotFound(n@),
            NimbusError::NotImplemented => Failure::NotImplemented,
        }
    }
}

impl View for NimbusExecuteResult {
    type V = Outcome;

    open spec fn view(&self) -> Outcome {
        match self {
            NimbusExecuteResult::NoneResult => Outcome::Empty,
            NimbusExecuteResult::CreateTableResult(b) => Outcome::Created(*b),
            NimbusExecuteResult::InsertResult => Outcome::Inserted,
            NimbusExecuteResult::SelectResult(rows) => Outcome::Selected(rows_view(rows@)),
        }
    }
}

/// A result, as the contracts speak of it.
pub open spec fn result_view(r: Result<NimbusExecuteResult, NimbusError>) -> Result<
    Outcome,
    Failure,
> {
    match r {
        Ok(o) => Ok(o@),
        Err(e) => Err(e@),
    }
}

/// A statement inside the supported subset, reduced to what it asks for.
pub enum Plan {
    Create { name: NameView, definition: Seq<char> },
    Insert { name: NameView, rows: Seq<Seq<Literal>> },
    SelectAll { name: NameView },
}

/// Every value of every row is a literal constant.
pub open spec fn all_literal(values: Seq<Vec<Expr>>) -> bool {
    forall|i: int, j: int|
        0 <= i < values.len() && 0 <= j < values[i]@.len() ==> #[trigger] values[i]@[j] is Literal
}

/// The literal of each value of a row.
pub open spec fn literal_row(row: Seq<Expr>) -> Seq<Literal> {
    row.map_values(|e: Expr| e->Literal_0)
}

/// The literals of each row.
pub open spec fn literal_rows(values: Seq<Vec<Expr>>) -> Seq<Seq<Literal>> {
    values.map_values(|r: Vec<Expr>| literal_row(r@))
}

/// The table that a `FROM` clause names, where it names one plain table.
pub open spec fn from_table(from: Option<FromClause>) -> Result<NameView, Unsupported> {
    match from {
        Some(f) => match f.select {
            Some(SelectTable::Table { name, aliased, indexed }) => if aliased {
                Err(Unsupported::SelectAlias)
            } else if indexed {
                Err(Unsupported::SelectIndexed)
            } else if f.joins {
                Err(Unsupported::SelectJoin)
            } else {
                Ok(name@)
            },
            _ => Err(Unsupported::SelectNoTable),
        },
        None => Err(Unsupported::SelectNoTable),
    }
}

/// The table read by a `SELECT` of the form `SELECT * FROM t`, or the first
/// clause that departs from that form.
pub open spec fn select_source(s: Select) -> Result<NameView, Unsupported> {
    if s.with {
        Err(Unsupported::SelectWith)
    } else if s.order_by {
        Err(Unsupported::SelectOrderBy)
    } else if s.limit {
        Err(Unsupported::SelectLimit)
    } else if s.compounds {
        Err(Unsupported::SelectCompound)
    } else {
        match s.body {
            OneSelect::Values(_) => Err(Unsupported::SelectValues),
            OneSelect::Select {
                distinct,
                columns,
                from,
                where_clause,
                group_by,
                having,
                window_clause,
            } => if distinct {
                Err(Unsupported::SelectDistinct)
            } else if where_clause {
                Err(Unsupported::SelectWhere)
            } else if group_by {
                Err(Unsupported::SelectGroupBy)
            } else if having {
                Err(Unsupported::SelectHaving)
            } else if window_clause {
                Err(Unsupported::SelectWindow)
            } else if !(columns@.len() == 1 && columns@[0] is Star) {
                Err(Unsupported::SelectColumns)
            } else {
                from_table(from)
            },
        }
    }
}

/// The rows that an `INSERT` body supplies, where it is a `VALUES` list of
/// literals, or the first clause that departs from that form.
pub open spec fn insert_rows(body: InsertBody) -> Result<Seq<Seq<Literal>>, Unsupported> {
    match body {
        InsertBody::DefaultValues => Err(Unsupported::InsertDefaultValues),
        InsertBody::Select(s, upsert) => if upsert {
            Err(Unsupported::InsertUpsert)
        } else if s.with || s.order_by || s.limit || s.compounds {
            Err(Unsupported::InsertSelect)
        } else {
            match s.body {
                OneSelect::Select { .. } => Err(Unsupported::InsertSelect),
                OneSelect::Values(values) => if all_literal(values@) {
                    Ok(literal_rows(values@))
                } else {
                    Err(Unsupported::NonLiteral)
                },
            }
        },
    }
}

/// What a statement asks for, or why it is refused.
pub open spec fn plan_of(stmt: Stmt) -> Result<Plan, Failure> {
    match stmt {
        Stmt::CreateTable { tbl_name, definition } => Ok(
            Plan::Create { name: tbl_name@, definition: definition@ },
        ),
        Stmt::Select(s) => match select_source(s) {
            Ok(n) => Ok(Plan::SelectAll { name: n }),
            Err(u) => Err(Failure::Unsupported(u)),
        },
        Stmt::Insert { with, or_conflict, tbl_name, columns, body, returning } => if with {
            Err(Failure::Unsupported(Unsupported::InsertWith))
        } else if or_conflict {
            Err(Failure::Unsupported(Unsupported::InsertOrConflict))
        } else if columns {
            Err(Failure::Unsupported(Unsupported::InsertColumns))
        } else if returning {
            Err(Failure::Unsupported(Unsupported::InsertReturning))
        } else {
            match insert_rows(body) {
                Ok(rows) => Ok(Plan::Insert { name: tbl_name@, rows }),
                Err(u) => Err(Failure::Unsupported(u)),
            }
        },
        Stmt::Update => Err(Failure::NotImplemented),
        Stmt::Other => Err(Failure::Unsupported(Unsupported::Statement)),
    }
}

/// The catalog after a statement, and what the statement returns.
pub open spec fn step(c: Seq<TableView>, stmt: Stmt) -> (Seq<TableView>, Result<Outcome, Failure>) {
    match plan_of(stmt) {
        Err(f) => (c, Err(f)),
        Ok(Plan::Create { name, definition }) => if has_table(c, name) {
            (c, Ok(Outcome::Created(false)))
        } else {
            (
                c.push(TableView { name, definition, rows: Seq::empty() }),
                Ok(Outcome::Created(true)),
            )
        },
        Ok(Plan::Insert { name, rows }) => if has_table(c, name) {
            let i = index_of(c, name);
            (
                c.update(i, TableView { rows: c[i].rows + rows, ..c[i] }),
                Ok(Outcome::Inserted),
            )
        } else {
            (c, Err(Failure::TableNotFound(name)))
        },
        Ok(Plan::SelectAll { name }) => if has_table(c, name) {
            (c, Ok(Outcome::Selected(c[index_of(c, name)].rows)))
        } else {
            (c, Err(Failure::TableNotFound(name)))
        },
    }
}

/// A name, or a reason, as the contracts speak of it.
pub open spec fn name_result(r: Result<&QualifiedName, Unsupported>) -> Result<NameView, Unsupported> {
    match r {
        Ok(n) => Ok(n@),
        Err(u) => Err(u),
    }
}

/// Rows, or a reason, as the contracts speak of them.
pub open spec fn rows_result(r: Result<Vec<Vec<Literal>>, Unsupported>) -> Result<
    Seq<Seq<Literal>>,
    Unsupported,
> {
    match r {
        Ok(rows) => Ok(rows_view(rows@)),
        Err(u) => Err(u),
    }
}

/// The plain table that a `FROM` clause names.
pub fn check_from(from: &Option<FromClause>) -> (r: Result<&QualifiedName, Unsupported>)
    ensures
        name_result(r) == from_table(*from),
{
    match from {
        Some(f) => match &f.select {
            Some(SelectTable::Table { name, aliased, indexed }) => {
                if *aliased {
                    Err(Unsupported::SelectAlias)
                } else if *indexed {
                    Err(Unsupported::SelectIndexed)
                } else if f.joins {
                    Err(Unsupported::SelectJoin)
                } else {
                    Ok(name)
                }
            },
            _ => Err(Unsupported::SelectNoTable),
        },
        None => Err(Unsupported::SelectNoTable),
    }
}

/// The table read by a `SELECT * FROM t`, or why the select has another form.
pub fn check_select(s: &Select) -> (r: Result<&QualifiedName, Unsupported>)
    ensures
        name_result(r) == select_source(*s),
{
    if s.with {
        Err(Unsupported::SelectWith)
    } else if s.order_by {
        Err(Unsupported::SelectOrderBy)
    } else if s.limit {
        Err(Unsupported::SelectLimit)
    } else if s.compounds {
        Err(Unsupported::SelectCompound)
    } else {
        match &s.body {
            OneSelect::Values(_) => Err(Unsupported::SelectValues),
            OneSelect::Select {
                distinct,
                columns,
                from,
                where_clause,
                group_by,
                having,
                window_clause,
            } => {
                if *distinct {
                    Err(Unsupported::SelectDistinct)
                } else if *where_clause {
                    Err(Unsupported::SelectWhere)
                } else if *group_by {
                    Err(Unsupported::SelectGroupBy)
                } else if *having {
                    Err(Unsupported::SelectHaving)
                } else if *window_clause {
                    Err(Unsupported::SelectWindow)
                } else if columns.len() != 1 {
                    Err(Unsupported::SelectColumns)
                } else {
                    match &columns[0] {
                        ResultColumn::Star => check_from(from),
                        _ => Err(Unsupported::SelectColumns),
                    }
                }
            },
        }
    }
}

/// The literals of the rows, checked in full before any is used: either
/// every value is a literal, or none of the rows is returned.
pub fn literal_values(values: &Vec<Vec<Expr>>) -> (r: Result<Vec<Vec<Literal>>, Unsupported>)
    ensures
        rows_result(r) == (if all_literal(values@) {
            Ok(literal_rows(values@))
        } else {
            Err(Unsupported::NonLiteral)
        }),
{
    let mut out: Vec<Vec<Literal>> = Vec::new();
    let mut i: usize = 0;
    while i < values.len()
        invariant
            i <= values@.len(),
            out@.len() == i,
            forall|k: int| 0 <= k < i ==> #[trigger] out@[k]@ == literal_row(values@[k]@),
            forall|a: int, b: int|
                0 <= a < i && 0 <= b < values@[a]@.len() ==> #[trigger] values@[a]@[b] is Literal,
        decreases values@.len() - i,
    {
        let row = &values[i];
        let mut lits: Vec<Literal> = Vec::new();
        let mut j: usize = 0;
        while j < row.len()
            invariant
                j <= row@.len(),
                i < values@.len(),
                row == values@[i as int],
                lits@.len() == j,
                forall|k: int| 0 <= k < j ==> #[trigger] lits@[k] == row@[k]->Literal_0,
                forall|b: int| 0 <= b < j ==> #[trigger] row@[b] is Literal,
            decreases row@.len() - j,
        {
            match &row[j] {
                Expr::Literal(l) => {
                    lits.push(l.copy());
                },
                Expr::Other => {
                    assert(!(values@[i as int]@[j as int] is Literal));
                    assert(!all_literal(values@));
                    return Err(Unsupported::NonLiteral);
                },
            }
            j = j + 1;
        }
        assert(lits@ =~= literal_row(row@));
        out.push(lits);
        i = i + 1;
    }
    assert(rows_view(out@) =~= literal_rows(values@));
    Ok(out)
}

/// The rows that an `INSERT` body supplies, or why it has another form.
pub fn check_insert_body(body: &InsertBody) -> (r: Result<Vec<Vec<Literal>>, Unsupported>)
    ensures
        rows_result(r) == insert_rows(*body),
{
    match body {
        InsertBody::DefaultValues => Err(Unsupported::InsertDefaultValues),
        InsertBody::Select(s, upsert) => {
            if *upsert {
                Err(Unsupported::InsertUpsert)
            } else if s.with || s.order_by || s.limit || s.compounds {
                Err(Unsupported::InsertSelect)
            } else {
                match &s.body {
                    OneSelect::Select { .. } => Err(Unsupported::InsertSelect),
                    OneSelect::Values(values) => literal_values(values),
                }
            }
        },
    }
}

impl NimbusData {
    /// Carries out one statement. A statement that fails leaves the catalog
    /// as it was; an `INSERT` adds all of its rows or none.
    pub fn execute(&mut self, stmt: Stmt) -> (r: Result<NimbusExecuteResult, NimbusError>)
        requires
            old(self).wf(),
        ensures
            final(self).wf(),
            names_unique(final(self)@),
            (final(self)@, result_view(r)) == step(old(self)@, stmt),
    {
        let r = match stmt {
            Stmt::CreateTable { tbl_name, definition } => {
                match self.get_table(&tbl_name) {
                    Some(_) => Ok(NimbusExecuteResult::CreateTableResult(false)),
                    None => {
                        let t = NimbusTable::from_create_stmt(tbl_name, definition);
                        self.add_table(t);
                        Ok(NimbusExecuteResult::CreateTableResult(true))
                    },
                }
            },
            Stmt::Select(s) => {
                match check_select(&s) {
                    Err(u) => Err(NimbusError::Unsupported(u)),
                    Ok(name) => {
                        match self.get_table(name) {
                            None => Err(NimbusError::TableNotFound(name.copy())),
                            Some(i) => Ok(
                                NimbusExecuteResult::SelectResult(copy_rows(&self.table(i).data)),
                            ),
                        }
                    },
                }
            },
            Stmt::Insert { with, or_conflict, tbl_name, columns, body, returning } => {
                if with {
                    Err(NimbusError::Unsupported(Unsupported::InsertWith))
                } else if or_conflict {
                    Err(NimbusError::Unsupported(Unsupported::InsertOrConflict))
                } else if columns {
                    Err(NimbusError::Unsupported(Unsupported::InsertColumns))
                } else if returning {
                    Err(NimbusError::Unsupported(Unsupported::InsertReturning))
                } else {
                    match check_insert_body(&body) {
                        Err(u) => Err(NimbusError::Unsupported(u)),
                        Ok(rows) => {
                            match self.get_table(&tbl_name) {
                                None => Err(NimbusError::TableNotFound(tbl_name)),
                                Some(i) => {
                                    self.append_rows(i, rows);
                                    Ok(NimbusExecuteResult::InsertResult)
                                },
                            }
                        },
                    }
                }
            },
            Stmt::Update => Err(NimbusError::NotImplemented),
            Stmt::Other => Err(NimbusError::Unsupported(Unsupported::Statement)),
        };
        proof {
            self.lemma_names_unique();
        }
        r
    }
}

} // verus!
