//! The shape of a parsed SQL command, as far as the executor reads it.
//!
//! A SQL parser produces a full syntax tree; the executor needs only to know
//! which clauses are present, which table is named, and which values are
//! literal constants. Clauses whose content is never read are recorded as
//! present or absent.
use vstd::prelude::*;

verus! {

/// A constant value written in SQL text, kept in its source spelling.
#[derive(Debug, PartialEq, Eq)]
pub enum Literal {
    Numeric(String),
    Text(String),
    Blob(String),
    Keyword(String),
    Null,
    CurrentDate,
    CurrentTime,
    CurrentTimestamp,
}

impl Literal {
    /// A copy equal to `self`.
    pub fn copy(&self) -> (r: Literal)
        ensures
            r == *self,
    {
        match self {
            Literal::Numeric(s) => Literal::Numeric(s.clone()),
            Literal::Text(s) => Literal::Text(s.clone()),
            Literal::Blob(s) => Literal::Blob(s.clone()),
            Literal::Keyword(s) => Literal::Keyword(s.clone()),
            Literal::Null => Literal::Null,
            Literal::CurrentDate => Literal::CurrentDate,
            Literal::CurrentTime => Literal::CurrentTime,
            Literal::CurrentTimestamp => Literal::CurrentTimestamp,
        }
    }
}

/// The characters of an optional string.
pub open spec fn opt_view(s: Option<String>) -> Option<Seq<char>> {
    match s {
        Some(t) => Some(t@),
        None => None,
    }
}

/// What identifies a qualified name: its characters, part by part.
pub struct NameView {
    pub db_name: Option<Seq<char>>,
    pub name: Seq<char>,
    pub alias: Option<Seq<char>>,
}

/// A possibly schema-qualified table name, compared part by part exactly as
/// written (no case folding).
#[derive(Debug, PartialEq, Eq)]
pub struct QualifiedName {
    pub db_name: Option<String>,
    pub name: String,
    pub alias: Option<String>,
}

impl View for QualifiedName {
    type V = NameView;

    open spec fn view(&self) -> NameView {
        NameView { db_name: opt_view(self.db_name), name: self.name@, alias: opt_view(self.alias) }
    }
}

fn same_opt(a: &Option<String>, b: &Option<String>) -> (r: bool)
    ensures
        r == (opt_view(*a) == opt_view(*b)),
{
    match (a, b) {
        (Some(x), Some(y)) => *x == *y,
        (None, None) => true,
        _ => false,
    }
}

fn copy_opt(a: &Option<String>) -> (r: Option<String>)
    ensures
        r == *a,
{
    match a {
        Some(x) => Some(x.clone()),
        None => None,
    }
}

impl QualifiedName {
    /// Whether the two names are written alike in every part.
    pub fn same(&self, other: &QualifiedName) -> (r: bool)
        ensures
            r == (self@ == other@),
    {
        same_opt(&self.db_name, &other.db_name) && self.name == other.name && same_opt(
            &self.alias,
            &other.alias,
        )
    }

    /// A copy equal to `self`.
    pub fn copy(&self) -> (r: QualifiedName)
        ensures
            r == *self,
            r@ == self@,
    {
        QualifiedName {
            db_name: copy_opt(&self.db_name),
            name: self.name.clone(),
            alias: copy_opt(&self.alias),
        }
    }
}

/// A value expression: a literal constant, or anything else.
#[derive(Debug, PartialEq, Eq)]
pub enum Expr {
    Literal(Literal),
    Other,
}

/// One result column of a `SELECT`.
#[derive(Debug, PartialEq, Eq)]
pub enum ResultColumn {
    /// `*`
    Star,
    /// `table.*`
    TableStar(String),
    /// an expression, with its alias if any
    Expr(Expr, Option<String>),
}

/// What a `FROM` clause names first.
#[derive(Debug, PartialEq, Eq)]
pub enum SelectTable {
    /// a table, with whether it is aliased and whether it carries an
    /// `INDEXED BY` / `NOT INDEXED` hint
    Table { name: QualifiedName, aliased: bool, indexed: bool },
    /// a table-valued function call
    TableCall,
    /// a subquery
    Subquery,
    /// a parenthesised join
    Sub,
}

/// A `FROM` clause: its first source, and whether joins follow it.
#[derive(Debug, PartialEq, Eq)]
pub struct FromClause {
    pub select: Option<SelectTable>,
    pub joins: bool,
}

/// The core of a `SELECT`: a select proper, or a `VALUES` list.
#[derive(Debug, PartialEq, Eq)]
pub enum OneSelect {
    Select {
        distinct: bool,
        columns: Vec<ResultColumn>,
        from: Option<FromClause>,
        where_clause: bool,
        group_by: bool,
        having: bool,
        window_clause: bool,
    },
    Values(Vec<Vec<Expr>>),
}

/// A `SELECT` statement, or the source of an `INSERT`.
#[derive(Debug, PartialEq, Eq)]
pub struct Select {
    pub with: bool,
    pub body: OneSelect,
    pub compounds: bool,
    pub order_by: bool,
    pub limit: bool,
}

/// Where the rows of an `INSERT` come from.
#[derive(Debug, PartialEq, Eq)]
pub enum InsertBody {
    /// `VALUES ...` or a `SELECT`, with whether an upsert clause follows
    Select(Select, bool),
    /// `DEFAULT VALUES`
    DefaultValues,
}

/// One SQL statement.
#[derive(Debug, PartialEq, Eq)]
pub enum Stmt {
    /// `CREATE TABLE`, with the definition as text; the definition is kept,
    /// never interpreted
    CreateTable { tbl_name: QualifiedName, definition: String },
    Select(Select),
    Insert {
        with: bool,
        or_conflict: bool,
        tbl_name: QualifiedName,
        columns: bool,
        body: InsertBody,
        returning: bool,
    },
    Update,
    /// any other kind of statement (`DELETE`, `DROP`, `ALTER`, `BEGIN`, ...)
    Other,
}

/// One parsed command: a statement, or an `EXPLAIN` of one.
#[derive(Debug, PartialEq, Eq)]
pub enum Cmd {
    Explain(Stmt),
    ExplainQueryPlan(Stmt),
    Stmt(Stmt),
}

} // verus!
