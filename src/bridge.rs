//! Evaluating a run of `SELECT <literal>, ...` commands into rows, and
//! rendering rows as text: values joined by `|`, rows by newlines.
use crate::sql::{Cmd, Expr, Literal, OneSelect, ResultColumn, Stmt};
use crate::text::{chars_of, string_of};
use vstd::prelude::*;

verus! {

/// Why a command is not a `SELECT` of literals.
#[derive(Debug, PartialEq, Eq, Structural, Clone, Copy)]
pub enum ExecError {
    /// a result column other than a literal without alias
    UnexpectedColumn,
    /// a statement other than a plain `SELECT` without `FROM`
    UnexpectedStmt,
    /// an `EXPLAIN`
    UnexpectedCmd,
}

impl ExecError {
    /// A message that describes the error.
    pub fn message(&self) -> (r: String)
        ensures
            r@ == message_text(*self),
    {
        proof {
            reveal_strlit("Unexpected column");
            reveal_strlit("Unexpected stmt");
            reveal_strlit("Unexpected cmd");
        }
        match self {
            ExecError::UnexpectedColumn => "Unexpected column".to_owned(),
            ExecError::UnexpectedStmt => "Unexpected stmt".to_owned(),
            ExecError::UnexpectedCmd => "Unexpected cmd".to_owned(),
        }
    }
}

/// The text of the message of an error.
pub open spec fn message_text(e: ExecError) -> Seq<char> {
    match e {
        ExecError::UnexpectedColumn => "Unexpected column"@,
        ExecError::UnexpectedStmt => "Unexpected stmt"@,
        ExecError::UnexpectedCmd => "Unexpected cmd"@,
    }
}

/// The literals of the result columns, where each is a literal without an
/// alias.
pub open spec fn literal_columns(columns: Seq<ResultColumn>) -> Option<Seq<Literal>> {
    if forall|i: int|
        0 <= i < columns.len() ==> (#[trigger] columns[i] matches ResultColumn::Expr(
            Expr::Literal(_),
            None,
        )) {
        Some(columns.map_values(|c: ResultColumn| c->Expr_0->Literal_0))
    } else {
        None
    }
}

/// The row that a command selects, where it is a plain `SELECT` of literals
/// with no `FROM`.
pub open spec fn select_row(cmd: Cmd) -> Result<Seq<Literal>, ExecError> {
    match cmd {
        Cmd::Stmt(Stmt::Select(s)) => {
            if !s.with && !s.order_by && !s.limit && !s.compounds {
                match s.body {
                    OneSelect::Select {
                        distinct,
                        columns,
                        from,
                        where_clause,
                        group_by,
                        having,
                        window_clause,
                    } => if !distinct && from is None && !where_clause && !group_by && !having
                        && !window_clause {
                        match literal_columns(columns@) {
                            Some(row) => Ok(row),
                            None => Err(ExecError::UnexpectedColumn),
                        }
                    } else {
                        Err(ExecError::UnexpectedStmt)
                    },
                    OneSelect::Values(_) => Err(ExecError::UnexpectedStmt),
                }
            } else {
                Err(ExecError::UnexpectedStmt)
            }
        },
        Cmd::Stmt(_) => Err(ExecError::UnexpectedStmt),
        _ => Err(ExecError::UnexpectedCmd),
    }
}

fn literal_row(columns: &Vec<ResultColumn>) -> (r: Result<Vec<Literal>, ExecError>)
    ensures
        match literal_columns(columns@) {
            Some(row) => r matches Ok(v) && v@ == row,
            None => r == Err::<Vec<Literal>, ExecError>(ExecError::UnexpectedColumn),
        },
{
    let mut row: Vec<Literal> = Vec::new();
    let mut i: usize = 0;
    while i < columns.len()
        invariant
            i <= columns@.len(),
            row@.len() == i,
            forall|k: int|
                0 <= k < i ==> (#[trigger] columns@[k] matches ResultColumn::Expr(
                    Expr::Literal(_),
                    None,
                )),
            forall|k: int| 0 <= k < i ==> #[trigger] row@[k] == columns@[k]->Expr_0->Literal_0,
        decreases columns@.len() - i,
    {
        match &columns[i] {
            ResultColumn::Expr(Expr::Literal(l), None) => {
                row.push(l.copy());
            },
            _ => {
                assert(!(columns@[i as int] matches ResultColumn::Expr(Expr::Literal(_), None)));
                return Err(ExecError::UnexpectedColumn);
            },
        }
        i = i + 1;
    }
    assert(row@ =~= columns@.map_values(|c: ResultColumn| c->Expr_0->Literal_0));
    Ok(row)
}

fn select_literals(cmd: &Cmd) -> (r: Result<Vec<Literal>, ExecError>)
    ensures
        match select_row(*cmd) {
            Ok(row) => r matches Ok(v) && v@ == row,
            Err(e) => r == Err::<Vec<Literal>, ExecError>(e),
        },
{
    match cmd {
        Cmd::Stmt(Stmt::Select(s)) => {
            if !s.with && !s.order_by && !s.limit && !s.compounds {
                match &s.body {
                    OneSelect::Select {
                        distinct,
                        columns,
                        from,
                        where_clause,
                        group_by,
                        having,
                        window_clause,
                    } => {
                        if !*distinct && from.is_none() && !*where_clause && !*group_by
                            && !*having && !*window_clause {
                            literal_row(columns)
                        } else {
                            Err(ExecError::UnexpectedStmt)
                        }
                    },
                    OneSelect::Values(_) => Err(ExecError::UnexpectedStmt),
                }
            } else {
                Err(ExecError::UnexpectedStmt)
            }
        },
        Cmd::Stmt(_) => Err(ExecError::UnexpectedStmt),
        _ => Err(ExecError::UnexpectedCmd),
    }
}

/// One row per command, each the literals that the command selects; the
/// first command that is not a `SELECT` of literals gives the error.
pub fn exec(cmds: &Vec<Cmd>) -> (r: Result<Option<Vec<Vec<Literal>>>, ExecError>)
    ensures
        match r {
            Ok(Some(rows)) => rows@.len() == cmds@.len() && forall|i: int|
                0 <= i < cmds@.len() ==> select_row(#[trigger] cmds@[i]) == Ok::<
                    Seq<Literal>,
                    ExecError,
                >(rows@[i]@),
            Ok(None) => false,
            Err(e) => exists|i: int|
                0 <= i < cmds@.len() && select_row(#[trigger] cmds@[i]) == Err::<
                    Seq<Literal>,
                    ExecError,
                >(e) && forall|j: int| 0 <= j < i ==> select_row(cmds@[j]) is Ok,
        },
{
    let mut rows: Vec<Vec<Literal>> = Vec::new();
    let mut i: usize = 0;
    while i < cmds.len()
        invariant
            i <= cmds@.len(),
            rows@.len() == i,
            forall|k: int|
                0 <= k < i ==> select_row(#[trigger] cmds@[k]) == Ok::<Seq<Literal>, ExecError>(
                    rows@[k]@,
                ),
        decreases cmds@.len() - i,
    {
        match select_literals(&cmds[i]) {
            Ok(row) => rows.push(row),
            Err(e) => {
                assert(forall|j: int| 0 <= j < i ==> select_row(cmds@[j]) is Ok);
                return Err(e);
            },
        }
        i = i + 1;
    }
    Ok(Some(rows))
}

/// The text of a literal as written; nothing for `NULL`.
pub open spec fn rendered(l: Literal) -> Seq<char> {
    match l {
        Literal::Numeric(s) => s@,
        Literal::Text(s) => s@,
        Literal::Blob(s) => s@,
        Literal::Keyword(s) => s@,
        Literal::Null => Seq::empty(),
        Literal::CurrentDate => "CURRENT_DATE"@,
        Literal::CurrentTime => "CURRENT_TIME"@,
        Literal::CurrentTimestamp => "CURRENT_TIMESTAMP"@,
    }
}

/// The parts joined, with `sep` between each two.
pub open spec fn joined(parts: Seq<Seq<char>>, sep: Seq<char>) -> Seq<char>
    decreases parts.len(),
{
    if parts.len() == 0 {
        Seq::empty()
    } else if parts.len() == 1 {
        parts[0]
    } else {
        joined(parts.drop_last(), sep) + sep + parts.last()
    }
}

/// A row as text: its values joined by `|`.
pub open spec fn row_text(row: Seq<Literal>) -> Seq<char> {
    joined(row.map_values(|l: Literal| rendered(l)), seq!['|'])
}

/// Rows as text: each row, joined by newlines.
pub open spec fn rows_text(rows: Seq<Seq<Literal>>) -> Seq<char> {
    joined(rows.map_values(|r: Seq<Literal>| row_text(r)), seq!['\n'])
}

/// Collects the text of tokens.
pub struct TokenFormatter {
    pub result: Vec<char>,
}

impl TokenFormatter {
    /// Appends the text of a token.
    pub fn append(&mut self, value: &str)
        ensures
            final(self).result@ == old(self).result@ + value@,
    {
        let cs = chars_of(value);
        let mut k: usize = 0;
        let ghost before = self.result@;
        while k < cs.len()
            invariant
                k <= cs@.len(),
                self.result@ == before + cs@.subrange(0, k as int),
            decreases cs@.len() - k,
        {
            self.result.push(cs[k]);
            k = k + 1;
            assert(self.result@ =~= before + cs@.subrange(0, k as int));
        }
        assert(cs@.subrange(0, k as int) =~= cs@);
    }

    /// The text of a literal as written.
    pub fn format(value: &Literal) -> (r: String)
        ensures
            r@ == rendered(*value),
    {
        let mut f = TokenFormatter { result: Vec::new() };
        proof {
            reveal_strlit("CURRENT_DATE");
            reveal_strlit("CURRENT_TIME");
            reveal_strlit("CURRENT_TIMESTAMP");
        }
        match value {
            Literal::Numeric(s) => f.append(s.as_str()),
            Literal::Text(s) => f.append(s.as_str()),
            Literal::Blob(s) => f.append(s.as_str()),
            Literal::Keyword(s) => f.append(s.as_str()),
            Literal::Null => {},
            Literal::CurrentDate => f.append("CURRENT_DATE"),
            Literal::CurrentTime => f.append("CURRENT_TIME"),
            Literal::CurrentTimestamp => f.append("CURRENT_TIMESTAMP"),
        }
        assert(f.result@ =~= rendered(*value));
        string_of(f.result.as_slice())
    }
}

/// Appends the characters of a string.
fn push_str(out: &mut Vec<char>, s: &String)
    ensures
        final(out)@ == old(out)@ + s@,
{
    let cs = chars_of(s.as_str());
    let ghost before = out@;
    let mut k: usize = 0;
    while k < cs.len()
        invariant
            k <= cs@.len(),
            out@ == before + cs@.subrange(0, k as int),
        decreases cs@.len() - k,
    {
        out.push(cs[k]);
        k = k + 1;
        assert(out@ =~= before + cs@.subrange(0, k as int));
    }
    assert(cs@.subrange(0, k as int) =~= cs@);
}

proof fn lemma_joined_step(parts: Seq<Seq<char>>, sep: Seq<char>, i: int)
    requires
        0 <= i < parts.len(),
    ensures
        joined(parts.take(i + 1), sep) == if i == 0 {
            parts[0]
        } else {
            joined(parts.take(i), sep) + sep + parts[i]
        },
{
    assert(parts.take(i + 1).drop_last() =~= parts.take(i));
}

/// Rows as text: values joined by `|`, rows by newlines; nothing where there
/// are no rows, and the message where there is an error.
pub fn as_str(exec_result: &Result<Option<Vec<Vec<Literal>>>, ExecError>) -> (r: String)
    ensures
        match exec_result {
            Ok(None) => r@ == Seq::<char>::empty(),
            Ok(Some(rows)) => r@ == rows_text(rows@.map_values(|row: Vec<Literal>| row@)),
            Err(e) => r@ == message_text(*e),
        },
{
    match exec_result {
        Ok(None) => String::new(),
        Ok(Some(rows)) => {
            let ghost rows_v = rows@.map_values(|row: Vec<Literal>| row@);
            let ghost texts = rows_v.map_values(|row: Seq<Literal>| row_text(row));
            let mut out: Vec<char> = Vec::new();
            let mut i: usize = 0;
            while i < rows.len()
                invariant
                    i <= rows@.len(),
                    rows_v == rows@.map_values(|row: Vec<Literal>| row@),
                    texts == rows_v.map_values(|row: Seq<Literal>| row_text(row)),
                    out@ == joined(texts.take(i as int), seq!['\n']),
                decreases rows@.len() - i,
            {
                let ghost base = out@;
                if i > 0 {
                    out.push('\n');
                }
                let ghost start = out@;
                let row = &rows[i];
                let ghost vals = row@.map_values(|l: Literal| rendered(l));
                let mut j: usize = 0;
                while j < row.len()
                    invariant
                        j <= row@.len(),
                        vals == row@.map_values(|l: Literal| rendered(l)),
                        out@ == start + joined(vals.take(j as int), seq!['|']),
                    decreases row@.len() - j,
                {
                    let ghost prev = out@;
                    if j > 0 {
                        out.push('|');
                    }
                    let text = TokenFormatter::format(&row[j]);
                    push_str(&mut out, &text);
                    proof {
                        lemma_joined_step(vals, seq!['|'], j as int);
                        if j == 0 {
                            assert(joined(vals.take(0), seq!['|']) =~= Seq::<char>::empty());
                        }
                    }
                    assert(out@ =~= start + joined(vals.take(j + 1), seq!['|']));
                    j = j + 1;
                }
                assert(vals.take(j as int) =~= vals);
                proof {
                    lemma_joined_step(texts, seq!['\n'], i as int);
                    if i == 0 {
                        assert(joined(texts.take(0), seq!['\n']) =~= Seq::<char>::empty());
                    }
                }
                assert(out@ =~= joined(texts.take(i + 1), seq!['\n']));
                i = i + 1;
            }
            assert(texts.take(i as int) =~= texts);
            string_of(out.as_slice())
        },
        Err(e) => e.message(),
    }
}

} // verus!
