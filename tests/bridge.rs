use nimbus::bridge::{as_str, exec, ExecError, TokenFormatter};
use nimbus::sql::{Cmd, Expr, FromClause, Literal, OneSelect, QualifiedName, ResultColumn, Select, SelectTable, Stmt};

fn select_columns(columns: Vec<ResultColumn>) -> Cmd {
    Cmd::Stmt(Stmt::Select(Select {
        with: false,
        body: OneSelect::Select {
            distinct: false,
            columns,
            from: None,
            where_clause: false,
            group_by: false,
            having: false,
            window_clause: false,
        },
        compounds: false,
        order_by: false,
        limit: false,
    }))
}

fn lit(l: Literal) -> ResultColumn {
    ResultColumn::Expr(Expr::Literal(l), None)
}

fn num(s: &str) -> Literal {
    Literal::Numeric(s.to_string())
}

#[test]
fn it_works() {
    let cmds = vec![select_columns(vec![lit(num("1")), lit(num("2")), lit(num("3"))])];
    assert_eq!(as_str(&exec(&cmds)), "1|2|3");
}

#[test]
fn rows_join_with_newlines() {
    let cmds = vec![
        select_columns(vec![lit(num("1")), lit(Literal::Text("'a'".to_string()))]),
        select_columns(vec![lit(Literal::Null), lit(Literal::CurrentDate)]),
    ];
    assert_eq!(as_str(&exec(&cmds)), "1|'a'\n|CURRENT_DATE");
}

#[test]
fn no_commands_no_text() {
    assert_eq!(exec(&vec![]), Ok(Some(vec![])));
    assert_eq!(as_str(&exec(&vec![])), "");
    assert_eq!(as_str(&Ok(None)), "");
}

#[test]
fn exec_errors() {
    let aliased = select_columns(vec![ResultColumn::Expr(Expr::Literal(num("1")), Some("x".to_string()))]);
    assert_eq!(exec(&vec![aliased]), Err(ExecError::UnexpectedColumn));
    let with_from = Cmd::Stmt(Stmt::Select(Select {
        with: false,
        body: OneSelect::Select {
            distinct: false,
            columns: vec![ResultColumn::Star],
            from: Some(FromClause {
                select: Some(SelectTable::Table {
                    name: QualifiedName { db_name: None, name: "t".to_string(), alias: None },
                    aliased: false,
                    indexed: false,
                }),
                joins: false,
            }),
            where_clause: false,
            group_by: false,
            having: false,
            window_clause: false,
        },
        compounds: false,
        order_by: false,
        limit: false,
    }));
    assert_eq!(exec(&vec![with_from]), Err(ExecError::UnexpectedStmt));
    assert_eq!(exec(&vec![Cmd::Explain(Stmt::Update)]), Err(ExecError::UnexpectedCmd));
    assert_eq!(as_str(&Err(ExecError::UnexpectedCmd)), "Unexpected cmd");
}

#[test]
fn format_literals() {
    assert_eq!(TokenFormatter::format(&Literal::Blob("X'0F'".to_string())), "X'0F'");
    assert_eq!(TokenFormatter::format(&Literal::Keyword("TRUE".to_string())), "TRUE");
    assert_eq!(TokenFormatter::format(&Literal::CurrentTimestamp), "CURRENT_TIMESTAMP");
    assert_eq!(TokenFormatter::format(&Literal::Null), "");
}
