use nimbus::engine::Nimbus;
use nimbus::executor::{NimbusError, NimbusExecuteResult, Unsupported};
use nimbus::sql::{
    Cmd, Expr, FromClause, InsertBody, Literal, OneSelect, QualifiedName, ResultColumn, Select,
    SelectTable, Stmt,
};

fn name(n: &str) -> QualifiedName {
    QualifiedName { db_name: None, name: n.to_string(), alias: None }
}

fn num(s: &str) -> Literal {
    Literal::Numeric(s.to_string())
}

fn text(s: &str) -> Literal {
    Literal::Text(s.to_string())
}

fn create(n: &str, definition: &str) -> Option<Cmd> {
    Some(Cmd::Stmt(Stmt::CreateTable { tbl_name: name(n), definition: definition.to_string() }))
}

fn values(rows: Vec<Vec<Expr>>) -> Select {
    Select { with: false, body: OneSelect::Values(rows), compounds: false, order_by: false, limit: false }
}

fn insert_exprs(n: &str, rows: Vec<Vec<Expr>>) -> Option<Cmd> {
    Some(Cmd::Stmt(Stmt::Insert {
        with: false,
        or_conflict: false,
        tbl_name: name(n),
        columns: false,
        body: InsertBody::Select(values(rows), false),
        returning: false,
    }))
}

fn insert(n: &str, rows: Vec<Vec<Literal>>) -> Option<Cmd> {
    insert_exprs(n, rows.into_iter().map(|r| r.into_iter().map(Expr::Literal).collect()).collect())
}

fn select_from(columns: Vec<ResultColumn>, n: &str) -> Select {
    Select {
        with: false,
        body: OneSelect::Select {
            distinct: false,
            columns,
            from: Some(FromClause {
                select: Some(SelectTable::Table { name: name(n), aliased: false, indexed: false }),
                joins: false,
            }),
            where_clause: false,
            group_by: false,
            having: false,
            window_clause: false,
        },
        compounds: false,
        order_by: false,
        limit: false,
    }
}

fn select_all(n: &str) -> Option<Cmd> {
    Some(Cmd::Stmt(Stmt::Select(select_from(vec![ResultColumn::Star], n))))
}

fn rows_of(nimbus: &mut Nimbus, n: &str) -> Vec<Vec<Literal>> {
    match nimbus.eval(select_all(n)) {
        Ok(NimbusExecuteResult::SelectResult(rows)) => rows,
        other => panic!("unexpected {:?}", other),
    }
}

#[test]
fn t0() {
    let mut nimbus = Nimbus::new();
    nimbus.eval(create("tbl1", "CREATE TABLE tbl1 (one text, two int)")).unwrap();
    nimbus.eval(insert("tbl1", vec![vec![text("'abc'"), num("2")]])).unwrap();
    let select = nimbus.eval(select_all("tbl1")).unwrap();
    assert_eq!(select, NimbusExecuteResult::SelectResult(vec![vec![text("'abc'"), num("2")]]));
    nimbus.eval(insert("tbl1", vec![vec![text("'def'"), num("3")]])).unwrap();
    let select = nimbus.eval(select_all("tbl1")).unwrap();
    assert_eq!(
        select,
        NimbusExecuteResult::SelectResult(vec![
            vec![text("'abc'"), num("2")],
            vec![text("'def'"), num("3")],
        ])
    );
    let tables: Vec<(String, Vec<Vec<Literal>>)> = (0..nimbus.table_count())
        .map(|i| (nimbus.table(i).name().clone(), nimbus.table(i).rows()))
        .collect();
    assert_eq!(
        tables,
        vec![(
            "tbl1".to_string(),
            vec![vec![text("'abc'"), num("2")], vec![text("'def'"), num("3")]]
        )]
    );
}

#[test]
fn create_then_select_is_empty() {
    let mut nimbus = Nimbus::new();
    assert_eq!(
        nimbus.eval(create("t", "CREATE TABLE t (a, b)")),
        Ok(NimbusExecuteResult::CreateTableResult(true))
    );
    assert_eq!(rows_of(&mut nimbus, "t"), Vec::<Vec<Literal>>::new());
}

#[test]
fn inserts_then_select_in_order() {
    let mut nimbus = Nimbus::new();
    nimbus.eval(create("t", "CREATE TABLE t (a)")).unwrap();
    nimbus.eval(insert("t", vec![vec![num("1")], vec![num("1")]])).unwrap();
    nimbus.eval(insert("t", vec![vec![num("0")]])).unwrap();
    nimbus.eval(insert("t", vec![vec![text("'x'")], vec![Literal::Null]])).unwrap();
    assert_eq!(
        rows_of(&mut nimbus, "t"),
        vec![vec![num("1")], vec![num("1")], vec![num("0")], vec![text("'x'")], vec![Literal::Null]]
    );
}

#[test]
fn two_inserts_scenario() {
    let mut nimbus = Nimbus::new();
    nimbus.eval(create("t", "CREATE TABLE t (a, b)")).unwrap();
    assert_eq!(
        nimbus.eval(insert("t", vec![vec![num("1"), num("2")]])),
        Ok(NimbusExecuteResult::InsertResult)
    );
    assert_eq!(
        nimbus.eval(insert("t", vec![vec![num("3"), num("4")]])),
        Ok(NimbusExecuteResult::InsertResult)
    );
    assert_eq!(
        nimbus.eval(select_all("t")),
        Ok(NimbusExecuteResult::SelectResult(vec![vec![num("1"), num("2")], vec![num("3"), num("4")]]))
    );
}

#[test]
fn insert_into_missing_table() {
    let mut nimbus = Nimbus::new();
    assert_eq!(
        nimbus.eval(insert("missing", vec![vec![num("1")]])),
        Err(NimbusError::TableNotFound(name("missing")))
    );
    assert_eq!(nimbus.table_count(), 0);
}

#[test]
fn select_from_missing_table() {
    let mut nimbus = Nimbus::new();
    assert_eq!(nimbus.eval(select_all("nope")), Err(NimbusError::TableNotFound(name("nope"))));
}

#[test]
fn non_literal_insert_is_atomic() {
    let mut nimbus = Nimbus::new();
    nimbus.eval(create("t", "CREATE TABLE t (a, b)")).unwrap();
    nimbus.eval(insert("t", vec![vec![num("0"), num("0")]])).unwrap();
    let r = nimbus.eval(insert_exprs(
        "t",
        vec![
            vec![Expr::Literal(num("5")), Expr::Literal(num("6"))],
            vec![Expr::Literal(num("1")), Expr::Other],
        ],
    ));
    assert_eq!(r, Err(NimbusError::Unsupported(Unsupported::NonLiteral)));
    assert_eq!(rows_of(&mut nimbus, "t"), vec![vec![num("0"), num("0")]]);
}

#[test]
fn narrowed_selects_are_unsupported() {
    let mut nimbus = Nimbus::new();
    nimbus.eval(create("t", "CREATE TABLE t (a)")).unwrap();
    nimbus.eval(insert("t", vec![vec![num("1")]])).unwrap();

    let column_a = select_from(vec![ResultColumn::Expr(Expr::Other, None)], "t");
    assert_eq!(
        nimbus.eval(Some(Cmd::Stmt(Stmt::Select(column_a)))),
        Err(NimbusError::Unsupported(Unsupported::SelectColumns))
    );

    let mut filtered = select_from(vec![ResultColumn::Star], "t");
    if let OneSelect::Select { where_clause, .. } = &mut filtered.body {
        *where_clause = true;
    }
    assert_eq!(
        nimbus.eval(Some(Cmd::Stmt(Stmt::Select(filtered)))),
        Err(NimbusError::Unsupported(Unsupported::SelectWhere))
    );

    let mut limited = select_from(vec![ResultColumn::Star], "t");
    limited.limit = true;
    assert_eq!(
        nimbus.eval(Some(Cmd::Stmt(Stmt::Select(limited)))),
        Err(NimbusError::Unsupported(Unsupported::SelectLimit))
    );
    assert_eq!(rows_of(&mut nimbus, "t"), vec![vec![num("1")]]);
}

#[test]
fn nothing_parsed_is_empty() {
    let mut nimbus = Nimbus::new();
    assert_eq!(nimbus.eval(None), Ok(NimbusExecuteResult::NoneResult));
    assert_eq!(nimbus.table_count(), 0);
}

#[test]
fn recreate_keeps_data() {
    let mut nimbus = Nimbus::new();
    nimbus.eval(create("t", "CREATE TABLE t (a)")).unwrap();
    nimbus.eval(insert("t", vec![vec![num("7")]])).unwrap();
    assert_eq!(
        nimbus.eval(create("t", "CREATE TABLE t (b, c)")),
        Ok(NimbusExecuteResult::CreateTableResult(false))
    );
    assert_eq!(nimbus.table_count(), 1);
    assert_eq!(nimbus.table(0).definition(), "CREATE TABLE t (a)");
    assert_eq!(rows_of(&mut nimbus, "t"), vec![vec![num("7")]]);
}

#[test]
fn names_compare_exactly() {
    let mut nimbus = Nimbus::new();
    nimbus.eval(create("t", "CREATE TABLE t (a)")).unwrap();
    assert_eq!(
        nimbus.eval(create("T", "CREATE TABLE T (a)")),
        Ok(NimbusExecuteResult::CreateTableResult(true))
    );
    let qualified = QualifiedName { db_name: Some("main".to_string()), name: "t".to_string(), alias: None };
    assert_eq!(
        nimbus.eval(Some(Cmd::Stmt(Stmt::CreateTable {
            tbl_name: qualified,
            definition: "CREATE TABLE main.t (a)".to_string()
        }))),
        Ok(NimbusExecuteResult::CreateTableResult(true))
    );
    assert_eq!(nimbus.table_count(), 3);
}

#[test]
fn select_result_is_a_copy() {
    let mut nimbus = Nimbus::new();
    nimbus.eval(create("t", "CREATE TABLE t (a)")).unwrap();
    nimbus.eval(insert("t", vec![vec![num("1")]])).unwrap();
    let before = rows_of(&mut nimbus, "t");
    nimbus.eval(insert("t", vec![vec![num("2")]])).unwrap();
    assert_eq!(before, vec![vec![num("1")]]);
}

#[test]
fn update_is_not_implemented() {
    let mut nimbus = Nimbus::new();
    assert_eq!(nimbus.eval(Some(Cmd::Stmt(Stmt::Update))), Err(NimbusError::NotImplemented));
}

#[test]
fn other_statements_and_explain_are_unsupported() {
    let mut nimbus = Nimbus::new();
    assert_eq!(
        nimbus.eval(Some(Cmd::Stmt(Stmt::Other))),
        Err(NimbusError::Unsupported(Unsupported::Statement))
    );
    assert_eq!(
        nimbus.eval(Some(Cmd::Explain(Stmt::Other))),
        Err(NimbusError::Unsupported(Unsupported::Explain))
    );
    assert_eq!(
        nimbus.eval(Some(Cmd::ExplainQueryPlan(Stmt::Update))),
        Err(NimbusError::Unsupported(Unsupported::ExplainQueryPlan))
    );
}

#[test]
fn insert_clauses_are_unsupported() {
    let mut nimbus = Nimbus::new();
    nimbus.eval(create("t", "CREATE TABLE t (a)")).unwrap();
    let base = || Stmt::Insert {
        with: false,
        or_conflict: false,
        tbl_name: name("t"),
        columns: false,
        body: InsertBody::Select(values(vec![vec![Expr::Literal(num("1"))]]), false),
        returning: false,
    };
    let cases: Vec<(Box<dyn Fn(&mut Stmt)>, Unsupported)> = vec![
        (Box::new(|s: &mut Stmt| if let Stmt::Insert { with, .. } = s { *with = true }), Unsupported::InsertWith),
        (Box::new(|s: &mut Stmt| if let Stmt::Insert { or_conflict, .. } = s { *or_conflict = true }), Unsupported::InsertOrConflict),
        (Box::new(|s: &mut Stmt| if let Stmt::Insert { columns, .. } = s { *columns = true }), Unsupported::InsertColumns),
        (Box::new(|s: &mut Stmt| if let Stmt::Insert { returning, .. } = s { *returning = true }), Unsupported::InsertReturning),
        (Box::new(|s: &mut Stmt| if let Stmt::Insert { body, .. } = s { *body = InsertBody::DefaultValues }), Unsupported::InsertDefaultValues),
        (
            Box::new(|s: &mut Stmt| if let Stmt::Insert { body: InsertBody::Select(_, upsert), .. } = s { *upsert = true }),
            Unsupported::InsertUpsert,
        ),
        (
            Box::new(|s: &mut Stmt| if let Stmt::Insert { body, .. } = s { *body = InsertBody::Select(select_from(vec![ResultColumn::Star], "t"), false) }),
            Unsupported::InsertSelect,
        ),
    ];
    for (change, reason) in cases {
        let mut stmt = base();
        change(&mut stmt);
        assert_eq!(nimbus.eval(Some(Cmd::Stmt(stmt))), Err(NimbusError::Unsupported(reason)));
    }
    assert_eq!(rows_of(&mut nimbus, "t"), Vec::<Vec<Literal>>::new());
}

#[test]
fn select_clauses_are_unsupported() {
    let mut nimbus = Nimbus::new();
    nimbus.eval(create("t", "CREATE TABLE t (a)")).unwrap();
    let mut with = select_from(vec![ResultColumn::Star], "t");
    with.with = true;
    assert_eq!(nimbus.eval(Some(Cmd::Stmt(Stmt::Select(with)))), Err(NimbusError::Unsupported(Unsupported::SelectWith)));
    let mut compound = select_from(vec![ResultColumn::Star], "t");
    compound.compounds = true;
    assert_eq!(nimbus.eval(Some(Cmd::Stmt(Stmt::Select(compound)))), Err(NimbusError::Unsupported(Unsupported::SelectCompound)));
    let joined = Select {
        body: OneSelect::Select {
            distinct: false,
            columns: vec![ResultColumn::Star],
            from: Some(FromClause {
                select: Some(SelectTable::Table { name: name("t"), aliased: false, indexed: false }),
                joins: true,
            }),
            where_clause: false,
            group_by: false,
            having: false,
            window_clause: false,
        },
        ..values(vec![])
    };
    assert_eq!(nimbus.eval(Some(Cmd::Stmt(Stmt::Select(joined)))), Err(NimbusError::Unsupported(Unsupported::SelectJoin)));
    let aliased = Select {
        body: OneSelect::Select {
            distinct: false,
            columns: vec![ResultColumn::Star],
            from: Some(FromClause {
                select: Some(SelectTable::Table { name: name("t"), aliased: true, indexed: false }),
                joins: false,
            }),
            where_clause: false,
            group_by: false,
            having: false,
            window_clause: false,
        },
        ..values(vec![])
    };
    assert_eq!(nimbus.eval(Some(Cmd::Stmt(Stmt::Select(aliased)))), Err(NimbusError::Unsupported(Unsupported::SelectAlias)));
    assert_eq!(
        nimbus.eval(Some(Cmd::Stmt(Stmt::Select(values(vec![vec![Expr::Literal(num("1"))]]))))),
        Err(NimbusError::Unsupported(Unsupported::SelectValues))
    );
    let two_stars = select_from(vec![ResultColumn::Star, ResultColumn::Star], "t");
    assert_eq!(nimbus.eval(Some(Cmd::Stmt(Stmt::Select(two_stars)))), Err(NimbusError::Unsupported(Unsupported::SelectColumns)));
    let table_star = select_from(vec![ResultColumn::TableStar("t".to_string())], "t");
    assert_eq!(nimbus.eval(Some(Cmd::Stmt(Stmt::Select(table_star)))), Err(NimbusError::Unsupported(Unsupported::SelectColumns)));
}
