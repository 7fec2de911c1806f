use nimbus::script::ValueKind::String_;
use nimbus::script::{parse, script, Node, NodeKind, ScriptError, SqliteTestStatement, ValueKind};

#[test]
fn test_select_1_1_4() {
    let expected = Node {
        kind: NodeKind::DoTest,
        value: Some(String_("select1-1.4".to_string())),
        children: Some(vec![
            Node {
                kind: NodeKind::SqlLiteral,
                value: Some(String_("SELECT f1 FROM test1".to_string())),
                children: None,
            },
            Node {
                kind: NodeKind::ResultLiteral,
                value: Some(String_("11".to_string())),
                children: None,
            },
        ]),
    };

    assert_eq!(
        parse(
            r#"do_test select1-1.4 {
  execsql {SELECT f1 FROM test1}
} {11}"#
        )
        .unwrap()
        .first()
        .unwrap(),
        &expected
    )
}

const SAMPLE: &str = r#"# a comment
set testdir [file dirname $argv0]
source $testdir/tester.tcl

execsql {CREATE TABLE test1(f1 int, f2 int)}
do_test select1-1.1 {
  set v [catch {execsql {SELECT * FROM test2}} msg]
  lappend v $msg
} {1 {no such table: test2}}
do_test select1-1.2 {
  execsql {SELECT f1
    FROM test1}
} {11}

set long {This is a string that is too big to fit inside a NBFS buffer}
do_test never-read {
"#;

#[test]
fn script_reads_all_record_kinds() {
    let records = script(SAMPLE).unwrap();
    assert_eq!(
        records,
        vec![
            SqliteTestStatement::ExecSql { sql: "CREATE TABLE test1(f1 int, f2 int)".to_string() },
            SqliteTestStatement::Test {
                name: "select1-1.1".to_string(),
                catch: true,
                sql: "SELECT * FROM test2".to_string(),
                expected: "1 {no such table: test2}".to_string(),
            },
            SqliteTestStatement::Test {
                name: "select1-1.2".to_string(),
                catch: false,
                sql: "SELECT f1 FROM test1".to_string(),
                expected: "11".to_string(),
            },
        ]
    );
}

#[test]
fn script_without_end_marker() {
    assert_eq!(script("execsql {SELECT 1}\n"), Err(ScriptError::MissingEnd));
}

#[test]
fn parse_catch_record() {
    let nodes = parse("do_test x-1 {\n set v [catch {execsql {SELECT 1}} msg]\n} {0 1}").unwrap();
    assert_eq!(
        nodes,
        vec![Node {
            kind: NodeKind::DoTest,
            value: Some(String_("x-1".to_string())),
            children: Some(vec![
                Node::mk_node(NodeKind::Catch, ValueKind::Bool_(true)),
                Node::mk_node(NodeKind::SqlLiteral, String_("SELECT 1".to_string())),
                Node::mk_node(NodeKind::ResultLiteral, String_("0 1".to_string())),
            ]),
        }]
    );
}

#[test]
fn parse_empty_and_comments() {
    assert_eq!(parse(""), Ok(vec![]));
    assert_eq!(parse("  \n# only a comment\n\t\n"), Ok(vec![]));
}

#[test]
fn parse_errors() {
    assert_eq!(parse("hello"), Err(ScriptError::CouldNotParse("hello".to_string())));
    assert_eq!(parse("do_test x-1"), Err(ScriptError::ExpectedBrace));
    assert_eq!(parse("do_test x-1 {"), Err(ScriptError::ExpectedLine));
    assert_eq!(parse("do_test x-1 {\n  puts hi\n}"), Err(ScriptError::ExpectedSqlStart));
    assert_eq!(
        parse("do_test x-1 {\n  execsql {SELECT 1} extra\n} {1}"),
        Err(ScriptError::TrailingChars("} extra".to_string()))
    );
    assert_eq!(
        parse("do_test x-1 {\n  set v [catch {execsql {SELECT 1}\n} {1}"),
        Err(ScriptError::ExpectedCatchEnd)
    );
    assert_eq!(parse("do_test x-1 {\n  execsql {SELECT 1}\n} 11"), Err(ScriptError::ExpectedResult));
    assert_eq!(
        parse("do_test x-1 {\n  execsql {SELECT 1}\nwhat"),
        Err(ScriptError::UnexpectedLine("what".to_string()))
    );
}

#[test]
fn try_from_records() {
    let exec = Node::mk_node(NodeKind::ExecSql, String_("SELECT 2".to_string()));
    assert_eq!(
        SqliteTestStatement::try_from(exec),
        Ok(SqliteTestStatement::ExecSql { sql: "SELECT 2".to_string() })
    );
    let incomplete = Node::mk_node(NodeKind::DoTest, String_("t".to_string()));
    assert_eq!(SqliteTestStatement::try_from(incomplete), Err(ScriptError::Malformed));
}

#[test]
fn try_from_takes_first_child_of_each_kind() {
    let node = Node {
        kind: NodeKind::DoTest,
        value: Some(String_("t-2".to_string())),
        children: Some(vec![
            Node::mk_node(NodeKind::ResultLiteral, String_("first".to_string())),
            Node::mk_node(NodeKind::SqlLiteral, String_("SELECT 1".to_string())),
            Node::mk_node(NodeKind::ResultLiteral, String_("second".to_string())),
            Node { kind: NodeKind::Catch, value: None, children: None },
        ]),
    };
    assert_eq!(
        SqliteTestStatement::try_from(node),
        Ok(SqliteTestStatement::Test {
            name: "t-2".to_string(),
            catch: false,
            sql: "SELECT 1".to_string(),
            expected: "first".to_string(),
        })
    );
}

#[test]
fn try_from_exec_ignores_children() {
    let mut node = Node::mk_node(NodeKind::ExecSql, String_("SELECT 3".to_string()));
    node.add_child(Node::mk_node(NodeKind::SqlLiteral, String_("ignored".to_string())));
    assert_eq!(
        SqliteTestStatement::try_from(node),
        Ok(SqliteTestStatement::ExecSql { sql: "SELECT 3".to_string() })
    );
}

#[test]
fn try_from_malformed_nodes() {
    let text_catch = Node {
        kind: NodeKind::DoTest,
        value: Some(String_("t".to_string())),
        children: Some(vec![
            Node::mk_node(NodeKind::Catch, String_("yes".to_string())),
            Node::mk_node(NodeKind::SqlLiteral, String_("SELECT 1".to_string())),
            Node::mk_node(NodeKind::ResultLiteral, String_("1".to_string())),
        ]),
    };
    assert_eq!(SqliteTestStatement::try_from(text_catch), Err(ScriptError::Malformed));
    let leaf = Node::mk_node(NodeKind::SqlLiteral, String_("SELECT 1".to_string()));
    assert_eq!(SqliteTestStatement::try_from(leaf), Err(ScriptError::Malformed));
}

#[test]
fn script_reports_parse_errors() {
    let text = "bogus\nset long {This is a string that is too big to fit inside a NBFS buffer}\n";
    assert_eq!(script(text), Err(ScriptError::CouldNotParse("bogus".to_string())));
}
