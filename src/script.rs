//! Reading the line-oriented script format of the SQLite test suite into
//! records to replay: a bare `execsql {...}` directive, or a named
//! `do_test` carrying the SQL, whether an error is caught, and the expected
//! output.
use crate::text::{
    chars_of, ends_with, find, first_occ, last_occ, occurs_at, replace, replaced, rfind, slice_of,
    starts_with, string_of, trim, trimmed,
};
use vstd::prelude::*;

verus! {

#[derive(PartialEq, Eq, Structural, Debug, Clone, Copy)]
pub enum NodeKind {
    ExecSql,
    DoTest,
    SqlLiteral,
    ResultLiteral,
    Catch,
}

#[derive(Debug, PartialEq, Eq)]
pub enum ValueKind {
    String_(String),
    Bool_(bool),
}

/// A record of a script, or one part of a record.
#[derive(Debug, PartialEq, Eq)]
pub struct Node {
    pub kind: NodeKind,
    pub value: Option<ValueKind>,
    pub children: Option<Vec<Node>>,
}

/// Why a script could not be read.
#[derive(Debug, PartialEq, Eq)]
pub enum ScriptError {
    /// a value or a child was given to no record
    TopLevel,
    /// a `do_test` line without `{`
    ExpectedBrace,
    /// a `do_test` line whose name is empty
    MissingName,
    /// the script ended inside a record
    ExpectedLine,
    /// a caught `execsql` without its closing `}} msg]`
    ExpectedCatchEnd,
    /// an `execsql {` without its closing `}`
    ExpectedSqlEnd,
    /// a `do_test` whose body is no `execsql`
    ExpectedSqlStart,
    /// text after the closing brace of the SQL
    TrailingChars(String),
    /// the expected output is not between braces
    ExpectedResult,
    /// a line where the end of a `do_test` was due
    UnexpectedLine(String),
    /// a line that starts no record
    CouldNotParse(String),
    /// a record that lacks a part, or whose part has the wrong type
    Malformed,
    /// the script does not hold the line where reading stops
    MissingEnd,
}

/// The children of a node, none where it has no list of them.
pub open spec fn children_of(n: Node) -> Seq<Node> {
    match n.children {
        Some(v) => v@,
        None => Seq::empty(),
    }
}

/// A node of the given kind holding the given text and no children.
pub open spec fn text_leaf_is(n: Node, k: NodeKind, t: Seq<char>) -> bool {
    &&& n.kind == k
    &&& n.value matches Some(ValueKind::String_(_))
    &&& text_of(n.value)@ == t
    &&& n.children is None
}

/// A node that marks a caught error.
pub open spec fn is_catch_leaf(n: Node) -> bool {
    &&& n.kind == NodeKind::Catch
    &&& n.value == Some(ValueKind::Bool_(true))
    &&& n.children is None
}

/// The text that a value holds.
pub open spec fn text_of(v: Option<ValueKind>) -> String {
    match v {
        Some(ValueKind::String_(s)) => s,
        _ => arbitrary(),
    }
}

/// What a record of a script says.
pub enum RecordView {
    Exec { sql: Seq<char> },
    Test { name: Seq<char>, catch: bool, sql: Seq<char>, expected: Seq<char> },
}

/// The node is the record: an `ExecSql` holding the SQL, or a `DoTest`
/// holding the name, with a catch mark where the error is caught, then the
/// SQL, then the expected output.
pub open spec fn node_is(n: Node, r: RecordView) -> bool {
    match r {
        RecordView::Exec { sql } => {
            &&& n.kind == NodeKind::ExecSql
            &&& n.value matches Some(ValueKind::String_(_))
            &&& text_of(n.value)@ == sql
            &&& n.children is None
        },
        RecordView::Test { name, catch, sql, expected } => {
            &&& n.kind == NodeKind::DoTest
            &&& n.value matches Some(ValueKind::String_(_))
            &&& text_of(n.value)@ == name
            &&& n.children is Some
            &&& {
                let ch = children_of(n);
                if catch {
                    &&& ch.len() == 3
                    &&& is_catch_leaf(ch[0])
                    &&& text_leaf_is(ch[1], NodeKind::SqlLiteral, sql)
                    &&& text_leaf_is(ch[2], NodeKind::ResultLiteral, expected)
                } else {
                    &&& ch.len() == 2
                    &&& text_leaf_is(ch[0], NodeKind::SqlLiteral, sql)
                    &&& text_leaf_is(ch[1], NodeKind::ResultLiteral, expected)
                }
            }
        },
    }
}

impl Node {
    pub fn mk_node(kind: NodeKind, value: ValueKind) -> (r: Node)
        ensures
            r == (Node { kind, value: Some(value), children: None }),
    {
        Node { kind, value: Some(value), children: None }
    }

    /// Appends a child.
    pub fn add_child(&mut self, node: Node)
        ensures
            final(self).kind == old(self).kind,
            final(self).value == old(self).value,
            final(self).children is Some,
            children_of(*final(self)) == children_of(*old(self)).push(node),
    {
        let mut taken: Option<Vec<Node>> = None;
        std::mem::swap(&mut taken, &mut self.children);
        let mut v = match taken {
            Some(v) => v,
            None => Vec::new(),
        };
        v.push(node);
        self.children = Some(v);
    }
}

/// Whether a record is being read, and which.
#[derive(PartialEq, Eq, Debug)]
pub enum State {
    Toplevel,
    Parsing(Node),
}

impl State {
    pub fn is_toplevel(&self) -> (r: bool)
        ensures
            r == (*self is Toplevel),
    {
        match self {
            State::Toplevel => true,
            State::Parsing(_) => false,
        }
    }

    /// The start of a record of the given kind.
    pub fn mk_state(kind: NodeKind) -> (r: State)
        ensures
            r == State::Parsing(Node { kind, value: None, children: None }),
    {
        State::Parsing(Node { kind, value: None, children: None })
    }

    /// Gives the record being read its value.
    pub fn set_value(&mut self, value: ValueKind) -> (r: Result<(), ScriptError>)
        ensures
            match *old(self) {
                State::Toplevel => {
                    &&& r == Err::<(), ScriptError>(ScriptError::TopLevel)
                    &&& *final(self) == *old(self)
                },
                State::Parsing(n) => r is Ok && *final(self) == State::Parsing(
                    Node { value: Some(value), ..n },
                ),
            },
    {
        if self.is_toplevel() {
            return Err(ScriptError::TopLevel);
        }
        let mut st = State::Toplevel;
        std::mem::swap(&mut st, self);
        match st {
            State::Parsing(node) => {
                *self = State::Parsing(Node { value: Some(value), ..node });
            },
            State::Toplevel => {},
        }
        Ok(())
    }

    /// Adds a part to the record being read.
    pub fn add_child(&mut self, node: Node) -> (r: Result<(), ScriptError>)
        ensures
            match *old(self) {
                State::Toplevel => {
                    &&& r == Err::<(), ScriptError>(ScriptError::TopLevel)
                    &&& *final(self) == *old(self)
                },
                State::Parsing(n) => r is Ok && *final(self) is Parsing && {
                    let m = (*final(self))->Parsing_0;
                    &&& m.kind == n.kind
                    &&& m.value == n.value
                    &&& m.children is Some
                    &&& children_of(m) == children_of(n).push(node)
                },
            },
    {
        if self.is_toplevel() {
            return Err(ScriptError::TopLevel);
        }
        let mut st = State::Toplevel;
        std::mem::swap(&mut st, self);
        match st {
            State::Parsing(parent) => {
                let mut parent = parent;
                parent.add_child(node);
                *self = State::Parsing(parent);
            },
            State::Toplevel => {},
        }
        Ok(())
    }

    /// The record that was read.
    pub fn get_node(self) -> (r: Result<Node, ScriptError>)
        ensures
            match self {
                State::Toplevel => r == Err::<Node, ScriptError>(ScriptError::TopLevel),
                State::Parsing(n) => r == Ok::<Node, ScriptError>(n),
            },
    {
        match self {
            State::Parsing(node) => Ok(node),
            State::Toplevel => Err(ScriptError::TopLevel),
        }
    }
}

} // verus!

verus! {

/// Why a script could not be read, as the contracts speak of it.
pub enum ErrorView {
    TopLevel,
    ExpectedBrace,
    MissingName,
    ExpectedLine,
    ExpectedCatchEnd,
    ExpectedSqlEnd,
    ExpectedSqlStart,
    TrailingChars(Seq<char>),
    ExpectedResult,
    UnexpectedLine(Seq<char>),
    CouldNotParse(Seq<char>),
    Malformed,
    MissingEnd,
}

impl View for ScriptError {
    type V = ErrorView;

    open spec fn view(&self) -> ErrorView {
        match self {
            ScriptError::TopLevel => ErrorView::TopLevel,
            ScriptError::ExpectedBrace => ErrorView::ExpectedBrace,
            ScriptError::MissingName => ErrorView::MissingName,
            ScriptError::ExpectedLine => ErrorView::ExpectedLine,
            ScriptError::ExpectedCatchEnd => ErrorView::ExpectedCatchEnd,
            ScriptError::ExpectedSqlEnd => ErrorView::ExpectedSqlEnd,
            ScriptError::ExpectedSqlStart => ErrorView::ExpectedSqlStart,
            ScriptError::TrailingChars(s) => ErrorView::TrailingChars(s@),
            ScriptError::ExpectedResult => ErrorView::ExpectedResult,
            ScriptError::UnexpectedLine(s) => ErrorView::UnexpectedLine(s@),
            ScriptError::CouldNotParse(s) => ErrorView::CouldNotParse(s@),
            ScriptError::Malformed => ErrorView::Malformed,
            ScriptError::MissingEnd => ErrorView::MissingEnd,
        }
    }
}

/// The lines of `s` from the one that starts at `start`, where `i` is the
/// next character to look at: the text split at each `'\n'`.
pub open spec fn lines_acc(s: Seq<char>, start: int, i: int) -> Seq<Seq<char>>
    decreases s.len() - i,
{
    if start < 0 || start > i || start > s.len() {
        Seq::empty()
    } else if i >= s.len() {
        seq![s.subrange(start, s.len() as int)]
    } else if s[i] == '\n' {
        seq![s.subrange(start, i)] + lines_acc(s, i + 1, i + 1)
    } else {
        lines_acc(s, start, i + 1)
    }
}

/// The lines of `s`: the text split at each `'\n'`.
pub open spec fn lines_of(s: Seq<char>) -> Seq<Seq<char>> {
    lines_acc(s, 0, 0)
}

/// A text result as the contracts speak of it.
pub open spec fn text_result(r: Result<String, ScriptError>) -> Result<Seq<char>, ErrorView> {
    match r {
        Ok(s) => Ok(s@),
        Err(e) => Err(e@),
    }
}

/// The SQL in `line[from..end]`, where the closing text of length
/// `end_len` that stands at `end` must end the line.
pub open spec fn sql_between(line: Seq<char>, from: int, end: int, end_len: int) -> Result<
    Seq<char>,
    ErrorView,
> {
    if from > end {
        Err(ErrorView::ExpectedSqlEnd)
    } else if end + end_len < line.len() {
        Err(ErrorView::TrailingChars(line.subrange(end, line.len() as int)))
    } else {
        Ok(line.subrange(from, end))
    }
}

/// The SQL of the body of a `do_test` that starts the lines, whether its
/// error is caught, and how many lines the body takes.
pub open spec fn body_spec(ls: Seq<Seq<char>>) -> Result<(Seq<char>, bool, int), ErrorView> {
    if ls.len() == 0 {
        Err(ErrorView::ExpectedLine)
    } else {
        let line = trimmed(ls[0]);
        match first_occ(line, "set v [catch {execsql {"@) {
            Some(s) => match first_occ(line, "}} msg]"@) {
                Some(e) => match sql_between(line, s + "set v [catch {execsql {"@.len(), e, 7) {
                    Ok(sql) => Ok((sql, true, 1)),
                    Err(x) => Err(x),
                },
                None => Err(ErrorView::ExpectedCatchEnd),
            },
            None => match first_occ(line, "execsql {"@) {
                Some(s) => match last_occ(line, "}"@) {
                    Some(e) => match sql_between(line, s + 9, e, 1) {
                        Ok(sql) => Ok((sql, false, 1)),
                        Err(x) => Err(x),
                    },
                    None => if ls.len() < 2 {
                        Err(ErrorView::ExpectedLine)
                    } else {
                        let joined = line + seq![' '] + trimmed(ls[1]);
                        match last_occ(joined, "}"@) {
                            Some(e) => match sql_between(joined, s + 9, e, 1) {
                                Ok(sql) => Ok((sql, false, 2)),
                                Err(x) => Err(x),
                            },
                            None => Err(ErrorView::ExpectedSqlEnd),
                        }
                    },
                },
                None => Err(ErrorView::ExpectedSqlStart),
            },
        }
    }
}

/// The expected output in the closing line `} {output}` that starts the
/// lines, perhaps after a line `lappend v $msg`, and how many lines it takes.
pub open spec fn result_spec(ls: Seq<Seq<char>>) -> Result<(Seq<char>, int), ErrorView> {
    if ls.len() == 0 {
        Err(ErrorView::ExpectedLine)
    } else if trimmed(ls[0]) == "lappend v $msg"@ && ls.len() < 2 {
        Err(ErrorView::ExpectedLine)
    } else {
        let used: int = if trimmed(ls[0]) == "lappend v $msg"@ {
            2
        } else {
            1
        };
        let line = trimmed(ls[used - 1]);
        if !occurs_at(line, "}"@, 0) {
            Err(ErrorView::UnexpectedLine(line))
        } else {
            let rest = trimmed(line.subrange(1, line.len() as int));
            if occurs_at(rest, "{"@, 0) && rest.len() >= 1 && occurs_at(
                rest,
                "}"@,
                rest.len() - 1,
            ) {
                Ok((rest.subrange(1, rest.len() - 1), used))
            } else {
                Err(ErrorView::ExpectedResult)
            }
        }
    }
}

/// The `do_test` record whose first line is given and whose other lines
/// start `ls`, and how many of those it takes.
pub open spec fn test_record(first: Seq<char>, ls: Seq<Seq<char>>) -> Result<
    (RecordView, int),
    ErrorView,
> {
    let line = replaced(first, "do_test "@, Seq::empty());
    match first_occ(line, "{"@) {
        None => Err(ErrorView::ExpectedBrace),
        Some(idx) => if idx == 0 {
            Err(ErrorView::MissingName)
        } else {
            match body_spec(ls) {
                Err(e) => Err(e),
                Ok((sql, catch, u1)) => match result_spec(ls.subrange(u1, ls.len() as int)) {
                    Err(e) => Err(e),
                    Ok((expected, u2)) => Ok(
                        (
                            RecordView::Test {
                                name: line.subrange(0, idx - 1),
                                catch,
                                sql,
                                expected,
                            },
                            u1 + u2,
                        ),
                    ),
                },
            }
        },
    }
}

/// The SQL of a top-level `execsql {...}` line, where it has a closing
/// brace.
pub open spec fn exec_record(line: Seq<char>) -> Option<Seq<char>> {
    let l = replaced(line, "execsql {"@, Seq::empty());
    match last_occ(l, "}"@) {
        Some(idx) => Some(l.subrange(0, idx)),
        None => None,
    }
}

/// A line passed over between records: blank, a comment, or a `set` or
/// `source` command.
pub open spec fn is_skipped(line: Seq<char>) -> bool {
    occurs_at(line, "#"@, 0) || line.len() == 0 || occurs_at(line, "set"@, 0) || occurs_at(
        line,
        "source"@,
        0,
    )
}

/// The records read before `res`, then those of `res`.
pub open spec fn prepend_all(seen: Seq<RecordView>, res: Result<Seq<RecordView>, ErrorView>) -> Result<
    Seq<RecordView>,
    ErrorView,
> {
    match res {
        Ok(rs) => Ok(seen + rs),
        Err(e) => Err(e),
    }
}

/// The records of the lines, in order, or the first error.
pub open spec fn records(ls: Seq<Seq<char>>) -> Result<Seq<RecordView>, ErrorView>
    decreases ls.len(),
{
    if ls.len() == 0 {
        Ok(Seq::empty())
    } else {
        let line = trimmed(trimmed(ls[0]));
        let rest = ls.drop_first();
        if is_skipped(line) {
            records(rest)
        } else if occurs_at(line, "do_test"@, 0) {
            match test_record(line, rest) {
                Err(e) => Err(e),
                Ok((r, used)) => if 0 <= used <= rest.len() {
                    prepend_all(seq![r], records(rest.subrange(used, rest.len() as int)))
                } else {
                    Err(ErrorView::Malformed)
                },
            }
        } else if occurs_at(line, "execsql {"@, 0) {
            match exec_record(line) {
                Some(sql) => prepend_all(seq![RecordView::Exec { sql }], records(rest)),
                None => records(rest),
            }
        } else {
            Err(ErrorView::CouldNotParse(line))
        }
    }
}

/// The lines of a text, one at a time, each without its surrounding white
/// space.
struct Lines {
    chars: Vec<char>,
    pos: usize,
    done: bool,
}

impl Lines {
    spec fn wf(&self) -> bool {
        self.pos <= self.chars@.len()
    }

    /// The lines not yet read.
    spec fn rest(&self) -> Seq<Seq<char>> {
        if self.done {
            Seq::empty()
        } else {
            lines_acc(self.chars@, self.pos as int, self.pos as int)
        }
    }

    fn new(src: &str) -> (r: Lines)
        ensures
            r.wf(),
            r.rest() == lines_of(src@),
    {
        Lines { chars: chars_of(src), pos: 0, done: false }
    }

    fn next(&mut self) -> (r: Option<Vec<char>>)
        requires
            old(self).wf(),
        ensures
            final(self).wf(),
            match r {
                Some(l) => old(self).rest().len() > 0 && l@ == trimmed(old(self).rest()[0])
                    && final(self).rest() == old(self).rest().drop_first(),
                None => old(self).rest().len() == 0 && final(self).rest() == old(self).rest(),
            },
    {
        if self.done {
            return None;
        }
        let n = self.chars.len();
        let ghost c = self.chars@;
        let ghost p = self.pos as int;
        let mut e: usize = self.pos;
        while e < n && self.chars[e] != '\n'
            invariant
                self.pos <= e <= n == self.chars@.len(),
                c == self.chars@,
                p == self.pos,
                lines_acc(c, p, p) == lines_acc(c, p, e as int),
            decreases n - e,
        {
            e = e + 1;
        }
        let line = slice_of(self.chars.as_slice(), self.pos, e);
        if e < n {
            self.pos = e + 1;
            assert(lines_acc(c, p, e as int) == seq![c.subrange(p, e as int)] + lines_acc(
                c,
                e + 1,
                e + 1,
            ));
            assert(lines_acc(c, p, p).drop_first() =~= lines_acc(c, e + 1, e + 1));
        } else {
            self.done = true;
            assert(lines_acc(c, p, p).drop_first() =~= Seq::<Seq<char>>::empty());
        }
        Some(trim(line.as_slice()))
    }
}

/// The SQL in `line[from..end]`, where the closing text of length `end_len`
/// that stands at `end` ends the line.
fn take_sql(line: &[char], from: usize, end: usize, end_len: usize) -> (r: Result<
    String,
    ScriptError,
>)
    requires
        end + end_len <= line@.len(),
    ensures
        text_result(r) == sql_between(line@, from as int, end as int, end_len as int),
{
    if from > end {
        return Err(ScriptError::ExpectedSqlEnd);
    }
    let n = line.len();
    if end + end_len < n {
        return Err(ScriptError::TrailingChars(string_of(slice_of(line, end, n).as_slice())));
    }
    Ok(string_of(slice_of(line, from, end).as_slice()))
}

/// The SQL of the body of a `do_test`, and whether its error is caught;
/// the body may run over into the next line.
fn test_body(lines: &mut Lines) -> (r: Result<(String, bool), ScriptError>)
    requires
        old(lines).wf(),
    ensures
        final(lines).wf(),
        match r {
            Ok((sql, catch)) => body_spec(old(lines).rest()) matches Ok((s, c, u)) && s == sql@
                && c == catch && 0 <= u <= old(lines).rest().len() && final(lines).rest() == old(
                lines,
            ).rest().subrange(u, old(lines).rest().len() as int),
            Err(e) => body_spec(old(lines).rest()) == Err::<(Seq<char>, bool, int), ErrorView>(e@),
        },
{
    let ghost ls = lines.rest();
    let line = match lines.next() {
        Some(l) => l,
        None => return Err(ScriptError::ExpectedLine),
    };
    assert(ls.drop_first() =~= ls.subrange(1, ls.len() as int));
    let start_catch = chars_of("set v [catch {execsql {");
    let end_catch = chars_of("}} msg]");
    let start_sql = chars_of("execsql {");
    let end_sql = chars_of("}");
    proof {
        reveal_strlit("}} msg]");
        reveal_strlit("execsql {");
        reveal_strlit("}");
    }
    if let Some(idx_start) = find(line.as_slice(), start_catch.as_slice()) {
        match find(line.as_slice(), end_catch.as_slice()) {
            Some(idx_end) => {
                match take_sql(
                    line.as_slice(),
                    idx_start + start_catch.len(),
                    idx_end,
                    end_catch.len(),
                ) {
                    Ok(sql) => Ok((sql, true)),
                    Err(e) => Err(e),
                }
            },
            None => Err(ScriptError::ExpectedCatchEnd),
        }
    } else if let Some(idx_start) = find(line.as_slice(), start_sql.as_slice()) {
        let from = idx_start + start_sql.len();
        match rfind(line.as_slice(), end_sql.as_slice()) {
            Some(idx_end) => match take_sql(line.as_slice(), from, idx_end, end_sql.len()) {
                Ok(sql) => Ok((sql, false)),
                Err(e) => Err(e),
            },
            None => {
                let next_line = match lines.next() {
                    Some(l) => l,
                    None => return Err(ScriptError::ExpectedLine),
                };
                assert(ls.subrange(1, ls.len() as int).drop_first() =~= ls.subrange(
                    2,
                    ls.len() as int,
                ));
                let ghost first = line@;
                let mut joined = line;
                joined.push(' ');
                let mut k: usize = 0;
                while k < next_line.len()
                    invariant
                        k <= next_line@.len(),
                        joined@ == first + seq![' '] + next_line@.subrange(0, k as int),
                    decreases next_line@.len() - k,
                {
                    joined.push(next_line[k]);
                    k = k + 1;
                    assert(joined@ =~= first + seq![' '] + next_line@.subrange(0, k as int));
                }
                assert(next_line@.subrange(0, k as int) =~= next_line@);
                match rfind(joined.as_slice(), end_sql.as_slice()) {
                    Some(idx_end) => match take_sql(
                        joined.as_slice(),
                        from,
                        idx_end,
                        end_sql.len(),
                    ) {
                        Ok(sql) => Ok((sql, false)),
                        Err(e) => Err(e),
                    },
                    None => Err(ScriptError::ExpectedSqlEnd),
                }
            },
        }
    } else {
        Err(ScriptError::ExpectedSqlStart)
    }
}

/// The expected output that closes a `do_test`: `} {output}`, perhaps after
/// a line `lappend v $msg`.
fn test_result(lines: &mut Lines) -> (r: Result<String, ScriptError>)
    requires
        old(lines).wf(),
    ensures
        final(lines).wf(),
        match r {
            Ok(x) => result_spec(old(lines).rest()) matches Ok((t, u)) && t == x@ && 0 <= u
                <= old(lines).rest().len() && final(lines).rest() == old(lines).rest().subrange(
                u,
                old(lines).rest().len() as int,
            ),
            Err(e) => result_spec(old(lines).rest()) == Err::<(Seq<char>, int), ErrorView>(e@),
        },
{
    let ghost ls = lines.rest();
    let mut line = match lines.next() {
        Some(l) => l,
        None => return Err(ScriptError::ExpectedLine),
    };
    assert(ls.drop_first() =~= ls.subrange(1, ls.len() as int));
    let lappend = chars_of("lappend v $msg");
    if crate::text::equal_chars(line.as_slice(), lappend.as_slice()) {
        line = match lines.next() {
            Some(l) => l,
            None => return Err(ScriptError::ExpectedLine),
        };
        assert(ls.subrange(1, ls.len() as int).drop_first() =~= ls.subrange(
            2,
            ls.len() as int,
        ));
    }
    let open = chars_of("{");
    let close = chars_of("}");
    proof {
        reveal_strlit("{");
        reveal_strlit("}");
    }
    if !starts_with(line.as_slice(), close.as_slice()) {
        return Err(ScriptError::UnexpectedLine(string_of(line.as_slice())));
    }
    let rest = trim(slice_of(line.as_slice(), 1, line.len()).as_slice());
    if starts_with(rest.as_slice(), open.as_slice()) && ends_with(
        rest.as_slice(),
        close.as_slice(),
    ) {
        assert(rest@.subrange(0, 1)[0] == rest@[0]);
        assert(rest@.len() >= 2) by {
            if rest@.len() == 1 {
                assert(rest@.subrange(0, 1)[0] == '{');
                assert(rest@.subrange(0, 1)[0] == '}');
            }
        }
        Ok(string_of(slice_of(rest.as_slice(), 1, rest.len() - 1).as_slice()))
    } else {
        Err(ScriptError::ExpectedResult)
    }
}

/// Reads one `do_test` record, whose first line is given.
fn parse_test(first: &[char], lines: &mut Lines) -> (r: Result<Node, ScriptError>)
    requires
        old(lines).wf(),
    ensures
        final(lines).wf(),
        match r {
            Ok(node) => test_record(first@, old(lines).rest()) matches Ok((rec, u)) && node_is(
                node,
                rec,
            ) && 0 <= u <= old(lines).rest().len() && final(lines).rest() == old(
                lines,
            ).rest().subrange(u, old(lines).rest().len() as int),
            Err(e) => test_record(first@, old(lines).rest()) == Err::<(RecordView, int), ErrorView>(
                e@,
            ),
        },
{
    let ghost ls = lines.rest();
    let mut state = State::mk_state(NodeKind::DoTest);
    let do_test = chars_of("do_test ");
    let no_chars: Vec<char> = Vec::new();
    proof {
        reveal_strlit("do_test ");
    }
    let line = replace(first, do_test.as_slice(), no_chars.as_slice());
    let idx = match find(line.as_slice(), chars_of("{").as_slice()) {
        Some(i) => i,
        None => return Err(ScriptError::ExpectedBrace),
    };
    if idx == 0 {
        return Err(ScriptError::MissingName);
    }
    let ident = string_of(slice_of(line.as_slice(), 0, idx - 1).as_slice());
    if let Err(e) = state.set_value(ValueKind::String_(ident)) {
        return Err(e);
    }
    let (sql, catch) = match test_body(lines) {
        Ok(b) => b,
        Err(e) => return Err(e),
    };
    let ghost ls2 = lines.rest();
    if catch {
        if let Err(e) = state.add_child(Node::mk_node(NodeKind::Catch, ValueKind::Bool_(true))) {
            return Err(e);
        }
    }
    if let Err(e) = state.add_child(Node::mk_node(NodeKind::SqlLiteral, ValueKind::String_(sql))) {
        return Err(e);
    }
    let expected = match test_result(lines) {
        Ok(x) => x,
        Err(e) => return Err(e),
    };
    if let Err(e) = state.add_child(
        Node::mk_node(NodeKind::ResultLiteral, ValueKind::String_(expected)),
    ) {
        return Err(e);
    }
    proof {
        if let Ok((_, _, u1)) = body_spec(ls) {
            if let Ok((_, u2)) = result_spec(ls.subrange(u1, ls.len() as int)) {
                assert(ls.subrange(u1, ls.len() as int).subrange(u2, ls.len() - u1) =~= ls.subrange(
                    u1 + u2,
                    ls.len() as int,
                ));
            }
        }
    }
    state.get_node()
}

/// Reads a top-level `execsql {...}` line; nothing where the line has no
/// closing brace.
fn parse_exec(line: &[char]) -> (r: Option<Node>)
    ensures
        match r {
            Some(n) => exec_record(line@) matches Some(sql) && node_is(n, RecordView::Exec { sql }),
            None => exec_record(line@) is None,
        },
{
    let exec = chars_of("execsql {");
    let no_chars: Vec<char> = Vec::new();
    proof {
        reveal_strlit("execsql {");
    }
    let line = replace(line, exec.as_slice(), no_chars.as_slice());
    match rfind(line.as_slice(), chars_of("}").as_slice()) {
        Some(idx) => {
            let sql = string_of(slice_of(line.as_slice(), 0, idx).as_slice());
            let mut state = State::mk_state(NodeKind::ExecSql);
            if state.set_value(ValueKind::String_(sql)).is_err() {
                return None;
            }
            match state.get_node() {
                Ok(n) => Some(n),
                Err(_) => None,
            }
        },
        None => None,
    }
}

/// Reads the records of a script, in order. Lines that are blank, comments
/// (`#`), or `set` or `source` commands between records are passed over; a
/// `do_test` block gives a test record, a top-level `execsql {...}` line an
/// `ExecSql` record; any other line is an error.
pub fn parse(src: &str) -> (r: Result<Vec<Node>, ScriptError>)
    ensures
        match records(lines_of(src@)) {
            Ok(recs) => r matches Ok(nodes) && nodes@.len() == recs.len() && forall|i: int|
                0 <= i < recs.len() ==> node_is(#[trigger] nodes@[i], recs[i]),
            Err(e) => r matches Err(x) && x@ == e,
        },
{
    let mut lines = Lines::new(src);
    let ghost all = lines.rest();
    let ghost mut seen: Seq<RecordView> = Seq::empty();
    let mut nodes: Vec<Node> = Vec::new();
    let hash = chars_of("#");
    let set = chars_of("set");
    let source = chars_of("source");
    let do_test = chars_of("do_test");
    let execsql = chars_of("execsql {");
    loop
        invariant
            lines.wf(),
            all == lines_of(src@),
            hash@ == "#"@,
            set@ == "set"@,
            source@ == "source"@,
            do_test@ == "do_test"@,
            execsql@ == "execsql {"@,
            nodes@.len() == seen.len(),
            forall|i: int| 0 <= i < seen.len() ==> node_is(#[trigger] nodes@[i], seen[i]),
            records(all) == prepend_all(seen, records(lines.rest())),
        ensures
            nodes@.len() == seen.len(),
            forall|i: int| 0 <= i < seen.len() ==> node_is(#[trigger] nodes@[i], seen[i]),
            records(all) == Ok::<Seq<RecordView>, ErrorView>(seen),
        decreases lines.rest().len(),
    {
        let ghost ls = lines.rest();
        let line = match lines.next() {
            Some(l) => l,
            None => {
                assert(lines.rest().len() == 0);
                assert(records(lines.rest()) == Ok::<Seq<RecordView>, ErrorView>(Seq::empty()));
                assert(seen + Seq::<RecordView>::empty() =~= seen);
                assert(records(all) == Ok::<Seq<RecordView>, ErrorView>(seen));
                break;
            },
        };
        let line = trim(line.as_slice());
        if starts_with(line.as_slice(), hash.as_slice()) || line.len() == 0 || starts_with(
            line.as_slice(),
            set.as_slice(),
        ) || starts_with(line.as_slice(), source.as_slice()) {
            continue;
        }
        if starts_with(line.as_slice(), do_test.as_slice()) {
            match parse_test(line.as_slice(), &mut lines) {
                Ok(n) => {
                    proof {
                        let (rec, u) = test_record(line@, ls.drop_first())->Ok_0;
                        assert(ls.drop_first().subrange(u, ls.drop_first().len() as int)
                            == lines.rest());
                        match records(lines.rest()) {
                            Ok(rs) => {
                                assert(seen + (seq![rec] + rs) =~= seen.push(rec) + rs);
                            },
                            Err(_) => {},
                        }
                        seen = seen.push(rec);
                    }
                    nodes.push(n);
                },
                Err(e) => return Err(e),
            }
        } else if starts_with(line.as_slice(), execsql.as_slice()) {
            if let Some(n) = parse_exec(line.as_slice()) {
                proof {
                    let rec = RecordView::Exec { sql: exec_record(line@)->Some_0 };
                    match records(lines.rest()) {
                        Ok(rs) => {
                            assert(seen + (seq![rec] + rs) =~= seen.push(rec) + rs);
                        },
                        Err(_) => {},
                    }
                    seen = seen.push(rec);
                }
                nodes.push(n);
            }
        } else {
            return Err(ScriptError::CouldNotParse(string_of(line.as_slice())));
        }
    }
    Ok(nodes)
}

} // verus!

verus! {

/// A record of a script, ready to replay.
#[derive(Debug, PartialEq, Eq)]
pub enum SqliteTestStatement {
    /// run `sql`; where `catch`, it is expected to fail, and `expected`
    /// holds the error; otherwise `expected` holds its output
    Test { name: String, catch: bool, sql: String, expected: String },
    /// run `sql`, which is expected to succeed
    ExecSql { sql: String },
}

/// The first position, from `i` on, of a child of the kind.
pub open spec fn first_from(ch: Seq<Node>, k: NodeKind, i: int) -> Option<int>
    decreases ch.len() - i,
{
    if i < 0 || i >= ch.len() {
        None
    } else if ch[i].kind == k {
        Some(i)
    } else {
        first_from(ch, k, i + 1)
    }
}

/// The position of the first child of the kind.
pub open spec fn first_of_kind(ch: Seq<Node>, k: NodeKind) -> Option<int> {
    first_from(ch, k, 0)
}

/// The text of the first child of the kind, where it holds text.
pub open spec fn text_child(ch: Seq<Node>, k: NodeKind) -> Result<String, ScriptError> {
    match first_of_kind(ch, k) {
        Some(i) => match ch[i].value {
            Some(ValueKind::String_(s)) => Ok(s),
            _ => Err(ScriptError::Malformed),
        },
        None => Err(ScriptError::Malformed),
    }
}

/// Whether the error of a test is caught: the value of its first catch
/// mark, and no where it has none or the mark holds no value.
pub open spec fn catch_child(ch: Seq<Node>) -> Result<bool, ScriptError> {
    match first_of_kind(ch, NodeKind::Catch) {
        Some(i) => match ch[i].value {
            Some(ValueKind::Bool_(b)) => Ok(b),
            Some(ValueKind::String_(_)) => Err(ScriptError::Malformed),
            None => Ok(false),
        },
        None => Ok(false),
    }
}

/// The statement that a node stands for: an `ExecSql` node holding text
/// gives its SQL, whatever children it has; a `DoTest` node holding its
/// name takes the first child of each kind; anything else is malformed.
pub open spec fn try_from_spec(n: Node) -> Result<SqliteTestStatement, ScriptError> {
    match n.kind {
        NodeKind::ExecSql => match n.value {
            Some(ValueKind::String_(sql)) => Ok(SqliteTestStatement::ExecSql { sql }),
            _ => Err(ScriptError::Malformed),
        },
        NodeKind::DoTest => match (n.value, n.children) {
            (Some(ValueKind::String_(name)), Some(cs)) => match (
                catch_child(cs@),
                text_child(cs@, NodeKind::SqlLiteral),
                text_child(cs@, NodeKind::ResultLiteral),
            ) {
                (Ok(catch), Ok(sql), Ok(expected)) => Ok(
                    SqliteTestStatement::Test { name, catch, sql, expected },
                ),
                _ => Err(ScriptError::Malformed),
            },
            _ => Err(ScriptError::Malformed),
        },
        _ => Err(ScriptError::Malformed),
    }
}

/// The statement says what the record says.
pub open spec fn statement_is(st: SqliteTestStatement, r: RecordView) -> bool {
    match (st, r) {
        (SqliteTestStatement::ExecSql { sql }, RecordView::Exec { sql: s }) => sql@ == s,
        (
            SqliteTestStatement::Test { name, catch, sql, expected },
            RecordView::Test { name: n, catch: c, sql: s, expected: e },
        ) => name@ == n && catch == c && sql@ == s && expected@ == e,
        _ => false,
    }
}

/// The position of the first child of the given kind.
fn find_child(children: &Vec<Node>, kind: NodeKind) -> (r: Option<usize>)
    ensures
        match r {
            Some(i) => i < children@.len() && first_of_kind(children@, kind) == Some(i as int),
            None => first_of_kind(children@, kind) is None,
        },
{
    let mut i: usize = 0;
    while i < children.len()
        invariant
            i <= children@.len(),
            first_of_kind(children@, kind) == first_from(children@, kind, i as int),
        decreases children@.len() - i,
    {
        if children[i].kind == kind {
            return Some(i);
        }
        i = i + 1;
    }
    None
}

/// The text held by the first child of the given kind.
fn child_text(children: &Vec<Node>, kind: NodeKind) -> (r: Result<String, ScriptError>)
    ensures
        r == text_child(children@, kind),
{
    match find_child(children, kind) {
        Some(i) => match &children[i].value {
            Some(ValueKind::String_(s)) => Ok(s.clone()),
            _ => Err(ScriptError::Malformed),
        },
        None => Err(ScriptError::Malformed),
    }
}

/// Whether the error of a test is caught.
fn catch_of(children: &Vec<Node>) -> (r: Result<bool, ScriptError>)
    ensures
        r == catch_child(children@),
{
    match find_child(children, NodeKind::Catch) {
        Some(i) => match &children[i].value {
            Some(ValueKind::Bool_(b)) => Ok(*b),
            Some(ValueKind::String_(_)) => Err(ScriptError::Malformed),
            None => Ok(false),
        },
        None => Ok(false),
    }
}

impl SqliteTestStatement {
    /// The statement that a node stands for.
    pub fn try_from(node: Node) -> (r: Result<SqliteTestStatement, ScriptError>)
        ensures
            r == try_from_spec(node),
    {
        match node.kind {
            NodeKind::ExecSql => match &node.value {
                Some(ValueKind::String_(sql)) => Ok(SqliteTestStatement::ExecSql { sql: sql.clone() }),
                _ => Err(ScriptError::Malformed),
            },
            NodeKind::DoTest => {
                let name = match &node.value {
                    Some(ValueKind::String_(n)) => n.clone(),
                    _ => return Err(ScriptError::Malformed),
                };
                let children = match &node.children {
                    Some(c) => c,
                    None => return Err(ScriptError::Malformed),
                };
                let catch = match catch_of(children) {
                    Ok(c) => c,
                    Err(e) => return Err(e),
                };
                let sql = match child_text(children, NodeKind::SqlLiteral) {
                    Ok(s) => s,
                    Err(e) => return Err(e),
                };
                let expected = match child_text(children, NodeKind::ResultLiteral) {
                    Ok(s) => s,
                    Err(e) => return Err(e),
                };
                Ok(SqliteTestStatement::Test { name, catch, sql, expected })
            },
            _ => Err(ScriptError::Malformed),
        }
    }
}

/// A node that is a record stands for the statement that says the same.
pub proof fn lemma_record_statement(n: Node, r: RecordView)
    requires
        node_is(n, r),
    ensures
        try_from_spec(n) matches Ok(st) && statement_is(st, r),
{
    if n.kind == NodeKind::DoTest {
        let ch = children_of(n);
        if ch.len() == 3 {
            assert(first_from(ch, NodeKind::SqlLiteral, 0) == first_from(ch, NodeKind::SqlLiteral, 1));
            assert(first_from(ch, NodeKind::ResultLiteral, 0) == first_from(
                ch,
                NodeKind::ResultLiteral,
                1,
            ));
            assert(first_from(ch, NodeKind::ResultLiteral, 1) == first_from(
                ch,
                NodeKind::ResultLiteral,
                2,
            ));
        } else {
            assert(first_from(ch, NodeKind::Catch, 0) == first_from(ch, NodeKind::Catch, 1));
            assert(first_from(ch, NodeKind::Catch, 1) == first_from(ch, NodeKind::Catch, 2));
            assert(first_from(ch, NodeKind::ResultLiteral, 0) == first_from(
                ch,
                NodeKind::ResultLiteral,
                1,
            ));
        }
    }
}

/// The line at which reading a script stops.
pub open spec fn end_marker() -> Seq<char> {
    "set long {This is a string that is too big to fit inside a NBFS buffer}"@
}

/// The records of a test script, read up to the first line that starts
/// `set long {This is a string that is too big to fit inside a NBFS buffer}`:
/// `MissingEnd` where there is no such line, otherwise the records that
/// `parse` reads from the text before it, or its error.
pub fn script(text: &str) -> (r: Result<Vec<SqliteTestStatement>, ScriptError>)
    ensures
        match first_occ(text@, end_marker()) {
            None => r == Err::<Vec<SqliteTestStatement>, ScriptError>(ScriptError::MissingEnd),
            Some(e) => match records(lines_of(text@.subrange(0, e))) {
                Ok(recs) => r matches Ok(v) && v@.len() == recs.len() && forall|i: int|
                    0 <= i < recs.len() ==> statement_is(#[trigger] v@[i], recs[i]),
                Err(x) => r matches Err(y) && y@ == x,
            },
        },
{
    let chars = chars_of(text);
    let stop = chars_of("set long {This is a string that is too big to fit inside a NBFS buffer}");
    let end = match find(chars.as_slice(), stop.as_slice()) {
        Some(i) => i,
        None => return Err(ScriptError::MissingEnd),
    };
    let head = string_of(slice_of(chars.as_slice(), 0, end).as_slice());
    let mut nodes = match parse(head.as_str()) {
        Ok(ns) => ns,
        Err(e) => return Err(e),
    };
    let ghost recs = records(lines_of(head@))->Ok_0;
    let total = nodes.len();
    let ghost all = nodes@;
    let mut out: Vec<SqliteTestStatement> = Vec::new();
    let mut k: usize = 0;
    while nodes.len() > 0
        invariant
            k <= all.len() == total == recs.len(),
            nodes@ == all.subrange(k as int, all.len() as int),
            out@.len() == k,
            forall|i: int| 0 <= i < all.len() ==> node_is(#[trigger] all[i], recs[i]),
            forall|i: int| 0 <= i < k ==> statement_is(#[trigger] out@[i], recs[i]),
        decreases nodes@.len(),
    {
        let node = nodes.remove(0);
        assert(node == all[k as int]);
        proof {
            lemma_record_statement(node, recs[k as int]);
        }
        match SqliteTestStatement::try_from(node) {
            Ok(st) => out.push(st),
            Err(e) => return Err(e),
        }
        k = k + 1;
        assert(nodes@ =~= all.subrange(k as int, all.len() as int));
    }
    Ok(out)
}

} // verus!
