//! The engine: one catalog, and one command evaluated at a time.
use crate::catalog::{names_unique, NimbusData, NimbusTable, TableView};
use crate::executor::{
    result_view, step, Failure, NimbusError, NimbusExecuteResult, Outcome, Unsupported,
};
use crate::sql::Cmd;
use vstd::prelude::*;

verus! {

/// The catalog after evaluating what was parsed from one input (nothing, or
/// one command), and what the evaluation returns.
pub open spec fn eval_step(c: Seq<TableView>, input: Option<Cmd>) -> (
    Seq<TableView>,
    Result<Outcome, Failure>,
) {
    match input {
        None => (c, Ok(Outcome::Empty)),
        Some(Cmd::Explain(_)) => (c, Err(Failure::Unsupported(Unsupported::Explain))),
        Some(Cmd::ExplainQueryPlan(_)) => (
            c,
            Err(Failure::Unsupported(Unsupported::ExplainQueryPlan)),
        ),
        Some(Cmd::Stmt(s)) => step(c, s),
    }
}

/// An in-memory engine for `CREATE TABLE`, literal `INSERT` and
/// `SELECT * FROM`.
pub struct Nimbus {
    data: NimbusData,
}

impl View for Nimbus {
    type V = Seq<TableView>;

    closed spec fn view(&self) -> Seq<TableView> {
        self.data@
    }
}

impl Nimbus {
    /// No two tables of the engine share a name.
    pub closed spec fn wf(&self) -> bool {
        self.data.wf()
    }

    /// In an engine that is well formed no two tables share a name.
    pub proof fn lemma_names_unique(&self)
        requires
            self.wf(),
        ensures
            names_unique(self@),
    {
        self.data.lemma_names_unique();
    }

    /// An engine with no tables.
    pub fn new() -> (r: Nimbus)
        ensures
            r.wf(),
            r@ == Seq::<TableView>::empty(),
            names_unique(r@),
    {
        Nimbus { data: NimbusData::new() }
    }

    /// Evaluates what was parsed from one input: `None` where the input held
    /// no command (it was empty, blank or only comments).
    pub fn eval(&mut self, input: Option<Cmd>) -> (r: Result<NimbusExecuteResult, NimbusError>)
        requires
            old(self).wf(),
        ensures
            final(self).wf(),
            names_unique(final(self)@),
            (final(self)@, result_view(r)) == eval_step(old(self)@, input),
    {
        let r = match input {
            None => Ok(NimbusExecuteResult::NoneResult),
            Some(Cmd::Explain(_)) => Err(NimbusError::Unsupported(Unsupported::Explain)),
            Some(Cmd::ExplainQueryPlan(_)) => Err(
                NimbusError::Unsupported(Unsupported::ExplainQueryPlan),
            ),
            Some(Cmd::Stmt(s)) => self.data.execute(s),
        };
        proof {
            self.data.lemma_names_unique();
        }
        r
    }

    /// The number of tables.
    pub fn table_count(&self) -> (r: usize)
        ensures
            r == self@.len(),
    {
        self.data.len()
    }

    /// The table at a position, in order of creation.
    pub fn table(&self, i: usize) -> (r: &NimbusTable)
        requires
            i < self@.len(),
        ensures
            r@ == self@[i as int],
    {
        self.data.table(i)
    }
}

} // verus!
