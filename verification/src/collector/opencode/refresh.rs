//! Reading the rows again, query by query.
//!
//! The program that runs the queries asks for the next one and hands back what it
//! printed. A query that fails leaves what is cached as it is.
use super::parts::{parts_table, query_parts};
use super::rows::{
    db_session_models, db_subagent_models, limited, model_sql, output_rows, parts_sql,
    query_sessions, query_subagents, quoted_list, read_rows, session_ids, session_sql,
    sessions_of_rows, subagent_of_row, subagent_sql, MODEL_SQL, PARTS_SQL, PARTS_SQL_END,
    SESSION_SQL, SUBAGENT_SQL,
};
use super::OpenCodeCollector;
use crate::json::{trees, Json, JsonTree};
use vstd::prelude::*;

verus! {

/// The query whose output comes next.
#[derive(Debug)]
pub enum Stage {
    Sessions,
    /// The latest messages of the sessions, whose rows came before.
    Models(Vec<Json>),
    Subagents,
    Parts,
    Finished,
}

/// The rows that a query printed; none where it failed or printed anything else.
pub open spec fn rows_printed(output: Option<&str>) -> Option<Seq<JsonTree>> {
    match output {
        Some(text) => output_rows(text@),
        None => None,
    }
}

fn read_output(output: Option<&str>) -> (r: Option<Vec<Json>>)
    ensures
        match r {
            Some(rows) => rows_printed(output) == Some(trees(rows@)),
            None => rows_printed(output) is None,
        },
{
    match output {
        Some(text) => read_rows(text),
        None => None,
    }
}

/// The rows that a query printed, or no rows at all.
pub open spec fn rows_or_none(output: Option<&str>) -> Seq<JsonTree> {
    match rows_printed(output) {
        Some(rows) => rows,
        None => Seq::empty(),
    }
}

impl OpenCodeCollector {
    /// The query to run, if one is left.
    pub fn next_query(&self, stage: &Stage) -> (r: Option<String>)
        ensures
            match *stage {
                Stage::Sessions => r is Some && r->Some_0@ == limited(SESSION_SQL@),
                Stage::Models(_) => r is Some && r->Some_0@ == limited(MODEL_SQL@),
                Stage::Subagents => r is Some && r->Some_0@ == limited(SUBAGENT_SQL@),
                Stage::Parts => r is Some && r->Some_0@ == PARTS_SQL@ + quoted_list(
                    session_ids(self.cached_db_sessions@),
                ) + PARTS_SQL_END@,
                Stage::Finished => r is None,
            },
    {
        match stage {
            Stage::Sessions => Some(session_sql()),
            Stage::Models(_) => Some(model_sql()),
            Stage::Subagents => Some(subagent_sql()),
            Stage::Parts => Some(parts_sql(&self.cached_db_sessions)),
            Stage::Finished => None,
        }
    }

    /// Takes in what the query of `stage` printed, `None` where it failed, and says
    /// which query comes next.
    pub fn take_output(&mut self, stage: Stage, output: Option<&str>) -> (r: Stage)
        ensures
            final(self).knows_as(*old(self)),
            match stage {
                Stage::Sessions => {
                    &&& final(self).caches_as(*old(self))
                    &&& match rows_printed(output) {
                        Some(rows) => r is Models && trees(r->Models_0@) == rows,
                        None => r is Subagents,
                    }
                },
                Stage::Models(rows) => {
                    &&& r is Subagents
                    &&& db_session_models(final(self).cached_db_sessions@) == sessions_of_rows(
                        trees(rows@),
                        rows_or_none(output),
                    )
                    &&& final(self).cached_db_subagents == old(self).cached_db_subagents
                    &&& final(self).cached_parts == old(self).cached_parts
                },
                Stage::Subagents => {
                    &&& final(self).cached_db_sessions == old(self).cached_db_sessions
                    &&& match rows_printed(output) {
                        Some(rows) => db_subagent_models(final(self).cached_db_subagents@)
                            == rows.map_values(|row: JsonTree| subagent_of_row(row)),
                        None => final(self).cached_db_subagents == old(self).cached_db_subagents,
                    }
                    &&& if old(self).cached_db_sessions@.len() == 0 {
                        r is Finished && final(self).cached_parts@.len() == 0
                    } else {
                        r is Parts && final(self).cached_parts == old(self).cached_parts
                    }
                },
                Stage::Parts => {
                    &&& r is Finished
                    &&& final(self).cached_db_sessions == old(self).cached_db_sessions
                    &&& final(self).cached_db_subagents == old(self).cached_db_subagents
                    &&& match rows_printed(output) {
                        Some(rows) => parts_table(
                            final(self).cached_parts@,
                            session_ids(old(self).cached_db_sessions@),
                            rows,
                        ),
                        None => final(self).cached_parts == old(self).cached_parts,
                    }
                },
                Stage::Finished => r is Finished && *final(self) == *old(self),
            },
    {
        match stage {
            Stage::Sessions => match read_output(output) {
                Some(rows) => Stage::Models(rows),
                None => Stage::Subagents,
            },
            Stage::Models(rows) => {
                let model_rows = match read_output(output) {
                    Some(found) => found,
                    None => {
                        let none: Vec<Json> = Vec::new();
                        assert(trees(none@) =~= Seq::empty());
                        none
                    },
                };
                self.cached_db_sessions = query_sessions(&rows, &model_rows);
                Stage::Subagents
            },
            Stage::Subagents => {
                match read_output(output) {
                    Some(rows) => {
                        self.cached_db_subagents = query_subagents(&rows);
                    },
                    None => {},
                }
                if self.cached_db_sessions.len() == 0 {
                    self.cached_parts = Vec::new();
                    Stage::Finished
                } else {
                    Stage::Parts
                }
            },
            Stage::Parts => {
                match read_output(output) {
                    Some(rows) => {
                        self.cached_parts = query_parts(&self.cached_db_sessions, &rows);
                    },
                    None => {},
                }
                Stage::Finished
            },
            Stage::Finished => Stage::Finished,
        }
    }
}

/// A query that failed printed no rows; one that ran printed those of its output.
pub proof fn law_printed_rows(output: &str)
    ensures
        rows_printed(None) is None,
        rows_printed(Some(output)) == output_rows(output@),
        rows_or_none(None).len() == 0,
        output_rows(output@) matches Some(rows) ==> rows_or_none(Some(output)) == rows,
        output_rows(output@) is None ==> rows_or_none(Some(output)).len() == 0,
{
}

} // verus!
