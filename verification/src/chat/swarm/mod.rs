//! The swarm: the agents behind one chat window, and the record of what each of
//! them did in a turn.
use vstd::prelude::*;

use crate::chat::swarm::config::SubAgentRole;
use crate::providers::RequestMetrics;

pub mod agent;
pub mod agents;
pub mod config;
pub mod lifecycle;
pub mod orchestrator;
pub mod prompt_builder;
pub mod runtime;
pub mod task_facts;
pub mod turn;

verus! {

broadcast use vstd::string::group_string_axioms;

/// What one agent did in a turn.
#[derive(Debug, PartialEq, Eq)]
pub struct SwarmRunRecord {
    pub role: SubAgentRole,
    /// Whether the agent made a request.
    pub ran: bool,
    /// Always true: no role is disabled.
    pub enabled: bool,
    pub model: String,
    pub note: String,
    /// The identifier of a pipeline worker.
    pub agent_id: Option<String>,
    pub metrics: Option<RequestMetrics>,
}

/// Whether `record` says that an agent's request came back with `metrics`, or
/// did not, which it notes.
pub open spec fn tells(
    record: SwarmRunRecord,
    role: SubAgentRole,
    model: Seq<char>,
    metrics: Option<RequestMetrics>,
    failure_note: Seq<char>,
    agent_id: Option<Seq<char>>,
) -> bool {
    &&& record.role == role
    &&& record.enabled
    &&& record.model@ == model
    &&& record.ran == (metrics is Some)
    &&& record.metrics == metrics
    &&& record.note@ == (if metrics is Some {
        Seq::empty()
    } else {
        failure_note
    })
    &&& crate::text::option_text(record.agent_id) == agent_id
}

impl SwarmRunRecord {
    /// The record of an agent that has not run.
    pub fn new(role: SubAgentRole, model: &str) -> (r: Self)
        ensures
            r.role == role,
            !r.ran,
            r.enabled,
            r.model@ == model@,
            r.note@.len() == 0,
            r.agent_id is None,
            r.metrics is None,
    {
        SwarmRunRecord {
            role,
            ran: false,
            enabled: true,
            model: model.to_string(),
            note: String::new(),
            agent_id: None,
            metrics: None,
        }
    }

    /// The record of an agent whose request came back, or did not.
    pub fn finished(
        role: SubAgentRole,
        model: &str,
        metrics: Option<RequestMetrics>,
        failure_note: &str,
    ) -> (r: Self)
        ensures
            tells(r, role, model@, metrics, failure_note@, None),
    {
        let mut record = SwarmRunRecord::new(role, model);
        match metrics {
            Some(metrics) => {
                record.ran = true;
                record.metrics = Some(metrics);
                assert(record.note@ =~= Seq::<char>::empty());
            },
            None => {
                record.note = failure_note.to_string();
            },
        }
        record
    }
}

/// What the swarm did in a turn.
#[derive(Debug, PartialEq, Eq)]
pub struct SwarmReport {
    pub records: Vec<SwarmRunRecord>,
}

impl SwarmReport {
    /// Nothing yet.
    pub fn new() -> (r: Self)
        ensures
            r.records@.len() == 0,
    {
        SwarmReport { records: Vec::new() }
    }

    /// Adds what an agent did.
    pub fn record(&mut self, record: SwarmRunRecord)
        ensures
            final(self).records@ == old(self).records@.push(record),
    {
        self.records.push(record);
    }
}

/// The record of a run says who ran with which model, and ran only where a request
/// was made; a note is left only where none was.
pub proof fn runs_are_recorded_as_they_went(
    record: SwarmRunRecord,
    role: SubAgentRole,
    model: Seq<char>,
    metrics: Option<RequestMetrics>,
    failure_note: Seq<char>,
    agent_id: Option<Seq<char>>,
)
    requires
        tells(record, role, model, metrics, failure_note, agent_id),
    ensures
        record.role == role,
        record.model@ == model,
        record.metrics == metrics,
        metrics is Some ==> record.ran && record.note@.len() == 0,
        metrics is None ==> !record.ran && record.note@ == failure_note,
        agent_id matches Some(id) ==> record.agent_id is Some && record.agent_id->0@ == id,
        agent_id is None ==> record.agent_id is None,
{
}

} // verus!
