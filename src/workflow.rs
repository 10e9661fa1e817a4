use vstd::prelude::*;

use crate::errors::WorkflowError;
use crate::outside::{
    json_str_value, lower_of, lowercase, read_str_value, uuid_text, uuid_text_of,
};
use crate::engine::{
    flows_kept, meta_text, rehydrated_state, rehydrated_step, step_from_data, text_option_is, FlowEngine,
};
use crate::errors::FlowError;
use crate::store::{flow_at, has_flow, kv_map, lemma_flow_at, InMemoryFlowRepository};
use crate::text::join_text;

verus! {

/// The kinds of workflow the engines implement.
#[derive(Debug, Clone, Copy, PartialEq, Eq, Structural)]
pub enum WorkflowType {
    Cadma,
    Unknown,
}

pub open spec fn workflow_type_name(t: WorkflowType) -> Seq<char> {
    match t {
        WorkflowType::Cadma => "cadma"@,
        WorkflowType::Unknown => "unknown"@,
    }
}

/// The type a tag names: `cadma` in any case is `Cadma`, anything else
/// `Unknown`.
pub open spec fn workflow_type_of(tag: Seq<char>) -> WorkflowType {
    if lower_of(tag) == "cadma"@ {
        WorkflowType::Cadma
    } else {
        WorkflowType::Unknown
    }
}

impl WorkflowType {
    /// The lowercase tag of the type.
    pub fn as_text(&self) -> (r: String)
        ensures
            r@ == workflow_type_name(*self),
    {
        match self {
            WorkflowType::Cadma => "cadma".to_owned(),
            WorkflowType::Unknown => "unknown".to_owned(),
        }
    }

    /// Reads a tag, ignoring case; an unknown tag is `Unknown`.
    pub fn parse(tag: &str) -> (r: WorkflowType)
        ensures
            r == workflow_type_of(tag@),
    {
        let l = lowercase(tag);
        if l == "cadma".to_owned() {
            WorkflowType::Cadma
        } else {
            WorkflowType::Unknown
        }
    }

    /// The default type, `Unknown`.
    pub fn default_type() -> (r: WorkflowType)
        ensures
            r == WorkflowType::Unknown,
    {
        WorkflowType::Unknown
    }
}

/// Methods that produce ADMETSA property values.
#[derive(Debug, Clone, Copy, PartialEq, Eq, Structural, Hash)]
pub enum ADMETSAMethod {
    Manual,
    Random1,
    Random2,
    Random3,
    Random4,
}

/// The ADMETSA properties of a molecule.
#[derive(Debug, Clone, Copy, PartialEq, Eq, Structural, Hash)]
pub enum ADMETSAProperty {
    LogP,
    PSA,
    AtX,
    HBA,
    HBD,
    RB,
    MR,
    LD50,
    Mutagenicity,
    DevelopmentalToxicity,
    SyntheticAccessibility,
}

/// Which properties each method can produce: Manual and Random4 all of them;
/// Random1 the physico-chemical ones; Random2 the toxicity ones and synthetic
/// accessibility; Random3 HBD, RB, MR, LD50 and mutagenicity.
pub open spec fn method_covers(m: ADMETSAMethod, p: ADMETSAProperty) -> bool {
    match m {
        ADMETSAMethod::Manual => true,
        ADMETSAMethod::Random1 => matches!(p, ADMETSAProperty::LogP | ADMETSAProperty::PSA | ADMETSAProperty::AtX
            | ADMETSAProperty::HBA | ADMETSAProperty::HBD | ADMETSAProperty::RB | ADMETSAProperty::MR),
        ADMETSAMethod::Random2 => matches!(p, ADMETSAProperty::LD50 | ADMETSAProperty::Mutagenicity
            | ADMETSAProperty::DevelopmentalToxicity | ADMETSAProperty::SyntheticAccessibility),
        ADMETSAMethod::Random3 => matches!(p, ADMETSAProperty::HBD | ADMETSAProperty::RB | ADMETSAProperty::MR
            | ADMETSAProperty::LD50 | ADMETSAProperty::Mutagenicity),
        ADMETSAMethod::Random4 => true,
    }
}

impl ADMETSAMethod {
    /// Whether this method can produce property `prop`.
    pub fn can_generate(self, prop: ADMETSAProperty) -> (r: bool)
        ensures
            r == method_covers(self, prop),
    {
        match self {
            ADMETSAMethod::Manual => true,
            ADMETSAMethod::Random1 => match prop {
                ADMETSAProperty::LogP | ADMETSAProperty::PSA | ADMETSAProperty::AtX | ADMETSAProperty::HBA
                | ADMETSAProperty::HBD | ADMETSAProperty::RB | ADMETSAProperty::MR => true,
                _ => false,
            },
            ADMETSAMethod::Random2 => match prop {
                ADMETSAProperty::LD50 | ADMETSAProperty::Mutagenicity | ADMETSAProperty::DevelopmentalToxicity
                | ADMETSAProperty::SyntheticAccessibility => true,
                _ => false,
            },
            ADMETSAMethod::Random3 => match prop {
                ADMETSAProperty::HBD | ADMETSAProperty::RB | ADMETSAProperty::MR | ADMETSAProperty::LD50
                | ADMETSAProperty::Mutagenicity => true,
                _ => false,
            },
            ADMETSAMethod::Random4 => true,
        }
    }
}

/// The workflow type a flow's `workflow_type` entry names: `Unknown` when
/// the entry is no JSON string (`null` when unset).
pub open spec fn flow_workflow_type(s: Seq<crate::store::FlowEntry>, id: u128) -> WorkflowType {
    match json_str_value(meta_text(s, id, "workflow_type"@)) {
        Some(tag) => workflow_type_of(tag),
        None => WorkflowType::Unknown,
    }
}

/// Lists flows with their workflow types.
pub struct ChemicalWorkflowFactory;

impl ChemicalWorkflowFactory {
    /// Every flow of the store, in creation order, as its UUID text and its
    /// workflow type.
    pub fn get_chem_flows(repo: &InMemoryFlowRepository) -> (r: Result<Vec<(String, WorkflowType)>, WorkflowError>)
        requires
            repo.wf(),
        ensures
            r matches Ok(v) && v@.len() == repo@.len() && forall|i: int|
                0 <= i < v@.len() ==> (#[trigger] v@[i]).0@ == uuid_text_of(repo@[i].meta.id) && v@[i].1
                    == flow_workflow_type(repo@, repo@[i].meta.id),
    {
        let ids = match repo.list_flow_ids() {
            Ok(ids) => ids,
            Err(e) => {
                return Err(WorkflowError::Flow(e));
            },
        };
        let mut out: Vec<(String, WorkflowType)> = Vec::new();
        let mut i: usize = 0;
        while i < ids.len()
            invariant
                repo.wf(),
                ids@ == repo@.map_values(|e: crate::store::FlowEntry| e.meta.id),
                i <= ids@.len(),
                out@.len() == i,
                forall|j: int|
                    0 <= j < i ==> (#[trigger] out@[j]).0@ == uuid_text_of(repo@[j].meta.id) && out@[j].1
                        == flow_workflow_type(repo@, repo@[j].meta.id),
            decreases ids@.len() - i,
        {
            let id = ids[i];
            proof {
                lemma_flow_at(repo@, i as int);
            }
            let wt = match repo.get_meta(id, "workflow_type") {
                Ok(v) => match read_str_value(v.as_str()) {
                    Some(tag) => WorkflowType::parse(tag.as_str()),
                    None => WorkflowType::Unknown,
                },
                Err(_) => WorkflowType::Unknown,
            };
            out.push((uuid_text(id), wt));
            i = i + 1;
        }
        Ok(out)
    }

    /// Creates a flow named `name` with status `created`, tags it with
    /// `workflow_type` (as a JSON string), and returns an engine on it.
    pub fn create(
        repo: &mut InMemoryFlowRepository,
        name: String,
        workflow_type: WorkflowType,
        step_names: Vec<String>,
    ) -> (r: Result<FlowEngine, WorkflowError>)
        requires
            old(repo).wf(),
        ensures
            final(repo).wf(),
            match r {
                Ok(e) => {
                    &&& !has_flow(old(repo)@, e.id)
                    &&& has_flow(final(repo)@, e.id)
                    &&& flow_at(final(repo)@, e.id).meta.name == Some(name)
                    &&& flow_at(final(repo)@, e.id).meta.status matches Some(s) && s@ == "created"@
                    &&& flow_at(final(repo)@, e.id).records@.len() == 0
                    &&& kv_map(flow_at(final(repo)@, e.id).kv@)["workflow_type"@] == "\""@ + workflow_type_name(
                        workflow_type,
                    ) + "\""@
                    &&& e.step_names == step_names
                    &&& e.current_step == 0
                },
                Err(_) => final(repo)@ == old(repo)@,
            },
    {
        let id = match repo.create_flow(Some(name), Some("created".to_owned()), "{}".to_owned()) {
            Ok(id) => id,
            Err(e) => {
                return Err(WorkflowError::Flow(e));
            },
        };
        let tag = workflow_type.as_text();
        let value = join_text(join_text("\"", tag.as_str()).as_str(), "\"");
        if let Err(e) = repo.set_meta(id, "workflow_type", value) {
            return Err(WorkflowError::Flow(e));
        }
        Ok(FlowEngine::new(id, step_names))
    }

    /// An engine on existing flow `flow_id`, rehydrated; when the flow's
    /// `flow_metadata` has no `current_step`, it is set to the flow's
    /// cursor. Returns the engine and its snapshot state text.
    pub fn load(repo: &mut InMemoryFlowRepository, flow_id: u128, step_names: Vec<String>) -> (r: Result<(FlowEngine, Option<String>), WorkflowError>)
        requires
            old(repo).wf(),
        ensures
            final(repo).wf(),
            !has_flow(old(repo)@, flow_id) ==> r is Err,
            has_flow(old(repo)@, flow_id) ==> (r matches Ok((e, snap)) && e.id == flow_id && e.step_names == step_names
                && e.current_step == rehydrated_step(
                meta_text(old(repo)@, flow_id, "flow_metadata"@),
                step_from_data(old(repo)@, flow_id),
            ) && text_option_is(snap, rehydrated_state(old(repo)@, flow_id))),
            flows_kept(old(repo)@, final(repo)@),
    {
        let mut engine = FlowEngine::new(flow_id, step_names);
        let snap = engine.rehydrate_from_storage(repo)?;
        let current = match repo.get_meta(flow_id, "flow_metadata") {
            Ok(m) => m,
            Err(e) => {
                return Err(WorkflowError::Flow(e));
            },
        };
        if crate::outside::read_u64_field(current.as_str(), "current_step").is_none() {
            let meta = match repo.get_flow_meta(flow_id) {
                Ok(m) => m,
                Err(e) => {
                    return Err(WorkflowError::Flow(e));
                },
            };
            let cs = crate::outside::decimal_text((meta.current_cursor as u32) as u64);
            let text = join_text(join_text("{\"current_step\":", cs.as_str()).as_str(), "}");
            if let Err(e) = repo.set_meta(flow_id, "flow_metadata", text) {
                return Err(WorkflowError::Flow(e));
            }
        }
        Ok((engine, snap))
    }
}

} // verus!
