use vstd::prelude::*;

use crate::outside::{decimal_of, decimal_text};
use crate::text::join_text;

verus! {

/// How the initial molecules are chosen.
#[derive(Debug, Clone)]
pub enum GenerationMethod {
    /// One molecule from the given SMILES.
    Manual { smiles: String },
    /// One molecule from each candidate SMILES.
    Random { candidates: Vec<String> },
}

#[derive(Debug, Clone)]
pub struct Step3Input {
    pub method: GenerationMethod,
}

#[derive(Debug, Clone)]
pub struct Step3Payload {
    /// InChIKeys of the generated molecules.
    pub generated_molecules: Vec<String>,
    pub method_used: String,
    pub step_result: String,
}

#[derive(Debug, Clone)]
pub struct Step3Params {
    pub method: GenerationMethod,
}

#[derive(Debug, Clone)]
pub struct Step3Metadata {
    pub status: String,
    pub parameters: Step3Params,
    pub domain_refs: Vec<String>,
}

/// The step that generates the initial molecules of a flow.
#[derive(Debug, Clone, Copy, Default)]
pub struct MoleculeInitialStep3;

pub open spec fn smiles_of(m: GenerationMethod) -> Seq<Seq<char>> {
    match m {
        GenerationMethod::Manual { smiles } => seq![smiles@],
        GenerationMethod::Random { candidates } => candidates@.map_values(|s: String| s@),
    }
}

pub open spec fn method_name(m: GenerationMethod) -> Seq<char> {
    match m {
        GenerationMethod::Manual { .. } => "Manual"@,
        GenerationMethod::Random { .. } => "Random"@,
    }
}

/// The summary line of a run that generated `n` molecules with `method`.
pub open spec fn step3_summary(n: nat, method: Seq<char>) -> Seq<char> {
    "Generadas "@ + decimal_of(n) + " moléculas usando método "@ + method
}

fn copy_texts(v: &Vec<String>) -> (r: Vec<String>)
    ensures
        r@ == v@,
{
    let mut out: Vec<String> = Vec::new();
    let mut i: usize = 0;
    while i < v.len()
        invariant
            i <= v@.len(),
            out@ == v@.take(i as int),
        decreases v@.len() - i,
    {
        out.push(v[i].clone());
        i = i + 1;
        assert(v@.take(i as int) == v@.take(i - 1).push(v@[i - 1]));
    }
    assert(v@.take(i as int) == v@);
    out
}

impl MoleculeInitialStep3 {
    /// The SMILES to build molecules from: the manual one, or every candidate.
    pub fn smiles_to_generate(&self, input: &Step3Input) -> (r: Vec<String>)
        ensures
            r@.map_values(|s: String| s@) == smiles_of(input.method),
    {
        match &input.method {
            GenerationMethod::Manual { smiles } => {
                let v = vec![smiles.clone()];
                assert(v@.map_values(|s: String| s@) =~= seq![smiles@]);
                v
            },
            GenerationMethod::Random { candidates } => copy_texts(candidates),
        }
    }

    /// The name of the method, as recorded in the payload.
    pub fn method_used(method: &GenerationMethod) -> (r: String)
        ensures
            r@ == method_name(*method),
    {
        match method {
            GenerationMethod::Manual { .. } => "Manual".to_owned(),
            GenerationMethod::Random { .. } => "Random".to_owned(),
        }
    }

    /// The step's payload and metadata once the molecules are saved under
    /// the InChIKeys `inchikeys`.
    pub fn build_output(&self, input: Step3Input, inchikeys: Vec<String>) -> (r: (Step3Payload, Step3Metadata))
        ensures
            r.0.generated_molecules@ == inchikeys@,
            r.0.method_used@ == method_name(input.method),
            r.0.step_result@ == step3_summary(inchikeys@.len(), method_name(input.method)),
            r.1.status@ == "completed"@,
            r.1.parameters.method == input.method,
            r.1.domain_refs@ == inchikeys@,
    {
        let method = Self::method_used(&input.method);
        let count = decimal_text(inchikeys.len() as u64);
        let summary = join_text(
            join_text(join_text("Generadas ", count.as_str()).as_str(), " moléculas usando método ").as_str(),
            method.as_str(),
        );
        let refs = copy_texts(&inchikeys);
        let payload = Step3Payload { generated_molecules: inchikeys, method_used: method, step_result: summary };
        let metadata = Step3Metadata { status: "completed".to_owned(), parameters: Step3Params { method: input.method }, domain_refs: refs };
        (payload, metadata)
    }
}

} // verus!
