use vstd::prelude::*;

use crate::errors::WorkflowError;
use crate::workflow::{method_covers, ADMETSAMethod, ADMETSAProperty};

verus! {

/// Every property the properties step must produce, in table order.
pub open spec fn required_properties() -> Seq<ADMETSAProperty> {
    seq![
        ADMETSAProperty::LogP,
        ADMETSAProperty::PSA,
        ADMETSAProperty::AtX,
        ADMETSAProperty::HBA,
        ADMETSAProperty::HBD,
        ADMETSAProperty::RB,
        ADMETSAProperty::MR,
        ADMETSAProperty::LD50,
        ADMETSAProperty::Mutagenicity,
        ADMETSAProperty::DevelopmentalToxicity,
        ADMETSAProperty::SyntheticAccessibility,
    ]
}

/// The method that `map` assigns to `p` (its first entry for `p`).
pub open spec fn mapped_method(map: Seq<(ADMETSAProperty, ADMETSAMethod)>, p: ADMETSAProperty) -> Option<ADMETSAMethod>
    decreases map.len(),
{
    if map.len() == 0 {
        None
    } else if map[0].0 == p {
        Some(map[0].1)
    } else {
        mapped_method(map.drop_first(), p)
    }
}

/// The first of `preferred` that can produce `p`.
pub open spec fn first_capable(preferred: Seq<ADMETSAMethod>, p: ADMETSAProperty) -> Option<ADMETSAMethod>
    decreases preferred.len(),
{
    if preferred.len() == 0 {
        None
    } else if method_covers(preferred[0], p) {
        Some(preferred[0])
    } else {
        first_capable(preferred.drop_first(), p)
    }
}

/// The method used for `p`: the mapped one, else the first capable
/// preferred one, else `Manual`.
pub open spec fn chosen_method(
    map: Seq<(ADMETSAProperty, ADMETSAMethod)>,
    preferred: Seq<ADMETSAMethod>,
    p: ADMETSAProperty,
) -> ADMETSAMethod {
    match mapped_method(map, p) {
        Some(m) => m,
        None => match first_capable(preferred, p) {
            Some(m) => m,
            None => ADMETSAMethod::Manual,
        },
    }
}

/// Every mapping is producible, and every required property is mapped or
/// producible by some preferred method.
pub open spec fn methods_cover(map: Seq<(ADMETSAProperty, ADMETSAMethod)>, preferred: Seq<ADMETSAMethod>) -> bool {
    &&& forall|i: int| 0 <= i < map.len() ==> method_covers((#[trigger] map[i]).1, map[i].0)
    &&& forall|k: int|
        0 <= k < required_properties().len() ==> (exists|i: int| 0 <= i < map.len() && #[trigger] map[i].0
            == required_properties()[k]) || first_capable(preferred, required_properties()[k]) is Some
}

/// The step that computes ADMETSA properties of the family's molecules.
#[derive(Debug, Clone, Copy, Default)]
pub struct ADMETSAPropertiesStep2;

fn all_required() -> (r: Vec<ADMETSAProperty>)
    ensures
        r@ == required_properties(),
{
    let r = vec![
        ADMETSAProperty::LogP,
        ADMETSAProperty::PSA,
        ADMETSAProperty::AtX,
        ADMETSAProperty::HBA,
        ADMETSAProperty::HBD,
        ADMETSAProperty::RB,
        ADMETSAProperty::MR,
        ADMETSAProperty::LD50,
        ADMETSAProperty::Mutagenicity,
        ADMETSAProperty::DevelopmentalToxicity,
        ADMETSAProperty::SyntheticAccessibility,
    ];
    assert(r@ =~= required_properties());
    r
}

fn find_capable(preferred: &Vec<ADMETSAMethod>, prop: ADMETSAProperty) -> (r: Option<ADMETSAMethod>)
    ensures
        r == first_capable(preferred@, prop),
{
    let mut i: usize = 0;
    assert(preferred@.subrange(0, preferred@.len() as int) == preferred@);
    while i < preferred.len()
        invariant
            i <= preferred@.len(),
            first_capable(preferred@, prop) == first_capable(preferred@.subrange(i as int, preferred@.len() as int), prop),
        decreases preferred@.len() - i,
    {
        let ghost rest = preferred@.subrange(i as int, preferred@.len() as int);
        assert(rest.drop_first() == preferred@.subrange(i + 1, preferred@.len() as int));
        assert(rest[0] == preferred@[i as int]);
        if preferred[i].can_generate(prop) {
            return Some(preferred[i]);
        }
        i = i + 1;
    }
    None
}

impl ADMETSAPropertiesStep2 {
    /// The method for `prop`: the one `map` assigns, else the first preferred
    /// method able to produce it, else `Manual`.
    pub fn choose_method(
        &self,
        prop: ADMETSAProperty,
        map: &Vec<(ADMETSAProperty, ADMETSAMethod)>,
        preferred: &Vec<ADMETSAMethod>,
    ) -> (r: ADMETSAMethod)
        ensures
            r == chosen_method(map@, preferred@, prop),
    {
        let mut i: usize = 0;
        assert(map@.subrange(0, map@.len() as int) == map@);
        while i < map.len()
            invariant
                i <= map@.len(),
                mapped_method(map@, prop) == mapped_method(map@.subrange(i as int, map@.len() as int), prop),
            decreases map@.len() - i,
        {
            let ghost rest = map@.subrange(i as int, map@.len() as int);
            assert(rest.drop_first() == map@.subrange(i + 1, map@.len() as int));
            assert(rest[0] == map@[i as int]);
            if map[i].0 == prop {
                return map[i].1;
            }
            i = i + 1;
        }
        match find_capable(preferred, prop) {
            Some(m) => m,
            None => ADMETSAMethod::Manual,
        }
    }

    /// Checks that the methods cover the required properties: each mapping
    /// must be producible, and each required property mapped or producible by
    /// a preferred method.
    pub fn validate_methods_cover(
        &self,
        map: &Vec<(ADMETSAProperty, ADMETSAMethod)>,
        preferred: &Vec<ADMETSAMethod>,
    ) -> (r: Result<(), WorkflowError>)
        ensures
            r is Ok <==> methods_cover(map@, preferred@),
            r matches Err(e) ==> e is Validation,
    {
        let mut i: usize = 0;
        while i < map.len()
            invariant
                i <= map@.len(),
                forall|j: int| 0 <= j < i ==> method_covers((#[trigger] map@[j]).1, map@[j].0),
            decreases map@.len() - i,
        {
            if !map[i].1.can_generate(map[i].0) {
                return Err(WorkflowError::Validation("a mapped method cannot produce its property".to_owned()));
            }
            i = i + 1;
        }
        let req = all_required();
        let mut k: usize = 0;
        while k < req.len()
            invariant
                req@ == required_properties(),
                k <= req@.len(),
                forall|j: int| 0 <= j < map@.len() ==> method_covers((#[trigger] map@[j]).1, map@[j].0),
                forall|q: int|
                    0 <= q < k ==> (exists|i: int| 0 <= i < map@.len() && #[trigger] map@[i].0 == required_properties()[q])
                        || first_capable(preferred@, required_properties()[q]) is Some,
            decreases req@.len() - k,
        {
            let p = req[k];
            let mut found = false;
            let mut j: usize = 0;
            while j < map.len()
                invariant
                    j <= map@.len(),
                    found ==> exists|i: int| 0 <= i < map@.len() && #[trigger] map@[i].0 == p,
                    !found ==> forall|i: int| 0 <= i < j ==> #[trigger] map@[i].0 != p,
                decreases map@.len() - j,
            {
                if map[j].0 == p {
                    found = true;
                }
                j = j + 1;
            }
            if !found && find_capable(preferred, p).is_none() {
                return Err(WorkflowError::Validation("no preferred method can produce a required property".to_owned()));
            }
            k = k + 1;
        }
        Ok(())
    }
}

} // verus!
