use vstd::prelude::*;

use crate::dag::BuiltInType;
use crate::program_def::{ProgramDef, VertexAttributeDef, VertexBlockDef};

use super::error::{ProgramError, ProgramValidationError};
use super::vertex_layout::{attribute_layout, VertexAttributeLayout};

verus! {

/// The first position of `s` below `k` whose element occurs earlier in `s`.
pub open spec fn first_dup<T>(s: Seq<T>, k: int) -> Option<int>
    decreases k,
{
    if k <= 0 {
        None
    } else {
        match first_dup(s, k - 1) {
            Some(i) => Some(i),
            None => if s.take(k - 1).contains(s[k - 1]) {
                Some(k - 1)
            } else {
                None
            },
        }
    }
}

proof fn lemma_first_dup_stable<T>(s: Seq<T>, k1: int, k2: int)
    requires
        k1 <= k2,
        first_dup(s, k1) is Some,
    ensures
        first_dup(s, k2) == first_dup(s, k1),
    decreases k2 - k1,
{
    if k1 < k2 {
        lemma_first_dup_stable(s, k1, k2 - 1);
    }
}

/// A sequence whose elements are pairwise distinct has no repeat.
pub proof fn lemma_distinct_no_dup<T>(s: Seq<T>, k: int)
    requires
        0 <= k <= s.len(),
        forall|i: int, j: int| 0 <= i < j < s.len() ==> s[i] != s[j],
    ensures
        first_dup(s, k) is None,
    decreases k,
{
    if k > 0 {
        lemma_distinct_no_dup(s, k - 1);
        if s.take(k - 1).contains(s[k - 1]) {
            let i = choose|i: int| 0 <= i < k - 1 && #[trigger] s.take(k - 1)[i] == s[k - 1];
            assert(s[i] == s[k - 1]);
        }
    }
}

/// The names of the samplers.
pub open spec fn sampler_names(def: ProgramDef) -> Seq<Seq<char>> {
    def.uniform_sampler_defs@.map_values(|d: crate::program_def::UniformSamplerDef| d.name@)
}

/// The texture units of the samplers.
pub open spec fn sampler_units(def: ProgramDef) -> Seq<usize> {
    def.uniform_sampler_defs@.map_values(|d: crate::program_def::UniformSamplerDef| d.texture_unit)
}

/// The names of the uniform blocks.
pub open spec fn block_names(def: ProgramDef) -> Seq<Seq<char>> {
    def.uniform_block_defs@.map_values(|d: crate::program_def::UniformBlockDef| d.block_name@)
}

/// The binding points of the uniform blocks.
pub open spec fn block_locations(def: ProgramDef) -> Seq<usize> {
    def.uniform_block_defs@.map_values(|d: crate::program_def::UniformBlockDef| d.location)
}

/// What validating a program gives: the first repeated sampler name, else
/// the first repeated texture unit, else the first repeated block name,
/// else the first repeated block location, else success.
pub open spec fn validation_result(def: ProgramDef) -> Result<(), ProgramValidationError> {
    let names = sampler_names(def);
    let units = sampler_units(def);
    let blocks = block_names(def);
    let locations = block_locations(def);
    if let Some(i) = first_dup(names, names.len() as int) {
        Err(ProgramValidationError::DuplicateSampler(def.uniform_sampler_defs@[i].name))
    } else if let Some(i) = first_dup(units, units.len() as int) {
        Err(ProgramValidationError::DuplicateSamplerTextureUnit(units[i]))
    } else if let Some(i) = first_dup(blocks, blocks.len() as int) {
        Err(ProgramValidationError::DuplicateUniformBlock(def.uniform_block_defs@[i].block_name))
    } else if let Some(i) = first_dup(locations, locations.len() as int) {
        Err(ProgramValidationError::DuplicateUniformBlockLocation(locations[i]))
    } else {
        Ok(())
    }
}

/// `first_dup` finds a repeat exactly when there is one, and what it finds
/// repeats an earlier element.
proof fn lemma_first_dup_finds_repeats<T>(s: Seq<T>, k: int)
    requires
        0 <= k <= s.len(),
    ensures
        first_dup(s, k) is None <==> forall|i: int, j: int| 0 <= i < j < k ==> s[i] != s[j],
        first_dup(s, k) matches Some(m) ==> 0 <= m < k && (exists|i: int| 0 <= i < m && s[i] == s[m]) && forall|
            a: int,
            b: int,
        | 0 <= a < b < m ==> s[a] != s[b],
    decreases k,
{
    if k > 0 {
        lemma_first_dup_finds_repeats(s, k - 1);
        if first_dup(s, k - 1) is None {
            if s.take(k - 1).contains(s[k - 1]) {
                assert(forall|a: int, b: int| 0 <= a < b < k - 1 ==> s[a] != s[b]);
            }
        }
        if first_dup(s, k - 1) is None {
            if s.take(k - 1).contains(s[k - 1]) {
                let i = choose|i: int| 0 <= i < k - 1 && #[trigger] s.take(k - 1)[i] == s[k - 1];
                assert(s[i] == s[k - 1]);
            } else {
                assert forall|i: int, j: int| 0 <= i < j < k implies s[i] != s[j] by {
                    if j == k - 1 && s[i] == s[j] {
                        assert(s.take(k - 1)[i] == s[k - 1]);
                    }
                }
            }
        } else {
            let m = first_dup(s, k - 1)->0;
            let i = choose|i: int| 0 <= i < m && s[i] == s[m];
            assert(!(forall|a: int, b: int| 0 <= a < b < k ==> s[a] != s[b])) by {
                assert(0 <= i < m < k && s[i] == s[m]);
            }
        }
    }
}

/// Validation succeeds exactly when no two samplers share a name or a
/// texture unit and no two uniform blocks share a name or a location; an
/// error names a value that two of them share.
pub proof fn lemma_validation_finds_every_repeat(def: ProgramDef)
    ensures
        validation_result(def) is Ok <==> {
            let (ss, bs) = (def.uniform_sampler_defs@, def.uniform_block_defs@);
            &&& forall|i: int, j: int| 0 <= i < j < ss.len() ==> #[trigger] ss[i].name@ != #[trigger] ss[j].name@
            &&& forall|i: int, j: int|
                0 <= i < j < ss.len() ==> #[trigger] ss[i].texture_unit != #[trigger] ss[j].texture_unit
            &&& forall|i: int, j: int| 0 <= i < j < bs.len() ==> #[trigger] bs[i].block_name@ != #[trigger] bs[j].block_name@
            &&& forall|i: int, j: int| 0 <= i < j < bs.len() ==> #[trigger] bs[i].location != #[trigger] bs[j].location
        },
{
    let ss = def.uniform_sampler_defs@;
    let bs = def.uniform_block_defs@;
    let names = sampler_names(def);
    let units = sampler_units(def);
    let blocks = block_names(def);
    let locations = block_locations(def);
    lemma_first_dup_finds_repeats(names, names.len() as int);
    lemma_first_dup_finds_repeats(units, units.len() as int);
    lemma_first_dup_finds_repeats(blocks, blocks.len() as int);
    lemma_first_dup_finds_repeats(locations, locations.len() as int);
    assert(forall|i: int| 0 <= i < ss.len() ==> #[trigger] names[i] == ss[i].name@ && units[i] == ss[i].texture_unit);
    assert(forall|i: int|
        0 <= i < bs.len() ==> #[trigger] blocks[i] == bs[i].block_name@ && locations[i] == bs[i].location);
    assert((forall|i: int, j: int| 0 <= i < j < ss.len() ==> #[trigger] ss[i].name@ != #[trigger] ss[j].name@) <==> (
    forall|i: int, j: int| 0 <= i < j < names.len() ==> names[i] != names[j])) by {
        if forall|i: int, j: int| 0 <= i < j < names.len() ==> names[i] != names[j] {
            assert forall|i: int, j: int| 0 <= i < j < ss.len() implies #[trigger] ss[i].name@ != #[trigger] ss[j].name@ by {
                assert(names[i] != names[j]);
            }
        }
        if forall|i: int, j: int| 0 <= i < j < ss.len() ==> #[trigger] ss[i].name@ != #[trigger] ss[j].name@ {
            assert forall|i: int, j: int| 0 <= i < j < names.len() implies names[i] != names[j] by {
                assert(ss[i].name@ != ss[j].name@);
            }
        }
    }
    assert((forall|i: int, j: int|
        0 <= i < j < ss.len() ==> #[trigger] ss[i].texture_unit != #[trigger] ss[j].texture_unit) <==> (forall|
        i: int,
        j: int,
    | 0 <= i < j < units.len() ==> units[i] != units[j])) by {
        if forall|i: int, j: int| 0 <= i < j < units.len() ==> units[i] != units[j] {
            assert forall|i: int, j: int| 0 <= i < j < ss.len() implies #[trigger] ss[i].texture_unit
                != #[trigger] ss[j].texture_unit by {
                assert(units[i] != units[j]);
            }
        }
        if forall|i: int, j: int| 0 <= i < j < ss.len() ==> #[trigger] ss[i].texture_unit != #[trigger] ss[j].texture_unit {
            assert forall|i: int, j: int| 0 <= i < j < units.len() implies units[i] != units[j] by {
                assert(ss[i].texture_unit != ss[j].texture_unit);
            }
        }
    }
    assert((forall|i: int, j: int| 0 <= i < j < bs.len() ==> #[trigger] bs[i].block_name@ != #[trigger] bs[j].block_name@)
        <==> (forall|i: int, j: int| 0 <= i < j < blocks.len() ==> blocks[i] != blocks[j])) by {
        if forall|i: int, j: int| 0 <= i < j < blocks.len() ==> blocks[i] != blocks[j] {
            assert forall|i: int, j: int| 0 <= i < j < bs.len() implies #[trigger] bs[i].block_name@
                != #[trigger] bs[j].block_name@ by {
                assert(blocks[i] != blocks[j]);
            }
        }
        if forall|i: int, j: int| 0 <= i < j < bs.len() ==> #[trigger] bs[i].block_name@ != #[trigger] bs[j].block_name@ {
            assert forall|i: int, j: int| 0 <= i < j < blocks.len() implies blocks[i] != blocks[j] by {
                assert(bs[i].block_name@ != bs[j].block_name@);
            }
        }
    }
    assert((forall|i: int, j: int| 0 <= i < j < bs.len() ==> #[trigger] bs[i].location != #[trigger] bs[j].location)
        <==> (forall|i: int, j: int| 0 <= i < j < locations.len() ==> locations[i] != locations[j])) by {
        if forall|i: int, j: int| 0 <= i < j < locations.len() ==> locations[i] != locations[j] {
            assert forall|i: int, j: int| 0 <= i < j < bs.len() implies #[trigger] bs[i].location
                != #[trigger] bs[j].location by {
                assert(locations[i] != locations[j]);
            }
        }
        if forall|i: int, j: int| 0 <= i < j < bs.len() ==> #[trigger] bs[i].location != #[trigger] bs[j].location {
            assert forall|i: int, j: int| 0 <= i < j < locations.len() implies locations[i] != locations[j] by {
                assert(bs[i].location != bs[j].location);
            }
        }
    }
}

/// An error names the first repeat, in the order of the checks: the first
/// sampler that repeats the name of an earlier one, else the first that
/// repeats a texture unit, else the first uniform block that repeats a
/// name, else the first that repeats a location. The error's value is
/// shared by that element and an earlier one, and the elements before it
/// hold no repeat.
pub proof fn lemma_validation_error_is_first_repeat(def: ProgramDef)
    ensures
        validation_result(def) matches Err(ProgramValidationError::DuplicateSampler(n)) ==> is_first_repeat(
            sampler_names(def),
            n@,
        ),
        validation_result(def) matches Err(ProgramValidationError::DuplicateSamplerTextureUnit(u)) ==> all_distinct(
            sampler_names(def),
        ) && is_first_repeat(sampler_units(def), u),
        validation_result(def) matches Err(ProgramValidationError::DuplicateUniformBlock(n)) ==> all_distinct(
            sampler_names(def),
        ) && all_distinct(sampler_units(def)) && is_first_repeat(block_names(def), n@),
        validation_result(def) matches Err(ProgramValidationError::DuplicateUniformBlockLocation(l)) ==> all_distinct(
            sampler_names(def),
        ) && all_distinct(sampler_units(def)) && all_distinct(block_names(def)) && is_first_repeat(
            block_locations(def),
            l,
        ),
{
    let names = sampler_names(def);
    let units = sampler_units(def);
    let blocks = block_names(def);
    let locations = block_locations(def);
    lemma_first_dup_finds_repeats(names, names.len() as int);
    lemma_first_dup_finds_repeats(units, units.len() as int);
    lemma_first_dup_finds_repeats(blocks, blocks.len() as int);
    lemma_first_dup_finds_repeats(locations, locations.len() as int);
    if let Some(m) = first_dup(names, names.len() as int) {
        assert(names[m] == def.uniform_sampler_defs@[m].name@);
        let i = choose|i: int| 0 <= i < m && names[i] == names[m];
        assert(is_first_repeat(names, names[m])) by {
            assert(0 <= i < m < names.len() && names[i] == names[m] && names[m] == names[m]);
        }
    } else if let Some(m) = first_dup(units, units.len() as int) {
        let i = choose|i: int| 0 <= i < m && units[i] == units[m];
        assert(is_first_repeat(units, units[m])) by {
            assert(0 <= i < m < units.len() && units[i] == units[m] && units[m] == units[m]);
        }
    } else if let Some(m) = first_dup(blocks, blocks.len() as int) {
        assert(blocks[m] == def.uniform_block_defs@[m].block_name@);
        let i = choose|i: int| 0 <= i < m && blocks[i] == blocks[m];
        assert(is_first_repeat(blocks, blocks[m])) by {
            assert(0 <= i < m < blocks.len() && blocks[i] == blocks[m] && blocks[m] == blocks[m]);
        }
    } else if let Some(m) = first_dup(locations, locations.len() as int) {
        let i = choose|i: int| 0 <= i < m && locations[i] == locations[m];
        assert(is_first_repeat(locations, locations[m])) by {
            assert(0 <= i < m < locations.len() && locations[i] == locations[m] && locations[m] == locations[m]);
        }
    }
}

/// No two elements of `s` are equal.
pub open spec fn all_distinct<T>(s: Seq<T>) -> bool {
    forall|a: int, b: int| 0 <= a < b < s.len() ==> s[a] != s[b]
}

/// `x` is the value of the first element of `s` that repeats an earlier
/// one: elements `i < j` both hold `x`, and no two elements before `j` are
/// equal.
pub open spec fn is_first_repeat<T>(s: Seq<T>, x: T) -> bool {
    exists|i: int, j: int|
        #![trigger s[i], s[j]]
        0 <= i < j < s.len() && s[i] == x && s[j] == x && forall|a: int, b: int| 0 <= a < b < j ==> s[a] != s[b]
}

/// The position of the first string of `s` that repeats an earlier one.
fn first_dup_str(s: &Vec<&String>, Ghost(v): Ghost<Seq<Seq<char>>>) -> (r: Option<usize>)
    requires
        v.len() == s.len(),
        forall|i: int| 0 <= i < s.len() ==> #[trigger] v[i] == s@[i]@,
    ensures
        match r {
            Some(i) => i < s.len() && first_dup(v, v.len() as int) == Some(i as int),
            None => first_dup(v, v.len() as int) is None,
        },
{
    let mut k: usize = 0;
    while k < s.len()
        invariant
            k <= s.len(),
            v.len() == s.len(),
            forall|i: int| 0 <= i < s.len() ==> #[trigger] v[i] == s@[i]@,
            first_dup(v, k as int) is None,
        decreases s.len() - k,
    {
        let mut j: usize = 0;
        let mut found = false;
        while j < k
            invariant
                j <= k < s.len(),
                v.len() == s.len(),
                forall|i: int| 0 <= i < s.len() ==> #[trigger] v[i] == s@[i]@,
                found <==> exists|i: int| 0 <= i < j && v[i] == v[k as int],
            decreases k - j,
        {
            let a: &String = s[j];
            let b: &String = s[k];
            assert(v[j as int] == a@ && v[k as int] == b@);
            if a.eq(b) {
                found = true;
            }
            j = j + 1;
        }
        proof {
            assert(found <==> v.take(k as int).contains(v[k as int])) by {
                if found {
                    let i = choose|i: int| 0 <= i < j && v[i] == v[k as int];
                    assert(v.take(k as int)[i] == v[k as int]);
                }
                if v.take(k as int).contains(v[k as int]) {
                    let i = choose|i: int| 0 <= i < k && v.take(k as int)[i] == v[k as int];
                    assert(v[i] == v[k as int]);
                }
            }
        }
        if found {
            proof {
                lemma_first_dup_stable(v, k + 1, v.len() as int);
            }
            return Some(k);
        }
        k = k + 1;
    }
    None
}

/// The position of the first number of `s` that repeats an earlier one.
fn first_dup_num(s: &Vec<usize>) -> (r: Option<usize>)
    ensures
        match r {
            Some(i) => i < s.len() && first_dup(s@, s@.len() as int) == Some(i as int),
            None => first_dup(s@, s@.len() as int) is None,
        },
{
    let mut k: usize = 0;
    while k < s.len()
        invariant
            k <= s.len(),
            first_dup(s@, k as int) is None,
        decreases s.len() - k,
    {
        let mut j: usize = 0;
        let mut found = false;
        while j < k
            invariant
                j <= k < s.len(),
                found <==> exists|i: int| 0 <= i < j && s@[i] == s@[k as int],
            decreases k - j,
        {
            if s[j] == s[k] {
                found = true;
            }
            j = j + 1;
        }
        proof {
            assert(found <==> s@.take(k as int).contains(s@[k as int])) by {
                if found {
                    let i = choose|i: int| 0 <= i < j && s@[i] == s@[k as int];
                    assert(s@.take(k as int)[i] == s@[k as int]);
                }
            }
        }
        if found {
            proof {
                lemma_first_dup_stable(s@, k + 1, s@.len() as int);
            }
            return Some(k);
        }
        k = k + 1;
    }
    None
}

/// Checks that no two samplers share a name or a texture unit and that no
/// two uniform blocks share a name or a location.
pub fn validate_program_def(def: &ProgramDef) -> (r: Result<(), ProgramValidationError>)
    ensures
        r == validation_result(*def),
{
    let mut names: Vec<&String> = Vec::new();
    let mut units: Vec<usize> = Vec::new();
    let mut i: usize = 0;
    while i < def.uniform_sampler_defs.len()
        invariant
            i <= def.uniform_sampler_defs.len(),
            names.len() == i,
            forall|k: int| 0 <= k < i ==> #[trigger] names@[k]@ == sampler_names(*def)[k],
            forall|k: int| 0 <= k < i ==> #[trigger] names@[k] == def.uniform_sampler_defs@[k].name,
            units@ == sampler_units(*def).take(i as int),
        decreases def.uniform_sampler_defs.len() - i,
    {
        names.push(&def.uniform_sampler_defs[i].name);
        units.push(def.uniform_sampler_defs[i].texture_unit);
        proof {
            assert(sampler_units(*def).take(i + 1) == sampler_units(*def).take(i as int).push(sampler_units(*def)[i as int]));
        }
        i = i + 1;
    }
    assert(sampler_units(*def).take(i as int) == sampler_units(*def));
    if let Some(k) = first_dup_str(&names, Ghost(sampler_names(*def))) {
        return Err(ProgramValidationError::DuplicateSampler(def.uniform_sampler_defs[k].name.clone()));
    }
    if let Some(k) = first_dup_num(&units) {
        return Err(ProgramValidationError::DuplicateSamplerTextureUnit(units[k]));
    }
    let mut blocks: Vec<&String> = Vec::new();
    let mut locations: Vec<usize> = Vec::new();
    let mut i: usize = 0;
    while i < def.uniform_block_defs.len()
        invariant
            i <= def.uniform_block_defs.len(),
            blocks.len() == i,
            forall|k: int| 0 <= k < i ==> #[trigger] blocks@[k]@ == block_names(*def)[k],
            forall|k: int| 0 <= k < i ==> #[trigger] blocks@[k] == def.uniform_block_defs@[k].block_name,
            locations@ == block_locations(*def).take(i as int),
        decreases def.uniform_block_defs.len() - i,
    {
        blocks.push(&def.uniform_block_defs[i].block_name);
        locations.push(def.uniform_block_defs[i].location);
        proof {
            assert(block_locations(*def).take(i + 1) == block_locations(*def).take(i as int).push(
                block_locations(*def)[i as int],
            ));
        }
        i = i + 1;
    }
    assert(block_locations(*def).take(i as int) == block_locations(*def));
    if let Some(k) = first_dup_str(&blocks, Ghost(block_names(*def))) {
        return Err(ProgramValidationError::DuplicateUniformBlock(def.uniform_block_defs[k].block_name.clone()));
    }
    if let Some(k) = first_dup_num(&locations) {
        return Err(ProgramValidationError::DuplicateUniformBlockLocation(locations[k]));
    }
    Ok(())
}


/// The attributes of the vertex blocks, block after block.
pub open spec fn flat_attrs(blocks: Seq<VertexBlockDef>) -> Seq<VertexAttributeDef>
    decreases blocks.len(),
{
    if blocks.len() == 0 {
        seq![]
    } else {
        flat_attrs(blocks.drop_last()) + blocks.last().attributes@
    }
}

/// The number of locations that an attribute of type `ty` takes; none for
/// a type that cannot be an attribute.
pub open spec fn locations_of(ty: BuiltInType) -> nat {
    match attribute_layout(ty) {
        Some((_, _, l)) => l,
        None => 0,
    }
}

/// The first location of attribute `k`: the locations that the attributes
/// before it take.
pub open spec fn location_of(attrs: Seq<VertexAttributeDef>, k: int) -> nat
    decreases k,
{
    if k <= 0 {
        0
    } else {
        location_of(attrs, k - 1) + locations_of(attrs[k - 1].ty)
    }
}

/// The first attribute below `k` whose type cannot be an attribute.
pub open spec fn first_invalid(attrs: Seq<VertexAttributeDef>, k: int) -> Option<int>
    decreases k,
{
    if k <= 0 {
        None
    } else {
        match first_invalid(attrs, k - 1) {
            Some(i) => Some(i),
            None => if attribute_layout(attrs[k - 1].ty) is None {
                Some(k - 1)
            } else {
                None
            },
        }
    }
}

/// Why a type cannot be an attribute.
pub open spec fn invalid_attribute_text(ty: BuiltInType) -> Seq<char> {
    if ty is Sampler {
        "sampler types are not supported"@
    } else {
        "boolean vectors are not supported"@
    }
}

pub(crate) proof fn lemma_first_invalid_stable(attrs: Seq<VertexAttributeDef>, k1: int, k2: int)
    requires
        k1 <= k2,
        first_invalid(attrs, k1) is Some,
    ensures
        first_invalid(attrs, k2) == first_invalid(attrs, k1),
    decreases k2 - k1,
{
    if k1 < k2 {
        lemma_first_invalid_stable(attrs, k1, k2 - 1);
    }
}

/// The attributes of `blocks`, block after block.
fn flatten(blocks: &Vec<VertexBlockDef>) -> (r: Vec<&VertexAttributeDef>)
    ensures
        r@.len() == flat_attrs(blocks@).len(),
        forall|k: int| 0 <= k < r@.len() ==> *#[trigger] r@[k] == flat_attrs(blocks@)[k],
{
    let mut r: Vec<&VertexAttributeDef> = Vec::new();
    let mut b: usize = 0;
    while b < blocks.len()
        invariant
            b <= blocks.len(),
            r@.len() == flat_attrs(blocks@.take(b as int)).len(),
            forall|k: int| 0 <= k < r@.len() ==> *#[trigger] r@[k] == flat_attrs(blocks@.take(b as int))[k],
        decreases blocks.len() - b,
    {
        let block = &blocks[b];
        let ghost prefix = flat_attrs(blocks@.take(b as int));
        let mut a: usize = 0;
        while a < block.attributes.len()
            invariant
                a <= block.attributes.len(),
                prefix == flat_attrs(blocks@.take(b as int)),
                r@.len() == prefix.len() + a,
                forall|k: int| 0 <= k < prefix.len() ==> *#[trigger] r@[k] == prefix[k],
                forall|k: int| 0 <= k < a ==> *#[trigger] r@[prefix.len() + k] == block.attributes@[k],
            decreases block.attributes.len() - a,
        {
            r.push(&block.attributes[a]);
            a = a + 1;
        }
        proof {
            assert(blocks@.take(b + 1).drop_last() == blocks@.take(b as int));
            assert(blocks@.take(b + 1).last() == *block);
            let next = flat_attrs(blocks@.take(b + 1));
            assert(next == prefix + block.attributes@);
            assert forall|k: int| 0 <= k < r@.len() implies *#[trigger] r@[k] == next[k] by {
                if k >= prefix.len() {
                    assert(*r@[prefix.len() + (k - prefix.len())] == block.attributes@[k - prefix.len()]);
                }
            }
        }
        b = b + 1;
    }
    assert(blocks@.take(b as int) == blocks@);
    r
}

/// The location that each attribute of the program is bound to: one after
/// another, each taking as many locations as its layout. Fails at the first
/// attribute whose type cannot be an attribute.
pub fn attribute_locations(def: &ProgramDef) -> (r: Result<Vec<(String, u32)>, ProgramError>)
    requires
        forall|k: int|
            0 <= k < flat_attrs(def.vertex_block_defs@).len() ==> location_of(flat_attrs(def.vertex_block_defs@), k)
                <= u32::MAX,
    ensures
        ({
            let all = flat_attrs(def.vertex_block_defs@);
            match first_invalid(all, all.len() as int) {
                Some(i) => r matches Err(ProgramError::InvalidVertexAttribute(m)) && m@ == invalid_attribute_text(
                    all[i].ty,
                ),
                None => r matches Ok(bindings) && bindings@.len() == all.len() && forall|k: int|
                    0 <= k < all.len() ==> (#[trigger] bindings@[k]).0@ == all[k].name@ && bindings@[k].1
                        == location_of(all, k),
            }
        }),
{
    let attrs = flatten(&def.vertex_block_defs);
    let ghost fa = flat_attrs(def.vertex_block_defs@);
    let mut bindings: Vec<(String, u32)> = Vec::new();
    let mut index: u64 = 0;
    let mut k: usize = 0;
    while k < attrs.len()
        invariant
            k <= attrs.len(),
            fa == flat_attrs(def.vertex_block_defs@),
            attrs@.len() == fa.len(),
            forall|j: int| 0 <= j < attrs@.len() ==> *#[trigger] attrs@[j] == fa[j],
            forall|j: int| 0 <= j < fa.len() ==> location_of(fa, j) <= u32::MAX,
            index == location_of(fa, k as int),
            first_invalid(fa, k as int) is None,
            bindings@.len() == k,
            forall|j: int|
                0 <= j < k ==> (#[trigger] bindings@[j]).0@ == fa[j].name@ && bindings@[j].1 == location_of(fa, j),
        decreases attrs.len() - k,
    {
        let attribute = attrs[k];
        let location = index as u32;
        bindings.push((attribute.name.clone(), location));
        match VertexAttributeLayout::new(attribute.ty) {
            Ok(layout) => {
                index = index + layout.locations as u64;
            },
            Err(e) => {
                proof {
                    assert(attribute_layout(attribute.ty) is None);
                    assert(attribute.ty is Sampler || attribute.ty is BVec2 || attribute.ty is BVec3 || attribute.ty is BVec4);
                    assert(e@ == invalid_attribute_text(attribute.ty));
                    assert(first_invalid(fa, k + 1) == Some(k as int));
                    lemma_first_invalid_stable(fa, k + 1, fa.len() as int);
                    assert(first_invalid(fa, fa.len() as int) == Some(k as int));
                    assert(fa[k as int].ty == attribute.ty);
                }
                let r = Err(ProgramError::InvalidVertexAttribute(e));
                return r;
            },
        }
        k = k + 1;
    }
    Ok(bindings)
}

} // verus!
