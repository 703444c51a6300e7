//! The enum differ: matching of enumerated types by name and the variant
//! lists added and removed by a matched pair.

use vstd::prelude::*;
use crate::matching::{first_where, lemma_first_where_from};
use crate::schema::{str_seq, string_eq, DbEnum};

verus! {

/// Two enumerated types match exactly when their names are equal.
pub open spec fn enums_match(previous: DbEnum, next: DbEnum) -> bool {
    previous.name@ == next.name@
}

/// The first position of value `v` in the variant list, or -1.
pub open spec fn variant_position(vs: Seq<String>, v: Seq<char>) -> int {
    first_where(vs, |x: String| x@ == v, 0)
}

fn contains_variant(vs: &Vec<String>, v: &String) -> (r: bool)
    ensures
        r == (variant_position(vs@, v@) != -1),
{
    let ghost p = |x: String| x@ == v@;
    let mut i: usize = 0;
    while i < vs.len()
        invariant
            i <= vs@.len(),
            p == (|x: String| x@ == v@),
            forall|k: int| 0 <= k < i ==> !p(vs@[k]),
        decreases vs@.len() - i,
    {
        if string_eq(&vs[i], v) {
            proof {
                assert(p(vs@[i as int]));
                lemma_first_where_from(vs@, p, 0, i as int);
            }
            return true;
        }
        proof {
            assert(!p(vs@[i as int]));
        }
        i = i + 1;
    }
    proof {
        lemma_first_where_from(vs@, p, 0, vs@.len() as int);
    }
    false
}

/// The values of `nvs` below position `n` that do not occur in `pvs`, in
/// position order.
pub open spec fn variants_only_in_s(pvs: Seq<String>, nvs: Seq<String>, n: int) -> Seq<Seq<char>>
    decreases n,
{
    if n <= 0 {
        Seq::empty()
    } else if variant_position(pvs, nvs[n - 1]@) == -1 {
        variants_only_in_s(pvs, nvs, n - 1).push(nvs[n - 1]@)
    } else {
        variants_only_in_s(pvs, nvs, n - 1)
    }
}

/// The variant values the next enum has and the previous one lacks.
pub open spec fn created_variants_s(previous: DbEnum, next: DbEnum) -> Seq<Seq<char>> {
    variants_only_in_s(previous.variants@, next.variants@, next.variants@.len() as int)
}

/// The variant values the previous enum has and the next one lacks.
pub open spec fn dropped_variants_s(previous: DbEnum, next: DbEnum) -> Seq<Seq<char>> {
    variants_only_in_s(next.variants@, previous.variants@, previous.variants@.len() as int)
}

fn variants_only_in(pvs: &Vec<String>, nvs: &Vec<String>) -> (r: Vec<String>)
    ensures
        str_seq(r@) == variants_only_in_s(pvs@, nvs@, nvs@.len() as int),
{
    let mut out: Vec<String> = Vec::new();
    let mut j: usize = 0;
    while j < nvs.len()
        invariant
            j <= nvs@.len(),
            str_seq(out@) == variants_only_in_s(pvs@, nvs@, j as int),
        decreases nvs@.len() - j,
    {
        if !contains_variant(pvs, &nvs[j]) {
            let ghost before = str_seq(out@);
            out.push(nvs[j].clone());
            proof {
                assert(str_seq(out@) =~= before.push(nvs@[j as int]@));
            }
        }
        j = j + 1;
    }
    out
}

/// Compute the variant values added by the pair, in next position order.
pub fn created_variants(previous: &DbEnum, next: &DbEnum) -> (r: Vec<String>)
    ensures
        str_seq(r@) == created_variants_s(*previous, *next),
{
    variants_only_in(&previous.variants, &next.variants)
}

/// Compute the variant values removed by the pair, in previous position order.
pub fn dropped_variants(previous: &DbEnum, next: &DbEnum) -> (r: Vec<String>)
    ensures
        str_seq(r@) == dropped_variants_s(*previous, *next),
{
    variants_only_in(&next.variants, &previous.variants)
}

/// Whether the ordered variant lists of a matched pair differ at all; a pair
/// with identical lists contributes no enum alteration.
pub open spec fn enum_changed(previous: DbEnum, next: DbEnum) -> bool {
    str_seq(previous.variants@) != str_seq(next.variants@)
}

pub fn enum_lists_differ(previous: &DbEnum, next: &DbEnum) -> (r: bool)
    ensures
        r == enum_changed(*previous, *next),
{
    !crate::schema::string_list_eq(&previous.variants, &next.variants)
}

} // verus!
