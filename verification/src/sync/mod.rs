//! Helpers for keeping a set of pools in step.

use vstd::prelude::*;

use crate::amm::AMM;

verus! {

/// Whether all pools are of the kind of the first one.
pub fn amms_are_congruent(amms: &[AMM]) -> (r: bool)
    requires
        amms@.len() > 0,
    ensures
        r == (forall|i: int| 0 <= i < amms@.len() ==> amms@[0].same_kind(&amms@[i])),
{
    let first_is_v2: bool = match &amms[0] {
        AMM::UniswapV2Pool(_) => true,
        AMM::UniswapV3Pool(_) => false,
    };
    let mut i: usize = 0;
    while i < amms.len()
        invariant
            i <= amms@.len(),
            amms@.len() > 0,
            first_is_v2 == (amms@[0] is UniswapV2Pool),
            forall|j: int| 0 <= j < i ==> amms@[0].same_kind(&amms@[j]),
        decreases amms@.len() - i,
    {
        let is_v2: bool = match &amms[i] {
            AMM::UniswapV2Pool(_) => true,
            AMM::UniswapV3Pool(_) => false,
        };
        if is_v2 != first_is_v2 {
            assert(!amms@[0].same_kind(&amms@[i as int]));
            return false;
        }
        i = i + 1;
    }
    true
}

/// The pools with known token addresses, in their order.
pub open spec fn populated_amms(amms: Seq<AMM>) -> Seq<AMM>
    decreases amms.len(),
{
    if amms.len() == 0 {
        Seq::<AMM>::empty()
    } else if amms.last().is_populated() {
        populated_amms(amms.drop_last()).push(amms.last())
    } else {
        populated_amms(amms.drop_last())
    }
}

/// The elements of `v` in reverse order.
fn reversed(v: Vec<AMM>) -> (r: Vec<AMM>)
    ensures
        r@ == v@.reverse(),
{
    let mut rest: Vec<AMM> = v;
    let mut out: Vec<AMM> = Vec::new();
    while rest.len() > 0
        invariant
            rest@.len() + out@.len() == v@.len(),
            rest@ == v@.take(rest@.len() as int),
            forall|j: int| 0 <= j < out@.len() ==> out@[j] == v@[v@.len() - 1 - j],
        decreases rest@.len(),
    {
        match rest.pop() {
            Some(amm) => {
                out.push(amm);
            },
            None => {},
        }
    }
    assert(out@ =~= v@.reverse());
    out
}

/// Drops the pools whose token addresses are not known, and keeps the
/// others in their order.
pub fn remove_empty_amms(amms: Vec<AMM>) -> (r: Vec<AMM>)
    ensures
        r@ == populated_amms(amms@),
{
    let mut rest: Vec<AMM> = reversed(amms);
    let ghost all = amms@;
    let mut cleaned_amms: Vec<AMM> = Vec::new();
    assert(all.take(0) =~= Seq::<AMM>::empty());
    while rest.len() > 0
        invariant
            rest@.len() <= all.len(),
            forall|j: int| 0 <= j < rest@.len() ==> rest@[j] == all[all.len() - 1 - j],
            cleaned_amms@ == populated_amms(all.take(all.len() - rest@.len())),
        decreases rest@.len(),
    {
        let ghost done = all.len() - rest@.len();
        match rest.pop() {
            Some(amm) => {
                proof {
                    assert(amm == all[done]);
                    assert(all.take(done + 1).drop_last() =~= all.take(done));
                    assert(all.take(done + 1).last() == all[done]);
                }
                if amm.data_is_populated() {
                    cleaned_amms.push(amm);
                }
            },
            None => {},
        }
    }
    assert(all.take(all.len() as int) =~= all);
    cleaned_amms
}

} // verus!
