//! The front-end dispatcher's routing decisions: which per-chain tracker
//! owns a public request, and how per-chain endpoint reports aggregate.
//!
//! This layer performs no balance logic; it is pure routing plus
//! aggregation. Shutdown is a broadcast: the surrounding loop completes it
//! only once every tracker has acknowledged.

use vstd::prelude::*;

use crate::chain::definitions::ChainRequest;
use crate::definitions::RpcInfo;

verus! {

/// Where a public request goes: to the tracker of one chain, to every
/// tracker at once, or to an aggregation over every tracker's answer.
pub enum Route {
    Chain(String),
    Broadcast,
    Aggregate,
}

/// The routing decision for a public request: watch and reap requests go to
/// the tracker owning the invoice's chain, selected by the currency's chain
/// name; shutdown goes to every tracker; an endpoint listing aggregates
/// every tracker's answer.
pub fn route_request(request: &ChainRequest) -> (r: Route)
    ensures
        request matches ChainRequest::WatchAccount(acc) ==> (r matches Route::Chain(name)
            && name@ == acc.currency.chain_name@),
        request matches ChainRequest::Reap(acc) ==> (r matches Route::Chain(name) && name@
            == acc.currency.chain_name@),
        request is Shutdown ==> r is Broadcast,
        request is GetConnectedRpcs ==> r is Aggregate,
{
    match request {
        ChainRequest::WatchAccount(acc) => Route::Chain(acc.currency.chain_name.clone()),
        ChainRequest::Reap(acc) => Route::Chain(acc.currency.chain_name.clone()),
        ChainRequest::Shutdown(_) => Route::Broadcast,
        ChainRequest::GetConnectedRpcs(_) => Route::Aggregate,
    }
}

/// The position of the tracker owning `name` in the chain list, when one is
/// there: the first entry bearing that chain name.
pub fn find_chain(chains: &Vec<String>, name: &String) -> (r: Option<usize>)
    ensures
        r matches Some(i) ==> i < chains@.len() && chains@[i as int]@ == name@ && (forall|j: int|
            0 <= j < i ==> chains@[j]@ != name@),
        r is None ==> forall|j: int| 0 <= j < chains@.len() ==> chains@[j]@ != name@,
{
    let mut i: usize = 0;
    let n = chains.len();
    while i < n
        invariant
            i <= n,
            n == chains@.len(),
            forall|j: int| 0 <= j < i ==> chains@[j]@ != name@,
        decreases n - i,
    {
        if chains[i] == *name {
            return Some(i);
        }
        i += 1;
    }
    None
}

/// Every sequence of the list, in order, as one sequence.
pub open spec fn concat_all(lists: Seq<Seq<RpcInfo>>) -> Seq<RpcInfo>
    decreases lists.len(),
{
    if lists.len() == 0 {
        Seq::empty()
    } else {
        lists[0] + concat_all(lists.skip(1))
    }
}

/// Aggregate the endpoint reports of every tracker into one listing, in
/// tracker order.
pub fn aggregate_endpoints(lists: Vec<Vec<RpcInfo>>) -> (r: Vec<RpcInfo>)
    ensures
        r@ == concat_all(lists@.map_values(|v: Vec<RpcInfo>| v@)),
{
    let ghost orig = lists@.map_values(|v: Vec<RpcInfo>| v@);
    let mut rem = lists;
    let mut out: Vec<RpcInfo> = Vec::new();
    while rem.len() > 0
        invariant
            concat_all(orig) == out@ + concat_all(rem@.map_values(|v: Vec<RpcInfo>| v@)),
        decreases rem@.len(),
    {
        let ghost before = rem@.map_values(|v: Vec<RpcInfo>| v@);
        let mut first = rem.remove(0);
        let ghost firstv = first@;
        let ghost out_before = out@;
        out.append(&mut first);
        proof {
            assert(rem@.map_values(|v: Vec<RpcInfo>| v@) =~= before.skip(1));
            assert(firstv == before[0]);
            assert(concat_all(before) == before[0] + concat_all(before.skip(1)));
            assert(out@ + concat_all(before.skip(1)) =~= out_before + concat_all(before));
        }
    }
    proof {
        assert(concat_all(rem@.map_values(|v: Vec<RpcInfo>| v@)) =~= Seq::<RpcInfo>::empty());
        assert(out@ =~= concat_all(orig));
    }
    out
}

} // verus!
