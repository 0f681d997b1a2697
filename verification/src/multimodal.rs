//! The multimodal items of a request, as far as routing reads them.

use crate::worker::RuntimeType;
use vstd::prelude::*;

verus! {

/// A runtime that cannot take the modalities of a request, and why.
#[derive(Debug)]
pub struct UnsupportedModality {
    pub runtime: RuntimeType,
    pub reason: String,
}

/// The multimodal part of a request after preparation.
#[derive(Debug)]
pub struct MultimodalIntermediate {
    /// The content hash of each item, or why the hashes could not be derived.
    pub routing_hashes: Result<Vec<Vec<u8>>, String>,
    /// The runtimes that cannot take the modalities of the request.
    pub unsupported: Vec<UnsupportedModality>,
}

/// The contents of a list of hashes.
pub open spec fn hash_list(hashes: Seq<Vec<u8>>) -> Seq<Seq<u8>> {
    hashes.map_values(|hash: Vec<u8>| hash@)
}

/// The value behind an optional reference.
pub open spec fn pointee<T>(reference: Option<&T>) -> Option<T> {
    match reference {
        Some(value) => Some(*value),
        None => None,
    }
}

/// The hashes by which the items of a request are routed: none for a request without items.
pub open spec fn item_hashes(intermediate: Option<MultimodalIntermediate>) -> Result<
    Seq<Seq<u8>>,
    Seq<char>,
> {
    match intermediate {
        None => Ok(Seq::empty()),
        Some(intermediate) => match intermediate.routing_hashes {
            Ok(hashes) => Ok(hash_list(hashes@)),
            Err(reason) => Err(reason@),
        },
    }
}

/// Why `runtime` cannot take the modalities of a request: the first reason that is listed.
pub open spec fn objection(
    unsupported: Seq<UnsupportedModality>,
    runtime: RuntimeType,
) -> Option<Seq<char>>
    decreases unsupported.len(),
{
    if unsupported.len() == 0 {
        None
    } else {
        match objection(unsupported.drop_last(), runtime) {
            Some(reason) => Some(reason),
            None => if unsupported.last().runtime == runtime {
                Some(unsupported.last().reason@)
            } else {
                None
            },
        }
    }
}

/// The hashes by which the items of a request are routed.
pub fn encode_item_hashes(intermediate: Option<&MultimodalIntermediate>) -> (hashes: Result<
    Vec<Vec<u8>>,
    String,
>)
    ensures
        match (hashes, item_hashes(pointee(intermediate))) {
            (Ok(list), Ok(expected)) => hash_list(list@) == expected,
            (Err(reason), Err(expected)) => reason@ == expected,
            _ => false,
        },
{
    let intermediate = match intermediate {
        Some(intermediate) => intermediate,
        None => {
            let none: Vec<Vec<u8>> = Vec::new();
            assert(hash_list(none@) =~= Seq::empty());
            return Ok(none);
        },
    };
    match &intermediate.routing_hashes {
        Err(reason) => Err(reason.clone()),
        Ok(hashes) => {
            let mut list: Vec<Vec<u8>> = Vec::new();
            let mut i: usize = 0;
            while i < hashes.len()
                invariant
                    i <= hashes@.len(),
                    hash_list(list@) == hash_list(hashes@.take(i as int)),
                decreases hashes@.len() - i,
            {
                let copy: Vec<u8> = hashes[i].clone();
                assert(copy@ =~= hashes@[i as int]@);
                let ghost before = list@;
                list.push(copy);
                i = i + 1;
                assert(hash_list(list@) =~= hash_list(before).push(copy@));
                assert(hash_list(hashes@.take(i as int)) =~= hash_list(
                    hashes@.take(i - 1),
                ).push(copy@));
            }
            assert(hashes@.take(i as int) =~= hashes@);
            Ok(list)
        },
    }
}

/// Refuses a runtime that cannot take the modalities of the request.
pub fn ensure_backend_supports_modalities(
    runtime: RuntimeType,
    intermediate: &MultimodalIntermediate,
) -> (supported: Result<(), String>)
    ensures
        match (supported, objection(intermediate.unsupported@, runtime)) {
            (Ok(_), None) => true,
            (Err(reason), Some(expected)) => reason@ == expected,
            _ => false,
        },
{
    let mut i: usize = 0;
    while i < intermediate.unsupported.len()
        invariant
            i <= intermediate.unsupported@.len(),
            objection(intermediate.unsupported@.take(i as int), runtime) is None,
        decreases intermediate.unsupported@.len() - i,
    {
        assert(intermediate.unsupported@.take(i + 1).drop_last()
            =~= intermediate.unsupported@.take(i as int));
        if intermediate.unsupported[i].runtime == runtime {
            proof {
                lemma_first_objection(intermediate.unsupported@, i + 1, runtime);
            }
            return Err(intermediate.unsupported[i].reason.clone());
        }
        i = i + 1;
    }
    assert(intermediate.unsupported@.take(i as int) =~= intermediate.unsupported@);
    Ok(())
}

/// An objection of a prefix of the list is the objection of the list.
proof fn lemma_first_objection(
    unsupported: Seq<UnsupportedModality>,
    n: int,
    runtime: RuntimeType,
)
    requires
        0 <= n <= unsupported.len(),
        objection(unsupported.take(n), runtime) is Some,
    ensures
        objection(unsupported, runtime) == objection(unsupported.take(n), runtime),
    decreases unsupported.len(),
{
    if n == unsupported.len() {
        assert(unsupported.take(n) =~= unsupported);
    } else {
        assert(unsupported.drop_last().take(n) =~= unsupported.take(n));
        lemma_first_objection(unsupported.drop_last(), n, runtime);
    }
}

} // verus!
