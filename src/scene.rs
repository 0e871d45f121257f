use vstd::prelude::*;

verus! {

/// `k` indexes the closest hit among `keys`: a present key that no other
/// present key undercuts, and that every earlier present key exceeds (ties go
/// to the first shape).
pub open spec fn is_closest(keys: Seq<Option<u32>>, k: int) -> bool {
    &&& 0 <= k < keys.len()
    &&& keys[k] is Some
    &&& forall|m: int|
        0 <= m < keys.len() && #[trigger] keys[m] is Some ==> keys[k]->Some_0 <= keys[m]->Some_0
    &&& forall|m: int| 0 <= m < k && #[trigger] keys[m] is Some ==> keys[k]->Some_0 < keys[m]->Some_0
}

/// The index of the closest hit, given for each shape of the scene, in
/// insertion order, the order key of its hit distance (`None` on a miss).
///
/// Hit distances are strictly positive, and the bit pattern of a positive
/// `f32` read as an unsigned integer orders exactly as the value does: the
/// renderer passes `t.to_bits()` as the key.
pub fn closest_hit_index(keys: &[Option<u32>]) -> (r: Option<usize>)
    ensures
        r is None <==> forall|m: int| 0 <= m < keys@.len() ==> #[trigger] keys@[m] is None,
        r matches Some(k) ==> is_closest(keys@, k as int),
{
    let mut best: Option<usize> = None;
    let mut k: usize = 0;
    while k < keys.len()
        invariant
            k <= keys@.len(),
            best is None <==> forall|m: int| 0 <= m < k ==> #[trigger] keys@[m] is None,
            best matches Some(b) ==> is_closest(keys@.subrange(0, k as int), b as int),
        decreases keys@.len() - k,
    {
        if let Some(t) = keys[k] {
            let closer = match best {
                None => true,
                Some(b) => t < keys[b].unwrap(),
            };
            if closer {
                best = Some(k);
            }
        }
        k = k + 1;
    }
    assert(keys@.subrange(0, keys@.len() as int) == keys@);
    best
}

} // verus!
