use vstd::prelude::*;

verus! {

/// Names the Keccak-256 digest of `parts` hashed one after another.
pub uninterp spec fn keccak_of(parts: Seq<Seq<u8>>) -> Seq<u8>;

/// Relies on `solana_program::keccak::hashv`: the 32-byte Keccak-256 digest of
/// the parts fed in order, which depends on their bytes alone.
#[verifier::external_body]
#[allow(deprecated)]
fn keccak_hashv(parts: &Vec<Vec<u8>>) -> (r: [u8; 32])
    ensures
        r@ == keccak_of(parts@.map_values(|p: Vec<u8>| p@)),
{
    let slices: Vec<&[u8]> = parts.iter().map(|p| p.as_slice()).collect();
    solana_program::keccak::hashv(&slices).0
}

/// Views of the sibling hashes of a proof.
pub open spec fn proof_view(proof: Seq<[u8; 32]>) -> Seq<Seq<u8>> {
    proof.map_values(|p: [u8; 32]| p@)
}

/// Hashes `computed` up the tree along `proof`: at each level the running
/// hash goes on the left when the index is even and on the right when odd,
/// then the index moves to the parent.
pub open spec fn merkle_fold(computed: Seq<u8>, proof: Seq<Seq<u8>>, index: nat) -> Seq<u8>
    decreases proof.len(),
{
    if proof.len() == 0 {
        computed
    } else {
        let next = if index % 2 == 0 {
            keccak_of(seq![computed, proof[0]])
        } else {
            keccak_of(seq![proof[0], computed])
        };
        merkle_fold(next, proof.drop_first(), index / 2)
    }
}

fn hash_pair(left: &[u8; 32], right: &[u8; 32]) -> (r: [u8; 32])
    ensures
        r@ == keccak_of(seq![left@, right@]),
{
    let mut parts: Vec<Vec<u8>> = Vec::new();
    parts.push(vstd::slice::slice_to_vec(left.as_slice()));
    parts.push(vstd::slice::slice_to_vec(right.as_slice()));
    let r = keccak_hashv(&parts);
    assert(parts@.map_values(|p: Vec<u8>| p@) =~= seq![left@, right@]);
    r
}

/// Whether `proof` shows that `leaf` sits at `index` under `root`.
pub fn verify_proof(leaf: &[u8], proof: &Vec<[u8; 32]>, root: &[u8; 32], index: u64) -> (r: bool)
    ensures
        r == (merkle_fold(keccak_of(seq![leaf@]), proof_view(proof@), index as nat) == root@),
{
    let mut parts: Vec<Vec<u8>> = Vec::new();
    parts.push(vstd::slice::slice_to_vec(leaf));
    let mut computed = keccak_hashv(&parts);
    assert(parts@.map_values(|p: Vec<u8>| p@) =~= seq![leaf@]);
    let ghost target = merkle_fold(keccak_of(seq![leaf@]), proof_view(proof@), index as nat);
    let mut idx = index;
    let mut i: usize = 0;
    assert(proof_view(proof@).skip(0) =~= proof_view(proof@));
    while i < proof.len()
        invariant
            0 <= i <= proof@.len(),
            target == merkle_fold(keccak_of(seq![leaf@]), proof_view(proof@), index as nat),
            merkle_fold(computed@, proof_view(proof@).skip(i as int), idx as nat) == target,
        decreases proof@.len() - i,
    {
        let p = &proof[i];
        proof {
            assert(proof_view(proof@).skip(i as int)[0] == p@);
            assert(proof_view(proof@).skip(i as int).drop_first() =~= proof_view(proof@).skip(i + 1));
        }
        if idx % 2 == 0 {
            computed = hash_pair(&computed, p);
        } else {
            computed = hash_pair(p, &computed);
        }
        idx = idx / 2;
        i = i + 1;
    }
    proof {
        assert(proof_view(proof@).skip(i as int) =~= Seq::<Seq<u8>>::empty());
        assert(computed@ == target);
    }
    let mut j: usize = 0;
    while j < 32
        invariant
            0 <= j <= 32,
            forall|k: int| 0 <= k < j ==> computed@[k] == root@[k],
            computed@ == target,
            target == merkle_fold(keccak_of(seq![leaf@]), proof_view(proof@), index as nat),
        decreases 32 - j,
    {
        if computed[j] != root[j] {
            assert(computed@[j as int] != root@[j as int]);
            return false;
        }
        j = j + 1;
    }
    assert(computed@ =~= root@);
    true
}

} // verus!
