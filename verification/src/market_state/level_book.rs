//! Single-writer store of structural objects. Objects are never physically
//! removed, which keeps identities stable and makes mutation replay auditable.

use super::contracts::{
    LevelId, LevelState, StructuralMutation, StructuralNodeId, StructuralObject,
};
use super::id_table::{IdTable, id_table_map};
use std::sync::Arc;
use vstd::prelude::*;

verus! {

/// Why a batch of mutations was refused.
#[derive(Clone, Copy, Debug, PartialEq, Eq, Structural)]
pub enum LevelBookError {
    MissingIdentity,
    DuplicateIdentity(LevelId),
    UnknownIdentity(LevelId),
    ImmutableIdentity(LevelId),
    IdentityDrift(LevelId),
    InvalidGeometry(LevelId),
    InvalidProvenance(LevelId),
    NonSequentialGeneration { expected: u64, actual: u64 },
    UnknownNode(StructuralNodeId),
}

// ---------------------------------------------------------------------------
// The mathematical model of a batch.
// ---------------------------------------------------------------------------

/// Identity key of an object.
pub open spec fn key_of(object: StructuralObject) -> u64 {
    object.id_spec().0
}

/// No two stored objects share an identity.
pub open spec fn ids_unique(objects: Seq<StructuralObject>) -> bool {
    forall|i: int, j: int|
        0 <= i < objects.len() && 0 <= j < objects.len() && i != j ==> key_of(#[trigger] objects[i])
            != key_of(#[trigger] objects[j])
}

/// Some stored object carries identity `key`.
pub open spec fn holds_key(objects: Seq<StructuralObject>, key: u64) -> bool {
    exists|i: int| 0 <= i < objects.len() && key_of(#[trigger] objects[i]) == key
}

/// Position of the object carrying `key`.
pub open spec fn position_of(objects: Seq<StructuralObject>, key: u64) -> int {
    choose|i: int| 0 <= i < objects.len() && key_of(#[trigger] objects[i]) == key
}

/// The stored object carrying `id`, if any.
pub open spec fn find_object(objects: Seq<StructuralObject>, id: LevelId) -> Option<
    StructuralObject,
> {
    if holds_key(objects, id.0) {
        Some(objects[position_of(objects, id.0)])
    } else {
        None
    }
}

/// State of every stored identity, the later of two equal identities winning.
pub open spec fn states_from(objects: Seq<StructuralObject>) -> Map<u64, LevelState>
    decreases objects.len(),
{
    if objects.len() == 0 {
        Map::empty()
    } else {
        states_from(objects.drop_last()).insert(
            key_of(objects.last()),
            objects.last().state_spec(),
        )
    }
}

/// The validity checks every created or updated object must pass.
pub open spec fn check_object(object: StructuralObject) -> Result<(), LevelBookError> {
    let id = object.id_spec();
    let provenance = object.provenance_spec();
    if id.0 == 0 || object.instrument_spec().0 == 0 {
        Err(LevelBookError::MissingIdentity)
    } else if object.lower_spec() > object.upper_spec() || object.reference_spec()
        < object.lower_spec() || object.reference_spec() > object.upper_spec() {
        Err(LevelBookError::InvalidGeometry(id))
    } else if provenance.producer_id.0 == 0 || provenance.derivation_version.0 == 0
        || provenance.first_sequence.0 == 0 || provenance.last_sequence.0
        < provenance.first_sequence.0 {
        Err(LevelBookError::InvalidProvenance(id))
    } else {
        Ok(())
    }
}

/// An update changed what the object is rather than where it is.
pub open spec fn drifted(previous: StructuralObject, object: StructuralObject) -> bool {
    previous.instrument_spec() != object.instrument_spec() || previous.price_space_spec()
        != object.price_space_spec() || previous.kind_spec() != object.kind_spec()
        || previous.family_spec() != object.family_spec() || previous.provenance_spec().producer_id
        != object.provenance_spec().producer_id || previous.provenance_spec().epoch_ns
        != object.provenance_spec().epoch_ns
}

/// A state that may still change.
pub open spec fn mutable_state(state: LevelState) -> bool {
    state == LevelState::Developing || state == LevelState::Frozen
}

/// Simulates one mutation against the states of the batch so far. `stored`
/// are the objects the book held before the batch.
pub open spec fn simulate(
    stored: Seq<StructuralObject>,
    states: Map<u64, LevelState>,
    mutation: StructuralMutation,
) -> Result<Map<u64, LevelState>, LevelBookError> {
    match mutation {
        StructuralMutation::Created(object) => match check_object(object) {
            Err(e) => Err(e),
            Ok(_) => if states.dom().contains(key_of(object)) {
                Err(LevelBookError::DuplicateIdentity(object.id_spec()))
            } else {
                Ok(states.insert(key_of(object), object.state_spec()))
            },
        },
        StructuralMutation::Updated(object) => match check_object(object) {
            Err(e) => Err(e),
            Ok(_) => if !states.dom().contains(key_of(object)) {
                Err(LevelBookError::UnknownIdentity(object.id_spec()))
            } else if states[key_of(object)] != LevelState::Developing || object.state_spec()
                != LevelState::Developing {
                Err(LevelBookError::ImmutableIdentity(object.id_spec()))
            } else {
                match find_object(stored, object.id_spec()) {
                    None => Err(LevelBookError::UnknownIdentity(object.id_spec())),
                    Some(previous) => if drifted(previous, object) {
                        Err(LevelBookError::IdentityDrift(object.id_spec()))
                    } else {
                        Ok(states)
                    },
                }
            },
        },
        StructuralMutation::Frozen { id, .. } => if !states.dom().contains(id.0) {
            Err(LevelBookError::UnknownIdentity(id))
        } else if states[id.0] != LevelState::Developing {
            Err(LevelBookError::ImmutableIdentity(id))
        } else {
            Ok(states.insert(id.0, LevelState::Frozen))
        },
        StructuralMutation::Superseded { old, new, .. } => match check_object(new) {
            Err(e) => Err(e),
            Ok(_) => if !states.dom().contains(old.0) {
                Err(LevelBookError::UnknownIdentity(old))
            } else if !mutable_state(states[old.0]) {
                Err(LevelBookError::ImmutableIdentity(old))
            } else if states.insert(old.0, LevelState::Superseded).dom().contains(key_of(new)) {
                Err(LevelBookError::DuplicateIdentity(new.id_spec()))
            } else {
                Ok(
                    states.insert(old.0, LevelState::Superseded).insert(
                        key_of(new),
                        new.state_spec(),
                    ),
                )
            },
        },
        StructuralMutation::Expired { id, .. } => if !states.dom().contains(id.0) {
            Err(LevelBookError::UnknownIdentity(id))
        } else if !mutable_state(states[id.0]) {
            Err(LevelBookError::ImmutableIdentity(id))
        } else {
            Ok(states.insert(id.0, LevelState::Expired))
        },
    }
}

/// Simulates the first `n` mutations of a batch.
pub open spec fn simulate_prefix(
    stored: Seq<StructuralObject>,
    mutations: Seq<StructuralMutation>,
    n: nat,
) -> Result<Map<u64, LevelState>, LevelBookError>
    decreases n,
{
    if n == 0 {
        Ok(states_from(stored))
    } else {
        match simulate_prefix(stored, mutations, (n - 1) as nat) {
            Ok(states) => simulate(stored, states, mutations[n - 1]),
            Err(e) => Err(e),
        }
    }
}

/// Outcome of validating a whole batch: the error of its first invalid
/// mutation, if any.
pub open spec fn validate_batch(
    stored: Seq<StructuralObject>,
    mutations: Seq<StructuralMutation>,
) -> Result<(), LevelBookError> {
    match simulate_prefix(stored, mutations, mutations.len()) {
        Ok(_) => Ok(()),
        Err(e) => Err(e),
    }
}

/// Applies one validated mutation to the stored objects.
pub open spec fn apply_mutation(objects: Seq<StructuralObject>, mutation: StructuralMutation) -> Seq<
    StructuralObject,
> {
    match mutation {
        StructuralMutation::Created(object) => objects.push(object),
        StructuralMutation::Updated(object) => objects.update(
            position_of(objects, key_of(object)),
            object,
        ),
        StructuralMutation::Frozen { id, at_ns } => {
            let i = position_of(objects, id.0);
            objects.update(i, objects[i].with_state(LevelState::Frozen, at_ns))
        },
        StructuralMutation::Superseded { old, new, at_ns } => {
            let i = position_of(objects, old.0);
            objects.update(i, objects[i].with_state(LevelState::Superseded, at_ns)).push(new)
        },
        StructuralMutation::Expired { id, at_ns } => {
            let i = position_of(objects, id.0);
            objects.update(i, objects[i].with_state(LevelState::Expired, at_ns))
        },
    }
}

/// Applies the first `n` mutations of a batch.
pub open spec fn apply_prefix(
    objects: Seq<StructuralObject>,
    mutations: Seq<StructuralMutation>,
    n: nat,
) -> Seq<StructuralObject>
    decreases n,
{
    if n == 0 {
        objects
    } else {
        apply_mutation(apply_prefix(objects, mutations, (n - 1) as nat), mutations[n - 1])
    }
}

/// The objects after a whole batch.
pub open spec fn apply_batch_spec(
    objects: Seq<StructuralObject>,
    mutations: Seq<StructuralMutation>,
) -> Seq<StructuralObject> {
    apply_prefix(objects, mutations, mutations.len())
}

/// The generation a batch must carry.
pub open spec fn next_generation(generation: u64) -> u64 {
    if generation == u64::MAX {
        u64::MAX
    } else {
        (generation + 1) as u64
    }
}

/// Order of active objects in a snapshot: instrument, price space, reference
/// price, identity.
pub open spec fn snapshot_key_lt(a: StructuralObject, b: StructuralObject) -> bool {
    let (ai, bi) = (a.instrument_spec().0, b.instrument_spec().0);
    let (asp, bsp) = (
        super::contracts::price_space_rank(a.price_space_spec()),
        super::contracts::price_space_rank(b.price_space_spec()),
    );
    let (ar, br) = (a.reference_spec(), b.reference_spec());
    let (ak, bk) = (key_of(a), key_of(b));
    ai < bi || (ai == bi && (asp < bsp || (asp == bsp && (ar < br || (ar == br && ak < bk)))))
}

/// Strictly increasing in snapshot order.
pub open spec fn snapshot_sorted(objects: Seq<StructuralObject>) -> bool {
    forall|i: int, j: int|
        0 <= i < j < objects.len() ==> snapshot_key_lt(#[trigger] objects[i], #[trigger] objects[j])
}

/// `snapshot` holds exactly the active objects of `objects`, in snapshot order.
pub open spec fn is_active_snapshot(
    objects: Seq<StructuralObject>,
    snapshot: Seq<StructuralObject>,
) -> bool {
    &&& snapshot_sorted(snapshot)
    &&& forall|o: StructuralObject|
        #![trigger snapshot.contains(o)]
        snapshot.contains(o) <==> (objects.contains(o) && o.is_active_spec())
}

// ---------------------------------------------------------------------------
// Invariants linking the model to the stored tables.
// ---------------------------------------------------------------------------

/// The identity index maps every stored identity to its position.
pub open spec fn index_matches(objects: Seq<StructuralObject>, index: Map<u64, u64>) -> bool {
    &&& forall|k: u64| #[trigger] index.dom().contains(k) <==> holds_key(objects, k)
    &&& forall|i: int|
        0 <= i < objects.len() ==> #[trigger] index[key_of(objects[i])] as int == i
}

/// Simulated states agree with the objects they describe.
pub open spec fn states_match(objects: Seq<StructuralObject>, states: Map<u64, LevelState>) -> bool {
    &&& forall|k: u64| #[trigger] states.dom().contains(k) <==> holds_key(objects, k)
    &&& forall|i: int|
        0 <= i < objects.len() ==> #[trigger] states[key_of(objects[i])]
            == objects[i].state_spec()
}

/// The mutation's targets exist and its new identities do not.
pub open spec fn applicable(objects: Seq<StructuralObject>, mutation: StructuralMutation) -> bool {
    match mutation {
        StructuralMutation::Created(object) => !holds_key(objects, key_of(object)),
        StructuralMutation::Updated(object) => holds_key(objects, key_of(object)),
        StructuralMutation::Frozen { id, .. } => holds_key(objects, id.0),
        StructuralMutation::Superseded { old, new, .. } => holds_key(objects, old.0) && key_of(new)
            != old.0 && !holds_key(objects, key_of(new)),
        StructuralMutation::Expired { id, .. } => holds_key(objects, id.0),
    }
}

/// Code stored for a state in the scratch table.
pub open spec fn state_code(state: LevelState) -> u64 {
    match state {
        LevelState::Developing => 1,
        LevelState::Frozen => 2,
        LevelState::Superseded => 3,
        LevelState::Expired => 4,
    }
}

/// States as the scratch table stores them.
pub open spec fn coded(states: Map<u64, LevelState>) -> Map<u64, u64> {
    Map::new(|k: u64| states.dom().contains(k), |k: u64| state_code(states[k]))
}

proof fn lemma_coded_insert(states: Map<u64, LevelState>, k: u64, state: LevelState)
    ensures
        coded(states.insert(k, state)) == coded(states).insert(k, state_code(state)),
{
    assert(coded(states.insert(k, state)) =~= coded(states).insert(k, state_code(state)));
}

proof fn lemma_code_injective(a: LevelState, b: LevelState)
    ensures
        (state_code(a) == state_code(b)) == (a == b),
{
}

proof fn lemma_position(objects: Seq<StructuralObject>, i: int)
    requires
        ids_unique(objects),
        0 <= i < objects.len(),
    ensures
        holds_key(objects, key_of(objects[i])),
        position_of(objects, key_of(objects[i])) == i,
{
    assert(holds_key(objects, key_of(objects[i])));
    let p = position_of(objects, key_of(objects[i]));
    assert(key_of(objects[p]) == key_of(objects[i]));
}

proof fn lemma_states_from_match(objects: Seq<StructuralObject>)
    requires
        ids_unique(objects),
    ensures
        states_match(objects, states_from(objects)),
    decreases objects.len(),
{
    if objects.len() > 0 {
        let prefix = objects.drop_last();
        assert(ids_unique(prefix)) by {
            assert forall|i: int, j: int|
                0 <= i < prefix.len() && 0 <= j < prefix.len() && i != j implies key_of(
                #[trigger] prefix[i],
            ) != key_of(#[trigger] prefix[j]) by {
                assert(prefix[i] == objects[i] && prefix[j] == objects[j]);
            }
        }
        lemma_states_from_match(prefix);
        let last = objects.last();
        let s = states_from(objects);
        assert forall|k: u64| holds_key(objects, k) implies #[trigger] s.dom().contains(k) by {
            if holds_key(objects, k) {
                let i = choose|i: int| 0 <= i < objects.len() && key_of(#[trigger] objects[i]) == k;
                if i < objects.len() - 1 {
                    assert(prefix[i] == objects[i]);
                    assert(holds_key(prefix, k));
                }
            }
        }
        assert forall|k: u64| #[trigger] s.dom().contains(k) implies holds_key(objects, k) by {
            if k != key_of(last) {
                assert(holds_key(prefix, k));
                let i = choose|i: int| 0 <= i < prefix.len() && key_of(#[trigger] prefix[i]) == k;
                assert(objects[i] == prefix[i]);
            }
            if k == key_of(last) {
                assert(objects[objects.len() - 1] == last);
            }
        }
        assert forall|i: int| 0 <= i < objects.len() implies #[trigger] s[key_of(objects[i])]
            == objects[i].state_spec() by {
            if i < objects.len() - 1 {
                assert(prefix[i] == objects[i]);
                assert(key_of(objects[i]) != key_of(objects[objects.len() - 1]));
            }
        }
    }
}

/// After a successful simulated step, applying the mutation keeps identities
/// unique and the states in step with the objects.
proof fn lemma_step(
    stored: Seq<StructuralObject>,
    objects: Seq<StructuralObject>,
    states: Map<u64, LevelState>,
    mutation: StructuralMutation,
)
    requires
        ids_unique(objects),
        states_match(objects, states),
        simulate(stored, states, mutation) is Ok,
    ensures
        applicable(objects, mutation),
        ids_unique(apply_mutation(objects, mutation)),
        states_match(apply_mutation(objects, mutation), simulate(stored, states, mutation)->Ok_0),
{
    let next = apply_mutation(objects, mutation);
    let s2 = simulate(stored, states, mutation)->Ok_0;
    match mutation {
        StructuralMutation::Created(object) => {
            assert(!holds_key(objects, key_of(object)));
            assert forall|i: int, j: int|
                0 <= i < next.len() && 0 <= j < next.len() && i != j implies key_of(
                #[trigger] next[i],
            ) != key_of(#[trigger] next[j]) by {
                if i < objects.len() && j < objects.len() {
                    assert(next[i] == objects[i] && next[j] == objects[j]);
                } else if i < objects.len() {
                    assert(next[i] == objects[i]);
                } else if j < objects.len() {
                    assert(next[j] == objects[j]);
                }
            }
            assert forall|k: u64| #[trigger] s2.dom().contains(k) <==> holds_key(next, k) by {
                if holds_key(next, k) {
                    let i = choose|i: int| 0 <= i < next.len() && key_of(#[trigger] next[i]) == k;
                    if i < objects.len() {
                        assert(next[i] == objects[i]);
                        assert(holds_key(objects, k));
                    }
                }
                if s2.dom().contains(k) {
                    if k == key_of(object) {
                        assert(next[objects.len() as int] == object);
                    } else {
                        let i = choose|i: int|
                            0 <= i < objects.len() && key_of(#[trigger] objects[i]) == k;
                        assert(next[i] == objects[i]);
                    }
                }
            }
            assert forall|i: int| 0 <= i < next.len() implies #[trigger] s2[key_of(next[i])]
                == next[i].state_spec() by {
                if i < objects.len() {
                    assert(next[i] == objects[i]);
                    assert(holds_key(objects, key_of(objects[i])));
                }
            }
        },
        _ => {
            let target: u64 = match mutation {
                StructuralMutation::Updated(object) => key_of(object),
                StructuralMutation::Frozen { id, .. } => id.0,
                StructuralMutation::Superseded { old, .. } => old.0,
                StructuralMutation::Expired { id, .. } => id.0,
                _ => 0,
            };
            assert(states.dom().contains(target));
            assert(holds_key(objects, target));
            let p = position_of(objects, target);
            assert(0 <= p < objects.len() && key_of(objects[p]) == target);
            let updated = match mutation {
                StructuralMutation::Updated(object) => object,
                StructuralMutation::Frozen { at_ns, .. } => objects[p].with_state(
                    LevelState::Frozen,
                    at_ns,
                ),
                StructuralMutation::Superseded { at_ns, .. } => objects[p].with_state(
                    LevelState::Superseded,
                    at_ns,
                ),
                StructuralMutation::Expired { at_ns, .. } => objects[p].with_state(
                    LevelState::Expired,
                    at_ns,
                ),
                _ => objects[p],
            };
            let mid = objects.update(p, updated);
            assert(key_of(updated) == target);
            assert forall|i: int, j: int|
                0 <= i < mid.len() && 0 <= j < mid.len() && i != j implies key_of(
                #[trigger] mid[i],
            ) != key_of(#[trigger] mid[j]) by {
                if i == p {
                    assert(key_of(objects[j]) != key_of(objects[p]));
                } else if j == p {
                    assert(key_of(objects[i]) != key_of(objects[p]));
                }
            }
            assert forall|k: u64| holds_key(mid, k) <==> holds_key(objects, k) by {
                if holds_key(mid, k) {
                    let i = choose|i: int| 0 <= i < mid.len() && key_of(#[trigger] mid[i]) == k;
                    if i == p {
                        assert(key_of(objects[p]) == k);
                    } else {
                        assert(mid[i] == objects[i]);
                    }
                }
                if holds_key(objects, k) {
                    let i = choose|i: int| 0 <= i < objects.len() && key_of(#[trigger] objects[i]) == k;
                    if i == p {
                        assert(key_of(mid[p]) == k);
                    } else {
                        assert(mid[i] == objects[i]);
                    }
                }
            }
            match mutation {
                StructuralMutation::Superseded { old, new, at_ns } => {
                    let s1 = states.insert(old.0, LevelState::Superseded);
                    assert(!s1.dom().contains(key_of(new)));
                    assert(key_of(new) != old.0);
                    assert(!holds_key(objects, key_of(new)));
                    assert(!holds_key(mid, key_of(new)));
                    assert(next == mid.push(new));
                    assert forall|i: int, j: int|
                        0 <= i < next.len() && 0 <= j < next.len() && i != j implies key_of(
                        #[trigger] next[i],
                    ) != key_of(#[trigger] next[j]) by {
                        if i < mid.len() && j < mid.len() {
                            assert(next[i] == mid[i] && next[j] == mid[j]);
                        } else if i < mid.len() {
                            assert(next[i] == mid[i]);
                        } else if j < mid.len() {
                            assert(next[j] == mid[j]);
                        }
                    }
                    assert forall|k: u64| #[trigger] s2.dom().contains(k) <==> holds_key(next, k) by {
                        if holds_key(next, k) {
                            let i = choose|i: int| 0 <= i < next.len() && key_of(#[trigger] next[i]) == k;
                            if i < mid.len() {
                                assert(next[i] == mid[i]);
                                assert(holds_key(mid, k));
                            }
                        }
                        if s2.dom().contains(k) {
                            if k == key_of(new) {
                                assert(next[mid.len() as int] == new);
                            } else {
                                assert(states.dom().contains(k));
                                assert(holds_key(mid, k));
                                let i = choose|i: int| 0 <= i < mid.len() && key_of(#[trigger] mid[i]) == k;
                                assert(next[i] == mid[i]);
                            }
                        }
                    }
                    assert forall|i: int| 0 <= i < next.len() implies #[trigger] s2[key_of(next[i])]
                        == next[i].state_spec() by {
                        if i < mid.len() {
                            assert(next[i] == mid[i]);
                            if i != p {
                                assert(mid[i] == objects[i]);
                                assert(key_of(objects[i]) != target);
                            }
                        }
                    }
                },
                _ => {
                    assert(next == mid);
                    assert forall|k: u64| #[trigger] s2.dom().contains(k) <==> holds_key(next, k) by {
                    }
                    assert forall|i: int| 0 <= i < next.len() implies #[trigger] s2[key_of(next[i])]
                        == next[i].state_spec() by {
                        if i != p {
                            assert(next[i] == objects[i]);
                            assert(key_of(objects[i]) != target);
                        }
                    }
                },
            }
        },
    }
}

/// A successful batch keeps identities unique and states in step at every
/// prefix.
proof fn lemma_prefix(
    stored: Seq<StructuralObject>,
    mutations: Seq<StructuralMutation>,
    n: nat,
)
    requires
        ids_unique(stored),
        n <= mutations.len(),
        simulate_prefix(stored, mutations, n) is Ok,
    ensures
        ids_unique(apply_prefix(stored, mutations, n)),
        states_match(apply_prefix(stored, mutations, n), simulate_prefix(stored, mutations, n)->Ok_0),
    decreases n,
{
    if n == 0 {
        lemma_states_from_match(stored);
    } else {
        let m = (n - 1) as nat;
        assert(simulate_prefix(stored, mutations, m) is Ok);
        lemma_prefix(stored, mutations, m);
        lemma_step(
            stored,
            apply_prefix(stored, mutations, m),
            simulate_prefix(stored, mutations, m)->Ok_0,
            mutations[m as int],
        );
    }
}

/// A failed prefix fails every longer prefix with the same error.
proof fn lemma_prefix_error_sticks(
    stored: Seq<StructuralObject>,
    mutations: Seq<StructuralMutation>,
    k: nat,
    n: nat,
)
    requires
        k <= n,
        simulate_prefix(stored, mutations, k) is Err,
    ensures
        simulate_prefix(stored, mutations, n) == simulate_prefix(stored, mutations, k),
    decreases n - k,
{
    if k < n {
        lemma_prefix_error_sticks(stored, mutations, k, (n - 1) as nat);
    }
}

/// An ok full batch has ok prefixes.
proof fn lemma_prefix_ok(
    stored: Seq<StructuralObject>,
    mutations: Seq<StructuralMutation>,
    k: nat,
    n: nat,
)
    requires
        k <= n,
        simulate_prefix(stored, mutations, n) is Ok,
    ensures
        simulate_prefix(stored, mutations, k) is Ok,
{
    if simulate_prefix(stored, mutations, k) is Err {
        lemma_prefix_error_sticks(stored, mutations, k, n);
    }
}

// ---------------------------------------------------------------------------
// The book.
// ---------------------------------------------------------------------------

/// Single-writer store for structural objects.
pub struct LevelBook {
    objects: Vec<StructuralObject>,
    indices: IdTable,
    validation_states: IdTable,
    generation: u64,
    active_cache: Arc<Vec<StructuralObject>>,
    cache_fresh: bool,
}

/// Every object's band is well ordered.
pub open spec fn geometry_valid(objects: Seq<StructuralObject>) -> bool {
    forall|i: int| 0 <= i < objects.len() ==> (#[trigger] objects[i]).lower_spec() <= objects[i].upper_spec()
}

/// A state change keeps an object's band.
proof fn lemma_with_state_geometry(object: StructuralObject, state: LevelState, at_ns: i64)
    ensures
        object.with_state(state, at_ns).lower_spec() == object.lower_spec(),
        object.with_state(state, at_ns).upper_spec() == object.upper_spec(),
{
}

/// A mutation that validates keeps every band well ordered.
proof fn lemma_step_geometry(
    stored: Seq<StructuralObject>,
    objects: Seq<StructuralObject>,
    states: Map<u64, LevelState>,
    mutation: StructuralMutation,
)
    requires
        geometry_valid(objects),
        applicable(objects, mutation),
        simulate(stored, states, mutation) is Ok,
    ensures
        geometry_valid(apply_mutation(objects, mutation)),
{
    let next = apply_mutation(objects, mutation);
    assert forall|i: int| 0 <= i < next.len() implies (#[trigger] next[i]).lower_spec() <= next[i].upper_spec() by {
        match mutation {
            StructuralMutation::Created(object) => {
                if i < objects.len() {
                    assert(next[i] == objects[i]);
                }
            },
            StructuralMutation::Updated(object) => {
                if i != position_of(objects, key_of(object)) {
                    assert(next[i] == objects[i]);
                }
            },
            StructuralMutation::Frozen { id, at_ns } => {
                let p = position_of(objects, id.0);
                if i == p {
                    lemma_with_state_geometry(objects[p], LevelState::Frozen, at_ns);
                } else {
                    assert(next[i] == objects[i]);
                }
            },
            StructuralMutation::Superseded { old, new, at_ns } => {
                let p = position_of(objects, old.0);
                if i == p {
                    lemma_with_state_geometry(objects[p], LevelState::Superseded, at_ns);
                } else if i < objects.len() {
                    assert(next[i] == objects[i]);
                }
            },
            StructuralMutation::Expired { id, at_ns } => {
                let p = position_of(objects, id.0);
                if i == p {
                    lemma_with_state_geometry(objects[p], LevelState::Expired, at_ns);
                } else {
                    assert(next[i] == objects[i]);
                }
            },
        }
    }
}

impl LevelBook {
    /// Every object ever stored, in insertion order.
    pub closed spec fn objects_spec(&self) -> Seq<StructuralObject> {
        self.objects@
    }

    /// Generation of the last applied batch.
    pub closed spec fn generation_spec(&self) -> u64 {
        self.generation
    }

    /// The book's internal consistency.
    pub closed spec fn wf(&self) -> bool {
        &&& ids_unique(self.objects@)
        &&& geometry_valid(self.objects@)
        &&& index_matches(self.objects@, id_table_map(self.indices))
        &&& self.cache_fresh ==> is_active_snapshot(self.objects@, self.active_cache@)
    }

    /// Every stored object of a consistent book has a well-ordered band.
    pub proof fn lemma_geometry(&self)
        requires
            self.wf(),
        ensures
            geometry_valid(self.objects_spec()),
    {
    }

    /// An empty book at generation zero.
    pub fn new() -> (book: LevelBook)
        ensures
            book.wf(),
            book.objects_spec() == Seq::<StructuralObject>::empty(),
            book.generation_spec() == 0,
    {
        let book = LevelBook {
            objects: Vec::new(),
            indices: IdTable::new(),
            validation_states: IdTable::new(),
            generation: 0,
            active_cache: Arc::new(Vec::new()),
            cache_fresh: true,
        };
        proof {
            assert(book.active_cache@ =~= Seq::<StructuralObject>::empty());
        }
        book
    }

    /// Generation of the last applied batch.
    pub fn generation(&self) -> (generation: u64)
        ensures
            generation == self.generation_spec(),
    {
        self.generation
    }

    /// The object stored under `id`, if any.
    pub fn get(&self, id: LevelId) -> (found: Option<&StructuralObject>)
        requires
            self.wf(),
        ensures
            found.is_some() == find_object(self.objects_spec(), id).is_some(),
            found matches Some(object) ==> *object == find_object(self.objects_spec(), id)->Some_0,
    {
        match self.indices.get(id.0) {
            Some(index) => {
                proof {
                    let k = id.0;
                    assert(holds_key(self.objects@, k));
                    let i = choose|i: int|
                        0 <= i < self.objects@.len() && key_of(#[trigger] self.objects@[i]) == k;
                    lemma_position(self.objects@, i);
                    assert(id_table_map(self.indices)[key_of(self.objects@[i])] as int == i);
                }
                let n = self.objects.len();
                assert(index < n);
                Some(&self.objects[index as usize])
            },
            None => None,
        }
    }

    /// Every object ever stored, in insertion order.
    pub fn all(&self) -> (objects: &[StructuralObject])
        ensures
            objects@ == self.objects_spec(),
    {
        self.objects.as_slice()
    }

    /// Fills the scratch table with the stored states.
    fn load_states(&mut self)
        requires
            old(self).wf(),
        ensures
            final(self).wf(),
            final(self).objects@ == old(self).objects@,
            final(self).generation == old(self).generation,
            id_table_map(final(self).validation_states) == coded(states_from(old(self).objects@)),
    {
        self.validation_states.clear();
        let n = self.objects.len();
        let mut i: usize = 0;
        while i < n
            invariant
                self.wf(),
                n == self.objects@.len(),
                self.objects@ == old(self).objects@,
                self.generation == old(self).generation,
                0 <= i <= n,
                id_table_map(self.validation_states) == coded(
                    states_from(self.objects@.subrange(0, i as int)),
                ),
            decreases n - i,
        {
            let object = self.objects[i];
            let id = object.id();
            let state = object.state();
            self.validation_states.insert(id.0, encode_state(state));
            proof {
                let prefix = self.objects@.subrange(0, i as int);
                let next = self.objects@.subrange(0, i + 1);
                assert(next.drop_last() =~= prefix);
                assert(next.last() == object);
                lemma_coded_insert(states_from(prefix), key_of(object), state);
            }
            i = i + 1;
        }
        proof {
            assert(self.objects@.subrange(0, n as int) =~= self.objects@);
        }
    }

    /// Applies one deterministic generation atomically. Validation simulates
    /// every transition before storage is changed.
    pub fn apply_batch(&mut self, generation: u64, mutations: &[StructuralMutation]) -> (result:
        Result<bool, LevelBookError>)
        requires
            old(self).wf(),
        ensures
            final(self).wf(),
            mutations@.len() == 0 ==> result == Ok::<bool, LevelBookError>(false),
            mutations@.len() > 0 && generation != next_generation(old(self).generation_spec())
                ==> result == Err::<bool, LevelBookError>(
                LevelBookError::NonSequentialGeneration {
                    expected: next_generation(old(self).generation_spec()),
                    actual: generation,
                },
            ),
            mutations@.len() > 0 && generation == next_generation(old(self).generation_spec())
                ==> match validate_batch(old(self).objects_spec(), mutations@) {
                Err(e) => result == Err::<bool, LevelBookError>(e),
                Ok(_) => result == Ok::<bool, LevelBookError>(true),
            },
            result == Ok::<bool, LevelBookError>(true) ==> final(self).objects_spec()
                == apply_batch_spec(old(self).objects_spec(), mutations@)
                && final(self).generation_spec() == generation,
            result != Ok::<bool, LevelBookError>(true) ==> final(self).objects_spec()
                == old(self).objects_spec() && final(self).generation_spec()
                == old(self).generation_spec(),
    {
        if mutations.len() == 0 {
            return Ok(false);
        }
        let expected = self.generation.saturating_add(1);
        assert(expected == next_generation(self.generation));
        if generation != expected {
            return Err(LevelBookError::NonSequentialGeneration { expected, actual: generation });
        }
        self.load_states();
        let ghost stored = self.objects@;
        let n = mutations.len();
        let mut k: usize = 0;
        while k < n
            invariant
                self.wf(),
                self.objects@ == stored,
                self.generation == old(self).generation,
                stored == old(self).objects@,
                n == mutations@.len(),
                n > 0,
                generation == next_generation(old(self).generation),
                0 <= k <= n,
                simulate_prefix(stored, mutations@, k as nat) is Ok,
                id_table_map(self.validation_states) == coded(
                    simulate_prefix(stored, mutations@, k as nat)->Ok_0,
                ),
            decreases n - k,
        {
            let ghost before = simulate_prefix(stored, mutations@, k as nat)->Ok_0;
            let outcome = validate_transition(
                &mutations[k],
                &mut self.validation_states,
                &self.objects,
                &self.indices,
                Ghost(before),
            );
            match outcome {
                Err(e) => {
                    proof {
                        assert(simulate_prefix(stored, mutations@, (k + 1) as nat) == Err::<
                            Map<u64, LevelState>,
                            LevelBookError,
                        >(e));
                        lemma_prefix_error_sticks(stored, mutations@, (k + 1) as nat, n as nat);
                    }
                    return Err(e);
                },
                Ok(()) => {},
            }
            k = k + 1;
        }
        proof {
            lemma_prefix(stored, mutations@, n as nat);
        }
        let mut k: usize = 0;
        while k < n
            invariant
                ids_unique(self.objects@),
                index_matches(self.objects@, id_table_map(self.indices)),
                ids_unique(stored),
                self.generation == old(self).generation,
                stored == old(self).objects@,
                n == mutations@.len(),
                n > 0,
                generation == next_generation(old(self).generation),
                0 <= k <= n,
                simulate_prefix(stored, mutations@, n as nat) is Ok,
                self.objects@ == apply_prefix(stored, mutations@, k as nat),
                geometry_valid(self.objects@),
            decreases n - k,
        {
            proof {
                lemma_prefix_ok(stored, mutations@, (k + 1) as nat, n as nat);
                lemma_prefix_ok(stored, mutations@, k as nat, n as nat);
                lemma_prefix(stored, mutations@, k as nat);
                lemma_step(
                    stored,
                    self.objects@,
                    simulate_prefix(stored, mutations@, k as nat)->Ok_0,
                    mutations@[k as int],
                );
                lemma_step_geometry(
                    stored,
                    self.objects@,
                    simulate_prefix(stored, mutations@, k as nat)->Ok_0,
                    mutations@[k as int],
                );
            }
            self.apply_validated(mutations[k]);
            k = k + 1;
        }
        self.generation = generation;
        self.cache_fresh = false;
        Ok(true)
    }

    /// The active objects, sorted by instrument, price space, reference price
    /// and identity. Recomputed only after a batch changed the book; until
    /// then every call shares one allocation.
    pub fn active_snapshot(&mut self) -> (snapshot: Arc<Vec<StructuralObject>>)
        requires
            old(self).wf(),
        ensures
            final(self).wf(),
            final(self).objects_spec() == old(self).objects_spec(),
            final(self).generation_spec() == old(self).generation_spec(),
            is_active_snapshot(old(self).objects_spec(), snapshot@),
    {
        if !self.cache_fresh {
            let sorted = sorted_active(&self.objects);
            self.active_cache = Arc::new(sorted);
            self.cache_fresh = true;
        }
        Arc::clone(&self.active_cache)
    }

    /// Applies one mutation whose targets were validated.
    fn apply_validated(&mut self, mutation: StructuralMutation)
        requires
            ids_unique(old(self).objects@),
            index_matches(old(self).objects@, id_table_map(old(self).indices)),
            applicable(old(self).objects@, mutation),
        ensures
            ids_unique(final(self).objects@),
            index_matches(final(self).objects@, id_table_map(final(self).indices)),
            final(self).objects@ == apply_mutation(old(self).objects@, mutation),
            final(self).generation == old(self).generation,
            final(self).cache_fresh == old(self).cache_fresh,
            final(self).active_cache == old(self).active_cache,
    {
        match mutation {
            StructuralMutation::Created(object) => {
                self.insert(object);
            },
            StructuralMutation::Updated(object) => {
                let index = self.position(object.id());
                self.objects.set(index, object);
                proof {
                    self.lemma_update_keeps_index(old(self).objects@, index as int, object);
                }
            },
            StructuralMutation::Frozen { id, at_ns } => {
                let index = self.position(id);
                let mut item = self.objects[index];
                item.set_state(LevelState::Frozen, at_ns);
                self.objects.set(index, item);
                proof {
                    self.lemma_update_keeps_index(old(self).objects@, index as int, item);
                }
            },
            StructuralMutation::Superseded { old: old_id, new, at_ns } => {
                let index = self.position(old_id);
                let mut item = self.objects[index];
                item.set_state(LevelState::Superseded, at_ns);
                self.objects.set(index, item);
                proof {
                    self.lemma_update_keeps_index(old(self).objects@, index as int, item);
                    assert(!holds_key(self.objects@, key_of(new))) by {
                        if holds_key(self.objects@, key_of(new)) {
                            let i = choose|i: int|
                                0 <= i < self.objects@.len() && key_of(#[trigger] self.objects@[i])
                                    == key_of(new);
                            if i != index as int {
                                assert(self.objects@[i] == old(self).objects@[i]);
                            }
                        }
                    }
                }
                self.insert(new);
            },
            StructuralMutation::Expired { id, at_ns } => {
                let index = self.position(id);
                let mut item = self.objects[index];
                item.set_state(LevelState::Expired, at_ns);
                self.objects.set(index, item);
                proof {
                    self.lemma_update_keeps_index(old(self).objects@, index as int, item);
                }
            },
        }
    }

    /// Replacing an object by one with the same identity keeps the index.
    proof fn lemma_update_keeps_index(
        &self,
        before: Seq<StructuralObject>,
        index: int,
        object: StructuralObject,
    )
        requires
            ids_unique(before),
            index_matches(before, id_table_map(self.indices)),
            0 <= index < before.len(),
            key_of(object) == key_of(before[index]),
            self.objects@ == before.update(index, object),
        ensures
            ids_unique(self.objects@),
            index_matches(self.objects@, id_table_map(self.indices)),
    {
        let after = self.objects@;
        assert forall|i: int, j: int|
            0 <= i < after.len() && 0 <= j < after.len() && i != j implies key_of(
            #[trigger] after[i],
        ) != key_of(#[trigger] after[j]) by {
            if i == index {
                assert(key_of(before[j]) != key_of(before[index]));
            } else if j == index {
                assert(key_of(before[i]) != key_of(before[index]));
            }
        }
        assert forall|k: u64| holds_key(after, k) <==> holds_key(before, k) by {
            if holds_key(after, k) {
                let i = choose|i: int| 0 <= i < after.len() && key_of(#[trigger] after[i]) == k;
                if i == index {
                    assert(key_of(before[index]) == k);
                } else {
                    assert(after[i] == before[i]);
                }
            }
            if holds_key(before, k) {
                let i = choose|i: int| 0 <= i < before.len() && key_of(#[trigger] before[i]) == k;
                if i == index {
                    assert(key_of(after[index]) == k);
                } else {
                    assert(after[i] == before[i]);
                }
            }
        }
        assert forall|i: int| 0 <= i < after.len() implies #[trigger] id_table_map(self.indices)[key_of(
            after[i],
        )] as int == i by {
            if i != index {
                assert(after[i] == before[i]);
            }
        }
    }

    /// Position of a stored identity.
    fn position(&self, id: LevelId) -> (index: usize)
        requires
            ids_unique(self.objects@),
            index_matches(self.objects@, id_table_map(self.indices)),
            holds_key(self.objects@, id.0),
        ensures
            index < self.objects@.len(),
            index as int == position_of(self.objects@, id.0),
            key_of(self.objects@[index as int]) == id.0,
    {
        let found = self.indices.get(id.0);
        proof {
            let i = choose|i: int|
                0 <= i < self.objects@.len() && key_of(#[trigger] self.objects@[i]) == id.0;
            lemma_position(self.objects@, i);
            assert(id_table_map(self.indices)[key_of(self.objects@[i])] as int == i);
        }
        let n = self.objects.len();
        match found {
            Some(index) => index as usize,
            None => 0,
        }
    }

    /// Appends an object whose identity is new.
    fn insert(&mut self, object: StructuralObject)
        requires
            ids_unique(old(self).objects@),
            index_matches(old(self).objects@, id_table_map(old(self).indices)),
            !holds_key(old(self).objects@, key_of(object)),
        ensures
            ids_unique(final(self).objects@),
            index_matches(final(self).objects@, id_table_map(final(self).indices)),
            final(self).objects@ == old(self).objects@.push(object),
            final(self).generation == old(self).generation,
            final(self).cache_fresh == old(self).cache_fresh,
            final(self).active_cache == old(self).active_cache,
    {
        let id = object.id();
        let index = self.objects.len();
        self.objects.push(object);
        self.indices.insert(id.0, index as u64);
        proof {
            let before = old(self).objects@;
            let after = self.objects@;
            assert forall|i: int, j: int|
                0 <= i < after.len() && 0 <= j < after.len() && i != j implies key_of(
                #[trigger] after[i],
            ) != key_of(#[trigger] after[j]) by {
                if i < before.len() && j < before.len() {
                    assert(after[i] == before[i] && after[j] == before[j]);
                } else if i < before.len() {
                    assert(after[i] == before[i]);
                } else if j < before.len() {
                    assert(after[j] == before[j]);
                }
            }
            assert forall|k: u64| #[trigger] id_table_map(self.indices).dom().contains(k)
                <==> holds_key(after, k) by {
                if holds_key(after, k) {
                    let i = choose|i: int| 0 <= i < after.len() && key_of(#[trigger] after[i]) == k;
                    if i < before.len() {
                        assert(after[i] == before[i]);
                        assert(holds_key(before, k));
                    }
                }
                if id_table_map(self.indices).dom().contains(k) && k != key_of(object) {
                    let i = choose|i: int| 0 <= i < before.len() && key_of(#[trigger] before[i]) == k;
                    assert(after[i] == before[i]);
                }
                if k == key_of(object) {
                    assert(after[index as int] == object);
                }
            }
            assert forall|i: int| 0 <= i < after.len() implies #[trigger] id_table_map(self.indices)[key_of(
                after[i],
            )] as int == i by {
                if i < before.len() {
                    assert(after[i] == before[i]);
                    assert(key_of(before[i]) != key_of(object));
                }
            }
        }
    }
}

/// Scratch-table code of a state.
fn encode_state(state: LevelState) -> (code: u64)
    ensures
        code == state_code(state),
{
    match state {
        LevelState::Developing => 1,
        LevelState::Frozen => 2,
        LevelState::Superseded => 3,
        LevelState::Expired => 4,
    }
}

/// Checks one object; mirrors `check_object`.
fn validate_object(object: &StructuralObject) -> (result: Result<(), LevelBookError>)
    ensures
        result == check_object(*object),
{
    let id = object.id();
    let provenance = object.provenance();
    if id.0 == 0 || object.instrument_id().0 == 0 {
        return Err(LevelBookError::MissingIdentity);
    }
    if object.lower() > object.upper() || object.reference_price() < object.lower()
        || object.reference_price() > object.upper() {
        return Err(LevelBookError::InvalidGeometry(id));
    }
    if provenance.producer_id.get() == 0 || provenance.derivation_version.get() == 0
        || provenance.first_sequence.get() == 0 || provenance.last_sequence.0
        < provenance.first_sequence.0 {
        return Err(LevelBookError::InvalidProvenance(id));
    }
    Ok(())
}

/// Simulates one mutation against the scratch table, which holds `states`.
fn validate_transition(
    mutation: &StructuralMutation,
    simulated: &mut IdTable,
    objects: &Vec<StructuralObject>,
    indices: &IdTable,
    Ghost(states): Ghost<Map<u64, LevelState>>,
) -> (result: Result<(), LevelBookError>)
    requires
        id_table_map(*old(simulated)) == coded(states),
        ids_unique(objects@),
        index_matches(objects@, id_table_map(*indices)),
    ensures
        match simulate(objects@, states, *mutation) {
            Ok(next) => result is Ok && id_table_map(*final(simulated)) == coded(next),
            Err(e) => result == Err::<(), LevelBookError>(e),
        },
{
    match mutation {
        StructuralMutation::Created(object) => {
            validate_object(object)?;
            let previous = simulated.insert(object.id().0, encode_state(object.state()));
            proof {
                lemma_coded_insert(states, key_of(*object), object.state_spec());
            }
            if previous.is_some() {
                return Err(LevelBookError::DuplicateIdentity(object.id()));
            }
        },
        StructuralMutation::Updated(object) => {
            validate_object(object)?;
            let id = object.id();
            let state = match simulated.get(id.0) {
                Some(code) => code,
                None => {
                    return Err(LevelBookError::UnknownIdentity(id));
                },
            };
            proof {
                lemma_code_injective(states[id.0], LevelState::Developing);
            }
            if state != 1 || encode_state(object.state()) != 1 {
                proof {
                    lemma_code_injective(object.state_spec(), LevelState::Developing);
                }
                return Err(LevelBookError::ImmutableIdentity(id));
            }
            let previous = match indices.get(id.0) {
                Some(index) => {
                    proof {
                        let i = choose|i: int|
                            0 <= i < objects@.len() && key_of(#[trigger] objects@[i]) == id.0;
                        lemma_position(objects@, i);
                        assert(id_table_map(*indices)[key_of(objects@[i])] as int == i);
                    }
                    let n = objects.len();
                    assert(index < n);
                    objects[index as usize]
                },
                None => {
                    return Err(LevelBookError::UnknownIdentity(id));
                },
            };
            if previous.instrument_id() != object.instrument_id() || previous.price_space()
                != object.price_space() || previous.kind() != object.kind() || previous.family()
                != object.family() || previous.provenance().producer_id
                != object.provenance().producer_id || previous.provenance().epoch_ns
                != object.provenance().epoch_ns {
                return Err(LevelBookError::IdentityDrift(id));
            }
        },
        StructuralMutation::Frozen { id, .. } => {
            let state = match simulated.get(id.0) {
                Some(code) => code,
                None => {
                    return Err(LevelBookError::UnknownIdentity(*id));
                },
            };
            proof {
                lemma_code_injective(states[id.0], LevelState::Developing);
            }
            if state != 1 {
                return Err(LevelBookError::ImmutableIdentity(*id));
            }
            simulated.insert(id.0, 2);
            proof {
                lemma_coded_insert(states, id.0, LevelState::Frozen);
            }
        },
        StructuralMutation::Superseded { old, new, .. } => {
            validate_object(new)?;
            let state = match simulated.get(old.0) {
                Some(code) => code,
                None => {
                    return Err(LevelBookError::UnknownIdentity(*old));
                },
            };
            if state != 1 && state != 2 {
                return Err(LevelBookError::ImmutableIdentity(*old));
            }
            simulated.insert(old.0, 3);
            proof {
                lemma_coded_insert(states, old.0, LevelState::Superseded);
            }
            let previous = simulated.insert(new.id().0, encode_state(new.state()));
            proof {
                lemma_coded_insert(
                    states.insert(old.0, LevelState::Superseded),
                    key_of(*new),
                    new.state_spec(),
                );
            }
            if previous.is_some() {
                return Err(LevelBookError::DuplicateIdentity(new.id()));
            }
        },
        StructuralMutation::Expired { id, .. } => {
            let state = match simulated.get(id.0) {
                Some(code) => code,
                None => {
                    return Err(LevelBookError::UnknownIdentity(*id));
                },
            };
            if state != 1 && state != 2 {
                return Err(LevelBookError::ImmutableIdentity(*id));
            }
            simulated.insert(id.0, 4);
            proof {
                lemma_coded_insert(states, id.0, LevelState::Expired);
            }
        },
    }
    Ok(())
}

/// Strict snapshot order of two objects.
fn snapshot_less(a: &StructuralObject, b: &StructuralObject) -> (less: bool)
    ensures
        less == snapshot_key_lt(*a, *b),
{
    let (ai, bi) = (a.instrument_id().0, b.instrument_id().0);
    let (asp, bsp) = (a.price_space().rank(), b.price_space().rank());
    let (ar, br) = (a.reference_price(), b.reference_price());
    let (ak, bk) = (a.id().0, b.id().0);
    ai < bi || (ai == bi && (asp < bsp || (asp == bsp && (ar < br || (ar == br && ak < bk)))))
}

/// The active objects of `objects`, sorted into snapshot order.
fn sorted_active(objects: &Vec<StructuralObject>) -> (sorted: Vec<StructuralObject>)
    requires
        ids_unique(objects@),
    ensures
        is_active_snapshot(objects@, sorted@),
{
    let mut sorted: Vec<StructuralObject> = Vec::new();
    let n = objects.len();
    let mut i: usize = 0;
    while i < n
        invariant
            n == objects@.len(),
            0 <= i <= n,
            ids_unique(objects@),
            snapshot_sorted(sorted@),
            forall|o: StructuralObject|
                #![trigger sorted@.contains(o)]
                sorted@.contains(o) <==> (objects@.subrange(0, i as int).contains(o)
                    && o.is_active_spec()),
        decreases n - i,
    {
        let object = objects[i];
        if object.is_active() {
            proof {
                assert forall|j: int| 0 <= j < sorted@.len() implies key_of(#[trigger] sorted@[j])
                    != key_of(object) by {
                    assert(sorted@.contains(sorted@[j]));
                    let p = choose|p: int| 0 <= p < i && #[trigger] objects@.subrange(0, i as int)[p] == sorted@[j];
                    assert(objects@[p] == sorted@[j]);
                }
            }
            let mut p: usize = 0;
            while p < sorted.len() && snapshot_less(&sorted[p], &object)
                invariant
                    0 <= p <= sorted@.len(),
                    forall|q: int| 0 <= q < p ==> snapshot_key_lt(#[trigger] sorted@[q], object),
                decreases sorted@.len() - p,
            {
                p = p + 1;
            }
            let ghost before = sorted@;
            sorted.insert(p, object);
            proof {
                assert forall|a: int, b: int| 0 <= a < b < sorted@.len() implies snapshot_key_lt(
                    #[trigger] sorted@[a],
                    #[trigger] sorted@[b],
                ) by {
                    if b < p {
                        assert(sorted@[a] == before[a] && sorted@[b] == before[b]);
                    } else if b == p {
                        assert(sorted@[a] == before[a]);
                    } else if a < p {
                        assert(sorted@[a] == before[a] && sorted@[b] == before[b - 1]);
                        assert(snapshot_key_lt(before[a], object));
                        assert(snapshot_key_lt(object, before[p as int]) || key_of(object) == key_of(
                            before[p as int],
                        ));
                    } else if a == p {
                        assert(sorted@[b] == before[b - 1]);
                        assert(!snapshot_key_lt(before[p as int], object));
                        assert(key_of(before[p as int]) != key_of(object));
                    } else {
                        assert(sorted@[a] == before[a - 1] && sorted@[b] == before[b - 1]);
                    }
                }
                assert forall|o: StructuralObject| #![trigger sorted@.contains(o)] sorted@.contains(o)
                    <==> (objects@.subrange(0, i + 1).contains(o) && o.is_active_spec()) by {
                    if sorted@.contains(o) {
                        let q = choose|q: int| 0 <= q < sorted@.len() && #[trigger] sorted@[q] == o;
                        if q < p {
                            assert(before[q] == o);
                            assert(before.contains(o));
                        } else if q > p {
                            assert(before[q - 1] == o);
                            assert(before.contains(o));
                        }
                        if o != object {
                            let r = choose|r: int| 0 <= r < i && #[trigger] objects@.subrange(0, i as int)[r] == o;
                            assert(objects@.subrange(0, i + 1)[r] == o);
                        } else {
                            assert(objects@.subrange(0, i + 1)[i as int] == o);
                        }
                    }
                    if objects@.subrange(0, i + 1).contains(o) && o.is_active_spec() {
                        let r = choose|r: int| 0 <= r < i + 1 && #[trigger] objects@.subrange(0, i + 1)[r] == o;
                        if r < i {
                            assert(objects@.subrange(0, i as int)[r] == o);
                            assert(before.contains(o));
                            let q = choose|q: int| 0 <= q < before.len() && #[trigger] before[q] == o;
                            if q < p {
                                assert(sorted@[q] == o);
                            } else {
                                assert(sorted@[q + 1] == o);
                            }
                        } else {
                            assert(sorted@[p as int] == o);
                        }
                    }
                }
            }
        } else {
            proof {
                assert forall|o: StructuralObject| #![trigger sorted@.contains(o)] sorted@.contains(o)
                    <==> (objects@.subrange(0, i + 1).contains(o) && o.is_active_spec()) by {
                    if sorted@.contains(o) {
                        let r = choose|r: int| 0 <= r < i && #[trigger] objects@.subrange(0, i as int)[r] == o;
                        assert(objects@.subrange(0, i + 1)[r] == o);
                    }
                    if objects@.subrange(0, i + 1).contains(o) && o.is_active_spec() {
                        let r = choose|r: int| 0 <= r < i + 1 && #[trigger] objects@.subrange(0, i + 1)[r] == o;
                        if r < i {
                            assert(objects@.subrange(0, i as int)[r] == o);
                        }
                    }
                }
            }
        }
        i = i + 1;
    }
    proof {
        assert(objects@.subrange(0, n as int) =~= objects@);
    }
    sorted
}

} // verus!
