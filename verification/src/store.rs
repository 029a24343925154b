//! The device state store: a mapping from device identifier to device state,
//! with atomic read, write-if-present, create, and tombstone marking. All
//! mutation goes through one owner; the surrounding service serializes calls.
//!
//! The store's operations are mirrored by a spec-level operation model
//! (`StoreOp` / `apply_op`), over which the last-write-wins law is proved.

use vstd::prelude::*;

use crate::keymap::{append_bytes, KeyMap};
use crate::light::LightState;

verus! {

/// The error kinds a request can end in. `NotFound`: the device id is absent
/// where existence is required. `ParseError`: the request body was malformed.
/// `Internal`: a failure of the surrounding service machinery, surfaced as a
/// generic failure; the core itself never produces it.
#[derive(Clone, Copy, Debug, PartialEq, Eq, Structural)]
pub enum ServiceError {
    NotFound,
    ParseError,
    Internal,
}

/// The state stored for `id`, if any.
pub open spec fn stored_state(m: Map<Seq<u8>, LightState>, id: Seq<u8>) -> Option<LightState> {
    if m.contains_key(id) {
        Some(m[id])
    } else {
        None
    }
}

/// Whether `id` is present and tombstoned.
pub open spec fn stored_removed(m: Map<Seq<u8>, LightState>, id: Seq<u8>) -> bool {
    m.contains_key(id) && m[id].removed
}

/// One mutation of the store, at the level of the mathematical model.
pub enum StoreOp {
    Put { id: Seq<u8>, state: LightState },
    Create { id: Seq<u8>, state: LightState },
    MarkRemoved { id: Seq<u8> },
}

impl StoreOp {
    /// The device id an operation addresses.
    pub open spec fn target(self) -> Seq<u8> {
        match self {
            StoreOp::Put { id, .. } => id,
            StoreOp::Create { id, .. } => id,
            StoreOp::MarkRemoved { id } => id,
        }
    }
}

/// The store after one operation. A `Put` writes only where the id exists;
/// a `Create` writes unconditionally; `MarkRemoved` raises the tombstone of
/// an existing entry and leaves an absent id alone.
pub open spec fn apply_op(m: Map<Seq<u8>, LightState>, op: StoreOp) -> Map<Seq<u8>, LightState> {
    match op {
        StoreOp::Put { id, state } => {
            if m.contains_key(id) {
                m.insert(id, state)
            } else {
                m
            }
        },
        StoreOp::Create { id, state } => m.insert(id, state),
        StoreOp::MarkRemoved { id } => {
            if m.contains_key(id) {
                m.insert(id, LightState { removed: true, ..m[id] })
            } else {
                m
            }
        },
    }
}

/// The store after a sequence of operations, applied in order.
pub open spec fn apply_ops(m: Map<Seq<u8>, LightState>, ops: Seq<StoreOp>) -> Map<
    Seq<u8>,
    LightState,
>
    decreases ops.len(),
{
    if ops.len() == 0 {
        m
    } else {
        apply_op(apply_ops(m, ops.drop_last()), ops.last())
    }
}

/// The device state store.
pub struct Store {
    devices: KeyMap<LightState>,
}

impl Store {
    /// The mapping from device id to stored state.
    pub closed spec fn view(&self) -> Map<Seq<u8>, LightState> {
        self.devices@
    }

    /// Well-formedness of the backing map.
    pub closed spec fn wf(&self) -> bool {
        self.devices.wf()
    }

    /// An empty store.
    pub fn new() -> (s: Store)
        ensures
            s.wf(),
            s@ =~= Map::<Seq<u8>, LightState>::empty(),
    {
        Store { devices: KeyMap::new() }
    }

    /// Read-only snapshot of one device; absence is a valid result.
    pub fn get(&self, id: &[u8]) -> (r: Option<&LightState>)
        requires
            self.wf(),
        ensures
            match r {
                Some(s) => stored_state(self@, id@) == Some(*s),
                None => stored_state(self@, id@) is None,
            },
    {
        self.devices.read(id)
    }

    /// Whether `id` has an entry, tombstoned or not.
    pub fn contains(&self, id: &[u8]) -> (r: bool)
        requires
            self.wf(),
        ensures
            r == self@.contains_key(id@),
    {
        self.devices.contains(id)
    }

    /// Replace the full state of an existing device; `NotFound` if the id has
    /// no entry (PUT does not create).
    pub fn put(&mut self, id: &[u8], new_state: LightState) -> (r: Result<(), ServiceError>)
        requires
            old(self).wf(),
        ensures
            final(self).wf(),
            final(self)@ == apply_op(old(self)@, StoreOp::Put { id: id@, state: new_state }),
            r is Ok <==> old(self)@.contains_key(id@),
            old(self)@.contains_key(id@) ==> final(self)@ =~= old(self)@.insert(id@, new_state),
            !old(self)@.contains_key(id@) ==> r == Result::<(), ServiceError>::Err(
                ServiceError::NotFound,
            ) && final(self)@ == old(self)@,
    {
        if self.devices.contains(id) {
            let mut key: Vec<u8> = Vec::new();
            append_bytes(&mut key, id);
            self.devices.write(key, new_state);
            Ok(())
        } else {
            Err(ServiceError::NotFound)
        }
    }

    /// Insert (or overwrite) an entry; the returned count is one more than
    /// the size before the insert, the coarse "created, N total"
    /// acknowledgement the handlers report.
    pub fn create(&mut self, id: Vec<u8>, initial: LightState) -> (n: usize)
        requires
            old(self).wf(),
            old(self)@.dom().len() < usize::MAX,
        ensures
            final(self).wf(),
            final(self)@ == apply_op(old(self)@, StoreOp::Create { id: id@, state: initial }),
            final(self)@ =~= old(self)@.insert(id@, initial),
            n == old(self)@.dom().len() + 1,
    {
        let n = self.devices.size() + 1;
        self.devices.write(id, initial);
        n
    }

    /// Raise the tombstone of `id`, keeping every other field and the key
    /// itself; a no-op when `id` is absent.
    pub fn mark_removed(&mut self, id: &[u8])
        requires
            old(self).wf(),
        ensures
            final(self).wf(),
            final(self)@ == apply_op(old(self)@, StoreOp::MarkRemoved { id: id@ }),
            old(self)@.contains_key(id@) ==> final(self)@ =~= old(self)@.insert(
                id@,
                (LightState { removed: true, ..old(self)@[id@] }),
            ),
            !old(self)@.contains_key(id@) ==> final(self)@ == old(self)@,
    {
        let current = match self.devices.read(id) {
            Some(s) => Some(*s),
            None => None,
        };
        match current {
            Some(s) => {
                let mut key: Vec<u8> = Vec::new();
                append_bytes(&mut key, id);
                self.devices.write(key, s.with_removed());
            },
            None => {},
        }
    }

    /// Number of entries, tombstoned ones included.
    pub fn size(&self) -> (n: usize)
        requires
            self.wf(),
        ensures
            n == self@.dom().len(),
    {
        self.devices.size()
    }
}

/// An operation addressed to a different device neither adds, removes nor
/// changes the state stored for `id`.
pub proof fn lemma_apply_op_frame(m: Map<Seq<u8>, LightState>, op: StoreOp, id: Seq<u8>)
    requires
        op.target() != id,
    ensures
        stored_state(apply_op(m, op), id) == stored_state(m, id),
{
}

/// Law: operations beyond position `i`, none of which addresses `id`, leave
/// the state stored for `id` exactly as it was after the first `i`
/// operations — no lost updates under interleaved writes to other ids.
pub proof fn lemma_ops_frame(
    m: Map<Seq<u8>, LightState>,
    ops: Seq<StoreOp>,
    id: Seq<u8>,
    i: int,
)
    requires
        0 <= i <= ops.len(),
        forall|j: int| i <= j < ops.len() ==> #[trigger] ops[j].target() != id,
    ensures
        stored_state(apply_ops(m, ops), id) == stored_state(apply_ops(m, ops.take(i)), id),
    decreases ops.len() - i,
{
    if i == ops.len() {
        assert(ops.take(i) =~= ops);
    } else {
        let head = ops.drop_last();
        assert(ops.last() == ops[ops.len() - 1]);
        lemma_apply_op_frame(apply_ops(m, head), ops.last(), id);
        assert(forall|j: int| i <= j < head.len() ==> #[trigger] head[j].target() != id);
        lemma_ops_frame(m, head, id, i);
        assert(head.take(i) =~= ops.take(i));
    }
}

/// Law (last write wins): after any sequence of operations whose last write
/// to `id` is a `Create` of `state`, the store holds `state` for `id`.
pub proof fn lemma_last_write_wins_create(
    m: Map<Seq<u8>, LightState>,
    ops: Seq<StoreOp>,
    i: int,
    id: Seq<u8>,
    state: LightState,
)
    requires
        0 <= i < ops.len(),
        ops[i] == (StoreOp::Create { id, state }),
        forall|j: int| i < j < ops.len() ==> #[trigger] ops[j].target() != id,
    ensures
        stored_state(apply_ops(m, ops), id) == Some(state),
{
    let upto = ops.take(i + 1);
    assert(upto.drop_last() =~= ops.take(i));
    assert(upto.last() == ops[i]);
    assert(apply_ops(m, upto) == apply_op(apply_ops(m, ops.take(i)), ops[i]));
    lemma_ops_frame(m, ops, id, i + 1);
}

/// Law (last write wins): the same for a `Put` of `state` that found `id`
/// present when it ran.
pub proof fn lemma_last_write_wins_put(
    m: Map<Seq<u8>, LightState>,
    ops: Seq<StoreOp>,
    i: int,
    id: Seq<u8>,
    state: LightState,
)
    requires
        0 <= i < ops.len(),
        ops[i] == (StoreOp::Put { id, state }),
        apply_ops(m, ops.take(i)).contains_key(id),
        forall|j: int| i < j < ops.len() ==> #[trigger] ops[j].target() != id,
    ensures
        stored_state(apply_ops(m, ops), id) == Some(state),
{
    let upto = ops.take(i + 1);
    assert(upto.drop_last() =~= ops.take(i));
    assert(upto.last() == ops[i]);
    assert(apply_ops(m, upto) == apply_op(apply_ops(m, ops.take(i)), ops[i]));
    lemma_ops_frame(m, ops, id, i + 1);
}

/// Law (last write wins): the same for a tombstone as the last write — the
/// store then holds the state `id` had at that point, with the removed flag
/// raised.
pub proof fn lemma_last_write_wins_mark_removed(
    m: Map<Seq<u8>, LightState>,
    ops: Seq<StoreOp>,
    i: int,
    id: Seq<u8>,
)
    requires
        0 <= i < ops.len(),
        ops[i] == (StoreOp::MarkRemoved { id }),
        apply_ops(m, ops.take(i)).contains_key(id),
        forall|j: int| i < j < ops.len() ==> #[trigger] ops[j].target() != id,
    ensures
        stored_state(apply_ops(m, ops), id) == Some(
            (LightState { removed: true, ..apply_ops(m, ops.take(i))[id] }),
        ),
{
    let upto = ops.take(i + 1);
    assert(upto.drop_last() =~= ops.take(i));
    assert(upto.last() == ops[i]);
    assert(apply_ops(m, upto) == apply_op(apply_ops(m, ops.take(i)), ops[i]));
    lemma_ops_frame(m, ops, id, i + 1);
}

} // verus!
