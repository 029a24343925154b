//! The four resource operations, composed from the store, the registry and
//! the payload codec. Each handler consumes plain values the transport has
//! already decoded and produces a status, opaque payload bytes, and — for
//! PUT — the notification it owes the observers of the device's path.

use vstd::prelude::*;

use crate::codec::{
    dec_digits, encode_is_online, encode_light_state, format_count, is_online_json, light_json,
};
use crate::keymap::append_bytes;
use crate::light::LightState;
use crate::registry::{spec_is_online, ObserverRegistry};
use crate::store::{apply_op, stored_removed, stored_state, ServiceError, Store, StoreOp};
use vstd::string::StringSliceAdditionalSpecFns;

verus! {

/// Protocol-visible outcome of one request. `BadRequest` is the mapping of a
/// parse failure, `NotFound` of a missing device id, `InternalError` of a
/// failure in the surrounding service machinery.
#[derive(Clone, Copy, Debug, PartialEq, Eq, Structural)]
pub enum Status {
    Content,
    NotFound,
    BadRequest,
    InternalError,
}

/// The protocol status each error kind is surfaced as: a missing device as
/// not-found, a malformed body as bad-request, an internal failure as a
/// generic failure — never a crash of the handling task.
pub open spec fn spec_error_status(e: ServiceError) -> Status {
    match e {
        ServiceError::NotFound => Status::NotFound,
        ServiceError::ParseError => Status::BadRequest,
        ServiceError::Internal => Status::InternalError,
    }
}

/// Map an error kind to the status the transport renders.
pub fn error_status(e: ServiceError) -> (s: Status)
    ensures
        s == spec_error_status(e),
{
    match e {
        ServiceError::NotFound => Status::NotFound,
        ServiceError::ParseError => Status::BadRequest,
        ServiceError::Internal => Status::InternalError,
    }
}

/// What the transport renders back to the client.
pub struct Response {
    pub status: Status,
    pub payload: Vec<u8>,
}

/// A PUT's response together with the notification it fires: `Some(path)`
/// means exactly one "state changed, re-fetch" signal for that path, `None`
/// means none at all.
pub struct PutOutcome {
    pub response: Response,
    pub notify: Option<Vec<u8>>,
}

/// The resource path observed for a device: `lights/` followed by its id.
pub open spec fn lights_path(id: Seq<u8>) -> Seq<u8> {
    "lights/".spec_bytes() + id
}

/// Build the observable path for a device id.
pub fn lights_path_bytes(id: &[u8]) -> (r: Vec<u8>)
    ensures
        r@ == lights_path(id@),
{
    let mut p: Vec<u8> = Vec::new();
    append_bytes(&mut p, "lights/".as_bytes());
    append_bytes(&mut p, id);
    p
}

/// GET of one device: its serialized state on a hit, `NotFound` on a miss.
/// Never notifies and never changes anything.
pub fn handle_get(store: &Store, id: &[u8]) -> (r: Response)
    requires
        store.wf(),
    ensures
        stored_state(store@, id@) matches Some(s) ==> r.status == Status::Content && r.payload@
            == light_json(s),
        stored_state(store@, id@) is None ==> r.status == Status::NotFound && r.payload@
            == Seq::<u8>::empty(),
{
    match store.get(id) {
        Some(s) => Response { status: Status::Content, payload: encode_light_state(s) },
        None => Response { status: Status::NotFound, payload: Vec::new() },
    }
}

/// "Is online" query: gated on the device existing in the store, answered
/// from the registry's count for the device's path.
pub fn handle_is_online(store: &Store, registry: &ObserverRegistry, id: &[u8]) -> (r: Response)
    requires
        store.wf(),
        registry.wf(),
    ensures
        store@.contains_key(id@) ==> r.status == Status::Content && r.payload@ == is_online_json(
            spec_is_online(registry@, lights_path(id@)),
        ),
        !store@.contains_key(id@) ==> r.status == Status::NotFound && r.payload@
            == Seq::<u8>::empty(),
{
    let path = lights_path_bytes(id);
    let online = registry.is_online(path.as_slice());
    if store.contains(id) {
        Response { status: Status::Content, payload: encode_is_online(online) }
    } else {
        Response { status: Status::NotFound, payload: Vec::new() }
    }
}

/// PUT of one device: a malformed body is rejected as `BadRequest` and fires
/// nothing; a tombstoned device is left untouched but still reports success
/// and fires exactly one notification for its path; a missing device is
/// `NotFound` and fires nothing; otherwise the state is replaced and one
/// notification fires for the device's path.
pub fn handle_put(store: &mut Store, id: &[u8], body: Option<LightState>) -> (r: PutOutcome)
    requires
        old(store).wf(),
    ensures
        final(store).wf(),
        body is None ==> final(store)@ == old(store)@ && r.response.status == Status::BadRequest
            && r.notify is None,
        body is Some && stored_removed(old(store)@, id@) ==> final(store)@ == old(store)@
            && r.response.status == Status::Content && (r.notify matches Some(p) && p@ == lights_path(
            id@,
        )),
        body matches Some(s) ==> (!stored_removed(old(store)@, id@) && old(store)@.contains_key(
            id@,
        ) ==> final(store)@ == old(store)@.insert(id@, s) && r.response.status == Status::Content
            && (r.notify matches Some(p) && p@ == lights_path(id@))),
        body is Some && !old(store)@.contains_key(id@) ==> final(store)@ == old(store)@
            && r.response.status == Status::NotFound && r.notify is None,
        r.response.payload@ == Seq::<u8>::empty(),
{
    let removed_now = match store.get(id) {
        Some(s) => s.removed,
        None => false,
    };
    match body {
        None => PutOutcome {
            response: Response {
                status: error_status(ServiceError::ParseError),
                payload: Vec::new(),
            },
            notify: None,
        },
        Some(new_state) => {
            if removed_now {
                PutOutcome {
                    response: Response { status: Status::Content, payload: Vec::new() },
                    notify: Some(lights_path_bytes(id)),
                }
            } else {
                match store.put(id, new_state) {
                    Ok(_) => PutOutcome {
                        response: Response { status: Status::Content, payload: Vec::new() },
                        notify: Some(lights_path_bytes(id)),
                    },
                    Err(e) => PutOutcome {
                        response: Response { status: error_status(e), payload: Vec::new() },
                        notify: None,
                    },
                }
            }
        },
    }
}

/// Create a device under `id` with the default state, overwriting any
/// previous entry; the payload is the decimal count the store reports, one
/// more than the size before the insert.
pub fn handle_create(store: &mut Store, id: Vec<u8>) -> (r: Response)
    requires
        old(store).wf(),
        old(store)@.dom().len() < usize::MAX,
    ensures
        final(store).wf(),
        final(store)@ == apply_op(
            old(store)@,
            (StoreOp::Create { id: id@, state: LightState::spec_default() }),
        ),
        r.status == Status::Content,
        r.payload@ == dec_digits((old(store)@.dom().len() + 1) as nat),
{
    let n = store.create(id, LightState::new_default());
    Response { status: Status::Content, payload: format_count(n) }
}

/// Tombstone a device: its entry keeps its key and last state with the
/// removed flag raised; an unknown id is left alone. Either way the payload
/// reports one more than the store's size, the service's counting convention.
pub fn handle_remove(store: &mut Store, id: &[u8]) -> (r: Response)
    requires
        old(store).wf(),
        old(store)@.dom().len() < usize::MAX,
    ensures
        final(store).wf(),
        final(store)@ == apply_op(old(store)@, (StoreOp::MarkRemoved { id: id@ })),
        r.status == Status::Content,
        r.payload@ == dec_digits((old(store)@.dom().len() + 1) as nat),
{
    store.mark_removed(id);
    proof {
        if old(store)@.contains_key(id@) {
            assert(store@.dom() =~= old(store)@.dom());
        }
    }
    let n = store.size();
    Response { status: Status::Content, payload: format_count(n + 1) }
}

} // verus!
