use lights_core::codec::{encode_is_online, encode_light_state, format_count, format_signed};
use lights_core::handlers::{
    handle_create, handle_get, handle_is_online, handle_put, handle_remove, lights_path_bytes,
    Status,
};
use lights_core::lifecycle::{heartbeat_step, HeartbeatEvent, SubscriptionPhase};
use lights_core::light::LightState;
use lights_core::registry::ObserverRegistry;
use lights_core::store::{ServiceError, Store};

fn default_state() -> LightState {
    LightState { is_on: true, brightness: 255, color: 16581375, removed: false }
}

#[test]
fn scenario_create_get_put_remove_put() {
    let mut store = Store::new();
    let mut registry = ObserverRegistry::new();

    // create device "bulb1": store size becomes 1, the payload reports 1
    let r = handle_create(&mut store, b"bulb1".to_vec());
    assert_eq!(r.status, Status::Content);
    assert_eq!(r.payload, b"1".to_vec());
    assert_eq!(store.size(), 1);

    // GET "bulb1": the default state, serialized
    let r = handle_get(&store, b"bulb1");
    assert_eq!(r.status, Status::Content);
    assert_eq!(
        r.payload,
        b"{\"is_on\":true,\"brightness\":255,\"color\":16581375,\"removed\":false}".to_vec()
    );

    // PUT "bulb1" with new values: success, one notification, GET reflects it
    let new_state = LightState { is_on: false, brightness: 10, color: 0, removed: false };
    let out = handle_put(&mut store, b"bulb1", Some(new_state));
    assert_eq!(out.response.status, Status::Content);
    assert_eq!(out.notify, Some(b"lights/bulb1".to_vec()));
    let r = handle_get(&store, b"bulb1");
    assert_eq!(
        r.payload,
        b"{\"is_on\":false,\"brightness\":10,\"color\":0,\"removed\":false}".to_vec()
    );

    // remove "bulb1": reported count is size + 1 = 2, the service's counting convention
    let r = handle_remove(&mut store, b"bulb1");
    assert_eq!(r.status, Status::Content);
    assert_eq!(r.payload, b"2".to_vec());
    assert_eq!(store.size(), 1);

    // PUT "bulb1" again: succeeds with no state change, still fires one notification
    let put_again = LightState { is_on: true, brightness: 1, color: 2, removed: false };
    let out = handle_put(&mut store, b"bulb1", Some(put_again));
    assert_eq!(out.response.status, Status::Content);
    assert_eq!(out.notify, Some(b"lights/bulb1".to_vec()));
    let r = handle_get(&store, b"bulb1");
    assert_eq!(
        r.payload,
        b"{\"is_on\":false,\"brightness\":10,\"color\":0,\"removed\":true}".to_vec()
    );

    // the device never had a subscription: offline, but found in the store
    let r = handle_is_online(&store, &registry, b"bulb1");
    assert_eq!(r.status, Status::Content);
    assert_eq!(r.payload, b"{\"isOnline\":false}".to_vec());

    // after one attach to its path the query reports online
    registry.attach(lights_path_bytes(b"bulb1"));
    let r = handle_is_online(&store, &registry, b"bulb1");
    assert_eq!(r.payload, b"{\"isOnline\":true}".to_vec());

    // after the matching detach it is offline again
    registry.detach(b"lights/bulb1");
    let r = handle_is_online(&store, &registry, b"bulb1");
    assert_eq!(r.payload, b"{\"isOnline\":false}".to_vec());
}

#[test]
fn get_missing_device_is_not_found() {
    let store = Store::new();
    let r = handle_get(&store, b"nope");
    assert_eq!(r.status, Status::NotFound);
    assert_eq!(r.payload, Vec::<u8>::new());
}

#[test]
fn put_missing_device_is_not_found_and_silent() {
    let mut store = Store::new();
    let out = handle_put(&mut store, b"ghost", Some(default_state()));
    assert_eq!(out.response.status, Status::NotFound);
    assert_eq!(out.notify, None);
    assert_eq!(store.size(), 0);
}

#[test]
fn put_removed_device_keeps_state_and_notifies_once() {
    let mut store = Store::new();
    handle_create(&mut store, b"a".to_vec());
    handle_remove(&mut store, b"a");
    let before = *store.get(b"a").unwrap();
    let out = handle_put(
        &mut store,
        b"a",
        Some(LightState { is_on: false, brightness: 0, color: 0, removed: false }),
    );
    assert_eq!(out.response.status, Status::Content);
    assert_eq!(out.notify, Some(b"lights/a".to_vec()));
    let after = *store.get(b"a").unwrap();
    assert_eq!(after, before);
    assert!(after.removed);
}

#[test]
fn put_malformed_body_is_bad_request_and_silent() {
    let mut store = Store::new();
    handle_create(&mut store, b"a".to_vec());
    let before = *store.get(b"a").unwrap();
    let out = handle_put(&mut store, b"a", None);
    assert_eq!(out.response.status, Status::BadRequest);
    assert_eq!(out.notify, None);
    assert_eq!(*store.get(b"a").unwrap(), before);
}

#[test]
fn store_put_errors_with_not_found() {
    let mut store = Store::new();
    assert_eq!(store.put(b"x", default_state()), Err(ServiceError::NotFound));
}

#[test]
fn error_kinds_map_to_their_statuses() {
    assert_eq!(lights_core::handlers::error_status(ServiceError::NotFound), Status::NotFound);
    assert_eq!(lights_core::handlers::error_status(ServiceError::ParseError), Status::BadRequest);
    assert_eq!(lights_core::handlers::error_status(ServiceError::Internal), Status::InternalError);
}

#[test]
fn create_overwrites_and_reports_old_size_plus_one() {
    let mut store = Store::new();
    let r = handle_create(&mut store, b"a".to_vec());
    assert_eq!(r.payload, b"1".to_vec());
    // creating the same id again overwrites; the reported count is still
    // one more than the size before the insert
    let r = handle_create(&mut store, b"a".to_vec());
    assert_eq!(r.payload, b"2".to_vec());
    assert_eq!(store.size(), 1);
}

#[test]
fn remove_unknown_id_is_a_no_op_that_still_reports() {
    let mut store = Store::new();
    handle_create(&mut store, b"a".to_vec());
    let r = handle_remove(&mut store, b"zzz");
    assert_eq!(r.status, Status::Content);
    assert_eq!(r.payload, b"2".to_vec());
    assert_eq!(store.size(), 1);
    assert!(store.get(b"zzz").is_none());
}

#[test]
fn last_write_wins_per_device() {
    let mut store = Store::new();
    handle_create(&mut store, b"a".to_vec());
    handle_create(&mut store, b"b".to_vec());
    let sa = LightState { is_on: false, brightness: 1, color: 1, removed: false };
    let sb = LightState { is_on: true, brightness: 2, color: 2, removed: false };
    let sa2 = LightState { is_on: true, brightness: 3, color: 3, removed: false };
    assert!(store.put(b"a", sa).is_ok());
    assert!(store.put(b"b", sb).is_ok());
    assert!(store.put(b"a", sa2).is_ok());
    assert_eq!(*store.get(b"a").unwrap(), sa2);
    assert_eq!(*store.get(b"b").unwrap(), sb);
}

#[test]
fn registry_counts_attaches_and_detaches() {
    let mut registry = ObserverRegistry::new();
    assert_eq!(registry.get_count(b"lights/a"), 0);
    assert!(!registry.is_online(b"lights/a"));
    registry.attach(b"lights/a".to_vec());
    registry.attach(b"lights/a".to_vec());
    registry.attach(b"lights/b".to_vec());
    assert_eq!(registry.get_count(b"lights/a"), 2);
    assert_eq!(registry.get_count(b"lights/b"), 1);
    registry.detach(b"lights/a");
    assert_eq!(registry.get_count(b"lights/a"), 1);
    assert!(registry.is_online(b"lights/a"));
    registry.detach(b"lights/a");
    assert_eq!(registry.get_count(b"lights/a"), 0);
    assert!(!registry.is_online(b"lights/a"));
    // detach with nothing attached stays at zero
    registry.detach(b"lights/a");
    assert_eq!(registry.get_count(b"lights/a"), 0);
    assert_eq!(registry.get_count(b"lights/b"), 1);
}

#[test]
fn is_online_unknown_device_is_not_found() {
    let store = Store::new();
    let mut registry = ObserverRegistry::new();
    registry.attach(b"lights/ghost".to_vec());
    // the online check is gated on store existence
    let r = handle_is_online(&store, &registry, b"ghost");
    assert_eq!(r.status, Status::NotFound);
}

#[test]
fn heartbeat_ticks_notify_until_cancelled() {
    // three quiet intervals: three ticks, then the cancellation, then
    // stray events that must all be ignored
    let events = [
        HeartbeatEvent::Tick,
        HeartbeatEvent::Tick,
        HeartbeatEvent::Tick,
        HeartbeatEvent::Cancel,
        HeartbeatEvent::Tick,
        HeartbeatEvent::Tick,
    ];
    let mut phase = SubscriptionPhase::Active;
    let mut notifications = 0;
    let mut after_cancel = 0;
    let mut cancelled = false;
    for e in events {
        let (next, notify) = heartbeat_step(phase, e);
        if notify {
            notifications += 1;
            if cancelled {
                after_cancel += 1;
            }
        }
        if e == HeartbeatEvent::Cancel {
            cancelled = true;
        }
        phase = next;
    }
    assert_eq!(notifications, 3);
    assert_eq!(after_cancel, 0);
    assert_eq!(phase, SubscriptionPhase::Ended);
}

#[test]
fn heartbeat_step_cases() {
    assert_eq!(
        heartbeat_step(SubscriptionPhase::Active, HeartbeatEvent::Tick),
        (SubscriptionPhase::Active, true)
    );
    assert_eq!(
        heartbeat_step(SubscriptionPhase::Active, HeartbeatEvent::Cancel),
        (SubscriptionPhase::Ended, false)
    );
    assert_eq!(
        heartbeat_step(SubscriptionPhase::Ended, HeartbeatEvent::Tick),
        (SubscriptionPhase::Ended, false)
    );
    assert_eq!(
        heartbeat_step(SubscriptionPhase::Ended, HeartbeatEvent::Cancel),
        (SubscriptionPhase::Ended, false)
    );
}

#[test]
fn decimal_formatting_is_exact() {
    assert_eq!(format_count(0), b"0".to_vec());
    assert_eq!(format_count(7), b"7".to_vec());
    assert_eq!(format_count(10), b"10".to_vec());
    assert_eq!(format_count(255), b"255".to_vec());
    assert_eq!(format_count(16581375), b"16581375".to_vec());
    assert_eq!(format_signed(0), b"0".to_vec());
    assert_eq!(format_signed(-12), b"-12".to_vec());
    assert_eq!(format_signed(i32::MIN), b"-2147483648".to_vec());
    assert_eq!(format_signed(i32::MAX), b"2147483647".to_vec());
}

#[test]
fn payload_encodings_are_exact() {
    let s = LightState { is_on: true, brightness: -5, color: 123, removed: true };
    assert_eq!(
        encode_light_state(&s),
        b"{\"is_on\":true,\"brightness\":-5,\"color\":123,\"removed\":true}".to_vec()
    );
    assert_eq!(encode_is_online(true), b"{\"isOnline\":true}".to_vec());
    assert_eq!(encode_is_online(false), b"{\"isOnline\":false}".to_vec());
    assert_eq!(lights_path_bytes(b"bulb1"), b"lights/bulb1".to_vec());
}

#[test]
fn encoding_is_json_the_external_parser_accepts() {
    // the framed payload must parse as JSON and carry exactly these fields
    let s = LightState { is_on: false, brightness: -10, color: 16581375, removed: true };
    let encoded = String::from_utf8(encode_light_state(&s)).unwrap();
    let parsed: serde_json::Value = serde_json::from_str(&encoded).unwrap();
    let mut fields = serde_json::Map::new();
    fields.insert("is_on".to_string(), serde_json::Value::Bool(false));
    fields.insert("brightness".to_string(), serde_json::Value::from(-10));
    fields.insert("color".to_string(), serde_json::Value::from(16581375));
    fields.insert("removed".to_string(), serde_json::Value::Bool(true));
    assert_eq!(parsed, serde_json::Value::Object(fields));
}
