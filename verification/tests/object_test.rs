use godot_core::class::ClassTable;
use godot_core::convert::RefcountTrace;
use godot_core::handle::{Gd, RawGd};
use godot_core::object::{Engine, UsageError};
use godot_core::variant::Variant;

struct Classes {
    object: usize,
    ref_counted: usize,
    node: usize,
    node3d: usize,
    refc_payload: usize,
    obj_payload: usize,
    class_a: usize,
    class_b: usize,
}

fn setup() -> (Engine<i64>, Classes) {
    let mut table = ClassTable::new();
    let object = table.register("Object".to_string(), None, false).unwrap();
    let ref_counted = table.register("RefCounted".to_string(), Some(object), true).unwrap();
    let node = table.register("Node".to_string(), Some(object), false).unwrap();
    let node3d = table.register("Node3D".to_string(), Some(node), false).unwrap();
    let refc_payload = table.register("RefcPayload".to_string(), Some(ref_counted), false).unwrap();
    let obj_payload = table.register("ObjPayload".to_string(), Some(object), false).unwrap();
    let class_a = table.register("CustomClassA".to_string(), Some(ref_counted), false).unwrap();
    let class_b = table.register("CustomClassB".to_string(), Some(ref_counted), false).unwrap();
    let classes = Classes {
        object,
        ref_counted,
        node,
        node3d,
        refc_payload,
        obj_payload,
        class_a,
        class_b,
    };
    (Engine::new(table), classes)
}

fn value_of(engine: &mut Engine<i64>, obj: &Gd) -> i64 {
    let guard = engine.bind(obj);
    let value = *engine.read(&guard).unwrap();
    engine.unbind(guard);
    value
}

#[test]
fn object_construct_value() {
    let (mut engine, c) = setup();
    let obj = engine.from_object(c.refc_payload, 222).unwrap();
    assert_eq!(value_of(&mut engine, &obj), 222);
    assert_eq!(engine.ref_count(obj.raw_id()), 1);
}

#[test]
fn object_instance_id() {
    let (mut engine, c) = setup();
    let obj = engine.from_object(c.refc_payload, 17943).unwrap();
    let id = engine.instance_id(&obj);
    assert_eq!(id, obj.raw_id());

    let obj2 = engine.try_from_instance_id(id, c.refc_payload).unwrap();
    assert_eq!(value_of(&mut engine, &obj2), 17943);
    assert_eq!(engine.ref_count(id), 2);
}

#[test]
fn object_instance_id_when_freed() {
    let (mut engine, c) = setup();
    let node = engine.from_object(c.node3d, 0).unwrap();
    assert!(engine.is_instance_valid(&node));

    let copy = engine.clone_handle(&node);
    assert_eq!(engine.free_check(&copy), Ok(()));
    engine.free(copy);
    assert!(!engine.is_instance_valid(&node));

    assert!(!engine.is_instance_valid(&node));
}

#[test]
fn object_from_invalid_instance_id() {
    let (mut engine, c) = setup();
    let found = engine.try_from_instance_id(0xDEADBEEF, c.refc_payload);
    assert!(matches!(found, Err(UsageError::Dead)));
}

#[test]
fn object_from_instance_id_inherits_type() {
    let (mut engine, c) = setup();
    let node = engine.from_object(c.node3d, 5).unwrap();
    let id = engine.instance_id(&node);

    let node_as_base = engine.try_from_instance_id(id, c.node).unwrap();
    assert_eq!(engine.instance_id(&node_as_base), id);
    assert_eq!(node_as_base.static_class(), c.node);
    assert_eq!(value_of(&mut engine, &node_as_base), 5);

    assert_eq!(engine.free_check(&node_as_base), Ok(()));
    engine.free(node_as_base);
    assert!(!engine.is_instance_valid(&node));
}

#[test]
fn object_from_instance_id_unrelated_type() {
    let (mut engine, c) = setup();
    let node = engine.from_object(c.node3d, 0).unwrap();
    let id = engine.instance_id(&node);

    let found = engine.try_from_instance_id(id, c.ref_counted);
    assert!(matches!(found, Err(UsageError::ClassMismatch)));

    assert_eq!(engine.free_check(&node), Ok(()));
    engine.free(node);
}

#[test]
fn object_new_has_instance_id() {
    let (mut engine, c) = setup();
    let obj = engine.from_object(c.obj_payload, 0).unwrap();
    assert_eq!(engine.instance_id(&obj), 1);
    let second = engine.from_object(c.obj_payload, 0).unwrap();
    assert_eq!(engine.instance_id(&second), 2);
    assert_eq!(engine.free_check(&obj), Ok(()));
    engine.free(obj);
    let third = engine.from_object(c.obj_payload, 0).unwrap();
    assert_eq!(engine.instance_id(&third), 3);
}

#[test]
fn object_user_bind_after_free() {
    let (mut engine, c) = setup();
    let obj = engine.from_object(c.obj_payload, 0).unwrap();
    let copy = engine.clone_handle(&obj);
    assert_eq!(engine.free_check(&obj), Ok(()));
    engine.free(obj);

    assert_eq!(engine.bind_check(&copy, false), Err(UsageError::Dead));
    assert_eq!(engine.bind_check(&copy, true), Err(UsageError::Dead));
}

#[test]
fn object_user_free_during_bind() {
    let (mut engine, c) = setup();
    let obj = engine.from_object(c.obj_payload, 0).unwrap();
    let guard = engine.bind(&obj);

    let copy = engine.clone_handle(&obj);
    assert_eq!(engine.free_check(&copy), Err(UsageError::Borrowed));

    engine.unbind(guard);
    assert!(engine.is_instance_valid(&obj), "object lives on after failed free()");
    assert_eq!(engine.free_check(&obj), Ok(()));
    engine.free(obj);
}

#[test]
fn object_user_free_during_bind_mut() {
    let (mut engine, c) = setup();
    let obj = engine.from_object(c.obj_payload, 0).unwrap();
    let guard = engine.bind_mut(&obj);
    assert!(guard.is_exclusive());

    let copy = engine.clone_handle(&obj);
    assert_eq!(engine.free_check(&copy), Err(UsageError::Borrowed));
    let other = engine.try_from_instance_id(obj.raw_id(), c.object).unwrap();
    assert_eq!(engine.free_check(&other), Err(UsageError::Borrowed));

    engine.unbind(guard);
    assert_eq!(engine.free_check(&obj), Ok(()));
    engine.free(obj);
}

#[test]
fn object_user_call_after_free() {
    let (mut engine, c) = setup();
    let obj = engine.from_object(c.obj_payload, 0).unwrap();
    let copy = engine.clone_handle(&obj);
    assert_eq!(engine.free_check(&obj), Ok(()));
    engine.free(obj);

    assert!(!engine.is_instance_valid(&copy));
    assert_eq!(engine.retain_check(copy.raw_id()), Err(UsageError::Dead));
    assert_eq!(engine.retain_check(copy.raw_id()), Err(UsageError::Dead));
}

#[test]
fn object_user_eq() {
    let (mut engine, c) = setup();
    let a1 = engine.from_object(c.refc_payload, 17943).unwrap();
    let a2 = engine.clone_handle(&a1);
    let b1 = engine.from_object(c.refc_payload, 17943).unwrap();

    assert!(engine.same_object(&a1, &a2));
    assert!(!engine.same_object(&a1, &b1));
    assert!(!engine.same_object(&a2, &b1));
}

#[test]
fn object_engine_eq() {
    let (mut engine, c) = setup();
    let a1 = engine.from_object(c.node3d, 0).unwrap();
    let a2 = engine.clone_handle(&a1);
    let b1 = engine.from_object(c.node3d, 0).unwrap();

    assert!(engine.same_object(&a1, &a2));
    assert!(!engine.same_object(&a1, &b1));
    assert!(!engine.same_object(&a2, &b1));

    assert_eq!(engine.free_check(&a1), Ok(()));
    engine.free(a1);
    assert_eq!(engine.free_check(&b1), Ok(()));
    engine.free(b1);
}

#[test]
fn object_dead_eq() {
    let (mut engine, c) = setup();
    let a = engine.from_object(c.node3d, 0).unwrap();
    let b = engine.from_object(c.node3d, 0).unwrap();
    let b2 = engine.clone_handle(&b);

    let doomed = engine.clone_handle(&b);
    assert_eq!(engine.free_check(&doomed), Ok(()));
    engine.free(doomed);

    assert!(!(engine.is_instance_valid(&a) && engine.is_instance_valid(&b)));
    assert!(!(engine.is_instance_valid(&b2) && engine.is_instance_valid(&a)));
    assert!(!(engine.is_instance_valid(&b) && engine.is_instance_valid(&b2)));

    assert_eq!(engine.free_check(&a), Ok(()));
    engine.free(a);
}

#[test]
fn object_user_convert_variant() {
    let (mut engine, c) = setup();
    let obj = engine.from_object(c.refc_payload, 17943).unwrap();
    let variant = engine.to_variant(&obj);
    assert!(matches!(variant, Variant::Object(id) if id == obj.raw_id()));
    let obj2 = engine.try_from_variant(&variant, c.refc_payload).unwrap();

    assert_eq!(value_of(&mut engine, &obj2), 17943);
}

#[test]
fn object_user_convert_variant_refcount() {
    let (mut engine, c) = setup();
    let obj = engine.from_object(c.refc_payload, -22222).unwrap();
    let obj = engine.upcast(obj, c.ref_counted);
    let trace = engine.check_convert_variant_refcount(&obj);
    assert_eq!(
        trace,
        RefcountTrace { start: 1, with_variant: 2, with_both: 3, after_handle: 2, after_variant: 1 }
    );
    assert_eq!(engine.ref_count(obj.raw_id()), 1);
}

#[test]
fn object_engine_convert_variant_refcount() {
    let (mut engine, c) = setup();
    let obj = engine.from_object(c.ref_counted, 0).unwrap();
    let trace = engine.check_convert_variant_refcount(&obj);
    assert_eq!(trace.start, 1);
    assert_eq!(trace.with_variant, 2);
    assert_eq!(trace.with_both, 3);
    assert_eq!(trace.after_handle, 2);
    assert_eq!(trace.after_variant, 1);

    let second = engine.clone_handle(&obj);
    let trace = engine.check_convert_variant_refcount(&second);
    assert_eq!(
        trace,
        RefcountTrace { start: 2, with_variant: 3, with_both: 4, after_handle: 3, after_variant: 2 }
    );
}

#[test]
fn convert_variant_refcount_step_by_step() {
    let (mut engine, c) = setup();
    let obj = engine.from_object(c.ref_counted, 0).unwrap();
    let id = obj.raw_id();
    assert_eq!(engine.ref_count(id), 1);

    let variant = engine.to_variant(&obj);
    assert_eq!(engine.ref_count(id), 2);

    let another = engine.try_from_variant(&variant, c.ref_counted).unwrap();
    assert_eq!(engine.ref_count(id), 3);

    assert_eq!(engine.release_check(another.raw_id()), Ok(()));
    engine.drop_handle(another);
    assert_eq!(engine.ref_count(id), 2);

    assert_eq!(engine.drop_check(&variant), Ok(()));
    engine.drop_variant(variant);
    assert_eq!(engine.ref_count(id), 1);

    assert_eq!(engine.release_check(obj.raw_id()), Ok(()));
    engine.drop_handle(obj);
    assert!(!engine.is_live(id));
}

#[test]
fn object_engine_convert_variant_nil() {
    let (mut engine, c) = setup();
    let nil = Variant::Nil;
    let err = engine.try_from_variant(&nil, c.node).unwrap_err();
    assert!(matches!(err.value, Some(Variant::Nil)));
    assert!(err.cause.is_none());
}

#[test]
fn object_engine_upcast() {
    let (mut engine, c) = setup();
    let node3d = engine.from_object(c.node3d, 0).unwrap();
    let id = engine.instance_id(&node3d);

    let object = engine.upcast(node3d, c.object);
    assert_eq!(engine.instance_id(&object), id);
    assert_eq!(object.static_class(), c.object);
    assert_eq!(engine.class_of(id), c.node3d);

    assert_eq!(engine.free_check(&object), Ok(()));
    engine.free(object);
}

#[test]
fn object_engine_upcast_reflexive() {
    let (mut engine, c) = setup();
    let node3d = engine.from_object(c.node3d, 0).unwrap();
    let id = engine.instance_id(&node3d);

    let object = engine.upcast(node3d, c.node3d);
    assert_eq!(engine.instance_id(&object), id);
    assert_eq!(engine.class_of(id), c.node3d);

    assert_eq!(engine.free_check(&object), Ok(()));
    engine.free(object);
}

#[test]
fn object_engine_downcast() {
    let (mut engine, c) = setup();
    let node3d = engine.from_object(c.node3d, 123).unwrap();
    let id = engine.instance_id(&node3d);

    let object = engine.upcast(node3d, c.object);
    let node = engine.try_cast(object, c.node).expect("try_cast");
    let node3d = engine.try_cast(node, c.node3d).expect("try_cast");

    assert_eq!(engine.instance_id(&node3d), id);
    assert_eq!(node3d.static_class(), c.node3d);
    assert_eq!(value_of(&mut engine, &node3d), 123);

    assert_eq!(engine.free_check(&node3d), Ok(()));
    engine.free(node3d);
}

#[test]
fn object_reject_invalid_downcast() {
    let (mut engine, c) = setup();
    let instance = engine.from_object(c.class_a, 0).unwrap();
    let object = engine.upcast(instance, c.object);

    let back = engine.try_cast(object, c.class_b).unwrap_err();
    assert_eq!(back.static_class(), c.object);
    assert_eq!(engine.ref_count(back.raw_id()), 1);
}

#[test]
fn variant_reject_invalid_downcast() {
    let (mut engine, c) = setup();
    let instance = engine.from_object(c.class_a, 0).unwrap();
    let variant = engine.to_variant(&instance);

    let err = engine.try_from_variant(&variant, c.class_b).unwrap_err();
    assert!(matches!(err.value, Some(Variant::Object(id)) if id == instance.raw_id()));
    assert!(err.cause.is_none());
    assert_eq!(engine.ref_count(instance.raw_id()), 2);
    assert!(engine.try_from_variant(&variant, c.class_a).is_ok());
    assert_eq!(engine.ref_count(instance.raw_id()), 3);
}

#[test]
fn object_engine_downcast_reflexive() {
    let (mut engine, c) = setup();
    let node3d = engine.from_object(c.node3d, 0).unwrap();
    let id = engine.instance_id(&node3d);

    let node3d = engine.cast(node3d, c.node3d);
    assert_eq!(engine.instance_id(&node3d), id);

    assert_eq!(engine.free_check(&node3d), Ok(()));
    engine.free(node3d);
}

#[test]
fn object_engine_bad_downcast() {
    let (mut engine, c) = setup();
    let object = engine.from_object(c.object, 0).unwrap();
    let free_ref = engine.clone_handle(&object);
    let node3d = engine.try_cast(object, c.node3d);

    assert!(node3d.is_err());
    assert_eq!(engine.free_check(&free_ref), Ok(()));
    engine.free(free_ref);
}

#[test]
fn object_user_upcast() {
    let (mut engine, c) = setup();
    let obj = engine.from_object(c.refc_payload, 17943).unwrap();
    let id = engine.instance_id(&obj);

    let object = engine.upcast(obj, c.object);
    assert_eq!(engine.instance_id(&object), id);
    assert_eq!(engine.class_of(id), c.refc_payload);
}

#[test]
fn object_user_downcast() {
    let (mut engine, c) = setup();
    let obj = engine.from_object(c.refc_payload, 17943).unwrap();
    let id = engine.instance_id(&obj);

    let object = engine.upcast(obj, c.object);
    let intermediate = engine.try_cast(object, c.ref_counted).expect("try_cast");
    assert_eq!(engine.instance_id(&intermediate), id);

    let concrete = engine.try_cast(intermediate, c.refc_payload).expect("try_cast");
    assert_eq!(engine.instance_id(&concrete), id);
    assert_eq!(value_of(&mut engine, &concrete), 17943);
}

#[test]
fn object_user_bad_downcast() {
    let (mut engine, c) = setup();
    let obj = engine.from_object(c.refc_payload, 17943).unwrap();
    let object = engine.upcast(obj, c.object);
    let node = engine.try_cast(object, c.node);

    assert!(node.is_err());
}

#[test]
fn try_cast_on_dead_object_gives_nothing() {
    let (mut engine, c) = setup();
    let node = engine.from_object(c.node3d, 0).unwrap();
    let copy = engine.clone_handle(&node);
    assert_eq!(engine.free_check(&node), Ok(()));
    engine.free(node);
    assert!(engine.try_cast(copy, c.node3d).is_err());
}

#[test]
fn object_engine_manual_free() {
    let (mut engine, c) = setup();
    let node = engine.from_object(c.node3d, 0).unwrap();
    let node2 = engine.clone_handle(&node);
    assert_eq!(engine.free_check(&node2), Ok(()));
    engine.free(node2);
    assert_eq!(engine.release_check(node.raw_id()), Ok(()));
    engine.drop_handle(node);
}

#[test]
fn object_engine_shared_free() {
    let (mut engine, c) = setup();
    let node = engine.from_object(c.node, 0).unwrap();
    let copy = engine.clone_handle(&node);
    let object = engine.upcast(copy, c.object);
    assert_eq!(engine.free_check(&node), Ok(()));
    engine.free(node);
    assert_eq!(engine.release_check(object.raw_id()), Ok(()));
    engine.drop_handle(object);
}

#[test]
fn object_engine_manual_double_free() {
    let (mut engine, c) = setup();
    let node = engine.from_object(c.node3d, 0).unwrap();
    let node2 = engine.clone_handle(&node);
    assert_eq!(engine.free_check(&node), Ok(()));
    engine.free(node);

    assert_eq!(engine.free_check(&node2), Err(UsageError::Dead));
}

#[test]
fn object_engine_refcounted_free() {
    let (mut engine, c) = setup();
    let node = engine.from_object(c.ref_counted, 0).unwrap();
    let copy = engine.clone_handle(&node);
    let node2 = engine.upcast(copy, c.object);

    assert_eq!(engine.free_check(&node2), Err(UsageError::ReferenceCounted));
    assert!(engine.is_instance_valid(&node));
    assert_eq!(engine.ref_count(node.raw_id()), 2);
}

#[test]
fn object_user_double_free() {
    let (mut engine, c) = setup();
    let obj = engine.from_object(c.obj_payload, 0).unwrap();
    let obj2 = engine.clone_handle(&obj);
    engine.destroy(obj.raw_id());

    assert_eq!(engine.free_check(&obj2), Err(UsageError::Dead));
    assert_eq!(engine.free_check(&obj), Err(UsageError::Dead));
}

#[test]
fn double_use_reference() {
    let (mut engine, c) = setup();
    let double_use = engine.from_object(c.obj_payload, 0).unwrap();

    let guard = engine.bind(&double_use);
    assert_eq!(engine.read(&guard), Some(&0));

    let second = engine.bind(&double_use);
    assert_eq!(engine.shared_guards(double_use.raw_id()), 2);
    assert_eq!(engine.read(&second), Some(&0));
    engine.unbind(second);

    assert_eq!(engine.bind_check(&double_use, true), Err(UsageError::Borrowed));
    engine.unbind(guard);

    assert_eq!(engine.free_check(&double_use), Ok(()));
    engine.free(double_use);
}

#[test]
fn exclusive_guard_excludes_every_other() {
    let (mut engine, c) = setup();
    let obj = engine.from_object(c.refc_payload, 7).unwrap();
    let guard = engine.bind_mut(&obj);

    assert_eq!(engine.bind_check(&obj, false), Err(UsageError::Borrowed));
    assert_eq!(engine.bind_check(&obj, true), Err(UsageError::Borrowed));

    assert_eq!(engine.write(&guard, 8), Ok(7));
    assert_eq!(engine.read(&guard), Some(&8));
    engine.unbind(guard);

    let shared = engine.bind(&obj);
    assert_eq!(engine.write(&shared, 9), Err(9));
    assert_eq!(engine.read(&shared), Some(&8));
    engine.unbind(shared);
}

#[test]
fn last_handle_cannot_go_under_a_guard() {
    let (mut engine, c) = setup();
    let obj = engine.from_object(c.refc_payload, 7).unwrap();
    let id = obj.raw_id();
    let guard = engine.bind(&obj);
    assert_eq!(engine.release_check(obj.raw_id()), Err(UsageError::Borrowed));
    assert!(engine.is_live(id));
    engine.unbind(guard);
    let again = engine.try_from_instance_id(id, c.refc_payload).unwrap();
    assert_eq!(engine.release_check(again.raw_id()), Ok(()));
    engine.drop_handle(again);
    assert_eq!(engine.ref_count(id), 1);
}

#[test]
fn stale_guard_changes_nothing() {
    let (mut engine, c) = setup();
    let obj = engine.from_object(c.obj_payload, 1).unwrap();
    let id = obj.raw_id();
    let guard = engine.bind(&obj);
    engine.destroy(id);
    assert_eq!(engine.read(&guard), None);
    engine.unbind(guard);
    assert!(!engine.is_live(id));
}

#[test]
fn raw_layer_counts_references() {
    let (mut engine, c) = setup();
    let counted = engine.create(c.ref_counted, 0);
    let manual = engine.create(c.node, 0);
    assert_eq!(engine.ref_count(counted), 1);
    assert_eq!(engine.ref_count(manual), 0);

    engine.retain(counted);
    engine.retain(manual);
    assert_eq!(engine.ref_count(counted), 2);
    assert_eq!(engine.ref_count(manual), 0);

    assert!(!engine.release(counted));
    assert!(!engine.release(manual));
    assert!(engine.release(counted));
    assert!(!engine.is_live(counted));
    assert!(engine.is_live(manual));

    assert_eq!(engine.replace_payload(manual, 5), 0);
    assert_eq!(engine.payload(manual), Some(&5));
    assert_eq!(engine.payload(counted), None);
    engine.set_guards(manual, 3, false);
    assert_eq!(engine.shared_guards(manual), 3);
    assert!(!engine.has_exclusive_guard(manual));
    assert!(engine.has_free_id());
    assert_eq!(engine.class_table().len(), 8);
}

#[test]
fn object_user_roundtrip_return() {
    let (mut engine, c) = setup();
    let obj = engine.from_object(c.refc_payload, 17943).unwrap();
    assert_eq!(value_of(&mut engine, &obj), 17943);

    let raw = obj.into_raw();
    let ptr = raw.as_raw_pointer();

    let raw2 = RawGd::from_raw_pointer(ptr);
    assert!(!raw2.is_null());
    assert!(engine.is_live(raw2.id));
    assert!(engine.class_table().inherits(engine.class_of(raw2.id), c.refc_payload));
    let obj2 = engine.from_raw(raw2, c.refc_payload);
    assert_eq!(value_of(&mut engine, &obj2), 17943);
    assert_eq!(engine.ref_count(ptr), 1);
    assert_eq!(engine.release_check(obj2.raw_id()), Ok(()));
    engine.drop_handle(obj2);
    assert!(!engine.is_live(ptr));
}

#[test]
fn object_engine_roundtrip() {
    let (mut engine, c) = setup();
    let obj = engine.from_object(c.node3d, 0).unwrap();
    let guard = engine.bind_mut(&obj);
    assert_eq!(engine.write(&guard, 123), Ok(0));
    engine.unbind(guard);
    assert_eq!(value_of(&mut engine, &obj), 123);

    let ptr = obj.raw_id();
    let raw2 = RawGd::from_raw_pointer(ptr);
    assert!(engine.is_live(raw2.id));
    assert!(engine.class_table().inherits(engine.class_of(raw2.id), c.node3d));
    let obj2 = engine.from_raw(raw2, c.node3d);
    assert_eq!(value_of(&mut engine, &obj2), 123);
    assert_eq!(engine.free_check(&obj), Ok(()));
    engine.free(obj);
}

#[test]
fn null_reference_refers_to_nothing() {
    let (engine, _) = setup();
    let raw = RawGd::null();
    assert!(raw.is_null());
    assert_eq!(raw.as_raw_pointer(), 0);
    assert!(!engine.is_live(raw.id));
    assert_eq!(raw, RawGd::from_raw_pointer(0));
}

#[test]
fn object_user_roundtrip_write() {
    let (mut engine, c) = setup();
    let obj = engine.from_object(c.refc_payload, 17943).unwrap();
    assert_eq!(value_of(&mut engine, &obj), 17943);
    let id = obj.raw_id();

    let raw = obj.into_raw();
    let written = RawGd::from_raw_pointer(raw.as_raw_pointer());
    assert_eq!(written, raw);
    assert_eq!(engine.lookup(written.id, c.refc_payload), Ok(()));
    let obj2 = engine.from_raw(written, c.refc_payload);
    assert_eq!(value_of(&mut engine, &obj2), 17943);
    assert_eq!(engine.ref_count(id), 1);
}

#[test]
fn object_from_instance_id_when_known() {
    let (mut engine, c) = setup();
    let obj = engine.from_object(c.refc_payload, 5).unwrap();
    let id = obj.raw_id();
    assert_eq!(engine.lookup(id, c.ref_counted), Ok(()));
    let again = engine.from_instance_id(id, c.ref_counted);
    assert_eq!(again.raw_id(), id);
    assert_eq!(again.static_class(), c.ref_counted);
    assert_eq!(engine.ref_count(id), 2);
    assert_eq!(engine.lookup(id, c.node), Err(UsageError::ClassMismatch));
    assert_eq!(engine.lookup(id + 1, c.ref_counted), Err(UsageError::Dead));
}

#[test]
fn object_dynamic_free() {
    let (mut engine, c) = setup();
    let obj = engine.from_object(c.obj_payload, 0).unwrap();
    let id = engine.instance_id(&obj);

    engine.destroy(id);

    assert!(matches!(engine.try_from_instance_id(id, c.obj_payload), Err(UsageError::Dead)));
}

#[test]
fn object_engine_use_after_free() {
    let (mut engine, c) = setup();
    let node = engine.from_object(c.node3d, 0).unwrap();
    let copy = engine.clone_handle(&node);
    assert_eq!(engine.free_check(&node), Ok(()));
    engine.free(node);

    assert_eq!(engine.bind_check(&copy, false), Err(UsageError::Dead));
    assert!(!engine.is_instance_valid(&copy));
}

#[test]
fn object_engine_up_deref() {
    let (mut engine, c) = setup();
    let node3d = engine.from_object(c.node3d, 0).unwrap();
    let id = engine.instance_id(&node3d);

    assert_eq!(engine.instance_id(&node3d), id);
    assert_eq!(engine.class_table().name(engine.class_of(id)), "Node3D");

    assert_eq!(engine.free_check(&node3d), Ok(()));
    engine.free(node3d);
}

#[test]
fn object_engine_accept_polymorphic() {
    let (mut engine, c) = setup();
    let node = engine.from_object(c.node3d, 0).unwrap();
    let id = node.raw_id();

    let first = engine.clone_handle(&node);
    assert!(engine.class_table().inherits(first.static_class(), c.node));
    let as_node = engine.upcast(first, c.node);
    assert_eq!(as_node.static_class(), c.node);

    let second = engine.clone_handle(&node);
    assert!(engine.class_table().inherits(second.static_class(), c.object));
    let as_object = engine.upcast(second, c.object);
    assert_eq!(engine.class_table().name(engine.class_of(as_object.raw_id())), "Node3D");
    assert_eq!(as_object.raw_id(), id);

    assert_eq!(engine.free_check(&node), Ok(()));
    engine.free(node);
}

#[test]
fn object_user_accept_polymorphic() {
    let (mut engine, c) = setup();
    let obj = engine.from_object(c.refc_payload, 123).unwrap();

    let copy = engine.clone_handle(&obj);
    let as_refcounted = engine.upcast(copy, c.ref_counted);
    assert_eq!(engine.class_table().name(engine.class_of(as_refcounted.raw_id())), "RefcPayload");

    let as_object = engine.upcast(obj, c.object);
    assert_eq!(engine.class_table().name(engine.class_of(as_object.raw_id())), "RefcPayload");
}

#[test]
fn guard_counter_can_run_out() {
    let (mut engine, c) = setup();
    let obj = engine.from_object(c.obj_payload, 0).unwrap();
    engine.set_guards(obj.raw_id(), u64::MAX, false);
    assert_eq!(engine.bind_check(&obj, false), Err(UsageError::Exhausted));
    assert_eq!(engine.bind_check(&obj, true), Err(UsageError::Borrowed));
    assert_eq!(engine.shared_guards(obj.raw_id()), u64::MAX);
}

#[test]
fn object_user_dynamic_free_during_bind() {
    let (mut engine, c) = setup();
    let obj = engine.from_object(c.obj_payload, 0).unwrap();
    let guard = engine.bind(&obj);

    let copy = engine.clone_handle(&obj);
    engine.destroy(copy.raw_id());

    engine.unbind(guard);
    assert!(!engine.is_instance_valid(&obj), "dynamic free() destroys object even if it's bound");
}

#[test]
fn object_engine_use_after_free_varcall() {
    let (mut engine, c) = setup();
    let node = engine.from_object(c.node3d, 0).unwrap();
    let copy = engine.clone_handle(&node);
    assert_eq!(engine.free_check(&node), Ok(()));
    engine.free(node);

    assert_eq!(engine.bind_check(&copy, true), Err(UsageError::Dead));
    assert_eq!(engine.retain_check(copy.raw_id()), Err(UsageError::Dead));
}

#[test]
fn object_engine_convert_variant() {
    let (mut engine, c) = setup();
    let obj = engine.from_object(c.node3d, 123).unwrap();

    let variant = engine.to_variant(&obj);
    let obj2 = engine.try_from_variant(&variant, c.node3d).unwrap();

    assert_eq!(value_of(&mut engine, &obj2), 123);
    assert_eq!(engine.ref_count(obj.raw_id()), 0);
    assert_eq!(engine.drop_check(&variant), Ok(()));
    engine.drop_variant(variant);
    assert_eq!(engine.drop_check(&Variant::Int(1)), Ok(()));
    engine.drop_variant(Variant::Int(1));
    assert_eq!(engine.free_check(&obj), Ok(()));
    engine.free(obj);
}

#[test]
fn object_engine_up_deref_mut() {
    let (mut engine, c) = setup();
    let node3d = engine.from_object(c.node3d, 0).unwrap();

    let guard = engine.bind_mut(&node3d);
    assert_eq!(engine.write(&guard, 1), Ok(0));
    assert_eq!(engine.read(&guard), Some(&1));
    assert_eq!(engine.write(&guard, 0), Ok(1));
    assert_eq!(engine.read(&guard), Some(&0));
    engine.unbind(guard);

    assert_eq!(engine.free_check(&node3d), Ok(()));
    engine.free(node3d);
}
