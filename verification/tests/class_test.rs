use godot_core::class::{ClassTable, RegistrationError};

#[test]
fn registers_classes_in_order() {
    let mut table = ClassTable::new();
    assert_eq!(table.len(), 0);
    assert_eq!(table.register("Object".to_string(), None, false), Ok(0));
    assert_eq!(table.register("RefCounted".to_string(), Some(0), true), Ok(1));
    assert_eq!(table.register("Resource".to_string(), Some(1), false), Ok(2));
    assert_eq!(table.len(), 3);
    assert!(!table.is_counted(0));
    assert!(table.is_counted(1));
    assert!(table.is_counted(2));
}

#[test]
fn rejects_duplicate_class_name() {
    let mut table = ClassTable::new();
    assert_eq!(table.register("Object".to_string(), None, false), Ok(0));
    assert_eq!(
        table.register("Object".to_string(), Some(0), false),
        Err(RegistrationError::DuplicateName)
    );
    assert_eq!(table.len(), 1);
}

#[test]
fn rejects_unknown_parent() {
    let mut table = ClassTable::new();
    assert_eq!(
        table.register("Node".to_string(), Some(0), false),
        Err(RegistrationError::UnknownParent)
    );
    assert_eq!(table.register("Object".to_string(), None, false), Ok(0));
    assert_eq!(
        table.register("Node".to_string(), Some(1), false),
        Err(RegistrationError::UnknownParent)
    );
    assert_eq!(table.len(), 1);
}

#[test]
fn finds_classes_by_name() {
    let mut table = ClassTable::new();
    table.register("Object".to_string(), None, false).unwrap();
    table.register("Node".to_string(), Some(0), false).unwrap();
    assert_eq!(table.find(&"Node".to_string()), Some(1));
    assert_eq!(table.find(&"Object".to_string()), Some(0));
    assert_eq!(table.find(&"Node3D".to_string()), None);
}

#[test]
fn inheritance_follows_parents() {
    let mut table = ClassTable::new();
    let object = table.register("Object".to_string(), None, false).unwrap();
    let node = table.register("Node".to_string(), Some(object), false).unwrap();
    let node3d = table.register("Node3D".to_string(), Some(node), false).unwrap();
    let refc = table.register("RefCounted".to_string(), Some(object), true).unwrap();

    assert!(table.inherits(node3d, node3d));
    assert!(table.inherits(node3d, node));
    assert!(table.inherits(node3d, object));
    assert!(!table.inherits(node, node3d));
    assert!(!table.inherits(object, node));
    assert!(!table.inherits(refc, node));
    assert!(!table.inherits(node, refc));
    assert!(!table.inherits(17, 17));
    assert!(!table.inherits(17, object));
    assert!(!table.inherits(node, 17));
}
