use std::any::Any;

use typeinfo::TypeInfo;
use typeinfo::TypeMap;

#[test]
fn empty_map_has_nothing() {
    let map: TypeMap<i64> = TypeMap::new();
    assert_eq!(map.len(), 0);
    assert!(map.get(&TypeInfo::new::<i64>()).is_none());
    assert!(!map.contains(&TypeInfo::new::<String>()));
}

#[test]
fn heterogeneous_lookup() {
    let mut map: TypeMap<Box<dyn Any>> = TypeMap::new();
    let previous = map.insert(TypeInfo::new::<String>(), Box::new(String::from("hello")));
    assert!(previous.is_none());
    let previous = map.insert(TypeInfo::new::<i64>(), Box::new(42i64));
    assert!(previous.is_none());
    assert_eq!(map.len(), 2);

    let stored = map.get(&TypeInfo::new::<String>()).unwrap();
    assert_eq!(stored.downcast_ref::<String>().unwrap(), "hello");
    let stored = map.get(&TypeInfo::new::<i64>()).unwrap();
    assert_eq!(*stored.downcast_ref::<i64>().unwrap(), 42);

    assert!(map.get(&TypeInfo::new::<bool>()).is_none());
}

#[test]
fn second_insert_replaces_first() {
    let mut map: TypeMap<String> = TypeMap::new();
    let key = TypeInfo::new::<String>();
    assert!(map.insert(key, String::from("first")).is_none());
    let previous = map.insert(key, String::from("second"));
    assert_eq!(previous, Some(String::from("first")));
    assert_eq!(map.len(), 1);
    assert_eq!(map.get(&key).unwrap(), "second");
}

#[test]
fn equal_tokens_are_interchangeable_keys() {
    let mut map: TypeMap<u32> = TypeMap::new();
    let by_type = TypeInfo::new::<String>();
    let by_value = TypeInfo::from_val(&String::from("witness"));
    assert_eq!(by_type, by_value);

    assert!(map.insert(by_type, 7).is_none());
    assert_eq!(map.get(&by_value), Some(&7));
    assert!(map.contains(&by_value));

    let previous = map.insert(by_value, 8);
    assert_eq!(previous, Some(7));
    assert_eq!(map.get(&by_type), Some(&8));
    assert_eq!(map.len(), 1);
}

#[test]
fn distinct_types_keep_their_values() {
    let mut map: TypeMap<&'static str> = TypeMap::new();
    assert!(map.insert(TypeInfo::new::<bool>(), "a bool").is_none());
    assert!(map.insert(TypeInfo::new::<char>(), "a char").is_none());
    assert!(map.insert(TypeInfo::new::<u8>(), "a byte").is_none());
    assert_eq!(map.len(), 3);
    assert_eq!(map.get(&TypeInfo::new::<bool>()), Some(&"a bool"));
    assert_eq!(map.get(&TypeInfo::new::<char>()), Some(&"a char"));
    assert_eq!(map.get(&TypeInfo::new::<u8>()), Some(&"a byte"));
    assert!(map.get(&TypeInfo::new::<u16>()).is_none());
}

#[test]
fn tokens_key_standard_maps_too() {
    let mut map: std::collections::HashMap<TypeInfo, i32> = std::collections::HashMap::new();
    map.insert(TypeInfo::new::<String>(), 1);
    map.insert(TypeInfo::new::<bool>(), 2);
    assert_eq!(map.get(&TypeInfo::from_val(&String::new())), Some(&1));
    assert_eq!(map.get(&TypeInfo::new::<bool>()), Some(&2));
    assert_eq!(map.get(&TypeInfo::new::<i64>()), None);

    let mut ordered: std::collections::BTreeMap<TypeInfo, i32> = std::collections::BTreeMap::new();
    ordered.insert(TypeInfo::new::<String>(), 1);
    ordered.insert(TypeInfo::new::<bool>(), 2);
    assert_eq!(ordered.get(&TypeInfo::from_val(&false)), Some(&2));
    assert_eq!(ordered.len(), 2);
}
