use casper_api::exports;
use casper_api::flipper::Flipper;
use casper_api::host::{self, LocalKV};
use casper_api::{ApiError, CLType, Contract, Value};

#[test]
fn test() {
    let mut kv = LocalKV::new();
    let entry = exports::call(&mut kv, b"hello", b"world", b"asdf").expect("should read");
    assert_eq!(entry.tag, 0);
    assert_eq!(entry.data, b"Hello, world!".to_vec());
    let read_back = host::read(&kv, 0, b"read back", |n: usize| Vec::with_capacity(n));
    assert_eq!(read_back.unwrap().unwrap().data, b"Hello, world!".to_vec());
}

#[test]
fn compile_time_schema() {
    let schema = Flipper::schema();
    assert_eq!(schema.name, "Flipper");
    assert_eq!(schema.entry_points[0].name, "flip");

    let _flipper = Flipper::new();
    assert_eq!(Flipper::name(), "Flipper");
}

#[test]
fn schema_lists_fields_and_parameters() {
    let schema = Flipper::schema();
    assert_eq!(schema.data.len(), 1);
    assert_eq!(schema.data[0].name, "flag");
    assert_eq!(schema.data[0].ty, CLType::Bool);
    let flip = &schema.entry_points[0];
    assert_eq!(flip.arguments.len(), 2);
    assert_eq!((flip.arguments[0].name, flip.arguments[0].ty), ("argument1", CLType::Bool));
    assert_eq!((flip.arguments[1].name, flip.arguments[1].ty), ("argument2", CLType::String));
    assert_eq!(schema.entry_points[1].name, "flag_value");
    assert!(schema.entry_points[1].arguments.is_empty());
}

#[test]
fn flipper_flips() {
    let mut kv = LocalKV::new();
    let mut flipper = Flipper::new();
    assert_eq!(flipper.flag_value(&kv), Ok(false));
    flipper.flip(&mut kv, false, String::from("x")).unwrap();
    assert_eq!(flipper.flag_value(&kv), Ok(true));
    flipper.flip(&mut kv, true, String::new()).unwrap();
    assert_eq!(flipper.flag_value(&kv), Ok(false));
    let raw = host::read(&kv, 0, b"flag", |n: usize| Vec::with_capacity(n)).unwrap().unwrap();
    assert_eq!((raw.tag, raw.data), (0, vec![0]));
}

#[test]
fn flipper_reports_garbage_flag() {
    let mut kv = LocalKV::new();
    let mut flipper = Flipper::new();
    host::write(&mut kv, 0, b"flag", 0, &[7]).unwrap();
    assert_eq!(flipper.flag_value(&kv), Err(ApiError::Decode));
    assert_eq!(flipper.flip(&mut kv, true, String::new()), Err(ApiError::Decode));
}

#[test]
fn value_set_then_get() {
    let mut kv = LocalKV::new();
    let mut name: Value<String> = Value::new("name", 3);
    assert_eq!(name.get(&kv), Ok(None));
    assert_eq!(name.set(&mut kv, String::from("casper")), Ok(()));
    assert_eq!(name.get(&kv), Ok(Some(String::from("casper"))));
    let raw = host::read(&kv, 3, b"name", |n: usize| Vec::with_capacity(n)).unwrap().unwrap();
    assert_eq!(raw.data, vec![6, 0, 0, 0, b'c', b'a', b's', b'p', b'e', b'r']);
    let other: Value<String> = Value::new("name", 4);
    assert_eq!(other.get(&kv), Ok(None));
}
