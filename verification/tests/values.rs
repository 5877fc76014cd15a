use grpc_gcp::datastore::Datastore;
use grpc_gcp::error::{Error, ErrorKind};
use grpc_gcp::firestore::collection;
use grpc_gcp::key::{IdType, Key, PartitionId, PathElement};
use grpc_gcp::pubsub::Message;
use grpc_gcp::text::{bool_to_string, bytes_to_string, integer_to_string, natural_to_string};
use grpc_gcp::trace_key::TraceKey;
use grpc_gcp::value::{Double, Fields, LatLng, Timestamp, Value};

fn double(value: f64) -> Double {
    Double::new(value.to_bits(), format!("{}", value))
}

#[test]
fn integers_are_written_in_decimal() {
    for i in [i64::MIN, -1000, -10, -9, -1, 0, 1, 9, 10, 11, 99, 100, 256, 1609200000, i64::MAX] {
        assert_eq!(format!("{}", i), integer_to_string(i));
    }
    for n in [0u64, 7, 10, 19, 101, 18446744073709551615] {
        assert_eq!(format!("{}", n), natural_to_string(n));
    }
    assert_eq!("true", bool_to_string(true));
    assert_eq!("false", bool_to_string(false));
}

#[test]
fn bytes_are_written_as_a_list() {
    assert_eq!("[]", bytes_to_string(&vec![]));
    assert_eq!("[7]", bytes_to_string(&vec![7]));
    assert_eq!("[0, 1, 255]", bytes_to_string(&vec![0, 1, 255]));
}

#[test]
fn trace_keys_render_as_paths() {
    let root = TraceKey::Root;
    assert_eq!("", root.to_string());
    let a = root.field(&"a".to_string());
    assert_eq!(TraceKey::Field("a".into(), Box::new(TraceKey::Root)), a);
    assert_eq!("/a", a.to_string());
    let b = a.field(&"b".to_string());
    assert_eq!("/a/b", b.to_string());
    let element = a.element();
    assert_eq!(TraceKey::Array(Box::new(a.clone())), element);
    assert_eq!("/a[]", element.to_string());
    assert_eq!("/a[]/c[]", element.field(&"c".to_string()).element().to_string());
    assert!(b == b.clone());
    assert!(b != a);
    assert!(element != a);
    assert!(root != a);
}

#[test]
fn values_are_written_with_their_variant() {
    assert_eq!("Null 0", Value::NullValue.to_string());
    assert_eq!("Boolean true", Value::BooleanValue(true).to_string());
    assert_eq!("Integer -12", Value::integer(-12).to_string());
    assert_eq!("Double 0.5", Value::double(double(0.5)).to_string());
    assert_eq!(
        "Timestamp Timestamp { seconds: 1, nanos: -2 }",
        Value::TimestampValue(Timestamp { seconds: 1, nanos: -2 }).to_string()
    );
    assert_eq!("String \"a\\\"b\\n\"", Value::StringValue("a\"b\n".into()).to_string());
    assert_eq!("String \"hoge\"", Value::StringValue("hoge".into()).to_string());
    assert_eq!("Bytes [1, 2]", Value::BytesValue(vec![1, 2]).to_string());
    assert_eq!("Reference \"p/q\"", Value::ReferenceValue("p/q".into()).to_string());
    assert_eq!(
        "GeoPoint LatLng { latitude: 35.6, longitude: 139.7 }",
        Value::GeoPointValue(LatLng {
            latitude: double(35.6),
            longitude: double(139.7)
        })
        .to_string()
    );
    assert_eq!("Array []", Value::ArrayValue(vec![]).to_string());
    assert_eq!(
        "Array [Integer 1, String \"x\", Array [Null 0]]",
        Value::ArrayValue(vec![
            Value::integer(1),
            Value::StringValue("x".into()),
            Value::ArrayValue(vec![Value::NullValue])
        ])
        .to_string()
    );
    assert_eq!("Map {}", Value::from_fields(Fields::new()).to_string());
    let mut fields = Fields::new();
    fields.insert("a".into(), Value::integer(1));
    fields.insert("b".into(), Value::BooleanValue(false));
    assert_eq!("Map {\"a\": Integer 1, \"b\": Boolean false}", Value::MapValue(fields).to_string());
}

#[test]
fn value_accessors() {
    assert!(!Value::NullValue.is_some_value());
    assert!(Value::integer(0).is_some_value());
    assert_eq!(Some(5), Value::integer(5).integer_value());
    assert_eq!(Some(9), Value::TimestampValue(Timestamp { seconds: 9, nanos: 1 }).integer_value());
    assert_eq!(None, Value::StringValue("5".into()).integer_value());
    assert_eq!(Some(vec![1u8, 2]), Value::BytesValue(vec![1, 2]).byte_value());
    assert_eq!(None, Value::integer(1).byte_value());
    assert_eq!(
        Some(vec![Value::integer(1)]),
        Value::ArrayValue(vec![Value::integer(1)]).array_value()
    );
    assert_eq!(None, Value::integer(1).array_value());
}

#[test]
fn fields_keep_one_entry_for_each_name() {
    let mut fields = Fields::new();
    assert_eq!(0, fields.len());
    assert_eq!(None, fields.insert("a".into(), Value::integer(1)));
    assert_eq!(None, fields.insert("b".into(), Value::integer(2)));
    assert_eq!(Some(Value::integer(1)), fields.insert("a".into(), Value::integer(3)));
    assert_eq!(2, fields.len());
    assert_eq!(
        vec![("a".to_string(), Value::integer(3)), ("b".to_string(), Value::integer(2))],
        fields.into_entries()
    );
    let collected = Fields::from_entries(vec![
        ("x".into(), Value::integer(1)),
        ("y".into(), Value::integer(2)),
        ("x".into(), Value::integer(3)),
    ]);
    assert_eq!(
        vec![("x".to_string(), Value::integer(3)), ("y".to_string(), Value::integer(2))],
        collected.into_entries()
    );
}

fn worded(error: Error, kind: ErrorKind, message: &str) {
    assert_eq!(kind, error.kind());
    assert_eq!(message, error.to_string());
}

#[test]
fn errors_are_worded_by_kind() {
    let k = || TraceKey::Field("k".into(), Box::new(TraceKey::Root));
    let v = || "V".to_string();
    worded(
        Error::ExpectedBoolean(k(), v()),
        ErrorKind::ExpectedBoolean,
        "A boolean value was expected for /k, but it was V",
    );
    worded(
        Error::ExpectedInteger(k(), v()),
        ErrorKind::ExpectedInteger,
        "A integer value was expected for /k, but it was V",
    );
    worded(
        Error::ExpectedDouble(k(), v()),
        ErrorKind::ExpectedDouble,
        "A double value was expected for /k, but it was V",
    );
    worded(
        Error::ExpectedString(k(), v()),
        ErrorKind::ExpectedString,
        "A string value was expected for /k, but it was V",
    );
    worded(
        Error::ExpectedBytes(k(), v()),
        ErrorKind::ExpectedBytes,
        "A bytes value was expected for /k, but it was V",
    );
    worded(
        Error::ExpectedNull(k(), v()),
        ErrorKind::ExpectedNull,
        "A null value was expected for /k, but it was V",
    );
    worded(
        Error::ExpectedArray(k(), v()),
        ErrorKind::ExpectedArray,
        "A array value was expected for /k, but it was V",
    );
    worded(
        Error::ExpectedMap(k(), v()),
        ErrorKind::ExpectedMap,
        "A map value was expected for /k, but it was V",
    );
    worded(
        Error::ExpectedEnum(k(), v()),
        ErrorKind::ExpectedEnum,
        "A enum value was expected for /k, but it was V",
    );
    worded(
        Error::CouldNotConvertNumber(k(), v()),
        ErrorKind::CouldNotConvertNumber,
        "Could not convert V, the value of /k, to the expected type.",
    );
    worded(
        Error::ExpectedArrayEnd(k()),
        ErrorKind::ExpectedArrayEnd,
        "The length of the array is invalid. key: /k",
    );
    worded(Error::Eof, ErrorKind::Eof, "unexpected end of input");
    worded(Error::Message("missing field `a`".into()), ErrorKind::Message, "missing field `a`");
}

#[test]
fn collections_and_documents_have_paths() {
    let users = collection("users");
    assert_eq!("users", users.path());
    let alice = users.doc("alice");
    assert_eq!("users/alice", alice.path());
    let posts = alice.collection("posts");
    assert_eq!("users/alice/posts", posts.path());
    assert_eq!("users/alice/posts/1", posts.doc("1").path());
    assert_eq!(
        "projects/malt03/databases/(default)/documents/test/JM6W5nAExLohWQir079S",
        collection("test").doc("JM6W5nAExLohWQir079S").name("malt03")
    );
    assert_eq!(alice, alice.clone());
    assert_eq!(posts, posts.clone());
}

#[test]
fn keys_are_made_for_a_project_and_namespace() {
    let datastore = Datastore::new("seconds-299513", None);
    let parent = datastore.id_key("Test", 5634161670881280, None);
    assert_eq!(
        Key {
            partition_id: Some(PartitionId {
                project_id: "seconds-299513".into(),
                namespace_id: "".into()
            }),
            path: vec![PathElement {
                kind: "Test".into(),
                id_type: Some(IdType::Id(5634161670881280))
            }],
        },
        parent
    );
    let other = Datastore::new("p", Some("n".into()));
    let child = other.name_key("Child", "c", Some(parent));
    assert_eq!(
        Key {
            partition_id: Some(PartitionId { project_id: "p".into(), namespace_id: "n".into() }),
            path: vec![
                PathElement { kind: "Test".into(), id_type: Some(IdType::Id(5634161670881280)) },
                PathElement { kind: "Child".into(), id_type: Some(IdType::Name("c".into())) },
            ],
        },
        child
    );
}

#[test]
fn keys_are_taken_apart_into_fields() {
    let key = Key {
        partition_id: Some(PartitionId { project_id: "p".into(), namespace_id: "n".into() }),
        path: vec![
            PathElement { kind: "A".into(), id_type: Some(IdType::Id(1)) },
            PathElement { kind: "B".into(), id_type: Some(IdType::Name("b".into())) },
            PathElement { kind: "C".into(), id_type: None },
        ],
    };
    assert_eq!(
        "Key { partition_id: Some(PartitionId { project_id: \"p\", namespace_id: \"n\" }), path: \
         [PathElement { kind: \"A\", id_type: Some(Id(1)) }, PathElement { kind: \"B\", id_type: \
         Some(Name(\"b\")) }, PathElement { kind: \"C\", id_type: None }] }",
        key.to_string()
    );
    assert_eq!(
        "Map {\"partition_id\": Map {\"project_id\": String \"p\", \"namespace_id\": String \
         \"n\"}, \"path\": Array [Map {\"kind\": String \"A\", \"id_type\": Map {\"Id\": Integer \
         1}}, Map {\"kind\": String \"B\", \"id_type\": Map {\"Name\": String \"b\"}}, Map \
         {\"kind\": String \"C\", \"id_type\": Null 0}]}",
        Value::MapValue(key.map_value()).to_string()
    );
    let bare = Key { partition_id: None, path: vec![] };
    assert_eq!("Key { partition_id: None, path: [] }", Value::KeyValue(bare.clone()).to_string().split_at(4).1);
    assert!(Value::KeyValue(bare.clone()).has_map_value());
    assert_eq!(
        "Map {\"partition_id\": Null 0, \"path\": Array []}",
        Value::MapValue(Value::KeyValue(bare).map_value().unwrap()).to_string()
    );
}

#[test]
fn a_message_from_text_holds_its_bytes() {
    let message = Message::from("h\u{e9}");
    assert_eq!(&vec![104u8, 195, 169], message.data());
    assert!(message.attributes().is_empty());
    assert_eq!(Message::from("h\u{e9}"), message);
    assert_eq!((vec![104u8, 195, 169], vec![]), message.into_parts());
    assert!(Message::from("").data().is_empty());
}
