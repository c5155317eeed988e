use rison::{to_string, Error, Value};

fn encode(value: Value) -> String {
    to_string(&value).unwrap()
}

fn text(s: &str) -> Value {
    Value::Str(s.to_owned())
}

fn ints(items: &[i32]) -> Vec<Value> {
    items.iter().map(|n| Value::I32(*n)).collect()
}

fn record(fields: Vec<(&str, Value)>) -> Value {
    Value::Struct {
        name: "Record".to_owned(),
        fields: fields.into_iter().map(|(k, v)| (k.to_owned(), v)).collect(),
    }
}

fn is_key_error(r: Result<String, Error>) -> bool {
    matches!(r, Err(Error::KeyMustBeAString))
}

#[test]
fn sequence_of_three() {
    assert_eq!(encode(Value::Sequence(ints(&[1, 2, 3]))), "!(1,2,3)");
}

#[test]
fn empty_and_single_sequences() {
    assert_eq!(encode(Value::Sequence(Vec::new())), "!()");
    assert_eq!(encode(Value::Sequence(ints(&[5]))), "!(5)");
}

#[test]
fn tuples_and_tuple_structs_are_sequences() {
    assert_eq!(encode(Value::Tuple(vec![Value::Bool(true), text("a b")])), "!(!t,'a b')");
    assert_eq!(
        encode(Value::TupleStruct { name: "Point".to_owned(), elements: ints(&[1, -2]) }),
        "!(1,-2)"
    );
    assert_eq!(encode(Value::Tuple(Vec::new())), "!()");
}

#[test]
fn separators_are_one_fewer_than_elements() {
    for n in 0..20usize {
        let items: Vec<Value> = (0..n).map(|i| Value::U64(i as u64)).collect();
        let out = encode(Value::Sequence(items));
        assert!(out.starts_with("!(") && out.ends_with(')'));
        let commas = out.chars().filter(|c| *c == ',').count();
        assert_eq!(commas, n.saturating_sub(1));
    }
}

#[test]
fn nested_sequences() {
    let inner = Value::Sequence(ints(&[1, 2]));
    let outer = Value::Sequence(vec![inner, Value::Sequence(Vec::new()), Value::Unit]);
    assert_eq!(encode(outer), "!(!(1,2),!(),!n)");
}

#[test]
fn bytes_are_a_sequence_of_numbers() {
    assert_eq!(encode(Value::Bytes(vec![0, 7, 255])), "!(0,7,255)");
    assert_eq!(encode(Value::Bytes(Vec::new())), "!()");
    assert_eq!(
        encode(Value::Bytes(vec![1, 2])),
        encode(Value::Sequence(vec![Value::U8(1), Value::U8(2)]))
    );
}

#[test]
fn tuple_variant_closes_twice() {
    let v = Value::TupleVariant {
        name: "Shape".to_owned(),
        variant_index: 2,
        variant: "Rect".to_owned(),
        elements: ints(&[3, 4]),
    };
    assert_eq!(encode(v), "(Rect:!(3,4))");
    let v = Value::TupleVariant {
        name: "Shape".to_owned(),
        variant_index: 2,
        variant: "Rect".to_owned(),
        elements: Vec::new(),
    };
    assert_eq!(encode(v), "(Rect:!())");
}

#[test]
fn variant_is_the_bare_form_in_a_frame() {
    let elements = vec![text("x"), Value::Tuple(ints(&[1]))];
    let bare = encode(Value::Tuple(elements.iter().map(copy).collect()));
    let wrapped = encode(Value::TupleVariant {
        name: "E".to_owned(),
        variant_index: 0,
        variant: "V".to_owned(),
        elements,
    });
    assert_eq!(wrapped, format!("(V:{})", bare));
    let fields = vec![("k".to_owned(), Value::U8(1))];
    let bare = encode(Value::Struct { name: "S".to_owned(), fields: fields.iter().map(|(k, v)| (k.clone(), copy(v))).collect() });
    let wrapped = encode(Value::StructVariant {
        name: "E".to_owned(),
        variant_index: 0,
        variant: "V".to_owned(),
        fields,
    });
    assert_eq!(wrapped, format!("(V:{})", bare));
    assert!(wrapped.ends_with("))"));
}

fn copy(v: &Value) -> Value {
    match v {
        Value::Str(s) => Value::Str(s.clone()),
        Value::U8(n) => Value::U8(*n),
        Value::I32(n) => Value::I32(*n),
        Value::Tuple(items) => Value::Tuple(items.iter().map(copy).collect()),
        _ => unreachable!(),
    }
}

#[test]
fn struct_fields_are_sorted_by_key() {
    assert_eq!(encode(record(vec![("b", Value::I32(2)), ("a", Value::I32(1))])), "(a:1,b:2)");
}

#[test]
fn struct_field_order_does_not_matter() {
    let one = record(vec![("x", Value::U8(1)), ("y", text("q r")), ("z", Value::Unit)]);
    let two = record(vec![("z", Value::Unit), ("x", Value::U8(1)), ("y", text("q r"))]);
    let three = record(vec![("y", text("q r")), ("z", Value::Unit), ("x", Value::U8(1))]);
    assert_eq!(encode(one), "(x:1,y:'q r',z:!n)");
    assert_eq!(encode(two), "(x:1,y:'q r',z:!n)");
    assert_eq!(encode(three), "(x:1,y:'q r',z:!n)");
}

#[test]
fn map_entry_order_does_not_matter() {
    let one = Value::Mapping(vec![(text("k1"), Value::I32(1)), (text("k2"), Value::I32(2)), (Value::U8(3), Value::Bool(true))]);
    let two = Value::Mapping(vec![(Value::U8(3), Value::Bool(true)), (text("k2"), Value::I32(2)), (text("k1"), Value::I32(1))]);
    assert_eq!(encode(one), "(3:!t,k1:1,k2:2)");
    assert_eq!(encode(two), "(3:!t,k1:1,k2:2)");
}

#[test]
fn empty_objects() {
    assert_eq!(encode(Value::Mapping(Vec::new())), "()");
    assert_eq!(encode(record(Vec::new())), "()");
    let v = Value::StructVariant {
        name: "E".to_owned(),
        variant_index: 0,
        variant: "V".to_owned(),
        fields: Vec::new(),
    };
    assert_eq!(encode(v), "(V:())");
}

#[test]
fn struct_variant_closes_twice() {
    let v = Value::StructVariant {
        name: "Shape".to_owned(),
        variant_index: 1,
        variant: "Rect".to_owned(),
        fields: vec![("w".to_owned(), Value::U8(2)), ("h".to_owned(), Value::U8(1))],
    };
    assert_eq!(encode(v), "(Rect:(h:1,w:2))");
}

#[test]
fn keys_are_ordered_by_their_bytes() {
    let v = record(vec![("b", Value::U8(0)), ("B", Value::U8(0)), ("a", Value::U8(0)), ("é", Value::U8(0)), ("ab", Value::U8(0)), ("z", Value::U8(0))]);
    assert_eq!(encode(v), "(B:0,a:0,ab:0,b:0,z:0,é:0)");
}

#[test]
fn keys_are_ordered_in_their_written_form() {
    let v = Value::Mapping(vec![
        (Value::I32(10), text("ten")),
        (Value::I32(9), text("nine")),
        (Value::I32(-1), text("minus")),
        (text("a b"), text("quoted")),
        (text("a"), text("bare")),
    ]);
    assert_eq!(encode(v), "('a b':quoted,-1:minus,10:ten,9:nine,a:bare)");
}

#[test]
fn struct_names_are_written_as_text_not_as_keys() {
    let v = record(vec![("1st", Value::U8(1)), ("two words", Value::U8(2)), ("", Value::U8(3))]);
    assert_eq!(encode(v), "('':3,'1st':1,'two words':2)");
}

#[test]
fn a_later_entry_replaces_an_earlier_one_with_the_same_key() {
    let v = Value::Mapping(vec![(text("k"), Value::U8(1)), (text("j"), Value::U8(0)), (text("k"), Value::U8(2))]);
    assert_eq!(encode(v), "(j:0,k:2)");
    let v = Value::Mapping(vec![(Value::U8(1), text("number")), (text("1"), text("text"))]);
    assert_eq!(encode(v), "('1':text,1:number)");
    let v = Value::Mapping(vec![(Value::U8(1), text("narrow")), (Value::I64(1), text("wide"))]);
    assert_eq!(encode(v), "(1:wide)");
}

#[test]
fn scalar_keys_are_accepted() {
    let keys = vec![
        (Value::I8(-1), "-1"),
        (Value::I16(-2), "-2"),
        (Value::I32(-3), "-3"),
        (Value::I64(-4), "-4"),
        (Value::I128(-5), "-5"),
        (Value::U8(1), "1"),
        (Value::U16(2), "2"),
        (Value::U32(3), "3"),
        (Value::U64(4), "4"),
        (Value::U128(5), "5"),
        (Value::Char('c'), "c"),
        (Value::Char(':'), "':'"),
        (text("key"), "key"),
        (text(""), "''"),
        (Value::UnitVariant { name: "E".to_owned(), variant_index: 0, variant: "V".to_owned() }, "V"),
        (Value::NewtypeStruct { name: "Id".to_owned(), value: Box::new(Value::U32(7)) }, "7"),
    ];
    for (key, written) in keys {
        let out = encode(Value::Mapping(vec![(key, Value::Unit)]));
        assert_eq!(out, format!("({}:!n)", written));
    }
}

#[test]
fn other_keys_are_refused() {
    let keys = vec![
        Value::Bool(true),
        Value::F32 { bits32: 1.0f32.to_bits(), shortest: "1.0".to_owned() },
        Value::F64 { bits64: 1.0f64.to_bits(), shortest: "1.0".to_owned() },
        Value::Bytes(vec![1]),
        Value::OptionNone,
        Value::OptionSome(Box::new(text("k"))),
        Value::Unit,
        Value::UnitStruct { name: "U".to_owned() },
        Value::NewtypeVariant { name: "E".to_owned(), variant_index: 0, variant: "V".to_owned(), value: Box::new(text("k")) },
        Value::Sequence(Vec::new()),
        Value::Tuple(vec![text("k")]),
        Value::TupleStruct { name: "T".to_owned(), elements: Vec::new() },
        Value::TupleVariant { name: "E".to_owned(), variant_index: 0, variant: "V".to_owned(), elements: Vec::new() },
        Value::Mapping(Vec::new()),
        Value::Struct { name: "S".to_owned(), fields: Vec::new() },
        Value::StructVariant { name: "E".to_owned(), variant_index: 0, variant: "V".to_owned(), fields: Vec::new() },
        Value::NewtypeStruct { name: "N".to_owned(), value: Box::new(Value::Bool(false)) },
    ];
    for key in keys {
        assert!(is_key_error(to_string(&Value::Mapping(vec![(key, Value::Unit)]))));
    }
}

#[test]
fn a_refused_key_fails_the_whole_value() {
    let bad = Value::Mapping(vec![(text("fine"), Value::U8(1)), (Value::Bool(true), Value::U8(2))]);
    let nested = Value::Sequence(vec![Value::U8(1), record(vec![("inner", bad)])]);
    assert!(is_key_error(to_string(&nested)));
    let in_variant = Value::NewtypeVariant {
        name: "E".to_owned(),
        variant_index: 0,
        variant: "V".to_owned(),
        value: Box::new(Value::Mapping(vec![(Value::Unit, Value::Unit)])),
    };
    assert!(is_key_error(to_string(&in_variant)));
    let as_value = Value::Mapping(vec![(text("k"), Value::Mapping(vec![(Value::OptionNone, Value::Unit)]))]);
    assert!(is_key_error(to_string(&as_value)));
}

#[test]
fn values_nest_inside_objects() {
    let v = record(vec![
        ("list", Value::Sequence(ints(&[1, 2]))),
        ("inner", record(vec![("z", Value::Bool(false)), ("a", Value::OptionNone)])),
        ("name", text("it's")),
    ]);
    assert_eq!(encode(v), "(inner:(a:!n,z:!f),list:!(1,2),name:'it!'s')");
}
