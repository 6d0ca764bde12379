use std::cmp::Ordering;
use toml_tree::date_time::DateTime;
use toml_tree::number::{Float, Integer, Number};
use toml_tree::quotes::{Quoted, Quotes};
use toml_tree::value::{Array, Item, Primitive, Shape, Table, Value};

fn table(pairs: Vec<(&str, Value)>) -> Value {
    Value::from_pairs(pairs.into_iter().map(|(key, value)| (key.to_string(), value)).collect())
}

fn float(value: f64) -> Float {
    Float::Decimal(Number { bits: value.to_bits(), text: format!("{}", value) })
}

#[test]
fn value_test() {
    let a = Primitive::Boolean(true);
    let b = Primitive::Integer(Integer::Decimal(9));
    assert_eq!(a.partial_cmp(&b), None);
    let a = Primitive::Integer(Integer::Decimal(9));
    let b = Primitive::Integer(Integer::Hex(9));
    assert_eq!(a.partial_cmp(&b), Some(Ordering::Equal));
    let a = Primitive::Integer(Integer::Decimal(9));
    let b = Primitive::Integer(Integer::Hex(8));
    assert_eq!(a.partial_cmp(&b), Some(Ordering::Greater));
    let a = Primitive::Integer(Integer::Decimal(9));
    let b = Primitive::Integer(Integer::Hex(10));
    assert_eq!(a.partial_cmp(&b), Some(Ordering::Less));

    println!("0: {:?}", a.partial_cmp(&b));
}

#[test]
fn value_array() {
    let value = Value::from_values(vec![Value::from(true), Value::from(true)]);
    println!("0: {:?}", value.index_at(0));
    println!("1: {:?}", value.index_at(1));
    assert_eq!(value.index_at(0).value, Value::from(true));
    assert_eq!(value.index_at(1).value, Value::from(true));
}

#[test]
fn value_table() {
    let value = table(vec![("a", Value::from(true)), ("b", Value::from(true))]);
    println!("a: {:?}", value.index("a"));
    println!("b: {:?}", value.index("b"));
    assert_eq!(value.index("a").value, Value::from(true));
    assert_eq!(value.index("b").value, Value::from(true));
}

#[test]
fn value_lookup() {
    let value = table(vec![("a", Value::from(1)), ("b", Value::from(2))]);
    assert_eq!(value.get("b").map(|item| &item.value), Some(&Value::from(2)));
    assert_eq!(value.get("c"), None);
    assert_eq!(value.get_index(0), None);
    let array = Value::from_values(vec![Value::from(1), Value::from(2)]);
    assert_eq!(array.get_index(1).map(|item| &item.value), Some(&Value::from(2)));
    assert_eq!(array.get_index(2), None);
    assert_eq!(array.get("a"), None);
    assert_eq!(Value::from(1).get("a"), None);
    assert_eq!(Value::from(1).get_index(0), None);
}

#[test]
fn value_kinds() {
    let string = Value::from("text".to_string());
    let integer = Value::from(7);
    let float_value = Value::from(float(1.5));
    let boolean = Value::from(false);
    let date_time = Value::from(DateTime::new(0, 0, 0).unwrap());
    let array = Value::from_values(vec![]);
    let table_value = Value::from(Table::new());
    let all = [&string, &integer, &float_value, &boolean, &date_time, &array, &table_value];
    let names = ["string", "integer", "float", "boolean", "datetime", "array", "table"];
    for (i, value) in all.iter().enumerate() {
        assert_eq!(value.type_str(), names[i]);
        assert_eq!(value.is_string(), i == 0);
        assert_eq!(value.is_integer(), i == 1);
        assert_eq!(value.is_float(), i == 2);
        assert_eq!(value.is_boolean(), i == 3);
        assert_eq!(value.is_date_time(), i == 4);
        assert_eq!(value.is_array(), i == 5);
        assert_eq!(value.is_table(), i == 6);
        assert_eq!(value.is_primitive(), i < 5);
        assert_eq!(value.as_string().is_some(), i == 0);
        assert_eq!(value.as_integer().is_some(), i == 1);
        assert_eq!(value.as_float().is_some(), i == 2);
        assert_eq!(value.as_boolean().is_some(), i == 3);
        assert_eq!(value.as_date_time().is_some(), i == 4);
        assert_eq!(value.as_array().is_some(), i == 5);
        assert_eq!(value.as_table().is_some(), i == 6);
        assert_eq!(value.as_primitive().is_some(), i < 5);
        assert_eq!(value.same_type(&integer), i < 5);
        assert_eq!(value.same_type(&array), i == 5);
        assert_eq!(value.same_type(&table_value), i == 6);
    }
    assert_eq!(integer.shape(), Shape::Primitive);
    assert_eq!(array.shape(), Shape::Array);
    assert_eq!(table_value.shape(), Shape::Table);
}

#[test]
fn value_parts() {
    assert_eq!(Value::from(true).as_boolean(), Some(&true));
    assert_eq!(Value::from(3).as_integer(), Some(&Integer::Decimal(3)));
    assert_eq!(
        Value::from("a".to_string()).as_string(),
        Some(&Quoted::SingleLine(Quotes::Single("a".to_string())))
    );
    assert_eq!(
        Value::from("it's\n".to_string()).as_string(),
        Some(&Quoted::MultiLine(Quotes::Double("it's\n".to_string())))
    );
    assert_eq!(Value::from(Integer::Hex(3)).as_primitive(), Some(&Primitive::Integer(Integer::Hex(3))));
    assert_eq!(Value::from(Primitive::Boolean(true)), Value::from(true));
    assert_eq!(Value::from(Table::new()).into_table(), Some(Table::new()));
    assert_eq!(Value::from(1).into_table(), None);
    assert_eq!(Value::from(Array::new()), Value::from(Vec::<Item>::new()));
}

#[test]
fn value_parts_for_change() {
    let mut value = Value::from_values(vec![Value::from(1)]);
    value.as_array_mut().unwrap().push(Item::of(Value::from(2)));
    assert_eq!(value, Value::from_values(vec![Value::from(1), Value::from(2)]));
    assert!(value.as_table_mut().is_none());
    let mut value = Value::from(Table::new());
    value.as_table_mut().unwrap().insert("a".to_string(), Item::of(Value::from(1)));
    assert_eq!(value, table(vec![("a", Value::from(1))]));
    assert!(value.as_array_mut().is_none());
    assert!(Value::from(1).as_array_mut().is_none());
}

#[test]
fn array_items() {
    let mut array = Array::new();
    assert!(array.is_empty());
    assert_eq!(array.get(0), None);
    array.push(Item::of(Value::from(1)));
    array.push(Item::of(Value::from(2)));
    assert_eq!(array.len(), 2);
    assert_eq!(array.get(1).map(|item| &item.value), Some(&Value::from(2)));
    assert_eq!(array.get(2), None);
    assert_eq!(array, Array::from_values(vec![Value::from(1), Value::from(2)]));
    assert_eq!(array.clone(), array);
}

#[test]
fn table_entries_keep_their_order() {
    let mut table = Table::new();
    assert!(table.is_empty());
    assert_eq!(table.len(), 0);
    assert_eq!(table.get_index(0), None);
    assert_eq!(table.insert("b".to_string(), Item::of(Value::from(1))), None);
    assert_eq!(table.insert("a".to_string(), Item::of(Value::from(2))), None);
    assert_eq!(table.insert("c".to_string(), Item::of(Value::from(3))), None);
    assert_eq!(table.len(), 3);
    assert!(!table.is_empty());
    let keys: Vec<&str> = (0..3).map(|i| table.get_index(i).unwrap().0.as_str()).collect();
    assert_eq!(keys, ["b", "a", "c"]);
    assert_eq!(table.get_index(1).unwrap().1.value, Value::from(2));
    assert_eq!(table.get_index(3), None);
    assert!(table.contains_key("a"));
    assert!(!table.contains_key("d"));
    assert_eq!(table.get("c").map(|item| &item.value), Some(&Value::from(3)));
    assert_eq!(table.get("d"), None);
}

#[test]
fn table_insert_replaces_in_place() {
    let mut table = Table::from_pairs(vec![
        ("b".to_string(), Value::from(1)),
        ("a".to_string(), Value::from(2)),
        ("c".to_string(), Value::from(3)),
    ]);
    assert_eq!(
        table.insert("a".to_string(), Item::of(Value::from(20))),
        Some(Item::of(Value::from(2)))
    );
    assert_eq!(table.len(), 3);
    let entries = table.clone().into_entries();
    assert_eq!(
        entries,
        vec![
            ("b".to_string(), Item::of(Value::from(1))),
            ("a".to_string(), Item::of(Value::from(20))),
            ("c".to_string(), Item::of(Value::from(3))),
        ]
    );
    assert_eq!(
        Table::from_pairs(vec![
            ("x".to_string(), Value::from(1)),
            ("y".to_string(), Value::from(2)),
            ("x".to_string(), Value::from(3)),
        ])
        .into_entries(),
        vec![
            ("x".to_string(), Item::of(Value::from(3))),
            ("y".to_string(), Item::of(Value::from(2))),
        ]
    );
}

#[test]
fn table_get_mut_changes_in_place() {
    let mut table = Table::from_pairs(vec![
        ("a".to_string(), Value::from(1)),
        ("b".to_string(), Value::from(2)),
    ]);
    table.get_mut("a").unwrap().value = Value::from(10);
    assert!(table.get_mut("z").is_none());
    assert_eq!(
        table.into_entries(),
        vec![
            ("a".to_string(), Item::of(Value::from(10))),
            ("b".to_string(), Item::of(Value::from(2))),
        ]
    );
    assert_eq!(Table::default(), Table::new());
}

#[test]
fn integer_texts() {
    assert_eq!(Integer::Decimal(0).to_string(), "0");
    assert_eq!(Integer::Decimal(9).to_string(), "9");
    assert_eq!(Integer::Decimal(10).to_string(), "10");
    assert_eq!(Integer::Decimal(-1).to_string(), "-1");
    assert_eq!(Integer::Decimal(1234567890).to_string(), "1234567890");
    assert_eq!(Integer::Decimal(i64::MAX).to_string(), "9223372036854775807");
    assert_eq!(Integer::Decimal(i64::MIN).to_string(), "-9223372036854775808");
    assert_eq!(Integer::Binary(0).to_string(), "0b0");
    assert_eq!(Integer::Binary(5).to_string(), "0b101");
    assert_eq!(Integer::Octal(8).to_string(), "0o10");
    assert_eq!(Integer::Octal(0o777).to_string(), "0o777");
    assert_eq!(Integer::Hex(255).to_string(), "0xff");
    assert_eq!(Integer::Hex(0xdead_beef).to_string(), "0xdeadbeef");
    for value in [0i64, 1, -1, 2, -2, 255, -255, 1 << 40, i64::MAX, i64::MIN] {
        assert_eq!(Integer::Decimal(value).to_string(), format!("{}", value));
        assert_eq!(Integer::Binary(value).to_string(), format!("{:#b}", value));
        assert_eq!(Integer::Octal(value).to_string(), format!("{:#o}", value));
        assert_eq!(Integer::Hex(value).to_string(), format!("{:#x}", value));
    }
}

#[test]
fn integers_are_equal_by_value() {
    assert_eq!(Integer::Decimal(9), Integer::Hex(9));
    assert_eq!(Integer::Binary(-3), Integer::Octal(-3));
    assert_ne!(Integer::Decimal(9), Integer::Decimal(8));
    assert_eq!(Integer::from(4), Integer::Decimal(4));
    assert!(matches!(Integer::from(4), Integer::Decimal(4)));
    assert_eq!(i64::from(Integer::Octal(-4)), -4);
    assert_eq!(Integer::Hex(6).value(), 6);
    assert!(Integer::Hex(6) < Integer::Binary(7));
    assert!(Integer::Hex(-6) > Integer::Binary(-7));
    assert_eq!(Integer::Hex(i64::MIN).partial_cmp(&Integer::Octal(i64::MAX)), Some(Ordering::Less));
}

#[test]
fn floats_compare_as_numbers() {
    let values = [
        0.0,
        -0.0,
        1.0,
        -1.0,
        1.5,
        -1.5,
        f64::MIN_POSITIVE,
        -f64::MIN_POSITIVE,
        5e-324,
        -5e-324,
        f64::MAX,
        f64::MIN,
        f64::INFINITY,
        f64::NEG_INFINITY,
        f64::NAN,
        -f64::NAN,
        3.25e10,
        1e-10,
    ];
    for a in values {
        for b in values {
            assert_eq!(float(a).partial_cmp(&float(b)), a.partial_cmp(&b), "{} and {}", a, b);
            assert_eq!(float(a) == float(b), a == b, "{} and {}", a, b);
        }
    }
}

#[test]
fn floats_are_written_as_given() {
    let decimal = Float::Decimal(Number { bits: 1.5f64.to_bits(), text: "1.5".to_string() });
    let scientific = Float::Scientific(Number { bits: 1.5f64.to_bits(), text: "1.5e0".to_string() });
    assert_eq!(decimal.to_string(), "1.5");
    assert_eq!(scientific.to_string(), "1.5e0");
    assert_eq!(decimal, scientific);
    assert_eq!(decimal.bits(), 1.5f64.to_bits());
    assert_eq!(scientific.number().text, "1.5e0");
}

#[test]
fn date_times_are_written_by_chrono() {
    let samples = [
        (0i64, 0u32, 0i32),
        (1_700_000_000, 123_456_789, 3600),
        (1_431_655_200, 0, -5 * 3600),
        (-1, 999_999_999, 5 * 3600 + 1800),
        (951_782_399, 1_500_000_000, 0),
        (253_402_300_799, 0, 86_399),
        (-62_167_219_200, 0, -86_399),
    ];
    for (seconds, nanoseconds, offset) in samples {
        let date_time = DateTime::new(seconds, nanoseconds, offset).unwrap();
        let expected = chrono::DateTime::from_timestamp(seconds, nanoseconds)
            .unwrap()
            .with_timezone(&chrono::FixedOffset::east_opt(offset).unwrap());
        assert_eq!(date_time.to_string(), expected.to_string());
        assert_eq!(date_time.seconds(), seconds);
        assert_eq!(date_time.nanoseconds(), nanoseconds);
        assert_eq!(date_time.offset(), offset);
    }
    assert_eq!(DateTime::new(0, 0, 0).unwrap().to_string(), "1970-01-01 00:00:00 +00:00");
    assert_eq!(
        DateTime::new(1_431_655_200, 0, -3600).unwrap().to_string(),
        "2015-05-15 01:00:00 -01:00"
    );
}

#[test]
fn date_times_out_of_range() {
    assert_eq!(DateTime::new(0, 0, 86_400), None);
    assert_eq!(DateTime::new(0, 0, -86_400), None);
    assert_eq!(DateTime::new(i64::MAX, 0, 0), None);
    assert_eq!(DateTime::new(i64::MIN, 0, 0), None);
    assert_eq!(DateTime::new(0, 2_000_000_000, 0), None);
    assert_eq!(DateTime::new(0, 1_000_000_000, 0), None);
    assert!(DateTime::new(59, 1_000_000_000, 0).is_some());
}

#[test]
fn date_times_compare_as_instants() {
    let a = DateTime::new(1000, 5, 0).unwrap();
    let b = DateTime::new(1000, 5, 7200).unwrap();
    let c = DateTime::new(1000, 6, -3600).unwrap();
    let d = DateTime::new(999, 7, 0).unwrap();
    assert_eq!(a, b);
    assert_ne!(a, c);
    assert_eq!(a.partial_cmp(&b), Some(Ordering::Equal));
    assert_eq!(a.partial_cmp(&c), Some(Ordering::Less));
    assert_eq!(c.partial_cmp(&a), Some(Ordering::Greater));
    assert_eq!(a.partial_cmp(&d), Some(Ordering::Greater));
    assert_eq!(d.partial_cmp(&c), Some(Ordering::Less));
    assert_eq!(a.clone(), a);
}

#[test]
fn primitive_texts() {
    assert_eq!(Primitive::Boolean(true).to_string(), "true");
    assert_eq!(Primitive::Boolean(false).to_string(), "false");
    assert_eq!(Primitive::Integer(Integer::Hex(26)).to_string(), "0x1a");
    assert_eq!(Primitive::Float(float(2.5)).to_string(), "2.5");
    assert_eq!(Primitive::String(Quoted::new("it's".to_string())).to_string(), "\"it's\"");
    assert_eq!(
        Primitive::DateTime(DateTime::new(0, 0, 3600).unwrap()).to_string(),
        "1970-01-01 01:00:00 +01:00"
    );
}

fn string(quoted: Quoted<String>) -> Primitive {
    Primitive::String(quoted)
}

#[test]
fn primitives_of_one_type_are_ordered() {
    assert_eq!(
        Primitive::Boolean(false).partial_cmp(&Primitive::Boolean(true)),
        Some(Ordering::Less)
    );
    assert_eq!(
        Primitive::Boolean(true).partial_cmp(&Primitive::Boolean(false)),
        Some(Ordering::Greater)
    );
    assert_eq!(
        Primitive::Boolean(true).partial_cmp(&Primitive::Boolean(true)),
        Some(Ordering::Equal)
    );
    assert_eq!(
        Primitive::Float(float(1.0)).partial_cmp(&Primitive::Float(float(2.0))),
        Some(Ordering::Less)
    );
    assert_eq!(
        Primitive::Float(float(f64::NAN)).partial_cmp(&Primitive::Float(float(2.0))),
        None
    );
    assert_eq!(
        Primitive::DateTime(DateTime::new(1, 0, 0).unwrap())
            .partial_cmp(&Primitive::DateTime(DateTime::new(0, 0, 0).unwrap())),
        Some(Ordering::Greater)
    );
    let quotings: [fn(String) -> Quoted<String>; 4] = [
        |s| Quoted::SingleLine(Quotes::Single(s)),
        |s| Quoted::SingleLine(Quotes::Double(s)),
        |s| Quoted::MultiLine(Quotes::Single(s)),
        |s| Quoted::MultiLine(Quotes::Double(s)),
    ];
    let texts = ["", "a", "ab", "b", "B", "\u{e9}", "\u{1F600}", "a\u{0}"];
    for (i, quote_a) in quotings.iter().enumerate() {
        for (j, quote_b) in quotings.iter().enumerate() {
            for a in texts {
                for b in texts {
                    let left = quote_a(a.to_string());
                    let right = quote_b(b.to_string());
                    assert_eq!(
                        string(left.clone()).partial_cmp(&string(right.clone())),
                        left.partial_cmp(&right),
                        "{} {:?} and {} {:?}", i, a, j, b
                    );
                }
            }
        }
    }
}

#[test]
fn primitives_of_different_types_have_no_order() {
    let all = [
        Primitive::String(Quoted::new("a".to_string())),
        Primitive::Integer(Integer::Decimal(1)),
        Primitive::Float(float(1.0)),
        Primitive::Boolean(true),
        Primitive::DateTime(DateTime::new(1, 0, 0).unwrap()),
    ];
    for (i, a) in all.iter().enumerate() {
        for (j, b) in all.iter().enumerate() {
            assert_eq!(a.partial_cmp(b).is_some(), i == j);
        }
    }
}

#[test]
fn item_lookup() {
    let item = Item::of(table(vec![("a", Value::from(1))]));
    assert_eq!(item.get("a").map(|found| &found.value), Some(&Value::from(1)));
    assert_eq!(item.get("b"), None);
    assert_eq!(item.get_index(0), None);
    let item = Item::of(Value::from_values(vec![Value::from(1)]));
    assert_eq!(item.get_index(0).map(|found| &found.value), Some(&Value::from(1)));
    assert_eq!(item.get_index(1), None);
    assert_eq!(item.get("a"), None);
}
