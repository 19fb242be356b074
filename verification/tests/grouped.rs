//! Direct decoding through the engine, without record adapters.

use collectd_plugin::ConfigItem;
use collectd_plugin::ConfigValue;
use collectd_plugin::DeConfig;
use collectd_plugin::Decode;
use collectd_plugin::Deserializer;
use collectd_plugin::Error;
use collectd_plugin::Number;
use collectd_plugin::from_collectd;
use collectd_plugin::from_config;

fn num(x: f64) -> Number {
    Number {
        bits: x.to_bits(),
        signed: x as i64,
        unsigned: x as u64,
    }
}

fn item(key: &str, values: Vec<ConfigValue>, children: Vec<ConfigItem>) -> ConfigItem {
    ConfigItem {
        key: key.to_string(),
        values,
        children,
    }
}

#[derive(PartialEq, Eq, Debug)]
struct MyStruct {
    my_bool: bool,
}

impl Decode for MyStruct {
    fn decode(de: &mut Deserializer) -> Result<Self, Error> {
        let mut fields = de.deserialize_struct()?;
        let mut my_bool = None;
        while let Some(key) = fields.next_key(de)? {
            match key.as_str() {
                "my_bool" => my_bool = Some(bool::decode(de)?),
                _ => {}
            }
        }
        fields.finish(de);
        match my_bool {
            Some(b) => Ok(MyStruct { my_bool: b }),
            None => panic!("field my_bool missing"),
        }
    }
}

#[test]
fn simple_bool() {
    let items = vec![item("my_bool", vec![ConfigValue::Boolean(true)], vec![])];

    let actual = from_collectd(&items).unwrap();
    assert_eq!(MyStruct { my_bool: true }, actual);
}

#[derive(PartialEq, Eq, Debug)]
struct MyIntStruct {
    my_int: i8,
}

impl Decode for MyIntStruct {
    fn decode(de: &mut Deserializer) -> Result<Self, Error> {
        let mut fields = de.deserialize_struct()?;
        let mut my_int = None;
        while let Some(key) = fields.next_key(de)? {
            match key.as_str() {
                "my_int" => my_int = Some(i8::decode(de)?),
                _ => {}
            }
        }
        fields.finish(de);
        match my_int {
            Some(v) => Ok(MyIntStruct { my_int: v }),
            None => panic!("field my_int missing"),
        }
    }
}

#[test]
fn simple_number() {
    let items = vec![item("my_int", vec![ConfigValue::Number(num(1.0))], vec![])];

    let actual = from_collectd(&items).unwrap();
    assert_eq!(MyIntStruct { my_int: 1 }, actual);
}

#[derive(PartialEq, Eq, Debug)]
struct MyTextStruct {
    my_string: String,
}

impl Decode for MyTextStruct {
    fn decode(de: &mut Deserializer) -> Result<Self, Error> {
        let mut fields = de.deserialize_struct()?;
        let mut my_string = None;
        while let Some(key) = fields.next_key(de)? {
            match key.as_str() {
                "my_string" => my_string = Some(String::decode(de)?),
                _ => {}
            }
        }
        fields.finish(de);
        match my_string {
            Some(v) => Ok(MyTextStruct { my_string: v }),
            None => panic!("field my_string missing"),
        }
    }
}

#[test]
fn simple_string() {
    let items = vec![item("my_string", vec![ConfigValue::Text("HEY".to_string())], vec![])];

    let actual = from_collectd(&items).unwrap();
    assert_eq!(
        MyTextStruct {
            my_string: String::from("HEY")
        },
        actual
    );
}

#[test]
fn grouping_merges_repeated_keys_in_order() {
    // Keys [A, B, A]: A appears once, first, with both occurrences'
    // values concatenated in their original order; B keeps its place.
    let items = vec![
        item("A", vec![ConfigValue::Number(num(1.0))], vec![]),
        item("B", vec![ConfigValue::Number(num(2.0))], vec![]),
        item("A", vec![ConfigValue::Number(num(3.0))], vec![]),
    ];

    let grouped = from_config(&items);
    assert_eq!(grouped.len(), 2);
    assert_eq!(grouped[0].key.as_str(), "A");
    assert_eq!(grouped[1].key.as_str(), "B");
    assert_eq!(grouped[0].nodes.len(), 2);
    assert_eq!(grouped[1].nodes.len(), 1);
    match (&grouped[0].nodes[0], &grouped[0].nodes[1], &grouped[1].nodes[0]) {
        (DeConfig::Number(a), DeConfig::Number(b), DeConfig::Number(c)) => {
            assert_eq!(a.signed, 1);
            assert_eq!(b.signed, 3);
            assert_eq!(c.signed, 2);
        }
        _ => panic!("grouped nodes should all be numbers"),
    }
}

#[test]
fn scalars_precede_the_child_block_under_one_key() {
    // One directive carrying both a value and children contributes its
    // scalars first, then the grouped children as one object node.
    let items = vec![item(
        "k",
        vec![ConfigValue::Number(num(5.0))],
        vec![item("port", vec![ConfigValue::Number(num(2003.0))], vec![])],
    )];

    let grouped = from_config(&items);
    assert_eq!(grouped.len(), 1);
    assert_eq!(grouped[0].nodes.len(), 2);
    assert!(matches!(grouped[0].nodes[0], DeConfig::Number(_)));
    match &grouped[0].nodes[1] {
        DeConfig::Object(entries) => {
            assert_eq!(entries.len(), 1);
            assert_eq!(entries[0].key.as_str(), "port");
        }
        _ => panic!("second node should be the child block"),
    }
}
