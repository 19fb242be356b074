//! Decoding of typed records from grouped config trees.

use collectd_plugin::ConfigItem;
use collectd_plugin::ConfigValue;
use collectd_plugin::DeError;
use collectd_plugin::Decode;
use collectd_plugin::Deserializer;
use collectd_plugin::Error;
use collectd_plugin::LogLevel;
use collectd_plugin::Number;
use collectd_plugin::from_collectd;

fn num(x: f64) -> Number {
    Number {
        bits: x.to_bits(),
        signed: x as i64,
        unsigned: x as u64,
    }
}

fn item(key: &str, values: Vec<ConfigValue>, children: Vec<ConfigItem>) -> ConfigItem {
    ConfigItem {
        key: key.to_string(),
        values,
        children,
    }
}

fn text(s: &str) -> ConfigValue {
    ConfigValue::Text(s.to_string())
}

fn missing(field: &str) -> Error {
    Error(DeError::SerdeError(format!("missing field {}", field)))
}

#[test]
fn test_serde_simple_bool() {
    #[derive(PartialEq, Eq, Debug)]
    struct MyStruct {
        my_bool: bool,
    }

    impl Decode for MyStruct {
        fn decode(de: &mut Deserializer) -> Result<Self, Error> {
            let mut fields = de.deserialize_struct()?;
            let mut my_bool = None;
            while let Some(key) = fields.next_key(de)? {
                match key.as_str() {
                    "my_bool" => my_bool = Some(bool::decode(de)?),
                    _ => {}
                }
            }
            fields.finish(de);
            Ok(MyStruct { my_bool: my_bool.ok_or_else(|| missing("my_bool"))? })
        }
    }

    let items = vec![item("my_bool", vec![ConfigValue::Boolean(true)], vec![])];

    let actual = from_collectd(&items).unwrap();
    assert_eq!(MyStruct { my_bool: true }, actual);
}

#[test]
fn test_serde_empty_bool() {
    #[derive(PartialEq, Eq, Debug)]
    struct MyStruct {
        my_bool: Option<bool>,
    }

    impl Decode for MyStruct {
        fn decode(de: &mut Deserializer) -> Result<Self, Error> {
            let mut fields = de.deserialize_struct()?;
            let mut my_bool = None;
            while let Some(key) = fields.next_key(de)? {
                match key.as_str() {
                    "my_bool" => my_bool = Some(bool::decode(de)?),
                    _ => {}
                }
            }
            fields.finish(de);
            Ok(MyStruct { my_bool })
        }
    }

    let actual = from_collectd(&Vec::new()).unwrap();
    assert_eq!(MyStruct { my_bool: None }, actual);
}

#[test]
fn test_serde_simple_number() {
    #[derive(PartialEq, Eq, Debug)]
    struct MyStruct {
        my_int: i8,
    }

    impl Decode for MyStruct {
        fn decode(de: &mut Deserializer) -> Result<Self, Error> {
            let mut fields = de.deserialize_struct()?;
            let mut my_int = None;
            while let Some(key) = fields.next_key(de)? {
                match key.as_str() {
                    "my_int" => my_int = Some(i8::decode(de)?),
                    _ => {}
                }
            }
            fields.finish(de);
            Ok(MyStruct { my_int: my_int.ok_or_else(|| missing("my_int"))? })
        }
    }

    let items = vec![item("my_int", vec![ConfigValue::Number(num(1.0))], vec![])];

    let actual = from_collectd(&items).unwrap();
    assert_eq!(MyStruct { my_int: 1 }, actual);
}

#[test]
fn test_serde_simple_string() {
    #[derive(PartialEq, Eq, Debug)]
    struct MyStruct {
        my_string: String,
    }

    impl Decode for MyStruct {
        fn decode(de: &mut Deserializer) -> Result<Self, Error> {
            let mut fields = de.deserialize_struct()?;
            let mut my_string = None;
            while let Some(key) = fields.next_key(de)? {
                match key.as_str() {
                    "my_string" => my_string = Some(String::decode(de)?),
                    _ => {}
                }
            }
            fields.finish(de);
            Ok(MyStruct { my_string: my_string.ok_or_else(|| missing("my_string"))? })
        }
    }

    let items = vec![item("my_string", vec![text("HEY")], vec![])];

    let actual = from_collectd(&items).unwrap();
    assert_eq!(
        MyStruct {
            my_string: String::from("HEY"),
        },
        actual
    );
}

#[test]
fn test_serde_simple_str() {
    // The engine hands strings out as owned values; the borrowed-slice
    // record of the original keeps its inputs and expected text here.
    #[derive(PartialEq, Eq, Debug)]
    struct MyStruct {
        my_string: String,
    }

    impl Decode for MyStruct {
        fn decode(de: &mut Deserializer) -> Result<Self, Error> {
            let mut fields = de.deserialize_struct()?;
            let mut my_string = None;
            while let Some(key) = fields.next_key(de)? {
                match key.as_str() {
                    "my_string" => my_string = Some(String::decode(de)?),
                    _ => {}
                }
            }
            fields.finish(de);
            Ok(MyStruct { my_string: my_string.ok_or_else(|| missing("my_string"))? })
        }
    }

    let items = vec![item("my_string", vec![text("HEY")], vec![])];

    let actual: MyStruct = from_collectd(&items).unwrap();
    assert_eq!(actual.my_string.as_str(), "HEY");
}

#[test]
fn test_serde_multiple() {
    #[derive(PartialEq, Eq, Debug)]
    struct MyStruct {
        my_bool: bool,
        my_string: String,
    }

    impl Decode for MyStruct {
        fn decode(de: &mut Deserializer) -> Result<Self, Error> {
            let mut fields = de.deserialize_struct()?;
            let mut my_bool = None;
            let mut my_string = None;
            while let Some(key) = fields.next_key(de)? {
                match key.as_str() {
                    "my_bool" => my_bool = Some(bool::decode(de)?),
                    "my_string" => my_string = Some(String::decode(de)?),
                    _ => {}
                }
            }
            fields.finish(de);
            Ok(MyStruct {
                my_bool: my_bool.ok_or_else(|| missing("my_bool"))?,
                my_string: my_string.ok_or_else(|| missing("my_string"))?,
            })
        }
    }

    let items = vec![
        item("my_bool", vec![ConfigValue::Boolean(true)], vec![]),
        item("my_string", vec![text("/")], vec![]),
    ];

    let actual = from_collectd(&items).unwrap();
    assert_eq!(
        MyStruct {
            my_bool: true,
            my_string: String::from("/"),
        },
        actual
    );
}

#[test]
fn test_serde_bool_vec() {
    #[derive(PartialEq, Eq, Debug)]
    struct MyStruct {
        my_bool: Vec<bool>,
    }

    impl Decode for MyStruct {
        fn decode(de: &mut Deserializer) -> Result<Self, Error> {
            let mut fields = de.deserialize_struct()?;
            let mut my_bool = None;
            while let Some(key) = fields.next_key(de)? {
                match key.as_str() {
                    "my_bool" => my_bool = Some(Vec::<bool>::decode(de)?),
                    _ => {}
                }
            }
            fields.finish(de);
            Ok(MyStruct { my_bool: my_bool.ok_or_else(|| missing("my_bool"))? })
        }
    }

    let items = vec![item(
        "my_bool",
        vec![ConfigValue::Boolean(true), ConfigValue::Boolean(false)],
        vec![],
    )];

    let actual = from_collectd(&items).unwrap();
    assert_eq!(
        MyStruct {
            my_bool: vec![true, false],
        },
        actual
    );
}

#[test]
fn test_serde_bool_vec_sep() {
    #[derive(PartialEq, Eq, Debug)]
    struct MyStruct {
        my_bool: Vec<bool>,
    }

    impl Decode for MyStruct {
        fn decode(de: &mut Deserializer) -> Result<Self, Error> {
            let mut fields = de.deserialize_struct()?;
            let mut my_bool = None;
            while let Some(key) = fields.next_key(de)? {
                match key.as_str() {
                    "my_bool" => my_bool = Some(Vec::<bool>::decode(de)?),
                    _ => {}
                }
            }
            fields.finish(de);
            Ok(MyStruct { my_bool: my_bool.ok_or_else(|| missing("my_bool"))? })
        }
    }

    let items = vec![
        item("my_bool", vec![ConfigValue::Boolean(true)], vec![]),
        item("my_bool", vec![ConfigValue::Boolean(false)], vec![]),
    ];

    let actual = from_collectd(&items).unwrap();
    assert_eq!(
        MyStruct {
            my_bool: vec![true, false],
        },
        actual
    );
}

#[test]
fn test_serde_multiple_vec() {
    #[derive(PartialEq, Debug)]
    struct MyStruct {
        my_bool: Vec<bool>,
        my_num: Vec<f64>,
    }

    impl Decode for MyStruct {
        fn decode(de: &mut Deserializer) -> Result<Self, Error> {
            let mut fields = de.deserialize_struct()?;
            let mut my_bool = None;
            let mut my_num = None;
            while let Some(key) = fields.next_key(de)? {
                match key.as_str() {
                    "my_bool" => my_bool = Some(Vec::<bool>::decode(de)?),
                    "my_num" => {
                        let raw = Vec::<Number>::decode(de)?;
                        my_num = Some(raw.iter().map(|n| f64::from_bits(n.bits)).collect());
                    }
                    _ => {}
                }
            }
            fields.finish(de);
            Ok(MyStruct {
                my_bool: my_bool.ok_or_else(|| missing("my_bool"))?,
                my_num: my_num.ok_or_else(|| missing("my_num"))?,
            })
        }
    }

    let items = vec![
        item("my_bool", vec![ConfigValue::Boolean(true)], vec![]),
        item("my_bool", vec![ConfigValue::Boolean(false)], vec![]),
        item(
            "my_num",
            vec![ConfigValue::Number(num(10.0)), ConfigValue::Number(num(12.0))],
            vec![],
        ),
    ];

    let actual = from_collectd(&items).unwrap();
    assert_eq!(
        MyStruct {
            my_bool: vec![true, false],
            my_num: vec![10.0, 12.0],
        },
        actual
    );
}

#[test]
fn test_serde_options() {
    #[derive(PartialEq, Eq, Debug)]
    struct MyStruct {
        my_bool: Option<bool>,
        my_string: Option<String>,
    }

    impl Decode for MyStruct {
        fn decode(de: &mut Deserializer) -> Result<Self, Error> {
            let mut fields = de.deserialize_struct()?;
            let mut my_bool = None;
            let mut my_string = None;
            while let Some(key) = fields.next_key(de)? {
                match key.as_str() {
                    "my_bool" => my_bool = Option::<bool>::decode(de)?,
                    "my_string" => my_string = Option::<String>::decode(de)?,
                    _ => {}
                }
            }
            fields.finish(de);
            Ok(MyStruct { my_bool, my_string })
        }
    }

    let items = vec![item("my_bool", vec![ConfigValue::Boolean(true)], vec![])];

    let actual = from_collectd(&items).unwrap();
    assert_eq!(
        MyStruct {
            my_bool: Some(true),
            my_string: None,
        },
        actual
    );
}

#[test]
fn test_serde_log_level() {
    #[derive(PartialEq, Eq, Debug)]
    struct MyStruct {
        warn: LogLevel,
        warning: LogLevel,
        err: LogLevel,
        error: LogLevel,
        debug: LogLevel,
        info: LogLevel,
        notice: LogLevel,
    }

    impl Decode for MyStruct {
        fn decode(de: &mut Deserializer) -> Result<Self, Error> {
            let mut fields = de.deserialize_struct()?;
            let mut warn = None;
            let mut warning = None;
            let mut err = None;
            let mut error = None;
            let mut debug = None;
            let mut info = None;
            let mut notice = None;
            while let Some(key) = fields.next_key(de)? {
                match key.as_str() {
                    "warn" => warn = Some(LogLevel::decode(de)?),
                    "warning" => warning = Some(LogLevel::decode(de)?),
                    "err" => err = Some(LogLevel::decode(de)?),
                    "error" => error = Some(LogLevel::decode(de)?),
                    "debug" => debug = Some(LogLevel::decode(de)?),
                    "info" => info = Some(LogLevel::decode(de)?),
                    "notice" => notice = Some(LogLevel::decode(de)?),
                    _ => {}
                }
            }
            fields.finish(de);
            Ok(MyStruct {
                warn: warn.ok_or_else(|| missing("warn"))?,
                warning: warning.ok_or_else(|| missing("warning"))?,
                err: err.ok_or_else(|| missing("err"))?,
                error: error.ok_or_else(|| missing("error"))?,
                debug: debug.ok_or_else(|| missing("debug"))?,
                info: info.ok_or_else(|| missing("info"))?,
                notice: notice.ok_or_else(|| missing("notice"))?,
            })
        }
    }

    let items = vec![
        item("warn", vec![text("warn")], vec![]),
        item("warning", vec![text("Warning")], vec![]),
        item("err", vec![text("ErR")], vec![]),
        item("error", vec![text("Error")], vec![]),
        item("debug", vec![text("debug")], vec![]),
        item("info", vec![text("INFO")], vec![]),
        item("notice", vec![text("notice")], vec![]),
    ];

    let actual = from_collectd(&items).unwrap();
    assert_eq!(
        MyStruct {
            warn: LogLevel::Warning,
            warning: LogLevel::Warning,
            err: LogLevel::Error,
            error: LogLevel::Error,
            debug: LogLevel::Debug,
            info: LogLevel::Info,
            notice: LogLevel::Notice,
        },
        actual
    );
}

#[test]
fn test_serde_char() {
    #[derive(PartialEq, Eq, Debug)]
    struct MyStruct {
        my_char: char,
    }

    impl Decode for MyStruct {
        fn decode(de: &mut Deserializer) -> Result<Self, Error> {
            let mut fields = de.deserialize_struct()?;
            let mut my_char = None;
            while let Some(key) = fields.next_key(de)? {
                match key.as_str() {
                    "my_char" => my_char = Some(char::decode(de)?),
                    _ => {}
                }
            }
            fields.finish(de);
            Ok(MyStruct { my_char: my_char.ok_or_else(|| missing("my_char"))? })
        }
    }

    let items = vec![item("my_char", vec![text("/")], vec![])];

    let actual = from_collectd(&items).unwrap();
    assert_eq!(MyStruct { my_char: '/' }, actual);
}

#[test]
fn test_serde_ignore() {
    #[derive(PartialEq, Eq, Debug)]
    struct MyStruct {
        my_char: char,
    }

    impl Decode for MyStruct {
        fn decode(de: &mut Deserializer) -> Result<Self, Error> {
            let mut fields = de.deserialize_struct()?;
            let mut my_char = None;
            while let Some(key) = fields.next_key(de)? {
                match key.as_str() {
                    "my_char" => my_char = Some(char::decode(de)?),
                    _ => {}
                }
            }
            fields.finish(de);
            Ok(MyStruct { my_char: my_char.ok_or_else(|| missing("my_char"))? })
        }
    }

    let items = vec![
        item("my_char", vec![text("/")], vec![]),
        item("my_boat", vec![text("/")], vec![]),
    ];

    let actual = from_collectd(&items).unwrap();
    assert_eq!(MyStruct { my_char: '/' }, actual);
}

#[test]
fn test_serde_nested() {
    #[derive(PartialEq, Eq, Debug)]
    struct MyPort {
        port: i32,
    }

    impl Decode for MyPort {
        fn decode(de: &mut Deserializer) -> Result<Self, Error> {
            let mut fields = de.deserialize_struct()?;
            let mut port = None;
            while let Some(key) = fields.next_key(de)? {
                match key.as_str() {
                    "port" => port = Some(i32::decode(de)?),
                    _ => {}
                }
            }
            fields.finish(de);
            Ok(MyPort { port: port.ok_or_else(|| missing("port"))? })
        }
    }

    #[derive(PartialEq, Eq, Debug)]
    struct MyStruct {
        ports: Vec<MyPort>,
    }

    impl Decode for MyStruct {
        fn decode(de: &mut Deserializer) -> Result<Self, Error> {
            let mut fields = de.deserialize_struct()?;
            let mut ports = None;
            while let Some(key) = fields.next_key(de)? {
                match key.as_str() {
                    "ports" => ports = Some(Vec::<MyPort>::decode(de)?),
                    _ => {}
                }
            }
            fields.finish(de);
            Ok(MyStruct { ports: ports.ok_or_else(|| missing("ports"))? })
        }
    }

    let items = vec![
        item(
            "ports",
            vec![],
            vec![item("port", vec![ConfigValue::Number(num(2003.0))], vec![])],
        ),
        item(
            "ports",
            vec![],
            vec![item("port", vec![ConfigValue::Number(num(2004.0))], vec![])],
        ),
    ];

    let actual = from_collectd(&items).unwrap();
    assert_eq!(
        MyStruct {
            ports: vec![MyPort { port: 2003 }, MyPort { port: 2004 }],
        },
        actual
    );
}

#[test]
fn test_serde_nested_multiple() {
    #[derive(PartialEq, Eq, Debug)]
    struct MyAddress {
        port: i32,
        host: String,
    }

    impl Decode for MyAddress {
        fn decode(de: &mut Deserializer) -> Result<Self, Error> {
            let mut fields = de.deserialize_struct()?;
            let mut port = None;
            let mut host = None;
            while let Some(key) = fields.next_key(de)? {
                match key.as_str() {
                    "port" => port = Some(i32::decode(de)?),
                    "host" => host = Some(String::decode(de)?),
                    _ => {}
                }
            }
            fields.finish(de);
            Ok(MyAddress {
                port: port.ok_or_else(|| missing("port"))?,
                host: host.ok_or_else(|| missing("host"))?,
            })
        }
    }

    #[derive(PartialEq, Eq, Debug)]
    struct MyStruct {
        address: Vec<MyAddress>,
    }

    impl Decode for MyStruct {
        fn decode(de: &mut Deserializer) -> Result<Self, Error> {
            let mut fields = de.deserialize_struct()?;
            let mut address = None;
            while let Some(key) = fields.next_key(de)? {
                match key.as_str() {
                    "address" => address = Some(Vec::<MyAddress>::decode(de)?),
                    _ => {}
                }
            }
            fields.finish(de);
            Ok(MyStruct { address: address.ok_or_else(|| missing("address"))? })
        }
    }

    let items = vec![
        item(
            "address",
            vec![],
            vec![
                item("port", vec![ConfigValue::Number(num(2003.0))], vec![]),
                item("host", vec![text("localhost")], vec![]),
            ],
        ),
        item(
            "address",
            vec![],
            vec![
                item("host", vec![text("127.0.0.1")], vec![]),
                item("port", vec![ConfigValue::Number(num(2004.0))], vec![]),
            ],
        ),
    ];

    let actual = from_collectd(&items).unwrap();
    assert_eq!(
        MyStruct {
            address: vec![
                MyAddress {
                    host: String::from("localhost"),
                    port: 2003,
                },
                MyAddress {
                    host: String::from("127.0.0.1"),
                    port: 2004,
                },
            ],
        },
        actual
    );
}

#[test]
fn test_serde_new_type() {
    #[derive(PartialEq, Eq, Debug)]
    struct MyNew(String);

    impl Decode for MyNew {
        fn decode(de: &mut Deserializer) -> Result<Self, Error> {
            Ok(MyNew(String::decode(de)?))
        }
    }

    #[derive(PartialEq, Eq, Debug)]
    struct MyStruct {
        it: MyNew,
    }

    impl Decode for MyStruct {
        fn decode(de: &mut Deserializer) -> Result<Self, Error> {
            let mut fields = de.deserialize_struct()?;
            let mut it = None;
            while let Some(key) = fields.next_key(de)? {
                match key.as_str() {
                    "it" => it = Some(MyNew::decode(de)?),
                    _ => {}
                }
            }
            fields.finish(de);
            Ok(MyStruct { it: it.ok_or_else(|| missing("it"))? })
        }
    }

    let items = vec![item("it", vec![text("INFO")], vec![])];

    let actual = from_collectd(&items).unwrap();
    assert_eq!(
        MyStruct {
            it: MyNew(String::from("INFO"))
        },
        actual
    );
}

#[test]
fn test_log_serde_enum() {
    // The original decoded the logging facade's level enum; that foreign
    // impl is unavailable here, so an equal unit enum takes its place and
    // decodes through the engine's unit-variant protocol.
    #[derive(PartialEq, Eq, Debug)]
    enum Level {
        Info,
    }

    impl Decode for Level {
        fn decode(de: &mut Deserializer) -> Result<Self, Error> {
            de.deserialize_enum()?;
            let name = de.deserialize_identifier()?;
            let level = match name.as_str() {
                "INFO" => Ok(Level::Info),
                other => Err(Error(DeError::SerdeError(format!(
                    "unknown variant {}",
                    other
                )))),
            };
            de.pop();
            level
        }
    }

    #[derive(PartialEq, Eq, Debug)]
    struct MyStruct {
        it: Level,
        sentinel: i32,
    }

    impl Decode for MyStruct {
        fn decode(de: &mut Deserializer) -> Result<Self, Error> {
            let mut fields = de.deserialize_struct()?;
            let mut it = None;
            let mut sentinel = None;
            while let Some(key) = fields.next_key(de)? {
                match key.as_str() {
                    "it" => it = Some(Level::decode(de)?),
                    "sentinel" => sentinel = Some(i32::decode(de)?),
                    unknown => {
                        return Err(Error(DeError::SerdeError(format!(
                            "unknown field {}",
                            unknown
                        ))))
                    }
                }
            }
            fields.finish(de);
            Ok(MyStruct {
                it: it.ok_or_else(|| missing("it"))?,
                sentinel: sentinel.ok_or_else(|| missing("sentinel"))?,
            })
        }
    }

    let items = vec![
        item("it", vec![text("INFO")], vec![]),
        item("sentinel", vec![ConfigValue::Number(num(2003.0))], vec![]),
    ];

    let actual = from_collectd(&items).unwrap();
    assert_eq!(
        MyStruct {
            it: Level::Info,
            sentinel: 2003
        },
        actual
    );
}

#[test]
fn test_serde_enum() {
    #[derive(PartialEq, Eq, Debug)]
    enum MyEnum {
        Foo,
    }

    impl Decode for MyEnum {
        fn decode(de: &mut Deserializer) -> Result<Self, Error> {
            let s = String::decode(de)?;
            match s.as_str() {
                "Foo" => Ok(MyEnum::Foo),
                _ => Err(Error(DeError::SerdeError(format!("bad type: {}", s)))),
            }
        }
    }

    #[derive(PartialEq, Eq, Debug)]
    struct MyStruct {
        it: MyEnum,
        sentinel: i32,
    }

    impl Decode for MyStruct {
        fn decode(de: &mut Deserializer) -> Result<Self, Error> {
            let mut fields = de.deserialize_struct()?;
            let mut it = None;
            let mut sentinel = None;
            while let Some(key) = fields.next_key(de)? {
                match key.as_str() {
                    "it" => it = Some(MyEnum::decode(de)?),
                    "sentinel" => sentinel = Some(i32::decode(de)?),
                    unknown => {
                        return Err(Error(DeError::SerdeError(format!(
                            "unknown field {}",
                            unknown
                        ))))
                    }
                }
            }
            fields.finish(de);
            Ok(MyStruct {
                it: it.ok_or_else(|| missing("it"))?,
                sentinel: sentinel.ok_or_else(|| missing("sentinel"))?,
            })
        }
    }

    let items = vec![
        item("it", vec![text("Foo")], vec![]),
        item("sentinel", vec![ConfigValue::Number(num(2003.0))], vec![]),
    ];

    let actual = from_collectd(&items).unwrap();
    assert_eq!(
        MyStruct {
            it: MyEnum::Foo,
            sentinel: 2003
        },
        actual
    );
}
