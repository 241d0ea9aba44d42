use plist::{Date, Event, IntoEvents, Value, Writer};

fn collect(value: Value) -> Vec<Event> {
    let mut events = IntoEvents::new(value);
    let mut out = Vec::new();
    while let Some(e) = events.next() {
        out.push(e);
    }
    out
}

#[test]
fn empty_array_is_start_and_end() {
    assert_eq!(
        collect(Value::Array(vec![])),
        vec![Event::StartArray(Some(0)), Event::EndArray]
    );
}

#[test]
fn one_entry_dictionary() {
    let dict = Value::Dictionary(vec![("Age".to_string(), Value::Integer(28))]);
    assert_eq!(
        collect(dict),
        vec![
            Event::StartDictionary(Some(1)),
            Event::StringValue("Age".to_string()),
            Event::IntegerValue(28),
            Event::EndDictionary,
        ]
    );
}

#[test]
fn empty_dictionary_is_start_and_end() {
    assert_eq!(
        collect(Value::Dictionary(vec![])),
        vec![Event::StartDictionary(Some(0)), Event::EndDictionary]
    );
}

#[test]
fn dictionary_keys_keep_their_order() {
    let dict = Value::Dictionary(vec![
        ("Height".to_string(), Value::Real(181.2f64.to_bits())),
        ("Age".to_string(), Value::Integer(28)),
    ]);
    assert_eq!(
        collect(dict),
        vec![
            Event::StartDictionary(Some(2)),
            Event::StringValue("Height".to_string()),
            Event::RealValue(181.2f64.to_bits()),
            Event::StringValue("Age".to_string()),
            Event::IntegerValue(28),
            Event::EndDictionary,
        ]
    );
}

#[test]
fn nested_containers_flatten_in_pre_order() {
    let value = Value::Array(vec![
        Value::Boolean(true),
        Value::Array(vec![Value::Array(vec![])]),
        Value::Dictionary(vec![(
            "k".to_string(),
            Value::Array(vec![Value::Data(vec![1, 2, 3])]),
        )]),
        Value::Date(Date { nanos: -5 }),
        Value::String("end".to_string()),
    ]);
    assert_eq!(
        collect(value),
        vec![
            Event::StartArray(Some(5)),
            Event::BooleanValue(true),
            Event::StartArray(Some(1)),
            Event::StartArray(Some(0)),
            Event::EndArray,
            Event::EndArray,
            Event::StartDictionary(Some(1)),
            Event::StringValue("k".to_string()),
            Event::StartArray(Some(1)),
            Event::DataValue(vec![1, 2, 3]),
            Event::EndArray,
            Event::EndDictionary,
            Event::DateValue(Date { nanos: -5 }),
            Event::StringValue("end".to_string()),
            Event::EndArray,
        ]
    );
}

#[test]
fn scalar_is_one_event() {
    assert_eq!(collect(Value::Integer(-7)), vec![Event::IntegerValue(-7)]);
    assert_eq!(collect(Value::Boolean(false)), vec![Event::BooleanValue(false)]);
}

#[test]
fn into_events_matches_new() {
    let mut events = Value::Array(vec![Value::Integer(1)]).into_events();
    assert_eq!(events.next(), Some(Event::StartArray(Some(1))));
    assert_eq!(events.next(), Some(Event::IntegerValue(1)));
    assert_eq!(events.next(), Some(Event::EndArray));
    assert_eq!(events.next(), None);
}

#[test]
fn exhausted_stream_stays_exhausted() {
    let mut events = IntoEvents::new(Value::Boolean(true));
    assert_eq!(events.next(), Some(Event::BooleanValue(true)));
    for _ in 0..5 {
        assert_eq!(events.next(), None);
    }
}

#[test]
fn deep_nesting_is_balanced() {
    let mut value = Value::Integer(0);
    for _ in 0..100 {
        value = Value::Array(vec![value]);
    }
    let events = collect(value);
    assert_eq!(events.len(), 201);
    let mut depth: i64 = 0;
    for e in &events {
        match e {
            Event::StartArray(Some(1)) => depth += 1,
            Event::EndArray => depth -= 1,
            Event::IntegerValue(0) => assert_eq!(depth, 100),
            other => panic!("unexpected event {:?}", other),
        }
        assert!(depth >= 0);
    }
    assert_eq!(depth, 0);
}

/// A sink that tracks nesting and counts the values it was given.
struct DepthSink {
    open: Vec<bool>,
    scalars: usize,
}

impl Writer for DepthSink {
    fn write(&mut self, event: &Event) -> Result<(), plist::Error> {
        match event {
            Event::StartArray(_) => self.open.push(false),
            Event::StartDictionary(_) => self.open.push(true),
            Event::EndArray => {
                if self.open.pop() != Some(false) {
                    return Err(plist::Error::InvalidData);
                }
            }
            Event::EndDictionary => {
                if self.open.pop() != Some(true) {
                    return Err(plist::Error::InvalidData);
                }
            }
            _ => self.scalars += 1,
        }
        Ok(())
    }
}

#[test]
fn sink_accepts_flattened_events() {
    let value = Value::Dictionary(vec![
        ("a".to_string(), Value::Array(vec![Value::Integer(1), Value::Integer(2)])),
        ("b".to_string(), Value::Dictionary(vec![])),
    ]);
    let mut sink = DepthSink { open: Vec::new(), scalars: 0 };
    for e in collect(value) {
        sink.write(&e).unwrap();
    }
    assert!(sink.open.is_empty());
    assert_eq!(sink.scalars, 4);
    assert_eq!(sink.write(&Event::EndArray), Err(plist::Error::InvalidData));
}
