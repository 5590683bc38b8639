use intermodal::wire::read_field;
use intermodal::{DateTime, DecodeError, Header, Lookup, Manifest, Packet, Value, Wire};

#[derive(Debug, Clone)]
struct CpuMetrics {
    begin: DateTime,
    end: DateTime,
    interval_seconds: u16,
    idle_percent: Vec<u8>,
}

#[derive(Debug, Clone)]
struct CpuLoad {
    interval_seconds: u16,
    idle_percent: Vec<u8>,
}

fn number<N: TryFrom<i128>>(datum: &Value, name: &'static str) -> Result<N, DecodeError> {
    match datum {
        Value::Integer(n) => N::try_from(*n).map_err(|_| DecodeError::InvalidField(name)),
        _ => Err(DecodeError::InvalidField(name)),
    }
}

fn numbers<N: TryFrom<i128>>(datum: &Value, name: &'static str) -> Result<Vec<N>, DecodeError> {
    match datum {
        Value::List(items) => items.iter().map(|item| number(item, name)).collect(),
        _ => Err(DecodeError::InvalidField(name)),
    }
}

fn read_cpu_metrics(datum: &Value) -> Result<CpuMetrics, DecodeError> {
    Ok(CpuMetrics {
        begin: read_field(datum, "begin")?,
        end: read_field(datum, "end")?,
        interval_seconds: number(datum.required("interval_seconds")?, "interval_seconds")?,
        idle_percent: numbers(datum.required("idle_percent")?, "idle_percent")?,
    })
}

fn read_cpu_load(datum: &Value) -> Result<CpuLoad, DecodeError> {
    Ok(CpuLoad {
        interval_seconds: number(datum.required("interval_seconds")?, "interval_seconds")?,
        idle_percent: numbers(datum.required("idle_percent")?, "idle_percent")?,
    })
}

fn from_json(json: &serde_json::Value) -> Value {
    match json {
        serde_json::Value::Null => Value::Null,
        serde_json::Value::Bool(b) => Value::Bool(*b),
        serde_json::Value::Number(n) => {
            if let Some(u) = n.as_u64() {
                Value::Integer(u as i128)
            } else if let Some(i) = n.as_i64() {
                Value::Integer(i as i128)
            } else {
                Value::Real(n.as_f64().unwrap().to_bits())
            }
        },
        serde_json::Value::String(s) => Value::Text(s.clone()),
        serde_json::Value::Array(items) => Value::List(items.iter().map(from_json).collect()),
        serde_json::Value::Object(fields) => {
            Value::Record(fields.iter().map(|(name, datum)| (name.clone(), from_json(datum))).collect())
        },
    }
}

fn to_json(datum: &Value) -> serde_json::Value {
    match datum {
        Value::Null => serde_json::Value::Null,
        Value::Bool(b) => serde_json::Value::Bool(*b),
        Value::Integer(n) => match u64::try_from(*n) {
            Ok(u) => serde_json::Value::from(u),
            Err(_) => serde_json::Value::from(i64::try_from(*n).unwrap()),
        },
        Value::Real(bits) => serde_json::Value::from(f64::from_bits(*bits)),
        Value::Text(s) => serde_json::Value::String(s.clone()),
        Value::List(items) => serde_json::Value::Array(items.iter().map(to_json).collect()),
        Value::Record(fields) => {
            let mut object = serde_json::Map::new();
            for (name, datum) in fields {
                object.insert(name.clone(), to_json(datum));
            }
            serde_json::Value::Object(object)
        },
    }
}

fn parse(blob: &str) -> Value {
    from_json(&serde_json::from_str::<serde_json::Value>(blob).unwrap())
}

fn print(datum: &Value) -> String {
    serde_json::to_string(&to_json(datum)).unwrap()
}

const CPU_BLOB: &str = r#"{
  "manifest": {
    "domain": "example.org",
    "scope": "metrics",
    "kind": "cpu",
    "version": 1,
    "origin": "host-03",
    "ctime": "2020-08-25T14:41:40Z",
    "labels": {
      "foo": "bar"
    }
  },
  "payload": {
    "begin": "2020-08-25T14:40:40Z",
    "end": "2020-08-25T14:41:40Z",
    "interval_seconds": 10,
    "idle_percent": [80, 81, 85, 90, 91, 92]
  }
}"#;

const SCENARIO_BLOB: &str = r#"{"manifest":{"domain":"example.org","scope":"metrics","kind":"cpu","version":1,"origin":"host-03","ctime":"2020-08-25T14:41:40Z","labels":{"foo":"bar"}},"payload":{"interval_seconds":10,"idle_percent":[80,81,85,90,91,92]}}"#;

const BARE_MANIFEST_BLOB: &str = r#"{"domain":"example.org","scope":"metrics","kind":"cpu","version":1,"origin":"host-03","ctime":"2020-08-25T14:41:40Z"}"#;

#[test]
fn test_json_cpu_metrics() {
    let blob = parse(CPU_BLOB);

    assert!(Header::decode(&blob).is_ok(), "deserializable to Header");

    assert!(
        Packet::decode_with(&blob, read_cpu_metrics).is_ok(),
        "deserializable to Packet<CpuMetrics>",
    );

    let cpu_obj: Packet<CpuMetrics> = Packet::decode_with(&blob, read_cpu_metrics).unwrap();

    assert_eq!(cpu_obj.manifest.domain, "example.org");
    assert_eq!(cpu_obj.manifest.scope, "metrics");
    assert_eq!(cpu_obj.manifest.kind, "cpu");
    assert_eq!(cpu_obj.manifest.version, 1);
    assert_eq!(cpu_obj.manifest.labels.get("foo").unwrap(), "bar");
    assert_eq!(cpu_obj.content.interval_seconds, 10);
    assert_eq!(cpu_obj.content.idle_percent.len(), 6);
    assert_eq!(cpu_obj.content.idle_percent[2], 85);
    assert_eq!(cpu_obj.content.begin, DateTime::from_timestamp(1598366440, 0).unwrap());
    assert_eq!(cpu_obj.content.end, DateTime::from_timestamp(1598366500, 0).unwrap());

    let wrong_obj = Packet::<String>::decode(&blob);
    assert!(wrong_obj.is_err(), "not convertable to incompatible Packet");

    // From/Into works Packet --> to Header
    let _ = Header::from(cpu_obj.clone());
    let obj: Header = cpu_obj.clone().into();

    // Packet::from_obj()
    let cpu_obj_2: Packet<CpuMetrics> = Packet::from_obj(obj.clone(), cpu_obj.content.clone());
    assert_eq!(cpu_obj_2.manifest.ctime, cpu_obj.manifest.ctime);
    assert_eq!(cpu_obj_2.content.idle_percent, cpu_obj.content.idle_percent);
}

#[test]
fn a_blob_of_cpu_load_is_read_as_header_and_as_packet() {
    let blob = parse(SCENARIO_BLOB);

    let header = Header::decode(&blob).unwrap();
    assert_eq!(header.manifest.kind, "cpu");
    assert_eq!(header.manifest.version, 1);
    assert_eq!(header.manifest.labels.get("foo").unwrap(), "bar");
    assert_eq!(header.manifest.domain, "example.org");
    assert_eq!(header.manifest.scope, "metrics");
    assert_eq!(header.manifest.origin, "host-03");
    assert_eq!(header.manifest.ctime, DateTime::from_timestamp(1598366500, 0).unwrap());
    assert_eq!(header.manifest.labels.len(), 1);

    let packet: Packet<CpuLoad> = Packet::decode_with(&blob, read_cpu_load).unwrap();
    assert_eq!(packet.content.idle_percent[2], 85);
    assert_eq!(packet.content.idle_percent, vec![80, 81, 85, 90, 91, 92]);
    assert_eq!(packet.content.interval_seconds, 10);
    assert_eq!(packet.manifest.kind, "cpu");

    assert_eq!(Packet::<String>::decode(&blob).unwrap_err(), DecodeError::InvalidField("payload"));
}

#[test]
fn a_blob_without_what_the_content_needs_is_no_packet() {
    let blob = parse(SCENARIO_BLOB);
    let read = Packet::decode_with(&blob, read_cpu_metrics);
    assert_eq!(read.unwrap_err(), DecodeError::MissingField("begin"));
}

#[test]
fn a_manifest_blob_without_labels_has_none_and_is_written_without() {
    let blob = parse(BARE_MANIFEST_BLOB);
    let manifest = Manifest::decode(&blob).unwrap();
    assert!(manifest.labels.is_empty());
    assert_eq!(manifest.labels.len(), 0);
    assert_eq!(manifest.kind, "cpu");
    assert_eq!(manifest.version, 1);

    let written = manifest.encode();
    assert!(matches!(written.field("labels"), Lookup::Absent));
    let printed = print(&written);
    assert!(!printed.contains("labels"));
    assert!(!printed.contains("null"));
    assert_eq!(serde_json::from_str::<serde_json::Value>(&printed).unwrap(), serde_json::from_str::<serde_json::Value>(BARE_MANIFEST_BLOB).unwrap());
}

#[test]
fn a_manifest_with_labels_is_written_with_them() {
    let blob = parse(SCENARIO_BLOB);
    let header = Header::decode(&blob).unwrap();
    let printed = print(&header.encode());
    assert_eq!(
        printed,
        r#"{"manifest":{"ctime":"2020-08-25T14:41:40Z","domain":"example.org","kind":"cpu","labels":{"foo":"bar"},"origin":"host-03","scope":"metrics","version":1}}"#
    );
}

#[test]
fn a_packet_printed_and_parsed_is_read_back_as_it_was() {
    let blob = parse(CPU_BLOB);
    let packet = Packet::<Value>::decode(&blob).unwrap();
    let printed = print(&packet.encode());
    let back = Packet::<Value>::decode(&parse(&printed)).unwrap();
    assert_eq!(back.content, packet.content);
    assert_eq!(back.manifest.domain, packet.manifest.domain);
    assert_eq!(back.manifest.scope, packet.manifest.scope);
    assert_eq!(back.manifest.kind, packet.manifest.kind);
    assert_eq!(back.manifest.version, packet.manifest.version);
    assert_eq!(back.manifest.origin, packet.manifest.origin);
    assert_eq!(back.manifest.ctime, packet.manifest.ctime);
    assert_eq!(back.manifest.labels.len(), 1);
    assert_eq!(back.manifest.labels.get("foo"), packet.manifest.labels.get("foo"));
    let metrics = Packet::decode_with(&parse(&printed), read_cpu_metrics).unwrap();
    assert_eq!(metrics.content.idle_percent, vec![80, 81, 85, 90, 91, 92]);
}

#[test]
fn instants_are_equal_whatever_their_text() {
    let shifted = CPU_BLOB.replace("\"ctime\": \"2020-08-25T14:41:40Z\"", "\"ctime\": \"2020-08-25T09:41:40.000-05:00\"");
    assert_ne!(shifted, CPU_BLOB);
    let a = Header::decode(&parse(CPU_BLOB)).unwrap();
    let b = Header::decode(&parse(&shifted)).unwrap();
    assert_eq!(a.manifest.ctime, b.manifest.ctime);
    assert_eq!(b.manifest.encode(), a.manifest.encode());
}

#[test]
fn fractions_of_a_second_are_kept() {
    let fine = CPU_BLOB.replace("14:41:40Z\",\n    \"labels\"", "14:41:40.123456789Z\",\n    \"labels\"");
    assert_ne!(fine, CPU_BLOB);
    let header = Header::decode(&parse(&fine)).unwrap();
    assert_eq!(header.manifest.ctime, DateTime::from_timestamp(1598366500, 123_456_789).unwrap());
    assert!(print(&header.encode()).contains("\"2020-08-25T14:41:40.123456789Z\""));
}

#[test]
fn further_fields_at_the_top_are_ignored() {
    let wider = SCENARIO_BLOB.replacen('{', r#"{"trace":[1,2.5,null],"note":{"manifest":"x"},"#, 1);
    let wider = wider.trim_end_matches('}').to_string() + r#"},"checksum":"9f2c"}"#;
    let blob = parse(&wider);
    assert!(matches!(blob.field("trace"), Lookup::Once(_)));
    assert!(matches!(blob.field("checksum"), Lookup::Once(_)));
    let header = Header::decode(&blob).unwrap();
    assert_eq!(header.manifest.kind, "cpu");
    assert_eq!(header.encode(), Header::decode(&parse(SCENARIO_BLOB)).unwrap().encode());
    let packet = Packet::decode_with(&blob, read_cpu_load).unwrap();
    assert_eq!(packet.content.idle_percent[2], 85);
    assert_eq!(packet.manifest.labels.get("foo").unwrap(), "bar");
}

#[test]
fn a_plain_string_is_no_structured_content() {
    let blob = parse(r#"{"manifest":{"domain":"example.org","scope":"metrics","kind":"cpu","version":1,"origin":"host-03","ctime":"2020-08-25T14:41:40Z"},"payload":"ten seconds"}"#);
    assert_eq!(Packet::decode_with(&blob, read_cpu_load).unwrap_err(), DecodeError::InvalidField("payload"));
    assert_eq!(Packet::<Manifest>::decode(&blob).unwrap_err(), DecodeError::InvalidField("payload"));
    assert_eq!(Packet::<Header>::decode(&blob).unwrap_err(), DecodeError::InvalidField("payload"));
    assert_eq!(Packet::<String>::decode(&blob).unwrap().content, "ten seconds");
    assert!(Header::decode(&blob).is_ok());
}

#[test]
fn what_a_manifest_blob_lacks_is_reported() {
    let no_version = BARE_MANIFEST_BLOB.replace(r#""version":1,"#, "");
    assert_eq!(Manifest::decode(&parse(&no_version)).unwrap_err(), DecodeError::MissingField("version"));
    let odd_version = BARE_MANIFEST_BLOB.replace(r#""version":1,"#, r#""version":1.5,"#);
    assert_eq!(Manifest::decode(&parse(&odd_version)).unwrap_err(), DecodeError::InvalidField("version"));
    let odd_time = BARE_MANIFEST_BLOB.replace("2020-08-25T14:41:40Z", "2020-08-25");
    assert_eq!(Manifest::decode(&parse(&odd_time)).unwrap_err(), DecodeError::InvalidField("ctime"));
    let null_labels = BARE_MANIFEST_BLOB.replace(r#""domain""#, r#""labels":null,"domain""#);
    assert_eq!(Manifest::decode(&parse(&null_labels)).unwrap_err(), DecodeError::InvalidField("labels"));
}
