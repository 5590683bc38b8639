use intermodal::wire::read_field;
use intermodal::{DecodeError, Header, Packet, Value, Wire};

#[derive(Debug, Clone)]
struct NetstatConnections {
    connections: Vec<NetstatConnection>,
}

#[derive(Debug, Clone)]
struct NetstatConnection {
    local_addr: String,
    local_port: u16,
    remote_addr: Option<String>,
    remote_port: Option<u16>,
    state: TcpState,
    pid: u32,
}

#[derive(Debug, Clone, PartialEq, Eq)]
enum TcpState {
    Listen,
    Established,
}

fn number<N: TryFrom<i128>>(datum: &Value, name: &'static str) -> Result<N, DecodeError> {
    match datum {
        Value::Integer(n) => N::try_from(*n).map_err(|_| DecodeError::InvalidField(name)),
        _ => Err(DecodeError::InvalidField(name)),
    }
}

fn read_state(datum: &Value) -> Result<TcpState, DecodeError> {
    match datum {
        Value::Text(s) if s == "LISTEN" => Ok(TcpState::Listen),
        Value::Text(s) if s == "ESTABLISHED" => Ok(TcpState::Established),
        _ => Err(DecodeError::InvalidField("state")),
    }
}

fn read_connection(datum: &Value) -> Result<NetstatConnection, DecodeError> {
    Ok(NetstatConnection {
        local_addr: read_field(datum, "local_addr")?,
        local_port: number(datum.required("local_port")?, "local_port")?,
        remote_addr: match datum.required("remote_addr")? {
            Value::Null => None,
            Value::Text(s) => Some(s.clone()),
            _ => return Err(DecodeError::InvalidField("remote_addr")),
        },
        remote_port: match datum.required("remote_port")? {
            Value::Null => None,
            other => Some(number(other, "remote_port")?),
        },
        state: read_state(datum.required("state")?)?,
        pid: number(datum.required("pid")?, "pid")?,
    })
}

fn read_connections(datum: &Value) -> Result<NetstatConnections, DecodeError> {
    match datum.required("connections")? {
        Value::List(items) => {
            Ok(NetstatConnections { connections: items.iter().map(read_connection).collect::<Result<_, _>>()? })
        },
        _ => Err(DecodeError::InvalidField("connections")),
    }
}

fn from_json(json: &serde_json::Value) -> Value {
    match json {
        serde_json::Value::Null => Value::Null,
        serde_json::Value::Bool(b) => Value::Bool(*b),
        serde_json::Value::Number(n) => {
            if let Some(u) = n.as_u64() {
                Value::Integer(u as i128)
            } else if let Some(i) = n.as_i64() {
                Value::Integer(i as i128)
            } else {
                Value::Real(n.as_f64().unwrap().to_bits())
            }
        },
        serde_json::Value::String(s) => Value::Text(s.clone()),
        serde_json::Value::Array(items) => Value::List(items.iter().map(from_json).collect()),
        serde_json::Value::Object(fields) => {
            Value::Record(fields.iter().map(|(name, datum)| (name.clone(), from_json(datum))).collect())
        },
    }
}

fn from_yaml(yaml: &serde_yaml::Value) -> Value {
    match yaml {
        serde_yaml::Value::Null => Value::Null,
        serde_yaml::Value::Bool(b) => Value::Bool(*b),
        serde_yaml::Value::Number(n) => {
            if let Some(u) = n.as_u64() {
                Value::Integer(u as i128)
            } else if let Some(i) = n.as_i64() {
                Value::Integer(i as i128)
            } else {
                Value::Real(n.as_f64().unwrap().to_bits())
            }
        },
        serde_yaml::Value::String(s) => Value::Text(s.clone()),
        serde_yaml::Value::Sequence(items) => Value::List(items.iter().map(from_yaml).collect()),
        serde_yaml::Value::Mapping(fields) => Value::Record(
            fields
                .iter()
                .map(|(name, datum)| (name.as_str().unwrap().to_string(), from_yaml(datum)))
                .collect(),
        ),
        serde_yaml::Value::Tagged(tagged) => from_yaml(&tagged.value),
    }
}

const JSON_BLOB: &str = r#"{
  "manifest": {
    "domain": "example.org",
    "scope": "connections",
    "kind": "netstat",
    "version": 1,
    "origin": "host-03",
    "ctime": "2020-08-25T14:41:40Z"
  },
  "payload": {
    "connections": [
      {
        "local_addr": "127.0.0.1",
        "local_port": 5432,
        "remote_addr": null,
        "remote_port": null,
        "state": "LISTEN",
        "pid": 811
      },
      {
        "local_addr": "10.0.0.3",
        "local_port": 44312,
        "remote_addr": "10.0.0.9",
        "remote_port": 443,
        "state": "ESTABLISHED",
        "pid": 2290
      }
    ]
  }
}"#;

const YAML_BLOB: &str = "
manifest:
  domain: example.org
  scope: connections
  kind: netstat
  version: 1
  origin: host-03
  ctime: 2020-08-25T14:41:40Z
payload:
  connections:
    - local_addr: 127.0.0.1
      local_port: 5432
      remote_addr: null
      remote_port: null
      state: LISTEN
      pid: 811
    - local_addr: 10.0.0.3
      local_port: 44312
      remote_addr: 10.0.0.9
      remote_port: 443
      state: ESTABLISHED
      pid: 2290
";

#[test]
fn test_netstat_connections() {
    let jblob = from_json(&serde_json::from_str::<serde_json::Value>(JSON_BLOB).unwrap());

    assert!(Header::decode(&jblob).is_ok(), "json deserializable to Header");

    assert!(
        Packet::decode_with(&jblob, read_connections).is_ok(),
        "json deserializable to Packet<NetstatConnections>"
    );

    let netstat: Packet<NetstatConnections> = Packet::decode_with(&jblob, read_connections).unwrap();

    assert_eq!(netstat.manifest.scope, "connections");
    assert_eq!(netstat.manifest.kind, "netstat");
    assert_eq!(netstat.content.connections.len(), 2);
    assert_eq!(netstat.content.connections[0].local_addr, "127.0.0.1");
    assert!(netstat.content.connections[0].remote_addr.is_none());
    assert_eq!(netstat.content.connections[0].state, TcpState::Listen);

    // From/Into
    let _ = Header::from(netstat.clone());
    let obj: Header = netstat.clone().into();

    let netstat_2: Packet<NetstatConnections> = Packet::from_obj(obj.clone(), netstat.content.clone());
    assert_eq!(netstat_2.manifest.ctime, netstat.manifest.ctime);
    assert_eq!(netstat_2.content.connections.len(), netstat.content.connections.len());

    let yblob = from_yaml(&serde_yaml::from_str::<serde_yaml::Value>(YAML_BLOB).unwrap());

    assert!(Header::decode(&yblob).is_ok(), "yaml deserializable to Header");

    assert!(
        Packet::decode_with(&yblob, read_connections).is_ok(),
        "yaml deserializable to Packet<NetstatConnections>"
    );

    let netstat_y: Packet<NetstatConnections> = Packet::decode_with(&yblob, read_connections).unwrap();
    assert_eq!(netstat_y.manifest.ctime, netstat.manifest.ctime);
    assert_eq!(netstat_y.content.connections.len(), netstat.content.connections.len());
    for i in 0..netstat_y.content.connections.len() {
        assert_eq!(netstat_y.content.connections[i].local_addr, netstat.content.connections[i].local_addr);
        assert_eq!(netstat_y.content.connections[i].local_port, netstat.content.connections[i].local_port);
        assert_eq!(netstat_y.content.connections[i].remote_addr, netstat.content.connections[i].remote_addr);
        assert_eq!(netstat_y.content.connections[i].remote_port, netstat.content.connections[i].remote_port);
        assert_eq!(netstat_y.content.connections[i].state, netstat.content.connections[i].state);
        assert_eq!(netstat_y.content.connections[i].pid, netstat.content.connections[i].pid);
    }
}

#[test]
fn a_yaml_manifest_is_read_with_its_labels() {
    let blob = "
manifest:
  domain: example.org
  scope: metrics/applications/some-app
  kind: useractions
  version: 2
  origin: some-app-03.example.org
  ctime: 2020-08-25T14:41:40Z
  labels:
    app-version: 2.3.1
";
    let header = Header::decode(&from_yaml(&serde_yaml::from_str::<serde_yaml::Value>(blob).unwrap())).unwrap();
    assert_eq!(header.manifest.domain, "example.org");
    assert_eq!(header.manifest.scope, "metrics/applications/some-app");
    assert_eq!(header.manifest.kind, "useractions");
    assert_eq!(header.manifest.version, 2);
    assert_eq!(header.manifest.origin, "some-app-03.example.org");
    assert_eq!(header.manifest.ctime.timestamp(), 1598366500);
    assert_eq!(header.manifest.labels.len(), 1);
    assert_eq!(header.manifest.labels.get("app-version").unwrap(), "2.3.1");
}

#[test]
fn both_forms_of_a_blob_are_read_as_the_same_data() {
    let jblob = from_json(&serde_json::from_str::<serde_json::Value>(JSON_BLOB).unwrap());
    let yblob = from_yaml(&serde_yaml::from_str::<serde_yaml::Value>(YAML_BLOB).unwrap());
    let j = Packet::<Value>::decode(&jblob).unwrap();
    let y = Packet::<Value>::decode(&yblob).unwrap();
    assert_eq!(j.manifest.encode(), y.manifest.encode());
    let j = read_connections(&j.content).unwrap();
    let y = read_connections(&y.content).unwrap();
    assert_eq!(format!("{:?}", j), format!("{:?}", y));
}
