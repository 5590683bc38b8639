//! The manifest: what describes a piece of content.

use crate::datetime::{DateTime, Instant};
use crate::error::DecodeError;
use crate::labels::Labels;
use crate::value::{held, lemma_held_once, Held, Value, ValueView};
use crate::wire::{field_of, optional_field_of, read_field, read_optional_field, Wire};
use vstd::prelude::*;
use vstd::std_specs::cmp::PartialEqSpecImpl;

verus! {

/// Metadata that describes the content.
///
/// The manifest is read by code that routes, stores and processes data. It says what type of
/// data the content is and which schema it follows, where it comes from and when it was made,
/// and it carries further context as labels.
///
/// Written as a record, the manifest has the fields `domain`, `scope`, `kind`, `version`,
/// `origin` and `ctime`, followed by `labels` where there are any.
#[derive(Debug)]
pub struct Manifest {
    /// A DNS name identifying the organization that defines the type's schema.
    pub domain: String,
    /// An arbitrary string acting as a namespace element, conventionally formatted as a path.
    pub scope: String,
    /// The name of the type.
    pub kind: String,
    /// The version of the type's schema.
    pub version: u64,
    /// The identity of the source of this content.
    pub origin: String,
    /// The instant at which the message was created, which need not be the instant at which the
    /// data was obtained.
    pub ctime: DateTime,
    /// Arbitrary pairs of texts that provide additional context. Optional.
    pub labels: Labels,
}

/// The mathematical form of a [`Manifest`].
pub struct ManifestView {
    pub domain: Seq<char>,
    pub scope: Seq<char>,
    pub kind: Seq<char>,
    pub version: u64,
    pub origin: Seq<char>,
    pub ctime: Instant,
    pub labels: Map<Seq<char>, Seq<char>>,
}

impl View for Manifest {
    type V = ManifestView;

    open spec fn view(&self) -> ManifestView {
        ManifestView {
            domain: self.domain@,
            scope: self.scope@,
            kind: self.kind@,
            version: self.version,
            origin: self.origin@,
            ctime: self.ctime@,
            labels: self.labels@,
        }
    }
}

impl Clone for Manifest {
    fn clone(&self) -> (copy: Manifest)
        ensures
            copy@ == self@,
    {
        Manifest {
            domain: self.domain.clone(),
            scope: self.scope.clone(),
            kind: self.kind.clone(),
            version: self.version,
            origin: self.origin.clone(),
            ctime: self.ctime,
            labels: self.labels.clone(),
        }
    }
}

/// Manifests are equal where they are equal field by field: the same texts, the same version,
/// the same instant of creation, and the same labels in whatever order.
impl PartialEq for Manifest {
    fn eq(&self, other: &Manifest) -> (same: bool) {
        self.domain == other.domain && self.scope == other.scope && self.kind == other.kind
            && self.version == other.version && self.origin == other.origin
            && self.ctime.timestamp() == other.ctime.timestamp()
            && self.ctime.timestamp_subsec_nanos() == other.ctime.timestamp_subsec_nanos()
            && self.labels == other.labels
    }
}

impl PartialEqSpecImpl for Manifest {
    open spec fn obeys_eq_spec() -> bool {
        true
    }

    open spec fn eq_spec(&self, other: &Manifest) -> bool {
        self@ == other@
    }
}

/// The labels that a record states: those of its field `labels`, and none where it leaves the
/// field out.
pub open spec fn labels_of(record: ValueView) -> Result<Map<Seq<char>, Seq<char>>, DecodeError> {
    match optional_field_of::<Labels>(record, "labels") {
        Ok(Some(labels)) => Ok(labels),
        Ok(None) => Ok(Map::empty()),
        Err(e) => Err(e),
    }
}

/// The names of a manifest's fields differ from one another.
pub proof fn lemma_field_names()
    ensures
        "domain"@ != "scope"@,
        "domain"@ != "kind"@,
        "domain"@ != "version"@,
        "domain"@ != "origin"@,
        "domain"@ != "ctime"@,
        "domain"@ != "labels"@,
        "scope"@ != "kind"@,
        "scope"@ != "version"@,
        "scope"@ != "origin"@,
        "scope"@ != "ctime"@,
        "scope"@ != "labels"@,
        "kind"@ != "version"@,
        "kind"@ != "origin"@,
        "kind"@ != "ctime"@,
        "kind"@ != "labels"@,
        "version"@ != "origin"@,
        "version"@ != "ctime"@,
        "version"@ != "labels"@,
        "origin"@ != "ctime"@,
        "origin"@ != "labels"@,
        "ctime"@ != "labels"@,
{
    reveal_strlit("domain");
    reveal_strlit("scope");
    reveal_strlit("kind");
    reveal_strlit("version");
    reveal_strlit("origin");
    reveal_strlit("ctime");
    reveal_strlit("labels");
    assert("domain"@.len() == 6 && "scope"@.len() == 5 && "kind"@.len() == 4);
    assert("version"@.len() == 7 && "origin"@.len() == 6 && "ctime"@.len() == 5);
    assert("labels"@.len() == 6);
    assert("domain"@[0] != "origin"@[0]);
    assert("domain"@[0] != "labels"@[0]);
    assert("origin"@[0] != "labels"@[0]);
    assert("scope"@[0] != "ctime"@[0]);
}

impl Wire for Manifest {
    open spec fn encodes(value: ManifestView, datum: ValueView) -> bool {
        &&& datum matches ValueView::Record(fields)
        &&& fields.len() == if value.labels == Map::<Seq<char>, Seq<char>>::empty() {
            6int
        } else {
            7int
        }
        &&& fields[0].0 == "domain"@ && String::encodes(value.domain, fields[0].1)
        &&& fields[1].0 == "scope"@ && String::encodes(value.scope, fields[1].1)
        &&& fields[2].0 == "kind"@ && String::encodes(value.kind, fields[2].1)
        &&& fields[3].0 == "version"@ && u64::encodes(value.version, fields[3].1)
        &&& fields[4].0 == "origin"@ && String::encodes(value.origin, fields[4].1)
        &&& fields[5].0 == "ctime"@ && DateTime::encodes(value.ctime, fields[5].1)
        &&& fields.len() == 7 ==> fields[6].0 == "labels"@ && Labels::encodes(
            value.labels,
            fields[6].1,
        )
    }

    open spec fn decoded(datum: ValueView) -> Result<ManifestView, DecodeError> {
        let domain = field_of::<String>(datum, "domain");
        let scope = field_of::<String>(datum, "scope");
        let kind = field_of::<String>(datum, "kind");
        let version = field_of::<u64>(datum, "version");
        let origin = field_of::<String>(datum, "origin");
        let ctime = field_of::<DateTime>(datum, "ctime");
        let labels = labels_of(datum);
        if domain is Err {
            Err(domain->Err_0)
        } else if scope is Err {
            Err(scope->Err_0)
        } else if kind is Err {
            Err(kind->Err_0)
        } else if version is Err {
            Err(version->Err_0)
        } else if origin is Err {
            Err(origin->Err_0)
        } else if ctime is Err {
            Err(ctime->Err_0)
        } else if labels is Err {
            Err(labels->Err_0)
        } else {
            Ok(
                ManifestView {
                    domain: domain->Ok_0,
                    scope: scope->Ok_0,
                    kind: kind->Ok_0,
                    version: version->Ok_0,
                    origin: origin->Ok_0,
                    ctime: ctime->Ok_0,
                    labels: labels->Ok_0,
                },
            )
        }
    }

    proof fn law_round_trip(value: ManifestView, datum: ValueView) {
        let fields = datum->Record_0;
        lemma_field_names();
        lemma_held_once(fields, "domain"@, 0);
        lemma_held_once(fields, "scope"@, 1);
        lemma_held_once(fields, "kind"@, 2);
        lemma_held_once(fields, "version"@, 3);
        lemma_held_once(fields, "origin"@, 4);
        lemma_held_once(fields, "ctime"@, 5);
        String::law_round_trip(value.domain, fields[0].1);
        String::law_round_trip(value.scope, fields[1].1);
        String::law_round_trip(value.kind, fields[2].1);
        u64::law_round_trip(value.version, fields[3].1);
        String::law_round_trip(value.origin, fields[4].1);
        DateTime::law_round_trip(value.ctime, fields[5].1);
        if fields.len() == 7 {
            lemma_held_once(fields, "labels"@, 6);
            Labels::law_round_trip(value.labels, fields[6].1);
        } else {
            assert(held(fields, "labels"@) == Held::Absent);
        }
    }

    fn encode(&self) -> (datum: Value) {
        let mut fields: Vec<(String, Value)> = Vec::new();
        fields.push(("domain".to_owned(), self.domain.encode()));
        fields.push(("scope".to_owned(), self.scope.encode()));
        fields.push(("kind".to_owned(), self.kind.encode()));
        fields.push(("version".to_owned(), self.version.encode()));
        fields.push(("origin".to_owned(), self.origin.encode()));
        fields.push(("ctime".to_owned(), self.ctime.encode()));
        if !self.labels.is_empty() {
            fields.push(("labels".to_owned(), self.labels.encode()));
        }
        let datum = Value::Record(fields);
        proof {
            Value::lemma_record_view(fields);
            Manifest::law_round_trip(self@, datum@);
        }
        datum
    }

    fn decode(datum: &Value) -> (read: Result<Manifest, DecodeError>) {
        let domain = match read_field::<String>(datum, "domain") {
            Ok(value) => value,
            Err(e) => return Err(e),
        };
        let scope = match read_field::<String>(datum, "scope") {
            Ok(value) => value,
            Err(e) => return Err(e),
        };
        let kind = match read_field::<String>(datum, "kind") {
            Ok(value) => value,
            Err(e) => return Err(e),
        };
        let version = match read_field::<u64>(datum, "version") {
            Ok(value) => value,
            Err(e) => return Err(e),
        };
        let origin = match read_field::<String>(datum, "origin") {
            Ok(value) => value,
            Err(e) => return Err(e),
        };
        let ctime = match read_field::<DateTime>(datum, "ctime") {
            Ok(value) => value,
            Err(e) => return Err(e),
        };
        let labels = match read_optional_field::<Labels>(datum, "labels") {
            Ok(Some(value)) => value,
            Ok(None) => Labels::new(),
            Err(e) => return Err(e),
        };
        Ok(Manifest { domain, scope, kind, version, origin, ctime, labels })
    }
}

} // verus!
