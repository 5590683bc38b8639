//! The header: a manifest without the content it describes.

use crate::error::DecodeError;
use crate::manifest::{Manifest, ManifestView};
use crate::packet::Packet;
use crate::value::{lemma_held_once, Value, ValueView};
use crate::wire::{field_of, read_field, Wire};
use vstd::prelude::*;
use vstd::std_specs::cmp::PartialEqSpecImpl;
use vstd::std_specs::convert::FromSpecImpl;

verus! {

/// An elemental data structure consisting of only a manifest.
///
/// Whatever is written as a [`Packet`] can be read as a `Header`. Generic data handlers read a
/// message as a `Header` first, and use the manifest to find the precise type of the message.
///
/// Written as a record, the header has the one field `manifest`.
#[derive(Debug)]
pub struct Header {
    pub manifest: Manifest,
}

/// The mathematical form of a [`Header`].
pub struct HeaderView {
    pub manifest: ManifestView,
}

impl View for Header {
    type V = HeaderView;

    open spec fn view(&self) -> HeaderView {
        HeaderView { manifest: self.manifest@ }
    }
}

impl Clone for Header {
    fn clone(&self) -> (copy: Header)
        ensures
            copy@ == self@,
    {
        Header { manifest: self.manifest.clone() }
    }
}

/// Headers are equal where their manifests are.
impl PartialEq for Header {
    fn eq(&self, other: &Header) -> (same: bool) {
        self.manifest == other.manifest
    }
}

impl PartialEqSpecImpl for Header {
    open spec fn obeys_eq_spec() -> bool {
        true
    }

    open spec fn eq_spec(&self, other: &Header) -> bool {
        self@ == other@
    }
}

/// The header of a packet is the packet's manifest; the content is dropped.
impl<T> From<Packet<T>> for Header {
    fn from(data: Packet<T>) -> (header: Header) {
        Header { manifest: data.manifest }
    }
}

impl<T> FromSpecImpl<Packet<T>> for Header {
    open spec fn obeys_from_spec() -> bool {
        true
    }

    open spec fn from_spec(data: Packet<T>) -> Header {
        Header { manifest: data.manifest }
    }
}

/// The header that holds a given manifest.
impl From<Manifest> for Header {
    fn from(manifest: Manifest) -> (header: Header) {
        Header { manifest }
    }
}

impl FromSpecImpl<Manifest> for Header {
    open spec fn obeys_from_spec() -> bool {
        true
    }

    open spec fn from_spec(manifest: Manifest) -> Header {
        Header { manifest }
    }
}

impl Wire for Header {
    open spec fn encodes(value: HeaderView, datum: ValueView) -> bool {
        &&& datum matches ValueView::Record(fields)
        &&& fields.len() == 1
        &&& fields[0].0 == "manifest"@ && Manifest::encodes(value.manifest, fields[0].1)
    }

    open spec fn decoded(datum: ValueView) -> Result<HeaderView, DecodeError> {
        match field_of::<Manifest>(datum, "manifest") {
            Ok(manifest) => Ok(HeaderView { manifest }),
            Err(e) => Err(e),
        }
    }

    proof fn law_round_trip(value: HeaderView, datum: ValueView) {
        let fields = datum->Record_0;
        lemma_held_once(fields, "manifest"@, 0);
        Manifest::law_round_trip(value.manifest, fields[0].1);
    }

    fn encode(&self) -> (datum: Value) {
        let mut fields: Vec<(String, Value)> = Vec::new();
        fields.push(("manifest".to_owned(), self.manifest.encode()));
        let datum = Value::Record(fields);
        proof {
            Value::lemma_record_view(fields);
            Header::law_round_trip(self@, datum@);
        }
        datum
    }

    fn decode(datum: &Value) -> (read: Result<Header, DecodeError>) {
        match read_field::<Manifest>(datum, "manifest") {
            Ok(manifest) => Ok(Header { manifest }),
            Err(e) => Err(e),
        }
    }
}

} // verus!
