//! The packet: content together with the manifest that describes it.

use crate::error::DecodeError;
use crate::header::{Header, HeaderView};
use crate::manifest::{Manifest, ManifestView};
use crate::value::{lemma_held_once, Value, ValueView};
use crate::wire::{field_of, read_field, Wire};
use vstd::prelude::*;
use vstd::std_specs::cmp::{PartialEqSpec, PartialEqSpecImpl};
use vstd::std_specs::convert::FromSpecImpl;

verus! {

/// A complete data structure consisting of a manifest and the content.
///
/// Written as a record, the packet has the fields `manifest` and `payload`, in this order.
#[derive(Debug)]
pub struct Packet<T> {
    pub manifest: Manifest,
    pub content: T,
}

/// The mathematical form of a [`Packet`], over the mathematical form of its content.
pub struct PacketView<C> {
    pub manifest: ManifestView,
    pub content: C,
}

impl<T: View> View for Packet<T> {
    type V = PacketView<T::V>;

    open spec fn view(&self) -> PacketView<T::V> {
        PacketView { manifest: self.manifest@, content: self.content@ }
    }
}

impl<T: Clone> Clone for Packet<T> {
    fn clone(&self) -> (copy: Packet<T>)
        ensures
            copy.manifest@ == self.manifest@,
            cloned(self.content, copy.content),
    {
        Packet { manifest: self.manifest.clone(), content: self.content.clone() }
    }
}

/// Packets are equal where their manifests are equal and their contents are.
impl<T: PartialEq> PartialEq for Packet<T> {
    fn eq(&self, other: &Packet<T>) -> (same: bool) {
        self.manifest == other.manifest && self.content == other.content
    }
}

impl<T: PartialEq> PartialEqSpecImpl for Packet<T> {
    open spec fn obeys_eq_spec() -> bool {
        <T as PartialEqSpec>::obeys_eq_spec()
    }

    open spec fn eq_spec(&self, other: &Packet<T>) -> bool {
        self.manifest@ == other.manifest@ && self.content.eq_spec(&other.content)
    }
}

/// Whether `datum` is the record of a packet with the given manifest, whose content is written
/// as `content`.
pub open spec fn frames(manifest: ManifestView, content: ValueView, datum: ValueView) -> bool {
    &&& datum matches ValueView::Record(fields)
    &&& fields.len() == 2
    &&& fields[0].0 == "manifest"@ && Manifest::encodes(manifest, fields[0].1)
    &&& fields[1] == ("payload"@, content)
}

/// What the record of a packet is read as before its content is looked into: the manifest, and
/// the datum that the content is written as.
pub open spec fn framed(datum: ValueView) -> Result<(ManifestView, ValueView), DecodeError> {
    match field_of::<Manifest>(datum, "manifest") {
        Ok(manifest) => match datum.required("payload") {
            Ok(content) => Ok((manifest, content)),
            Err(e) => Err(e),
        },
        Err(e) => Err(e),
    }
}

/// What a packet is read as, given what its record is read as and what its content is read
/// as: a failure to read the content is reported under the name of the content's field.
pub open spec fn assembled<C>(manifest: ManifestView, content: Result<C, DecodeError>) -> Result<
    PacketView<C>,
    DecodeError,
> {
    match content {
        Ok(content) => Ok(PacketView { manifest, content }),
        Err(e) => Err(e.within("payload")),
    }
}

/// Whether `read` is what reading a packet comes to, where the record states `manifest` and
/// the content was read as `got`: the packet of the two, or the failure to read the content,
/// reported under the name of the content's field.
pub open spec fn pairs_up<T>(
    manifest: ManifestView,
    got: Result<T, DecodeError>,
    read: Result<Packet<T>, DecodeError>,
) -> bool {
    match got {
        Ok(content) => read matches Ok(packet) && packet.manifest@ == manifest && packet.content
            == content,
        Err(e) => read == Err::<Packet<T>, DecodeError>(e.within("payload")),
    }
}

/// The names of a packet's fields differ from each other.
pub proof fn lemma_field_names()
    ensures
        "manifest"@ != "payload"@,
{
    reveal_strlit("manifest");
    reveal_strlit("payload");
    assert("manifest"@.len() == 8 && "payload"@.len() == 7);
}

/// The record of a packet is read as the manifest and the content's datum that it was made of,
/// and as the header that holds the manifest.
pub proof fn lemma_framing(manifest: ManifestView, content: ValueView, datum: ValueView)
    requires
        frames(manifest, content, datum),
    ensures
        framed(datum) == Ok::<(ManifestView, ValueView), DecodeError>((manifest, content)),
        Header::decoded(datum) == Ok::<HeaderView, DecodeError>(HeaderView { manifest }),
{
    let fields = datum->Record_0;
    lemma_field_names();
    lemma_held_once(fields, "manifest"@, 0);
    lemma_held_once(fields, "payload"@, 1);
    Manifest::law_round_trip(manifest, fields[0].1);
}

/// The record of a packet, made of the manifest and of the datum that the content is written as.
///
/// The record is read back as the two, and as the header that holds the manifest.
pub fn frame(manifest: &Manifest, content: Value) -> (datum: Value)
    ensures
        frames(manifest@, content@, datum@),
        framed(datum@) == Ok::<(ManifestView, ValueView), DecodeError>((manifest@, content@)),
        Header::decoded(datum@) == Ok::<HeaderView, DecodeError>(
            HeaderView { manifest: manifest@ },
        ),
{
    let mut fields: Vec<(String, Value)> = Vec::new();
    fields.push(("manifest".to_owned(), manifest.encode()));
    fields.push(("payload".to_owned(), content));
    let datum = Value::Record(fields);
    proof {
        Value::lemma_record_view(fields);
        lemma_framing(manifest@, content@, datum@);
    }
    datum
}

/// Reads the record of a packet as far as the manifest, and finds the datum of the content.
pub fn unframe<'a>(datum: &'a Value) -> (read: Result<(Manifest, &'a Value), DecodeError>)
    ensures
        read matches Ok(parts) ==> framed(datum@) == Ok::<(ManifestView, ValueView), DecodeError>(
            (parts.0@, parts.1@),
        ),
        read matches Err(e) ==> framed(datum@) == Err::<(ManifestView, ValueView), DecodeError>(e),
{
    let manifest = match read_field::<Manifest>(datum, "manifest") {
        Ok(value) => value,
        Err(e) => return Err(e),
    };
    match datum.required("payload") {
        Ok(content) => Ok((manifest, content)),
        Err(e) => Err(e),
    }
}

impl<T> Packet<T> {
    /// The packet made of a header's manifest and the given content.
    pub open spec fn spec_from_obj(obj: Header, content: T) -> Packet<T> {
        Packet { manifest: obj.manifest, content }
    }

    /// Create a `Packet` from a `Header` and some content.
    pub fn from_obj(obj: Header, content: T) -> (packet: Packet<T>)
        ensures
            packet == Packet::spec_from_obj(obj, content),
    {
        Packet { manifest: obj.manifest, content }
    }

    /// The packet made of a manifest and of what the content was read as, where it was read:
    /// a failure to read the content is reported under the name of the content's field.
    pub fn assemble(manifest: Manifest, content: Result<T, DecodeError>) -> (read: Result<
        Packet<T>,
        DecodeError,
    >)
        ensures
            pairs_up(manifest@, content, read),
            content matches Ok(c) ==> read == Ok::<Packet<T>, DecodeError>(
                (Packet { manifest, content: c }),
            ),
    {
        match content {
            Ok(content) => Ok(Packet { manifest, content }),
            Err(e) => Err(e.in_field("payload")),
        }
    }

    /// Reads a packet from its record, with `read_content` to read the content from its datum.
    ///
    /// Where the record states no manifest or no content, the failure is returned and
    /// `read_content` is not called. Otherwise `read_content` is called once, on the content's
    /// datum, and what it returns decides: the packet with that content, or the failure.
    pub fn decode_with<F>(datum: &Value, read_content: F) -> (read: Result<Packet<T>, DecodeError>)
        where F: FnOnce(&Value) -> Result<T, DecodeError>
        requires
            forall|content: &Value| call_requires(read_content, (content,)),
        ensures
            framed(datum@) matches Err(e) ==> read == Err::<Packet<T>, DecodeError>(e),
            framed(datum@) matches Ok(parts) ==> exists|content: &Value, got: Result<T, DecodeError>|
                #[trigger] call_ensures(read_content, (content,), got) && content@ == parts.1
                    && pairs_up(parts.0, got, read),
    {
        match unframe(datum) {
            Ok((manifest, content)) => {
                let got = read_content(content);
                Packet::assemble(manifest, got)
            },
            Err(e) => Err(e),
        }
    }

    /// Writes the packet as a record, with `write_content` to write the content as a datum.
    ///
    /// `write_content` is called once. The record is read back as the manifest and the datum
    /// that `write_content` returned, and as the header that holds the manifest.
    pub fn encode_with<F>(&self, write_content: F) -> (datum: Value)
        where F: FnOnce(&T) -> Value
        requires
            call_requires(write_content, (&self.content,)),
        ensures
            exists|content: Value| #[trigger]
                call_ensures(write_content, (&self.content,), content) && frames(
                    self.manifest@,
                    content@,
                    datum@,
                ) && framed(datum@) == Ok::<(ManifestView, ValueView), DecodeError>(
                    (self.manifest@, content@),
                ),
            Header::decoded(datum@) == Ok::<HeaderView, DecodeError>(
                HeaderView { manifest: self.manifest@ },
            ),
    {
        let content = write_content(&self.content);
        frame(&self.manifest, content)
    }
}

/// The manifest of a packet; the content is dropped.
impl<T> From<Packet<T>> for Manifest {
    fn from(data: Packet<T>) -> (manifest: Manifest) {
        data.manifest
    }
}

impl<T> FromSpecImpl<Packet<T>> for Manifest {
    open spec fn obeys_from_spec() -> bool {
        true
    }

    open spec fn from_spec(data: Packet<T>) -> Manifest {
        data.manifest
    }
}

/// A packet is written as the record of its manifest and of its content's datum. It is read
/// from any record that states a manifest and a content.
impl<T: Wire> Wire for Packet<T> {
    open spec fn encodes(value: PacketView<T::V>, datum: ValueView) -> bool {
        &&& datum matches ValueView::Record(fields)
        &&& fields.len() == 2
        &&& frames(value.manifest, fields[1].1, datum)
        &&& T::encodes(value.content, fields[1].1)
    }

    open spec fn decoded(datum: ValueView) -> Result<PacketView<T::V>, DecodeError> {
        match framed(datum) {
            Ok(parts) => assembled(parts.0, T::decoded(parts.1)),
            Err(e) => Err(e),
        }
    }

    proof fn law_round_trip(value: PacketView<T::V>, datum: ValueView) {
        let content = datum->Record_0[1].1;
        lemma_framing(value.manifest, content, datum);
        T::law_round_trip(value.content, content);
    }

    fn encode(&self) -> (datum: Value)
        ensures
            Header::decoded(datum@) == Ok::<HeaderView, DecodeError>(
                HeaderView { manifest: self.manifest@ },
            ),
    {
        let content = self.content.encode();
        let datum = frame(&self.manifest, content);
        proof {
            Packet::<T>::law_round_trip(self@, datum@);
        }
        datum
    }

    fn decode(datum: &Value) -> (read: Result<Packet<T>, DecodeError>) {
        match unframe(datum) {
            Ok((manifest, content)) => Packet::assemble(manifest, T::decode(content)),
            Err(e) => Err(e),
        }
    }
}

} // verus!
