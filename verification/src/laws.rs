//! What holds of the written forms of manifests, headers and packets.

use crate::error::DecodeError;
use crate::header::{Header, HeaderView};
use crate::labels::Labels;
use crate::manifest::{Manifest, ManifestView};
use crate::packet::{framed, frames, lemma_framing, Packet, PacketView};
use crate::value::{lemma_held_despite, lemma_held_once, Held, ValueView};
use crate::wire::Wire;
use vstd::prelude::*;
use vstd::std_specs::convert::FromSpec;

verus! {

/// The record of a packet, whatever the content is written as, is read as the header that holds
/// the packet's manifest.
pub proof fn law_header_of_frame(manifest: ManifestView, content: ValueView, datum: ValueView)
    requires
        frames(manifest, content, datum),
    ensures
        Header::decoded(datum) == Ok::<HeaderView, DecodeError>(HeaderView { manifest }),
{
    lemma_framing(manifest, content, datum);
}

/// Whatever a packet is written as is read as the header that holds the packet's manifest.
pub proof fn law_header_of_packet<T: Wire>(packet: PacketView<T::V>, datum: ValueView)
    requires
        Packet::<T>::encodes(packet, datum),
    ensures
        Header::decoded(datum) == Ok::<HeaderView, DecodeError>(
            HeaderView { manifest: packet.manifest },
        ),
{
    lemma_framing(packet.manifest, datum->Record_0[1].1, datum);
}

/// Whatever a packet is written as is read back as the packet: the same manifest, field by
/// field, with the same instant of creation, and the same content.
pub proof fn law_packet_round_trip<T: Wire>(packet: PacketView<T::V>, datum: ValueView)
    requires
        Packet::<T>::encodes(packet, datum),
    ensures
        Packet::<T>::decoded(datum) == Ok::<PacketView<T::V>, DecodeError>(packet),
{
    Packet::<T>::law_round_trip(packet, datum);
}

/// A manifest is written with a field `labels` where it has labels, and without one where it
/// has none; read back, it has the labels it had.
pub proof fn law_labels_written_when_any(manifest: ManifestView, datum: ValueView)
    requires
        Manifest::encodes(manifest, datum),
    ensures
        manifest.labels == Map::<Seq<char>, Seq<char>>::empty() <==> datum.field("labels"@)
            == Held::Absent,
        Manifest::decoded(datum) matches Ok(back) && back.labels == manifest.labels,
{
    let fields = datum->Record_0;
    crate::manifest::lemma_field_names();
    Manifest::law_round_trip(manifest, datum);
    if fields.len() == 7 {
        lemma_held_once(fields, "labels"@, 6);
    }
}

/// A record without a field `labels` that is read as a manifest is read as one without labels.
pub proof fn law_labels_default(datum: ValueView)
    requires
        datum.field("labels"@) == Held::Absent,
    ensures
        Manifest::decoded(datum) matches Ok(manifest) ==> manifest.labels == Map::<
            Seq<char>,
            Seq<char>,
        >::empty(),
{
}

/// A field under another name than `manifest`, added to a record anywhere, does not change
/// what the record is read as, as a header.
pub proof fn law_header_ignores_other_fields(
    fields: Seq<(Seq<char>, ValueView)>,
    at: int,
    extra: (Seq<char>, ValueView),
)
    requires
        0 <= at <= fields.len(),
        extra.0 != "manifest"@,
    ensures
        Header::decoded(ValueView::Record(fields.insert(at, extra))) == Header::decoded(
            ValueView::Record(fields),
        ),
{
    lemma_held_despite(fields, at, extra, "manifest"@);
}

/// A field under another name than `manifest` and `payload`, added to a record anywhere, does
/// not change what the record is read as, as a packet.
pub proof fn law_packet_ignores_other_fields<T: Wire>(
    fields: Seq<(Seq<char>, ValueView)>,
    at: int,
    extra: (Seq<char>, ValueView),
)
    requires
        0 <= at <= fields.len(),
        extra.0 != "manifest"@,
        extra.0 != "payload"@,
    ensures
        Packet::<T>::decoded(ValueView::Record(fields.insert(at, extra))) == Packet::<T>::decoded(
            ValueView::Record(fields),
        ),
{
    lemma_held_despite(fields, at, extra, "manifest"@);
    lemma_held_despite(fields, at, extra, "payload"@);
}

/// A field under a name that is none of a manifest's, added to a record anywhere, does not
/// change what the record is read as, as a manifest.
pub proof fn law_manifest_ignores_other_fields(
    fields: Seq<(Seq<char>, ValueView)>,
    at: int,
    extra: (Seq<char>, ValueView),
)
    requires
        0 <= at <= fields.len(),
        extra.0 != "domain"@,
        extra.0 != "scope"@,
        extra.0 != "kind"@,
        extra.0 != "version"@,
        extra.0 != "origin"@,
        extra.0 != "ctime"@,
        extra.0 != "labels"@,
    ensures
        Manifest::decoded(ValueView::Record(fields.insert(at, extra))) == Manifest::decoded(
            ValueView::Record(fields),
        ),
{
    lemma_held_despite(fields, at, extra, "domain"@);
    lemma_held_despite(fields, at, extra, "scope"@);
    lemma_held_despite(fields, at, extra, "kind"@);
    lemma_held_despite(fields, at, extra, "version"@);
    lemma_held_despite(fields, at, extra, "origin"@);
    lemma_held_despite(fields, at, extra, "ctime"@);
    lemma_held_despite(fields, at, extra, "labels"@);
}

/// A record is read as a packet only where its content is read as content: where the content's
/// datum is not read as a `T`, the record is not read as a packet of `T` at all.
pub proof fn law_content_must_fit<T: Wire>(datum: ValueView)
    requires
        framed(datum) matches Ok(parts) && T::decoded(parts.1) is Err,
    ensures
        Packet::<T>::decoded(datum) is Err,
{
}

/// A text is read neither as labels, nor as a manifest, a header or a packet. So a record that
/// states a manifest, and a text for content, is not read as a packet of any of these.
pub proof fn law_text_is_no_record<T: Wire>(datum: ValueView, text: Seq<char>)
    requires
        framed(datum) matches Ok(parts) && parts.1 == ValueView::Text(text),
    ensures
        Labels::decoded(ValueView::Text(text)) is Err,
        Manifest::decoded(ValueView::Text(text)) is Err,
        Header::decoded(ValueView::Text(text)) is Err,
        Packet::<T>::decoded(ValueView::Text(text)) is Err,
        Packet::<Labels>::decoded(datum) is Err,
        Packet::<Manifest>::decoded(datum) is Err,
        Packet::<Header>::decoded(datum) is Err,
        Packet::<Packet<T>>::decoded(datum) is Err,
{
}

/// The header of a packet, put together with the packet's content, is the packet again.
pub proof fn law_header_and_content<T>(packet: Packet<T>)
    ensures
        Packet::spec_from_obj(<Header as FromSpec<Packet<T>>>::from_spec(packet), packet.content)
            == packet,
{
}

/// The manifest of a packet is the manifest of the packet's header, and the header of a
/// manifest holds that manifest.
pub proof fn law_projections_agree<T>(packet: Packet<T>)
    ensures
        <Manifest as FromSpec<Packet<T>>>::from_spec(packet) == <Header as FromSpec<
            Packet<T>,
        >>::from_spec(packet).manifest,
        <Header as FromSpec<Manifest>>::from_spec(packet.manifest) == <Header as FromSpec<
            Packet<T>,
        >>::from_spec(packet),
{
}

} // verus!
