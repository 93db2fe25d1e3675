//! The executables that the manifest of a package names.

use quick_xml::events::Event;
use quick_xml::XmlVersion;
use vstd::prelude::*;
use vstd::string::*;
use vstd::utf8::*;

use crate::observation::DiscoveryDiagnosticCode;
use crate::text;
use crate::text::trimmed;

verus! {

pub const MAX_PACKAGE_MANIFEST_BYTES: usize = 262_144;

/// An attribute of a tag.
#[derive(Debug)]
pub enum XmlAttribute {
    /// Its key, and its value where that can be decoded.
    Pair(Vec<u8>, Option<String>),
    /// It is not well-formed.
    Bad,
}

pub enum AttributeView {
    Pair(Seq<u8>, Option<Seq<char>>),
    Bad,
}

impl View for XmlAttribute {
    type V = AttributeView;

    open spec fn view(&self) -> AttributeView {
        match self {
            XmlAttribute::Pair(key, value) => AttributeView::Pair(key@, text::opt_text(*value)),
            XmlAttribute::Bad => AttributeView::Bad,
        }
    }
}

/// What a reader of XML comes upon.
#[derive(Debug)]
pub enum XmlItem {
    /// The start of an element, or an empty one.
    Tag(Vec<u8>, Vec<XmlAttribute>),
    Other,
    /// The end of the input.
    End,
    /// The input is not well-formed.
    Failed,
}

pub enum ItemView {
    Tag(Seq<u8>, Seq<AttributeView>),
    Other,
    End,
    Failed,
}

pub open spec fn attribute_views(all: Seq<XmlAttribute>) -> Seq<AttributeView> {
    Seq::new(all.len(), |i: int| all[i]@)
}

impl View for XmlItem {
    type V = ItemView;

    open spec fn view(&self) -> ItemView {
        match self {
            XmlItem::Tag(name, attributes) => ItemView::Tag(name@, attribute_views(attributes@)),
            XmlItem::Other => ItemView::Other,
            XmlItem::End => ItemView::End,
            XmlItem::Failed => ItemView::Failed,
        }
    }
}

/// A `quick_xml::Reader`.
#[verifier::external_type_specification]
#[verifier::external_body]
#[verifier::reject_recursive_types(R)]
pub struct ExReader<R>(quick_xml::Reader<R>);

/// What a `quick_xml::Reader` has still to hand out, up to the first error or the
/// end of its input.
pub uninterp spec fn items_ahead(reader: quick_xml::Reader<&[u8]>) -> Seq<ItemView>;

/// What a `quick_xml::Reader` that trims text comes upon in bytes, up to the first
/// error or the end.
pub uninterp spec fn xml_items(bytes: Seq<u8>) -> Seq<ItemView>;

/// Whether the last item, and no other, ends the reading.
pub open spec fn ends_once(items: Seq<ItemView>) -> bool {
    &&& items.len() > 0
    &&& items.last() is End || items.last() is Failed
    &&& forall|i: int|
        0 <= i < items.len() - 1 ==> !(#[trigger] items[i] is End) && !(items[i] is Failed)
}

/// Calls `quick_xml::Reader::from_reader` and `Config::trim_text`: a reader that has
/// all of the bytes ahead of it. Reading ends, by an error or by the end of the
/// input.
#[verifier::external_body]
fn xml_reader(bytes: &[u8]) -> (r: quick_xml::Reader<&[u8]>)
    ensures
        items_ahead(r) == xml_items(bytes@),
        ends_once(items_ahead(r)),
{
    let mut reader = quick_xml::Reader::from_reader(bytes);
    reader.config_mut().trim_text(true);
    reader
}

/// Calls `quick_xml::Reader::read_event_into`, which hands out the next item. The
/// attributes of a tag are those of `BytesStart::attributes`, checked for
/// uniqueness, with the values of `Attribute::decoded_and_normalized_value`. Of a
/// reader that has come to the end or to an error nothing is said.
#[verifier::external_body]
fn next_xml_item(reader: &mut quick_xml::Reader<&[u8]>) -> (r: XmlItem)
    requires
        items_ahead(*old(reader)).len() > 0,
    ensures
        r@ == items_ahead(*old(reader))[0],
        !(r is End) && !(r is Failed) ==> items_ahead(*final(reader)) == items_ahead(
            *old(reader),
        ).drop_first(),
{
    let (mut buffer, decoder) = (Vec::new(), reader.decoder());
    let version = XmlVersion::Implicit1_0;
    match reader.read_event_into(&mut buffer) {
        Ok(Event::Start(e)) | Ok(Event::Empty(e)) => XmlItem::Tag(
            e.name().as_ref().to_vec(),
            e.attributes().with_checks(true).map(|a| match a {
                Ok(a) => XmlAttribute::Pair(a.key.as_ref().to_vec(), a.decoded_and_normalized_value(version, decoder).ok().map(|v| v.into_owned())),
                Err(_) => XmlAttribute::Bad,
            }).collect()),
        Ok(Event::Eof) => XmlItem::End,
        Ok(_) => XmlItem::Other,
        Err(_) => XmlItem::Failed,
    }
}

/// A name without its prefix: what stands behind its last colon.
pub open spec fn local_name(name: Seq<u8>) -> Seq<u8>
    decreases name.len(),
{
    if name.len() == 0 || name.last() == 58 {
        seq![]
    } else {
        local_name(name.drop_last()).push(name.last())
    }
}

proof fn lemma_local_name(name: Seq<u8>, from: int)
    requires
        0 <= from <= name.len(),
        from == 0 || name[from - 1] == 58,
        forall|k: int| from <= k < name.len() ==> name[k] != 58,
    ensures
        local_name(name) == name.skip(from),
    decreases name.len(),
{
    if from < name.len() {
        lemma_local_name(name.drop_last(), from);
        assert(name.drop_last().skip(from).push(name.last()) =~= name.skip(from));
    } else {
        assert(name.skip(from) =~= seq![]);
    }
}

/// Whether a name, without its prefix, is that one.
fn is_named(name: &Vec<u8>, want: &[u8]) -> (r: bool)
    ensures
        r == (local_name(name@) == want@),
{
    let mut from: usize = name.len();
    while from > 0 && name[from - 1] != 58
        invariant
            from <= name@.len(),
            forall|k: int| from <= k < name@.len() ==> name@[k] != 58,
        decreases from,
    {
        from -= 1;
    }
    proof {
        lemma_local_name(name@, from as int);
    }
    if name.len() - from != want.len() {
        return false;
    }
    let n: usize = name.len();
    let mut i: usize = 0;
    while i < want.len()
        invariant
            i <= want@.len(),
            n == name@.len(),
            from + want@.len() == n,
            local_name(name@) == name@.skip(from as int),
            forall|k: int| 0 <= k < i ==> name@.skip(from as int)[k] == want@[k],
        decreases want@.len() - i,
    {
        if name[from + i] != want[i] {
            assert(name@.skip(from as int)[i as int] != want@[i as int]);
            return false;
        }
        i += 1;
    }
    assert(name@.skip(from as int) =~= want@);
    true
}

/// The executables that the attributes of an application name.
pub open spec fn named_executables(attributes: Seq<AttributeView>) -> Option<Seq<Seq<char>>>
    decreases attributes.len(),
{
    if attributes.len() == 0 {
        Some(seq![])
    } else {
        match named_executables(attributes.drop_last()) {
            None => None,
            Some(before) => match attributes.last() {
                AttributeView::Bad => None,
                AttributeView::Pair(key, value) => if local_name(key) != encode_utf8(
                    "Executable"@,
                ) {
                    Some(before)
                } else {
                    match value {
                        None => None,
                        Some(s) => Some(
                            if text::trim(s).len() == 0 {
                                before
                            } else {
                                before.push(s)
                            },
                        ),
                    }
                },
            },
        }
    }
}

/// The executables that a manifest names, in their order. One bad attribute of an
/// application, or an error before the end, spoils the manifest.
pub open spec fn manifest_executables(items: Seq<ItemView>) -> Option<Seq<Seq<char>>>
    decreases items.len(),
{
    if items.len() == 0 {
        Some(seq![])
    } else {
        match manifest_executables(items.drop_last()) {
            None => None,
            Some(before) => match items.last() {
                ItemView::Failed => None,
                ItemView::Tag(name, attributes) => if local_name(name) != encode_utf8(
                    "Application"@,
                ) {
                    Some(before)
                } else {
                    match named_executables(attributes) {
                        None => None,
                        Some(more) => Some(before + more),
                    }
                },
                _ => Some(before),
            },
        }
    }
}

proof fn lemma_spoilt_attributes(attributes: Seq<AttributeView>, i: int)
    requires
        0 <= i <= attributes.len(),
        named_executables(attributes.take(i)) is None,
    ensures
        named_executables(attributes) is None,
    decreases attributes.len() - i,
{
    if i < attributes.len() {
        assert(attributes.take(i + 1).drop_last() =~= attributes.take(i));
        lemma_spoilt_attributes(attributes, i + 1);
    } else {
        assert(attributes.take(i) =~= attributes);
    }
}

proof fn lemma_spoilt_items(items: Seq<ItemView>, i: int)
    requires
        0 <= i <= items.len(),
        manifest_executables(items.take(i)) is None,
    ensures
        manifest_executables(items) is None,
    decreases items.len() - i,
{
    if i < items.len() {
        assert(items.take(i + 1).drop_last() =~= items.take(i));
        lemma_spoilt_items(items, i + 1);
    } else {
        assert(items.take(i) =~= items);
    }
}

/// Adds the executables that the attributes of an application name. Whether all of
/// them could be taken.
fn take_executables(attributes: &Vec<XmlAttribute>, executables: &mut Vec<String>) -> (r: bool)
    ensures
        match named_executables(attribute_views(attributes@)) {
            Some(more) => r && text::texts(final(executables)@) == text::texts(old(executables)@)
                + more,
            None => !r,
        },
{
    let ghost all = attribute_views(attributes@);
    let ghost before = text::texts(executables@);
    let mut i: usize = 0;
    assert(all.take(0) =~= seq![]);
    assert(text::texts(executables@) =~= before + named_executables(all.take(0))->0);
    while i < attributes.len()
        invariant
            i <= attributes@.len(),
            all == attribute_views(attributes@),
            named_executables(all.take(i as int)) is Some,
            text::texts(executables@) == before + named_executables(all.take(i as int))->0,
        decreases attributes@.len() - i,
    {
        proof {
            assert(all.take(i + 1).drop_last() =~= all.take(i as int));
            assert(all.take(i + 1).last() == attributes@[i as int]@);
        }
        match &attributes[i] {
            XmlAttribute::Bad => {
                proof {
                    lemma_spoilt_attributes(all, i + 1);
                }
                return false;
            },
            XmlAttribute::Pair(key, value) => {
                if is_named(key, "Executable".as_bytes()) {
                    match value {
                        None => {
                            proof {
                                lemma_spoilt_attributes(all, i + 1);
                            }
                            return false;
                        },
                        Some(s) => {
                            if !trimmed(s.as_str()).as_str().is_empty() {
                                let s = s.clone();
                                proof {
                                    assert(text::texts(executables@.push(s)) =~= text::texts(
                                        executables@,
                                    ).push(s@));
                                    assert(before + named_executables(all.take(i + 1))->0 =~= (
                                    before + named_executables(all.take(i as int))->0).push(s@));
                                }
                                executables.push(s);
                            }
                        },
                    }
                }
            },
        }
        i += 1;
    }
    assert(all.take(i as int) =~= all);
    true
}

pub open spec fn executables_view(r: Result<Vec<String>, DiscoveryDiagnosticCode>) -> Result<
    Seq<Seq<char>>,
    DiscoveryDiagnosticCode,
> {
    match r {
        Ok(v) => Ok(text::texts(v@)),
        Err(code) => Err(code),
    }
}

/// What a list of items comes to.
pub open spec fn executables_of_items(items: Seq<ItemView>) -> Result<
    Seq<Seq<char>>,
    DiscoveryDiagnosticCode,
> {
    match manifest_executables(items) {
        Some(v) => Ok(v),
        None => Err(DiscoveryDiagnosticCode::InvalidSourceRecord),
    }
}

/// Takes one more item of a manifest. Whether it could be taken.
pub fn take_item(item: &XmlItem, executables: &mut Vec<String>) -> (r: bool)
    ensures
        match manifest_executables(seq![item@]) {
            Some(more) => r && text::texts(final(executables)@) == text::texts(old(executables)@)
                + more,
            None => !r,
        },
{
    proof {
        assert(seq![item@].drop_last() =~= seq![]);
        assert(seq![item@].last() == item@);
        assert(manifest_executables(seq![]) == Some(Seq::<Seq<char>>::empty()));
        assert(text::texts(executables@) + Seq::<Seq<char>>::empty() =~= text::texts(executables@));
    }
    match item {
        XmlItem::Failed => false,
        XmlItem::Tag(name, attributes) => {
            if is_named(name, "Application".as_bytes()) {
                proof {
                    let more = named_executables(attribute_views(attributes@));
                    if more is Some {
                        assert(Seq::<Seq<char>>::empty() + more->0 =~= more->0);
                    }
                }
                take_executables(attributes, executables)
            } else {
                true
            }
        },
        _ => true,
    }
}

proof fn lemma_one_more_item(items: Seq<ItemView>)
    requires
        items.len() > 0,
        manifest_executables(items.drop_last()) is Some,
    ensures
        manifest_executables(items) == match manifest_executables(seq![items.last()]) {
            Some(more) => Some(manifest_executables(items.drop_last())->0 + more),
            None => None,
        },
{
    let last = seq![items.last()];
    assert(last.drop_last() =~= seq![]);
    assert(last.last() == items.last());
    assert(manifest_executables(last.drop_last()) == Some(Seq::<Seq<char>>::empty()));
    let before = manifest_executables(items.drop_last())->0;
    assert(before + Seq::<Seq<char>>::empty() =~= before);
    if let ItemView::Tag(_, attributes) = items.last() {
        if named_executables(attributes) is Some {
            let more = named_executables(attributes)->0;
            assert(Seq::<Seq<char>>::empty() + more =~= more);
        }
    }
}

/// The executables that a manifest names. A manifest that is too long is not read.
pub fn parse_appx_manifest_executables(bytes: &[u8]) -> (r: Result<
    Vec<String>,
    DiscoveryDiagnosticCode,
>)
    ensures
        executables_view(r) == if bytes@.len() > MAX_PACKAGE_MANIFEST_BYTES {
            Err(DiscoveryDiagnosticCode::OversizedInput)
        } else {
            executables_of_items(xml_items(bytes@))
        },
{
    if bytes.len() > MAX_PACKAGE_MANIFEST_BYTES {
        return Err(DiscoveryDiagnosticCode::OversizedInput);
    }
    let mut reader = xml_reader(bytes);
    let ghost all = xml_items(bytes@);
    let ghost mut i: int = 0;
    let mut executables: Vec<String> = Vec::new();
    proof {
        assert(all.skip(0) =~= all);
        assert(all.take(0) =~= seq![]);
        assert(text::texts(executables@) =~= seq![]);
    }
    loop
        invariant
            ends_once(all),
            0 <= i < all.len(),
            all == xml_items(bytes@),
            bytes@.len() <= MAX_PACKAGE_MANIFEST_BYTES,
            items_ahead(reader) == all.skip(i),
            manifest_executables(all.take(i)) == Some(text::texts(executables@)),
        decreases all.len() - i,
    {
        let item = next_xml_item(&mut reader);
        proof {
            assert(item@ == all[i]);
            assert(all.take(i + 1).drop_last() =~= all.take(i));
            assert(all.take(i + 1).last() == all[i]);
            assert(all.skip(i).drop_first() =~= all.skip(i + 1));
            lemma_one_more_item(all.take(i + 1));
        }
        if !take_item(&item, &mut executables) {
            proof {
                lemma_spoilt_items(all, i + 1);
            }
            return Err(DiscoveryDiagnosticCode::InvalidSourceRecord);
        }
        match item {
            XmlItem::End => {
                proof {
                    assert(i == all.len() - 1);
                    assert(all.take(i + 1) =~= all);
                }
                return Ok(executables);
            },
            _ => {},
        }
        proof {
            if i == all.len() - 1 {
                assert(all.last() is Failed);
            }
            i = i + 1;
        }
    }
}

} // verus!
