//! The parser of what the management surface prints: structured listings,
//! which are JSON, and line-oriented listings.
//!
//! A structured listing is an array of records, or a single record where
//! the system found one result only. Its records are first read into plain
//! values, [`AdapterRecord`] and [`AddressRecord`]; what a listing of such
//! records decodes to is decided on those.

use crate::config::{adapter_views, AdapterInfo, AdapterInfoView, ConfigError, ConfigErrorView};
use crate::json::{
    count_member, json_array_items, json_document, member_count, member_text, parse_array,
    parse_document, text_member,
};
use crate::text::{
    chars_of, contains_replacement, is_garbled, is_space, lemma_trim_ends, rows, split,
    split_fields, string_of, texts, trim, trimmed, REPLACEMENT_CHARACTER,
};
use vstd::prelude::*;

verus! {

/// The members of one record of the adapter listing, each as far as the
/// record has it as a string.
#[derive(Debug, Clone, PartialEq, Eq)]
pub struct AdapterRecord {
    /// The adapter's name.
    pub name: Option<String>,
    /// The adapter's status.
    pub status: Option<String>,
    /// The adapter's description.
    pub description: Option<String>,
}

/// The view of an [`AdapterRecord`].
pub struct AdapterRecordView {
    pub name: Option<Seq<char>>,
    pub status: Option<Seq<char>>,
    pub description: Option<Seq<char>>,
}

/// The view of a text that may be absent.
pub open spec fn text_view(s: Option<String>) -> Option<Seq<char>> {
    match s {
        Some(s) => Some(s@),
        None => None,
    }
}

impl View for AdapterRecord {
    type V = AdapterRecordView;

    open spec fn view(&self) -> AdapterRecordView {
        AdapterRecordView {
            name: text_view(self.name),
            status: text_view(self.status),
            description: text_view(self.description),
        }
    }
}

/// The members of one record of the address listing: the address as far
/// as the record has it as a string, the prefix length as far as it has it
/// as a non-negative integer.
#[derive(Debug, Clone, PartialEq, Eq)]
pub struct AddressRecord {
    /// The IPv4 address.
    pub address: Option<String>,
    /// The prefix length.
    pub prefix: Option<u64>,
}

/// The view of an [`AddressRecord`].
pub struct AddressRecordView {
    pub address: Option<Seq<char>>,
    pub prefix: Option<u64>,
}

impl View for AddressRecord {
    type V = AddressRecordView;

    open spec fn view(&self) -> AddressRecordView {
        AddressRecordView { address: text_view(self.address), prefix: self.prefix }
    }
}

/// The views of the adapter records of `v`, in order.
pub open spec fn adapter_record_views(v: Seq<AdapterRecord>) -> Seq<AdapterRecordView> {
    Seq::new(v.len(), |i: int| v[i]@)
}

/// The views of the address records of `v`, in order.
pub open spec fn address_record_views(v: Seq<AddressRecord>) -> Seq<AddressRecordView> {
    Seq::new(v.len(), |i: int| v[i]@)
}

/// The views of the records of an array that may be absent.
pub open spec fn adapter_array_view(array: Option<Vec<AdapterRecord>>) -> Option<
    Seq<AdapterRecordView>,
> {
    match array {
        Some(records) => Some(adapter_record_views(records@)),
        None => None,
    }
}

/// The view of an adapter record that may be absent.
pub open spec fn adapter_single_view(single: Option<AdapterRecord>) -> Option<AdapterRecordView> {
    match single {
        Some(record) => Some(record@),
        None => None,
    }
}

/// The views of the records of an array that may be absent.
pub open spec fn address_array_view(array: Option<Vec<AddressRecord>>) -> Option<
    Seq<AddressRecordView>,
> {
    match array {
        Some(records) => Some(address_record_views(records@)),
        None => None,
    }
}

/// The view of an address record that may be absent.
pub open spec fn address_single_view(single: Option<AddressRecord>) -> Option<AddressRecordView> {
    match single {
        Some(record) => Some(record@),
        None => None,
    }
}

/// The friendly label of an adapter: its name, or its description where
/// the name is garbled and a description is at hand, followed by the
/// status in parentheses.
pub open spec fn label_text(
    name: Seq<char>,
    status: Seq<char>,
    description: Option<Seq<char>>,
) -> Seq<char> {
    let shown = if is_garbled(name) && description is Some {
        description->0
    } else {
        name
    };
    shown + seq![' ', '('] + status + seq![')']
}

/// The adapter that a record describes. A record without a name or
/// without a status describes none.
pub open spec fn adapter_of(record: AdapterRecordView) -> Option<AdapterInfoView> {
    if record.name is Some && record.status is Some {
        Some(
            AdapterInfoView {
                name: record.name->0,
                status: label_text(record.name->0, record.status->0, record.description),
            },
        )
    } else {
        None
    }
}

/// Every record of `records` describes an adapter.
pub open spec fn all_describe_adapters(records: Seq<AdapterRecordView>) -> bool {
    forall|i: int| 0 <= i < records.len() ==> (#[trigger] adapter_of(records[i])) is Some
}

/// The adapters that the records describe, each at the place of its
/// record.
pub open spec fn adapters_of(records: Seq<AdapterRecordView>) -> Seq<AdapterInfoView> {
    Seq::new(records.len(), |i: int| adapter_of(records[i])->0)
}

/// What an adapter listing decodes to; `array` is what it holds read as an
/// array of records, `single` what it holds read as a single record, and
/// `text` the listing itself. The array comes first: it gives the adapters
/// of its records, provided that every record describes an adapter, so an
/// empty array gives none. Where there is no array, the single record must
/// describe an adapter. In every other case the listing is reported as
/// unparseable, with its text: adapters are never returned in part.
pub open spec fn adapters_of_listing(
    array: Option<Seq<AdapterRecordView>>,
    single: Option<AdapterRecordView>,
    text: Seq<char>,
) -> Result<Seq<AdapterInfoView>, ConfigErrorView> {
    match array {
        Some(records) => if all_describe_adapters(records) {
            Ok(adapters_of(records))
        } else {
            Err(ConfigErrorView::UnparseableOutput(text))
        },
        None => match single {
            Some(record) => match adapter_of(record) {
                Some(adapter) => Ok(seq![adapter]),
                None => Err(ConfigErrorView::UnparseableOutput(text)),
            },
            None => Err(ConfigErrorView::UnparseableOutput(text)),
        },
    }
}

/// The records of a listing in their order: those of the array, or the
/// single record where there is no array.
pub open spec fn listing_records(
    array: Option<Seq<AdapterRecordView>>,
    single: Option<AdapterRecordView>,
) -> Seq<AdapterRecordView> {
    match array {
        Some(records) => records,
        None => match single {
            Some(record) => seq![record],
            None => Seq::<AdapterRecordView>::empty(),
        },
    }
}

/// `adapters` holds one adapter for each record of a listing, each at the
/// place of its record: for the records of the array, or for the single
/// record where there is no array.
pub open spec fn is_listing_of(
    adapters: Seq<AdapterInfoView>,
    array: Option<Seq<AdapterRecordView>>,
    single: Option<AdapterRecordView>,
) -> bool {
    match array {
        Some(records) => {
            &&& adapters.len() == records.len()
            &&& forall|i: int|
                0 <= i < records.len() ==> adapter_of(#[trigger] records[i]) == Some(adapters[i])
        },
        None => {
            &&& single is Some
            &&& adapters.len() == 1
            &&& adapter_of(single->0) == Some(adapters[0])
        },
    }
}

/// The record that a JSON document holds, by its members `Name`, `Status`
/// and `DisplayName`.
pub open spec fn adapter_record_of(doc: serde_json::Value) -> AdapterRecordView {
    AdapterRecordView {
        name: member_text(doc, "Name"@),
        status: member_text(doc, "Status"@),
        description: member_text(doc, "DisplayName"@),
    }
}

/// The records that the documents of `items` hold, in order.
pub open spec fn adapter_records_of(items: Seq<serde_json::Value>) -> Seq<AdapterRecordView> {
    Seq::new(items.len(), |i: int| adapter_record_of(items[i]))
}

/// The records of the array that `text` holds, if it holds one.
pub open spec fn adapter_array_of(text: Seq<char>) -> Option<Seq<AdapterRecordView>> {
    match json_array_items(text) {
        Some(items) => Some(adapter_records_of(items)),
        None => None,
    }
}

/// The record of the document that `text` holds, if it holds one.
pub open spec fn adapter_single_of(text: Seq<char>) -> Option<AdapterRecordView> {
    match json_document(text) {
        Some(doc) => Some(adapter_record_of(doc)),
        None => None,
    }
}

/// `adapters` holds one adapter for each record of the listing `text`,
/// each at the place of its record.
pub open spec fn is_decoded_listing(adapters: Seq<AdapterInfoView>, text: Seq<char>) -> bool {
    match json_array_items(text) {
        Some(items) => {
            &&& adapters.len() == items.len()
            &&& forall|i: int|
                0 <= i < items.len() ==> adapter_of(adapter_record_of(#[trigger] items[i])) == Some(
                    adapters[i],
                )
        },
        None => {
            &&& json_document(text) is Some
            &&& adapters.len() == 1
            &&& adapter_of(adapter_record_of(json_document(text)->0)) == Some(adapters[0])
        },
    }
}

/// What the adapter listing `text` decodes to.
pub open spec fn decoded_adapters(text: Seq<char>) -> Result<
    Seq<AdapterInfoView>,
    ConfigErrorView,
> {
    adapters_of_listing(adapter_array_of(text), adapter_single_of(text), text)
}

/// The address and prefix length that a record holds. A record without
/// one of the two holds none.
pub open spec fn address_of(record: AddressRecordView) -> Option<(Seq<char>, u64)> {
    if record.address is Some && record.prefix is Some {
        Some((record.address->0, record.prefix->0))
    } else {
        None
    }
}

/// What the first record of `records` that holds an address holds.
pub open spec fn first_address(records: Seq<AddressRecordView>) -> Option<(Seq<char>, u64)>
    decreases records.len(),
{
    if records.len() == 0 {
        None
    } else {
        match address_of(records.first()) {
            Some(found) => Some(found),
            None => first_address(records.drop_first()),
        }
    }
}

/// What an address listing decodes to; `array` is what it holds read as an
/// array of records, `single` what it holds read as a single record. The
/// array comes first, and gives what its first record with an address
/// holds. Where there is no array, the single record is looked at.
pub open spec fn address_of_listing(
    array: Option<Seq<AddressRecordView>>,
    single: Option<AddressRecordView>,
) -> Option<(Seq<char>, u64)> {
    match array {
        Some(records) => first_address(records),
        None => match single {
            Some(record) => address_of(record),
            None => None,
        },
    }
}

/// The record that a JSON document holds, by its members `IPAddress` and
/// `PrefixLength`.
pub open spec fn address_record_of(doc: serde_json::Value) -> AddressRecordView {
    AddressRecordView {
        address: member_text(doc, "IPAddress"@),
        prefix: member_count(doc, "PrefixLength"@),
    }
}

/// The records that the documents of `items` hold, in order.
pub open spec fn address_records_of(items: Seq<serde_json::Value>) -> Seq<AddressRecordView> {
    Seq::new(items.len(), |i: int| address_record_of(items[i]))
}

/// The records of the array that `text` holds, if it holds one.
pub open spec fn address_array_of(text: Seq<char>) -> Option<Seq<AddressRecordView>> {
    match json_array_items(text) {
        Some(items) => Some(address_records_of(items)),
        None => None,
    }
}

/// The record of the document that `text` holds, if it holds one.
pub open spec fn address_single_of(text: Seq<char>) -> Option<AddressRecordView> {
    match json_document(text) {
        Some(doc) => Some(address_record_of(doc)),
        None => None,
    }
}

/// What the address listing `text` decodes to.
pub open spec fn decoded_address(text: Seq<char>) -> Option<(Seq<char>, u64)> {
    address_of_listing(address_array_of(text), address_single_of(text))
}

/// The lines of `lines` without the white space at their ends, in order,
/// leaving out those that are then empty.
pub open spec fn nonblank_trimmed(lines: Seq<Seq<char>>) -> Seq<Seq<char>>
    decreases lines.len(),
{
    if lines.len() == 0 {
        Seq::<Seq<char>>::empty()
    } else {
        let line = trim(lines.last());
        if line.len() > 0 {
            nonblank_trimmed(lines.drop_last()).push(line)
        } else {
            nonblank_trimmed(lines.drop_last())
        }
    }
}

/// The values of a line-oriented listing: each line that is not blank,
/// without the white space at its ends.
pub open spec fn listing_values_of(text: Seq<char>) -> Seq<Seq<char>> {
    nonblank_trimmed(split(text, '\n'))
}

/// The friendly label of an adapter. It is built on the description where
/// the name holds the replacement character, and on the name otherwise or
/// where there is no description.
pub fn friendly_label(name: &str, status: &str, description: Option<&str>) -> (r: String)
    ensures
        r@ == label_text(
            name@,
            status@,
            match description {
                Some(d) => Some(d@),
                None => None,
            },
        ),
{
    let shown: &str = match description {
        Some(d) => if contains_replacement(name) {
            d
        } else {
            name
        },
        None => name,
    };
    let mut r = String::from_str(shown);
    r.push(' ');
    r.push('(');
    r.append(status);
    r.push(')');
    r
}

/// The adapter that `record` describes.
pub fn adapter_from_record(record: &AdapterRecord) -> (r: Option<AdapterInfo>)
    ensures
        r is Some <==> adapter_of(record@) is Some,
        r matches Some(adapter) ==> adapter_of(record@) == Some(adapter@),
{
    match (&record.name, &record.status) {
        (Some(name), Some(status)) => {
            let label = match &record.description {
                Some(description) => friendly_label(
                    name.as_str(),
                    status.as_str(),
                    Some(description.as_str()),
                ),
                None => friendly_label(name.as_str(), status.as_str(), None),
            };
            Some(AdapterInfo { name: name.clone(), status: label })
        },
        _ => None,
    }
}

/// Decodes an adapter listing whose records have been read: `array` is
/// what the listing holds read as an array, `single` what it holds read as
/// a single record, `text` the listing itself. Either every record gives
/// its adapter, in the order of the records, or the listing is reported as
/// unparseable.
pub fn adapters_from_listing(
    array: Option<Vec<AdapterRecord>>,
    single: Option<AdapterRecord>,
    text: &str,
) -> (r: Result<Vec<AdapterInfo>, ConfigError>)
    ensures
        r matches Ok(adapters) ==> adapters_of_listing(
            adapter_array_view(array),
            adapter_single_view(single),
            text@,
        ) == Ok::<Seq<AdapterInfoView>, ConfigErrorView>(adapter_views(adapters@)),
        r matches Err(e) ==> adapters_of_listing(
            adapter_array_view(array),
            adapter_single_view(single),
            text@,
        ) == Err::<Seq<AdapterInfoView>, ConfigErrorView>(e@),
        r matches Ok(adapters) ==> is_listing_of(
            adapter_views(adapters@),
            adapter_array_view(array),
            adapter_single_view(single),
        ),
        r matches Err(e) ==> e@ == ConfigErrorView::UnparseableOutput(text@),
{
    proof {
        lemma_listing_keeps_every_record(
            adapter_array_view(array),
            adapter_single_view(single),
            text@,
        );
    }
    match array {
        Some(records) => {
            let ghost views = adapter_record_views(records@);
            let mut adapters: Vec<AdapterInfo> = Vec::new();
            let mut i: usize = 0;
            while i < records.len()
                invariant
                    i <= records.len(),
                    adapters@.len() == i,
                    views == adapter_record_views(records@),
                    adapter_array_view(array) == Some(views),
                    forall|j: int|
                        0 <= j < i ==> (#[trigger] adapter_of(views[j])) == Some(adapters@[j]@),
                decreases records.len() - i,
            {
                assert(views[i as int] == records@[i as int]@);
                match adapter_from_record(&records[i]) {
                    Some(adapter) => {
                        adapters.push(adapter);
                    },
                    None => {
                        assert(!((#[trigger] adapter_of(views[i as int])) is Some));
                        return Err(ConfigError::UnparseableOutput(String::from_str(text)));
                    },
                }
                i += 1;
            }
            assert(adapter_views(adapters@) == adapters_of(views));
            Ok(adapters)
        },
        None => match single {
            Some(record) => match adapter_from_record(&record) {
                Some(adapter) => {
                    let mut adapters: Vec<AdapterInfo> = Vec::new();
                    adapters.push(adapter);
                    assert(adapter_views(adapters@) == seq![adapter@]);
                    Ok(adapters)
                },
                None => Err(ConfigError::UnparseableOutput(String::from_str(text))),
            },
            None => Err(ConfigError::UnparseableOutput(String::from_str(text))),
        },
    }
}

/// Reads the members of one record of the adapter listing.
pub fn read_adapter_record(doc: &serde_json::Value) -> (record: AdapterRecord)
    ensures
        record@ == adapter_record_of(*doc),
{
    AdapterRecord {
        name: text_member(doc, "Name"),
        status: text_member(doc, "Status"),
        description: text_member(doc, "DisplayName"),
    }
}

/// Decodes the adapter listing: an array of records, or a single record
/// where the system found one adapter only. The text is read as an array
/// first, and as a single record only where it is no array.
pub fn decode_adapters(text: &str) -> (r: Result<Vec<AdapterInfo>, ConfigError>)
    ensures
        r matches Ok(adapters) ==> decoded_adapters(text@) == Ok::<
            Seq<AdapterInfoView>,
            ConfigErrorView,
        >(adapter_views(adapters@)),
        r matches Err(e) ==> decoded_adapters(text@) == Err::<
            Seq<AdapterInfoView>,
            ConfigErrorView,
        >(e@),
        r matches Ok(adapters) ==> is_decoded_listing(adapter_views(adapters@), text@),
        r matches Err(e) ==> e@ == ConfigErrorView::UnparseableOutput(text@),
{
    match parse_array(text) {
        Ok(items) => {
            let mut records: Vec<AdapterRecord> = Vec::new();
            let mut i: usize = 0;
            while i < items.len()
                invariant
                    i <= items.len(),
                    records@.len() == i,
                    forall|j: int|
                        0 <= j < i ==> (#[trigger] records@[j])@ == adapter_record_of(items@[j]),
                decreases items.len() - i,
            {
                let record = read_adapter_record(&items[i]);
                records.push(record);
                i += 1;
            }
            assert(adapter_record_views(records@) == adapter_records_of(items@));
            adapters_from_listing(Some(records), None, text)
        },
        Err(_) => match parse_document(text) {
            Ok(doc) => adapters_from_listing(None, Some(read_adapter_record(&doc)), text),
            Err(_) => adapters_from_listing(None, None, text),
        },
    }
}

/// The address and the prefix length that `record` holds.
pub fn address_from_record(record: &AddressRecord) -> (r: Option<(String, u64)>)
    ensures
        r is Some <==> address_of(record@) is Some,
        r matches Some(found) ==> address_of(record@) == Some((found.0@, found.1)),
{
    match (&record.address, record.prefix) {
        (Some(address), Some(prefix)) => Some((address.clone(), prefix)),
        _ => None,
    }
}

/// Decodes an address listing whose records have been read: `array` is
/// what the listing holds read as an array, `single` what it holds read as
/// a single record. Gives the address and the prefix length of the first
/// record of the array that holds both, or of the single record where
/// there is no array.
pub fn address_from_listing(array: Option<Vec<AddressRecord>>, single: Option<AddressRecord>) -> (r:
    Option<(String, u64)>)
    ensures
        r is Some <==> address_of_listing(address_array_view(array), address_single_view(single))
            is Some,
        r matches Some(found) ==> address_of_listing(
            address_array_view(array),
            address_single_view(single),
        ) == Some((found.0@, found.1)),
{
    match array {
        Some(records) => {
            let ghost views = address_record_views(records@);
            let mut i: usize = 0;
            proof {
                assert(views.skip(0) == views);
            }
            while i < records.len()
                invariant
                    i <= records.len(),
                    views == address_record_views(records@),
                    address_array_view(array) == Some(views),
                    first_address(views) == first_address(views.skip(i as int)),
                decreases records.len() - i,
            {
                proof {
                    assert(views.skip(i as int).drop_first() == views.skip(i + 1));
                    assert(views.skip(i as int).first() == records@[i as int]@);
                }
                match address_from_record(&records[i]) {
                    Some(found) => {
                        return Some(found);
                    },
                    None => {},
                }
                i += 1;
            }
            None
        },
        None => match single {
            Some(record) => address_from_record(&record),
            None => None,
        },
    }
}

/// Reads the members of one record of the address listing.
pub fn read_address_record(doc: &serde_json::Value) -> (record: AddressRecord)
    ensures
        record@ == address_record_of(*doc),
{
    AddressRecord {
        address: text_member(doc, "IPAddress"),
        prefix: count_member(doc, "PrefixLength"),
    }
}

/// Decodes the address listing: the address and the prefix length of its
/// first record that holds both, whether the listing is an array of
/// records or a single record. The text is read as an array first, and as
/// a single record only where it is no array.
pub fn decode_address(text: &str) -> (r: Option<(String, u64)>)
    ensures
        r is Some <==> decoded_address(text@) is Some,
        r matches Some(found) ==> decoded_address(text@) == Some((found.0@, found.1)),
{
    match parse_array(text) {
        Ok(items) => {
            let mut records: Vec<AddressRecord> = Vec::new();
            let mut i: usize = 0;
            while i < items.len()
                invariant
                    i <= items.len(),
                    records@.len() == i,
                    forall|j: int|
                        0 <= j < i ==> (#[trigger] records@[j])@ == address_record_of(items@[j]),
                decreases items.len() - i,
            {
                let record = read_address_record(&items[i]);
                records.push(record);
                i += 1;
            }
            assert(address_record_views(records@) == address_records_of(items@));
            address_from_listing(Some(records), None)
        },
        Err(_) => match parse_document(text) {
            Ok(doc) => address_from_listing(None, Some(read_address_record(&doc))),
            Err(_) => address_from_listing(None, None),
        },
    }
}

/// Reads a line-oriented listing: one value for each line that is not
/// blank. An empty listing has no values.
pub fn listing_values(text: &str) -> (values: Vec<String>)
    ensures
        texts(values@) == listing_values_of(text@),
{
    let chars = chars_of(text);
    let lines = split_fields(&chars, '\n');
    let mut values: Vec<String> = Vec::new();
    let mut i: usize = 0;
    while i < lines.len()
        invariant
            i <= lines.len(),
            texts(values@) == nonblank_trimmed(rows(lines@).take(i as int)),
        decreases lines.len() - i,
    {
        proof {
            assert(rows(lines@).take(i + 1).drop_last() == rows(lines@).take(i as int));
            assert(rows(lines@).take(i + 1).last() == lines@[i as int]@);
        }
        let line = trimmed(&lines[i]);
        let ghost before = texts(values@);
        if line.len() > 0 {
            let value = string_of(&line);
            values.push(value);
            assert(texts(values@) == before.push(line@));
        }
        i += 1;
    }
    proof {
        assert(rows(lines@).take(lines.len() as int) == rows(lines@));
    }
    values
}

/// A listing either gives one adapter for each of its records, each at
/// the place of its record, or is reported as unparseable with its text.
/// No record is left out.
pub proof fn lemma_listing_keeps_every_record(
    array: Option<Seq<AdapterRecordView>>,
    single: Option<AdapterRecordView>,
    text: Seq<char>,
)
    ensures
        match adapters_of_listing(array, single, text) {
            Ok(adapters) => is_listing_of(adapters, array, single),
            Err(e) => {
                &&& e == ConfigErrorView::UnparseableOutput(text)
                &&& array matches Some(records) ==> !all_describe_adapters(records)
                &&& array is None ==> single is None || adapter_of(single->0) is None
            },
        },
{
}

/// The same of a listing as it is read from its text.
pub proof fn lemma_decoded_listing_keeps_every_record(text: Seq<char>)
    ensures
        match decoded_adapters(text) {
            Ok(adapters) => is_decoded_listing(adapters, text),
            Err(e) => e == ConfigErrorView::UnparseableOutput(text),
        },
{
    lemma_listing_keeps_every_record(adapter_array_of(text), adapter_single_of(text), text);
    if let Some(items) = json_array_items(text) {
        let records = adapter_records_of(items);
        if let Ok(adapters) = decoded_adapters(text) {
            assert forall|i: int| 0 <= i < items.len() implies adapter_of(
                adapter_record_of(#[trigger] items[i]),
            ) == Some(adapters[i]) by {
                assert(records[i] == adapter_record_of(items[i]));
            }
        }
    }
}

/// An array with a record that describes no adapter is unparseable as a
/// whole, whatever its other records hold.
pub proof fn lemma_incomplete_record_fails_listing(
    records: Seq<AdapterRecordView>,
    single: Option<AdapterRecordView>,
    text: Seq<char>,
    i: int,
)
    requires
        0 <= i < records.len(),
        records[i].name is None || records[i].status is None,
    ensures
        adapters_of_listing(Some(records), single, text) == Err::<
            Seq<AdapterInfoView>,
            ConfigErrorView,
        >(ConfigErrorView::UnparseableOutput(text)),
{
    assert(adapter_of(records[i]) is None);
}

/// A listing that holds a single record, not wrapped in an array, decodes
/// to the one adapter that the record describes.
pub proof fn lemma_single_record_listing(record: AdapterRecordView, text: Seq<char>)
    requires
        record.name is Some,
        record.status is Some,
    ensures
        adapters_of_listing(None, Some(record), text) == Ok::<
            Seq<AdapterInfoView>,
            ConfigErrorView,
        >(seq![adapter_of(record)->0]),
        adapters_of_listing(None, Some(record), text)->Ok_0.len() == 1,
{
}

/// Where the name is garbled the label is built on the description, and
/// nothing of the name enters it; otherwise it is built on the name.
pub proof fn lemma_label_of_garbled_name(
    name: Seq<char>,
    status: Seq<char>,
    description: Seq<char>,
)
    ensures
        is_garbled(name) ==> label_text(name, status, Some(description)) == description + seq![
            ' ',
            '(',
        ] + status + seq![')'],
        !is_garbled(name) ==> label_text(name, status, Some(description)) == name + seq![' ', '(']
            + status + seq![')'],
        label_text(name, status, None) == name + seq![' ', '('] + status + seq![')'],
{
}

/// A label that is built on a description and a status that are not
/// garbled is not garbled.
pub proof fn lemma_label_is_readable(description: Seq<char>, status: Seq<char>)
    requires
        !is_garbled(description),
        !is_garbled(status),
    ensures
        !is_garbled(description + seq![' ', '('] + status + seq![')']),
{
    let label = description + seq![' ', '('] + status + seq![')'];
    assert forall|i: int| 0 <= i < label.len() implies label[i] != REPLACEMENT_CHARACTER by {
        if i < description.len() {
            assert(label[i] == description[i]);
        } else if i < description.len() + 2 {
        } else if i < description.len() + 2 + status.len() {
            assert(label[i] == status[i - description.len() - 2]);
        }
    }
}

/// In every listing that decodes, the adapter at the place of a record
/// with a garbled name, a description and a status is labelled by the
/// description and the status, and keeps its name; where those two are not
/// garbled, neither is the label.
pub proof fn lemma_garbled_name_in_listing(
    array: Option<Seq<AdapterRecordView>>,
    single: Option<AdapterRecordView>,
    text: Seq<char>,
    i: int,
)
    requires
        adapters_of_listing(array, single, text) is Ok,
        0 <= i < listing_records(array, single).len(),
        listing_records(array, single)[i].name is Some,
        is_garbled(listing_records(array, single)[i].name->0),
        listing_records(array, single)[i].status is Some,
        listing_records(array, single)[i].description is Some,
    ensures
        ({
            let record = listing_records(array, single)[i];
            let adapter = adapters_of_listing(array, single, text)->Ok_0[i];
            &&& adapter.name == record.name->0
            &&& adapter.status == record.description->0 + seq![' ', '('] + record.status->0 + seq![
                ')',
            ]
            &&& !is_garbled(record.description->0) && !is_garbled(record.status->0) ==> !is_garbled(
                adapter.status,
            )
        }),
{
    let record = listing_records(array, single)[i];
    lemma_listing_keeps_every_record(array, single, text);
    if array is None {
        assert(listing_records(array, single)[0] == single->0);
    }
    if !is_garbled(record.description->0) && !is_garbled(record.status->0) {
        lemma_label_is_readable(record.description->0, record.status->0);
    }
}

/// The same of a listing as it is read from its text: where the listing
/// decodes and record `i` of its array has a garbled name, a description
/// and a status, adapter `i` is labelled by the description and the
/// status.
pub proof fn lemma_garbled_name_in_decoded_listing(text: Seq<char>, i: int)
    requires
        decoded_adapters(text) is Ok,
        json_array_items(text) is Some,
        0 <= i < json_array_items(text)->0.len(),
        adapter_record_of(json_array_items(text)->0[i]).name is Some,
        is_garbled(adapter_record_of(json_array_items(text)->0[i]).name->0),
        adapter_record_of(json_array_items(text)->0[i]).status is Some,
        adapter_record_of(json_array_items(text)->0[i]).description is Some,
    ensures
        ({
            let record = adapter_record_of(json_array_items(text)->0[i]);
            let adapter = decoded_adapters(text)->Ok_0[i];
            &&& decoded_adapters(text)->Ok_0.len() == json_array_items(text)->0.len()
            &&& adapter.name == record.name->0
            &&& adapter.status == record.description->0 + seq![' ', '('] + record.status->0 + seq![
                ')',
            ]
        }),
{
    lemma_decoded_listing_keeps_every_record(text);
}

/// `value` is not empty and neither begins nor ends with white space.
pub open spec fn is_trimmed_value(value: Seq<char>) -> bool {
    value.len() > 0 && !is_space(value.first()) && !is_space(value.last())
}

/// No value of a listing is empty, and none begins or ends with white
/// space.
pub proof fn lemma_listing_values_are_trimmed(text: Seq<char>)
    ensures
        forall|k: int|
            0 <= k < listing_values_of(text).len() ==> is_trimmed_value(
                #[trigger] listing_values_of(text)[k],
            ),
{
    lemma_nonblank_trimmed(split(text, '\n'));
}

/// The lines that are kept are trimmed values.
proof fn lemma_nonblank_trimmed(lines: Seq<Seq<char>>)
    ensures
        forall|k: int|
            0 <= k < nonblank_trimmed(lines).len() ==> is_trimmed_value(
                #[trigger] nonblank_trimmed(lines)[k],
            ),
    decreases lines.len(),
{
    if lines.len() > 0 {
        let earlier = nonblank_trimmed(lines.drop_last());
        lemma_nonblank_trimmed(lines.drop_last());
        lemma_trim_ends(lines.last());
        assert forall|k: int| 0 <= k < nonblank_trimmed(lines).len() implies is_trimmed_value(
            #[trigger] nonblank_trimmed(lines)[k],
        ) by {
            if k < earlier.len() {
                assert(nonblank_trimmed(lines)[k] == earlier[k]);
            }
        }
    }
}

/// An empty listing has no values.
pub proof fn lemma_empty_listing()
    ensures
        listing_values_of(Seq::<char>::empty()).len() == 0,
{
    let lines = split(Seq::<char>::empty(), '\n');
    assert(lines == seq![Seq::<char>::empty()]);
    assert(lines.drop_last().len() == 0);
    assert(trim(Seq::<char>::empty()).len() == 0);
    reveal_with_fuel(nonblank_trimmed, 2);
}

} // verus!
