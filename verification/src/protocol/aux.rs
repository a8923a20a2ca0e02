//! The bounded texts and the metadata that payloads carry.

use crate::assoc;
use crate::copy::Duplicate;
use crate::table::Table;
use crate::text;
use vstd::prelude::*;

verus! {

/// How many bytes a field's name may take.
pub const FIELD_NAME_MAX: usize = 255;

/// How many bytes a field's value may take.
pub const FIELD_VALUE_MAX: usize = 8191;

/// How many bytes a relayed text may take.
pub const STRING_MAX_MAX_LEN: usize = 1024;

/// A text that is relayed from one player to another.
#[derive(Debug)]
pub struct BoundedString(pub String);

/// Which texts may be relayed.
pub open spec fn valid_bounded(s: Seq<char>) -> bool {
    text::byte_len(s) <= STRING_MAX_MAX_LEN
}

/// Accepts a text that is to be relayed, or says what is wrong with it.
pub fn deserialize_bounded_string(s: String) -> (r: Result<String, String>)
    ensures
        r is Ok <==> valid_bounded(s@),
        r matches Ok(t) ==> t@ == s@,
        r matches Err(e) ==> e@ == "String exceeds max length of 1024 bytes"@,
{
    if text::bytes_in(s.as_str()) > STRING_MAX_MAX_LEN {
        return Err("String exceeds max length of 1024 bytes".to_owned());
    }
    Ok(s)
}

impl BoundedString {
    pub fn to_string(&self) -> (r: String)
        ensures
            r@ == self.0@,
    {
        self.0.clone()
    }
}

impl Clone for BoundedString {
    fn clone(&self) -> (r: Self)
        ensures
            r == *self,
    {
        BoundedString(self.0.clone())
    }
}

/// The name of a metadata field.
#[derive(PartialEq, Eq, Hash, Debug)]
pub struct FieldKey(pub String);

/// Which texts can name a field.
pub open spec fn valid_field_name(s: Seq<char>) -> bool {
    s.len() > 0 && text::byte_len(s) <= FIELD_NAME_MAX
}

/// What is said of a text that cannot name a field.
pub open spec fn field_name_fault(s: Seq<char>) -> Seq<char> {
    if s.len() == 0 {
        "field name cannot be empty"@
    } else {
        "field name exceeds 255 bytes"@
    }
}

/// Accepts the name of a field, or says what is wrong with it.
pub fn deserialize_field_name(s: String) -> (r: Result<String, String>)
    ensures
        r is Ok <==> valid_field_name(s@),
        r matches Ok(t) ==> t@ == s@,
        r matches Err(e) ==> e@ == field_name_fault(s@),
{
    if s.as_str().is_empty() {
        return Err("field name cannot be empty".to_owned());
    }
    if text::bytes_in(s.as_str()) > FIELD_NAME_MAX {
        return Err("field name exceeds 255 bytes".to_owned());
    }
    Ok(s)
}

impl FieldKey {
    pub fn to_string(&self) -> (r: String)
        ensures
            r@ == self.0@,
    {
        self.0.clone()
    }
}

impl Clone for FieldKey {
    fn clone(&self) -> (r: Self)
        ensures
            r == *self,
    {
        FieldKey(self.0.clone())
    }
}

/// The value of a metadata field.
#[derive(PartialEq, Eq, Debug)]
pub struct FieldValue(pub String);

/// Which texts can be the value of a field.
pub open spec fn valid_field_value(s: Seq<char>) -> bool {
    text::byte_len(s) <= FIELD_VALUE_MAX
}

/// What is said of a text that cannot be the value of a field.
pub open spec fn field_value_fault() -> Seq<char> {
    "field value exceeds max length of 8191 bytes"@
}

/// Accepts the value of a field, or says what is wrong with it.
pub fn deserialize_field_value(s: String) -> (r: Result<String, String>)
    ensures
        r is Ok <==> valid_field_value(s@),
        r matches Ok(t) ==> t@ == s@,
        r matches Err(e) ==> e@ == field_value_fault(),
{
    if text::bytes_in(s.as_str()) > FIELD_VALUE_MAX {
        return Err("field value exceeds max length of 8191 bytes".to_owned());
    }
    Ok(s)
}

impl FieldValue {
    pub fn to_string(&self) -> (r: String)
        ensures
            r@ == self.0@,
    {
        self.0.clone()
    }
}

impl Clone for FieldValue {
    fn clone(&self) -> (r: Self)
        ensures
            r == *self,
    {
        FieldValue(self.0.clone())
    }
}

/// The fields that describe a player or a lobby.
#[derive(Debug)]
pub struct Metadata(pub Table<String, String>);

/// What metadata says: names with their values, in the order in which the names came in.
pub type MetadataView = Seq<(Seq<char>, Seq<char>)>;

impl View for Metadata {
    type V = MetadataView;

    open spec fn view(&self) -> MetadataView {
        self.0@
    }
}

impl Clone for Metadata {
    fn clone(&self) -> (r: Self)
        ensures
            r@ == self@,
    {
        Metadata(self.0.duplicate())
    }
}

impl Duplicate for Metadata {
    fn duplicate(&self) -> (r: Self) {
        self.clone()
    }
}

/// Whether a field of that name can be set: it is there already, or there is room for one more.
pub open spec fn can_add(meta: MetadataView, key: Seq<char>) -> bool {
    assoc::has(meta, key) || meta.len() < Metadata::MAX_FIELDS
}

impl Metadata {
    /// How many fields there may be.
    pub const MAX_FIELDS: usize = 16;

    /// No name occurs twice.
    pub open spec fn wf(&self) -> bool {
        self.0.wf()
    }

    pub fn new() -> (m: Self)
        ensures
            m.wf(),
            m@ == Seq::<(Seq<char>, Seq<char>)>::empty(),
    {
        Metadata(Table::new())
    }

    /// Whether a field of that name can be set.
    pub fn can_add(&self, key: &str) -> (r: bool)
        requires
            self.wf(),
        ensures
            r == can_add(self@, key@),
    {
        self.0.contains_key(&key.to_owned()) || self.0.len() < Self::MAX_FIELDS
    }
}

/// As long as fields are only set that can be, there are never too many of them.
pub proof fn law_fields_stay_few(meta: MetadataView, key: Seq<char>, value: Seq<char>)
    requires
        meta.len() <= Metadata::MAX_FIELDS,
        can_add(meta, key),
    ensures
        assoc::put(meta, key, value).len() <= Metadata::MAX_FIELDS,
{
}

/// The field has the value, and all other fields are as before.
pub open spec fn field_set(
    before: MetadataView,
    after: MetadataView,
    key: Seq<char>,
    value: Seq<char>,
) -> bool {
    &&& assoc::has(after, key)
    &&& assoc::value(after, key) == value
    &&& forall|k: Seq<char>| k != key ==> (#[trigger] assoc::has(after, k) <==> assoc::has(before, k))
    &&& forall|k: Seq<char>|
        k != key && assoc::has(before, k) ==> #[trigger] assoc::value(after, k) == assoc::value(
            before,
            k,
        )
}

/// The field is not there, and all other fields are as before.
pub open spec fn field_erased(before: MetadataView, after: MetadataView, key: Seq<char>) -> bool {
    &&& !assoc::has(after, key)
    &&& forall|k: Seq<char>| k != key ==> (#[trigger] assoc::has(after, k) <==> assoc::has(before, k))
    &&& forall|k: Seq<char>|
        k != key && assoc::has(before, k) ==> #[trigger] assoc::value(after, k) == assoc::value(
            before,
            k,
        )
}

/// A relayed text takes up to 1024 bytes, the name of a field from 1 to 255, and its value up to
/// 8191.
pub proof fn law_sizes_of_texts(s: Seq<char>)
    ensures
        valid_bounded(s) <==> text::byte_len(s) <= 1024,
        valid_field_name(s) <==> s.len() >= 1 && text::byte_len(s) <= 255,
        valid_field_value(s) <==> text::byte_len(s) <= 8191,
        s.len() == 0 ==> field_name_fault(s) == "field name cannot be empty"@,
        s.len() > 0 ==> field_name_fault(s) == "field name exceeds 255 bytes"@,
        field_value_fault() == "field value exceeds max length of 8191 bytes"@,
{
}

/// A field can be set exactly if it is there already or there are fewer than 16.
pub proof fn law_room_for_fields(meta: MetadataView, key: Seq<char>)
    ensures
        can_add(meta, key) <==> (exists|i: int|
            0 <= i < meta.len() && (#[trigger] meta[i]).0 == key) || meta.len() < 16,
{
}

/// What is wrong with the first unacceptable name or value among `fields`, if there is one.
pub open spec fn first_fault(fields: MetadataView) -> Option<Seq<char>>
    decreases fields.len(),
{
    if fields.len() == 0 {
        None
    } else {
        let earlier = first_fault(fields.drop_last());
        let (key, value) = fields.last();
        if earlier is Some {
            earlier
        } else if !valid_field_name(key) {
            Some(field_name_fault(key))
        } else if !valid_field_value(value) {
            Some(field_value_fault())
        } else {
            None
        }
    }
}

/// The fields set one after the other, a later value in place of an earlier one.
pub open spec fn collected(fields: MetadataView) -> MetadataView
    decreases fields.len(),
{
    if fields.len() == 0 {
        fields
    } else {
        assoc::put(collected(fields.drop_last()), fields.last().0, fields.last().1)
    }
}

/// Fields are faultless exactly if each has a name of 1 to 255 bytes and a value of up to 8191.
pub proof fn law_faultless_fields(fields: MetadataView)
    ensures
        first_fault(fields) is None <==> forall|i: int|
            0 <= i < fields.len() ==> (#[trigger] fields[i]).0.len() >= 1 && text::byte_len(
                fields[i].0,
            ) <= 255 && text::byte_len(fields[i].1) <= 8191,
    decreases fields.len(),
{
    if fields.len() > 0 {
        let shorter = fields.drop_last();
        law_faultless_fields(shorter);
        let n = fields.len() - 1;
        if first_fault(fields) is None {
            assert forall|i: int| 0 <= i < fields.len() implies (#[trigger] fields[i]).0.len() >= 1
                && text::byte_len(fields[i].0) <= 255 && text::byte_len(fields[i].1) <= 8191 by {
                if i < n {
                    assert(shorter[i] == fields[i]);
                }
            }
        } else if forall|i: int|
            0 <= i < fields.len() ==> (#[trigger] fields[i]).0.len() >= 1 && text::byte_len(
                fields[i].0,
            ) <= 255 && text::byte_len(fields[i].1) <= 8191 {
            assert forall|i: int| 0 <= i < shorter.len() implies (#[trigger] shorter[i]).0.len()
                >= 1 && text::byte_len(shorter[i].0) <= 255 && text::byte_len(shorter[i].1)
                <= 8191 by {
                assert(shorter[i] == fields[i]);
            }
            assert(fields[n].0.len() >= 1 && text::byte_len(fields[n].1) <= 8191);
        }
    }
}

/// The fault that is found is that of the first field that has one: of its name, if that is empty
/// or too long, else of its value.
pub proof fn law_first_fault_is_found(fields: MetadataView, n: int)
    requires
        0 <= n < fields.len(),
        first_fault(fields.take(n)) is None,
        first_fault(fields.take(n + 1)) is Some,
    ensures
        first_fault(fields) == Some(
            if fields[n].0.len() == 0 {
                "field name cannot be empty"@
            } else if text::byte_len(fields[n].0) > 255 {
                "field name exceeds 255 bytes"@
            } else {
                "field value exceeds max length of 8191 bytes"@
            },
        ),
{
    lemma_first_fault_stays(fields, n + 1);
    assert(fields.take(n + 1).drop_last() =~= fields.take(n));
}

/// Of fields that were set one after the other, just those are there that were set, each with the
/// value that it was set to last.
pub proof fn law_last_value_counts(fields: MetadataView, key: Seq<char>)
    ensures
        assoc::keyed(collected(fields)),
        assoc::has(collected(fields), key) <==> exists|i: int|
            0 <= i < fields.len() && (#[trigger] fields[i]).0 == key,
        forall|i: int|
            0 <= i < fields.len() && (#[trigger] fields[i]).0 == key && (forall|j: int|
                i < j < fields.len() ==> (#[trigger] fields[j]).0 != key) ==> assoc::value(
                collected(fields),
                key,
            ) == fields[i].1,
    decreases fields.len(),
{
    if fields.len() > 0 {
        let shorter = fields.drop_last();
        let n = fields.len() - 1;
        law_last_value_counts(shorter, key);
        let earlier = collected(shorter);
        assoc::lemma_put_value(earlier, fields[n].0, fields[n].1);
        assert(collected(fields) == assoc::put(earlier, fields[n].0, fields[n].1));
        if fields[n].0 == key {
            assert(assoc::has(collected(fields), key));
        } else {
            assert(assoc::has(collected(fields), key) <==> assoc::has(earlier, key));
            if exists|i: int| 0 <= i < shorter.len() && (#[trigger] shorter[i]).0 == key {
                let i = choose|i: int| 0 <= i < shorter.len() && (#[trigger] shorter[i]).0 == key;
                assert(fields[i].0 == key);
            }
            if exists|i: int| 0 <= i < fields.len() && (#[trigger] fields[i]).0 == key {
                let i = choose|i: int| 0 <= i < fields.len() && (#[trigger] fields[i]).0 == key;
                assert(shorter[i].0 == key);
            }
        }
        assert forall|i: int|
            0 <= i < fields.len() && (#[trigger] fields[i]).0 == key && (forall|j: int|
                i < j < fields.len() ==> (#[trigger] fields[j]).0 != key) implies assoc::value(
            collected(fields),
            key,
        ) == fields[i].1 by {
            if i < n {
                assert(shorter[i] == fields[i]);
                assert(fields[n].0 != key);
                assert forall|j: int| i < j < shorter.len() implies (#[trigger] shorter[j]).0
                    != key by {
                    assert(fields[j].0 != key);
                }
                assert(assoc::has(earlier, key));
                assert(assoc::value(earlier, key) == fields[i].1);
            }
        }
    }
}

/// Accepts metadata, given field by field, or says what is wrong with it.
pub fn deserialize_metadata(fields: Vec<(String, String)>) -> (r: Result<Metadata, String>)
    ensures
        ({
            let said = fields@.map_values(|f: (String, String)| (f.0@, f.1@));
            &&& r is Ok <==> first_fault(said) is None && collected(said).len()
                <= Metadata::MAX_FIELDS
            &&& r matches Ok(m) ==> m.wf() && m@ == collected(said)
            &&& r matches Err(e) ==> e@ == match first_fault(said) {
                Some(fault) => fault,
                None => "too many metadata fields (max 16 allowed)"@,
            }
        }),
{
    let ghost said = fields@.map_values(|f: (String, String)| (f.0@, f.1@));
    let mut meta = Metadata::new();
    let mut i: usize = 0;
    while i < fields.len()
        invariant
            i <= fields@.len(),
            said == fields@.map_values(|f: (String, String)| (f.0@, f.1@)),
            meta.wf(),
            meta@ == collected(said.take(i as int)),
            first_fault(said.take(i as int)) is None,
        decreases fields@.len() - i,
    {
        proof {
            assert(said.take(i + 1).drop_last() =~= said.take(i as int));
            lemma_first_fault_stays(said, i + 1);
        }
        let key = deserialize_field_name(fields[i].0.clone())?;
        let value = deserialize_field_value(fields[i].1.clone())?;
        meta.0.insert(key, value);
        i = i + 1;
    }
    assert(said.take(i as int) =~= said);
    if meta.0.len() > Metadata::MAX_FIELDS {
        return Err("too many metadata fields (max 16 allowed)".to_owned());
    }
    Ok(meta)
}

/// A fault among the first fields is the fault of them all.
proof fn lemma_first_fault_stays(fields: MetadataView, n: int)
    requires
        0 <= n <= fields.len(),
    ensures
        first_fault(fields.take(n)) is Some ==> first_fault(fields) == first_fault(fields.take(n)),
    decreases fields.len(),
{
    if n == fields.len() {
        assert(fields.take(n) =~= fields);
    } else {
        lemma_first_fault_stays(fields.drop_last(), n);
        assert(fields.drop_last().take(n) =~= fields.take(n));
    }
}

/// Metadata that is accepted off the wire names each field once, has no more fields than there may
/// be, and each of its names and values was accepted.
pub proof fn law_accepted_metadata_is_sound(fields: MetadataView)
    requires
        first_fault(fields) is None,
    ensures
        assoc::keyed(collected(fields)),
        forall|i: int|
            0 <= i < collected(fields).len() ==> valid_field_name(
                (#[trigger] collected(fields)[i]).0,
            ) && valid_field_value(collected(fields)[i].1),
    decreases fields.len(),
{
    if fields.len() > 0 {
        law_accepted_metadata_is_sound(fields.drop_last());
        assoc::lemma_put_value(
            collected(fields.drop_last()),
            fields.last().0,
            fields.last().1,
        );
    }
}

/// Whether metadata that a player or a lobby starts out with is acceptable: there is room for one
/// more field, and each name and value is of an acceptable size.
pub open spec fn meta_ok(meta: MetadataView) -> bool {
    &&& meta.len() < Metadata::MAX_FIELDS
    &&& forall|i: int|
        0 <= i < meta.len() ==> valid_field_name((#[trigger] meta[i]).0) && valid_field_value(
            meta[i].1,
        )
}

/// Metadata that a player or a lobby starts out with has up to 15 fields, each with a name of 1 to
/// 255 bytes and a value of up to 8191.
pub proof fn law_metadata_to_start_with(meta: MetadataView)
    ensures
        meta_ok(meta) <==> meta.len() <= 15 && forall|i: int|
            0 <= i < meta.len() ==> (#[trigger] meta[i]).0.len() >= 1 && text::byte_len(meta[i].0)
                <= 255 && text::byte_len(meta[i].1) <= 8191,
{
    assert forall|i: int| 0 <= i < meta.len() implies ((#[trigger] meta[i]).0.len() >= 1
        && text::byte_len(meta[i].0) <= 255 && text::byte_len(meta[i].1) <= 8191
        <==> valid_field_name(meta[i].0) && valid_field_value(meta[i].1)) by {}
}

/// Whether metadata that a player or a lobby starts out with is acceptable.
pub fn check_meta(meta: &Metadata) -> (r: bool)
    ensures
        r == meta_ok(meta@),
{
    if meta.0.len() >= Metadata::MAX_FIELDS {
        return false;
    }
    let mut i: usize = 0;
    while i < meta.0.len()
        invariant
            i <= meta@.len(),
            forall|j: int|
                0 <= j < i ==> valid_field_name((#[trigger] meta@[j]).0) && valid_field_value(
                    meta@[j].1,
                ),
        decreases meta@.len() - i,
    {
        let key = meta.0.key_at(i);
        let value = meta.0.value_at(i);
        assert(meta@[i as int] == (key@, value@));
        if key.as_str().is_empty() || text::bytes_in(key.as_str()) > FIELD_NAME_MAX
            || text::bytes_in(value.as_str()) > FIELD_VALUE_MAX {
            return false;
        }
        i = i + 1;
    }
    true
}

} // verus!
