//! Reading the envelope `{"version": N, "data": ...}` around a payload.
//!
//! serde_json checks that the document is JSON and decodes the keys and the
//! version; this module decides whether the document is an envelope, and
//! where its data lies.

use crate::errors::{EnvelopeError, EnvelopeFieldSet, NotAnEnvelopeReason};
use crate::json::{
    check_json, decode_string, decode_u32, is_plain_string_literal, json_accepts, json_refusal,
    json_string, json_u32,
};
use crate::text::{ascii_chars, decimal_bytes, digits_value, is_digit, lemma_decimal_u32};
use crate::order::{insert_name, names_view, sorted_names};
use crate::json::{BACKSLASH, QUOTE, is_ws};
use crate::scan::{
    COLON, COMMA, LBRACE, MemberSpan, RBRACE, ScannedDocument, Shape, Span4, ends_scalar,
    lemma_scalar_end_run, lemma_string_end_run, lemma_value_end_shift, members_from,
    kind_of, object_members, scan_document, shape, skip_ws, value_end,
};
use crate::write::{data_offset, data_prefix, envelope_bytes, version_prefix};
use vstd::prelude::*;

verus! {

/// The name of the envelope's version field.
pub open spec fn version_name() -> Seq<char> {
    "version"@
}

/// The name of the envelope's data field.
pub open spec fn data_name() -> Seq<char> {
    "data"@
}

/// How often a field has been seen.
#[derive(Clone, Copy, Debug, PartialEq, Eq, Structural)]
pub enum Field {
    /// Not seen.
    Absent,
    /// Seen once.
    Present,
    /// Seen more than once.
    Duplicated,
}

/// The state of a field seen `count` times.
pub open spec fn field_for(count: nat) -> Field {
    if count == 0 {
        Field::Absent
    } else if count == 1 {
        Field::Present
    } else {
        Field::Duplicated
    }
}

/// The state of a field after one more sighting.
pub open spec fn seen_again(field: Field) -> Field {
    match field {
        Field::Absent => Field::Present,
        Field::Present => Field::Duplicated,
        Field::Duplicated => Field::Duplicated,
    }
}

impl Field {
    /// Records one more sighting of the field.
    pub fn set(&mut self)
        ensures
            *final(self) == seen_again(*old(self)),
    {
        match self {
            Field::Absent => *self = Field::Present,
            Field::Present => *self = Field::Duplicated,
            Field::Duplicated => *self = Field::Duplicated,
        }
    }
}

/// The state of a field after `n` sightings recorded with [`Field::set`],
/// starting from [`Field::Absent`].
pub open spec fn after_sightings(n: nat) -> Field
    decreases n,
{
    if n == 0 {
        Field::Absent
    } else {
        seen_again(after_sightings((n - 1) as nat))
    }
}

/// A field recorded `n` times with [`Field::set`] is absent when `n` is 0,
/// present when it is 1, and duplicated after that.
pub proof fn law_sightings(n: nat)
    ensures
        after_sightings(n) == field_for(n),
    decreases n,
{
    if n > 0 {
        law_sightings((n - 1) as nat);
    }
}

/// An object key, as the envelope reader sees it.
pub enum Key {
    /// The `version` key.
    Version,
    /// The `data` key.
    Data,
    /// Any other key.
    Other(String),
}

/// The envelope's two fields.
#[derive(Clone, Copy, Debug, PartialEq, Eq, Structural)]
pub enum EnvelopeField {
    /// The `version` field.
    Version,
    /// The `data` field.
    Data,
}

impl EnvelopeField {
    /// The field's name in the document.
    pub fn name(self) -> (r: &'static str)
        ensures
            r@ == match self {
                EnvelopeField::Version => version_name(),
                EnvelopeField::Data => data_name(),
            },
    {
        match self {
            EnvelopeField::Version => "version",
            EnvelopeField::Data => "data",
        }
    }

    /// Whether `key` names this field.
    pub fn matches(self, key: &Key) -> (r: bool)
        ensures
            r == match (self, key) {
                (EnvelopeField::Version, Key::Version) => true,
                (EnvelopeField::Data, Key::Data) => true,
                _ => false,
            },
    {
        match (self, key) {
            (EnvelopeField::Version, Key::Version) | (EnvelopeField::Data, Key::Data) => true,
            _ => false,
        }
    }
}

/// Classifies a decoded object key.
pub fn classify_key(name: String) -> (r: Key)
    ensures
        name@ == version_name() ==> r is Version,
        name@ == data_name() ==> r is Data,
        name@ != version_name() && name@ != data_name() ==> (r matches Key::Other(n) && n@ == name@),
{
    proof {
        reveal_strlit("version");
        reveal_strlit("data");
        assert(version_name() != data_name()) by {
            assert(version_name().len() != data_name().len());
        }
    }
    let version = String::from_str("version");
    let data = String::from_str("data");
    if name == version {
        Key::Version
    } else if name == data {
        Key::Data
    } else {
        Key::Other(name)
    }
}

/// `key` is what the envelope reader makes of the key `name`.
pub open spec fn key_is(key: Key, name: Seq<char>) -> bool {
    match key {
        Key::Version => name == version_name(),
        Key::Data => name == data_name(),
        Key::Other(n) => n@ == name && name != version_name() && name != data_name(),
    }
}

/// The characters of the literals `"version"` and `"data"`.
pub proof fn lemma_field_literals()
    ensures
        is_plain_string_literal(version_literal()),
        is_plain_string_literal(data_literal()),
        literal_chars(version_literal()) == version_name(),
        literal_chars(data_literal()) == data_name(),
        version_name() != data_name(),
{
    reveal_strlit("version");
    reveal_strlit("data");
    assert(literal_chars(version_literal()) =~= version_name());
    assert(literal_chars(data_literal()) =~= data_name());
    assert(version_name().len() != data_name().len());
}

/// Reads one key literal: the two envelope field names written plainly are
/// recognized byte for byte; any other literal is decoded by serde_json.
pub fn read_key(literal: &[u8]) -> (r: Result<Key, serde_json::Error>)
    ensures
        r is Ok <==> key_name(literal@) is Some,
        r matches Ok(key) ==> key_is(key, key_name(literal@)->0),
{
    proof {
        lemma_field_literals();
    }
    let n = literal.len();
    if n == 9 && literal[0] == 34 && literal[1] == 118 && literal[2] == 101 && literal[3] == 114
        && literal[4] == 115 && literal[5] == 105 && literal[6] == 111 && literal[7] == 110
        && literal[8] == 34 {
        proof {
            assert(literal@ =~= version_literal());
        }
        return Ok(Key::Version);
    }
    if n == 6 && literal[0] == 34 && literal[1] == 100 && literal[2] == 97 && literal[3] == 116
        && literal[4] == 97 && literal[5] == 34 {
        proof {
            assert(literal@ =~= data_literal());
        }
        return Ok(Key::Data);
    }
    match decode_string(literal) {
        Ok(name) => Ok(classify_key(name)),
        Err(error) => Err(error),
    }
}

/// The bytes of a member's key literal.
pub open spec fn key_literal(s: Seq<u8>, m: Span4) -> Seq<u8> {
    s.subrange(m.0, m.1)
}

/// The characters inside a plain key literal.
pub open spec fn literal_chars(literal: Seq<u8>) -> Seq<char> {
    ascii_chars(literal.subrange(1, literal.len() - 1))
}

/// The key a literal stands for: a literal of plain bytes stands for those
/// bytes' characters; serde_json decodes any other literal.
pub open spec fn key_name(literal: Seq<u8>) -> Option<Seq<char>> {
    if is_plain_string_literal(literal) {
        Some(literal_chars(literal))
    } else {
        json_string(literal)
    }
}

/// The literal `"version"`.
pub open spec fn version_literal() -> Seq<u8> {
    seq![34u8, 118, 101, 114, 115, 105, 111, 110, 34]
}

/// The literal `"data"`.
pub open spec fn data_literal() -> Seq<u8> {
    seq![34u8, 100, 97, 116, 97, 34]
}

/// The decoded keys of `members`, if every key decodes.
pub open spec fn decoded_keys(s: Seq<u8>, members: Seq<Span4>) -> Option<Seq<Seq<char>>>
    decreases members.len(),
{
    if members.len() == 0 {
        Some(seq![])
    } else {
        match decoded_keys(s, members.drop_last()) {
            None => None,
            Some(keys) => match key_name(key_literal(s, members.last())) {
                None => None,
                Some(key) => Some(keys.push(key)),
            },
        }
    }
}

/// How often `name` occurs among `keys`.
pub open spec fn count_of(keys: Seq<Seq<char>>, name: Seq<char>) -> nat
    decreases keys.len(),
{
    if keys.len() == 0 {
        0
    } else {
        count_of(keys.drop_last(), name) + if keys.last() == name {
            1nat
        } else {
            0nat
        }
    }
}

/// The position of the first occurrence of `name` among `keys`.
pub open spec fn first_index(keys: Seq<Seq<char>>, name: Seq<char>) -> int
    decreases keys.len(),
{
    if keys.len() == 0 {
        -1
    } else if count_of(keys.drop_last(), name) > 0 {
        first_index(keys.drop_last(), name)
    } else if keys.last() == name {
        keys.len() - 1
    } else {
        -1
    }
}

/// The keys other than `version` and `data`.
pub open spec fn unknown_names(keys: Seq<Seq<char>>) -> Set<Seq<char>> {
    keys.to_set().filter(|k: Seq<char>| k != version_name() && k != data_name())
}

/// What the envelope reader found among an object's keys.
pub struct ObjectFields {
    /// How often `version` occurs.
    pub version: Field,
    /// How often `data` occurs.
    pub data: Field,
    /// The other keys, each once, in byte order.
    pub unknown: Vec<String>,
    /// Where the first `version` member lies.
    pub version_member: Option<MemberSpan>,
    /// Where the first `data` member lies.
    pub data_member: Option<MemberSpan>,
}

/// What the envelope reader finds among the keys `keys` of the members
/// `members`.
pub open spec fn fields_match(fields: ObjectFields, keys: Seq<Seq<char>>, members: Seq<Span4>) -> bool {
    &&& fields.version == field_for(count_of(keys, version_name()))
    &&& fields.data == field_for(count_of(keys, data_name()))
    &&& sorted_names(names_view(fields.unknown@))
    &&& names_view(fields.unknown@).to_set() == unknown_names(keys)
    &&& (count_of(keys, version_name()) > 0 <==> fields.version_member is Some)
    &&& (fields.version_member matches Some(m) ==> m@ == members[first_index(keys, version_name())])
    &&& (count_of(keys, data_name()) > 0 <==> fields.data_member is Some)
    &&& (fields.data_member matches Some(m) ==> m@ == members[first_index(keys, data_name())])
}

proof fn lemma_count_push(keys: Seq<Seq<char>>, key: Seq<char>, name: Seq<char>)
    ensures
        count_of(keys.push(key), name) == count_of(keys, name) + if key == name {
            1nat
        } else {
            0nat
        },
        first_index(keys.push(key), name) == if count_of(keys, name) > 0 {
            first_index(keys, name)
        } else if key == name {
            keys.len() as int
        } else {
            -1
        },
{
    assert(keys.push(key).drop_last() =~= keys);
}

proof fn lemma_first_index_bounds(keys: Seq<Seq<char>>, name: Seq<char>)
    requires
        count_of(keys, name) > 0,
    ensures
        0 <= first_index(keys, name) < keys.len(),
    decreases keys.len(),
{
    if count_of(keys.drop_last(), name) > 0 {
        lemma_first_index_bounds(keys.drop_last(), name);
    }
}

/// Decodes the keys of an object's members and records which envelope
/// fields occur, how often, and which other keys occur.
pub fn collect_fields(s: &[u8], members: &Vec<MemberSpan>) -> (r: Result<
    ObjectFields,
    serde_json::Error,
>)
    requires
        forall|i: int| 0 <= i < members@.len() ==> {
            let m = #[trigger] members@[i];
            m.key_start < m.key_end <= m.value_start <= m.value_end <= s@.len()
        },
    ensures
        r is Ok <==> decoded_keys(s@, members@.map_values(|m: MemberSpan| m@)) is Some,
        r matches Ok(fields) ==> fields_match(
            fields,
            decoded_keys(s@, members@.map_values(|m: MemberSpan| m@))->0,
            members@.map_values(|m: MemberSpan| m@),
        ),
{
    let ghost spans = members@.map_values(|m: MemberSpan| m@);
    let mut fields = ObjectFields {
        version: Field::Absent,
        data: Field::Absent,
        unknown: Vec::new(),
        version_member: None,
        data_member: None,
    };
    let ghost mut keys: Seq<Seq<char>> = seq![];
    proof {
        assert(spans.take(0) =~= Seq::<Span4>::empty());
        assert(names_view(fields.unknown@).to_set() =~= unknown_names(keys));
    }
    let mut i: usize = 0;
    while i < members.len()
        invariant
            i <= members@.len(),
            spans == members@.map_values(|m: MemberSpan| m@),
            forall|k: int| 0 <= k < members@.len() ==> {
                let m = #[trigger] members@[k];
                m.key_start < m.key_end <= m.value_start <= m.value_end <= s@.len()
            },
            decoded_keys(s@, spans.take(i as int)) == Some(keys),
            keys.len() == i,
            fields_match(fields, keys, spans),
        decreases members@.len() - i,
    {
        let m = members[i];
        let literal = vstd::slice::slice_subrange(s, m.key_start, m.key_end);
        proof {
            assert(spans.take(i + 1).drop_last() =~= spans.take(i as int));
            assert(spans.take(i + 1).last() == m@);
        }
        let key = match read_key(literal) {
            Ok(key) => key,
            Err(error) => {
                proof {
                    lemma_decoded_keys_none_prefix(s@, spans, i as int + 1);
                }
                return Err(error);
            },
        };
        let ghost name = key_name(literal@)->0;
        let ghost old_keys = keys;
        proof {
            lemma_field_literals();
            old_keys.lemma_push_to_set_commute(name);
            keys = keys.push(name);
            lemma_count_push(old_keys, name, version_name());
            lemma_count_push(old_keys, name, data_name());
        }
        match key {
            Key::Version => {
                if matches!(fields.version, Field::Absent) {
                    fields.version_member = Some(m);
                }
                fields.version.set();
                proof {
                    assert(unknown_names(keys) =~= unknown_names(old_keys));
                }
            },
            Key::Data => {
                if matches!(fields.data, Field::Absent) {
                    fields.data_member = Some(m);
                }
                fields.data.set();
                proof {
                    assert(unknown_names(keys) =~= unknown_names(old_keys));
                }
            },
            Key::Other(other) => {
                insert_name(&mut fields.unknown, other);
                proof {
                    assert(unknown_names(keys) =~= unknown_names(old_keys).insert(keys.last()));
                }
            },
        }
        proof {
            if count_of(keys, version_name()) > 0 {
                lemma_first_index_bounds(keys, version_name());
            }
            if count_of(keys, data_name()) > 0 {
                lemma_first_index_bounds(keys, data_name());
            }
        }
        i += 1;
    }
    proof {
        assert(spans.take(i as int) =~= spans);
    }
    Ok(fields)
}

/// Decoded keys come one per member.
proof fn lemma_decoded_keys_len(s: Seq<u8>, spans: Seq<Span4>)
    requires
        decoded_keys(s, spans) is Some,
    ensures
        decoded_keys(s, spans)->0.len() == spans.len(),
    decreases spans.len(),
{
    if spans.len() > 0 {
        lemma_decoded_keys_len(s, spans.drop_last());
    }
}

/// Once a prefix of the keys fails to decode, the whole list does.
proof fn lemma_decoded_keys_none_prefix(s: Seq<u8>, spans: Seq<Span4>, n: int)
    requires
        0 <= n <= spans.len(),
        decoded_keys(s, spans.take(n)) is None,
    ensures
        decoded_keys(s, spans) is None,
    decreases spans.len() - n,
{
    if n < spans.len() {
        assert(spans.take(n + 1).drop_last() =~= spans.take(n));
        lemma_decoded_keys_none_prefix(s, spans, n + 1);
    } else {
        assert(spans.take(n) =~= spans);
    }
}


/// What reading the envelope of a document comes to.
pub enum Opened {
    /// The document is not JSON, or a key does not decode.
    Json,
    /// The document is JSON, but not an envelope.
    NotAnEnvelope(NotAnEnvelopeReason),
    /// A field of the envelope occurs more than once.
    DuplicateFields(EnvelopeFieldSet),
    /// The envelope has other fields, with these names.
    UnknownFields(Set<Seq<char>>),
    /// The version is not a `u32`; serde_json refuses it with this error.
    Version(serde_json::Error),
    /// The document is an envelope of this version, whose data lies in
    /// `[data_start, data_end)`.
    Envelope { version: u32, data_start: int, data_end: int },
}

/// The fault in an object's fields, if any.
pub open spec fn fields_fault(version: Field, data: Field, unknown: Set<Seq<char>>) -> Option<Opened> {
    match (version, data) {
        (Field::Absent, Field::Absent) => Some(
            Opened::NotAnEnvelope(NotAnEnvelopeReason::Missing { fields: EnvelopeFieldSet::VersionAndData }),
        ),
        (Field::Absent, _) => Some(
            Opened::NotAnEnvelope(NotAnEnvelopeReason::Missing { fields: EnvelopeFieldSet::Version }),
        ),
        (_, Field::Absent) => Some(
            Opened::NotAnEnvelope(NotAnEnvelopeReason::Missing { fields: EnvelopeFieldSet::Data }),
        ),
        (Field::Duplicated, Field::Present) => Some(Opened::DuplicateFields(EnvelopeFieldSet::Version)),
        (Field::Present, Field::Duplicated) => Some(Opened::DuplicateFields(EnvelopeFieldSet::Data)),
        (Field::Duplicated, Field::Duplicated) => Some(
            Opened::DuplicateFields(EnvelopeFieldSet::VersionAndData),
        ),
        (Field::Present, Field::Present) => if unknown.is_empty() {
            None
        } else {
            Some(Opened::UnknownFields(unknown))
        },
    }
}

impl EnvelopeError {
    /// What this error says of the document.
    pub open spec fn fault(&self) -> Opened {
        match self {
            EnvelopeError::Json { .. } => Opened::Json,
            EnvelopeError::NotAnEnvelope { reason } => Opened::NotAnEnvelope(*reason),
            EnvelopeError::DuplicateFields { fields } => Opened::DuplicateFields(*fields),
            EnvelopeError::UnknownFields { names } => Opened::UnknownFields(
                names_view(names@).to_set(),
            ),
            EnvelopeError::Version { source } => Opened::Version(*source),
        }
    }

    /// Unknown field names are listed once each, in byte order.
    pub open spec fn well_formed(&self) -> bool {
        match self {
            EnvelopeError::UnknownFields { names } => sorted_names(names_view(names@)),
            _ => true,
        }
    }
}

/// Decides whether an object's fields make an envelope.
pub fn check_fields(fields: ObjectFields) -> (r: Result<(), EnvelopeError>)
    requires
        sorted_names(names_view(fields.unknown@)),
    ensures
        r is Ok <==> fields_fault(fields.version, fields.data, names_view(fields.unknown@).to_set())
            is None,
        r matches Err(e) ==> Some(e.fault()) == fields_fault(
            fields.version,
            fields.data,
            names_view(fields.unknown@).to_set(),
        ) && e.well_formed(),
{
    let ghost unknown = names_view(fields.unknown@).to_set();
    let missing = match (fields.version, fields.data) {
        (Field::Absent, Field::Absent) => Some(EnvelopeFieldSet::VersionAndData),
        (Field::Absent, _) => Some(EnvelopeFieldSet::Version),
        (_, Field::Absent) => Some(EnvelopeFieldSet::Data),
        _ => None,
    };
    if let Some(fields) = missing {
        return Err(
            EnvelopeError::NotAnEnvelope { reason: NotAnEnvelopeReason::Missing { fields } },
        );
    }
    let duplicate = match (fields.version, fields.data) {
        (Field::Duplicated, Field::Present) => Some(EnvelopeFieldSet::Version),
        (Field::Present, Field::Duplicated) => Some(EnvelopeFieldSet::Data),
        (Field::Duplicated, Field::Duplicated) => Some(EnvelopeFieldSet::VersionAndData),
        _ => None,
    };
    if let Some(fields) = duplicate {
        return Err(EnvelopeError::DuplicateFields { fields });
    }
    if fields.unknown.len() > 0 {
        proof {
            let names = names_view(fields.unknown@);
            assert(unknown.contains(names[0]));
        }
        return Err(EnvelopeError::UnknownFields { names: fields.unknown });
    }
    proof {
        assert(names_view(fields.unknown@) =~= Seq::<Seq<char>>::empty());
        assert(unknown =~= Set::<Seq<char>>::empty());
    }
    Ok(())
}

/// The byte that stands in for `b` before a value: a line feed stays, any
/// other byte becomes a space.
pub open spec fn blank(b: u8) -> u8 {
    if b == 10 {
        10
    } else {
        32
    }
}

/// The document up to `end`, with every byte before `start` blanked out. The
/// value in `[start, end)` then reads as the only value, and serde_json
/// reports positions in it as positions in the whole document.
pub open spec fn positioned(s: Seq<u8>, start: int, end: int) -> Seq<u8> {
    Seq::new(end as nat, |i: int| if i < start { blank(s[i]) } else { s[i] })
}

/// Builds [`positioned`]: the value in `[start, end)`, preceded by blanks that
/// keep its line and column.
pub fn positioned_value(s: &[u8], start: usize, end: usize) -> (r: Vec<u8>)
    requires
        start <= end <= s@.len(),
    ensures
        r@ == positioned(s@, start as int, end as int),
{
    let mut out: Vec<u8> = Vec::with_capacity(end);
    let mut i: usize = 0;
    while i < end
        invariant
            i <= end <= s@.len(),
            out@ =~= positioned(s@, start as int, end as int).take(i as int),
        decreases end - i,
    {
        if i < start {
            if s[i] == 10 {
                out.push(10);
            } else {
                out.push(32);
            }
        } else {
            out.push(s[i]);
        }
        i += 1;
    }
    proof {
        assert(positioned(s@, start as int, end as int).take(end as int) =~= positioned(
            s@,
            start as int,
            end as int,
        ));
    }
    out
}

/// A `u32` written the one way JSON writes it: digits only, no leading zero,
/// in range.
pub open spec fn canonical_u32(b: Seq<u8>) -> bool {
    &&& 1 <= b.len() <= 10
    &&& forall|i: int| 0 <= i < b.len() ==> is_digit(#[trigger] b[i])
    &&& (b.len() == 1 || b[0] != 48)
    &&& digits_value(b) <= u32::MAX
}

/// The version a member's value stands for: a canonical `u32` is read
/// directly; serde_json reads any other value.
pub open spec fn version_value(s: Seq<u8>, v: Span4) -> Result<u32, serde_json::Error> {
    let text = s.subrange(v.2, v.3);
    if canonical_u32(text) {
        Ok(digits_value(text) as u32)
    } else {
        json_u32(positioned(s, v.2, v.3))
    }
}

/// A prefix of a run of digits spells a number no larger than the run.
proof fn lemma_digits_prefix(b: Seq<u8>, k: int)
    requires
        0 <= k <= b.len(),
    ensures
        digits_value(b.take(k)) <= digits_value(b),
    decreases b.len(),
{
    if k < b.len() {
        assert(b.drop_last().take(k) =~= b.take(k));
        lemma_digits_prefix(b.drop_last(), k);
    } else {
        assert(b.take(k) =~= b);
    }
}

/// Reads a canonical `u32`, if the bytes are one.
pub fn read_canonical_u32(text: &[u8]) -> (r: Option<u32>)
    ensures
        r is Some <==> canonical_u32(text@),
        r matches Some(n) ==> n == digits_value(text@),
{
    let n = text.len();
    if n == 0 || n > 10 {
        return None;
    }
    if n > 1 && text[0] == 48 {
        return None;
    }
    let mut acc: u64 = 0;
    let mut k: usize = 0;
    while k < n
        invariant
            k <= n == text@.len(),
            1 <= n <= 10,
            n == 1 || text@[0] != 48,
            acc == digits_value(text@.take(k as int)),
            acc <= u32::MAX,
            forall|i: int| 0 <= i < k ==> is_digit(#[trigger] text@[i]),
        decreases n - k,
    {
        let b = text[k];
        if b < 48 || b > 57 {
            return None;
        }
        proof {
            assert(text@.take(k + 1).drop_last() =~= text@.take(k as int));
        }
        acc = acc * 10 + (b - 48) as u64;
        if acc > u32::MAX as u64 {
            proof {
                lemma_digits_prefix(text@, k + 1);
            }
            return None;
        }
        k += 1;
    }
    proof {
        assert(text@.take(n as int) =~= text@);
    }
    Some(acc as u32)
}

/// What reading the envelope of the document `s` comes to.
pub open spec fn open_spec(s: Seq<u8>) -> Opened {
    if !json_accepts(s) {
        Opened::Json
    } else {
        match shape(s) {
            Shape::NonObject(kind) => Opened::NotAnEnvelope(NotAnEnvelopeReason::NonObjectRoot { kind }),
            Shape::Object(members) => match decoded_keys(s, members) {
                None => Opened::Json,
                Some(keys) => match fields_fault(
                    field_for(count_of(keys, version_name())),
                    field_for(count_of(keys, data_name())),
                    unknown_names(keys),
                ) {
                    Some(fault) => fault,
                    None => {
                        let v = members[first_index(keys, version_name())];
                        let d = members[first_index(keys, data_name())];
                        match version_value(s, v) {
                            Err(e) => Opened::Version(e),
                            Ok(version) => Opened::Envelope {
                                version,
                                data_start: d.2,
                                data_end: d.3,
                            },
                        }
                    },
                },
            },
        }
    }
}

/// The reader refuses as "not JSON" every document that serde_json refuses;
/// a document that serde_json accepts is refused so only when its root is an
/// object one of whose keys serde_json cannot decode as a string.
pub proof fn law_json_errors_follow_serde_json(s: Seq<u8>)
    ensures
        !json_accepts(s) ==> open_spec(s) == Opened::Json,
        json_accepts(s) && open_spec(s) == Opened::Json ==> (shape(s) matches Shape::Object(
            members,
        ) && decoded_keys(s, members) is None),
{
}

/// The root kind of a JSON document decides whether it can be an envelope: a
/// document whose first non-whitespace byte starts a value other than an
/// object is not an envelope, for that kind of root; a document whose root is
/// an object is never refused for its root's kind.
pub proof fn law_root_kind(s: Seq<u8>)
    requires
        json_accepts(s),
        skip_ws(s, 0) < s.len(),
    ensures
        kind_of(s[skip_ws(s, 0)]) matches Some(kind) ==> open_spec(s) == Opened::NotAnEnvelope(
            NotAnEnvelopeReason::NonObjectRoot { kind },
        ),
        kind_of(s[skip_ws(s, 0)]) is None ==> !(open_spec(s) matches Opened::NotAnEnvelope(
            NotAnEnvelopeReason::NonObjectRoot { .. },
        )),
{
}

/// An envelope whose version has been read.
#[derive(Clone, Copy, Debug, PartialEq, Eq)]
pub struct Envelope {
    /// The envelope's version.
    pub version: u32,
    /// The position of the data value's first byte.
    pub data_start: usize,
    /// The position just after the data value.
    pub data_end: usize,
}

/// Where serde_json refuses the document `s`, the error `e` is a JSON error
/// carrying serde_json's own error for it.
pub open spec fn refusal_kept(s: Seq<u8>, e: EnvelopeError) -> bool {
    !json_accepts(s) ==> (e matches EnvelopeError::Json { source } && json_refusal(s) == Some(
        source,
    ))
}

/// What a result of [`parse_envelope`] says of the document.
pub open spec fn opened(r: Result<Envelope, EnvelopeError>) -> Opened {
    match r {
        Ok(e) => Opened::Envelope {
            version: e.version,
            data_start: e.data_start as int,
            data_end: e.data_end as int,
        },
        Err(e) => e.fault(),
    }
}

/// Reads the envelope of a document: checks that it is JSON, that its root is
/// an object with exactly one `version` and one `data` field and no other,
/// and that the version is a `u32`.
pub fn parse_envelope(bytes: &[u8]) -> (r: Result<Envelope, EnvelopeError>)
    ensures
        opened(r) == open_spec(bytes@),
        r matches Err(e) ==> refusal_kept(bytes@, e),
        r matches Err(e) ==> e.well_formed(),
        r matches Ok(e) ==> e.data_start <= e.data_end <= bytes@.len(),
{
    match check_json(bytes) {
        Ok(()) => {},
        Err(source) => {
            return Err(EnvelopeError::Json { source });
        },
    }
    let members = match scan_document(bytes) {
        ScannedDocument::Object(members) => members,
        ScannedDocument::NonObject(kind) => {
            return Err(
                EnvelopeError::NotAnEnvelope { reason: NotAnEnvelopeReason::NonObjectRoot { kind } },
            );
        },
    };
    let ghost spans = members@.map_values(|m: MemberSpan| m@);
    let fields = match collect_fields(bytes, &members) {
        Ok(fields) => fields,
        Err(source) => {
            return Err(EnvelopeError::Json { source });
        },
    };
    let ghost keys = decoded_keys(bytes@, spans)->0;
    let version_member = fields.version_member;
    let data_member = fields.data_member;
    check_fields(fields)?;
    let (v, d) = match (version_member, data_member) {
        (Some(v), Some(d)) => (v, d),
        _ => {
            proof {
                assert(false);
            }
            return Err(EnvelopeError::NotAnEnvelope {
                reason: NotAnEnvelopeReason::Missing { fields: EnvelopeFieldSet::VersionAndData },
            });
        },
    };
    proof {
        lemma_first_index_bounds(keys, version_name());
        lemma_first_index_bounds(keys, data_name());
        lemma_decoded_keys_len(bytes@, spans);
        let vi = first_index(keys, version_name());
        let di = first_index(keys, data_name());
        assert(spans[vi] == members@[vi]@);
        assert(spans[di] == members@[di]@);
        assert(v == members@[vi]);
        assert(d == members@[di]);
    }
    let digits = vstd::slice::slice_subrange(bytes, v.value_start, v.value_end);
    if let Some(version) = read_canonical_u32(digits) {
        return Ok(Envelope { version, data_start: d.value_start, data_end: d.value_end });
    }
    let value = positioned_value(bytes, v.value_start, v.value_end);
    match decode_u32(value.as_slice()) {
        Ok(version) => Ok(Envelope { version, data_start: d.value_start, data_end: d.value_end }),
        Err(source) => Err(EnvelopeError::Version { source }),
    }
}


/// The data of an envelope is one JSON value: followed by the envelope's
/// closing brace, it scans as a single value that ends where the data ends.
pub open spec fn is_single_value(data: Seq<u8>) -> bool {
    &&& data.len() > 0
    &&& !is_ws(data[0])
    &&& value_end(data.push(RBRACE), 0) == data.len()
}

/// Reading what the writer wrote gives it back: for every version and every
/// data that is one JSON value, if serde_json accepts the written envelope as
/// JSON, reading it finds that version, and the data exactly where the writer
/// put it.
pub proof fn law_envelope_roundtrip(version: u32, data: Seq<u8>)
    requires
        is_single_value(data),
        json_accepts(envelope_bytes(version, data)),
    ensures
        open_spec(envelope_bytes(version, data)) == (Opened::Envelope {
            version,
            data_start: data_offset(version),
            data_end: data_offset(version) + data.len(),
        }),
        positioned(envelope_bytes(version, data), data_offset(version), data_offset(version)
            + data.len()) == spaces(data_offset(version) as nat) + data,
{
    let d = decimal_bytes(version as nat);
    lemma_decimal_u32(version);
    lemma_field_literals();
    let l = d.len() as int;
    let n = data.len() as int;
    let vp = version_prefix();
    let dp = data_prefix();
    let s = envelope_bytes(version, data);
    let p = vp + d + dp;
    let w = data.push(RBRACE);
    assert(s =~= p + w);
    assert(s.len() == 20 + l + n);
    assert(s[0] == LBRACE);
    assert(s[1] == QUOTE);
    assert(s[9] == QUOTE);
    assert(s[10] == COLON);
    assert forall|k: int| 0 <= k < l implies s[11 + k] == d[k] by {
        assert(s[11 + k] == (vp + d)[11 + k]);
    }
    assert(s[11 + l] == COMMA);
    assert(s[12 + l] == QUOTE);
    assert(s[17 + l] == QUOTE);
    assert(s[18 + l] == COLON);
    assert(s[19 + l] == data[0]);
    assert(s[19 + l + n] == RBRACE);
    // The version member.
    assert forall|k: int| 2 <= k < 9 implies s[k] != QUOTE && s[k] != BACKSLASH by {
        assert(s[k] == vp[k]);
    }
    lemma_string_end_run(s, 2, 9);
    assert(s[11] == d[0]);
    assert forall|k: int| 11 <= k < 11 + l implies !ends_scalar(#[trigger] s[k]) by {
        assert(s[k] == d[k - 11]);
        assert(is_digit(d[k - 11]));
    }
    lemma_scalar_end_run(s, 11, 11 + l);
    assert(value_end(s, 11) == 11 + l);
    let m1: Span4 = (1, 10, 11, 11 + l);
    // The data member.
    assert forall|k: int| 13 + l <= k < 17 + l implies s[k] != QUOTE && s[k] != BACKSLASH by {
        assert(s[k] == dp[k - 11 - l]);
    }
    lemma_string_end_run(s, 13 + l, 17 + l);
    lemma_value_end_shift(p, w, 0);
    assert(p.len() == 19 + l);
    assert(value_end(s, 19 + l) == 19 + l + n);
    let m2: Span4 = (12 + l, 18 + l, 19 + l, 19 + l + n);
    assert(members_from(s, 12 + l) == seq![m2]);
    assert(members_from(s, 1) == seq![m1] + members_from(s, 12 + l));
    let members = seq![m1, m2];
    assert(object_members(s, 0) =~= members);
    assert(shape(s) == Shape::Object(members));
    // The keys.
    assert(key_literal(s, m1) =~= version_literal());
    assert(key_literal(s, m2) =~= data_literal());
    assert(members.drop_last() =~= seq![m1]);
    assert(seq![m1].drop_last() =~= Seq::<Span4>::empty());
    let keys = seq![version_name(), data_name()];
    assert(key_name(version_literal()) == Some(version_name()));
    assert(key_name(data_literal()) == Some(data_name()));
    assert(decoded_keys(s, Seq::<Span4>::empty()) == Some(Seq::<Seq<char>>::empty()));
    assert(decoded_keys(s, seq![m1]) == Some(seq![version_name()])) by {
        assert(seq![m1].last() == m1);
        assert(Seq::<Seq<char>>::empty().push(version_name()) =~= seq![version_name()]);
    }
    assert(decoded_keys(s, members) == Some(keys)) by {
        assert(seq![version_name()].push(data_name()) =~= keys);
    }
    assert(keys.drop_last() =~= seq![version_name()]);
    assert(seq![version_name()].drop_last() =~= Seq::<Seq<char>>::empty());
    assert(count_of(Seq::<Seq<char>>::empty(), version_name()) == 0);
    assert(count_of(Seq::<Seq<char>>::empty(), data_name()) == 0);
    assert(count_of(seq![version_name()], version_name()) == 1);
    assert(count_of(seq![version_name()], data_name()) == 0);
    assert(keys.last() == data_name());
    assert(count_of(keys, version_name()) == 1);
    assert(count_of(keys, data_name()) == 1);
    assert(first_index(seq![version_name()], version_name()) == 0);
    assert(first_index(keys, version_name()) == 0);
    assert(first_index(keys, data_name()) == 1);
    assert(unknown_names(keys) =~= Set::<Seq<char>>::empty()) by {
        assert forall|x: Seq<char>| !unknown_names(keys).contains(x) by {
            if keys.to_set().contains(x) {
                let i = choose|i: int| 0 <= i < keys.len() && keys[i] == x;
                assert(i == 0 || i == 1);
            }
        }
    }
    // The version.
    assert(s.subrange(11, 11 + l) =~= d);
    assert(version_value(s, m1) == Ok::<u32, serde_json::Error>(version));
    // The data, as the payload parser receives it.
    assert forall|k: int| 0 <= k < 19 + l implies s[k] != 10 by {
        if 11 <= k < 11 + l {
            assert(is_digit(d[k - 11]));
        } else if k < 11 {
            assert(s[k] == vp[k]);
        } else {
            assert(s[k] == dp[k - 11 - l]);
        }
    }
    assert(positioned(s, 19 + l, 19 + l + n) =~= spaces((19 + l) as nat) + data);
}

/// `n` spaces.
pub open spec fn spaces(n: nat) -> Seq<u8> {
    Seq::new(n, |i: int| 32u8)
}

/// The blanked-out value keeps the document's lines: a byte of it is a line
/// feed exactly where the document's is, every byte before the value is
/// whitespace, and the value itself is unchanged.
pub proof fn law_positioned_keeps_lines(s: Seq<u8>, start: int, end: int)
    requires
        0 <= start <= end <= s.len(),
    ensures
        positioned(s, start, end).len() == end,
        forall|i: int| 0 <= i < end ==> (#[trigger] positioned(s, start, end)[i] == 10 <==> s[i] == 10),
        forall|i: int| 0 <= i < start ==> is_ws(#[trigger] positioned(s, start, end)[i]),
        positioned(s, start, end).subrange(start, end) == s.subrange(start, end),
{
    assert(positioned(s, start, end).subrange(start, end) =~= s.subrange(start, end));
}

} // verus!
