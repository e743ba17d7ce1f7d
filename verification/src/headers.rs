//! Header fields: the names and values that `http` accepts, and what its
//! `HeaderMap` holds.

use crate::text::quoted;
use http::header::{HeaderName, HeaderValue};
use http::HeaderMap;
use vstd::prelude::*;
use vstd::utf8::*;

verus! {

/// `http::header::HeaderName`, a valid name in lower case.
#[verifier::external_type_specification]
#[verifier::external_body]
pub struct ExHeaderName(http::header::HeaderName);

/// `http::header::HeaderValue`, the bytes of a valid value.
#[verifier::external_type_specification]
#[verifier::external_body]
pub struct ExHeaderValue(http::header::HeaderValue);

/// `http::HeaderMap`, names with one value or more each.
#[verifier::external_type_specification]
#[verifier::external_body]
#[verifier::reject_recursive_types(T)]
pub struct ExHeaderMap<T>(http::HeaderMap<T>);

/// The most names that a `HeaderMap` holds.
pub const MAX_NAMES: usize = 32768;

/// A name of this many bytes or more is beyond what `HeaderName` can parse.
pub const NAME_LIMIT: usize = 65536;

/// The characters that `HeaderName` accepts.
pub open spec fn is_name_char(c: char) -> bool {
    ||| 'a' <= c <= 'z'
    ||| 'A' <= c <= 'Z'
    ||| '0' <= c <= '9'
    ||| c == '!' || c == '"' || c == '#' || c == '$' || c == '%' || c == '&' || c == '\''
    ||| c == '*' || c == '+' || c == '-' || c == '.' || c == '^' || c == '_' || c == '`'
    ||| c == '|' || c == '~'
}

/// A header name is not empty and is made of name characters.
pub open spec fn valid_name(name: Seq<char>) -> bool {
    &&& name.len() > 0
    &&& forall|i: int| 0 <= i < name.len() ==> is_name_char(#[trigger] name[i])
}

/// The lower case of an ASCII letter; any other character as it is.
pub open spec fn lower_char(c: char) -> char {
    if 'A' <= c <= 'Z' {
        ((c as u32) + 32) as char
    } else {
        c
    }
}

/// Header names are kept in lower case.
pub open spec fn lower_case(name: Seq<char>) -> Seq<char> {
    name.map_values(|c: char| lower_char(c))
}

/// The bytes that a header value may hold: no control byte but the tab.
pub open spec fn is_value_byte(b: u8) -> bool {
    b >= 32 && b != 127 || b == 9
}

pub open spec fn valid_value(value: Seq<u8>) -> bool {
    forall|i: int| 0 <= i < value.len() ==> is_value_byte(#[trigger] value[i])
}

/// The bytes of a value that can be read as text.
pub open spec fn is_text_byte(b: u8) -> bool {
    32 <= b < 127 || b == 9
}

pub open spec fn is_text(value: Seq<u8>) -> bool {
    forall|i: int| 0 <= i < value.len() ==> is_text_byte(#[trigger] value[i])
}

/// The text that ASCII bytes spell.
pub open spec fn text_of(value: Seq<u8>) -> Seq<char> {
    value.map_values(|b: u8| b as char)
}

/// The fields of a header map: each name once, in the order in which the names
/// came, with its values in the order in which they came.
pub type Fields<V> = Seq<(Seq<char>, Seq<V>)>;

pub open spec fn has_field<V>(fields: Fields<V>, name: Seq<char>) -> bool {
    exists|i: int| 0 <= i < fields.len() && (#[trigger] fields[i]).0 == name
}

/// Where the field with this name stands.
pub open spec fn field_index<V>(fields: Fields<V>, name: Seq<char>) -> int {
    choose|i: int| 0 <= i < fields.len() && (#[trigger] fields[i]).0 == name
}

/// The values under a name.
pub open spec fn values_of<V>(fields: Fields<V>, name: Seq<char>) -> Seq<V> {
    if has_field(fields, name) {
        fields[field_index(fields, name)].1
    } else {
        Seq::empty()
    }
}

/// One more value under a name: behind the values that the name has, or in a
/// new field at the end.
pub open spec fn appended<V>(fields: Fields<V>, name: Seq<char>, value: V) -> Fields<V> {
    if has_field(fields, name) {
        let i = field_index(fields, name);
        fields.update(i, (name, fields[i].1.push(value)))
    } else {
        fields.push((name, seq![value]))
    }
}

/// One value under a name, in place of those that the name has.
pub open spec fn replaced<V>(fields: Fields<V>, name: Seq<char>, value: V) -> Fields<V> {
    if has_field(fields, name) {
        fields.update(field_index(fields, name), (name, seq![value]))
    } else {
        fields.push((name, seq![value]))
    }
}

/// No name occurs twice, and none stands without a value.
pub open spec fn well_formed<V>(fields: Fields<V>) -> bool {
    &&& forall|i: int, j: int|
        0 <= i < j < fields.len() ==> (#[trigger] fields[i]).0 != (#[trigger] fields[j]).0
    &&& forall|i: int| 0 <= i < fields.len() ==> (#[trigger] fields[i]).1.len() > 0
}

/// The fields one value at a time, each with its name.
pub open spec fn pairs<V>(fields: Fields<V>) -> Seq<(Seq<char>, V)>
    decreases fields.len(),
{
    if fields.len() == 0 {
        Seq::empty()
    } else {
        let (name, values) = fields.last();
        pairs(fields.drop_last()) + values.map_values(|v: V| (name, v))
    }
}

/// The fields that appending each pair in turn to an empty map gives.
pub open spec fn collected<V>(list: Seq<(Seq<char>, V)>) -> Fields<V>
    decreases list.len(),
{
    if list.len() == 0 {
        Seq::empty()
    } else {
        appended(collected(list.drop_last()), list.last().0, list.last().1)
    }
}

/// The fields with each value read as text.
pub open spec fn as_text(fields: Fields<Seq<u8>>) -> Fields<Seq<char>> {
    fields.map_values(
        |f: (Seq<char>, Seq<Seq<u8>>)| (f.0, f.1.map_values(|v: Seq<u8>| text_of(v))),
    )
}

/// Whether each value can be read as text.
pub open spec fn all_text(fields: Fields<Seq<u8>>) -> bool {
    forall|i: int, j: int|
        0 <= i < fields.len() && 0 <= j < fields[i].1.len() ==> is_text(
            #[trigger] fields[i].1[j],
        )
}

/// In a well-formed map a name stands in one place.
proof fn lemma_field_at<V>(fields: Fields<V>, i: int)
    requires
        well_formed(fields),
        0 <= i < fields.len(),
    ensures
        has_field(fields, fields[i].0),
        field_index(fields, fields[i].0) == i,
        values_of(fields, fields[i].0) == fields[i].1,
{
    let j = field_index(fields, fields[i].0);
    assert(0 <= j < fields.len() && fields[j].0 == fields[i].0);
    if i < j {
        assert(fields[i].0 != fields[j].0);
    } else if j < i {
        assert(fields[j].0 != fields[i].0);
    }
}

/// Appending puts the value behind those of its name, leaves the other names
/// alone, and keeps a map well formed.
pub proof fn lemma_appended<V>(fields: Fields<V>, name: Seq<char>, value: V)
    requires
        well_formed(fields),
    ensures
        well_formed(appended(fields, name, value)),
        values_of(appended(fields, name, value), name) == values_of(fields, name).push(value),
        forall|other: Seq<char>|
            other != name ==> #[trigger] values_of(appended(fields, name, value), other)
                == values_of(fields, other),
        has_field(appended(fields, name, value), name),
        appended(fields, name, value).len() == fields.len() + if has_field(fields, name) {
            0int
        } else {
            1
        },
{
    let after = appended(fields, name, value);
    let at = if has_field(fields, name) {
        field_index(fields, name)
    } else {
        fields.len() as int
    };
    assert(after[at].0 == name);
    assert(forall|i: int| 0 <= i < fields.len() ==> (#[trigger] after[i]).0 == fields[i].0);
    assert forall|i: int, j: int| 0 <= i < j < after.len() implies (#[trigger] after[i]).0 != (
    #[trigger] after[j]).0 by {
        if j < fields.len() {
            assert(fields[i].0 != fields[j].0);
        } else {
            assert(fields[i].0 != name);
        }
    }
    assert(well_formed(after));
    lemma_field_at(after, at);
    if !has_field(fields, name) {
        assert(values_of(fields, name).push(value) =~= seq![value]);
    }
    assert forall|other: Seq<char>| other != name implies #[trigger] values_of(after, other)
        == values_of(fields, other) by {
        if has_field(fields, other) {
            let j = field_index(fields, other);
            assert(after[j] == fields[j]);
            lemma_field_at(after, j);
        } else if has_field(after, other) {
            let j = field_index(after, other);
            assert(after[j].0 == other);
            assert(fields[j].0 == other);
        }
    }
}

/// Appending the pairs of a field one by one to fields that lack its name puts
/// that field at their end.
proof fn lemma_collect_field<V>(
    list: Seq<(Seq<char>, V)>,
    before: Fields<V>,
    name: Seq<char>,
    values: Seq<V>,
)
    requires
        collected(list) == before,
        !has_field(before, name),
        values.len() > 0,
    ensures
        collected(list + values.map_values(|v: V| (name, v))) == before.push((name, values)),
    decreases values.len(),
{
    let all = list + values.map_values(|v: V| (name, v));
    let most = values.drop_last();
    assert(all.drop_last() =~= list + most.map_values(|v: V| (name, v)));
    if most.len() == 0 {
        assert(all.drop_last() =~= list);
        assert(values =~= seq![values.last()]);
    } else {
        lemma_collect_field(list, before, name, most);
        let so_far = before.push((name, most));
        let last = before.len() as int;
        assert(so_far[last].0 == name);
        assert forall|i: int| 0 <= i < so_far.len() && (#[trigger] so_far[i]).0 == name implies i
            == last by {
            if i < last {
                assert(before[i].0 == name);
            }
        }
        assert(field_index(so_far, name) == last);
        assert(most.push(values.last()) =~= values);
        assert(so_far.update(last, (name, values)) =~= before.push((name, values)));
    }
}

/// Appending the pairs of a map one by one to an empty map gives the map.
pub proof fn lemma_collect_pairs<V>(fields: Fields<V>)
    requires
        well_formed(fields),
    ensures
        collected(pairs(fields)) == fields,
    decreases fields.len(),
{
    if fields.len() > 0 {
        let most = fields.drop_last();
        let (name, values) = fields.last();
        assert(well_formed(most)) by {
            assert forall|i: int, j: int| 0 <= i < j < most.len() implies (#[trigger] most[i]).0
                != (#[trigger] most[j]).0 by {
                assert(fields[i].0 != fields[j].0);
            }
            assert forall|i: int| 0 <= i < most.len() implies (#[trigger] most[i]).1.len() > 0 by {
                assert(fields[i].1.len() > 0);
            }
        }
        lemma_collect_pairs(most);
        assert(!has_field(most, name)) by {
            assert forall|i: int| 0 <= i < most.len() implies (#[trigger] most[i]).0 != name by {
                assert(fields[i].0 != fields[fields.len() - 1].0);
            }
        }
        assert(fields[fields.len() - 1].1.len() > 0);
        lemma_collect_field(pairs(most), most, name, values);
        assert(most.push((name, values)) =~= fields);
    } else {
        assert(collected(pairs(fields)) =~= fields);
    }
}

/// Appending more pairs takes no name away.
pub proof fn lemma_collected_len<V>(list: Seq<(Seq<char>, V)>, k: int)
    requires
        0 <= k <= list.len(),
    ensures
        collected(list.take(k)).len() <= collected(list).len(),
    decreases list.len() - k,
{
    if k == list.len() {
        assert(list.take(k) =~= list);
    } else {
        lemma_collected_len(list, k + 1);
        assert(list.take(k + 1).drop_last() =~= list.take(k));
    }
}

/// Reading the values as text commutes with going through them one by one.
pub proof fn lemma_pairs_as_text(fields: Fields<Seq<u8>>)
    ensures
        pairs(as_text(fields)) == pairs(fields).map_values(
            |p: (Seq<char>, Seq<u8>)| (p.0, text_of(p.1)),
        ),
    decreases fields.len(),
{
    let read = |p: (Seq<char>, Seq<u8>)| (p.0, text_of(p.1));
    if fields.len() == 0 {
        assert(pairs(as_text(fields)) =~= pairs(fields).map_values(read));
    } else {
        let most = fields.drop_last();
        let (name, values) = fields.last();
        lemma_pairs_as_text(most);
        assert(as_text(fields).drop_last() =~= as_text(most));
        assert(as_text(fields).last() == (name, values.map_values(|v: Seq<u8>| text_of(v))));
        assert(pairs(as_text(fields)) =~= pairs(fields).map_values(read));
    }
}

/// Reading the values as text keeps a map well formed.
pub proof fn lemma_as_text_well_formed(fields: Fields<Seq<u8>>)
    requires
        well_formed(fields),
    ensures
        well_formed(as_text(fields)),
{
    let read = as_text(fields);
    assert forall|i: int, j: int| 0 <= i < j < read.len() implies (#[trigger] read[i]).0 != (
    #[trigger] read[j]).0 by {
        assert(fields[i].0 != fields[j].0);
    }
    assert forall|i: int| 0 <= i < read.len() implies (#[trigger] read[i]).1.len() > 0 by {
        assert(fields[i].1.len() > 0);
    }
}

/// Reading the values as text keeps the names, their order, and how many values
/// each has; and no two values that can be read give the same text.
pub proof fn law_reading_keeps_the_fields(fields: Fields<Seq<u8>>)
    ensures
        as_text(fields).len() == fields.len(),
        forall|i: int|
            0 <= i < fields.len() ==> (#[trigger] as_text(fields)[i]).0 == fields[i].0
                && as_text(fields)[i].1.len() == fields[i].1.len(),
        forall|v: Seq<u8>, w: Seq<u8>|
            is_text(v) && is_text(w) && #[trigger] text_of(v) == #[trigger] text_of(w) ==> v == w,
{
    assert forall|v: Seq<u8>, w: Seq<u8>|
        is_text(v) && is_text(w) && #[trigger] text_of(v) == #[trigger] text_of(w) implies v
        == w by {
        assert(v.len() == text_of(v).len() && w.len() == text_of(w).len());
        assert forall|i: int| 0 <= i < v.len() implies v[i] == w[i] by {
            assert(text_of(v)[i] == text_of(w)[i]);
            assert(is_text_byte(v[i]) && is_text_byte(w[i]));
        }
        assert(v =~= w);
    }
}

/// All values can be read as text when each one that a walk meets can.
pub proof fn lemma_all_text(fields: Fields<Seq<u8>>)
    ensures
        all_text(fields) <==> forall|k: int|
            0 <= k < pairs(fields).len() ==> is_text((#[trigger] pairs(fields)[k]).1),
    decreases fields.len(),
{
    let list = pairs(fields);
    if fields.len() > 0 {
        let most = fields.drop_last();
        let (name, values) = fields.last();
        let head = pairs(most);
        lemma_all_text(most);
        assert(forall|i: int| 0 <= i < most.len() ==> #[trigger] most[i] == fields[i]);
        assert(list.len() == head.len() + values.len());
        if all_text(fields) {
            assert(all_text(most)) by {
                assert forall|i: int, j: int|
                    0 <= i < most.len() && 0 <= j < most[i].1.len() implies is_text(
                    #[trigger] most[i].1[j],
                ) by {
                    assert(is_text(fields[i].1[j]));
                }
            }
            assert forall|k: int| 0 <= k < list.len() implies is_text((#[trigger] list[k]).1) by {
                if k < head.len() {
                    assert(list[k] == head[k]);
                } else {
                    assert(list[k].1 == fields[fields.len() - 1].1[k - head.len()]);
                }
            }
        }
        if forall|k: int| 0 <= k < list.len() ==> is_text((#[trigger] list[k]).1) {
            assert forall|k: int| 0 <= k < head.len() implies is_text((#[trigger] head[k]).1) by {
                assert(list[k] == head[k]);
            }
            assert forall|i: int, j: int|
                0 <= i < fields.len() && 0 <= j < fields[i].1.len() implies is_text(
                #[trigger] fields[i].1[j],
            ) by {
                if i < most.len() {
                    assert(is_text(most[i].1[j]));
                } else {
                    assert(list[head.len() + j].1 == fields[i].1[j]);
                }
            }
        }
    }
}

/// The text of a name.
pub uninterp spec fn name_text(name: HeaderName) -> Seq<char>;

/// The bytes of a value.
pub uninterp spec fn value_bytes(value: HeaderValue) -> Seq<u8>;

/// The fields of a map of header values.
pub uninterp spec fn value_fields(map: HeaderMap<HeaderValue>) -> Seq<(Seq<char>, Seq<Seq<u8>>)>;

/// The fields of a map of strings.
pub uninterp spec fn text_fields(map: HeaderMap<String>) -> Seq<(Seq<char>, Seq<Seq<char>>)>;

/// `HeaderName`'s `FromStr`: a valid name is accepted and put in lower case, any
/// other is an error that always reads the same. It panics on a name of
/// [`NAME_LIMIT`] bytes or more.
#[verifier::external_body]
pub(crate) fn parse_name(name: &str) -> (parsed: Result<HeaderName, String>)
    requires
        encode_utf8(name@).len() < NAME_LIMIT,
    ensures
        parsed is Ok <==> valid_name(name@),
        parsed matches Ok(n) ==> name_text(n) == lower_case(name@),
        parsed matches Err(e) ==> e@ == "invalid HTTP header name"@,
{
    name.parse::<HeaderName>().map_err(|e| e.to_string())
}

/// `HeaderValue::from_bytes`: valid bytes are accepted and kept, any others are
/// an error that always reads the same.
#[verifier::external_body]
pub(crate) fn value_from_bytes(value: &[u8]) -> (parsed: Result<HeaderValue, String>)
    ensures
        parsed is Ok <==> valid_value(value@),
        parsed matches Ok(v) ==> value_bytes(v) == value@,
        parsed matches Err(e) ==> e@ == "failed to parse header value"@,
{
    HeaderValue::from_bytes(value).map_err(|e| e.to_string())
}

/// `HeaderMap::new`: an empty map.
#[verifier::external_body]
pub(crate) fn new_map() -> (map: HeaderMap<HeaderValue>)
    ensures
        value_fields(map) == Seq::<(Seq<char>, Seq<Seq<u8>>)>::empty(),
{
    HeaderMap::new()
}

/// `HeaderMap::append` on a map of header values: the value goes behind those of
/// its name, or a new field comes last; whether the name was there is given
/// back. A map that is full takes no new name.
#[verifier::external_body]
pub(crate) fn append_value(
    map: &mut HeaderMap<HeaderValue>,
    name: &HeaderName,
    value: HeaderValue,
) -> (had: bool)
    requires
        value_fields(*old(map)).len() < MAX_NAMES || has_field(
            value_fields(*old(map)),
            name_text(*name),
        ),
    ensures
        value_fields(*final(map)) == appended(
            value_fields(*old(map)),
            name_text(*name),
            value_bytes(value),
        ),
        had == has_field(value_fields(*old(map)), name_text(*name)),
{
    map.append(name, value)
}

/// `HeaderMap::insert`: the value takes the place of those that the name has,
/// the first of which is given back; or a new field comes last. A map that is
/// full takes no new name.
#[verifier::external_body]
pub(crate) fn insert_value(
    map: &mut HeaderMap<HeaderValue>,
    name: &HeaderName,
    value: HeaderValue,
) -> (before: Option<HeaderValue>)
    requires
        value_fields(*old(map)).len() < MAX_NAMES || has_field(
            value_fields(*old(map)),
            name_text(*name),
        ),
    ensures
        value_fields(*final(map)) == replaced(
            value_fields(*old(map)),
            name_text(*name),
            value_bytes(value),
        ),
        before is Some <==> has_field(value_fields(*old(map)), name_text(*name)),
        before matches Some(v) ==> value_bytes(v) == values_of(
            value_fields(*old(map)),
            name_text(*name),
        )[0],
{
    map.insert(name, value)
}

/// `HeaderMap::contains_key`: whether the map holds the name.
#[verifier::external_body]
pub(crate) fn contains_name(map: &HeaderMap<HeaderValue>, name: &HeaderName) -> (found: bool)
    ensures
        found == has_field(value_fields(*map), name_text(*name)),
{
    map.contains_key(name)
}

/// `HeaderMap::keys_len`: how many names the map holds.
#[verifier::external_body]
pub(crate) fn name_count(map: &HeaderMap<HeaderValue>) -> (count: usize)
    ensures
        count == value_fields(*map).len(),
{
    map.keys_len()
}

/// What a walk over a header map yields: its fields one value at a time, name
/// by name. A map never holds a name twice or without a value, and never more
/// names than its limit.
pub open spec fn is_walk(
    fields: Fields<Seq<u8>>,
    walked: Seq<(&HeaderName, &HeaderValue)>,
) -> bool {
    &&& well_formed(fields)
    &&& fields.len() <= MAX_NAMES
    &&& walked.map_values(
        |p: (&HeaderName, &HeaderValue)| (name_text(*p.0), value_bytes(*p.1)),
    ) == pairs(fields)
}

/// `HeaderMap::iter`: each value of the map with its name, in the map's order.
#[verifier::external_body]
pub(crate) fn walk(map: &HeaderMap<HeaderValue>) -> (walked: Vec<(&HeaderName, &HeaderValue)>)
    ensures
        is_walk(value_fields(*map), walked@),
{
    map.iter().collect()
}

/// `HeaderValue::to_str`: the text of a value of text bytes, an error for any
/// other.
#[verifier::external_body]
pub(crate) fn value_text(value: &HeaderValue) -> (text: Option<&str>)
    ensures
        text is Some <==> is_text(value_bytes(*value)),
        text matches Some(s) ==> s@ == text_of(value_bytes(*value)),
{
    value.to_str().ok()
}

/// `HeaderMap`'s `Default`: an empty map.
#[verifier::external_body]
pub(crate) fn default_text_map() -> (map: HeaderMap<String>)
    ensures
        text_fields(map) == Seq::<(Seq<char>, Seq<Seq<char>>)>::empty(),
{
    HeaderMap::default()
}

/// `HeaderMap::append` on a map of strings: as on a map of header values.
#[verifier::external_body]
pub(crate) fn append_text(map: &mut HeaderMap<String>, name: &HeaderName, value: String) -> (had:
    bool)
    requires
        text_fields(*old(map)).len() < MAX_NAMES || has_field(
            text_fields(*old(map)),
            name_text(*name),
        ),
    ensures
        text_fields(*final(map)) == appended(
            text_fields(*old(map)),
            name_text(*name),
            value@,
        ),
        had == has_field(text_fields(*old(map)), name_text(*name)),
{
    map.append(name, value)
}

/// Names with their values, as they are printed in a map.
pub open spec fn printed_pairs(list: Seq<(Seq<char>, Seq<char>)>) -> Seq<char>
    decreases list.len(),
{
    if list.len() == 0 {
        Seq::empty()
    } else {
        let (name, value) = list.last();
        let before = if list.len() == 1 {
            Seq::empty()
        } else {
            printed_pairs(list.drop_last()) + seq![',', ' ']
        };
        before + quoted(name) + seq![':', ' '] + quoted(value)
    }
}

/// What `{:?}` prints for a map of strings with these fields: each value with its
/// name, both quoted.
pub open spec fn printed_fields(fields: Fields<Seq<char>>) -> Seq<char> {
    seq!['{'] + printed_pairs(pairs(fields)) + seq!['}']
}

/// `HeaderMap`'s `Debug`: a map in braces of each value with its name, both as
/// `str`'s `Debug` prints them.
#[verifier::external_body]
pub(crate) fn print_text_map(map: &HeaderMap<String>) -> (printed: String)
    ensures
        printed@ == printed_fields(text_fields(*map)),
{
    format!("{:?}", map)
}

/// Lower case changes the letters from `A` to `Z` alone, and no length.
pub proof fn law_lower_case(name: Seq<char>)
    ensures
        lower_case(name).len() == name.len(),
        forall|i: int|
            0 <= i < name.len() && 'A' <= #[trigger] name[i] <= 'Z' ==> lower_case(name)[i] as u32
                == name[i] as u32 + 32,
        forall|i: int|
            0 <= i < name.len() && !('A' <= #[trigger] name[i] <= 'Z') ==> lower_case(name)[i]
                == name[i],
{
}

/// Values can be read when each of their bytes is visible ASCII, a space or a
/// tab; then each byte is one character of the text, and the names, their order
/// and the order of the values stay.
pub proof fn law_values_are_read_byte_by_byte(fields: Fields<Seq<u8>>)
    ensures
        all_text(fields) <==> forall|i: int, j: int, k: int|
            0 <= i < fields.len() && 0 <= j < fields[i].1.len() && 0 <= k < fields[i].1[j].len()
                ==> (32 <= #[trigger] fields[i].1[j][k] <= 126 || fields[i].1[j][k] == 9),
        as_text(fields).len() == fields.len(),
        forall|i: int|
            0 <= i < fields.len() ==> (#[trigger] as_text(fields)[i]).0 == fields[i].0
                && as_text(fields)[i].1.len() == fields[i].1.len(),
        forall|i: int, j: int|
            0 <= i < fields.len() && 0 <= j < fields[i].1.len() ==> (#[trigger] as_text(
                fields,
            )[i].1[j]).len() == fields[i].1[j].len(),
        forall|i: int, j: int, k: int|
            0 <= i < fields.len() && 0 <= j < fields[i].1.len() && 0 <= k < fields[i].1[j].len()
                ==> (#[trigger] as_text(fields)[i].1[j][k]) as u32 == fields[i].1[j][k],
{
    if all_text(fields) {
        assert forall|i: int, j: int, k: int|
            0 <= i < fields.len() && 0 <= j < fields[i].1.len() && 0 <= k
                < fields[i].1[j].len() implies (32 <= #[trigger] fields[i].1[j][k] <= 126
            || fields[i].1[j][k] == 9) by {
            assert(is_text(fields[i].1[j]));
            assert(is_text_byte(fields[i].1[j][k]));
        }
    }
    if forall|i: int, j: int, k: int|
        0 <= i < fields.len() && 0 <= j < fields[i].1.len() && 0 <= k < fields[i].1[j].len() ==> (
        32 <= #[trigger] fields[i].1[j][k] <= 126 || fields[i].1[j][k] == 9) {
        assert forall|i: int, j: int| 0 <= i < fields.len() && 0 <= j < fields[i].1.len() implies
            is_text(#[trigger] fields[i].1[j]) by {
            let value = fields[i].1[j];
            assert forall|k: int| 0 <= k < value.len() implies is_text_byte(#[trigger] value[k]) by {
                assert(32 <= fields[i].1[j][k] <= 126 || fields[i].1[j][k] == 9);
            }
        }
    }
}

/// The values under a name are those of the field with that name, and a name
/// without a field has none.
pub proof fn law_values_stand_in_their_field<V>(fields: Fields<V>, name: Seq<char>)
    requires
        well_formed(fields),
    ensures
        forall|i: int|
            0 <= i < fields.len() && (#[trigger] fields[i]).0 == name ==> values_of(fields, name)
                == fields[i].1,
        values_of(fields, name).len() == 0 <==> forall|i: int|
            0 <= i < fields.len() ==> (#[trigger] fields[i]).0 != name,
        has_field(fields, name) <==> exists|i: int|
            0 <= i < fields.len() && (#[trigger] fields[i]).0 == name,
{
    assert forall|i: int| 0 <= i < fields.len() && (#[trigger] fields[i]).0 == name implies values_of(
        fields,
        name,
    ) == fields[i].1 by {
        lemma_field_at(fields, i);
    }
    if has_field(fields, name) {
        let i = field_index(fields, name);
        assert(fields[i].1.len() > 0);
    }
}

} // verus!
