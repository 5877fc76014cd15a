//! Tagged values: the closed set of shapes a document field can take.
use vstd::prelude::*;
use vstd::string::*;
use crate::key::Key;
use crate::sequence::reversed;
use crate::text::{
    bool_text, bool_to_string, bytes_text, bytes_to_string, format_str_debug, integer_text,
    integer_to_string, str_debug,
};

verus! {

/// A 64-bit float, held as its IEEE-754 bit pattern together with its
/// text. `Double::new` makes the text from the plain decimal form of the
/// number.
#[derive(Debug, Clone, PartialEq)]
pub struct Double {
    pub bits: u64,
    pub text: String,
}

/// A point in time: whole seconds and a nanosecond part.
#[derive(Debug, Clone, PartialEq)]
pub struct Timestamp {
    pub seconds: i64,
    pub nanos: i32,
}

/// A point on the globe.
#[derive(Debug, Clone, PartialEq)]
pub struct LatLng {
    pub latitude: Double,
    pub longitude: Double,
}

/// One tagged value.
#[derive(Debug, PartialEq)]
pub enum Value {
    NullValue,
    BooleanValue(bool),
    IntegerValue(i64),
    DoubleValue(Double),
    TimestampValue(Timestamp),
    StringValue(String),
    BytesValue(Vec<u8>),
    ReferenceValue(String),
    GeoPointValue(LatLng),
    ArrayValue(Vec<Value>),
    MapValue(Fields),
    KeyValue(Key),
}

/// A mapping from field names to values. No name occurs twice; the entries
/// keep the order in which their names were first inserted.
#[derive(Debug, PartialEq)]
pub struct Fields {
    entries: Vec<(String, Value)>,
}

/// The entries with each name taken as its characters.
pub open spec fn named(entries: Seq<(String, Value)>) -> Seq<(Seq<char>, Value)> {
    Seq::new(entries.len(), |i: int| (entries[i].0@, entries[i].1))
}

/// Whether no name occurs twice.
pub open spec fn distinct_names(entries: Seq<(String, Value)>) -> bool {
    forall|i: int, j: int| 0 <= i < j < entries.len() ==> entries[i].0@ != entries[j].0@
}

/// The first index below `n` whose entry is named `name`, or `n`.
pub open spec fn position(entries: Seq<(String, Value)>, name: Seq<char>, n: nat) -> nat
    decreases n,
{
    if n == 0 || n > entries.len() {
        n
    } else {
        let before = position(entries, name, (n - 1) as nat);
        if before < n - 1 {
            before
        } else if entries[n - 1].0@ == name {
            (n - 1) as nat
        } else {
            n
        }
    }
}

/// The entries after `name` has been given `value`: in place where the name
/// is present, at the end where it is not.
pub open spec fn inserted(entries: Seq<(String, Value)>, name: String, value: Value) -> Seq<
    (String, Value),
> {
    let at = position(entries, name@, entries.len());
    if at < entries.len() {
        entries.update(at as int, (name, value))
    } else {
        entries.push((name, value))
    }
}

/// The value that `name` has in the entries, if it has one.
pub open spec fn value_of(entries: Seq<(String, Value)>, name: Seq<char>) -> Option<Value> {
    let at = position(entries, name, entries.len());
    if at < entries.len() {
        Some(entries[at as int].1)
    } else {
        None
    }
}

/// The mapping built by inserting the first `n` of `entries` in turn.
pub open spec fn collected(entries: Seq<(String, Value)>, n: nat) -> Seq<(String, Value)>
    decreases n,
{
    if n == 0 || n > entries.len() {
        Seq::empty()
    } else {
        inserted(collected(entries, (n - 1) as nat), entries[n - 1].0, entries[n - 1].1)
    }
}

/// A position is within bounds, holds the name where it is below the
/// bound, and has no entry of that name before it.
pub proof fn lemma_position_bounds(entries: Seq<(String, Value)>, name: Seq<char>, n: nat)
    requires
        n <= entries.len(),
    ensures
        position(entries, name, n) <= n,
        position(entries, name, n) < n ==> entries[position(entries, name, n) as int].0@ == name,
        forall|k: int| 0 <= k < position(entries, name, n) ==> entries[k].0@ != name,
    decreases n,
{
    if n > 0 {
        lemma_position_bounds(entries, name, (n - 1) as nat);
    }
}

/// Once a name is found below `n` it is found at the same place below any
/// larger bound.
pub proof fn lemma_position_found(entries: Seq<(String, Value)>, name: Seq<char>, i: nat, n: nat)
    requires
        i < n <= entries.len(),
        position(entries, name, i) == i,
        entries[i as int].0@ == name,
    ensures
        position(entries, name, n) == i,
    decreases n,
{
    if n > i + 1 {
        lemma_position_found(entries, name, i, (n - 1) as nat);
    }
}

/// Inserting keeps the names distinct.
pub proof fn lemma_inserted_distinct(entries: Seq<(String, Value)>, name: String, value: Value)
    requires
        distinct_names(entries),
    ensures
        distinct_names(inserted(entries, name, value)),
{
    lemma_position_bounds(entries, name@, entries.len());
}

/// Entries whose names are distinct are collected as they stand.
pub proof fn lemma_collected_distinct(entries: Seq<(String, Value)>, n: nat)
    requires
        distinct_names(entries),
        n <= entries.len(),
    ensures
        collected(entries, n) == entries.subrange(0, n as int),
    decreases n,
{
    if n == 0 {
        assert(collected(entries, n) =~= entries.subrange(0, n as int));
    } else {
        lemma_collected_distinct(entries, (n - 1) as nat);
        let before = entries.subrange(0, n - 1);
        lemma_position_bounds(before, entries[n - 1].0@, before.len());
        assert(before.push(entries[n - 1]) =~= entries.subrange(0, n as int));
    }
}

impl View for Fields {
    type V = Seq<(Seq<char>, Value)>;

    open spec fn view(&self) -> Seq<(Seq<char>, Value)> {
        named(self.entries())
    }
}

impl Fields {
    #[verifier::type_invariant]
    spec fn names_are_distinct(self) -> bool {
        distinct_names(self.entries@)
    }

    /// The entries in the order in which their names were first inserted.
    pub closed spec fn entries(self) -> Seq<(String, Value)> {
        self.entries@
    }

    /// The empty mapping.
    pub fn new() -> (fields: Fields)
        ensures
            fields.entries() == Seq::<(String, Value)>::empty(),
    {
        Fields { entries: Vec::new() }
    }

    /// The number of entries.
    pub fn len(&self) -> (n: usize)
        ensures
            n == self.entries().len(),
            distinct_names(self.entries()),
    {
        proof {
            use_type_invariant(self);
        }
        self.entries.len()
    }

    /// The mapping with `name` given the value `value`, and the value the
    /// name had before.
    fn with_entry(self, name: String, value: Value) -> (r: (Fields, Option<Value>))
        ensures
            r.0.entries() == inserted(self.entries(), name, value),
            distinct_names(r.0.entries()),
            r.1 == value_of(self.entries(), name@),
    {
        proof {
            use_type_invariant(&self);
        }
        let ghost before = self.entries();
        let mut entries = self.entries;
        let mut i: usize = 0;
        while i < entries.len()
            invariant
                i <= entries.len(),
                before == entries@,
                before == self.entries(),
                distinct_names(before),
                position(before, name@, i as nat) == i,
            decreases entries.len() - i,
        {
            let found = entries[i].0 == name;
            if found {
                proof {
                    lemma_position_found(before, name@, i as nat, before.len());
                }
                let replaced = entries.remove(i);
                entries.insert(i, (name, value));
                proof {
                    assert(entries@ =~= before.update(i as int, (name, value)));
                    lemma_inserted_distinct(before, name, value);
                }
                return (Fields { entries }, Some(replaced.1));
            }
            i = i + 1;
        }
        entries.push((name, value));
        proof {
            lemma_inserted_distinct(before, name, value);
        }
        (Fields { entries }, None)
    }

    /// Gives `name` the value `value`. Where the name was present its entry
    /// keeps its place and the value it had is returned.
    pub fn insert(&mut self, name: String, value: Value) -> (previous: Option<Value>)
        ensures
            final(self).entries() == inserted(old(self).entries(), name, value),
            distinct_names(final(self).entries()),
            previous == value_of(old(self).entries(), name@),
    {
        let mut current = Fields::new();
        core::mem::swap(self, &mut current);
        let (updated, previous) = current.with_entry(name, value);
        *self = updated;
        previous
    }

    /// Builds a mapping by inserting the entries in turn, so that of two
    /// entries with one name the later value stands.
    pub fn from_entries(entries: Vec<(String, Value)>) -> (fields: Fields)
        ensures
            fields.entries() == collected(entries@, entries@.len()),
            distinct_names(entries@) ==> fields.entries() == entries@,
            distinct_names(fields.entries()),
    {
        let ghost all = entries@;
        let mut pending = reversed(entries);
        let mut fields = Fields::new();
        let ghost mut n: nat = 0;
        while pending.len() > 0
            invariant
                n + pending.len() == all.len(),
                pending@ == all.reverse().subrange(0, pending@.len() as int),
                fields.entries() == collected(all, n),
                distinct_names(fields.entries()),
            decreases pending.len(),
        {
            let entry = pending.pop().unwrap();
            assert(entry == all[n as int]);
            fields.insert(entry.0, entry.1);
            proof {
                n = n + 1;
            }
        }
        proof {
            if distinct_names(all) {
                lemma_collected_distinct(all, all.len());
                assert(all.subrange(0, all.len() as int) =~= all);
            }
        }
        fields
    }

    /// Gives up the mapping for its entries.
    pub fn into_entries(self) -> (entries: Vec<(String, Value)>)
        ensures
            entries@ == self.entries(),
            distinct_names(entries@),
    {
        proof {
            use_type_invariant(&self);
        }
        self.entries
    }
}

impl Double {
    /// Whether the bit pattern is that of a finite number: its exponent
    /// field is not all ones.
    pub open spec fn is_finite(bits: u64) -> bool {
        (bits & 0x7ff0_0000_0000_0000u64) != 0x7ff0_0000_0000_0000u64
    }

    /// The text of the double with the bit pattern `bits` whose plain
    /// decimal form is `decimal`: that form, followed by `.0` where the
    /// number is finite and the form has no point, so that a finite double
    /// always shows a fractional part.
    pub open spec fn text_of(bits: u64, decimal: Seq<char>) -> Seq<char> {
        if Self::is_finite(bits) && !decimal.contains('.') {
            decimal + ".0"@
        } else {
            decimal
        }
    }

    /// The double with the bit pattern `bits`, whose plain decimal form,
    /// without an exponent, is `decimal`.
    pub fn new(bits: u64, decimal: String) -> (double: Double)
        ensures
            double.bits == bits,
            double.text@ == Self::text_of(bits, decimal@),
    {
        let finite = (bits & 0x7ff0_0000_0000_0000u64) != 0x7ff0_0000_0000_0000u64;
        let mut whole = finite;
        if finite {
            let length = decimal.as_str().unicode_len();
            let mut i: usize = 0;
            while i < length
                invariant
                    i <= length,
                    length == decimal@.len(),
                    whole <==> forall|k: int| 0 <= k < i ==> decimal@[k] != '.',
                decreases length - i,
            {
                if decimal.as_str().get_char(i) == '.' {
                    whole = false;
                }
                i = i + 1;
            }
            assert(whole <==> !decimal@.contains('.'));
        }
        if whole {
            let mut text = decimal;
            text.append(".0");
            Double { bits, text }
        } else {
            Double { bits, text: decimal }
        }
    }

    /// Whether the magnitude is strictly below the largest finite single
    /// precision magnitude. Infinities and NaNs are not.
    pub open spec fn fits_single(self) -> bool {
        (self.bits & 0x7fff_ffff_ffff_ffffu64) < 0x47ef_ffff_e000_0000u64
    }

    /// Tests `fits_single`.
    pub fn is_single(&self) -> (fits: bool)
        ensures
            fits == self.fits_single(),
    {
        (self.bits & 0x7fff_ffff_ffff_ffffu64) < 0x47ef_ffff_e000_0000u64
    }
}

impl Timestamp {
    /// The text of the timestamp, field by field.
    pub open spec fn text(self) -> Seq<char> {
        "Timestamp { seconds: "@ + integer_text(self.seconds as int) + ", nanos: "@ + integer_text(
            self.nanos as int,
        ) + " }"@
    }

    /// Writes the timestamp.
    pub fn to_string(&self) -> (s: String)
        ensures
            s@ == self.text(),
    {
        let mut s = String::from_str("Timestamp { seconds: ");
        s.append(integer_to_string(self.seconds).as_str());
        s.append(", nanos: ");
        s.append(integer_to_string(self.nanos as i64).as_str());
        s.append(" }");
        s
    }
}

impl LatLng {
    /// The text of the point: the texts of its two doubles, field by
    /// field.
    pub open spec fn text(self) -> Seq<char> {
        "LatLng { latitude: "@ + self.latitude.text@ + ", longitude: "@ + self.longitude.text@
            + " }"@
    }

    /// Writes the point.
    pub fn to_string(&self) -> (s: String)
        ensures
            s@ == self.text(),
    {
        let mut s = String::from_str("LatLng { latitude: ");
        s.append(self.latitude.text.as_str());
        s.append(", longitude: ");
        s.append(self.longitude.text.as_str());
        s.append(" }");
        s
    }
}

/// The texts of the first `n` values, separated by `", "`.
pub open spec fn values_text(values: Seq<Value>, n: nat) -> Seq<char>
    decreases values, n,
{
    if n == 0 || n > values.len() {
        Seq::empty()
    } else if n == 1 {
        values[0].text()
    } else {
        values_text(values, (n - 1) as nat) + ", "@ + values[n - 1].text()
    }
}

/// The texts of the first `n` entries, separated by `", "`.
pub open spec fn entries_text(entries: Seq<(String, Value)>, n: nat) -> Seq<char>
    decreases entries, n,
{
    if n == 0 || n > entries.len() {
        Seq::empty()
    } else if n == 1 {
        str_debug(entries[0].0@) + ": "@ + entries[0].1.text()
    } else {
        entries_text(entries, (n - 1) as nat) + ", "@ + (str_debug(entries[n - 1].0@) + ": "@
            + entries[n - 1].1.text())
    }
}

impl Value {
    /// The text that stands for the value in messages: the name of its
    /// variant, then its content. A null is written with the number of its
    /// one value on the wire, `0`. The forms of the containers are this
    /// library's own: an array is its values in square brackets, a mapping
    /// its entries in braces, each name quoted and followed by a colon, and
    /// the values inside are written as they are written alone.
    pub open spec fn text(self) -> Seq<char>
        decreases self,
    {
        match self {
            Value::NullValue => "Null 0"@,
            Value::BooleanValue(b) => "Boolean "@ + bool_text(b),
            Value::IntegerValue(i) => "Integer "@ + integer_text(i as int),
            Value::DoubleValue(d) => "Double "@ + d.text@,
            Value::TimestampValue(t) => "Timestamp "@ + t.text(),
            Value::StringValue(s) => "String "@ + str_debug(s@),
            Value::BytesValue(b) => "Bytes "@ + bytes_text(b@),
            Value::ReferenceValue(s) => "Reference "@ + str_debug(s@),
            Value::GeoPointValue(g) => "GeoPoint "@ + g.text(),
            Value::ArrayValue(values) => "Array ["@ + values_text(values@, values@.len()) + "]"@,
            Value::MapValue(fields) => "Map {"@ + entries_text(
                fields.entries(),
                fields.entries().len(),
            ) + "}"@,
            Value::KeyValue(key) => "Key "@ + key.text(),
        }
    }

    /// Whether the value is anything but null.
    pub open spec fn spec_is_some_value(self) -> bool {
        !(self is NullValue)
    }

    /// The integer a value yields: its own, or the seconds of a timestamp.
    pub open spec fn spec_integer_value(self) -> Option<i64> {
        match self {
            Value::IntegerValue(i) => Some(i),
            Value::TimestampValue(t) => Some(t.seconds),
            _ => None,
        }
    }

    /// Whether the value can be read as a mapping of fields: a mapping, a
    /// point, a timestamp or a key.
    pub open spec fn spec_has_map_value(self) -> bool {
        self is MapValue || self is GeoPointValue || self is TimestampValue || self is KeyValue
    }

    /// Whether `fields` is the mapping that the value is read as.
    pub open spec fn is_map_value(self, fields: Fields) -> bool {
        match self {
            Value::MapValue(own) => fields == own,
            Value::GeoPointValue(g) => fields@ == seq![
                ("latitude"@, Value::DoubleValue(g.latitude)),
                ("longitude"@, Value::DoubleValue(g.longitude)),
            ],
            Value::TimestampValue(t) => fields@ == seq![
                ("seconds"@, Value::IntegerValue(t.seconds)),
                ("nanos"@, Value::IntegerValue(t.nanos as i64)),
            ],
            Value::KeyValue(key) => key.is_map_value(fields@),
            _ => false,
        }
    }

    /// Whether `entries` are the entries of the mapping that a mapping, a
    /// point, a timestamp or a key is read as.
    pub open spec fn is_map_entries(self, entries: Seq<(String, Value)>) -> bool {
        match self {
            Value::MapValue(own) => entries == own.entries(),
            Value::GeoPointValue(g) => named(entries) == seq![
                ("latitude"@, Value::DoubleValue(g.latitude)),
                ("longitude"@, Value::DoubleValue(g.longitude)),
            ],
            Value::TimestampValue(t) => named(entries) == seq![
                ("seconds"@, Value::IntegerValue(t.seconds)),
                ("nanos"@, Value::IntegerValue(t.nanos as i64)),
            ],
            Value::KeyValue(key) => key.is_map_value(named(entries)),
            _ => false,
        }
    }

    /// The mapping value that holds `input`.
    pub fn from_fields(input: Fields) -> (value: Value)
        ensures
            value == Value::MapValue(input),
    {
        Value::MapValue(input)
    }

    /// The integer value `value`.
    pub fn integer(value: i64) -> (r: Value)
        ensures
            r == Value::IntegerValue(value),
    {
        Value::IntegerValue(value)
    }

    /// The double value `value`.
    pub fn double(value: Double) -> (r: Value)
        ensures
            r == Value::DoubleValue(value),
    {
        Value::DoubleValue(value)
    }

    /// Whether the value is anything but null.
    pub fn is_some_value(&self) -> (some: bool)
        ensures
            some == self.spec_is_some_value(),
    {
        match self {
            Value::NullValue => false,
            _ => true,
        }
    }

    /// The integer of an integer value, the seconds of a timestamp.
    pub fn integer_value(&self) -> (i: Option<i64>)
        ensures
            i == self.spec_integer_value(),
    {
        match self {
            Value::IntegerValue(i) => Some(*i),
            Value::TimestampValue(t) => Some(t.seconds),
            _ => None,
        }
    }

    /// The buffer of a bytes value.
    pub fn byte_value(self) -> (bytes: Option<Vec<u8>>)
        ensures
            match self {
                Value::BytesValue(own) => bytes == Some(own),
                _ => bytes is None,
            },
    {
        match self {
            Value::BytesValue(value) => Some(value),
            _ => None,
        }
    }

    /// The elements of an array value.
    pub fn array_value(self) -> (values: Option<Vec<Value>>)
        ensures
            match self {
                Value::ArrayValue(own) => values == Some(own),
                _ => values is None,
            },
    {
        match self {
            Value::ArrayValue(value) => Some(value),
            _ => None,
        }
    }

    /// Whether the value is a mapping, a point, a timestamp or a key: what
    /// `map_value` reads as a mapping.
    pub fn has_map_value(&self) -> (has: bool)
        ensures
            has == self.spec_has_map_value(),
    {
        match self {
            Value::MapValue(_) | Value::GeoPointValue(_) | Value::TimestampValue(_) => true,
            Value::KeyValue(_) => true,
            _ => false,
        }
    }

    /// The value as a mapping of fields: a mapping as it is, a point as its
    /// latitude and longitude, a timestamp as its seconds and nanos, a key
    /// as its partition and path.
    pub fn map_value(self) -> (fields: Option<Fields>)
        ensures
            fields is Some <==> self.spec_has_map_value(),
            fields matches Some(f) ==> self.is_map_value(f) && self.is_map_entries(f.entries()),
    {
        match self {
            Value::MapValue(value) => Some(value),
            Value::GeoPointValue(value) => {
                let ghost first = Value::DoubleValue(value.latitude);
                let ghost second = Value::DoubleValue(value.longitude);
                let mut fields = Fields::new();
                fields.insert(String::from_str("latitude"), Value::DoubleValue(value.latitude));
                fields.insert(String::from_str("longitude"), Value::DoubleValue(value.longitude));
                proof {
                    reveal_strlit("latitude");
                    reveal_strlit("longitude");
                    assert("latitude"@.len() != "longitude"@.len());
                    assert(fields@ =~= seq![("latitude"@, first), ("longitude"@, second)]);
                }
                Some(fields)
            },
            Value::TimestampValue(value) => {
                let mut fields = Fields::new();
                fields.insert(String::from_str("seconds"), Value::IntegerValue(value.seconds));
                fields.insert(String::from_str("nanos"), Value::IntegerValue(value.nanos as i64));
                proof {
                    reveal_strlit("seconds");
                    reveal_strlit("nanos");
                    assert("seconds"@.len() != "nanos"@.len());
                    assert(fields@ =~= seq![
                        ("seconds"@, Value::IntegerValue(value.seconds)),
                        ("nanos"@, Value::IntegerValue(value.nanos as i64)),
                    ]);
                }
                Some(fields)
            },
            Value::KeyValue(value) => Some(value.map_value()),
            _ => None,
        }
    }

    /// Writes the value as it stands in messages.
    pub fn to_string(&self) -> (s: String)
        ensures
            s@ == self.text(),
        decreases self,
    {
        match self {
            Value::NullValue => String::from_str("Null 0"),
            Value::BooleanValue(b) => {
                let mut s = String::from_str("Boolean ");
                s.append(bool_to_string(*b).as_str());
                s
            },
            Value::IntegerValue(i) => {
                let mut s = String::from_str("Integer ");
                s.append(integer_to_string(*i).as_str());
                s
            },
            Value::DoubleValue(d) => {
                let mut s = String::from_str("Double ");
                s.append(d.text.as_str());
                s
            },
            Value::TimestampValue(t) => {
                let mut s = String::from_str("Timestamp ");
                s.append(t.to_string().as_str());
                s
            },
            Value::StringValue(v) => {
                let mut s = String::from_str("String ");
                s.append(format_str_debug(v.as_str()).as_str());
                s
            },
            Value::BytesValue(b) => {
                let mut s = String::from_str("Bytes ");
                s.append(bytes_to_string(b).as_str());
                s
            },
            Value::ReferenceValue(v) => {
                let mut s = String::from_str("Reference ");
                s.append(format_str_debug(v.as_str()).as_str());
                s
            },
            Value::GeoPointValue(g) => {
                let mut s = String::from_str("GeoPoint ");
                s.append(g.to_string().as_str());
                s
            },
            Value::ArrayValue(values) => {
                let mut s = String::from_str("Array [");
                s.append(values_to_string(values).as_str());
                s.append("]");
                s
            },
            Value::MapValue(fields) => {
                let mut s = String::from_str("Map {");
                s.append(entries_to_string(&fields.entries).as_str());
                s.append("}");
                s
            },
            Value::KeyValue(key) => {
                let mut s = String::from_str("Key ");
                s.append(key.to_string().as_str());
                s
            },
        }
    }
}

/// Writes the values, separated by `", "`.
fn values_to_string(values: &Vec<Value>) -> (s: String)
    ensures
        s@ == values_text(values@, values@.len()),
    decreases values,
{
    let mut s = String::new();
    let mut i: usize = 0;
    assert(s@ =~= values_text(values@, 0));
    while i < values.len()
        invariant
            i <= values.len(),
            s@ == values_text(values@, i as nat),
        decreases values.len() - i,
    {
        if i > 0 {
            s.append(", ");
        }
        let text = values[i].to_string();
        s.append(text.as_str());
        i = i + 1;
        proof {
            if i == 1 {
                assert(Seq::<char>::empty() + values@[0].text() =~= values@[0].text());
            }
        }
    }
    s
}

/// Writes the entries, separated by `", "`.
fn entries_to_string(entries: &Vec<(String, Value)>) -> (s: String)
    ensures
        s@ == entries_text(entries@, entries@.len()),
    decreases entries,
{
    let mut s = String::new();
    let mut i: usize = 0;
    assert(s@ =~= entries_text(entries@, 0));
    while i < entries.len()
        invariant
            i <= entries.len(),
            s@ == entries_text(entries@, i as nat),
        decreases entries.len() - i,
    {
        if i > 0 {
            s.append(", ");
        }
        let mut item = format_str_debug(entries[i].0.as_str());
        item.append(": ");
        let text = entries[i].1.to_string();
        item.append(text.as_str());
        s.append(item.as_str());
        i = i + 1;
        proof {
            if i == 1 {
                assert(Seq::<char>::empty() + item@ =~= item@);
            }
        }
    }
    s
}

} // verus!
