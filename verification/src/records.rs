//! Records of named fields, and the scanner that reads them from the text
//! of a file in any of the key and value formats.
//!
//! A partial record holds what one file says of one entry: the fields that
//! were asked for and found, in the order in which they were asked for.

use vstd::prelude::*;
use crate::parsers::{
    lemma_value_cfg_shrinks, lemma_value_json_shrinks, lemma_value_json_unquoted_shrinks,
    lemma_value_yml_shrinks, scan_value_cfg, scan_value_json, scan_value_json_unquoted,
    scan_value_yml, step, value_cfg, value_json, value_json_unquoted, value_yml, Scan,
};
use crate::scanner::RecordScanner;
use crate::text::{
    is_proper_suffix, is_suffix, lemma_suffix_of_suffix, lemma_views_push, same_str, to_chars,
    to_text, views,
};

verus! {

/// A field as text: its key and its value.
pub type Field = (Seq<char>, Seq<char>);

/// The smallest unit that a scanner produces: a key and the value found for
/// it, as it stands in the file.
#[derive(Debug)]
pub struct RawField {
    pub key: String,
    pub raw_value: String,
}

impl View for RawField {
    type V = Field;

    open spec fn view(&self) -> Field {
        (self.key@, self.raw_value@)
    }
}

/// The fields of one entry of one file, in order.
#[derive(Debug)]
pub struct PartialRecord {
    pub fields: Vec<RawField>,
}

/// The fields of two or more partial records that share a join key.
pub type ReconciledRecord = PartialRecord;

impl View for PartialRecord {
    type V = Seq<Field>;

    open spec fn view(&self) -> Seq<Field> {
        views(self.fields@)
    }
}

/// The value of the first field of `fields` that has the key `key`.
pub open spec fn value_of(fields: Seq<Field>, key: Seq<char>) -> Option<Seq<char>>
    decreases fields.len(),
{
    if fields.len() == 0 {
        None
    } else {
        match value_of(fields.drop_last(), key) {
            Some(value) => Some(value),
            None => if fields.last().0 == key {
                Some(fields.last().1)
            } else {
                None
            },
        }
    }
}

/// A value that the first fields of a record give for a key is the value
/// that the record gives for it.
pub proof fn lemma_value_of_prefix(fields: Seq<Field>, key: Seq<char>, n: int)
    requires
        0 <= n <= fields.len(),
        value_of(fields.take(n), key) is Some,
    ensures
        value_of(fields, key) == value_of(fields.take(n), key),
    decreases fields.len() - n,
{
    if n < fields.len() {
        assert(fields.take(n + 1).drop_last() =~= fields.take(n));
        lemma_value_of_prefix(fields, key, n + 1);
    } else {
        assert(fields.take(n) =~= fields);
    }
}

/// What two runs of fields in a row give for a key: what the first run
/// gives, and where it gives nothing, what the second gives.
pub proof fn lemma_value_of_add(first: Seq<Field>, second: Seq<Field>, key: Seq<char>)
    ensures
        value_of(first + second, key) == match value_of(first, key) {
            Some(value) => Some(value),
            None => value_of(second, key),
        },
    decreases second.len(),
{
    if second.len() == 0 {
        assert(first + second =~= first);
    } else {
        assert((first + second).drop_last() =~= first + second.drop_last());
        lemma_value_of_add(first, second.drop_last(), key);
    }
}

impl PartialRecord {
    /// The value of the first field with the key `key`.
    pub fn get(&self, key: &str) -> (r: Option<&String>)
        ensures
            match r {
                Some(value) => value_of(self@, key@) == Some(value@),
                None => value_of(self@, key@) is None,
            },
    {
        let mut i: usize = 0;
        proof {
            assert(self@.take(0) =~= Seq::empty());
        }
        while i < self.fields.len()
            invariant
                i <= self.fields.len(),
                value_of(self@.take(i as int), key@) is None,
            decreases self.fields.len() - i,
        {
            proof {
                assert(self@.take(i + 1).drop_last() =~= self@.take(i as int));
                assert(self@.take(i + 1).last() == self.fields[i as int]@);
            }
            if same_str(self.fields[i].key.as_str(), key) {
                proof {
                    lemma_value_of_prefix(self@, key@, i + 1);
                }
                return Some(&self.fields[i].raw_value);
            }
            i += 1;
        }
        proof {
            assert(self@.take(self.fields@.len() as int) =~= self@);
        }
        None
    }

    /// Whether the record gives the value `value` for the key `key`.
    pub fn has(&self, key: &str, value: &str) -> (r: bool)
        ensures
            r == (value_of(self@, key@) == Some(value@)),
    {
        match self.get(key) {
            Some(found) => same_str(found.as_str(), value),
            None => false,
        }
    }

    /// A copy of the record.
    pub fn duplicate(&self) -> (r: Self)
        ensures
            r@ == self@,
    {
        let mut fields: Vec<RawField> = Vec::new();
        let mut i: usize = 0;
        proof {
            assert(views(fields@) =~= self@.take(0));
        }
        while i < self.fields.len()
            invariant
                i <= self.fields.len(),
                views(fields@) == self@.take(i as int),
            decreases self.fields.len() - i,
        {
            let field = RawField {
                key: self.fields[i].key.clone(),
                raw_value: self.fields[i].raw_value.clone(),
            };
            proof {
                lemma_views_push(fields@, field);
                assert(self@.take(i + 1) =~= self@.take(i as int).push(field@));
            }
            fields.push(field);
            i += 1;
        }
        proof {
            assert(self@.take(self.fields@.len() as int) =~= self@);
        }
        PartialRecord { fields }
    }
}

/// The records of `records` that do not give the value `value` for the key
/// `key`, in their order.
pub open spec fn retained(records: Seq<Seq<Field>>, key: Seq<char>, value: Seq<char>) -> Seq<
    Seq<Field>,
> {
    records.filter(|record: Seq<Field>| value_of(record, key) != Some(value))
}

/// Drops the records that give the value `value` for the key `key`: a
/// caller's filter, to be applied before or after a join.
pub fn retain_unless(records: &Vec<PartialRecord>, key: &str, value: &str) -> (r: Vec<
    PartialRecord,
>)
    ensures
        views(r@) == retained(views(records@), key@, value@),
{
    let ghost keep = |record: Seq<Field>| value_of(record, key@) != Some(value@);
    let mut kept: Vec<PartialRecord> = Vec::new();
    let mut i: usize = 0;
    proof {
        reveal(Seq::filter);
        assert(views(records@).take(0) =~= Seq::empty());
        assert(views(kept@) =~= Seq::empty());
    }
    while i < records.len()
        invariant
            i <= records.len(),
            keep == |record: Seq<Field>| value_of(record, key@) != Some(value@),
            views(kept@) == views(records@).take(i as int).filter(keep),
        decreases records.len() - i,
    {
        proof {
            let upto = views(records@).take(i + 1);
            assert(upto.drop_last() =~= views(records@).take(i as int));
            assert(upto.last() == records[i as int]@);
            reveal(Seq::filter);
        }
        if !records[i].has(key, value) {
            let record = records[i].duplicate();
            proof {
                lemma_views_push(kept@, record);
            }
            kept.push(record);
        }
        i += 1;
    }
    proof {
        assert(views(records@).take(records@.len() as int) =~= views(records@));
    }
    kept
}

/// The formats in which a file writes a key and its value.
#[derive(Clone, Copy, PartialEq, Eq, Structural, Debug)]
pub enum Format {
    /// `"key": "value"`: both between double quotes; the value may hold
    /// line feeds.
    Json,
    /// `"key": value`: the key between double quotes, the value a run of
    /// ASCII letters and digits.
    JsonUnquoted,
    /// `key: value`: the value runs to the end of the line, after the
    /// spaces and tabs that follow the colon.
    Yaml,
    /// `key=value`: the value runs to the end of the line.
    Cfg,
}

/// The value of `key` in `content`, read in the format `format`.
pub open spec fn value_in(format: Format, content: Seq<char>, key: Seq<char>) -> Scan {
    match format {
        Format::Json => value_json(content, key),
        Format::JsonUnquoted => value_json_unquoted(content, key),
        Format::Yaml => value_yml(content, key),
        Format::Cfg => value_cfg(content, key),
    }
}

/// A value is found after at least one character, in every format.
pub proof fn lemma_value_in_shrinks(format: Format, content: Seq<char>, key: Seq<char>)
    ensures
        value_in(format, content, key) matches Some((rest, _)) ==> is_proper_suffix(rest, content),
{
    lemma_value_json_shrinks(content, key);
    lemma_value_json_unquoted_shrinks(content, key);
    lemma_value_yml_shrinks(content, key);
    lemma_value_cfg_shrinks(content, key);
}

/// Reads the value of `key` in the format `format`.
pub fn scan_value<'a>(format: Format, content: &'a [char], key: &[char]) -> (r: Option<
    (usize, &'a [char]),
>)
    ensures
        match r {
            Some((consumed, value)) => consumed <= content@.len() && value_in(
                format,
                content@,
                key@,
            ) == Some((content@.skip(consumed as int), value@)),
            None => value_in(format, content@, key@) is None,
        },
{
    match format {
        Format::Json => scan_value_json(content, key),
        Format::JsonUnquoted => scan_value_json_unquoted(content, key),
        Format::Yaml => scan_value_yml(content, key),
        Format::Cfg => scan_value_cfg(content, key),
    }
}

/// A field to look for: its key, the format in which the file writes it,
/// and whether a record without it is still a record.
#[derive(Debug)]
pub struct FieldSpec {
    pub key: String,
    pub format: Format,
    pub required: bool,
}

/// A field to look for, as text.
pub struct FieldSpecView {
    pub key: Seq<char>,
    pub format: Format,
    pub required: bool,
}

impl View for FieldSpec {
    type V = FieldSpecView;

    open spec fn view(&self) -> FieldSpecView {
        FieldSpecView { key: self.key@, format: self.format, required: self.required }
    }
}

/// Reads records that are made of the given fields, each looked for after
/// the one before that was found.
#[derive(Debug)]
pub struct FieldScanner {
    pub fields: Vec<FieldSpec>,
}

/// The fields of one record, from `text` on: each field of `specs`, in
/// order, is looked for in what the field before left. A field that is not
/// found is passed over where it is optional; where it is required there is
/// no record.
pub open spec fn extract_fields(specs: Seq<FieldSpecView>, text: Seq<char>, found: Seq<Field>) -> Option<
    (Seq<char>, Seq<Field>),
>
    decreases specs.len(),
{
    if specs.len() == 0 {
        Some((text, found))
    } else {
        match value_in(specs[0].format, text, specs[0].key) {
            Some((rest, value)) => extract_fields(
                specs.skip(1),
                rest,
                found.push((specs[0].key, value)),
            ),
            None => if specs[0].required {
                None
            } else {
                extract_fields(specs.skip(1), text, found)
            },
        }
    }
}

/// One record: the fields that were found, which must be one at least.
pub open spec fn extract_record(specs: Seq<FieldSpecView>, text: Seq<char>) -> Option<
    (Seq<char>, Seq<Field>),
> {
    match extract_fields(specs, text, Seq::empty()) {
        Some((rest, fields)) => if fields.len() > 0 {
            Some((rest, fields))
        } else {
            None
        },
        None => None,
    }
}

/// The fields of a record are read from an end of the text, and a field
/// that was found took at least one character.
pub proof fn lemma_extract_fields_shrinks(specs: Seq<FieldSpecView>, text: Seq<char>, found: Seq<Field>)
    ensures
        extract_fields(specs, text, found) matches Some((rest, fields)) ==> is_suffix(rest, text)
            && fields.len() >= found.len() && (fields.len() > found.len() ==> is_proper_suffix(
            rest,
            text,
        )),
    decreases specs.len(),
{
    if specs.len() == 0 {
        assert(text =~= text.skip(0));
    } else {
        lemma_value_in_shrinks(specs[0].format, text, specs[0].key);
        match value_in(specs[0].format, text, specs[0].key) {
            Some((rest, value)) => {
                let more = found.push((specs[0].key, value));
                lemma_extract_fields_shrinks(specs.skip(1), rest, more);
                if extract_fields(specs.skip(1), rest, more) is Some {
                    let end = extract_fields(specs.skip(1), rest, more)->0;
                    lemma_suffix_of_suffix(end.0, rest, text);
                }
            },
            None => {
                lemma_extract_fields_shrinks(specs.skip(1), text, found);
            },
        }
    }
}

impl FieldScanner {
    /// A scanner for the given keys, all in the format `format` and all
    /// required.
    pub fn of_keys(format: Format, keys: &[&str]) -> (r: Self)
        ensures
            r.fields.len() == keys.len(),
            forall|i: int|
                0 <= i < keys.len() ==> (#[trigger] r.fields[i])@ == (FieldSpecView {
                    key: keys[i]@,
                    format,
                    required: true,
                }),
    {
        let mut fields: Vec<FieldSpec> = Vec::new();
        let mut i: usize = 0;
        while i < keys.len()
            invariant
                i <= keys.len(),
                fields.len() == i,
                forall|k: int|
                    0 <= k < i ==> (#[trigger] fields[k])@ == (FieldSpecView {
                        key: keys[k]@,
                        format,
                        required: true,
                    }),
            decreases keys.len() - i,
        {
            fields.push(FieldSpec { key: keys[i].to_owned(), format, required: true });
            i += 1;
        }
        FieldScanner { fields }
    }
}

impl RecordScanner for FieldScanner {
    type Record = PartialRecord;

    open spec fn extract(&self, text: Seq<char>) -> Option<(Seq<char>, Seq<Field>)> {
        extract_record(views(self.fields@), text)
    }

    proof fn extract_shrinks(&self, text: Seq<char>) {
        lemma_extract_fields_shrinks(views(self.fields@), text, Seq::empty());
    }

    fn extract_next(&self, text: &[char]) -> (r: Option<(usize, PartialRecord)>) {
        let ghost specs = views(self.fields@);
        let mut found: Vec<RawField> = Vec::new();
        let mut pos: usize = 0;
        let mut i: usize = 0;
        proof {
            assert(specs.skip(0) =~= specs);
            assert(text@.skip(0) =~= text@);
            assert(views(found@) =~= Seq::empty());
        }
        while i < self.fields.len()
            invariant
                i <= self.fields.len(),
                pos <= text@.len(),
                specs == views(self.fields@),
                extract_fields(specs, text@, Seq::empty()) == extract_fields(
                    specs.skip(i as int),
                    text@.skip(pos as int),
                    views(found@),
                ),
            decreases self.fields.len() - i,
        {
            proof {
                assert(specs.skip(i as int)[0] == self.fields[i as int]@);
                assert(specs.skip(i as int).skip(1) =~= specs.skip(i + 1));
            }
            let spec = &self.fields[i];
            let key = to_chars(spec.key.as_str());
            let (_, rest) = step(text, pos, 0);
            match scan_value(spec.format, rest, key.as_slice()) {
                Some((consumed, value)) => {
                    let field = RawField { key: spec.key.clone(), raw_value: to_text(value) };
                    proof {
                        lemma_views_push(found@, field);
                    }
                    found.push(field);
                    let (end, _) = step(text, pos, consumed);
                    pos = end;
                },
                None => {
                    if spec.required {
                        return None;
                    }
                },
            }
            i += 1;
        }
        proof {
            assert(specs.skip(specs.len() as int) =~= Seq::empty());
        }
        if found.len() > 0 {
            Some((pos, PartialRecord { fields: found }))
        } else {
            None
        }
    }
}

} // verus!
