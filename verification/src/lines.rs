//! Files that hold one field on each line: what was written is what is read.
//!
//! A file that holds, for each record, one line for each of its fields, is
//! read back as exactly those records, each once and in the order of the
//! file. This holds in each of the formats of keys and values.

use vstd::prelude::*;
use crate::parsers::{
    after_key, cfg_key, json_key, not_alphanumeric, quoted_value, take_till, take_while,
    take_while1, till_end_of_line, yml_key,
};
use crate::records::{
    extract_fields, extract_record, value_in, Field, FieldScanner, FieldSpecView, Format,
};
use crate::scanner::scan_all;
use crate::text::{
    is_run_end, lemma_first_occurrence_is, lemma_first_occurrence_none,
    lemma_run_end_is, occurs_at, views, CharClass,
};

verus! {

/// A key as the format writes it in front of its value.
pub open spec fn marker_of(format: Format, key: Seq<char>) -> Seq<char> {
    match format {
        Format::Json => json_key(key),
        Format::JsonUnquoted => json_key(key),
        Format::Yaml => yml_key(key),
        Format::Cfg => cfg_key(key),
    }
}

/// What stands between the key and the end of the line.
pub open spec fn written_value(format: Format, value: Seq<char>) -> Seq<char> {
    match format {
        Format::Json => seq![':', ' ', '"'] + value + seq!['"'],
        Format::JsonUnquoted => seq![':', ' '] + value,
        Format::Yaml => seq![' '] + value,
        Format::Cfg => value,
    }
}

/// The line of a field: its key and its value as the format writes them,
/// and a line feed.
pub open spec fn line_of(format: Format, field: Field) -> Seq<char> {
    marker_of(format, field.0) + written_value(format, field.1) + seq!['\n']
}

/// The lines of the fields of a record, one after the other.
pub open spec fn lines_of(format: Format, fields: Seq<Field>) -> Seq<char>
    decreases fields.len(),
{
    if fields.len() == 0 {
        Seq::empty()
    } else {
        line_of(format, fields[0]) + lines_of(format, fields.skip(1))
    }
}

/// The lines of the records of a file, one record after the other.
pub open spec fn all_lines(format: Format, records: Seq<Seq<Field>>) -> Seq<char>
    decreases records.len(),
{
    if records.len() == 0 {
        Seq::empty()
    } else {
        lines_of(format, records[0]) + all_lines(format, records.skip(1))
    }
}

/// What may stand before the first line: nothing, or the line feed that
/// ends the line before.
pub open spec fn is_lead(lead: Seq<char>) -> bool {
    lead.len() == 0 || lead == seq!['\n']
}

/// A key that does not start with a line feed.
pub open spec fn is_plain_key(key: Seq<char>) -> bool {
    key.len() > 0 ==> key[0] != '\n'
}

/// A value that the format can hold on a line and read back: without line
/// feed where the value ends with the line; not starting with a space or a
/// tab where those are skipped after the key; not empty and without double
/// quote where it stands between quotes; not empty and made of ASCII letters
/// and digits where it stands bare after a quoted key.
pub open spec fn is_plain_value(format: Format, value: Seq<char>) -> bool {
    match format {
        Format::Json => value.len() > 0 && forall|i: int|
            0 <= i < value.len() ==> #[trigger] value[i] != '"',
        Format::JsonUnquoted => value.len() > 0 && forall|i: int|
            0 <= i < value.len() ==> CharClass::Alphanumeric.contains(#[trigger] value[i]),
        Format::Yaml => (value.len() > 0 ==> !CharClass::Space.contains(value[0]))
            && forall|i: int| 0 <= i < value.len() ==> #[trigger] value[i] != '\n',
        Format::Cfg => forall|i: int| 0 <= i < value.len() ==> #[trigger] value[i] != '\n',
    }
}

/// Every field is looked for in the format `format`, under a key that does
/// not start with a line feed.
pub open spec fn are_line_specs(format: Format, specs: Seq<FieldSpecView>) -> bool {
    forall|i: int|
        0 <= i < specs.len() ==> (#[trigger] specs[i]).format == format && is_plain_key(
            specs[i].key,
        )
}

/// The record has the fields that are looked for, in their order, each
/// with a value that the format can hold.
pub open spec fn fits(format: Format, fields: Seq<Field>, specs: Seq<FieldSpecView>) -> bool {
    &&& fields.len() == specs.len()
    &&& forall|i: int|
        0 <= i < fields.len() ==> (#[trigger] fields[i]).0 == specs[i].key && is_plain_value(
            format,
            fields[i].1,
        )
}

/// The key of a line is found at the start of the line, and what follows it
/// is the value as it was written, the line feed and the lines after.
pub proof fn lemma_key_is_found(format: Format, lead: Seq<char>, field: Field, more: Seq<char>)
    requires
        is_lead(lead),
        is_plain_key(field.0),
    ensures
        after_key(lead + line_of(format, field) + more, marker_of(format, field.0)) == Some(
            written_value(format, field.1) + seq!['\n'] + more,
        ),
{
    let marker = marker_of(format, field.0);
    let text = lead + line_of(format, field) + more;
    let at = lead.len() as int;
    assert(text.subrange(at, at + marker.len()) =~= marker);
    assert forall|j: int| 0 <= j < at implies !occurs_at(text, marker, j) by {
        if occurs_at(text, marker, j) {
            assert(text.subrange(j, j + marker.len())[0] == marker[0]);
            assert(text[0] == '\n');
        }
    }
    lemma_first_occurrence_is(text, marker, at);
    assert(text.skip(at + marker.len()) =~= written_value(format, field.1) + seq!['\n'] + more);
}

/// A run that is known to end at `at` is cut there.
proof fn lemma_take_till_at(input: Seq<char>, class: CharClass, at: int)
    requires
        is_run_end(input, class, false, at),
    ensures
        take_till(input, class) == (input.skip(at), input.take(at)),
{
    lemma_run_end_is(input, class, false, at);
}

/// A value that ends with its line is read up to the line feed.
proof fn lemma_reads_to_end_of_line(value: Seq<char>, more: Seq<char>)
    requires
        is_plain_value(Format::Cfg, value),
    ensures
        till_end_of_line(value + seq!['\n'] + more) == (seq!['\n'] + more, value),
{
    let line = value + seq!['\n'] + more;
    assert(is_run_end(line, CharClass::Only('\n'), false, value.len() as int)) by {
        assert forall|i: int| 0 <= i < value.len() implies CharClass::Only('\n').contains(
            #[trigger] line[i],
        ) == false by {
            assert(line[i] == value[i]);
        }
        assert(line[value.len() as int] == '\n');
    }
    lemma_take_till_at(line, CharClass::Only('\n'), value.len() as int);
    assert(line.take(value.len() as int) =~= value);
    assert(line.skip(value.len() as int) =~= seq!['\n'] + more);
}

/// After a colon and a space, a value that starts with neither space nor
/// tab is read up to the line feed.
proof fn lemma_reads_after_space(value: Seq<char>, more: Seq<char>)
    requires
        is_plain_value(Format::Yaml, value),
    ensures
        till_end_of_line(take_while(seq![' '] + value + seq!['\n'] + more, CharClass::Space).0)
            == (seq!['\n'] + more, value),
{
    let after = seq![' '] + value + seq!['\n'] + more;
    assert(is_run_end(after, CharClass::Space, true, 1)) by {
        assert(after[0] == ' ');
        if value.len() > 0 {
            assert(after[1] == value[0]);
        } else {
            assert(after[1] == '\n');
        }
    }
    lemma_run_end_is(after, CharClass::Space, true, 1);
    assert(after.skip(1) =~= value + seq!['\n'] + more);
    lemma_reads_to_end_of_line(value, more);
}

/// A bare value of letters and digits is read up to the line feed.
proof fn lemma_reads_bare(value: Seq<char>, more: Seq<char>)
    requires
        is_plain_value(Format::JsonUnquoted, value),
    ensures
        take_while1(
            not_alphanumeric(seq![':', ' '] + value + seq!['\n'] + more).0,
            CharClass::Alphanumeric,
        ) == Some((seq!['\n'] + more, value)),
{
    let after = seq![':', ' '] + value + seq!['\n'] + more;
    let bare = value + seq!['\n'] + more;
    assert(is_run_end(after, CharClass::Alphanumeric, false, 2)) by {
        assert(after[0] == ':');
        assert(after[1] == ' ');
        assert(after[2] == value[0]);
    }
    lemma_take_till_at(after, CharClass::Alphanumeric, 2);
    assert(after.skip(2) =~= bare);
    assert(is_run_end(bare, CharClass::Alphanumeric, true, value.len() as int)) by {
        assert forall|i: int| 0 <= i < value.len() implies CharClass::Alphanumeric.contains(
            #[trigger] bare[i],
        ) == true by {
            assert(bare[i] == value[i]);
        }
        assert(bare[value.len() as int] == '\n');
    }
    lemma_run_end_is(bare, CharClass::Alphanumeric, true, value.len() as int);
    assert(bare.take(value.len() as int) =~= value);
    assert(bare.skip(value.len() as int) =~= seq!['\n'] + more);
}

/// A value between double quotes is read up to the closing quote.
proof fn lemma_reads_quoted(value: Seq<char>, more: Seq<char>)
    requires
        is_plain_value(Format::Json, value),
    ensures
        quoted_value(seq![':', ' ', '"'] + value + seq!['"'] + seq!['\n'] + more) == Some(
            (seq!['\n'] + more, value),
        ),
{
    let end = seq!['\n'] + more;
    let after = seq![':', ' ', '"'] + value + seq!['"'] + seq!['\n'] + more;
    let quoted = seq!['"'] + value + seq!['"'] + end;
    let body = value + seq!['"'] + end;
    assert(is_run_end(after, CharClass::Only('"'), false, 2)) by {
        assert(after[0] == ':');
        assert(after[1] == ' ');
        assert(after[2] == '"');
    }
    lemma_run_end_is(after, CharClass::Only('"'), false, 2);
    assert(after.skip(2) =~= quoted);
    assert(quoted.skip(1) =~= body);
    assert(is_run_end(body, CharClass::Only('"'), false, value.len() as int)) by {
        assert forall|i: int| 0 <= i < value.len() implies CharClass::Only('"').contains(
            #[trigger] body[i],
        ) == false by {
            assert(body[i] == value[i]);
        }
        assert(body[value.len() as int] == '"');
    }
    lemma_run_end_is(body, CharClass::Only('"'), false, value.len() as int);
    assert(body.take(value.len() as int) =~= value);
    assert(body.skip(value.len() as int + 1) =~= end);
}

/// The value of a key is read from its line, and what is left starts at
/// the end of that line.
pub proof fn lemma_value_reads_line(format: Format, lead: Seq<char>, field: Field, more: Seq<char>)
    requires
        is_lead(lead),
        is_plain_key(field.0),
        is_plain_value(format, field.1),
    ensures
        value_in(format, lead + line_of(format, field) + more, field.0) == Some(
            (seq!['\n'] + more, field.1),
        ),
{
    lemma_key_is_found(format, lead, field, more);
    match format {
        Format::Cfg => {
            lemma_reads_to_end_of_line(field.1, more);
        },
        Format::Yaml => {
            lemma_reads_after_space(field.1, more);
        },
        Format::JsonUnquoted => {
            lemma_reads_bare(field.1, more);
        },
        Format::Json => {
            lemma_reads_quoted(field.1, more);
        },
    }
}

/// The fields of a record are read from its lines, and what is left starts
/// at the end of the last of them.
pub proof fn lemma_extract_fields_reads_lines(
    format: Format,
    specs: Seq<FieldSpecView>,
    fields: Seq<Field>,
    lead: Seq<char>,
    more: Seq<char>,
    found: Seq<Field>,
)
    requires
        are_line_specs(format, specs),
        fits(format, fields, specs),
        is_lead(lead),
    ensures
        extract_fields(specs, lead + lines_of(format, fields) + more, found) == Some(
            (
                if specs.len() == 0 {
                    lead + more
                } else {
                    seq!['\n'] + more
                },
                found + fields,
            ),
        ),
    decreases specs.len(),
{
    if specs.len() == 0 {
        assert(lead + lines_of(format, fields) + more =~= lead + more);
        assert(found + fields =~= found);
    } else {
        let later = lines_of(format, fields.skip(1)) + more;
        assert(lead + lines_of(format, fields) + more =~= lead + line_of(format, fields[0])
            + later);
        lemma_value_reads_line(format, lead, fields[0], later);
        assert forall|i: int| 0 <= i < specs.skip(1).len() implies (#[trigger] specs.skip(
            1,
        )[i]).format == format && is_plain_key(specs.skip(1)[i].key) by {
            assert(specs.skip(1)[i] == specs[i + 1]);
        }
        assert forall|i: int| 0 <= i < fields.skip(1).len() implies (#[trigger] fields.skip(
            1,
        )[i]).0 == specs.skip(1)[i].key && is_plain_value(format, fields.skip(1)[i].1) by {
            assert(fields.skip(1)[i] == fields[i + 1]);
            assert(specs.skip(1)[i] == specs[i + 1]);
        }
        lemma_extract_fields_reads_lines(
            format,
            specs.skip(1),
            fields.skip(1),
            seq!['\n'],
            more,
            found.push(fields[0]),
        );
        assert(seq!['\n'] + later =~= seq!['\n'] + lines_of(format, fields.skip(1)) + more);
        assert(found.push(fields[0]) + fields.skip(1) =~= found + fields);
    }
}

/// Where no line is left, no field is found.
pub proof fn lemma_extract_fields_at_end(
    format: Format,
    specs: Seq<FieldSpecView>,
    lead: Seq<char>,
    found: Seq<Field>,
)
    requires
        are_line_specs(format, specs),
        is_lead(lead),
    ensures
        extract_fields(specs, lead, found) matches Some((_, fields)) ==> fields == found,
    decreases specs.len(),
{
    if specs.len() > 0 {
        let marker = marker_of(format, specs[0].key);
        assert forall|j: int| !occurs_at(lead, marker, j) by {
            if occurs_at(lead, marker, j) {
                assert(lead.subrange(j, j + marker.len())[marker.len() - 1] == marker[marker.len()
                    - 1]);
            }
        }
        lemma_first_occurrence_none(lead, marker);
        assert forall|i: int| 0 <= i < specs.skip(1).len() implies (#[trigger] specs.skip(
            1,
        )[i]).format == format && is_plain_key(specs.skip(1)[i].key) by {
            assert(specs.skip(1)[i] == specs[i + 1]);
        }
        lemma_extract_fields_at_end(format, specs.skip(1), lead, found);
    }
}

/// A file with one field on each line is read back as the records that
/// were written to it: every record once, in the order of the file, with
/// every value as it was written.
pub proof fn lemma_lines_are_read_back(
    format: Format,
    scanner: &FieldScanner,
    records: Seq<Seq<Field>>,
    lead: Seq<char>,
)
    requires
        views(scanner.fields@).len() > 0,
        are_line_specs(format, views(scanner.fields@)),
        forall|i: int|
            0 <= i < records.len() ==> fits(format, #[trigger] records[i], views(scanner.fields@)),
        is_lead(lead),
    ensures
        scan_all(scanner, lead + all_lines(format, records)) == records,
    decreases records.len(),
{
    let specs = views(scanner.fields@);
    if records.len() == 0 {
        assert(lead + all_lines(format, records) =~= lead);
        lemma_extract_fields_at_end(format, specs, lead, Seq::empty());
        assert(extract_record(specs, lead) is None);
        assert(scan_all(scanner, lead) =~= records);
    } else {
        let later = all_lines(format, records.skip(1));
        let text = lead + all_lines(format, records);
        assert(text =~= lead + lines_of(format, records[0]) + later);
        lemma_extract_fields_reads_lines(format, specs, records[0], lead, later, Seq::empty());
        assert(Seq::<Field>::empty() + records[0] =~= records[0]);
        assert forall|i: int| 0 <= i < records.skip(1).len() implies fits(
            format,
            #[trigger] records.skip(1)[i],
            specs,
        ) by {
            assert(records.skip(1)[i] == records[i + 1]);
        }
        lemma_lines_are_read_back(format, scanner, records.skip(1), seq!['\n']);
        assert(lines_of(format, records[0]).len() >= 1) by {
            assert(fits(format, records[0], specs));
            assert(lines_of(format, records[0]) =~= line_of(format, records[0][0]) + lines_of(
                format,
                records[0].skip(1),
            ));
        }
        assert(seq![records[0]] + records.skip(1) =~= records);
    }
}

} // verus!
