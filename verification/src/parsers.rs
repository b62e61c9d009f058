//! The scanners from which every file format of this crate is read.
//!
//! A scanner looks at the text that is left, takes a value out of it and says
//! how much it consumed, or reports that there is no match. None of them
//! reads a whole document: they find a key and capture what follows it.
//!
//! Each scanner exists three times: as a spec function over `Seq<char>` that
//! returns the text that is left and the value, as a function `scan_..` over
//! `&[char]` that returns the number of characters consumed and the value,
//! and as a function `parse_..` over `&str`.

use vstd::prelude::*;
use vstd::string::*;
use crate::text::{
    find, first_in, first_occurrence, first_outside, head, is_proper_suffix, is_suffix,
    lemma_first_occurrence_found, lemma_run_end, lemma_skip_is_suffix, lemma_suffix_of_suffix,
    occurs_at, scan_run, tail, to_chars, to_text, CharClass,
};

verus! {

/// What a scanner yields: the text that is left and the value, or no match.
pub type Scan = Option<(Seq<char>, Seq<char>)>;

/// What a `scan_..` function returned, as the spec functions state it.
pub open spec fn scanned(r: Option<(usize, &[char])>, input: Seq<char>) -> Scan {
    match r {
        Some((consumed, value)) => Some((input.skip(consumed as int), value@)),
        None => None,
    }
}

/// Whether a `scan_..` function stayed inside its input.
pub open spec fn in_bounds<T>(r: Option<(usize, T)>, input: Seq<char>) -> bool {
    r matches Some((consumed, _)) ==> consumed <= input.len()
}

/// What a `parse_..` function returned, as the spec functions state it.
pub open spec fn parsed(r: Option<(&str, String)>) -> Scan {
    match r {
        Some((rest, value)) => Some((rest@, value@)),
        None => None,
    }
}

// GENERAL ----------------------------------------------------------------------------------------
/// The longest prefix without a character of `class`, which may be empty,
/// and the text from the first such character on.
pub open spec fn take_till(input: Seq<char>, class: CharClass) -> (Seq<char>, Seq<char>) {
    let end = first_in(input, class);
    (input.skip(end), input.take(end))
}

/// The longest prefix made of characters of `class`, which may be empty,
/// and the text from the first other character on.
pub open spec fn take_while(input: Seq<char>, class: CharClass) -> (Seq<char>, Seq<char>) {
    let end = first_outside(input, class);
    (input.skip(end), input.take(end))
}

/// The longest prefix made of characters of `class`, which must not be empty.
pub open spec fn take_while1(input: Seq<char>, class: CharClass) -> Scan {
    let end = first_outside(input, class);
    if end == 0 {
        None
    } else {
        Some((input.skip(end), input.take(end)))
    }
}

/// The longest prefix without a character of `class`, which must not be
/// empty.
pub open spec fn take_till1(input: Seq<char>, class: CharClass) -> Scan {
    let end = first_in(input, class);
    if end == 0 {
        None
    } else {
        Some((input.skip(end), input.take(end)))
    }
}

/// The text up to the next double quote, which must not be empty.
pub open spec fn not_double_quote(input: Seq<char>) -> Scan {
    take_till1(input, CharClass::Only('"'))
}

/// A quoted span at the very start of the input: a double quote, at least
/// one character that is no double quote, and the closing double quote. The
/// value is what stands between the quotes, taken as it is.
pub open spec fn between_double_quotes(input: Seq<char>) -> Scan {
    if input.len() == 0 || input[0] != '"' {
        None
    } else {
        let body = input.skip(1);
        let end = first_in(body, CharClass::Only('"'));
        if end == 0 || end == body.len() {
            None
        } else {
            Some((body.skip(end + 1), body.take(end)))
        }
    }
}

/// The text before the first ASCII letter or digit, and the text from there.
pub open spec fn not_alphanumeric(input: Seq<char>) -> (Seq<char>, Seq<char>) {
    take_till(input, CharClass::Alphanumeric)
}

/// The text before the first line feed, and the text from the line feed on.
pub open spec fn till_end_of_line(input: Seq<char>) -> (Seq<char>, Seq<char>) {
    take_till(input, CharClass::Only('\n'))
}

/// The next quoted span, with at least one character in front of it.
pub open spec fn quoted_value(input: Seq<char>) -> Scan {
    match not_double_quote(input) {
        Some((rest, _)) => between_double_quotes(rest),
        None => None,
    }
}

/// The next two quoted spans of a line: a key and its value.
pub open spec fn double_quoted_key_value(line: Seq<char>) -> Option<
    (Seq<char>, (Seq<char>, Seq<char>)),
> {
    match quoted_value(line) {
        Some((after_key, key)) => match quoted_value(after_key) {
            Some((rest, value)) => Some((rest, (key, value))),
            None => None,
        },
        None => None,
    }
}

/// `take_till` on characters: the length of the run and the run.
pub fn scan_till(input: &[char], class: CharClass) -> (r: (usize, &[char]))
    ensures
        r.0 <= input@.len(),
        (input@.skip(r.0 as int), r.1@) == take_till(input@, class),
{
    let end = scan_run(input, class, false);
    (end, head(input, end))
}

/// `take_while` on characters: the length of the run and the run.
pub fn scan_while(input: &[char], class: CharClass) -> (r: (usize, &[char]))
    ensures
        r.0 <= input@.len(),
        (input@.skip(r.0 as int), r.1@) == take_while(input@, class),
{
    let end = scan_run(input, class, true);
    (end, head(input, end))
}

/// `take_while1` on characters.
pub fn scan_while1(input: &[char], class: CharClass) -> (r: Option<(usize, &[char])>)
    ensures
        in_bounds(r, input@),
        scanned(r, input@) == take_while1(input@, class),
{
    let end = scan_run(input, class, true);
    if end == 0 {
        None
    } else {
        Some((end, head(input, end)))
    }
}

/// `take_till1` on characters.
pub fn scan_till1(input: &[char], class: CharClass) -> (r: Option<(usize, &[char])>)
    ensures
        in_bounds(r, input@),
        scanned(r, input@) == take_till1(input@, class),
{
    let end = scan_run(input, class, false);
    if end == 0 {
        None
    } else {
        Some((end, head(input, end)))
    }
}

/// `not_double_quote` on characters.
pub fn scan_not_double_quote(input: &[char]) -> (r: Option<(usize, &[char])>)
    ensures
        in_bounds(r, input@),
        scanned(r, input@) == not_double_quote(input@),
{
    scan_till1(input, CharClass::Only('"'))
}

/// Moves on by `consumed` characters from `pos`: the new position and the
/// text that is left there.
pub fn step(content: &[char], pos: usize, consumed: usize) -> (r: (usize, &[char]))
    requires
        pos <= content@.len(),
        consumed <= content@.len() - pos,
    ensures
        r.0 == pos + consumed,
        r.1@ == content@.skip(pos + consumed),
        r.1@ == content@.skip(pos as int).skip(consumed as int),
{
    proof {
        assert(content@.skip(pos as int).skip(consumed as int) =~= content@.skip(pos + consumed));
        assert(content.len() == content@.len());
    }
    (pos + consumed, tail(content, pos + consumed))
}

/// `between_double_quotes` on characters.
pub fn scan_between_double_quotes(input: &[char]) -> (r: Option<(usize, &[char])>)
    ensures
        in_bounds(r, input@),
        scanned(r, input@) == between_double_quotes(input@),
{
    if input.len() == 0 || input[0] != '"' {
        return None;
    }
    let body = tail(input, 1);
    let end = scan_run(body, CharClass::Only('"'), false);
    if end == 0 || end == body.len() {
        return None;
    }
    proof {
        assert(input@.skip(end + 2) =~= body@.skip(end + 1));
    }
    Some((end + 2, head(body, end)))
}

/// `quoted_value` on characters.
pub fn scan_quoted_value(input: &[char]) -> (r: Option<(usize, &[char])>)
    ensures
        in_bounds(r, input@),
        scanned(r, input@) == quoted_value(input@),
{
    match scan_not_double_quote(input) {
        Some((before, _)) => match scan_between_double_quotes(tail(input, before)) {
            Some((consumed, value)) => {
                proof {
                    assert(input@.skip(before as int).skip(consumed as int) =~= input@.skip(
                        before + consumed,
                    ));
                }
                Some((before + consumed, value))
            },
            None => None,
        },
        None => None,
    }
}

/// `double_quoted_key_value` on characters.
pub fn scan_double_quoted_key_value(line: &[char]) -> (r: Option<(usize, (&[char], &[char]))>)
    ensures
        in_bounds(r, line@),
        match r {
            Some((consumed, (key, value))) => double_quoted_key_value(line@) == Some(
                (line@.skip(consumed as int), (key@, value@)),
            ),
            None => double_quoted_key_value(line@) is None,
        },
{
    match scan_quoted_value(line) {
        Some((first, key)) => match scan_quoted_value(tail(line, first)) {
            Some((second, value)) => {
                proof {
                    assert(line@.skip(first as int).skip(second as int) =~= line@.skip(
                        first + second,
                    ));
                }
                Some((first + second, (key, value)))
            },
            None => None,
        },
        None => None,
    }
}

/// Takes a quoted span off the very start of the input.
pub fn parse_between_double_quotes(input: &str) -> (r: Option<(&str, String)>)
    ensures
        parsed(r) == between_double_quotes(input@),
{
    let chars = to_chars(input);
    match scan_between_double_quotes(chars.as_slice()) {
        Some((consumed, value)) => Some(
            (input.substring_char(consumed, chars.len()), to_text(value)),
        ),
        None => None,
    }
}

/// Takes the text up to the next double quote, which must not be empty.
pub fn parse_not_double_quote(input: &str) -> (r: Option<(&str, String)>)
    ensures
        parsed(r) == not_double_quote(input@),
{
    let chars = to_chars(input);
    match scan_not_double_quote(chars.as_slice()) {
        Some((consumed, value)) => Some(
            (input.substring_char(consumed, chars.len()), to_text(value)),
        ),
        None => None,
    }
}

/// Never fails: an input that starts with a letter or a digit yields an
/// empty value.
pub fn parse_not_alphanumeric(input: &str) -> (r: (&str, String))
    ensures
        (r.0@, r.1@) == not_alphanumeric(input@),
{
    let chars = to_chars(input);
    let (consumed, value) = scan_till(chars.as_slice(), CharClass::Alphanumeric);
    (input.substring_char(consumed, chars.len()), to_text(value))
}

/// Never fails: an input that starts with a line feed yields an empty value.
pub fn parse_till_end_of_line(input: &str) -> (r: (&str, String))
    ensures
        (r.0@, r.1@) == till_end_of_line(input@),
{
    let chars = to_chars(input);
    let (consumed, value) = scan_till(chars.as_slice(), CharClass::Only('\n'));
    (input.substring_char(consumed, chars.len()), to_text(value))
}

/// Parse both the key and value from a given line of a `.json` file (both values must be quoted)
pub fn parse_double_quoted_key_value(line: &str) -> (r: Option<(&str, (String, String))>)
    ensures
        match r {
            Some((rest, (key, value))) => double_quoted_key_value(line@) == Some(
                (rest@, (key@, value@)),
            ),
            None => double_quoted_key_value(line@) is None,
        },
{
    let chars = to_chars(line);
    match scan_double_quoted_key_value(chars.as_slice()) {
        Some((consumed, (key, value))) => Some(
            (line.substring_char(consumed, chars.len()), (to_text(key), to_text(value))),
        ),
        None => None,
    }
}

// KEYS -------------------------------------------------------------------------------------------
/// A key as a `.json` file writes it: between double quotes.
pub open spec fn json_key(key: Seq<char>) -> Seq<char> {
    seq!['"'] + key + seq!['"']
}

/// A key as a `.yml` file writes it: followed by a colon.
pub open spec fn yml_key(key: Seq<char>) -> Seq<char> {
    key.push(':')
}

/// A key as a `.cfg` file writes it: followed by an equals sign.
pub open spec fn cfg_key(key: Seq<char>) -> Seq<char> {
    key.push('=')
}

/// The text from the first occurrence of `marker` on, with the marker as
/// the value. Nothing of the marker is consumed.
pub open spec fn until_key(content: Seq<char>, marker: Seq<char>) -> Scan {
    match first_occurrence(content, marker) {
        Some(at) => Some((content.skip(at), marker)),
        None => None,
    }
}

/// The text that follows the first occurrence of `marker`.
pub open spec fn after_key(content: Seq<char>, marker: Seq<char>) -> Option<Seq<char>> {
    match first_occurrence(content, marker) {
        Some(at) => Some(content.skip(at + marker.len())),
        None => None,
    }
}

/// `key` between double quotes.
pub fn json_key_chars(key: &[char]) -> (marker: Vec<char>)
    ensures
        marker@ == json_key(key@),
{
    let mut marker: Vec<char> = Vec::new();
    marker.push('"');
    let mut i: usize = 0;
    while i < key.len()
        invariant
            i <= key.len(),
            marker@ == seq!['"'] + key@.take(i as int),
        decreases key.len() - i,
    {
        marker.push(key[i]);
        i += 1;
        proof {
            assert(marker@ =~= seq!['"'] + key@.take(i as int));
        }
    }
    marker.push('"');
    proof {
        assert(marker@ =~= json_key(key@));
    }
    marker
}

/// `key` followed by `mark`.
pub fn marked_key_chars(key: &[char], mark: char) -> (marker: Vec<char>)
    ensures
        marker@ == key@.push(mark),
{
    let mut marker: Vec<char> = Vec::new();
    let mut i: usize = 0;
    while i < key.len()
        invariant
            i <= key.len(),
            marker@ == key@.take(i as int),
        decreases key.len() - i,
    {
        marker.push(key[i]);
        i += 1;
        proof {
            assert(marker@ =~= key@.take(i as int));
        }
    }
    marker.push(mark);
    proof {
        assert(marker@ =~= key@.push(mark));
    }
    marker
}

/// The number of characters up to and including the first occurrence of
/// `marker`.
pub fn scan_after_key(content: &[char], marker: &[char]) -> (r: Option<usize>)
    ensures
        match r {
            Some(consumed) => consumed <= content@.len() && consumed >= marker@.len()
                && after_key(content@, marker@) == Some(content@.skip(consumed as int)),
            None => after_key(content@, marker@) is None,
        },
{
    match find(content, marker) {
        Some(at) => Some(at + marker.len()),
        None => None,
    }
}

/// Parses up to the next occurrence of a desired key in a `.json` file
/// e.g. "keyName": value
pub fn parse_until_key_json<'a>(file_content: &'a str, key: &str) -> (r: Option<(&'a str, String)>)
    ensures
        parsed(r) == until_key(file_content@, json_key(key@)),
{
    let chars = to_chars(file_content);
    let key_chars = to_chars(key);
    let quoted_key = json_key_chars(key_chars.as_slice());
    match find(chars.as_slice(), quoted_key.as_slice()) {
        Some(at) => Some(
            (file_content.substring_char(at, chars.len()), to_text(quoted_key.as_slice())),
        ),
        None => None,
    }
}

/// Parses up to the next occurrence of a desired key in a `.yml` or `.json`-style file without quotes
/// e.g. keyName: value
pub fn parse_until_key_yml<'a>(file_content: &'a str, key: &str) -> (r: Option<(&'a str, String)>)
    ensures
        parsed(r) == until_key(file_content@, yml_key(key@)),
{
    let chars = to_chars(file_content);
    let key_chars = to_chars(key);
    let key_with_colon = marked_key_chars(key_chars.as_slice(), ':');
    match find(chars.as_slice(), key_with_colon.as_slice()) {
        Some(at) => Some(
            (file_content.substring_char(at, chars.len()), to_text(key_with_colon.as_slice())),
        ),
        None => None,
    }
}

/// Parses up to the next occurrence of a desired key in a `.cfg` file
/// e.g. keyName=value
pub fn parse_until_key_cfg<'a>(file_content: &'a str, key: &str) -> (r: Option<(&'a str, String)>)
    ensures
        parsed(r) == until_key(file_content@, cfg_key(key@)),
{
    let chars = to_chars(file_content);
    let key_chars = to_chars(key);
    let key_with_equals = marked_key_chars(key_chars.as_slice(), '=');
    match find(chars.as_slice(), key_with_equals.as_slice()) {
        Some(at) => Some(
            (file_content.substring_char(at, chars.len()), to_text(key_with_equals.as_slice())),
        ),
        None => None,
    }
}

// VALUES -----------------------------------------------------------------------------------------
/// The quoted value that follows the first occurrence of the quoted `key`.
pub open spec fn value_json(content: Seq<char>, key: Seq<char>) -> Scan {
    match after_key(content, json_key(key)) {
        Some(rest) => quoted_value(rest),
        None => None,
    }
}

/// The first run of ASCII letters and digits after the first occurrence of
/// the quoted `key`: what stands between the key and the first letter or
/// digit is skipped, and the value ends at the first character that is
/// neither.
pub open spec fn value_json_unquoted(content: Seq<char>, key: Seq<char>) -> Scan {
    match after_key(content, json_key(key)) {
        Some(rest) => take_while1(not_alphanumeric(rest).0, CharClass::Alphanumeric),
        None => None,
    }
}

/// What follows the first occurrence of `key` and a colon, to the end of
/// its line, without the spaces and tabs that stand right after the colon.
pub open spec fn value_yml(content: Seq<char>, key: Seq<char>) -> Scan {
    match after_key(content, yml_key(key)) {
        Some(rest) => Some(till_end_of_line(take_while(rest, CharClass::Space).0)),
        None => None,
    }
}

/// What follows the first occurrence of `key` and an equals sign, to the end
/// of the line.
pub open spec fn value_cfg(content: Seq<char>, key: Seq<char>) -> Scan {
    match after_key(content, cfg_key(key)) {
        Some(rest) => Some(till_end_of_line(rest)),
        None => None,
    }
}

/// `value_json` on characters.
pub fn scan_value_json<'a>(content: &'a [char], key: &[char]) -> (r: Option<(usize, &'a [char])>)
    ensures
        in_bounds(r, content@),
        scanned(r, content@) == value_json(content@, key@),
        r matches Some((consumed, _)) ==> consumed > 0,
{
    let quoted_key = json_key_chars(key);
    match scan_after_key(content, quoted_key.as_slice()) {
        Some(start) => match scan_quoted_value(tail(content, start)) {
            Some((consumed, value)) => {
                proof {
                    assert(content@.skip(start as int).skip(consumed as int) =~= content@.skip(
                        start + consumed,
                    ));
                }
                Some((start + consumed, value))
            },
            None => None,
        },
        None => None,
    }
}

/// `value_json_unquoted` on characters.
pub fn scan_value_json_unquoted<'a>(content: &'a [char], key: &[char]) -> (r: Option<
    (usize, &'a [char]),
>)
    ensures
        in_bounds(r, content@),
        scanned(r, content@) == value_json_unquoted(content@, key@),
        r matches Some((consumed, _)) ==> consumed > 0,
{
    let quoted_key = json_key_chars(key);
    match scan_after_key(content, quoted_key.as_slice()) {
        Some(start) => {
            let after = tail(content, start);
            let (skipped, _) = scan_till(after, CharClass::Alphanumeric);
            match scan_while1(tail(after, skipped), CharClass::Alphanumeric) {
                Some((consumed, value)) => {
                    proof {
                        assert(content@.skip(start as int).skip(skipped as int).skip(
                            consumed as int,
                        ) =~= content@.skip(start + skipped + consumed));
                    }
                    Some((start + skipped + consumed, value))
                },
                None => None,
            }
        },
        None => None,
    }
}

/// `value_yml` on characters.
pub fn scan_value_yml<'a>(content: &'a [char], key: &[char]) -> (r: Option<(usize, &'a [char])>)
    ensures
        in_bounds(r, content@),
        scanned(r, content@) == value_yml(content@, key@),
        r matches Some((consumed, _)) ==> consumed > 0,
{
    let key_with_colon = marked_key_chars(key, ':');
    match scan_after_key(content, key_with_colon.as_slice()) {
        Some(start) => {
            let after = tail(content, start);
            let (skipped, _) = scan_while(after, CharClass::Space);
            let (consumed, value) = scan_till(tail(after, skipped), CharClass::Only('\n'));
            proof {
                assert(content@.skip(start as int).skip(skipped as int).skip(consumed as int)
                    =~= content@.skip(start + skipped + consumed));
            }
            Some((start + skipped + consumed, value))
        },
        None => None,
    }
}

/// `value_cfg` on characters.
pub fn scan_value_cfg<'a>(content: &'a [char], key: &[char]) -> (r: Option<(usize, &'a [char])>)
    ensures
        in_bounds(r, content@),
        scanned(r, content@) == value_cfg(content@, key@),
        r matches Some((consumed, _)) ==> consumed > 0,
{
    let key_with_equals = marked_key_chars(key, '=');
    match scan_after_key(content, key_with_equals.as_slice()) {
        Some(start) => {
            let (consumed, value) = scan_till(tail(content, start), CharClass::Only('\n'));
            proof {
                assert(content@.skip(start as int).skip(consumed as int) =~= content@.skip(
                    start + consumed,
                ));
            }
            Some((start + consumed, value))
        },
        None => None,
    }
}

/// Find the next occurrence of a key in a `.json` file and returns the matching value (quoted)
/// e.g. "keyName": "value"
pub fn parse_value_json<'a>(file_content: &'a str, key: &str) -> (r: Option<(&'a str, String)>)
    ensures
        parsed(r) == value_json(file_content@, key@),
{
    let chars = to_chars(file_content);
    let key_chars = to_chars(key);
    match scan_value_json(chars.as_slice(), key_chars.as_slice()) {
        Some((consumed, value)) => Some(
            (file_content.substring_char(consumed, chars.len()), to_text(value)),
        ),
        None => None,
    }
}

/// Find the next occurrence of a key in a `.json` file and returns the matching value (unquoted)
/// e.g. "keyName": false
pub fn parse_value_json_unquoted<'a>(file_content: &'a str, key: &str) -> (r: Option<
    (&'a str, String),
>)
    ensures
        parsed(r) == value_json_unquoted(file_content@, key@),
{
    let chars = to_chars(file_content);
    let key_chars = to_chars(key);
    match scan_value_json_unquoted(chars.as_slice(), key_chars.as_slice()) {
        Some((consumed, value)) => Some(
            (file_content.substring_char(consumed, chars.len()), to_text(value)),
        ),
        None => None,
    }
}

/// Find the next occurrence of a key in a `.yml` file and returns the matching value
/// e.g. keyName: value
pub fn parse_value_yml<'a>(file_content: &'a str, key: &str) -> (r: Option<(&'a str, String)>)
    ensures
        parsed(r) == value_yml(file_content@, key@),
{
    let chars = to_chars(file_content);
    let key_chars = to_chars(key);
    match scan_value_yml(chars.as_slice(), key_chars.as_slice()) {
        Some((consumed, value)) => Some(
            (file_content.substring_char(consumed, chars.len()), to_text(value)),
        ),
        None => None,
    }
}

/// Find the next occurrence of a key in a `.cfg` file and returns the matching value
/// e.g. keyName=value
pub fn parse_value_cfg<'a>(file_content: &'a str, key: &str) -> (r: Option<(&'a str, String)>)
    ensures
        parsed(r) == value_cfg(file_content@, key@),
{
    let chars = to_chars(file_content);
    let key_chars = to_chars(key);
    match scan_value_cfg(chars.as_slice(), key_chars.as_slice()) {
        Some((consumed, value)) => Some(
            (file_content.substring_char(consumed, chars.len()), to_text(value)),
        ),
        None => None,
    }
}

// WHAT IS LEFT -----------------------------------------------------------------------------------
/// `take_till` leaves an end of its input.
pub proof fn lemma_take_till_leaves_suffix(input: Seq<char>, class: CharClass)
    ensures
        is_suffix(take_till(input, class).0, input),
        take_till(input, class).0.len() + take_till(input, class).1.len() == input.len(),
{
    lemma_run_end(input, class, false);
    lemma_skip_is_suffix(input, first_in(input, class));
}

/// `take_while` leaves an end of its input.
pub proof fn lemma_take_while_leaves_suffix(input: Seq<char>, class: CharClass)
    ensures
        is_suffix(take_while(input, class).0, input),
{
    lemma_run_end(input, class, true);
    lemma_skip_is_suffix(input, first_outside(input, class));
}

/// `take_till1` consumes at least one character.
pub proof fn lemma_take_till1_shrinks(input: Seq<char>, class: CharClass)
    ensures
        take_till1(input, class) matches Some((rest, _)) ==> is_proper_suffix(rest, input),
{
    lemma_run_end(input, class, false);
    lemma_skip_is_suffix(input, first_in(input, class));
}

/// `take_while1` consumes at least one character.
pub proof fn lemma_take_while1_shrinks(input: Seq<char>, class: CharClass)
    ensures
        take_while1(input, class) matches Some((rest, _)) ==> is_proper_suffix(rest, input),
{
    lemma_run_end(input, class, true);
    lemma_skip_is_suffix(input, first_outside(input, class));
}

/// `between_double_quotes` consumes at least the two quotes and a character.
pub proof fn lemma_between_double_quotes_shrinks(input: Seq<char>)
    ensures
        between_double_quotes(input) matches Some((rest, _)) ==> is_proper_suffix(rest, input),
{
    if between_double_quotes(input) is Some {
        let body = input.skip(1);
        lemma_run_end(body, CharClass::Only('"'), false);
        let end = first_in(body, CharClass::Only('"'));
        lemma_skip_is_suffix(body, end + 1);
        lemma_skip_is_suffix(input, 1);
        lemma_suffix_of_suffix(body.skip(end + 1), body, input);
    }
}

/// `quoted_value` consumes at least the two quotes and two characters.
pub proof fn lemma_quoted_value_shrinks(input: Seq<char>)
    ensures
        quoted_value(input) matches Some((rest, _)) ==> is_proper_suffix(rest, input),
{
    if quoted_value(input) is Some {
        lemma_run_end(input, CharClass::Only('"'), false);
        let end = first_in(input, CharClass::Only('"'));
        let middle = input.skip(end);
        lemma_skip_is_suffix(input, end);
        lemma_between_double_quotes_shrinks(middle);
        let found = between_double_quotes(middle)->0;
        lemma_suffix_of_suffix(found.0, middle, input);
    }
}

/// What follows a key is an end of the text, and a proper one where the key
/// is not empty.
pub proof fn lemma_after_key_leaves_suffix(content: Seq<char>, marker: Seq<char>)
    ensures
        after_key(content, marker) matches Some(rest) ==> is_suffix(rest, content) && (
        marker.len() > 0 ==> is_proper_suffix(rest, content)),
        until_key(content, marker) matches Some((rest, _)) ==> is_suffix(rest, content)
            && occurs_at(rest, marker, 0),
{
    if first_occurrence(content, marker) is Some {
        lemma_first_occurrence_found(content, marker);
        let at = first_occurrence(content, marker)->0;
        lemma_skip_is_suffix(content, at + marker.len());
        lemma_skip_is_suffix(content, at);
        assert(content.skip(at).subrange(0, marker.len() as int) =~= content.subrange(
            at,
            at + marker.len(),
        ));
    }
}

/// A value of a `.json` file is found after at least one character.
pub proof fn lemma_value_json_shrinks(content: Seq<char>, key: Seq<char>)
    ensures
        value_json(content, key) matches Some((rest, _)) ==> is_proper_suffix(rest, content),
{
    if value_json(content, key) is Some {
        lemma_after_key_leaves_suffix(content, json_key(key));
        let middle = after_key(content, json_key(key))->0;
        lemma_quoted_value_shrinks(middle);
        let found = quoted_value(middle)->0;
        lemma_suffix_of_suffix(found.0, middle, content);
    }
}

/// An unquoted value of a `.json` file is found after at least one character.
pub proof fn lemma_value_json_unquoted_shrinks(content: Seq<char>, key: Seq<char>)
    ensures
        value_json_unquoted(content, key) matches Some((rest, _)) ==> is_proper_suffix(
            rest,
            content,
        ),
{
    if value_json_unquoted(content, key) is Some {
        lemma_after_key_leaves_suffix(content, json_key(key));
        let after = after_key(content, json_key(key))->0;
        lemma_take_till_leaves_suffix(after, CharClass::Alphanumeric);
        let middle = not_alphanumeric(after).0;
        lemma_take_while1_shrinks(middle, CharClass::Alphanumeric);
        lemma_suffix_of_suffix(middle, after, content);
        let found = take_while1(middle, CharClass::Alphanumeric)->0;
        lemma_suffix_of_suffix(found.0, middle, content);
    }
}

/// A value of a `.yml` file is found after at least the colon.
pub proof fn lemma_value_yml_shrinks(content: Seq<char>, key: Seq<char>)
    ensures
        value_yml(content, key) matches Some((rest, _)) ==> is_proper_suffix(rest, content),
{
    if value_yml(content, key) is Some {
        lemma_after_key_leaves_suffix(content, yml_key(key));
        let after = after_key(content, yml_key(key))->0;
        lemma_take_while_leaves_suffix(after, CharClass::Space);
        let middle = take_while(after, CharClass::Space).0;
        lemma_take_till_leaves_suffix(middle, CharClass::Only('\n'));
        lemma_suffix_of_suffix(middle, after, content);
        lemma_suffix_of_suffix(till_end_of_line(middle).0, middle, content);
    }
}

/// A value of a `.cfg` file is found after at least the equals sign.
pub proof fn lemma_value_cfg_shrinks(content: Seq<char>, key: Seq<char>)
    ensures
        value_cfg(content, key) matches Some((rest, _)) ==> is_proper_suffix(rest, content),
{
    if value_cfg(content, key) is Some {
        lemma_after_key_leaves_suffix(content, cfg_key(key));
        let after = after_key(content, cfg_key(key))->0;
        lemma_take_till_leaves_suffix(after, CharClass::Only('\n'));
        lemma_suffix_of_suffix(till_end_of_line(after).0, after, content);
    }
}

} // verus!
