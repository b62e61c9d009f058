//! Text as a sequence of characters.
//!
//! Every scanner in this crate works on `&[char]` and is specified over
//! `Seq<char>`; this module holds the character classes, the two searches
//! (for a literal and for a class of characters) and the conversions between
//! `str` and character slices.

use vstd::prelude::*;
use vstd::slice::slice_subrange;

verus! {

/// Trusted: `String::push` of the standard library appends the given
/// character to the end of the string and changes nothing else.
pub assume_specification[ String::push ](s: &mut String, c: char)
    ensures
        final(s)@ == old(s)@.push(c),
;

/// The classes of characters that the scanners tell apart.
#[derive(Clone, Copy, Debug)]
pub enum CharClass {
    /// The given character and no other.
    Only(char),
    /// ASCII letters and ASCII digits.
    Alphanumeric,
    /// Space and tab.
    Space,
    /// Space, tab, carriage return and line feed.
    Blank,
    /// The characters with the Unicode property `White_Space`.
    Whitespace,
}

/// An ASCII letter.
pub open spec fn is_ascii_letter(c: char) -> bool {
    ('a' <= c && c <= 'z') || ('A' <= c && c <= 'Z')
}

/// An ASCII digit.
pub open spec fn is_ascii_digit(c: char) -> bool {
    '0' <= c && c <= '9'
}

/// A space or a tab.
pub open spec fn is_space(c: char) -> bool {
    c == ' ' || c == '\t'
}

/// A space, a tab, a carriage return or a line feed.
pub open spec fn is_blank(c: char) -> bool {
    c == ' ' || c == '\t' || c == '\r' || c == '\n'
}

/// `White_Space` of the Unicode character database, by code point.
pub open spec fn is_whitespace(c: char) -> bool {
    let n = c as u32;
    ||| 0x09 <= n <= 0x0d
    ||| n == 0x20
    ||| n == 0x85
    ||| n == 0xa0
    ||| n == 0x1680
    ||| 0x2000 <= n <= 0x200a
    ||| n == 0x2028
    ||| n == 0x2029
    ||| n == 0x202f
    ||| n == 0x205f
    ||| n == 0x3000
}

impl CharClass {
    /// Whether `c` belongs to the class.
    pub open spec fn contains(self, c: char) -> bool {
        match self {
            CharClass::Only(wanted) => c == wanted,
            CharClass::Alphanumeric => is_ascii_letter(c) || is_ascii_digit(c),
            CharClass::Space => is_space(c),
            CharClass::Blank => is_blank(c),
            CharClass::Whitespace => is_whitespace(c),
        }
    }

    /// Classifies one character.
    pub fn holds(self, c: char) -> (r: bool)
        ensures
            r == self.contains(c),
    {
        match self {
            CharClass::Only(wanted) => c == wanted,
            CharClass::Alphanumeric => (c >= 'a' && c <= 'z') || (c >= 'A' && c <= 'Z') || (c >= '0'
                && c <= '9'),
            CharClass::Space => c == ' ' || c == '\t',
            CharClass::Blank => c == ' ' || c == '\t' || c == '\r' || c == '\n',
            CharClass::Whitespace => {
                let n: u32 = c as u32;
                (0x09 <= n && n <= 0x0d) || n == 0x20 || n == 0x85 || n == 0xa0 || n == 0x1680 || (
                0x2000 <= n && n <= 0x200a) || n == 0x2028 || n == 0x2029 || n == 0x202f || n
                    == 0x205f || n == 0x3000
            },
        }
    }
}

/// The text of an optional string.
pub open spec fn text_of(s: Option<String>) -> Option<Seq<char>> {
    match s {
        Some(s) => Some(s@),
        None => None,
    }
}

/// The views of `items`, in order.
pub open spec fn views<T: View>(items: Seq<T>) -> Seq<T::V> {
    items.map_values(|item: T| item@)
}

/// The views of a sequence with one more item are the views of the
/// sequence with the view of the item.
pub proof fn lemma_views_push<T: View>(items: Seq<T>, item: T)
    ensures
        views(items.push(item)) == views(items).push(item@),
{
    assert(views(items.push(item)) =~= views(items).push(item@));
}

/// The views of two sequences in a row are the views of the first and
/// then those of the second.
pub proof fn lemma_views_add<T: View>(first: Seq<T>, second: Seq<T>)
    ensures
        views(first + second) == views(first) + views(second),
{
    assert(views(first + second) =~= views(first) + views(second));
}

/// The characters of `s`, in order.
pub fn to_chars(s: &str) -> (chars: Vec<char>)
    ensures
        chars@ == s@,
{
    let mut chars: Vec<char> = Vec::new();
    for c in it: s.chars()
        invariant
            it.seq() == s@,
            chars@ == s@.take(it.index() as int),
    {
        chars.push(c);
    }
    chars
}

/// The string made of `chars`, in order.
pub fn to_text(chars: &[char]) -> (s: String)
    ensures
        s@ == chars@,
{
    let mut s = String::new();
    let mut i: usize = 0;
    while i < chars.len()
        invariant
            i <= chars.len(),
            s@ == chars@.take(i as int),
        decreases chars.len() - i,
    {
        s.push(chars[i]);
        i += 1;
    }
    s
}

/// An owned copy of `chars`.
pub fn to_vec(chars: &[char]) -> (r: Vec<char>)
    ensures
        r@ == chars@,
{
    let mut r: Vec<char> = Vec::new();
    let mut i: usize = 0;
    while i < chars.len()
        invariant
            i <= chars.len(),
            r@ == chars@.take(i as int),
        decreases chars.len() - i,
    {
        r.push(chars[i]);
        i += 1;
    }
    r
}

/// The first `n` characters of `text`.
pub fn head(text: &[char], n: usize) -> (r: &[char])
    requires
        n <= text@.len(),
    ensures
        r@ == text@.take(n as int),
{
    slice_subrange(text, 0, n)
}

/// What is left of `text` after its first `n` characters.
pub fn tail(text: &[char], n: usize) -> (r: &[char])
    requires
        n <= text@.len(),
    ensures
        r@ == text@.skip(n as int),
        text@.len() <= usize::MAX,
{
    slice_subrange(text, n, text.len())
}

/// `pattern` stands in `text` at index `at`.
pub open spec fn occurs_at(text: Seq<char>, pattern: Seq<char>, at: int) -> bool {
    &&& 0 <= at
    &&& at + pattern.len() <= text.len()
    &&& text.subrange(at, at + pattern.len()) == pattern
}

/// `pattern` stands in `text` at `at` and nowhere before.
pub open spec fn is_first_occurrence(text: Seq<char>, pattern: Seq<char>, at: int) -> bool {
    &&& occurs_at(text, pattern, at)
    &&& forall|j: int| 0 <= j < at ==> !occurs_at(text, pattern, j)
}

/// The index of the first occurrence of `pattern` in `text`, if there is one.
pub open spec fn first_occurrence(text: Seq<char>, pattern: Seq<char>) -> Option<int> {
    if exists|at: int| is_first_occurrence(text, pattern, at) {
        Some(choose|at: int| is_first_occurrence(text, pattern, at))
    } else {
        None
    }
}

/// A first occurrence is the only one: `first_occurrence` returns it.
pub proof fn lemma_first_occurrence_is(text: Seq<char>, pattern: Seq<char>, at: int)
    requires
        is_first_occurrence(text, pattern, at),
    ensures
        first_occurrence(text, pattern) == Some(at),
{
    let chosen = choose|k: int| is_first_occurrence(text, pattern, k);
    assert(is_first_occurrence(text, pattern, chosen));
    if chosen < at {
        assert(!occurs_at(text, pattern, chosen));
    }
    if at < chosen {
        assert(!occurs_at(text, pattern, at));
    }
}

/// Without any occurrence there is no first one.
pub proof fn lemma_first_occurrence_none(text: Seq<char>, pattern: Seq<char>)
    requires
        forall|j: int| !occurs_at(text, pattern, j),
    ensures
        first_occurrence(text, pattern) is None,
{
}

/// What `first_occurrence` returns is a first occurrence, inside the text.
pub proof fn lemma_first_occurrence_found(text: Seq<char>, pattern: Seq<char>)
    requires
        first_occurrence(text, pattern) is Some,
    ensures
        is_first_occurrence(text, pattern, first_occurrence(text, pattern)->0),
        0 <= first_occurrence(text, pattern)->0,
        first_occurrence(text, pattern)->0 + pattern.len() <= text.len(),
{
}

/// Whether `pattern` stands in `text` at index `at`.
pub fn matches_at(text: &[char], pattern: &[char], at: usize) -> (r: bool)
    ensures
        r == occurs_at(text@, pattern@, at as int),
{
    if pattern.len() > text.len() || at > text.len() - pattern.len() {
        return false;
    }
    let mut k: usize = 0;
    while k < pattern.len()
        invariant
            k <= pattern.len(),
            at + pattern.len() <= text.len(),
            forall|j: int| 0 <= j < k ==> text@[at + j] == pattern@[j],
        decreases pattern.len() - k,
    {
        if text[at + k] != pattern[k] {
            proof {
                let window = text@.subrange(at as int, at + pattern@.len());
                assert(window[k as int] == text@[at + k]);
            }
            return false;
        }
        k += 1;
    }
    proof {
        assert(text@.subrange(at as int, at + pattern@.len()) =~= pattern@);
    }
    true
}

/// The index of the first occurrence of `pattern` in `text`.
pub fn find(text: &[char], pattern: &[char]) -> (r: Option<usize>)
    ensures
        match r {
            Some(at) => first_occurrence(text@, pattern@) == Some(at as int),
            None => first_occurrence(text@, pattern@) is None,
        },
        r matches Some(at) ==> at + pattern@.len() <= text@.len() <= usize::MAX,
        r is None ==> forall|j: int| !occurs_at(text@, pattern@, j),
{
    if pattern.len() > text.len() {
        proof {
            lemma_first_occurrence_none(text@, pattern@);
        }
        return None;
    }
    let last: usize = text.len() - pattern.len();
    let mut at: usize = 0;
    loop
        invariant
            last == text.len() - pattern.len(),
            pattern.len() <= text.len(),
            at <= last,
            forall|j: int| 0 <= j < at ==> !occurs_at(text@, pattern@, j),
        decreases last - at,
    {
        if matches_at(text, pattern, at) {
            proof {
                lemma_first_occurrence_is(text@, pattern@, at as int);
            }
            return Some(at);
        }
        if at == last {
            proof {
                lemma_first_occurrence_none(text@, pattern@);
            }
            return None;
        }
        at += 1;
    }
}

/// Up to `at` every character of `text` is outside (`inside` false) or
/// inside (`inside` true) of `class`, and the character at `at`, if there is
/// one, is the first that is not.
pub open spec fn is_run_end(text: Seq<char>, class: CharClass, inside: bool, at: int) -> bool {
    &&& 0 <= at <= text.len()
    &&& forall|i: int| 0 <= i < at ==> class.contains(#[trigger] text[i]) == inside
    &&& at < text.len() ==> class.contains(text[at]) != inside
}

/// The length of the longest prefix of `text` whose characters all are
/// inside (`inside` true) or all outside (`inside` false) of `class`.
pub open spec fn run_end(text: Seq<char>, class: CharClass, inside: bool) -> int {
    choose|at: int| is_run_end(text, class, inside, at)
}

/// The index of the first character of `text` that is in `class`, or the
/// length of `text` if there is none.
pub open spec fn first_in(text: Seq<char>, class: CharClass) -> int {
    run_end(text, class, false)
}

/// The index of the first character of `text` that is not in `class`, or the
/// length of `text` if there is none.
pub open spec fn first_outside(text: Seq<char>, class: CharClass) -> int {
    run_end(text, class, true)
}

/// A run ends in one place only.
pub proof fn lemma_run_end_is(text: Seq<char>, class: CharClass, inside: bool, at: int)
    requires
        is_run_end(text, class, inside, at),
    ensures
        run_end(text, class, inside) == at,
{
    let chosen = run_end(text, class, inside);
    assert(is_run_end(text, class, inside, chosen));
    if chosen < at {
        assert(class.contains(text[chosen]) == inside);
    }
    if at < chosen {
        assert(class.contains(text[at]) == inside);
    }
}

proof fn lemma_run_end_from(text: Seq<char>, class: CharClass, inside: bool, from: int)
    requires
        0 <= from <= text.len(),
        forall|i: int| 0 <= i < from ==> class.contains(#[trigger] text[i]) == inside,
    ensures
        exists|at: int| is_run_end(text, class, inside, at),
    decreases text.len() - from,
{
    if from < text.len() && class.contains(text[from]) == inside {
        lemma_run_end_from(text, class, inside, from + 1);
    } else {
        assert(is_run_end(text, class, inside, from));
    }
}

/// Every text has a run end, and `run_end` is it.
pub proof fn lemma_run_end(text: Seq<char>, class: CharClass, inside: bool)
    ensures
        is_run_end(text, class, inside, run_end(text, class, inside)),
{
    lemma_run_end_from(text, class, inside, 0);
}

/// The length of the longest prefix of `text` inside (`inside` true) or
/// outside (`inside` false) of `class`.
pub fn scan_run(text: &[char], class: CharClass, inside: bool) -> (at: usize)
    ensures
        at == run_end(text@, class, inside),
        is_run_end(text@, class, inside, at as int),
{
    let mut at: usize = 0;
    while at < text.len() && class.holds(text[at]) == inside
        invariant
            at <= text.len(),
            forall|i: int| 0 <= i < at ==> class.contains(#[trigger] text@[i]) == inside,
        decreases text.len() - at,
    {
        at += 1;
    }
    proof {
        lemma_run_end_is(text@, class, inside, at as int);
    }
    at
}

/// `rest` is an end of `text`: what is left of it after some characters.
pub open spec fn is_suffix(rest: Seq<char>, text: Seq<char>) -> bool {
    &&& rest.len() <= text.len()
    &&& rest == text.skip(text.len() - rest.len())
}

/// `rest` is what is left of `text` after a positive number of characters.
pub open spec fn is_proper_suffix(rest: Seq<char>, text: Seq<char>) -> bool {
    &&& rest.len() < text.len()
    &&& rest == text.skip(text.len() - rest.len())
}

/// Skipping characters leaves an end of the text.
pub proof fn lemma_skip_is_suffix(text: Seq<char>, n: int)
    requires
        0 <= n <= text.len(),
    ensures
        is_suffix(text.skip(n), text),
        n > 0 ==> is_proper_suffix(text.skip(n), text),
{
}

/// An end of an end of a text is an end of the text.
pub proof fn lemma_suffix_of_suffix(inner: Seq<char>, middle: Seq<char>, text: Seq<char>)
    requires
        is_suffix(inner, middle),
        is_suffix(middle, text),
    ensures
        is_suffix(inner, text),
        is_proper_suffix(inner, middle) || is_proper_suffix(middle, text) ==> is_proper_suffix(
            inner,
            text,
        ),
{
    assert(inner =~= text.skip(text.len() - inner.len()));
}

/// Whether two texts are the same.
pub fn same_text(a: &[char], b: &[char]) -> (r: bool)
    ensures
        r == (a@ == b@),
{
    if a.len() != b.len() {
        return false;
    }
    let r = matches_at(a, b, 0);
    proof {
        assert(a@.subrange(0, a@.len() as int) =~= a@);
    }
    r
}

/// Whether two strings hold the same text.
pub fn same_str(a: &str, b: &str) -> (r: bool)
    ensures
        r == (a@ == b@),
{
    let left = to_chars(a);
    let right = to_chars(b);
    same_text(left.as_slice(), right.as_slice())
}

/// Whether `c` stands somewhere in `text`.
pub fn contains_char(text: &[char], c: char) -> (r: bool)
    ensures
        r == text@.contains(c),
{
    let at = scan_run(text, CharClass::Only(c), false);
    if at < text.len() {
        assert(text@[at as int] == c);
        true
    } else {
        false
    }
}

/// Whether `pattern` stands somewhere in `text`.
pub fn contains_text(text: &[char], pattern: &[char]) -> (r: bool)
    ensures
        r == (first_occurrence(text@, pattern@) is Some),
{
    find(text, pattern).is_some()
}

/// `at` is the index of the last `c` in `text`.
pub open spec fn is_last_index(text: Seq<char>, c: char, at: int) -> bool {
    &&& 0 <= at < text.len()
    &&& text[at] == c
    &&& forall|j: int| at < j < text.len() ==> text[j] != c
}

/// The text before the last `c` and the text after it, if `text` holds `c`.
pub open spec fn split_at_last(text: Seq<char>, c: char) -> Option<(Seq<char>, Seq<char>)> {
    if text.contains(c) {
        let at = choose|at: int| is_last_index(text, c, at);
        Some((text.take(at), text.skip(at + 1)))
    } else {
        None
    }
}

/// The last `c` of a text is in one place only.
pub proof fn lemma_split_at_last_is(text: Seq<char>, c: char, at: int)
    requires
        is_last_index(text, c, at),
    ensures
        split_at_last(text, c) == Some((text.take(at), text.skip(at + 1))),
{
    assert(text.contains(c));
    let chosen = choose|k: int| is_last_index(text, c, k);
    assert(is_last_index(text, c, chosen));
    assert(chosen == at);
}

/// Splits `text` at its last `c`: the number of characters before it.
pub fn find_last(text: &[char], c: char) -> (r: Option<usize>)
    ensures
        match r {
            Some(at) => is_last_index(text@, c, at as int) && split_at_last(text@, c) == Some(
                (text@.take(at as int), text@.skip(at + 1)),
            ),
            None => !text@.contains(c) && split_at_last(text@, c) is None,
        },
        r matches Some(at) ==> at < text@.len() <= usize::MAX,
{
    let mut at: usize = text.len();
    while at > 0
        invariant
            at <= text.len(),
            forall|j: int| at <= j < text.len() ==> text@[j] != c,
        decreases at,
    {
        at -= 1;
        if text[at] == c {
            proof {
                lemma_split_at_last_is(text@, c, at as int);
            }
            return Some(at);
        }
    }
    None
}

/// The number of characters that are left of `text` when the white space at
/// its end is taken off.
pub open spec fn is_trimmed_len(text: Seq<char>, len: int) -> bool {
    &&& 0 <= len <= text.len()
    &&& forall|i: int| len <= i < text.len() ==> is_whitespace(#[trigger] text[i])
    &&& len > 0 ==> !is_whitespace(text[len - 1])
}

/// `text` without the white space at its end.
pub open spec fn trimmed_end(text: Seq<char>) -> Seq<char> {
    text.take(choose|len: int| is_trimmed_len(text, len))
}

/// `text` without the white space at its start.
pub open spec fn trimmed_start(text: Seq<char>) -> Seq<char> {
    text.skip(first_outside(text, CharClass::Whitespace))
}

/// `text` without the white space at its start and at its end.
pub open spec fn trimmed(text: Seq<char>) -> Seq<char> {
    trimmed_end(trimmed_start(text))
}

/// White space ends in one place only.
pub proof fn lemma_trimmed_end_is(text: Seq<char>, len: int)
    requires
        is_trimmed_len(text, len),
    ensures
        trimmed_end(text) == text.take(len),
{
    let chosen = choose|k: int| is_trimmed_len(text, k);
    assert(is_trimmed_len(text, chosen));
    if chosen < len {
        assert(is_whitespace(text[len - 1]));
    }
    if len < chosen {
        assert(is_whitespace(text[chosen - 1]));
    }
}

/// The number of characters of `text` before the white space at its end.
pub fn trim_end_len(text: &[char]) -> (len: usize)
    ensures
        len <= text@.len(),
        is_trimmed_len(text@, len as int),
        trimmed_end(text@) == text@.take(len as int),
{
    let mut len: usize = text.len();
    while len > 0 && CharClass::Whitespace.holds(text[len - 1])
        invariant
            len <= text.len(),
            forall|i: int| len <= i < text.len() ==> is_whitespace(#[trigger] text@[i]),
        decreases len,
    {
        len -= 1;
    }
    proof {
        lemma_trimmed_end_is(text@, len as int);
    }
    len
}

/// `text` without the white space at its end.
pub fn trim_end(text: &[char]) -> (r: &[char])
    ensures
        r@ == trimmed_end(text@),
{
    head(text, trim_end_len(text))
}

/// `text` without the white space at its start: the number of characters
/// taken off.
pub fn trim_start_len(text: &[char]) -> (skipped: usize)
    ensures
        skipped <= text@.len(),
        trimmed_start(text@) == text@.skip(skipped as int),
{
    scan_run(text, CharClass::Whitespace, true)
}

/// `text` without the white space at its start and at its end.
pub fn trim(text: &[char]) -> (r: &[char])
    ensures
        r@ == trimmed(text@),
{
    trim_end(tail(text, trim_start_len(text)))
}

/// Appends `items` to `target`.
pub fn extend_chars(target: &mut Vec<char>, items: &[char])
    ensures
        final(target)@ == old(target)@ + items@,
{
    let ghost before = target@;
    let mut i: usize = 0;
    while i < items.len()
        invariant
            i <= items.len(),
            target@ == before + items@.take(i as int),
        decreases items.len() - i,
    {
        target.push(items[i]);
        i += 1;
        proof {
            assert(target@ =~= before + items@.take(i as int));
        }
    }
    proof {
        assert(items@.take(items@.len() as int) =~= items@);
    }
}

/// How one text stands to another in the order of `str`.
#[derive(Clone, Copy, PartialEq, Eq, Structural, Debug)]
pub enum TextOrder {
    Before,
    Same,
    After,
}

/// The order of `str`: texts are compared character by character, by code
/// point, and a text comes before every longer text that starts with it.
pub open spec fn text_order(a: Seq<char>, b: Seq<char>) -> TextOrder
    decreases a.len(),
{
    if a.len() == 0 {
        if b.len() == 0 {
            TextOrder::Same
        } else {
            TextOrder::Before
        }
    } else if b.len() == 0 {
        TextOrder::After
    } else if a[0] < b[0] {
        TextOrder::Before
    } else if a[0] > b[0] {
        TextOrder::After
    } else {
        text_order(a.skip(1), b.skip(1))
    }
}

/// Compares two texts in the order of `str`.
pub fn compare_texts(a: &[char], b: &[char]) -> (r: TextOrder)
    ensures
        r == text_order(a@, b@),
{
    let mut i: usize = 0;
    proof {
        assert(a@.skip(0) =~= a@);
        assert(b@.skip(0) =~= b@);
    }
    loop
        invariant
            i <= a@.len(),
            i <= b@.len(),
            text_order(a@, b@) == text_order(a@.skip(i as int), b@.skip(i as int)),
        decreases a@.len() - i,
    {
        if i == a.len() {
            return if i == b.len() {
                TextOrder::Same
            } else {
                TextOrder::Before
            };
        }
        if i == b.len() {
            return TextOrder::After;
        }
        if a[i] < b[i] {
            return TextOrder::Before;
        }
        if a[i] > b[i] {
            return TextOrder::After;
        }
        proof {
            assert(a@.skip(i as int).skip(1) =~= a@.skip(i + 1));
            assert(b@.skip(i as int).skip(1) =~= b@.skip(i + 1));
        }
        i += 1;
    }
}

/// Two texts stand in the same place of the order only if they are equal.
pub proof fn lemma_text_order_same(a: Seq<char>, b: Seq<char>)
    ensures
        text_order(a, b) == TextOrder::Same <==> a == b,
    decreases a.len(),
{
    if a.len() > 0 && b.len() > 0 && a[0] == b[0] {
        lemma_text_order_same(a.skip(1), b.skip(1));
        if a.skip(1) == b.skip(1) {
            assert(a =~= seq![a[0]] + a.skip(1));
            assert(b =~= seq![b[0]] + b.skip(1));
        }
    } else if a.len() == 0 && b.len() == 0 {
        assert(a =~= b);
    }
}

/// Turning two texts around turns their order around.
pub proof fn lemma_text_order_flip(a: Seq<char>, b: Seq<char>)
    ensures
        (text_order(a, b) == TextOrder::Before) == (text_order(b, a) == TextOrder::After),
        (text_order(a, b) == TextOrder::Same) == (text_order(b, a) == TextOrder::Same),
    decreases a.len(),
{
    if a.len() > 0 && b.len() > 0 && a[0] == b[0] {
        lemma_text_order_flip(a.skip(1), b.skip(1));
    }
}

/// Two texts of which neither comes after the other are the same text.
pub proof fn lemma_text_order_antisymmetric(a: Seq<char>, b: Seq<char>)
    requires
        text_order(a, b) != TextOrder::After,
        text_order(b, a) != TextOrder::After,
    ensures
        a == b,
{
    lemma_text_order_flip(a, b);
    lemma_text_order_same(a, b);
}

} // verus!
