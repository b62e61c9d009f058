//! Record scanners and the loop that drives one over a whole file.
//!
//! A scanner takes one record off the front of the text that is left. The
//! loop calls it again on what it left, until it finds no further record:
//! that is the end of the records, not an error.

use vstd::prelude::*;
use crate::text::{is_proper_suffix, tail, views};

verus! {

/// One step of reading records from a text.
pub trait RecordScanner {
    /// What the scanner produces.
    type Record: View;

    /// The record at the front of `text` and the text that is left after it,
    /// or `None` where no record can be matched.
    spec fn extract(&self, text: Seq<char>) -> Option<(Seq<char>, <Self::Record as View>::V)>;

    /// A matched record consumes at least one character, and what is left is
    /// the end of the text that was given.
    proof fn extract_shrinks(&self, text: Seq<char>)
        ensures
            self.extract(text) matches Some((rest, _)) ==> is_proper_suffix(rest, text),
    ;

    /// Takes the next record off `text`: the number of characters consumed
    /// and the record.
    fn extract_next(&self, text: &[char]) -> (r: Option<(usize, Self::Record)>)
        ensures
            match r {
                Some((consumed, record)) => consumed <= text@.len() && self.extract(text@) == Some(
                    (text@.skip(consumed as int), record@),
                ),
                None => self.extract(text@) is None,
            },
    ;
}

/// Every record of `text`, in the order of the file: the record at the
/// front, then the records of what it left.
pub open spec fn scan_all<S: RecordScanner>(scanner: &S, text: Seq<char>) -> Seq<
    <S::Record as View>::V,
>
    decreases text.len(),
{
    match scanner.extract(text) {
        Some((rest, record)) => if rest.len() < text.len() {
            seq![record] + scan_all(scanner, rest)
        } else {
            Seq::empty()
        },
        None => Seq::empty(),
    }
}

/// The text that is left after the first `count` records of `text`.
pub open spec fn remainder<S: RecordScanner>(scanner: &S, text: Seq<char>, count: nat) -> Seq<char>
    decreases count,
{
    if count == 0 {
        text
    } else {
        match scanner.extract(text) {
            Some((rest, _)) => remainder(scanner, rest, (count - 1) as nat),
            None => text,
        }
    }
}

/// Reads every record of `content`: calls the scanner on what the call
/// before left, and stops at the first call that matches nothing.
pub fn scan_records<S: RecordScanner>(scanner: &S, content: &[char]) -> (records: Vec<S::Record>)
    ensures
        views(records@) == scan_all(scanner, content@),
{
    let mut records: Vec<S::Record> = Vec::new();
    let mut rest = content;
    loop
        invariant
            scan_all(scanner, content@) == views(records@) + scan_all(scanner, rest@),
        ensures
            views(records@) == scan_all(scanner, content@),
        decreases rest@.len(),
    {
        match scanner.extract_next(rest) {
            Some((consumed, record)) => {
                proof {
                    scanner.extract_shrinks(rest@);
                    assert(views(records@.push(record)) =~= views(records@) + seq![record@]);
                    assert(views(records@) + (seq![record@] + scan_all(
                        scanner,
                        rest@.skip(consumed as int),
                    )) =~= views(records@.push(record)) + scan_all(
                        scanner,
                        rest@.skip(consumed as int),
                    ));
                }
                records.push(record);
                rest = tail(rest, consumed);
            },
            None => {
                proof {
                    assert(views(records@) + Seq::<<S::Record as View>::V>::empty() =~= views(
                        records@,
                    ));
                }
                break ;
            },
        }
    }
    records
}

/// The records come out one by one, each from where the one before ended:
/// the record of index `k` is what the scanner finds at the front of the text
/// left after `k` records, that text is an end of the file's text, and each
/// step leaves strictly less. So every record is listed once, in file order.
pub proof fn lemma_scan_all_in_file_order<S: RecordScanner>(scanner: &S, text: Seq<char>, k: nat)
    requires
        k < scan_all(scanner, text).len(),
    ensures
        scanner.extract(remainder(scanner, text, k)) == Some(
            (remainder(scanner, text, k + 1), scan_all(scanner, text)[k as int]),
        ),
        is_proper_suffix(remainder(scanner, text, k + 1), remainder(scanner, text, k)),
        remainder(scanner, text, k) == text.skip(text.len() - remainder(scanner, text, k).len()),
        remainder(scanner, text, k + 1).len() < remainder(scanner, text, k).len() <= text.len(),
    decreases k,
{
    scanner.extract_shrinks(text);
    let (rest, record) = scanner.extract(text)->0;
    if k == 0 {
        assert(remainder(scanner, text, 1) == remainder(scanner, rest, 0));
        assert(text =~= text.skip(0));
    } else {
        assert(scan_all(scanner, text) =~= seq![record] + scan_all(scanner, rest));
        lemma_scan_all_in_file_order(scanner, rest, (k - 1) as nat);
        assert(remainder(scanner, text, k) == remainder(scanner, rest, (k - 1) as nat));
        assert(remainder(scanner, text, k + 1) == remainder(scanner, rest, k as nat));
        let left = remainder(scanner, rest, (k - 1) as nat);
        assert(left =~= text.skip(text.len() - left.len())) by {
            assert(rest == text.skip(text.len() - rest.len()));
            assert(left == rest.skip(rest.len() - left.len()));
        }
    }
}

/// After the last record no further record is found: the scanner reports no
/// match on the text that the records left.
pub proof fn lemma_scan_all_ends<S: RecordScanner>(scanner: &S, text: Seq<char>)
    ensures
        scanner.extract(remainder(scanner, text, scan_all(scanner, text).len())) is None,
    decreases text.len(),
{
    scanner.extract_shrinks(text);
    match scanner.extract(text) {
        Some((rest, record)) => {
            lemma_scan_all_ends(scanner, rest);
            assert(scan_all(scanner, text).len() == 1 + scan_all(scanner, rest).len());
        },
        None => {},
    }
}

} // verus!
