//! Collecting lines of text until a sentinel is entered, classifying them, and
//! letting a callee append to the caller's own list through a mutable borrow.

use crate::scan::{any_hit, before_first, lemma_before_first, lemma_first_hit_at};
use crate::text::{all_whitespace, lemma_trimmed_surrounded, same_text, trim, trimmed};
use vstd::prelude::*;

verus! {

/// Whether `line`, once trimmed, is the sentinel that ends the collection.
pub open spec fn is_stop(line: Seq<char>) -> bool {
    trimmed(line) == "stop"@
}

/// Whether `line`, once trimmed, is exactly the name that is looked for.
pub open spec fn is_pedro(line: Seq<char>) -> bool {
    trimmed(line) == "pedro"@
}

/// What a collected line was found to be.
#[derive(Debug, Clone, Copy, PartialEq, Eq, Structural)]
pub enum Found {
    /// The line is the name looked for.
    Pedro,
    /// The line is anything else.
    Random,
}

/// What `line` is found to be.
pub open spec fn classified(line: Seq<char>) -> Found {
    if is_pedro(line) {
        Found::Pedro
    } else {
        Found::Random
    }
}

impl Found {
    /// The words that report this finding.
    pub fn message(&self) -> (words: &'static str)
        ensures
            *self == Found::Pedro ==> words@ == "found: pedro"@,
            *self == Found::Random ==> words@ == "found: random"@,
    {
        match self {
            Found::Pedro => "found: pedro",
            Found::Random => "found: random",
        }
    }
}

/// Classifies one line: only a line that trims to the exact lower-case name
/// is found to be it.
pub fn classify(element: &str) -> (found: Found)
    ensures
        found == classified(element@),
{
    if same_text(trim(element), "pedro") {
        Found::Pedro
    } else {
        Found::Random
    }
}

/// Classifies every line of `list`, in order. The list itself is only read.
pub fn classify_all(list: &Vec<String>) -> (found: Vec<Found>)
    ensures
        found@.len() == list@.len(),
        forall|i: int| 0 <= i < list@.len() ==> found@[i] == classified(list@[i]@),
{
    let mut found: Vec<Found> = Vec::new();
    let mut i: usize = 0;
    while i < list.len()
        invariant
            i <= list@.len(),
            found@.len() == i,
            forall|j: int| 0 <= j < i ==> found@[j] == classified(list@[j]@),
        decreases list@.len() - i,
    {
        found.push(classify(list[i].as_str()));
        i += 1;
    }
    found
}

/// Appends the line `"the new"` to the caller's list, through the borrow.
pub fn add_item_in_reference(var1: &mut Vec<String>)
    ensures
        final(var1)@.len() == old(var1)@.len() + 1,
        final(var1)@.drop_last() == old(var1)@,
        final(var1)@.last()@ == "the new"@,
{
    var1.push("the new".to_owned());
    assert(var1@.drop_last() == old(var1)@);
}

/// What the collecting loop does after one attempt to read a line.
#[derive(Debug, Clone, Copy, PartialEq, Eq, Structural)]
pub enum Next {
    /// Prompt again and read another line.
    Prompt,
    /// The sentinel was entered: the collection is complete.
    Finished,
}

/// Whether `read` is a line that ends the collection.
pub open spec fn ends_collection(read: Result<String, String>) -> bool {
    read matches Ok(line) && is_stop(line@)
}

/// Handles one attempt to read a line. The sentinel ends the collection and
/// is not kept; any other line is appended as it was read, untrimmed; a
/// failed read changes nothing and the loop goes on.
pub fn collect_line(list: &mut Vec<String>, read: Result<String, String>) -> (next: Next)
    ensures
        next == Next::Finished <==> ends_collection(read),
        final(list)@ == match read {
            Ok(line) if !is_stop(line@) => old(list)@.push(line),
            _ => old(list)@,
        },
{
    match read {
        Ok(line) => {
            if same_text(trim(line.as_str()), "stop") {
                Next::Finished
            } else {
                list.push(line);
                Next::Prompt
            }
        },
        Err(_) => Next::Prompt,
    }
}

/// Whether some read of `reads` is the sentinel.
pub open spec fn has_stop(reads: Seq<Result<String, String>>) -> bool {
    any_hit(reads, |read: Result<String, String>| ends_collection(read))
}

/// How many reads come before the first sentinel; all of them, where there is
/// none.
pub open spec fn reads_before_stop(reads: Seq<Result<String, String>>) -> nat {
    before_first(reads, |read: Result<String, String>| ends_collection(read))
}

/// The lines that were read successfully, in the order of `reads`.
pub open spec fn lines_read(reads: Seq<Result<String, String>>) -> Seq<String>
    decreases reads.len(),
{
    if reads.len() == 0 {
        Seq::empty()
    } else {
        match reads.last() {
            Ok(line) => lines_read(reads.drop_last()).push(line),
            Err(_) => lines_read(reads.drop_last()),
        }
    }
}

/// Runs the collecting loop over `reads`, the outcomes of its successive
/// attempts to read a line, starting from an empty list.
///
/// Returns the collection once the sentinel is met: the lines read before
/// it, untrimmed and in order, failed reads left out. What follows the
/// sentinel is never looked at. Returns `None` where `reads` holds no
/// sentinel, for the loop would then still be prompting.
pub fn start_loop(reads: &Vec<Result<String, String>>) -> (outcome: Option<Vec<String>>)
    ensures
        outcome is Some <==> has_stop(reads@),
        outcome matches Some(list) ==> list@ == lines_read(
            reads@.take(reads_before_stop(reads@) as int),
        ),
{
    let mut list: Vec<String> = Vec::new();
    let mut i: usize = 0;
    while i < reads.len()
        invariant
            i <= reads@.len(),
            i <= reads_before_stop(reads@),
            list@ == lines_read(reads@.take(i as int)),
        decreases reads@.len() - i,
    {
        proof {
            lemma_before_first(reads@, |read: Result<String, String>| ends_collection(read));
            assert(reads@.take(i + 1).drop_last() == reads@.take(i as int));
            assert(reads@.take(i + 1).last() == reads@[i as int]);
        }
        let read: Result<String, String> = match &reads[i] {
            Ok(line) => Ok(line.clone()),
            Err(failure) => Err(failure.clone()),
        };
        let next = collect_line(&mut list, read);
        match next {
            Next::Finished => {
                return Some(list);
            },
            Next::Prompt => {},
        }
        i += 1;
    }
    proof {
        lemma_before_first(reads@, |read: Result<String, String>| ends_collection(read));
    }
    None
}

/// The sentinel is known by what it trims to: white space before and after
/// it, of any kind and length, does not hide it.
pub proof fn lemma_stop_with_padding(before: Seq<char>, after: Seq<char>)
    requires
        all_whitespace(before),
        all_whitespace(after),
    ensures
        is_stop(before + "stop"@ + after),
{
    reveal_strlit("stop");
    lemma_trimmed_surrounded(before, "stop"@, after);
}

/// The name is known by what it trims to: with white space before and after
/// it, of any kind and length, it is still found.
pub proof fn lemma_pedro_with_padding(before: Seq<char>, after: Seq<char>)
    requires
        all_whitespace(before),
        all_whitespace(after),
    ensures
        classified(before + "pedro"@ + after) == Found::Pedro,
{
    reveal_strlit("pedro");
    lemma_trimmed_surrounded(before, "pedro"@, after);
}

/// Only the exact name is found: a line is classified as the name exactly
/// when it trims to the five lower-case letters of it.
pub proof fn lemma_only_pedro_is_found(line: Seq<char>)
    ensures
        classified(line) == Found::Pedro <==> trimmed(line) == seq!['p', 'e', 'd', 'r', 'o'],
{
    reveal_strlit("pedro");
    assert("pedro"@ =~= seq!['p', 'e', 'd', 'r', 'o']);
}

/// The first sentinel ends the collection, whatever was collected before it:
/// where the read at `k` is the first sentinel, the loop returns, and returns
/// the lines read before `k`. With the sentinel as the very first read, that
/// is the empty collection.
pub proof fn lemma_stop_ends_collection(reads: Seq<Result<String, String>>, k: int)
    requires
        0 <= k < reads.len(),
        ends_collection(reads[k]),
        forall|i: int| 0 <= i < k ==> !ends_collection(#[trigger] reads[i]),
    ensures
        has_stop(reads),
        reads_before_stop(reads) == k,
        k == 0 ==> lines_read(reads.take(reads_before_stop(reads) as int)) == Seq::<
            String,
        >::empty(),
{
    lemma_first_hit_at(reads, |read: Result<String, String>| ends_collection(read), k);
}

/// What an inspection of a finished collection reports.
#[derive(Debug, PartialEq, Eq)]
pub struct Inspection {
    /// What each line was found to be, in order.
    pub found: Vec<Found>,
    /// The number of lines before the callee's addition.
    pub size: usize,
    /// The number of lines after it.
    pub new_size: usize,
}

/// Inspects a finished collection: classifies each line, notes the size of
/// the list, lends the list to [`add_item_in_reference`], and notes the size
/// that the caller sees afterwards, which is one more.
pub fn inspect(list: &mut Vec<String>) -> (report: Inspection)
    ensures
        report.found@.len() == old(list)@.len(),
        forall|i: int|
            0 <= i < old(list)@.len() ==> report.found@[i] == classified(old(list)@[i]@),
        report.size == old(list)@.len(),
        report.new_size == report.size + 1,
        final(list)@.len() == report.new_size,
        final(list)@.drop_last() == old(list)@,
        final(list)@.last()@ == "the new"@,
{
    let found = classify_all(list);
    let size = list.len();
    add_item_in_reference(list);
    let new_size = list.len();
    Inspection { found, size, new_size }
}

} // verus!
