//! The counter store: what each operation does to a counter's file.
//!
//! A counter's file is seen as `Option<String>`: `None` where it does not
//! exist, else its text. Each operation takes that state and says what is
//! returned and what the file holds afterwards; the caller performs the write
//! or removal it asks for.
use vstd::prelude::*;
use crate::codec::{decimal_text, parse_spec, parse_value, value_text, lemma_round_trip};

verus! {

/// The failures of the store and of a session.
#[derive(Debug, Clone, Copy, PartialEq, Eq, Structural)]
pub enum StoreError {
    /// A counter of that name exists already.
    AlreadyExists,
    /// No counter of that name exists.
    NotFound,
    /// The file's text is not a non-negative integer.
    ParseError,
    /// Reading, writing, creating or removing the file failed.
    IoError,
    /// Raw mode could not be entered or left.
    TerminalError,
}

/// What `create` gives: the text to write into a new file.
pub open spec fn create_spec(cur: Option<Seq<char>>) -> Result<Seq<char>, StoreError> {
    match cur {
        Some(_) => Err(StoreError::AlreadyExists),
        None => Ok(decimal_text(0)),
    }
}

/// What `open` gives: the counter's value.
pub open spec fn open_spec(cur: Option<Seq<char>>) -> Result<u64, StoreError> {
    match cur {
        None => Err(StoreError::NotFound),
        Some(text) => match parse_spec(text) {
            Some(v) => Ok(v),
            None => Err(StoreError::ParseError),
        },
    }
}

/// What `reset` gives: the text that replaces the file's text.
pub open spec fn reset_spec(cur: Option<Seq<char>>) -> Result<Seq<char>, StoreError> {
    match cur {
        None => Err(StoreError::NotFound),
        Some(_) => Ok(decimal_text(0)),
    }
}

/// What `delete` gives: `Ok` where the file is to be removed.
pub open spec fn delete_spec(cur: Option<Seq<char>>) -> Result<(), StoreError> {
    match cur {
        None => Err(StoreError::NotFound),
        Some(_) => Ok(()),
    }
}

/// The file after an operation that gives new text or an error: the new text,
/// or the file as it was.
pub open spec fn file_after_write(
    cur: Option<Seq<char>>,
    r: Result<Seq<char>, StoreError>,
) -> Option<Seq<char>> {
    match r {
        Ok(text) => Some(text),
        Err(_) => cur,
    }
}

/// The file after `delete`.
pub open spec fn file_after_delete(cur: Option<Seq<char>>) -> Option<Seq<char>> {
    match delete_spec(cur) {
        Ok(_) => None,
        Err(_) => cur,
    }
}

/// The values of a sequence of files, in order; the error of the first that
/// cannot be opened, where one cannot.
pub open spec fn list_spec(files: Seq<Option<Seq<char>>>) -> Result<Seq<u64>, StoreError>
    decreases files.len(),
{
    if files.len() == 0 {
        Ok(Seq::empty())
    } else {
        match list_spec(files.drop_last()) {
            Err(e) => Err(e),
            Ok(values) => match open_spec(files.last()) {
                Err(e) => Err(e),
                Ok(v) => Ok(values.push(v)),
            },
        }
    }
}

/// Creates a counter: fails with `AlreadyExists` where the file exists, else
/// gives the text of the value 0 to write into the new file.
pub fn create(current: &Option<String>) -> (r: Result<String, StoreError>)
    ensures
        match r {
            Ok(text) => create_spec(current.deep_view()) == Ok::<Seq<char>, StoreError>(text@),
            Err(e) => create_spec(current.deep_view()) == Err::<Seq<char>, StoreError>(e),
        },
{
    match current {
        Some(_) => Err(StoreError::AlreadyExists),
        None => Ok(value_text(0)),
    }
}

/// Opens a counter: its value, or `NotFound` where the file is absent, or
/// `ParseError` where its text is not a value.
pub fn open(current: &Option<String>) -> (r: Result<u64, StoreError>)
    ensures
        r == open_spec(current.deep_view()),
{
    match current {
        None => Err(StoreError::NotFound),
        Some(text) => match parse_value(text.as_str()) {
            Some(v) => Ok(v),
            None => Err(StoreError::ParseError),
        },
    }
}

/// The text that overwrites a counter's file to store `value`.
pub fn write(value: u64) -> (r: String)
    ensures
        r@ == decimal_text(value as nat),
        parse_spec(r@) == Some(value),
{
    proof {
        lemma_round_trip(value);
    }
    value_text(value)
}

/// Resets a counter: fails with `NotFound` where the file is absent, else
/// gives the text of the value 0 to overwrite it with.
pub fn reset(current: &Option<String>) -> (r: Result<String, StoreError>)
    ensures
        match r {
            Ok(text) => reset_spec(current.deep_view()) == Ok::<Seq<char>, StoreError>(text@),
            Err(e) => reset_spec(current.deep_view()) == Err::<Seq<char>, StoreError>(e),
        },
{
    match current {
        None => Err(StoreError::NotFound),
        Some(_) => Ok(value_text(0)),
    }
}

/// Deletes a counter: fails with `NotFound` where the file is absent, else
/// `Ok`, and the file is to be removed.
pub fn delete(current: &Option<String>) -> (r: Result<(), StoreError>)
    ensures
        r == delete_spec(current.deep_view()),
{
    match current {
        None => Err(StoreError::NotFound),
        Some(_) => Ok(()),
    }
}

/// Lists counters: the value of each file in order, or the error of the first
/// one that cannot be opened; nothing is reported for the others then.
pub fn list(files: &Vec<Option<String>>) -> (r: Result<Vec<u64>, StoreError>)
    ensures
        match r {
            Ok(values) => list_spec(files.deep_view()) == Ok::<Seq<u64>, StoreError>(values@),
            Err(e) => list_spec(files.deep_view()) == Err::<Seq<u64>, StoreError>(e),
        },
{
    let mut values: Vec<u64> = Vec::new();
    let mut i: usize = 0;
    while i < files.len()
        invariant
            i <= files.len(),
            list_spec(files.deep_view().take(i as int)) == Ok::<Seq<u64>, StoreError>(values@),
        decreases files.len() - i,
    {
        let ghost all = files.deep_view();
        assert(all.take(i + 1).drop_last() =~= all.take(i as int));
        assert(all.take(i + 1).last() == files[i as int].deep_view());
        match open(&files[i]) {
            Err(e) => {
                proof {
                    lemma_list_keeps_error(all, i as int + 1);
                }
                return Err(e);
            },
            Ok(v) => {
                values.push(v);
            },
        }
        i = i + 1;
    }
    assert(files.deep_view().take(i as int) =~= files.deep_view());
    Ok(values)
}

/// Once a prefix of the files fails to list, the whole sequence fails with
/// the same error.
pub proof fn lemma_list_keeps_error(files: Seq<Option<Seq<char>>>, n: int)
    requires
        0 <= n <= files.len(),
        list_spec(files.take(n)) is Err,
    ensures
        list_spec(files) == list_spec(files.take(n)),
    decreases files.len() - n,
{
    if n < files.len() {
        assert(files.take(n + 1).drop_last() =~= files.take(n));
        lemma_list_keeps_error(files, n + 1);
    } else {
        assert(files.take(n) =~= files);
    }
}

/// Creating a counter that does not exist yet and then opening it gives 0.
pub proof fn lemma_create_then_open(cur: Option<Seq<char>>)
    requires
        cur is None,
    ensures
        create_spec(cur) is Ok,
        open_spec(file_after_write(cur, create_spec(cur))) == Ok::<u64, StoreError>(0),
{
    lemma_round_trip(0);
}

/// Creating a counter that exists fails with `AlreadyExists` and leaves its
/// file as it was.
pub proof fn lemma_create_existing(cur: Option<Seq<char>>)
    requires
        cur is Some,
    ensures
        create_spec(cur) == Err::<Seq<char>, StoreError>(StoreError::AlreadyExists),
        file_after_write(cur, create_spec(cur)) == cur,
{
}

/// Resetting an existing counter stores 0, whatever it held before.
pub proof fn lemma_reset_stores_zero(cur: Option<Seq<char>>)
    requires
        cur is Some,
    ensures
        reset_spec(cur) is Ok,
        open_spec(file_after_write(cur, reset_spec(cur))) == Ok::<u64, StoreError>(0),
{
    lemma_round_trip(0);
}

/// Deleting an existing counter removes its file, so that opening it then
/// fails with `NotFound`.
pub proof fn lemma_delete_then_open(cur: Option<Seq<char>>)
    requires
        cur is Some,
    ensures
        delete_spec(cur) == Ok::<(), StoreError>(()),
        file_after_delete(cur) is None,
        open_spec(file_after_delete(cur)) == Err::<u64, StoreError>(StoreError::NotFound),
{
}

/// Where every file before position `n` opens, listing those files succeeds.
proof fn lemma_list_prefix_ok(files: Seq<Option<Seq<char>>>, n: int)
    requires
        0 <= n <= files.len(),
        forall|j: int| 0 <= j < n ==> #[trigger] open_spec(files[j]) is Ok,
    ensures
        list_spec(files.take(n)) is Ok,
    decreases n,
{
    if n > 0 {
        assert(files.take(n).drop_last() =~= files.take(n - 1));
        lemma_list_prefix_ok(files, n - 1);
    }
}

/// Listing stops at the first file that cannot be opened: the whole listing
/// fails with that file's error, and nothing of the later files is reported.
pub proof fn lemma_list_fails_fast(files: Seq<Option<Seq<char>>>, i: int)
    requires
        0 <= i < files.len(),
        open_spec(files[i]) is Err,
        forall|j: int| 0 <= j < i ==> #[trigger] open_spec(files[j]) is Ok,
    ensures
        list_spec(files) == Err::<Seq<u64>, StoreError>(open_spec(files[i])->Err_0),
{
    lemma_list_prefix_ok(files, i);
    assert(files.take(i + 1).drop_last() =~= files.take(i));
    assert(files.take(i + 1).last() == files[i]);
    lemma_list_keeps_error(files, i + 1);
}

} // verus!
