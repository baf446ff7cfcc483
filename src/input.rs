//! Reading the menu choice and counter names that the user types, and the
//! file path of a counter.
use vstd::prelude::*;

verus! {

/// A choice of the main menu.
#[derive(Debug, Clone, Copy, PartialEq, Eq, Structural)]
pub enum Choice {
    Add,
    Select,
    List,
    Reset,
    Delete,
    Quit,
    /// Anything else: the menu says so and asks again.
    Bad,
}

/// What a line typed at a name prompt asks for.
#[derive(Debug, PartialEq, Eq)]
pub enum NameInput {
    /// `q` or `Q`: back to the main menu.
    Back,
    /// The name of a counter.
    Name(String),
    /// Text that cannot name a file: empty, or holding `/` or a NUL.
    Invalid,
}

/// The text that `str::trim` leaves of `s`.
pub uninterp spec fn trim_of(s: Seq<char>) -> Seq<char>;

/// Relies on `str::trim`: the text without leading and trailing whitespace,
/// which depends on the text alone.
#[verifier::external_body]
fn trimmed(s: &str) -> (r: &str)
    ensures
        r@ == trim_of(s@),
{
    s.trim()
}

/// The menu choice that the text `t`, already trimmed, stands for.
pub open spec fn choice_of(t: Seq<char>) -> Choice {
    if t.len() != 1 {
        Choice::Bad
    } else if t[0] == '1' {
        Choice::Add
    } else if t[0] == '2' {
        Choice::Select
    } else if t[0] == '3' {
        Choice::List
    } else if t[0] == '4' {
        Choice::Reset
    } else if t[0] == '5' {
        Choice::Delete
    } else if t[0] == 'q' || t[0] == 'Q' {
        Choice::Quit
    } else {
        Choice::Bad
    }
}

/// The menu choice of the trimmed text `t`.
pub fn choice_of_trimmed(t: &str) -> (r: Choice)
    ensures
        r == choice_of(t@),
{
    if t.unicode_len() != 1 {
        return Choice::Bad;
    }
    let c = t.get_char(0);
    if c == '1' {
        Choice::Add
    } else if c == '2' {
        Choice::Select
    } else if c == '3' {
        Choice::List
    } else if c == '4' {
        Choice::Reset
    } else if c == '5' {
        Choice::Delete
    } else if c == 'q' || c == 'Q' {
        Choice::Quit
    } else {
        Choice::Bad
    }
}

/// The menu choice of a line typed at the main menu, leading and trailing
/// whitespace ignored.
pub fn menu_choice(line: &str) -> (r: Choice)
    ensures
        r == choice_of(trim_of(line@)),
{
    choice_of_trimmed(trimmed(line))
}

/// `s` without its newline characters.
pub open spec fn without_newlines(s: Seq<char>) -> Seq<char>
    decreases s.len(),
{
    if s.len() == 0 {
        s
    } else if s.last() == '\n' {
        without_newlines(s.drop_last())
    } else {
        without_newlines(s.drop_last()).push(s.last())
    }
}

/// `n` can name a counter's file: it is not empty and holds no `/` and no NUL.
pub open spec fn is_valid_name(n: Seq<char>) -> bool {
    n.len() > 0 && forall|i: int| 0 <= i < n.len() ==> #[trigger] n[i] != '/' && n[i] != '\0'
}

/// `n` asks to go back to the main menu.
pub open spec fn is_back(n: Seq<char>) -> bool {
    n.len() == 1 && (n[0] == 'q' || n[0] == 'Q')
}

/// Reads a line typed at a name prompt. Newlines are dropped; `q` or `Q`
/// goes back, a valid name names a counter, anything else is invalid.
pub fn name_input(line: &str) -> (r: NameInput)
    ensures
        match r {
            NameInput::Back => is_back(without_newlines(line@)),
            NameInput::Name(n) => !is_back(without_newlines(line@)) && is_valid_name(n@) && n@
                == without_newlines(line@),
            NameInput::Invalid => !is_back(without_newlines(line@)) && !is_valid_name(
                without_newlines(line@),
            ),
        },
{
    let len: usize = line.unicode_len();
    let mut name = String::new();
    let mut valid = true;
    let mut i: usize = 0;
    while i < len
        invariant
            len == line@.len(),
            i <= len,
            name@ == without_newlines(line@.subrange(0, i as int)),
            valid == (forall|j: int| 0 <= j < name@.len() ==> #[trigger] name@[j] != '/' && name@[j] != '\0'),
        decreases len - i,
    {
        let c = line.get_char(i);
        let ghost before = name@;
        assert(line@.subrange(0, i + 1).drop_last() =~= line@.subrange(0, i as int));
        assert(line@.subrange(0, i + 1).last() == c);
        if c != '\n' {
            name.append(line.substring_char(i, i + 1));
            assert(line@.subrange(i as int, i + 1) =~= seq![c]);
            assert(name@ =~= before.push(c));
            if c == '/' || c == '\0' {
                valid = false;
                assert(name@[before.len() as int] == c);
            }
            assert(valid == (forall|j: int| 0 <= j < name@.len() ==> #[trigger] name@[j] != '/' && name@[j] != '\0')) by {
                assert forall|j: int| 0 <= j < before.len() implies name@[j] == before[j] by {}
            }
        }
        i = i + 1;
    }
    assert(line@.subrange(0, len as int) =~= line@);
    if name.unicode_len() == 1 {
        let c = name.as_str().get_char(0);
        if c == 'q' || c == 'Q' {
            return NameInput::Back;
        }
    }
    assert(!is_back(name@));
    if valid && name.unicode_len() > 0 {
        NameInput::Name(name)
    } else {
        NameInput::Invalid
    }
}

/// The directory that holds the counters' files.
pub open spec fn counter_dir() -> Seq<char> {
    "src/counters/"@
}

/// The extension of a counter's file.
pub open spec fn counter_ext() -> Seq<char> {
    ".txt"@
}

/// The path of the file of the counter `name`.
pub fn counter_path(name: &str) -> (r: String)
    ensures
        r@ == counter_dir() + name@ + counter_ext(),
{
    let mut r = String::from_str("src/counters/");
    r.append(name);
    r.append(".txt");
    r
}

/// The counter that a file of the counters' directory holds, given the file's
/// name: `f` without its `.txt` extension, where the rest is a valid name.
pub open spec fn name_of_file(f: Seq<char>) -> Option<Seq<char>> {
    if f.len() > 4 && f.subrange(f.len() - 4, f.len() as int) == counter_ext() && is_valid_name(
        f.subrange(0, f.len() - 4),
    ) {
        Some(f.subrange(0, f.len() - 4))
    } else {
        None
    }
}

/// The counter of the file named `file_name`, or `None` where it is no
/// counter's file.
pub fn counter_of_file(file_name: &str) -> (r: Option<String>)
    ensures
        match r {
            Some(n) => name_of_file(file_name@) == Some(n@),
            None => name_of_file(file_name@) is None,
        },
{
    proof {
        reveal_strlit(".txt");
    }
    let len: usize = file_name.unicode_len();
    if len <= 4 {
        return None;
    }
    let ghost ext = file_name@.subrange(len - 4, len as int);
    if file_name.get_char(len - 4) != '.' || file_name.get_char(len - 3) != 't'
        || file_name.get_char(len - 2) != 'x' || file_name.get_char(len - 1) != 't' {
        assert(ext != counter_ext()) by {
            if ext == counter_ext() {
                assert(ext[0] == file_name@[len - 4]);
                assert(ext[1] == file_name@[len - 3]);
                assert(ext[2] == file_name@[len - 2]);
                assert(ext[3] == file_name@[len - 1]);
            }
        }
        return None;
    }
    assert(ext =~= counter_ext());
    let stem = file_name.substring_char(0, len - 4);
    let mut i: usize = 0;
    while i < len - 4
        invariant
            len == file_name@.len(),
            stem@ == file_name@.subrange(0, len - 4),
            i <= len - 4,
            forall|j: int| 0 <= j < i ==> #[trigger] stem@[j] != '/' && stem@[j] != '\0',
        decreases len - 4 - i,
    {
        let c = stem.get_char(i);
        if c == '/' || c == '\0' {
            return None;
        }
        i = i + 1;
    }
    Some(String::from_str(stem))
}

} // verus!
