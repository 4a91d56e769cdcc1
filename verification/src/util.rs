use vstd::prelude::*;
use vstd::string::*;

verus! {

/// What a path on disk turned out to be.
#[derive(Clone, Copy, Debug, PartialEq, Eq)]
pub enum PathType {
    File,
    Directory,
    DoesNotExist,
}

/// What a path turned out to be, from what could be done with it: a
/// directory lists at least one entry, a file opens, anything else does not
/// exist (an empty directory cannot be told apart from a missing path).
pub fn path_type_of(lists_an_entry: bool, opens_as_file: bool) -> (res: PathType)
    ensures
        res == (if lists_an_entry {
            PathType::Directory
        } else if opens_as_file {
            PathType::File
        } else {
            PathType::DoesNotExist
        }),
{
    if lists_an_entry {
        PathType::Directory
    } else if opens_as_file {
        PathType::File
    } else {
        PathType::DoesNotExist
    }
}

/// The path exists (as a file or as a directory with entries).
pub fn path_exists(path_type: PathType) -> (res: bool)
    ensures
        res == (path_type != PathType::DoesNotExist),
{
    !matches!(path_type, PathType::DoesNotExist)
}

/// The sixteen bytes that open every SQLite database file: `SQLite format 3`
/// and a NUL.
pub open spec fn sqlite_header() -> Seq<u8> {
    seq![0x53u8, 0x51, 0x4c, 0x69, 0x74, 0x65, 0x20, 0x66, 0x6f, 0x72, 0x6d, 0x61, 0x74, 0x20, 0x33, 0x00]
}

/// Tells whether the first sixteen bytes of a file are the SQLite header.
pub fn is_sqlite_header(first_bytes: &[u8; 16]) -> (res: bool)
    ensures
        res == (first_bytes@ == sqlite_header()),
{
    let header: [u8; 16] = [
        0x53, 0x51, 0x4c, 0x69, 0x74, 0x65, 0x20, 0x66, 0x6f, 0x72, 0x6d, 0x61, 0x74, 0x20, 0x33, 0x00,
    ];
    proof {
        assert(header@ =~= sqlite_header());
    }
    let mut i: usize = 0;
    while i < 16
        invariant
            i <= 16,
            header@ == sqlite_header(),
            first_bytes@.len() == 16,
            forall|j: int| 0 <= j < i ==> first_bytes@[j] == header@[j],
        decreases 16 - i,
    {
        if first_bytes[i] != header[i] {
            return false;
        }
        i = i + 1;
    }
    proof {
        assert(first_bytes@ =~= sqlite_header());
    }
    true
}

/// What deleting a folder does with one of its entries.
#[derive(Clone, Copy, Debug, PartialEq, Eq)]
pub enum DeleteAction {
    /// Delete the directory's contents, then the directory.
    Recurse,
    /// Remove the file.
    RemoveFile,
    /// Remove the entry as an empty directory (an entry of unknown type
    /// without an extension), ignoring failure.
    RemoveEmptyDirectory,
    /// Leave the entry.
    Keep,
}

/// How an entry of a folder being deleted is removed, from its type and
/// whether its name has an extension.
pub fn delete_action(path_type: PathType, has_extension: bool) -> (res: DeleteAction)
    ensures
        res == (match path_type {
            PathType::Directory => DeleteAction::Recurse,
            PathType::File => DeleteAction::RemoveFile,
            PathType::DoesNotExist => if has_extension {
                DeleteAction::Keep
            } else {
                DeleteAction::RemoveEmptyDirectory
            },
        }),
{
    match path_type {
        PathType::Directory => DeleteAction::Recurse,
        PathType::File => DeleteAction::RemoveFile,
        PathType::DoesNotExist => if has_extension {
            DeleteAction::Keep
        } else {
            DeleteAction::RemoveEmptyDirectory
        },
    }
}

/// A batch of entries to delete is full once it holds `batch_size` entries
/// (there is no limit without a batch size).
pub fn batch_full(collected: usize, batch_size: Option<usize>) -> (res: bool)
    ensures
        res == (match batch_size {
            Some(b) => collected >= b,
            None => false,
        }),
{
    match batch_size {
        Some(b) => collected >= b,
        None => false,
    }
}

/// `s` with every trailing NUL character removed.
pub open spec fn trim_trailing_nul(s: Seq<char>) -> Seq<char>
    decreases s.len(),
{
    if s.len() > 0 && s.last() == '\0' {
        trim_trailing_nul(s.drop_last())
    } else {
        s
    }
}

/// Removes the NUL terminators that the sim appends to commbus arguments.
pub fn trim_null_terminator(s: &str) -> (res: &str)
    ensures
        res@ == trim_trailing_nul(s@),
{
    let mut end = s.unicode_len();
    proof {
        assert(s@.subrange(0, end as int) =~= s@);
    }
    while end > 0 && s.get_char(end - 1) == '\0'
        invariant
            end <= s@.len(),
            trim_trailing_nul(s@.subrange(0, end as int)) == trim_trailing_nul(s@),
        decreases end,
    {
        proof {
            assert(s@.subrange(0, end as int).drop_last() =~= s@.subrange(0, end - 1));
        }
        end = end - 1;
    }
    s.substring_char(0, end)
}


/// Trimming leaves no trailing NUL, keeps a prefix of the text, and trimming
/// again changes nothing.
pub proof fn lemma_trim_trailing_nul(s: Seq<char>)
    ensures
        trim_trailing_nul(s).len() <= s.len(),
        trim_trailing_nul(s) == s.take(trim_trailing_nul(s).len() as int),
        trim_trailing_nul(s).len() > 0 ==> trim_trailing_nul(s).last() != '\0',
        trim_trailing_nul(trim_trailing_nul(s)) == trim_trailing_nul(s),
        forall|i: int| trim_trailing_nul(s).len() <= i < s.len() ==> s[i] == '\0',
    decreases s.len(),
{
    if s.len() > 0 && s.last() == '\0' {
        lemma_trim_trailing_nul(s.drop_last());
        let t = trim_trailing_nul(s.drop_last());
        assert(s.drop_last().take(t.len() as int) =~= s.take(t.len() as int));
        assert forall|i: int| t.len() <= i < s.len() implies s[i] == '\0' by {
            if i < s.len() - 1 {
                assert(s.drop_last()[i] == s[i]);
            }
        }
    } else {
        assert(s.take(s.len() as int) =~= s);
    }
}

} // verus!
