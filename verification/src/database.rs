use vstd::prelude::*;

use crate::meta::InstalledNavigationDataCycleInfo;
use vstd::string::StrSliceExecFns;

verus! {

/// A query was made while no database was open.
#[derive(Clone, Copy, Debug, PartialEq, Eq, Structural)]
pub struct NoDatabaseOpen;

impl NoDatabaseOpen {
    /// The text of the error.
    pub fn message(&self) -> (res: String)
        ensures
            res@ == seq!['N', 'o', ' ', 'd', 'a', 't', 'a', 'b', 'a', 's', 'e', ' ', 'o', 'p', 'e', 'n'],
    {
        let s = String::from_str("No database open");
        proof {
            reveal_strlit("No database open");
        }
        s
    }
}

/// The text of a call that the database type does not implement.
pub open spec fn not_compat_text() -> Seq<char> {
    seq![
        'F', 'u', 'n', 'c', 't', 'i', 'o', 'n', ' ', 'n', 'o', 't', ' ', 'i', 'm', 'p', 'l', 'e', 'm', 'e', 'n', 't', 'e',
        'd', ' ', 'i', 'n', ' ', 'd', 'a', 't', 'a', 'b', 'a', 's', 'e', ' ', 't', 'y', 'p', 'e',
    ]
}

/// A call that the database type does not implement.
#[derive(Clone, Copy, Debug, PartialEq, Eq, Structural)]
pub struct DatabaseNotCompat;

impl DatabaseNotCompat {
    /// The text of the error.
    pub fn message(&self) -> (res: String)
        ensures
            res@ == not_compat_text(),
    {
        let s = String::from_str("Function not implemented in database type");
        proof {
            reveal_strlit("Function not implemented in database type");
        }
        s
    }
}

/// An installed navigation data package.
pub struct PackageInfo {
    pub path: String,
    pub uuid: String,
    pub cycle: InstalledNavigationDataCycleInfo,
}

/// The database back ends. `V1` and `V2` are the connections to databases of
/// the first and second format.
pub enum DatabaseEnum<V1, V2> {
    DatabaseV1(V1),
    DatabaseV2(V2),
    DatabaseManual(DatabaseManual),
}

/// The back end of manually installed data: it only remembers which package
/// is active and opens no database.
pub struct DatabaseManual {
    pub path: String,
}

/// The part of `s` before the first `/`, and the part between the first and
/// the second `/` (empty when there is no `/`).
pub open spec fn validity_parts(s: Seq<char>) -> (Seq<char>, Seq<char>) {
    if exists|i: int| 0 <= i < s.len() && s[i] == '/' {
        let i = first_slash(s);
        let rest = s.skip(i + 1);
        if exists|j: int| 0 <= j < rest.len() && rest[j] == '/' {
            (s.take(i), rest.take(first_slash(rest)))
        } else {
            (s.take(i), rest)
        }
    } else {
        (s, seq![])
    }
}

/// The position of the first `/` of `s` (which holds one).
pub open spec fn first_slash(s: Seq<char>) -> int {
    choose|i: int| 0 <= i < s.len() && s[i] == '/' && forall|j: int| 0 <= j < i ==> s[j] != '/'
}

/// Finds the first `/` at or after `from`.
fn find_slash(s: &str, from: usize) -> (res: Option<usize>)
    requires
        from <= s@.len(),
    ensures
        match res {
            Some(i) => from <= i < s@.len() && s@[i as int] == '/' && forall|j: int|
                from <= j < i ==> s@[j] != '/',
            None => forall|j: int| from <= j < s@.len() ==> s@[j] != '/',
        },
{
    let n = s.unicode_len();
    let mut i = from;
    while i < n
        invariant
            from <= i <= n,
            n == s@.len(),
            forall|j: int| from <= j < i ==> s@[j] != '/',
        decreases n - i,
    {
        if s.get_char(i) == '/' {
            return Some(i);
        }
        i = i + 1;
    }
    None
}

proof fn lemma_first_slash(s: Seq<char>, i: int)
    requires
        0 <= i < s.len(),
        s[i] == '/',
        forall|j: int| 0 <= j < i ==> s[j] != '/',
    ensures
        first_slash(s) == i,
{
    let k = first_slash(s);
    assert(0 <= k < s.len() && s[k] == '/' && forall|j: int| 0 <= j < k ==> s[j] != '/');
    if k < i {
        assert(s[k] != '/');
    }
    if i < k {
        assert(s[i] != '/');
    }
}

/// Splits a validity period `FROM/TO` into its two dates.
pub fn split_validity(period: &str) -> (res: (String, String))
    ensures
        (res.0@, res.1@) == validity_parts(period@),
{
    let s = period;
    let n = s.unicode_len();
    match find_slash(s, 0) {
        None => {
            proof {
                assert(s@.take(n as int) =~= s@);
            }
            (s.to_string(), String::new())
        },
        Some(i) => {
            proof {
                lemma_first_slash(s@, i as int);
            }
            let first = s.substring_char(0, i).to_string();
            let ghost rest = s@.skip(i + 1);
            match find_slash(s, i + 1) {
                None => {
                    proof {
                        assert forall|j: int| 0 <= j < rest.len() implies rest[j] != '/' by {
                            assert(rest[j] == s@[i + 1 + j]);
                        }
                        assert(s@.subrange(i + 1, n as int) =~= rest);
                    }
                    (first, s.substring_char(i + 1, n).to_string())
                },
                Some(k) => {
                    proof {
                        assert(rest[k - i - 1] == '/');
                        assert forall|j: int| 0 <= j < k - i - 1 implies rest[j] != '/' by {
                            assert(rest[j] == s@[i + 1 + j]);
                        }
                        lemma_first_slash(rest, k - i - 1);
                        assert(s@.subrange(i + 1, k as int) =~= rest.take(k - i - 1));
                    }
                    (first, s.substring_char(i + 1, k).to_string())
                },
            }
        },
    }
}

/// The text that a successful setup reports.
pub open spec fn setup_complete_text() -> Seq<char> {
    seq!['S', 'e', 't', 'u', 'p', ' ', 'C', 'o', 'm', 'p', 'l', 'e', 't', 'e']
}

impl DatabaseManual {
    /// A back end with no active package.
    pub fn new() -> (res: Self)
        ensures
            res.path@ == Seq::<char>::empty(),
    {
        DatabaseManual { path: String::new() }
    }

    /// A manual back end never has a database open.
    pub fn get_database(&self) -> (res: Result<(), NoDatabaseOpen>)
        ensures
            res is Err,
    {
        Err(NoDatabaseOpen)
    }

    /// Nothing to set up.
    pub fn setup(&self) -> (res: Result<String, DatabaseNotCompat>)
        ensures
            res matches Ok(s) && s@ == setup_complete_text(),
    {
        let s = String::from_str("Setup Complete");
        proof {
            reveal_strlit("Setup Complete");
        }
        Ok(s)
    }

    /// Makes `package` the active one.
    pub fn enable_cycle(&mut self, package: &PackageInfo) -> (res: Result<bool, DatabaseNotCompat>)
        ensures
            final(self).path@ == package.path@,
            res == Ok::<bool, DatabaseNotCompat>(true),
    {
        self.path = package.path.clone();
        Ok(true)
    }

    /// Nothing to close.
    pub fn disable_cycle(&mut self) -> (res: Result<bool, DatabaseNotCompat>)
        ensures
            final(self).path@ == old(self).path@,
            res == Ok::<bool, DatabaseNotCompat>(true),
    {
        Ok(true)
    }

    /// The cycle and the effective dates that the active package's cycle
    /// file gives: the cycle, and the dates before and after the `/` of the
    /// validity period.
    pub fn database_info_from_cycle(cycle: &InstalledNavigationDataCycleInfo) -> (res: (String, String, String))
        ensures
            res.0@ == cycle.cycle@,
            (res.1@, res.2@) == validity_parts(cycle.validity_period@),
    {
        let (from, to) = split_validity(cycle.validity_period.as_str());
        (cycle.cycle.clone(), from, to)
    }
}


/// Splitting `from/to` gives back `from` and `to` when neither holds a `/`.
pub proof fn lemma_validity_parts_of_joined(from: Seq<char>, to: Seq<char>)
    requires
        forall|i: int| 0 <= i < from.len() ==> from[i] != '/',
        forall|i: int| 0 <= i < to.len() ==> to[i] != '/',
    ensures
        validity_parts(from + seq!['/'] + to) == (from, to),
{
    let s = from + seq!['/'] + to;
    let n = from.len() as int;
    assert(s[n] == '/');
    assert forall|j: int| 0 <= j < n implies s[j] != '/' by {
        assert(s[j] == from[j]);
    }
    lemma_first_slash(s, n);
    let rest = s.skip(n + 1);
    assert(rest =~= to);
    assert(s.take(n) =~= from);
}

} // verus!
