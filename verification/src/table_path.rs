//! Table paths and the rules for the names in them.

use vstd::prelude::*;
use vstd::utf8::encode_utf8;

use crate::text::same_text;

verus! {

/// The path of a table: the database it stands in and its own name.
#[derive(Debug, Clone, PartialEq, Eq)]
pub struct TablePath {
    pub database: String,
    pub table: String,
}

impl View for TablePath {
    type V = (Seq<char>, Seq<char>);

    open spec fn view(&self) -> (Seq<char>, Seq<char>) {
        (self.database@, self.table@)
    }
}

/// The text of a path: the database, a dot and the table.
pub open spec fn path_text(path: (Seq<char>, Seq<char>)) -> Seq<char> {
    path.0 + "."@ + path.1
}

impl TablePath {
    /// The path of the table `table` in the database `database`.
    pub fn new(database: &str, table: &str) -> (path: TablePath)
        ensures
            path@ == (database@, table@),
    {
        TablePath { database: database.to_owned(), table: table.to_owned() }
    }

    /// A copy of the path.
    pub fn copy(&self) -> (path: TablePath)
        ensures
            path@ == self@,
    {
        TablePath { database: self.database.clone(), table: self.table.clone() }
    }

    /// The path as text.
    pub fn to_text(&self) -> (text: String)
        ensures
            text@ == path_text(self@),
    {
        self.database.clone().concat(".").concat(self.table.as_str())
    }

    /// Whether two paths name the same table.
    pub fn same(&self, other: &TablePath) -> (same: bool)
        ensures
            same == (self@ == other@),
    {
        same_text(self.database.as_str(), other.database.as_str()) && same_text(
            self.table.as_str(),
            other.table.as_str(),
        )
    }
}

/// Whether `c` may stand in the name of a database or a table.
pub open spec fn name_char(c: char) -> bool {
    ||| 'a' <= c <= 'z'
    ||| 'A' <= c <= 'Z'
    ||| '0' <= c <= '9'
    ||| c == '_'
    ||| c == '-'
}

/// Why `name` cannot name a database or a table; `None` where it can. A name has between one
/// and two hundred bytes, all of them ASCII letters, ASCII digits, `_` or `-`.
pub open spec fn invalid_name(name: Seq<char>) -> Option<Seq<char>> {
    if name.len() == 0 {
        Some("the empty string is not allowed"@)
    } else if name == "."@ {
        Some("'.' is not allowed"@)
    } else if name == ".."@ {
        Some("'..' is not allowed"@)
    } else if encode_utf8(name).len() > 200 {
        Some("the length of '"@ + name + "' is longer than the max allowed length 200"@)
    } else if !(forall|i: int| 0 <= i < name.len() ==> name_char(#[trigger] name[i])) {
        Some(
            "'"@ + name
                + "' contains one or more characters other than ASCII alphanumerics, '_' and '-'"@,
        )
    } else {
        None
    }
}

/// Whether `name` begins with the prefix of internal names.
pub open spec fn reserved_name(name: Seq<char>) -> bool {
    name.len() >= 2 && name[0] == '_' && name[1] == '_'
}

/// What is said of a name that begins with the prefix of internal names.
pub open spec fn reserved_reason() -> Seq<char> {
    "'__' is not allowed as prefix, since it is reserved for internal databases/internal tables/internal partitions in Fluss server"@
}

/// `TablePath::detect_invalid_name` of the Fluss client: says why `identifier` cannot name a
/// database or a table, or nothing where it can.
#[verifier::external_body]
pub(crate) fn detect_invalid_name(identifier: &str) -> (reason: Option<String>)
    ensures
        match reason {
            Some(text) => invalid_name(identifier@) == Some(text@),
            None => invalid_name(identifier@) is None,
        },
{
    fluss::metadata::TablePath::detect_invalid_name(identifier)
}

/// `TablePath::validate_prefix` of the Fluss client: says so where `identifier` begins with the
/// prefix of internal names.
#[verifier::external_body]
pub(crate) fn validate_prefix(identifier: &str) -> (reason: Option<String>)
    ensures
        reason is Some <==> reserved_name(identifier@),
        reason matches Some(text) ==> text@ == reserved_reason(),
{
    fluss::metadata::TablePath::validate_prefix(identifier)
}

} // verus!
