//! What the managers of stored data decide before and after they reach
//! for the database.

use vstd::prelude::*;
use vstd::string::StringExecFns;

use crate::error::Error;
use crate::text::{chars_equal, chars_of, find, lemma_find_from, occurs};

verus! {

/// The kinds of setting that are kept for a user.
#[derive(Debug, Clone, Copy, PartialEq, Eq, Structural)]
pub enum SettingType {
    Bind,
    Greeting,
    Farewell,
}

/// The kind of setting that `name` names.
pub open spec fn setting_named(name: Seq<char>) -> Option<SettingType> {
    if name == "bind"@ {
        Some(SettingType::Bind)
    } else if name == "greeting"@ {
        Some(SettingType::Greeting)
    } else if name == "farewell"@ {
        Some(SettingType::Farewell)
    } else {
        None
    }
}

/// The key under which a setting of a user is kept: the name of the user,
/// a colon, the name of the kind.
pub open spec fn setting_key(username: Seq<char>, kind: SettingType) -> Seq<char> {
    username + ":"@ + kind.name()
}

impl SettingType {
    /// The name of the kind.
    pub open spec fn name(self) -> Seq<char> {
        match self {
            SettingType::Bind => "bind"@,
            SettingType::Greeting => "greeting"@,
            SettingType::Farewell => "farewell"@,
        }
    }

    /// The name of the kind.
    pub fn as_str(&self) -> (name: &'static str)
        ensures
            name@ == self.name(),
    {
        match self {
            SettingType::Bind => "bind",
            SettingType::Greeting => "greeting",
            SettingType::Farewell => "farewell",
        }
    }

    /// The kind that `s` names.
    pub fn from_str(s: &str) -> (kind: Option<Self>)
        ensures
            kind == setting_named(s@),
    {
        let chars = chars_of(s);
        if chars_equal(&chars, "bind") {
            Some(SettingType::Bind)
        } else if chars_equal(&chars, "greeting") {
            Some(SettingType::Greeting)
        } else if chars_equal(&chars, "farewell") {
            Some(SettingType::Farewell)
        } else {
            None
        }
    }
}

/// The key under which the setting `kind` of `username` is kept.
pub fn setting_id(username: &str, kind: SettingType) -> (id: String)
    ensures
        id@ == setting_key(username@, kind),
{
    let mut id = String::from_str(username);
    id.append(":");
    id.append(kind.as_str());
    id
}

/// Whether `text` holds `pattern`.
pub fn contains(text: &str, pattern: &str) -> (found: bool)
    ensures
        found == occurs(text@, pattern@),
{
    let t = chars_of(text);
    let p = chars_of(pattern);
    proof {
        lemma_find_from(t@, p@, 0);
    }
    find(&t, &p, 0).is_some()
}

/// The error for an alias that could not be created, from what the
/// database says: a name that is taken is the fault of the caller.
pub fn alias_insert_error(name: &str, database_says: &str) -> (error: Error)
    ensures
        occurs(database_says@, "UNIQUE constraint failed"@) ==> error is InvalidArgument
            && error.message() == "Alias '"@ + name@ + "' already exists"@,
        !occurs(database_says@, "UNIQUE constraint failed"@) ==> error is DatabaseError
            && error.message() == "Failed to create alias: "@ + database_says@,
{
    if contains(database_says, "UNIQUE constraint failed") {
        let mut message = String::from_str("Alias '");
        message.append(name);
        message.append("' already exists");
        Error::InvalidArgument(message)
    } else {
        let mut message = String::from_str("Failed to create alias: ");
        message.append(database_says);
        Error::DatabaseError(message)
    }
}

/// What a failed creation of the table `table` comes to, from what the
/// database says: a table that exists already is no failure.
pub fn table_creation_result(table: &str, database_says: &str) -> (result: Result<(), Error>)
    ensures
        result is Ok <==> occurs(database_says@, "already exists"@),
        result matches Err(e) ==> e is DatabaseError && e.message() == "Failed to create "@
            + table@ + " table: "@ + database_says@,
{
    if contains(database_says, "already exists") {
        Ok(())
    } else {
        let mut message = String::from_str("Failed to create ");
        message.append(table);
        message.append(" table: ");
        message.append(database_says);
        Err(Error::DatabaseError(message))
    }
}

} // verus!
