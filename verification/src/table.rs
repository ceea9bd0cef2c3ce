//! Struct attributes: recognising `from`, `table` and `crate`, and keeping
//! the first value given for each while reporting repetitions.
use vstd::prelude::*;
use crate::model::{TableAttributes, option_view, clone_option};
use crate::text::same_text;

verus! {

/// A struct attribute setting.
#[derive(Clone, Copy, Debug, PartialEq, Eq, Structural)]
pub enum TableKey {
    /// `from = "..."`
    From,
    /// `table = "..."`
    Table,
    /// `crate = "..."`
    Crate,
}

/// Which setting a struct attribute name denotes, if any.
pub open spec fn spec_table_key(name: Seq<char>) -> Option<TableKey> {
    if name == "from"@ {
        Some(TableKey::From)
    } else if name == "table"@ {
        Some(TableKey::Table)
    } else if name == "crate"@ {
        Some(TableKey::Crate)
    } else {
        None
    }
}

/// Classifies a struct attribute name.
pub fn table_key(name: &str) -> (res: Option<TableKey>)
    ensures
        res == spec_table_key(name@),
{
    if same_text(name, "from") {
        Some(TableKey::From)
    } else if same_text(name, "table") {
        Some(TableKey::Table)
    } else if same_text(name, "crate") {
        Some(TableKey::Crate)
    } else {
        None
    }
}

/// The text of the error for a struct attribute name that is not a setting.
pub fn unknown_table_key_message() -> (res: String)
    ensures
        res@ == "supported fields are `from`, `table`, and `crate`"@,
{
    String::from_str("supported fields are `from`, `table`, and `crate`")
}

/// Whether `syn` parses the text as a path.
pub uninterp spec fn parses_as_path(text: Seq<char>) -> bool;

/// Calls `syn::parse_str::<syn::Path>` and reports whether it succeeded;
/// the contract claims only that the answer depends on the text alone.
#[verifier::external_body]
fn is_path(text: &str) -> (res: bool)
    ensures
        res == parses_as_path(text@),
{
    syn::parse_str::<syn::Path>(text).is_ok()
}

/// A setting given a second time: its key and the positions of both occurrences.
#[derive(Clone, Copy, Debug, PartialEq, Eq, Structural)]
pub struct Repetition {
    pub key: TableKey,
    pub first: usize,
    pub repeated: usize,
}

/// Why a struct attribute setting was refused outright.
#[derive(Clone, Copy, Debug, PartialEq, Eq, Structural)]
pub enum TableAttributeError {
    /// The `crate` value does not parse as a path.
    InvalidCratePath,
}

/// Collects struct attribute settings in the order they are written.
pub struct TableAttributeCollector {
    pub from: Option<(String, usize)>,
    pub table: Option<(String, usize)>,
    pub crate_path: Option<(String, usize)>,
    pub repetitions: Vec<Repetition>,
}

/// The first value and position recorded for a key.
pub open spec fn slot(c: TableAttributeCollector, key: TableKey) -> Option<(Seq<char>, usize)> {
    let s = match key {
        TableKey::From => c.from,
        TableKey::Table => c.table,
        TableKey::Crate => c.crate_path,
    };
    match s {
        Some((v, p)) => Some((v@, p)),
        None => None,
    }
}

/// The outcome of accepting `(key, value)` at `position` in state `c`:
/// the value is kept when the key is new, otherwise the repetition is recorded.
pub open spec fn accepted(
    c: TableAttributeCollector,
    key: TableKey,
    value: Seq<char>,
    position: usize,
    d: TableAttributeCollector,
) -> bool {
    &&& forall|k: TableKey| k != key ==> slot(d, k) == slot(c, k)
    &&& match slot(c, key) {
        None => {
            &&& slot(d, key) == Some((value, position))
            &&& d.repetitions@ == c.repetitions@
        },
        Some((_, first)) => {
            &&& slot(d, key) == slot(c, key)
            &&& d.repetitions@ == c.repetitions@.push(
                Repetition { key, first, repeated: position },
            )
        },
    }
}

impl TableAttributeCollector {
    /// A collector that has seen no setting.
    pub fn new() -> (res: Self)
        ensures
            forall|k: TableKey| slot(res, k) is None,
            res.repetitions@.len() == 0,
    {
        TableAttributeCollector { from: None, table: None, crate_path: None, repetitions: Vec::new() }
    }

    /// Accepts the setting `key = value` written at `position`.
    ///
    /// A `crate` value that is not a path is refused and changes nothing.
    /// Otherwise the first value of each key is kept and every later
    /// occurrence is recorded as a repetition of the first.
    pub fn accept(&mut self, key: TableKey, value: String, position: usize) -> (res: Result<
        (),
        TableAttributeError,
    >)
        ensures
            key == TableKey::Crate && !parses_as_path(value@) ==> {
                &&& res == Err::<(), TableAttributeError>(TableAttributeError::InvalidCratePath)
                &&& *final(self) == *old(self)
            },
            !(key == TableKey::Crate && !parses_as_path(value@)) ==> {
                &&& res is Ok
                &&& accepted(*old(self), key, value@, position, *final(self))
            },
    {
        if key == TableKey::Crate && !is_path(value.as_str()) {
            return Err(TableAttributeError::InvalidCratePath);
        }
        let existing = match key {
            TableKey::From => &self.from,
            TableKey::Table => &self.table,
            TableKey::Crate => &self.crate_path,
        };
        match existing {
            Some((_, first)) => {
                let first = *first;
                self.repetitions.push(Repetition { key, first, repeated: position });
            },
            None => {
                match key {
                    TableKey::From => self.from = Some((value, position)),
                    TableKey::Table => self.table = Some((value, position)),
                    TableKey::Crate => self.crate_path = Some((value, position)),
                }
            },
        }
        Ok(())
    }

    /// The collected settings, or every repetition when any key was given twice.
    pub fn finish(&self) -> (res: Result<TableAttributes, Vec<Repetition>>)
        ensures
            self.repetitions@.len() > 0 ==> (res matches Err(r) && r@ == self.repetitions@),
            self.repetitions@.len() == 0 ==> (res matches Ok(t) && {
                &&& option_view(t.from) == first_value(*self, TableKey::From)
                &&& option_view(t.table) == first_value(*self, TableKey::Table)
                &&& option_view(t.crate_path) == first_value(*self, TableKey::Crate)
            }),
    {
        if self.repetitions.len() > 0 {
            return Err(self.repetitions.clone());
        }
        Ok(TableAttributes {
            from: first_of(&self.from),
            table: first_of(&self.table),
            crate_path: first_of(&self.crate_path),
        })
    }
}

/// The value kept for a key, if any.
pub open spec fn first_value(c: TableAttributeCollector, key: TableKey) -> Option<Seq<char>> {
    match slot(c, key) {
        Some((v, _)) => Some(v),
        None => None,
    }
}

fn first_of(s: &Option<(String, usize)>) -> (res: Option<String>)
    ensures
        option_view(res) == match *s {
            Some((v, _)) => Some(v@),
            None => None,
        },
{
    match s {
        Some((v, _)) => Some(v.clone()),
        None => None,
    }
}

/// The name of a struct attribute setting.
pub open spec fn table_key_name(key: TableKey) -> Seq<char> {
    match key {
        TableKey::From => "from"@,
        TableKey::Table => "table"@,
        TableKey::Crate => "crate"@,
    }
}

impl Repetition {
    /// The diagnostic text: "`<name>` is specified multiple times".
    pub fn message(&self) -> (res: String)
        ensures
            res@ == "`"@ + table_key_name(self.key) + "` is specified multiple times"@,
    {
        let mut text = String::from_str("`");
        let name = match self.key {
            TableKey::From => "from",
            TableKey::Table => "table",
            TableKey::Crate => "crate",
        };
        text.append(name);
        text.append("` is specified multiple times");
        text
    }
}

} // verus!
