//! The entries of the registry and the form in which they are persisted.

use vstd::prelude::*;
use crate::text::{from_chars, matches_at, occurs_at, push_str, same, slice, to_chars};

verus! {

/// What a short code stands for.
#[derive(Clone, Copy, Debug, PartialEq, Eq, Structural)]
pub enum EntryKind {
    /// An absolute address to which the code redirects.
    Url,
    /// A stored file, named by its generated storage name.
    File,
}

/// The payload of one short code.
#[derive(Debug)]
pub struct Entry {
    /// The short code; the key of the entry.
    pub code: String,
    /// Whether the entry stands for an address or for a stored file.
    pub kind: EntryKind,
    /// The target address, or the storage name of the file.
    pub value: String,
    /// The Unix time at which the entry was made.
    pub created_at: i64,
}

/// An entry as contracts see it.
pub struct EntryView {
    pub code: Seq<char>,
    pub kind: EntryKind,
    pub value: Seq<char>,
    pub created_at: int,
}

impl View for Entry {
    type V = EntryView;

    open spec fn view(&self) -> EntryView {
        EntryView {
            code: self.code@,
            kind: self.kind,
            value: self.value@,
            created_at: self.created_at as int,
        }
    }
}

/// The views of the entries of `entries`, in order.
pub open spec fn views(entries: Seq<Entry>) -> Seq<EntryView> {
    Seq::new(entries.len(), |i: int| entries[i]@)
}

impl Clone for Entry {
    fn clone(&self) -> (r: Self)
        ensures
            r == *self,
    {
        Entry {
            code: self.code.clone(),
            kind: self.kind,
            value: self.value.clone(),
            created_at: self.created_at,
        }
    }
}

/// The text under which a kind is persisted.
pub open spec fn kind_text(kind: EntryKind) -> Seq<char> {
    match kind {
        EntryKind::Url => "url"@,
        EntryKind::File => "file"@,
    }
}

/// The kind that a persisted text stands for, if any.
pub open spec fn kind_of_text(text: Seq<char>) -> Option<EntryKind> {
    if text == "url"@ {
        Some(EntryKind::Url)
    } else if text == "file"@ {
        Some(EntryKind::File)
    } else {
        None
    }
}

/// The text under which an entry's value is persisted: an address as it is,
/// a storage name behind `file:`.
pub open spec fn value_text(kind: EntryKind, value: Seq<char>) -> Seq<char> {
    match kind {
        EntryKind::Url => value,
        EntryKind::File => "file:"@ + value,
    }
}

/// The value that a persisted text stands for: for a file, the text without
/// a leading `file:`.
pub open spec fn value_of_text(kind: EntryKind, text: Seq<char>) -> Seq<char> {
    if kind == EntryKind::File && occurs_at(text, "file:"@, 0) {
        text.skip("file:"@.len() as int)
    } else {
        text
    }
}

impl EntryKind {
    /// The text under which this kind is persisted.
    pub fn as_text(&self) -> (r: &'static str)
        ensures
            r@ == kind_text(*self),
    {
        match self {
            EntryKind::Url => "url",
            EntryKind::File => "file",
        }
    }

    /// The kind that a persisted text stands for.
    pub fn from_text(text: &str) -> (r: Option<EntryKind>)
        ensures
            r == kind_of_text(text@),
    {
        let t = to_chars(text);
        if same(&t, &to_chars("url")) {
            Some(EntryKind::Url)
        } else if same(&t, &to_chars("file")) {
            Some(EntryKind::File)
        } else {
            None
        }
    }
}

impl Entry {
    /// An entry for the address `url`.
    pub fn url(code: String, url: String, created_at: i64) -> (e: Entry)
        ensures
            e@ == (EntryView {
                code: code@,
                kind: EntryKind::Url,
                value: url@,
                created_at: created_at as int,
            }),
    {
        Entry { code, kind: EntryKind::Url, value: url, created_at }
    }

    /// An entry for the stored file `name`.
    pub fn file(code: String, name: String, created_at: i64) -> (e: Entry)
        ensures
            e@ == (EntryView {
                code: code@,
                kind: EntryKind::File,
                value: name@,
                created_at: created_at as int,
            }),
    {
        Entry { code, kind: EntryKind::File, value: name, created_at }
    }

    /// The text under which the entry's value is persisted.
    pub fn persisted_value(&self) -> (r: String)
        ensures
            r@ == value_text(self.kind, self.value@),
    {
        match self.kind {
            EntryKind::Url => self.value.clone(),
            EntryKind::File => {
                let mut out = to_chars("file:");
                push_str(&mut out, self.value.as_str());
                from_chars(&out)
            },
        }
    }

    /// The entry that a persisted row stands for. A row of unknown kind
    /// stands for none.
    pub fn from_row(code: &str, kind: &str, value: &str, created_at: i64) -> (r: Option<Entry>)
        ensures
            match r {
                Some(e) => kind_of_text(kind@) == Some(e.kind) && e@ == (EntryView {
                    code: code@,
                    kind: e.kind,
                    value: value_of_text(e.kind, value@),
                    created_at: created_at as int,
                }),
                None => kind_of_text(kind@) is None,
            },
    {
        match EntryKind::from_text(kind) {
            None => None,
            Some(EntryKind::Url) => Some(
                Entry {
                    code: String::from_str(code),
                    kind: EntryKind::Url,
                    value: String::from_str(value),
                    created_at,
                },
            ),
            Some(EntryKind::File) => {
                let v = to_chars(value);
                let prefix = to_chars("file:");
                let name = if matches_at(&v, &prefix, 0) {
                    from_chars(&slice(&v, prefix.len(), v.len()))
                } else {
                    String::from_str(value)
                };
                Some(
                    Entry {
                        code: String::from_str(code),
                        kind: EntryKind::File,
                        value: name,
                        created_at,
                    },
                )
            },
        }
    }
}

/// A row written by `persisted_value` and `as_text` reads back as the entry
/// it was written from.
pub proof fn lemma_row_round_trip(kind: EntryKind, value: Seq<char>)
    ensures
        kind_of_text(kind_text(kind)) == Some(kind),
        value_of_text(kind, value_text(kind, value)) == value,
{
    reveal_strlit("url");
    reveal_strlit("file");
    reveal_strlit("file:");
    assert("url"@ != "file"@) by {
        assert("url"@.len() == 3);
        assert("file"@.len() == 4);
    }
    if kind == EntryKind::File {
        let t = "file:"@ + value;
        assert(t.subrange(0, 5) =~= "file:"@);
        assert(t.skip(5) =~= value);
    }
}

} // verus!
