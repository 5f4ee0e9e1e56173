//! The upload pipeline: which files are taken, under which name they are
//! stored, and how many bytes of them.
//!
//! The pipeline decides; the caller moves the bytes. A caller creates the
//! file that `Upload::begin` names, asks `accept_chunk` before it writes each
//! chunk, and removes the file as soon as a step is refused or a write fails.

use vstd::prelude::*;
use crate::fault::Fault;
use crate::files::{allowed, declared_extension, extension_or_bin, is_allowed_extension};
use crate::ids::{generate_file_id, is_hyphenated_id};
use crate::text::{from_chars, push_str, to_chars};

verus! {

/// The largest upload that the service takes: 1 GiB.
pub const MAX_FILE_SIZE: usize = 0x4000_0000;

/// Why an upload was refused.
#[derive(Debug, PartialEq, Eq)]
pub enum Rejection {
    /// The declared name has an extension that may not be uploaded. It holds
    /// that extension.
    ExtensionNotAllowed(String),
    /// The upload is larger than the limit.
    TooLarge,
    /// A directory or file could not be made or written.
    Storage,
}

impl Rejection {
    /// A refused extension or size is the client's fault, a failed write
    /// the server's.
    pub open spec fn fault_of(&self) -> Fault {
        match self {
            Rejection::ExtensionNotAllowed(_) => Fault::Client,
            Rejection::TooLarge => Fault::Client,
            Rejection::Storage => Fault::Server,
        }
    }

    /// Whose fault the refusal is.
    pub fn fault(&self) -> (f: Fault)
        ensures
            f == self.fault_of(),
    {
        match self {
            Rejection::ExtensionNotAllowed(_) => Fault::Client,
            Rejection::TooLarge => Fault::Client,
            Rejection::Storage => Fault::Server,
        }
    }
}

/// A file that was taken and stored.
#[derive(Debug)]
pub struct StoredFile {
    /// The name under which the file is stored: never the declared one.
    pub generated_name: String,
}

/// The name under which an upload is stored: the identifier, a dot, and the
/// extension of the declared name.
pub open spec fn storage_name(id: Seq<char>, declared: Seq<char>) -> Seq<char> {
    id + seq!['.'] + declared_extension(declared)
}

/// The bytes taken after one more chunk of `len` bytes, or `None` where the
/// chunk would pass the limit.
pub open spec fn after_chunk(written: nat, len: nat, max_bytes: nat) -> Option<nat> {
    if written + len <= max_bytes {
        Some(written + len)
    } else {
        None
    }
}

/// The bytes taken after the chunks of `lens`, one after another, or `None`
/// where one of them passes the limit.
pub open spec fn after_chunks(written: nat, lens: Seq<nat>, max_bytes: nat) -> Option<nat>
    decreases lens.len(),
{
    if lens.len() == 0 {
        Some(written)
    } else {
        match after_chunk(written, lens[0], max_bytes) {
            Some(w) => after_chunks(w, lens.drop_first(), max_bytes),
            None => None,
        }
    }
}

/// The sum of `lens`.
pub open spec fn total(lens: Seq<nat>) -> nat
    decreases lens.len(),
{
    if lens.len() == 0 {
        0
    } else {
        lens[0] + total(lens.drop_first())
    }
}

/// However an upload is cut into chunks, it is taken whole if and only if
/// its size is within the limit.
pub proof fn lemma_taken_iff_within_limit(written: nat, lens: Seq<nat>, max_bytes: nat)
    requires
        written <= max_bytes,
    ensures
        written + total(lens) <= max_bytes ==> after_chunks(written, lens, max_bytes) == Some(
            written + total(lens),
        ),
        written + total(lens) > max_bytes ==> after_chunks(written, lens, max_bytes) is None,
    decreases lens.len(),
{
    if lens.len() > 0 {
        if written + lens[0] <= max_bytes {
            lemma_taken_iff_within_limit(written + lens[0], lens.drop_first(), max_bytes);
        }
    }
}

/// At the boundary: an upload of exactly the limit is taken, one byte more
/// is refused.
pub proof fn lemma_size_boundary(lens: Seq<nat>, max_bytes: nat)
    ensures
        total(lens) == max_bytes ==> after_chunks(0, lens, max_bytes) == Some(max_bytes),
        total(lens) == max_bytes + 1 ==> after_chunks(0, lens, max_bytes) is None,
{
    lemma_taken_iff_within_limit(0, lens, max_bytes);
}

/// An upload in progress.
#[derive(Debug)]
pub struct Upload {
    name: String,
    written: usize,
    max_bytes: usize,
}

impl Upload {
    /// The name under which the upload is stored.
    pub closed spec fn stored_name(&self) -> Seq<char> {
        self.name@
    }

    /// The bytes taken so far.
    pub closed spec fn taken(&self) -> nat {
        self.written as nat
    }

    /// The most bytes that the upload may have.
    pub closed spec fn limit(&self) -> nat {
        self.max_bytes as nat
    }

    /// The invariant of an upload: it never holds more than its limit.
    pub open spec fn wf(&self) -> bool {
        self.taken() <= self.limit()
    }

    /// Begins an upload whose storage name is built from `id`. A declared
    /// name whose extension may not be uploaded is refused, before anything
    /// is stored.
    pub fn begin_with_id(declared_filename: &str, id: &str, max_bytes: usize) -> (r: Result<
        Upload,
        Rejection,
    >)
        ensures
            match r {
                Ok(u) => allowed(declared_extension(declared_filename@)) && u.wf()
                    && u.stored_name() == storage_name(id@, declared_filename@) && u.taken() == 0
                    && u.limit() == max_bytes,
                Err(Rejection::ExtensionNotAllowed(ext)) => !allowed(
                    declared_extension(declared_filename@),
                ) && ext@ == declared_extension(declared_filename@),
                Err(_) => false,
            },
    {
        let ext = extension_or_bin(declared_filename);
        if !is_allowed_extension(ext.as_str()) {
            return Err(Rejection::ExtensionNotAllowed(ext));
        }
        let mut name = to_chars(id);
        name.push('.');
        push_str(&mut name, ext.as_str());
        Ok(Upload { name: from_chars(&name), written: 0, max_bytes })
    }

    /// Begins an upload under a fresh random storage name. The declared
    /// name gives the extension and nothing else.
    pub fn begin(declared_filename: &str, max_bytes: usize) -> (r: Result<Upload, Rejection>)
        ensures
            match r {
                Ok(u) => allowed(declared_extension(declared_filename@)) && u.wf() && u.taken()
                    == 0 && u.limit() == max_bytes && exists|id: Seq<char>|
                    is_hyphenated_id(id) && u.stored_name() == #[trigger] storage_name(
                        id,
                        declared_filename@,
                    ),
                Err(Rejection::ExtensionNotAllowed(ext)) => !allowed(
                    declared_extension(declared_filename@),
                ) && ext@ == declared_extension(declared_filename@),
                Err(_) => false,
            },
    {
        let id = generate_file_id();
        let r = Upload::begin_with_id(declared_filename, id.as_str(), max_bytes);
        proof {
            if r is Ok {
                assert(r->Ok_0.stored_name() == storage_name(id@, declared_filename@));
            }
        }
        r
    }

    /// The name under which the upload is stored.
    pub fn name(&self) -> (n: &str)
        ensures
            n@ == self.stored_name(),
    {
        self.name.as_str()
    }

    /// The bytes taken so far.
    pub fn written(&self) -> (n: usize)
        ensures
            n == self.taken(),
    {
        self.written
    }

    /// Decides on the next chunk, of `len` bytes, before it is written. A
    /// chunk that would pass the limit is refused and the upload with it:
    /// the caller removes what was written.
    pub fn accept_chunk(&mut self, len: usize) -> (r: Result<(), Rejection>)
        requires
            old(self).wf(),
        ensures
            final(self).wf(),
            final(self).stored_name() == old(self).stored_name(),
            final(self).limit() == old(self).limit(),
            match r {
                Ok(()) => after_chunk(old(self).taken(), len as nat, old(self).limit()) == Some(
                    final(self).taken(),
                ),
                Err(e) => e == Rejection::TooLarge && after_chunk(
                    old(self).taken(),
                    len as nat,
                    old(self).limit(),
                ) is None && final(self).taken() == old(self).taken(),
            },
    {
        if len > self.max_bytes - self.written {
            return Err(Rejection::TooLarge);
        }
        self.written = self.written + len;
        Ok(())
    }

    /// Ends the upload: the file is stored under its generated name.
    pub fn finish(self) -> (f: StoredFile)
        ensures
            f.generated_name@ == self.stored_name(),
    {
        StoredFile { generated_name: self.name }
    }
}

/// Decides on an upload that is held in memory as a whole, of `size` bytes,
/// with a storage name built from `id`. The extension is judged first.
pub fn accept_whole_with_id(declared_filename: &str, id: &str, size: usize, max_bytes: usize) -> (r:
    Result<StoredFile, Rejection>)
    ensures
        match r {
            Ok(f) => allowed(declared_extension(declared_filename@)) && size <= max_bytes
                && f.generated_name@ == storage_name(id@, declared_filename@),
            Err(Rejection::ExtensionNotAllowed(ext)) => !allowed(
                declared_extension(declared_filename@),
            ) && ext@ == declared_extension(declared_filename@),
            Err(Rejection::TooLarge) => allowed(declared_extension(declared_filename@)) && size
                > max_bytes,
            Err(Rejection::Storage) => false,
        },
{
    let mut upload = match Upload::begin_with_id(declared_filename, id, max_bytes) {
        Ok(u) => u,
        Err(e) => {
            return Err(e);
        },
    };
    match upload.accept_chunk(size) {
        Ok(()) => Ok(upload.finish()),
        Err(e) => Err(e),
    }
}

/// Decides on an upload that is held in memory as a whole, of `size` bytes,
/// under a fresh random storage name.
pub fn accept_whole(declared_filename: &str, size: usize, max_bytes: usize) -> (r: Result<
    StoredFile,
    Rejection,
>)
    ensures
        match r {
            Ok(f) => allowed(declared_extension(declared_filename@)) && size <= max_bytes
                && exists|id: Seq<char>|
                is_hyphenated_id(id) && f.generated_name@ == #[trigger] storage_name(
                    id,
                    declared_filename@,
                ),
            Err(Rejection::ExtensionNotAllowed(ext)) => !allowed(
                declared_extension(declared_filename@),
            ) && ext@ == declared_extension(declared_filename@),
            Err(Rejection::TooLarge) => allowed(declared_extension(declared_filename@)) && size
                > max_bytes,
            Err(Rejection::Storage) => false,
        },
{
    let id = generate_file_id();
    let r = accept_whole_with_id(declared_filename, id.as_str(), size, max_bytes);
    proof {
        if r is Ok {
            assert(r->Ok_0.generated_name@ == storage_name(id@, declared_filename@));
        }
    }
    r
}

} // verus!
