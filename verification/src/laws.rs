//! What holds of the registry as a whole: laws that relate the store, the
//! upload pipeline and the resolver.

use vstd::prelude::*;
use crate::entry::{EntryKind, EntryView};
use crate::files::{
    allowed, allowed_extensions, declared_extension, displayable, last_component,
    lemma_last_index_found, lemma_last_index_none, name_extension, path_extension,
    path_file_name, trimmed_path,
};
use crate::ids::{is_alphanumeric, is_hyphenated_id};
use crate::links::file_url_of;
use crate::resolve::{download_page, prefers_html, preview_page, resolution, Resolution};
use crate::store::{
    find, has_code, lemma_with_entry, lemma_without_code, newest_first, unique_codes,
    without_code,
};
use crate::submit::{new_entry, registered, SubmitError};
use crate::text::{lower, lowered};
use crate::upload::storage_name;

verus! {

/// `s` is not empty and holds letters and digits of ASCII only.
pub open spec fn plain(s: Seq<char>) -> bool {
    s.len() > 0 && forall|i: int| 0 <= i < s.len() ==> is_alphanumeric(#[trigger] s[i])
}

proof fn lemma_list_is_plain()
    ensures
        forall|i: int|
            0 <= i < allowed_extensions().len() ==> plain(#[trigger] allowed_extensions()[i]),
{
    reveal_strlit("jpg");
    reveal_strlit("jpeg");
    reveal_strlit("png");
    reveal_strlit("gif");
    reveal_strlit("webp");
    reveal_strlit("svg");
    reveal_strlit("pdf");
    reveal_strlit("txt");
    reveal_strlit("md");
    reveal_strlit("csv");
    reveal_strlit("json");
    reveal_strlit("doc");
    reveal_strlit("docx");
    reveal_strlit("xls");
    reveal_strlit("xlsx");
    reveal_strlit("ppt");
    reveal_strlit("pptx");
    reveal_strlit("zip");
    reveal_strlit("tar");
    reveal_strlit("gz");
    reveal_strlit("rar");
    reveal_strlit("7z");
    reveal_strlit("mp3");
    reveal_strlit("mp4");
    reveal_strlit("mov");
    reveal_strlit("webm");
    assert(plain("jpg"@) && plain("jpeg"@) && plain("png"@) && plain("gif"@));
    assert(plain("webp"@) && plain("svg"@) && plain("pdf"@) && plain("txt"@));
    assert(plain("md"@) && plain("csv"@) && plain("json"@) && plain("doc"@));
    assert(plain("docx"@) && plain("xls"@) && plain("xlsx"@) && plain("ppt"@));
    assert(plain("pptx"@) && plain("zip"@) && plain("tar"@) && plain("gz"@));
    assert(plain("rar"@) && plain("7z"@) && plain("mp3"@) && plain("mp4"@));
    assert(plain("mov"@) && plain("webm"@));
}

/// An extension that may be uploaded holds letters and digits only: no
/// dot, no separator.
pub proof fn lemma_allowed_is_plain(ext: Seq<char>)
    requires
        allowed(ext),
    ensures
        plain(ext),
{
    lemma_list_is_plain();
    let i = choose|i: int|
        0 <= i < allowed_extensions().len() && lowered(ext) == #[trigger] allowed_extensions()[i];
    let small = allowed_extensions()[i];
    assert(plain(small));
    assert(ext.len() == small.len());
    assert forall|k: int| 0 <= k < ext.len() implies is_alphanumeric(#[trigger] ext[k]) by {
        assert(lowered(ext)[k] == lower(ext[k]));
        assert(is_alphanumeric(small[k]));
    }
}

/// The name under which an upload is stored is a plain file name: it holds
/// no separator, so it names nothing outside the storage directory, and its
/// extension is the one that was judged.
pub proof fn lemma_storage_name_is_flat(id: Seq<char>, declared: Seq<char>)
    requires
        is_hyphenated_id(id),
        allowed(declared_extension(declared)),
    ensures
        forall|i: int|
            0 <= i < storage_name(id, declared).len() ==> storage_name(id, declared)[i] != '/',
        path_file_name(storage_name(id, declared)) == Some(storage_name(id, declared)),
        path_extension(storage_name(id, declared)) == Some(declared_extension(declared)),
{
    let ext = declared_extension(declared);
    let name = storage_name(id, declared);
    lemma_allowed_is_plain(ext);
    assert(name.len() == 37 + ext.len());
    assert forall|i: int| 0 <= i < name.len() implies name[i] != '/' && (i != 36 ==> name[i]
        != '.') by {
        if i < 36 {
            assert(name[i] == id[i]);
        } else if i > 36 {
            assert(name[i] == ext[i - 37]);
            assert(is_alphanumeric(ext[i - 37]));
        }
    }
    assert(name[36] == '.');
    assert(name.last() == ext.last());
    assert(is_alphanumeric(ext[ext.len() - 1]));
    assert(trimmed_path(name) == name);
    lemma_last_index_none(name, '/');
    assert(name.skip(0) =~= name);
    assert(last_component(name) == name);
    lemma_last_index_found(name, '.', 36);
    assert(name.skip(37) =~= ext);
    assert(name != seq!['.', '.']) by {
        assert(seq!['.', '.'].len() == 2);
    }
    assert(name != seq!['.']) by {
        assert(seq!['.'].len() == 1);
    }
    assert(name_extension(name) == Some(ext));
}

/// Whatever is registered keeps the codes of the store unique, and is then
/// found under the code that it was given.
pub proof fn lemma_registered_is_found(
    before: Seq<EntryView>,
    after: Seq<EntryView>,
    code: Seq<char>,
    kind: EntryKind,
    value: Seq<char>,
    now: int,
)
    requires
        unique_codes(before),
        newest_first(before),
        registered(before, after, Ok(code), kind, value, now),
    ensures
        unique_codes(after),
        newest_first(after),
        find(after, code) == Some(new_entry(code, kind, value, now)),
        forall|other: Seq<char>| other != code ==> #[trigger] find(after, other) == find(before, other),
{
    lemma_with_entry(before, new_entry(code, kind, value, now));
}

/// A registration that gives up leaves the store as it was.
pub proof fn lemma_exhausted_changes_nothing(
    before: Seq<EntryView>,
    after: Seq<EntryView>,
    e: SubmitError,
    kind: EntryKind,
    value: Seq<char>,
    now: int,
)
    requires
        registered(before, after, Err(e), kind, value, now),
    ensures
        after == before,
        e == SubmitError::CodesExhausted,
{
}

/// An address that was registered is what its code redirects to, for
/// good, character for character, whatever the request prefers.
pub proof fn lemma_link_round_trip(
    before: Seq<EntryView>,
    after: Seq<EntryView>,
    code: Seq<char>,
    url: Seq<char>,
    now: int,
    accept: Seq<char>,
    base: Seq<char>,
)
    requires
        unique_codes(before),
        newest_first(before),
        registered(before, after, Ok(code), EntryKind::Url, url, now),
    ensures
        resolution(find(after, code), accept, base) == Resolution::RedirectPermanent(url),
{
    lemma_registered_is_found(before, after, code, EntryKind::Url, url, now);
}

/// A file that was taken and registered is reached under its code: the
/// answer is never "not found", and it names the address of the stored
/// file. An image is answered by its preview page or by the image itself,
/// any other file by its download page.
pub proof fn lemma_upload_round_trip(
    before: Seq<EntryView>,
    after: Seq<EntryView>,
    code: Seq<char>,
    id: Seq<char>,
    declared: Seq<char>,
    now: int,
    accept: Seq<char>,
    base: Seq<char>,
)
    requires
        unique_codes(before),
        newest_first(before),
        is_hyphenated_id(id),
        allowed(declared_extension(declared)),
        registered(before, after, Ok(code), EntryKind::File, storage_name(id, declared), now),
    ensures
        resolution(find(after, code), accept, base) == if displayable(
            declared_extension(declared),
        ) {
            if prefers_html(accept) {
                Resolution::RenderPreview(preview_page(code, storage_name(id, declared), base))
            } else {
                Resolution::RedirectPermanent(file_url_of(base, storage_name(id, declared)))
            }
        } else {
            Resolution::RenderFileInfo(
                download_page(
                    code,
                    storage_name(id, declared),
                    declared_extension(declared),
                    base,
                ),
            )
        },
{
    lemma_registered_is_found(
        before,
        after,
        code,
        EntryKind::File,
        storage_name(id, declared),
        now,
    );
    lemma_storage_name_is_flat(id, declared);
}

/// Once an entry is deleted, its code is not found, whatever it stood for;
/// every other code resolves as before.
pub proof fn lemma_deleted_is_not_found(
    items: Seq<EntryView>,
    code: Seq<char>,
    accept: Seq<char>,
    base: Seq<char>,
)
    requires
        unique_codes(items),
        newest_first(items),
    ensures
        !has_code(without_code(items, code), code),
        resolution(find(without_code(items, code), code), accept, base) == Resolution::NotFound,
        forall|other: Seq<char>|
            other != code ==> #[trigger] resolution(
                find(without_code(items, other), code),
                accept,
                base,
            ) == resolution(find(items, code), accept, base),
{
    lemma_without_code(items, code);
    assert forall|other: Seq<char>| other != code implies #[trigger] resolution(
        find(without_code(items, other), code),
        accept,
        base,
    ) == resolution(find(items, code), accept, base) by {
        lemma_without_code(items, other);
    }
}

} // verus!
