//! The resolver: from a short code and the request's `Accept` header to the
//! action that answers the request.

use vstd::prelude::*;
use crate::entry::{Entry, EntryKind, EntryView};
use crate::files::{
    displayable, extension, file_name, is_image_extension, path_extension, path_file_name,
};
use crate::links::{file_url, file_url_of, short_link, short_link_of};
use crate::mime::{media_type, media_type_of};
use crate::store::{find, MappingStore};
use crate::templates::{FileInfoTemplate, FileInfoView, ImageOgTemplate, ImageOgView};
use crate::text::{contains, lowercase, lowered, occurs_in, to_chars};

verus! {

/// How a request for a short code is answered.
#[derive(Debug)]
pub enum Action {
    /// A permanent redirect to the address.
    RedirectPermanent(String),
    /// The preview page of an image.
    RenderPreview(ImageOgTemplate),
    /// The download page of a file.
    RenderFileInfo(FileInfoTemplate),
    /// Nothing is known under the code.
    NotFound,
}

/// An action as contracts see it.
pub enum Resolution {
    RedirectPermanent(Seq<char>),
    RenderPreview(ImageOgView),
    RenderFileInfo(FileInfoView),
    NotFound,
}

impl View for Action {
    type V = Resolution;

    open spec fn view(&self) -> Resolution {
        match self {
            Action::RedirectPermanent(url) => Resolution::RedirectPermanent(url@),
            Action::RenderPreview(page) => Resolution::RenderPreview(page@),
            Action::RenderFileInfo(page) => Resolution::RenderFileInfo(page@),
            Action::NotFound => Resolution::NotFound,
        }
    }
}

/// The preview page of the stored image `stored`, reached under `code`.
pub open spec fn preview_page(code: Seq<char>, stored: Seq<char>, base: Seq<char>) -> ImageOgView {
    ImageOgView {
        og_image_url: file_url_of(base, stored),
        full_image_url: file_url_of(base, stored),
        page_url: short_link_of(base, code),
        title: "Shared Image"@,
        description: "Shared via 0.id.vn"@,
    }
}

/// The download page of the stored file `stored` of extension `ext`,
/// reached under `code`.
pub open spec fn download_page(code: Seq<char>, stored: Seq<char>, ext: Seq<char>, base: Seq<char>)
    -> FileInfoView {
    FileInfoView {
        filename: display_name(stored),
        file_url: file_url_of(base, stored),
        mime: media_type(ext),
        page_url: short_link_of(base, code),
    }
}

/// The request prefers HTML: its `Accept` header names `text/html`, in
/// letters of either case.
pub open spec fn prefers_html(accept: Seq<char>) -> bool {
    occurs_in(lowered(accept), "text/html"@)
}

/// The name under which a stored file is shown: its file name, or the
/// stored name itself where that has none.
pub open spec fn display_name(stored: Seq<char>) -> Seq<char> {
    match path_file_name(stored) {
        Some(name) => name,
        None => stored,
    }
}

/// The action for a stored file. A file without an extension is not found.
/// An image goes to its preview page where the request prefers HTML, and
/// straight to the image where it does not. Any other file goes to its
/// download page.
pub open spec fn file_resolution(
    code: Seq<char>,
    stored: Seq<char>,
    accept: Seq<char>,
    base: Seq<char>,
) -> Resolution {
    match path_extension(stored) {
        None => Resolution::NotFound,
        Some(ext) => if displayable(ext) {
            if prefers_html(accept) {
                Resolution::RenderPreview(preview_page(code, stored, base))
            } else {
                Resolution::RedirectPermanent(file_url_of(base, stored))
            }
        } else {
            Resolution::RenderFileInfo(download_page(code, stored, ext, base))
        },
    }
}

/// The action for what the store holds under a code.
pub open spec fn resolution(entry: Option<EntryView>, accept: Seq<char>, base: Seq<char>)
    -> Resolution {
    match entry {
        None => Resolution::NotFound,
        Some(e) => match e.kind {
            EntryKind::Url => Resolution::RedirectPermanent(e.value),
            EntryKind::File => file_resolution(e.code, e.value, accept, base),
        },
    }
}

/// Whether the request prefers HTML, as a browser's navigation does.
pub fn wants_html(accept: &str) -> (r: bool)
    ensures
        r == prefers_html(accept@),
{
    let a = lowercase(&to_chars(accept));
    contains(&a, &to_chars("text/html"))
}

/// The action that answers a request for `entry`.
pub fn resolve_entry(entry: Option<&Entry>, accept: &str, base_url: &str) -> (action: Action)
    ensures
        action@ == resolution(
            match entry {
                Some(e) => Some(e@),
                None => None,
            },
            accept@,
            base_url@,
        ),
{
    let e = match entry {
        None => {
            return Action::NotFound;
        },
        Some(e) => e,
    };
    match e.kind {
        EntryKind::Url => Action::RedirectPermanent(e.value.clone()),
        EntryKind::File => {
            let stored = e.value.as_str();
            let ext = match extension(stored) {
                None => {
                    return Action::NotFound;
                },
                Some(ext) => ext,
            };
            let image_url = file_url(base_url, stored);
            let page_url = short_link(base_url, e.code.as_str());
            if is_image_extension(ext.as_str()) {
                if !wants_html(accept) {
                    return Action::RedirectPermanent(image_url);
                }
                Action::RenderPreview(
                    ImageOgTemplate {
                        og_image_url: image_url.clone(),
                        full_image_url: image_url,
                        page_url,
                        title: String::from_str("Shared Image"),
                        description: String::from_str("Shared via 0.id.vn"),
                    },
                )
            } else {
                let filename = match file_name(stored) {
                    Some(name) => name,
                    None => String::from_str(stored),
                };
                Action::RenderFileInfo(
                    FileInfoTemplate {
                        filename,
                        file_url: image_url,
                        mime: media_type_of(ext.as_str()),
                        page_url,
                    },
                )
            }
        },
    }
}

/// The action that answers a request for the short code `code`.
pub fn resolve(store: &MappingStore, code: &str, accept: &str, base_url: &str) -> (action: Action)
    requires
        store.wf(),
    ensures
        action@ == resolution(find(store.items(), code@), accept@, base_url@),
{
    resolve_entry(store.get(code), accept, base_url)
}

/// An address that was put in is what its code redirects to, whatever the
/// request prefers.
pub proof fn lemma_url_resolves_to_itself(entry: EntryView, accept: Seq<char>, base: Seq<char>)
    requires
        entry.kind == EntryKind::Url,
    ensures
        resolution(Some(entry), accept, base) == Resolution::RedirectPermanent(entry.value),
{
}

/// One image, two answers: the preview page for a request that prefers
/// HTML, the image itself for any other.
pub proof fn lemma_content_negotiation(
    entry: EntryView,
    ext: Seq<char>,
    accept: Seq<char>,
    base: Seq<char>,
)
    requires
        entry.kind == EntryKind::File,
        path_extension(entry.value) == Some(ext),
        displayable(ext),
    ensures
        prefers_html(accept) ==> resolution(Some(entry), accept, base)
            == Resolution::RenderPreview(preview_page(entry.code, entry.value, base)),
        !prefers_html(accept) ==> resolution(Some(entry), accept, base)
            == Resolution::RedirectPermanent(file_url_of(base, entry.value)),
{
}

} // verus!
