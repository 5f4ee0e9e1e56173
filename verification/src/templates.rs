//! The pages of the service, as the values that their templates are filled
//! with. Rendering them to HTML is left to the caller.

use vstd::prelude::*;

verus! {

/// The start page: a form for a link or a file.
#[derive(Clone, Copy, Debug, PartialEq, Eq, Structural)]
pub struct IndexTemplate;

/// The page shown after a submission through the form.
#[derive(Debug)]
pub struct ResultTemplate {
    pub code: String,
    pub short_link: String,
    /// The QR image of the short link, where one was asked for and made.
    pub qr_svg: Option<String>,
}

/// The preview page of a shared image.
#[derive(Debug)]
pub struct ImageOgTemplate {
    /// The address of the image for link previews.
    pub og_image_url: String,
    /// The address of the image as the page shows it.
    pub full_image_url: String,
    /// The short link of the page itself.
    pub page_url: String,
    pub title: String,
    pub description: String,
}

/// The download page of a shared file that is not shown as an image.
#[derive(Debug)]
pub struct FileInfoTemplate {
    pub filename: String,
    pub file_url: String,
    pub mime: String,
    /// The short link of the page itself.
    pub page_url: String,
}

/// The login form of the administration.
#[derive(Clone, Copy, Debug, PartialEq, Eq, Structural)]
pub struct AdminLoginTemplate;

/// The start page of the administration.
#[derive(Clone, Copy, Debug, PartialEq, Eq, Structural)]
pub struct AdminHomeTemplate;

/// One row of the administration's list of entries.
#[derive(Debug)]
pub struct AdminItem {
    pub code: String,
    /// `url` or `file`.
    pub kind: String,
    pub value: String,
    pub created_at: i64,
    /// The media type of a stored file; `None` for an address.
    pub mime: Option<String>,
}

/// The administration's list of entries, newest first.
#[derive(Debug)]
pub struct AdminItemsTemplate {
    pub items: Vec<AdminItem>,
}

/// The text of `text`, where there is one.
pub open spec fn text_of(text: Option<String>) -> Option<Seq<char>> {
    match text {
        Some(t) => Some(t@),
        None => None,
    }
}

/// A result page as contracts see it.
pub struct ResultView {
    pub code: Seq<char>,
    pub short_link: Seq<char>,
    pub qr_svg: Option<Seq<char>>,
}

impl View for ResultTemplate {
    type V = ResultView;

    open spec fn view(&self) -> ResultView {
        ResultView {
            code: self.code@,
            short_link: self.short_link@,
            qr_svg: text_of(self.qr_svg),
        }
    }
}

/// A preview page as contracts see it.
pub struct ImageOgView {
    pub og_image_url: Seq<char>,
    pub full_image_url: Seq<char>,
    pub page_url: Seq<char>,
    pub title: Seq<char>,
    pub description: Seq<char>,
}

impl View for ImageOgTemplate {
    type V = ImageOgView;

    open spec fn view(&self) -> ImageOgView {
        ImageOgView {
            og_image_url: self.og_image_url@,
            full_image_url: self.full_image_url@,
            page_url: self.page_url@,
            title: self.title@,
            description: self.description@,
        }
    }
}

/// A download page as contracts see it.
pub struct FileInfoView {
    pub filename: Seq<char>,
    pub file_url: Seq<char>,
    pub mime: Seq<char>,
    pub page_url: Seq<char>,
}

impl View for FileInfoTemplate {
    type V = FileInfoView;

    open spec fn view(&self) -> FileInfoView {
        FileInfoView {
            filename: self.filename@,
            file_url: self.file_url@,
            mime: self.mime@,
            page_url: self.page_url@,
        }
    }
}

/// A row of the list of entries as contracts see it.
pub struct AdminItemView {
    pub code: Seq<char>,
    pub kind: Seq<char>,
    pub value: Seq<char>,
    pub created_at: int,
    pub mime: Option<Seq<char>>,
}

impl View for AdminItem {
    type V = AdminItemView;

    open spec fn view(&self) -> AdminItemView {
        AdminItemView {
            code: self.code@,
            kind: self.kind@,
            value: self.value@,
            created_at: self.created_at as int,
            mime: text_of(self.mime),
        }
    }
}

/// The views of the rows of `rows`, in order.
pub open spec fn row_views(rows: Seq<AdminItem>) -> Seq<AdminItemView> {
    Seq::new(rows.len(), |i: int| rows[i]@)
}

impl View for AdminItemsTemplate {
    type V = Seq<AdminItemView>;

    open spec fn view(&self) -> Seq<AdminItemView> {
        row_views(self.items@)
    }
}

/// A page as contracts see it.
pub enum PageView {
    Index,
    Result(ResultView),
    ImageOg(ImageOgView),
    FileInfo(FileInfoView),
    AdminLogin,
    AdminHome,
    AdminItems(Seq<AdminItemView>),
}

impl View for Page {
    type V = PageView;

    open spec fn view(&self) -> PageView {
        match self {
            Page::Index(_) => PageView::Index,
            Page::Result(p) => PageView::Result(p@),
            Page::ImageOg(p) => PageView::ImageOg(p@),
            Page::FileInfo(p) => PageView::FileInfo(p@),
            Page::AdminLogin(_) => PageView::AdminLogin,
            Page::AdminHome(_) => PageView::AdminHome,
            Page::AdminItems(p) => PageView::AdminItems(p@),
        }
    }
}

/// A page of the service.
#[derive(Debug)]
pub enum Page {
    Index(IndexTemplate),
    Result(ResultTemplate),
    ImageOg(ImageOgTemplate),
    FileInfo(FileInfoTemplate),
    AdminLogin(AdminLoginTemplate),
    AdminHome(AdminHomeTemplate),
    AdminItems(AdminItemsTemplate),
}

} // verus!
