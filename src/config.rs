//! The description of a songbook: which pages go before and after the songs,
//! which songs it holds, and how the result is laid out for printing.
use crate::layout::{impose_plan, grid_of, placement_of, sheet_separators, ImposePlan, PageSize};
use crate::tile::ImposeError;
use vstd::prelude::*;

verus! {

/// A page of free text before or after the songs.
#[derive(Debug, Clone, PartialEq, Eq)]
pub struct Preface {
    pub title: String,
    pub body: String,
}

impl Default for Preface {
    fn default() -> (r: Self)
        ensures
            r.title@ == "Formáli"@,
            r.body@ == ""@,
    {
        Preface { title: "Formáli".to_owned(), body: "".to_owned() }
    }
}

/// The order in which the table of contents lists the songs.
#[derive(Debug, Clone, Copy, PartialEq, Eq, Structural)]
pub enum TableOfContentsSortOrder {
    Alphabetical,
    SongNumber,
}

impl TableOfContentsSortOrder {
    /// The name shown to the user (in Icelandic).
    pub fn label(self) -> (r: &'static str)
        ensures
            r@ == match self {
                TableOfContentsSortOrder::SongNumber => "Laganúmer"@,
                TableOfContentsSortOrder::Alphabetical => "Stafrófsröð"@,
            },
    {
        match self {
            TableOfContentsSortOrder::SongNumber => "Laganúmer",
            TableOfContentsSortOrder::Alphabetical => "Stafrófsröð",
        }
    }
}

/// A page listing the songs of the book.
#[derive(Debug, Clone, PartialEq, Eq)]
pub struct TableOfContents {
    pub title: String,
    pub order: TableOfContentsSortOrder,
}

impl Default for TableOfContents {
    fn default() -> (r: Self)
        ensures
            r.title@ == "Efnisyfirlit"@,
            r.order == TableOfContentsSortOrder::SongNumber,
    {
        TableOfContents { title: "Efnisyfirlit".to_owned(), order: TableOfContentsSortOrder::SongNumber }
    }
}

/// The title page of the book.
#[derive(Debug, Clone, PartialEq, Eq)]
pub struct FrontPage {
    pub title: String,
    pub version: String,
}

impl Default for FrontPage {
    fn default() -> (r: Self)
        ensures
            r.title@ == "Þín Skáta Söngbók"@,
            r.version@ == "0.1.0"@,
    {
        FrontPage { title: "Þín Skáta Söngbók".to_owned(), version: "0.1.0".to_owned() }
    }
}

/// A page that is not a song.
#[derive(Debug, Clone, PartialEq, Eq)]
pub enum Page {
    Preface(Preface),
    TableOfContents(TableOfContents),
    FrontPage(FrontPage),
}

/// A song: its title, its verses, and the tags written after them, each a
/// key with its values, keys distinct, in the order of their first
/// appearance.
#[derive(Debug, Clone, PartialEq, Eq)]
pub struct Song {
    pub title: String,
    pub body: Vec<String>,
    pub tags: Vec<(String, Vec<String>)>,
}

impl Song {
    /// The text by which the song is shown: its title.
    pub fn label(&self) -> (r: String)
        ensures
            r@ == self.title@,
    {
        self.title.clone()
    }
}

/// The padding, in percent of the sheet, that a book leaves by default.
pub fn default_padding() -> (r: u8)
    ensures
        r == 10,
{
    10
}

/// Separator lines are drawn by default.
pub fn default_add_separator() -> (r: bool)
    ensures
        r,
{
    true
}

/// By default eight pages go on each sheet.
pub fn default_tiled_page_size() -> (r: PageSize)
    ensures
        r == PageSize::A7,
{
    PageSize::A7
}

/// Pages are reordered for folding unless the configuration file says not to.
pub fn true_func() -> (r: bool)
    ensures
        r,
{
    true
}

/// Everything needed to make a songbook.
#[derive(Debug, Clone, PartialEq, Eq)]
pub struct BookConfig {
    pub front_pages: Vec<Page>,
    pub back_pages: Vec<Page>,
    pub songs: Vec<Song>,
    pub preferred_font: String,
    pub reorder_pages: bool,
    /// The margin left around each sheet's content, in percent.
    pub padding: u8,
    pub add_separator: bool,
    pub tiled_page_size: PageSize,
}

impl Default for BookConfig {
    fn default() -> (r: Self)
        ensures
            r.front_pages@.len() == 0,
            r.back_pages@.len() == 0,
            r.songs@.len() == 0,
            r.preferred_font@ == "Arial"@,
            r.reorder_pages,
            r.padding == 10,
            r.add_separator,
            r.tiled_page_size == PageSize::A7,
    {
        BookConfig {
            front_pages: Vec::new(),
            back_pages: Vec::new(),
            songs: Vec::new(),
            preferred_font: "Arial".to_owned(),
            reorder_pages: true,
            padding: default_padding(),
            add_separator: default_add_separator(),
            tiled_page_size: default_tiled_page_size(),
        }
    }
}

/// One separately rendered part of a book.
#[derive(Debug, Clone, Copy, PartialEq, Eq, Structural)]
pub enum BookPart {
    /// The front page at this position.
    Front(usize),
    /// All the songs, in one sequence of pages.
    Songs,
    /// The back page at this position.
    Back(usize),
}

/// The parts of a book in print order: the front pages, the songs if there
/// are any, then the back pages.
pub open spec fn book_parts_of(front: nat, has_songs: bool, back: nat) -> Seq<BookPart> {
    Seq::new(front, |i: int| BookPart::Front(i as usize)) + (if has_songs {
        seq![BookPart::Songs]
    } else {
        Seq::empty()
    }) + Seq::new(back, |i: int| BookPart::Back(i as usize))
}

impl BookConfig {
    /// The parts to render, in the order their pages go into the book.
    pub fn book_parts(&self) -> (r: Vec<BookPart>)
        ensures
            r@ == book_parts_of(self.front_pages@.len(), self.songs@.len() > 0, self.back_pages@.len()),
    {
        let ghost expected = book_parts_of(self.front_pages@.len(), self.songs@.len() > 0, self.back_pages@.len());
        let nf = self.front_pages.len();
        let nb = self.back_pages.len();
        let mut parts: Vec<BookPart> = Vec::new();
        let mut i: usize = 0;
        while i < nf
            invariant
                nf == self.front_pages@.len(),
                i <= nf,
                parts@ =~= Seq::new(i as nat, |k: int| BookPart::Front(k as usize)),
            decreases nf - i,
        {
            parts.push(BookPart::Front(i));
            i += 1;
        }
        if self.songs.len() > 0 {
            parts.push(BookPart::Songs);
        }
        let ghost middle = parts@;
        let mut j: usize = 0;
        while j < nb
            invariant
                nb == self.back_pages@.len(),
                j <= nb,
                parts@ =~= middle + Seq::new(j as nat, |k: int| BookPart::Back(k as usize)),
            decreases nb - j,
        {
            parts.push(BookPart::Back(j));
            j += 1;
        }
        proof {
            assert(parts@ =~= expected);
        }
        parts
    }

    /// How each sheet of this book is laid out: its granularity, its
    /// separators, and a scaling factor of `1 - padding / 100`. A padding of
    /// a hundred percent or more leaves no room for the content.
    pub fn impose_plan(&self) -> (r: Result<ImposePlan, ImposeError>)
        ensures
            self.padding >= 100 <==> r is Err,
            r matches Err(e) ==> e == ImposeError::Geometry,
            r matches Ok(p) ==> p.grid == grid_of(self.tiled_page_size)
                && p.separators@ == sheet_separators(grid_of(self.tiled_page_size), self.add_separator)
                && p.placement == placement_of((100 - self.padding) as u32, 100),
    {
        if self.padding >= 100 {
            return Err(ImposeError::Geometry);
        }
        impose_plan(self.tiled_page_size, (100 - self.padding) as u32, 100, self.add_separator)
    }
}

/// The settings that a configuration file gives; the songs come separately.
#[derive(Debug, Clone, PartialEq, Eq)]
pub struct FileBookConfig {
    pub front_pages: Vec<Page>,
    pub back_pages: Vec<Page>,
    pub preferred_font: String,
    pub reorder_pages: bool,
}

impl FileBookConfig {
    /// The book that these settings describe with the given songs, and the
    /// default layout.
    pub fn into_book(self, songs: Vec<Song>) -> (r: BookConfig)
        ensures
            r.front_pages == self.front_pages,
            r.back_pages == self.back_pages,
            r.preferred_font == self.preferred_font,
            r.reorder_pages == self.reorder_pages,
            r.songs == songs,
            r.padding == 10,
            r.add_separator,
            r.tiled_page_size == PageSize::A7,
    {
        BookConfig {
            front_pages: self.front_pages,
            back_pages: self.back_pages,
            songs,
            preferred_font: self.preferred_font,
            reorder_pages: self.reorder_pages,
            padding: default_padding(),
            add_separator: default_add_separator(),
            tiled_page_size: default_tiled_page_size(),
        }
    }
}

} // verus!
