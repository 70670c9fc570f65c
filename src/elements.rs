//! The state behind the pickers of the songbook editor.
use crate::config::Song;
use vstd::prelude::*;

verus! {

/// The picker that adds a song to the book: whether it is open, and the
/// songs it offers.
#[derive(Debug, Default)]
pub struct AddSong {
    available_songs: Vec<Song>,
    open: bool,
}

impl AddSong {
    /// The songs on offer.
    pub closed spec fn offered(&self) -> Seq<Song> {
        self.available_songs@
    }

    /// Whether the picker is shown.
    pub closed spec fn shown(&self) -> bool {
        self.open
    }

    /// Opens the picker on the songs that are available now.
    pub fn open(&mut self, available_songs: Vec<Song>)
        ensures
            final(self).shown(),
            final(self).offered() == available_songs@,
    {
        self.open = true;
        self.available_songs = available_songs;
    }

    /// Shows or hides the picker, keeping the songs on offer.
    pub fn set_open(&mut self, open: bool)
        ensures
            final(self).shown() == open,
            final(self).offered() == old(self).offered(),
    {
        self.open = open;
    }

    /// Whether the picker is shown.
    pub fn is_open(&self) -> (r: bool)
        ensures
            r == self.shown(),
    {
        self.open
    }

    /// The songs on offer.
    pub fn available_songs(&self) -> (r: &Vec<Song>)
        ensures
            r@ == self.offered(),
    {
        &self.available_songs
    }
}

/// The picker of the book's font: the fonts it offers.
#[derive(Debug)]
pub struct SelectFont {
    fonts: Vec<String>,
}

impl SelectFont {
    /// A picker offering these fonts.
    pub fn new(fonts: Vec<String>) -> (r: SelectFont)
        ensures
            r.fonts() == fonts@,
    {
        SelectFont { fonts }
    }

    /// The fonts on offer.
    pub closed spec fn fonts(&self) -> Seq<String> {
        self.fonts@
    }

    /// The fonts on offer.
    pub fn font_names(&self) -> (r: &Vec<String>)
        ensures
            r@ == self.fonts(),
    {
        &self.fonts
    }
}

/// The picker of the tiling granularity; it offers every granularity and
/// holds nothing of its own.
#[derive(Debug, Default)]
pub struct SelectTilePageSize {}

} // verus!
