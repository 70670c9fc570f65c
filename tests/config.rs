use songbook::config::{
    default_add_separator, default_padding, default_tiled_page_size, true_func, BookConfig,
    BookPart, FileBookConfig, FrontPage, Page, Preface, Song, TableOfContents,
    TableOfContentsSortOrder,
};
use songbook::elements::{AddSong, SelectFont};
use songbook::layout::{Fraction, PageSize};
use songbook::tile::ImposeError;

fn song(title: &str) -> Song {
    Song { title: title.to_owned(), body: vec![], tags: vec![] }
}

#[test]
fn page_defaults() {
    let p = Preface::default();
    assert_eq!(p.title, "Formáli");
    assert_eq!(p.body, "");
    let t = TableOfContents::default();
    assert_eq!(t.title, "Efnisyfirlit");
    assert_eq!(t.order, TableOfContentsSortOrder::SongNumber);
    assert_eq!(FrontPage::default().title, "Þín Skáta Söngbók");
    assert_eq!(TableOfContentsSortOrder::SongNumber.label(), "Laganúmer");
    assert_eq!(TableOfContentsSortOrder::Alphabetical.label(), "Stafrófsröð");
}

#[test]
fn book_defaults() {
    let b = BookConfig::default();
    assert!(b.front_pages.is_empty() && b.back_pages.is_empty() && b.songs.is_empty());
    assert_eq!(b.preferred_font, "Arial");
    assert!(b.reorder_pages);
    assert_eq!(b.padding, 10);
    assert!(b.add_separator);
    assert_eq!(b.tiled_page_size, PageSize::A7);
    assert_eq!(default_padding(), 10);
    assert!(default_add_separator());
    assert_eq!(default_tiled_page_size(), PageSize::A7);
    assert!(true_func());
}

#[test]
fn parts_in_print_order() {
    let mut b = BookConfig::default();
    b.front_pages = vec![
        Page::FrontPage(FrontPage::default()),
        Page::TableOfContents(TableOfContents::default()),
    ];
    b.back_pages = vec![Page::Preface(Preface::default())];
    assert_eq!(b.book_parts(), vec![BookPart::Front(0), BookPart::Front(1), BookPart::Back(0)]);
    b.songs = vec![song("Aa")];
    assert_eq!(
        b.book_parts(),
        vec![BookPart::Front(0), BookPart::Front(1), BookPart::Songs, BookPart::Back(0)]
    );
    assert_eq!(song("Aa").label(), "Aa");
}

#[test]
fn padding_gives_the_scale() {
    let mut b = BookConfig::default();
    let plan = b.impose_plan().unwrap();
    assert_eq!(plan.placement.scale, Fraction { num: 90, den: 100 });
    assert_eq!(plan.placement.offset, Fraction { num: 10, den: 200 });
    assert_eq!(plan.separators.len(), 5 + 3);
    b.padding = 0;
    assert_eq!(b.impose_plan().unwrap().placement.offset, Fraction { num: 0, den: 200 });
    b.padding = 100;
    assert_eq!(b.impose_plan(), Err(ImposeError::Geometry));
}

#[test]
fn file_settings_make_a_book() {
    let file = FileBookConfig {
        front_pages: vec![Page::FrontPage(FrontPage::default())],
        back_pages: vec![],
        preferred_font: "Roboto".to_owned(),
        reorder_pages: false,
    };
    let b = file.into_book(vec![song("Aa"), song("Bb")]);
    assert_eq!(b.songs.len(), 2);
    assert_eq!(b.preferred_font, "Roboto");
    assert!(!b.reorder_pages);
    assert_eq!(b.padding, 10);
}

#[test]
fn add_song_picker() {
    let mut picker = AddSong::default();
    assert!(!picker.is_open());
    picker.open(vec![song("Aa")]);
    assert!(picker.is_open());
    assert_eq!(picker.available_songs().len(), 1);
    picker.set_open(false);
    assert!(!picker.is_open());
    assert_eq!(picker.available_songs()[0].title, "Aa");
    let fonts = SelectFont::new(vec!["Arial".to_owned()]);
    assert_eq!(fonts.font_names(), &vec!["Arial".to_owned()]);
}
