use songbook::config::{Song, TableOfContentsSortOrder};
use songbook::contents::{toc_entry, toc_order};

fn songs(titles: &[&str]) -> Vec<Song> {
    titles
        .iter()
        .map(|t| Song { title: (*t).to_owned(), body: vec![], tags: vec![] })
        .collect()
}

#[test]
fn by_number_keeps_the_book_order() {
    let s = songs(&["Þór", "Bára", "Ása"]);
    assert_eq!(toc_order(&s, TableOfContentsSortOrder::SongNumber), vec![0, 1, 2]);
    assert!(toc_order(&songs(&[]), TableOfContentsSortOrder::Alphabetical).is_empty());
}

#[test]
fn alphabetical_sorts_like_str() {
    let titles = ["Þór", "Bára", "Ása", "B", "Bára", "Afi", "bára"];
    let s = songs(&titles);
    let order = toc_order(&s, TableOfContentsSortOrder::Alphabetical);
    // The order of a stable sort by `str`'s own comparison.
    let mut expected: Vec<usize> = (0..titles.len()).collect();
    expected.sort_by(|a, b| titles[*a].cmp(titles[*b]));
    assert_eq!(order, expected);
    assert_eq!(order, vec![5, 3, 1, 4, 6, 2, 0]);
}

#[test]
fn entries_by_number_and_by_title() {
    assert_eq!(toc_entry(12, "Vertu til", TableOfContentsSortOrder::SongNumber), "12. Vertu til");
    assert_eq!(toc_entry(7, "Vertu til", TableOfContentsSortOrder::Alphabetical), "Vertu til. 7");
    assert_eq!(toc_entry(0, "", TableOfContentsSortOrder::SongNumber), "0. ");
    assert_eq!(
        toc_entry(usize::MAX, "x", TableOfContentsSortOrder::SongNumber),
        format!("{}. x", usize::MAX)
    );
}
