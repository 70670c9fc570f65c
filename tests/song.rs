use songbook::config::Song;
use songbook::song::parse_song_body;

const SONG_BODY: &str = r"
        Hann ljótur er á litinn 
        og líka er striginn slitinn, 
        þó bragðast vel hver bitinn 
        úr bakpokanum enn. 

        Á mörgum fjallatindi 
        í miklu frosti og vindi 
        hann var það augnayndi, 
        sem elska svangir menn. 
    ";

const PARSED_SONG_BODY: &[&str] = &[
    r"Hann ljótur er á litinn
og líka er striginn slitinn,
þó bragðast vel hver bitinn
úr bakpokanum enn.",
    r"Á mörgum fjallatindi
í miklu frosti og vindi
hann var það augnayndi,
sem elska svangir menn.",
];

fn default_parse_song(extra_body: &str) -> (Result<Song, String>, Song) {
    let parsed_song = parse_song_body("Aa", &(SONG_BODY.to_owned() + extra_body));
    let expected_song = Song {
        title: "Aa".to_owned(),
        body: PARSED_SONG_BODY.iter().map(|v| (*v).to_owned()).collect(),
        tags: Vec::new(),
    };
    (parsed_song, expected_song)
}

#[test]
fn test_parse_song_body_no_tags() {
    let (parsed, expected) = default_parse_song("");
    assert_eq!(parsed, Ok(expected));
}

#[test]
fn test_parse_song_body_simple_tags() {
    let tags = r"----
        hÖfUnDur: Jón Jónsson
        árTal  : 1976";
    let (parsed, expected) = default_parse_song(tags);
    let parsed = parsed.unwrap();
    assert_eq!(
        parsed.tags,
        [("höfundur", ["Jón Jónsson"]), ("ártal", ["1976"])]
            .into_iter()
            .map(|(k, v)| (k.to_owned(), v.map(|s| s.to_owned()).to_vec()))
            .collect::<Vec<_>>()
    );
    assert_eq!(parsed.body, expected.body);
}

fn tags_of(song: &Song) -> Vec<(&str, Vec<&str>)> {
    song.tags
        .iter()
        .map(|(k, v)| (k.as_str(), v.iter().map(|s| s.as_str()).collect()))
        .collect()
}

#[test]
fn values_are_split_at_semicolons() {
    let song = parse_song_body("Bb", "la la\n-----\nLög: A ; B;C \nKEY:x").unwrap();
    assert_eq!(song.body, vec!["la la".to_owned()]);
    assert_eq!(tags_of(&song), vec![("lög", vec!["A", "B", "C"]), ("key", vec!["x"])]);
}

#[test]
fn a_repeated_key_replaces_its_values() {
    let song = parse_song_body("Cc", "----\na: 1\nb: 2\nA: 3\n").unwrap();
    assert_eq!(tags_of(&song), vec![("a", vec!["3"]), ("b", vec!["2"])]);
    assert!(song.body.is_empty());
}

#[test]
fn colon_without_value_is_reported() {
    assert_eq!(
        parse_song_body("Dd", "one\n\n----\nkey:"),
        Err("Expected some string after : separator in line 4 of song Dd".to_owned())
    );
}

#[test]
fn tag_line_without_colon_is_reported() {
    assert_eq!(
        parse_song_body("Ee", "----\nauthor Jón\n"),
        Err("Expected : to separate key from value in line 2 of song Ee".to_owned())
    );
    let long: String = "x\n".repeat(11) + "----\nnothing";
    assert_eq!(
        parse_song_body("Ff", &long),
        Err("Expected : to separate key from value in line 13 of song Ff".to_owned())
    );
}

#[test]
fn blank_lines_and_line_endings() {
    assert_eq!(parse_song_body("G", "").unwrap().body, Vec::<String>::new());
    let song = parse_song_body("G", "\r\n  a  \r\n\r\n\r\n b\r\nc\r\n").unwrap();
    assert_eq!(song.body, vec!["a".to_owned(), "b\nc".to_owned()]);
    // Three dashes are a verse line, not the start of the tags.
    let song = parse_song_body("G", "---\nx").unwrap();
    assert_eq!(song.body, vec!["---\nx".to_owned()]);
    assert_eq!(song.title, "G");
}
