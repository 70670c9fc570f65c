//! Reading a song file: verses separated by blank lines, then, after a line
//! of at least four dashes, tags of the form `key: value; value; ...`.
use crate::config::Song;
use crate::text::{
    char_vec, decimal, lemma_split_on_step, lines_of, push_char, push_decimal, push_str,
    split_on, string_of, trim, trim_bounds,
};
use vstd::prelude::*;

verus! {

/// The lowercase form of a string, character by character as Unicode
/// defines it.
pub uninterp spec fn lower_of(s: Seq<char>) -> Seq<char>;

/// Relies on `str::to_lowercase`: the result depends on the characters alone.
#[verifier::external_body]
fn lowercase(s: &str) -> (r: String)
    ensures
        r@ == lower_of(s@),
{
    s.to_lowercase()
}

/// The report of a fault at a line of a song: `<message> in line <n> of
/// song <title>`.
pub open spec fn line_error_text(message: Seq<char>, line: nat, title: Seq<char>) -> Seq<char> {
    message + " in line "@ + decimal(line) + " of song "@ + title
}

/// The report of a fault at a line of a song.
fn line_error(message: &str, line: usize, title: &str) -> (r: String)
    ensures
        r@ == line_error_text(message@, line as nat, title@),
{
    let mut s = String::new();
    push_str(&mut s, message);
    push_str(&mut s, " in line ");
    push_decimal(&mut s, line);
    push_str(&mut s, " of song ");
    push_str(&mut s, title);
    proof {
        assert(s@ =~= line_error_text(message@, line as nat, title@));
    }
    s
}

/// What can be wrong with a tag line.
#[derive(Debug, Clone, Copy, PartialEq, Eq, Structural)]
pub enum TagFault {
    /// The line has no `:` between key and value.
    MissingColon,
    /// Nothing follows the `:`.
    MissingValue,
}

/// The message that reports a fault.
pub open spec fn fault_message(f: TagFault) -> Seq<char> {
    match f {
        TagFault::MissingColon => "Expected : to separate key from value"@,
        TagFault::MissingValue => "Expected some string after : separator"@,
    }
}

/// A song as read so far: the finished verses, the verse being read,
/// whether the tags have begun, and the tags read.
pub struct SongModel {
    pub verses: Seq<Seq<char>>,
    pub current: Seq<char>,
    pub tag_mode: bool,
    pub tags: Seq<(Seq<char>, Seq<Seq<char>>)>,
}

/// Whether no two tags have the same key.
pub open spec fn keys_distinct(tags: Seq<(Seq<char>, Seq<Seq<char>>)>) -> bool {
    forall|i: int, j: int| 0 <= i < tags.len() && 0 <= j < tags.len() && i != j ==> tags[i].0 != tags[j].0
}

/// Whether a tag with this key is among `tags`.
pub open spec fn has_key(tags: Seq<(Seq<char>, Seq<Seq<char>>)>, key: Seq<char>) -> bool {
    exists|i: int| 0 <= i < tags.len() && tags[i].0 == key
}

/// `tags` with `entry` recorded: it replaces the tag of the same key, or
/// comes last if there is none.
pub open spec fn insert_tag(
    tags: Seq<(Seq<char>, Seq<Seq<char>>)>,
    entry: (Seq<char>, Seq<Seq<char>>),
) -> Seq<(Seq<char>, Seq<Seq<char>>)> {
    if has_key(tags, entry.0) {
        tags.update(choose|i: int| 0 <= i < tags.len() && tags[i].0 == entry.0, entry)
    } else {
        tags.push(entry)
    }
}

/// Whether `p` is the position of the first `:` of `l`.
pub open spec fn first_colon(l: Seq<char>, p: int) -> bool {
    0 <= p < l.len() && l[p] == ':' && forall|j: int| 0 <= j < p ==> l[j] != ':'
}

/// The tag that a line gives whose first `:` stands at `p`: the lowercase
/// key before it, and the values after it, separated by `;`, each trimmed.
pub open spec fn tag_entry(l: Seq<char>, p: int) -> (Seq<char>, Seq<Seq<char>>) {
    (lower_of(trim(l.take(p))), split_on(l.skip(p + 1), ';').map_values(|v: Seq<char>| trim(v)))
}

/// Whether the line consists of at least four dashes.
pub open spec fn is_tag_marker(l: Seq<char>) -> bool {
    l.len() >= 4 && forall|j: int| 0 <= j < l.len() ==> l[j] == '-'
}

/// Reading one trimmed line. Before the tags, a blank line ends the verse
/// being read, a line of dashes starts the tags, and any other line joins
/// the verse. After that, every line is a tag.
pub open spec fn step(st: SongModel, l: Seq<char>) -> Result<SongModel, TagFault> {
    if st.tag_mode {
        if !(exists|p: int| first_colon(l, p)) {
            Err(TagFault::MissingColon)
        } else {
            let p = choose|p: int| first_colon(l, p);
            if p == l.len() - 1 {
                Err(TagFault::MissingValue)
            } else {
                Ok(SongModel { verses: st.verses, current: st.current, tag_mode: true, tags: insert_tag(st.tags, tag_entry(l, p)) })
            }
        }
    } else if l.len() == 0 && st.current.len() > 0 {
        Ok(SongModel { verses: st.verses.push(st.current), current: Seq::empty(), tag_mode: false, tags: st.tags })
    } else if is_tag_marker(l) {
        Ok(SongModel { verses: st.verses, current: st.current, tag_mode: true, tags: st.tags })
    } else {
        let current = if st.current.len() > 0 {
            st.current.push('\n') + l
        } else {
            l
        };
        Ok(SongModel { verses: st.verses, current, tag_mode: false, tags: st.tags })
    }
}

/// The views of some strings.
pub open spec fn strings_view(v: Seq<String>) -> Seq<Seq<char>> {
    v.map_values(|s: String| s@)
}

/// The views of some tags.
pub open spec fn tags_view(t: Seq<(String, Vec<String>)>) -> Seq<(Seq<char>, Seq<Seq<char>>)> {
    t.map_values(|e: (String, Vec<String>)| (e.0@, strings_view(e.1@)))
}

/// A song being read.
struct SongState {
    verses: Vec<String>,
    current: String,
    tag_mode: bool,
    tags: Vec<(String, Vec<String>)>,
}

impl SongState {
    spec fn model(&self) -> SongModel {
        SongModel {
            verses: strings_view(self.verses@),
            current: self.current@,
            tag_mode: self.tag_mode,
            tags: tags_view(self.tags@),
        }
    }
}

/// The pieces of `text[lo..hi]` between the `;`s, each trimmed.
fn split_values(text: &Vec<char>, lo: usize, hi: usize) -> (r: Vec<String>)
    requires
        lo <= hi <= text@.len(),
    ensures
        strings_view(r@) == split_on(text@.subrange(lo as int, hi as int), ';').map_values(|v: Seq<char>| trim(v)),
{
    let ghost s = text@.subrange(lo as int, hi as int);
    let ghost done: Seq<Seq<char>> = Seq::empty();
    let mut values: Vec<String> = Vec::new();
    let mut start = lo;
    let mut q = lo;
    proof {
        assert(s.take(0) =~= Seq::<char>::empty());
        assert(text@.subrange(lo as int, lo as int) =~= Seq::<char>::empty());
        assert(split_on(s.take(0), ';') =~= done.push(Seq::<char>::empty()));
    }
    while q < hi
        invariant
            lo <= start <= q <= hi <= text@.len(),
            s == text@.subrange(lo as int, hi as int),
            split_on(s.take(q - lo), ';') == done.push(text@.subrange(start as int, q as int)),
            strings_view(values@) == done.map_values(|v: Seq<char>| trim(v)),
        decreases hi - q,
    {
        proof {
            lemma_split_on_step(s, q - lo, ';');
            assert(s[q - lo] == text@[q as int]);
        }
        if text[q] == ';' {
            let (a, b) = trim_bounds(text, start, q);
            let v = string_of(text, a, b);
            proof {
                assert(strings_view(values@.push(v)) =~= strings_view(values@).push(v@));
                assert(done.push(text@.subrange(start as int, q as int)).map_values(|v: Seq<char>| trim(v))
                    =~= done.map_values(|v: Seq<char>| trim(v)).push(trim(text@.subrange(start as int, q as int))));
                done = done.push(text@.subrange(start as int, q as int));
                assert(text@.subrange(q as int + 1, q as int + 1) =~= Seq::<char>::empty());
            }
            values.push(v);
            start = q + 1;
        } else {
            proof {
                assert(text@.subrange(start as int, q as int + 1) =~= text@.subrange(start as int, q as int).push(text@[q as int]));
            }
        }
        q += 1;
    }
    let (a, b) = trim_bounds(text, start, hi);
    let v = string_of(text, a, b);
    proof {
        assert(s.take(hi - lo) =~= s);
        assert(strings_view(values@.push(v)) =~= strings_view(values@).push(v@));
        assert(done.push(text@.subrange(start as int, hi as int)).map_values(|v: Seq<char>| trim(v))
            =~= done.map_values(|v: Seq<char>| trim(v)).push(trim(text@.subrange(start as int, hi as int))));
    }
    values.push(v);
    values
}

/// Records a tag, replacing the one of the same key if there is one.
fn record_tag(tags: &mut Vec<(String, Vec<String>)>, key: String, values: Vec<String>)
    requires
        keys_distinct(tags_view(old(tags)@)),
    ensures
        tags_view(final(tags)@) == insert_tag(tags_view(old(tags)@), (key@, strings_view(values@))),
        keys_distinct(tags_view(final(tags)@)),
{
    let ghost t = tags_view(tags@);
    let ghost entry = (key@, strings_view(values@));
    let mut i: usize = 0;
    while i < tags.len()
        invariant
            i <= tags@.len(),
            t == tags_view(tags@),
            t == tags_view(old(tags)@),
            keys_distinct(t),
            entry == (key@, strings_view(values@)),
            forall|j: int| 0 <= j < i ==> t[j].0 != key@,
        decreases tags@.len() - i,
    {
        if tags[i].0 == key {
            proof {
                assert(t[i as int].0 == key@);
                assert(has_key(t, key@));
                let c = choose|c: int| 0 <= c < t.len() && t[c].0 == entry.0;
                assert(c == i);
                assert(insert_tag(t, entry) == t.update(i as int, entry));
            }
            tags.set(i, (key, values));
            proof {
                assert(tags_view(tags@) =~= t.update(i as int, entry));
                assert(t == tags_view(old(tags)@));
                assert(tags_view(tags@) == insert_tag(tags_view(old(tags)@), entry));
                assert(keys_distinct(tags_view(tags@)));
            }
            return;
        }
        i += 1;
    }
    proof {
        assert(!has_key(t, key@));
    }
    tags.push((key, values));
    proof {
        assert(tags_view(tags@) =~= t.push(entry));
        assert(keys_distinct(tags_view(tags@)));
    }
}

/// Whether `text[lo..hi]` consists of at least four dashes.
fn tag_marker(text: &Vec<char>, lo: usize, hi: usize) -> (r: bool)
    requires
        lo <= hi <= text@.len(),
    ensures
        r == is_tag_marker(text@.subrange(lo as int, hi as int)),
{
    if hi - lo < 4 {
        return false;
    }
    let mut k = lo;
    while k < hi
        invariant
            lo <= k <= hi <= text@.len(),
            forall|j: int| lo <= j < k ==> text@[j] == '-',
        decreases hi - k,
    {
        if text[k] != '-' {
            proof {
                assert(text@.subrange(lo as int, hi as int)[k - lo] != '-');
            }
            return false;
        }
        k += 1;
    }
    true
}

/// Reads one trimmed line, `text[lo..hi]`, which is line `line` of the
/// song, counting from one.
fn apply_line(st: &mut SongState, text: &Vec<char>, lo: usize, hi: usize, line: usize, title: &str) -> (r: Result<(), String>)
    requires
        lo <= hi <= text@.len(),
        keys_distinct(old(st).model().tags),
    ensures
        keys_distinct(final(st).model().tags),
        match step(old(st).model(), text@.subrange(lo as int, hi as int)) {
            Ok(m) => r is Ok && final(st).model() == m,
            Err(f) => r matches Err(msg) && msg@ == line_error_text(fault_message(f), line as nat, title@),
        },
{
    let ghost l = text@.subrange(lo as int, hi as int);
    let ghost before = st.model();
    if st.tag_mode {
        let mut p = lo;
        while p < hi && text[p] != ':'
            invariant
                lo <= p <= hi <= text@.len(),
                forall|j: int| lo <= j < p ==> text@[j] != ':',
            decreases hi - p,
        {
            p += 1;
        }
        if p == hi {
            proof {
                assert forall|q: int| !first_colon(l, q) by {
                    if first_colon(l, q) {
                        assert(text@[lo + q] == ':');
                    }
                }
            }
            return Err(line_error("Expected : to separate key from value", line, title));
        }
        let ghost at = p - lo;
        proof {
            assert(first_colon(l, at));
            let c = choose|c: int| first_colon(l, c);
            if c < at {
                assert(text@[lo + c] == ':');
            }
            if at < c {
                assert(l[at] == ':');
            }
            assert(c == at);
        }
        if p + 1 == hi {
            return Err(line_error("Expected some string after : separator", line, title));
        }
        let (a, b) = trim_bounds(text, lo, p);
        let raw_key = string_of(text, a, b);
        let key = lowercase(raw_key.as_str());
        let values = split_values(text, p + 1, hi);
        proof {
            assert(l.take(at) =~= text@.subrange(lo as int, p as int));
            assert(l.skip(at + 1) =~= text@.subrange(p as int + 1, hi as int));
        }
        record_tag(&mut st.tags, key, values);
        proof {
            assert(st.model() == step(before, l)->Ok_0);
        }
        Ok(())
    } else if lo == hi && !st.current.as_str().is_empty() {
        let verse = st.current.clone();
        st.current = String::new();
        st.verses.push(verse);
        proof {
            assert(strings_view(st.verses@) =~= before.verses.push(before.current));
            assert(l =~= Seq::<char>::empty());
            assert(st.model() == step(before, l)->Ok_0);
        }
        Ok(())
    } else if tag_marker(text, lo, hi) {
        st.tag_mode = true;
        proof {
            assert(st.model() == step(before, l)->Ok_0);
        }
        Ok(())
    } else {
        let ghost start = st.current@;
        if !st.current.as_str().is_empty() {
            push_char(&mut st.current, '\n');
        }
        let ghost joined = st.current@;
        let mut k = lo;
        while k < hi
            invariant
                lo <= k <= hi <= text@.len(),
                st.current@ == joined + text@.subrange(lo as int, k as int),
                st.verses == old(st).verses,
                st.tags == old(st).tags,
                st.tag_mode == old(st).tag_mode,
            decreases hi - k,
        {
            push_char(&mut st.current, text[k]);
            k += 1;
            proof {
                assert(st.current@ =~= joined + text@.subrange(lo as int, k as int));
            }
        }
        proof {
            if start.len() == 0 {
                assert(st.current@ =~= l);
            }
            assert(st.model() == step(before, l)->Ok_0);
        }
        Ok(())
    }
}

/// The pieces of `text` that the bounds mark out.
pub open spec fn pieces(text: Seq<char>, bounds: Seq<(usize, usize)>) -> Seq<Seq<char>> {
    bounds.map_values(|b: (usize, usize)| text.subrange(b.0 as int, b.1 as int))
}

/// The bounds of the lines of `text`.
fn line_bounds(text: &Vec<char>) -> (r: Vec<(usize, usize)>)
    ensures
        forall|i: int| 0 <= i < r@.len() ==> #[trigger] r@[i].0 <= r@[i].1 <= text@.len(),
        pieces(text@, r@) == lines_of(text@),
{
    let ghost s = text@;
    let n = text.len();
    let mut bounds: Vec<(usize, usize)> = Vec::new();
    let mut start: usize = 0;
    let mut k: usize = 0;
    proof {
        assert(s.take(0) =~= Seq::<char>::empty());
        assert(s.subrange(0, 0) =~= Seq::<char>::empty());
        assert(split_on(s.take(0), '\n') =~= pieces(s, bounds@).push(Seq::<char>::empty()));
    }
    while k < n
        invariant
            n == s.len(),
            s == text@,
            start <= k <= n,
            forall|i: int| 0 <= i < bounds@.len() ==> #[trigger] bounds@[i].0 <= bounds@[i].1 <= n,
            split_on(s.take(k as int), '\n') == pieces(s, bounds@).push(s.subrange(start as int, k as int)),
        decreases n - k,
    {
        proof {
            lemma_split_on_step(s, k as int, '\n');
        }
        if text[k] == '\n' {
            proof {
                assert(pieces(s, bounds@.push((start, k))) =~= pieces(s, bounds@).push(s.subrange(start as int, k as int)));
                assert(s.subrange(k + 1, k + 1) =~= Seq::<char>::empty());
            }
            bounds.push((start, k));
            start = k + 1;
        } else {
            proof {
                assert(s.subrange(start as int, k + 1) =~= s.subrange(start as int, k as int).push(s[k as int]));
            }
        }
        k += 1;
    }
    proof {
        assert(s.take(n as int) =~= s);
    }
    if start < n {
        proof {
            assert(pieces(s, bounds@.push((start, n))) =~= pieces(s, bounds@).push(s.subrange(start as int, n as int)));
        }
        bounds.push((start, n));
    } else {
        proof {
            assert(pieces(s, bounds@).push(s.subrange(start as int, n as int)).drop_last() =~= pieces(s, bounds@));
        }
    }
    bounds
}

/// Nothing has been read yet.
pub open spec fn initial_model() -> SongModel {
    SongModel { verses: Seq::empty(), current: Seq::empty(), tag_mode: false, tags: Seq::empty() }
}

/// Reading the trimmed lines one after the other, stopping at the first
/// faulty one, which is given by its position.
pub open spec fn read_lines(lines: Seq<Seq<char>>) -> Result<SongModel, (nat, TagFault)>
    decreases lines.len(),
{
    if lines.len() == 0 {
        Ok(initial_model())
    } else {
        match read_lines(lines.drop_last()) {
            Err(e) => Err(e),
            Ok(st) => match step(st, lines.last()) {
                Ok(m) => Ok(m),
                Err(f) => Err(((lines.len() - 1) as nat, f)),
            },
        }
    }
}

/// The lines of a song's text, each trimmed.
pub open spec fn song_lines(body: Seq<char>) -> Seq<Seq<char>> {
    lines_of(body).map_values(|l: Seq<char>| trim(l))
}

/// The verses once the text has ended: the verse being read counts too,
/// unless it is empty.
pub open spec fn finished_verses(st: SongModel) -> Seq<Seq<char>> {
    if st.current.len() > 0 {
        st.verses.push(st.current)
    } else {
        st.verses
    }
}

proof fn lemma_read_lines_fault_stays(lines: Seq<Seq<char>>, j: int)
    requires
        0 <= j <= lines.len(),
        read_lines(lines.take(j)) is Err,
    ensures
        read_lines(lines) == read_lines(lines.take(j)),
    decreases lines.len() - j,
{
    if j == lines.len() {
        assert(lines.take(j) =~= lines);
    } else {
        assert(lines.take(j + 1).drop_last() =~= lines.take(j));
        lemma_read_lines_fault_stays(lines, j + 1);
    }
}

/// Reads a song from its text. The verses are the runs of non-blank lines,
/// each line trimmed and the lines joined by line feeds; a line of at least
/// four dashes ends them, and every line after it is a tag
/// `key: value; value; ...`, whose key is trimmed and lowercased and whose
/// values are trimmed. A tag line without `:`, or with nothing after it,
/// is reported with its number, counting from one.
pub fn parse_song_body(title: &str, body: &str) -> (r: Result<Song, String>)
    ensures
        match read_lines(song_lines(body@)) {
            Ok(st) => r matches Ok(song) && song.title@ == title@ && strings_view(song.body@) == finished_verses(st)
                && tags_view(song.tags@) == st.tags,
            Err((i, f)) => r matches Err(msg) && msg@ == line_error_text(fault_message(f), i + 1, title@),
        },
        r matches Ok(song) ==> keys_distinct(tags_view(song.tags@)),
{
    let text = char_vec(body);
    let bounds = line_bounds(&text);
    let ghost lines = song_lines(body@);
    proof {
        assert(pieces(text@, bounds@).map_values(|l: Seq<char>| trim(l)) =~= lines);
        assert(lines.take(0) =~= Seq::<Seq<char>>::empty());
    }
    let mut st = SongState { verses: Vec::new(), current: String::new(), tag_mode: false, tags: Vec::new() };
    proof {
        assert(strings_view(st.verses@) =~= Seq::<Seq<char>>::empty());
        assert(tags_view(st.tags@) =~= Seq::<(Seq<char>, Seq<Seq<char>>)>::empty());
        assert(st.model() == initial_model());
    }
    let mut i: usize = 0;
    while i < bounds.len()
        invariant
            i <= bounds@.len(),
            lines.len() == bounds@.len(),
            forall|j: int| 0 <= j < bounds@.len() ==> #[trigger] bounds@[j].0 <= bounds@[j].1 <= text@.len(),
            forall|j: int| 0 <= j < bounds@.len() ==> #[trigger] lines[j] == trim(text@.subrange(bounds@[j].0 as int, bounds@[j].1 as int)),
            read_lines(lines.take(i as int)) == Ok::<SongModel, (nat, TagFault)>(st.model()),
            keys_distinct(st.model().tags),
            lines == song_lines(body@),
        decreases bounds@.len() - i,
    {
        let (lo, hi) = bounds[i];
        let (a, b) = trim_bounds(&text, lo, hi);
        let ghost before = st.model();
        proof {
            assert(lines[i as int] == text@.subrange(a as int, b as int));
            assert(lines.take(i + 1).drop_last() =~= lines.take(i as int));
        }
        match apply_line(&mut st, &text, a, b, i + 1, title) {
            Ok(()) => {},
            Err(msg) => {
                proof {
                    lemma_read_lines_fault_stays(lines, i + 1);
                }
                return Err(msg);
            },
        }
        i += 1;
    }
    proof {
        assert(lines.take(i as int) =~= lines);
    }
    let mut body_verses = st.verses;
    if !st.current.as_str().is_empty() {
        body_verses.push(st.current);
        proof {
            assert(strings_view(body_verses@) =~= finished_verses(st.model()));
        }
    }
    Ok(Song { title: title.to_owned(), body: body_verses, tags: st.tags })
}

} // verus!
