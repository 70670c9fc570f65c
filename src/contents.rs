//! The order in which the table of contents lists the songs.
use crate::config::{Song, TableOfContentsSortOrder};
use crate::text::{char_vec, decimal, push_decimal, push_str};
use vstd::prelude::*;

verus! {

/// Whether `a` comes before `b` or equals it, comparing character by
/// character by code point, a proper prefix first: the order of `str`.
pub open spec fn lex_le(a: Seq<char>, b: Seq<char>) -> bool
    decreases a.len(),
{
    if a.len() == 0 {
        true
    } else if b.len() == 0 {
        false
    } else if a[0] != b[0] {
        a[0] < b[0]
    } else {
        lex_le(a.drop_first(), b.drop_first())
    }
}

proof fn lemma_lex_total(a: Seq<char>, b: Seq<char>)
    ensures
        lex_le(a, b) || lex_le(b, a),
    decreases a.len(),
{
    if a.len() > 0 && b.len() > 0 && a[0] == b[0] {
        lemma_lex_total(a.drop_first(), b.drop_first());
    }
}

proof fn lemma_lex_reflexive(a: Seq<char>)
    ensures
        lex_le(a, a),
    decreases a.len(),
{
    if a.len() > 0 {
        lemma_lex_reflexive(a.drop_first());
    }
}

proof fn lemma_lex_antisymmetric(a: Seq<char>, b: Seq<char>)
    requires
        lex_le(a, b),
        lex_le(b, a),
    ensures
        a == b,
    decreases a.len(),
{
    if a.len() > 0 && b.len() > 0 {
        if a[0] == b[0] {
            lemma_lex_antisymmetric(a.drop_first(), b.drop_first());
            assert(a =~= seq![a[0]] + a.drop_first());
            assert(b =~= seq![b[0]] + b.drop_first());
        }
    } else {
        assert(a =~= b);
    }
}

proof fn lemma_lex_transitive(a: Seq<char>, b: Seq<char>, c: Seq<char>)
    requires
        lex_le(a, b),
        lex_le(b, c),
    ensures
        lex_le(a, c),
    decreases a.len(),
{
    if a.len() > 0 && b.len() > 0 && c.len() > 0 && a[0] == b[0] && b[0] == c[0] {
        lemma_lex_transitive(a.drop_first(), b.drop_first(), c.drop_first());
    }
}

/// The titles of the songs.
pub open spec fn titles(songs: Seq<Song>) -> Seq<Seq<char>> {
    songs.map_values(|s: Song| s.title@)
}

/// Whether song `i` comes no later than song `j` in alphabetical order, equal
/// titles keeping the order of the book.
pub open spec fn listed_no_later(t: Seq<Seq<char>>, i: int, j: int) -> bool {
    (lex_le(t[i], t[j]) && t[i] != t[j]) || (t[i] == t[j] && i <= j)
}

/// Whether `r` holds each of `0 .. n` exactly once.
pub open spec fn is_permutation(r: Seq<usize>, n: nat) -> bool {
    &&& r.len() == n
    &&& forall|k: int| 0 <= k < r.len() ==> #[trigger] r[k] < n
    &&& forall|p: int, q: int| 0 <= p < q < r.len() ==> r[p] != r[q]
}

/// Whether `a[..]` is in order of its character sequences, by code point.
fn title_le(a: &Vec<char>, b: &Vec<char>) -> (r: bool)
    ensures
        r == lex_le(a@, b@),
{
    let mut i: usize = 0;
    proof {
        assert(a@.skip(0) =~= a@);
        assert(b@.skip(0) =~= b@);
    }
    while i < a.len() && i < b.len() && a[i] == b[i]
        invariant
            i <= a@.len(),
            i <= b@.len(),
            lex_le(a@, b@) == lex_le(a@.skip(i as int), b@.skip(i as int)),
        decreases a@.len() - i,
    {
        proof {
            assert(a@.skip(i as int).drop_first() =~= a@.skip(i as int + 1));
            assert(b@.skip(i as int).drop_first() =~= b@.skip(i as int + 1));
        }
        i += 1;
    }
    if i == a.len() {
        true
    } else if i == b.len() {
        false
    } else {
        a[i] < b[i]
    }
}

/// The positions of the songs in the order the table of contents lists
/// them: the book's order by song number, or alphabetically by title with
/// songs of equal titles in the book's order.
pub fn toc_order(songs: &Vec<Song>, order: TableOfContentsSortOrder) -> (r: Vec<usize>)
    ensures
        is_permutation(r@, songs@.len()),
        order == TableOfContentsSortOrder::SongNumber ==> forall|k: int| 0 <= k < r@.len() ==> r@[k] == k,
        order == TableOfContentsSortOrder::Alphabetical ==> forall|p: int, q: int|
            0 <= p < q < r@.len() ==> listed_no_later(titles(songs@), r@[p] as int, r@[q] as int),
{
    let n = songs.len();
    let ghost t = titles(songs@);
    let mut keys: Vec<Vec<char>> = Vec::new();
    let mut i: usize = 0;
    while i < n
        invariant
            n == songs@.len(),
            i <= n,
            keys@.len() == i,
            t == titles(songs@),
            forall|k: int| 0 <= k < i ==> #[trigger] keys@[k]@ == t[k],
        decreases n - i,
    {
        keys.push(char_vec(songs[i].title.as_str()));
        i += 1;
    }
    let mut list: Vec<usize> = Vec::new();
    let mut i: usize = 0;
    while i < n
        invariant
            n == songs@.len(),
            i <= n,
            keys@.len() == n,
            t == titles(songs@),
            forall|k: int| 0 <= k < n ==> #[trigger] keys@[k]@ == t[k],
            is_permutation(list@, i as nat),
            order == TableOfContentsSortOrder::SongNumber ==> forall|k: int| 0 <= k < list@.len() ==> list@[k] == k,
            order == TableOfContentsSortOrder::Alphabetical ==> forall|p: int, q: int|
                0 <= p < q < list@.len() ==> listed_no_later(t, list@[p] as int, list@[q] as int),
        decreases n - i,
    {
        let mut pos: usize = list.len();
        if order == TableOfContentsSortOrder::Alphabetical {
            pos = 0;
            while pos < list.len() && title_le(&keys[list[pos]], &keys[i])
                invariant
                    pos <= list@.len(),
                    list@.len() == i,
                    n == songs@.len(),
                    t == titles(songs@),
                    i < n,
                    keys@.len() == n,
                    forall|k: int| 0 <= k < list@.len() ==> #[trigger] list@[k] < i,
                    forall|k: int| 0 <= k < n ==> #[trigger] keys@[k]@ == t[k],
                    forall|p: int| 0 <= p < pos ==> lex_le(t[#[trigger] list@[p] as int], t[i as int]),
                decreases list@.len() - pos,
            {
                pos += 1;
            }
        }
        let ghost old_list = list@;
        list.insert(pos, i);
        proof {
            assert(list@ == old_list.insert(pos as int, i));
            assert forall|k: int| 0 <= k < list@.len() implies #[trigger] list@[k] < i + 1 by {
                if k < pos {
                    assert(list@[k] == old_list[k]);
                } else if k > pos {
                    assert(list@[k] == old_list[k - 1]);
                }
            }
            assert forall|p: int, q: int| 0 <= p < q < list@.len() implies list@[p] != list@[q] by {
                if q < pos {
                    assert(list@[p] == old_list[p] && list@[q] == old_list[q]);
                } else if q == pos {
                    assert(list@[p] == old_list[p]);
                } else if p < pos {
                    assert(list@[p] == old_list[p] && list@[q] == old_list[q - 1]);
                } else if p == pos {
                    assert(list@[q] == old_list[q - 1]);
                } else {
                    assert(list@[p] == old_list[p - 1] && list@[q] == old_list[q - 1]);
                }
            }
            if order == TableOfContentsSortOrder::SongNumber {
                assert forall|k: int| 0 <= k < list@.len() implies list@[k] == k by {
                    if k < pos {
                        assert(list@[k] == old_list[k]);
                    }
                }
            }
            if order == TableOfContentsSortOrder::Alphabetical {
                if pos < old_list.len() {
                    assert(!lex_le(t[old_list[pos as int] as int], t[i as int]));
                    lemma_lex_total(t[old_list[pos as int] as int], t[i as int]);
                }
                assert forall|p: int, q: int| 0 <= p < q < list@.len() implies listed_no_later(
                    t,
                    list@[p] as int,
                    list@[q] as int,
                ) by {
                    if q < pos {
                        assert(list@[p] == old_list[p] && list@[q] == old_list[q]);
                    } else if q == pos {
                        assert(list@[p] == old_list[p]);
                        assert(lex_le(t[old_list[p] as int], t[i as int]));
                    } else if p < pos {
                        assert(list@[p] == old_list[p] && list@[q] == old_list[q - 1]);
                    } else if p == pos {
                        let a = old_list[pos as int] as int;
                        let b = old_list[q - 1] as int;
                        assert(list@[q] == old_list[q - 1]);
                        lemma_lex_reflexive(t[a]);
                        if q - 1 > pos {
                            assert(listed_no_later(t, a, b));
                        }
                        assert(lex_le(t[a], t[b]));
                        lemma_lex_transitive(t[i as int], t[a], t[b]);
                        if t[i as int] == t[b] {
                            lemma_lex_antisymmetric(t[a], t[i as int]);
                        }
                    } else {
                        assert(list@[p] == old_list[p - 1] && list@[q] == old_list[q - 1]);
                    }
                }
            }
        }
        i += 1;
    }
    list
}

/// How the table of contents lists song number `num`: number first when
/// listing by number, title first when listing alphabetically.
pub open spec fn toc_entry_text(num: nat, title: Seq<char>, order: TableOfContentsSortOrder) -> Seq<char> {
    match order {
        TableOfContentsSortOrder::SongNumber => decimal(num) + ". "@ + title,
        TableOfContentsSortOrder::Alphabetical => title + ". "@ + decimal(num),
    }
}

/// The line of the table of contents for song number `num`, which is also
/// the heading of the song itself when listing by number.
pub fn toc_entry(num: usize, title: &str, order: TableOfContentsSortOrder) -> (r: String)
    ensures
        r@ == toc_entry_text(num as nat, title@, order),
{
    let mut s = String::new();
    match order {
        TableOfContentsSortOrder::SongNumber => {
            push_decimal(&mut s, num);
            push_str(&mut s, ". ");
            push_str(&mut s, title);
        },
        TableOfContentsSortOrder::Alphabetical => {
            push_str(&mut s, title);
            push_str(&mut s, ". ");
            push_decimal(&mut s, num);
        },
    }
    proof {
        assert(s@ =~= toc_entry_text(num as nat, title@, order));
    }
    s
}

} // verus!
