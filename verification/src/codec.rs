//! The mapping between a project's path and the name of its log directory.
//!
//! The log store names a project's directory after its path: separators
//! become dashes, and a separator followed by the dot of a hidden folder
//! becomes two dashes. Decoding is a guess, since names may hold dashes of
//! their own: up to a segment `Projects` or `UnityProjects` every dash is
//! read as a separator, and after it as part of the project's name until
//! two dashes announce a hidden folder.

use vstd::prelude::*;
use crate::text::{
    append, chars_eq, from_chars, is_free_of, join, join_range, join_with, lemma_join_of_concat,
    lemma_split_of_join, slice, split, split_on, to_chars, views,
};

verus! {

/// `s` without one leading `c`.
pub open spec fn strip_leading(s: Seq<char>, c: char) -> Seq<char> {
    if s.len() > 0 && s[0] == c {
        s.drop_first()
    } else {
        s
    }
}

/// The character that stands for position `i` of `s` in a directory
/// name: a dash for a separator and for a dot right after a separator,
/// else the character itself.
pub open spec fn encoded_char(s: Seq<char>, i: int) -> char {
    if s[i] == '/' || (s[i] == '.' && i > 0 && s[i - 1] == '/') {
        '-'
    } else {
        s[i]
    }
}

/// The directory name of a path: a dash, then the path without its
/// leading separator, character by character as [`encoded_char`] says.
pub open spec fn dir_name_of(path: Seq<char>) -> Seq<char> {
    let body = strip_leading(path, '/');
    seq!['-'] + Seq::new(body.len(), |i: int| encoded_char(body, i))
}

/// The segment is one that marks the folder projects live in.
pub open spec fn is_root_marker(part: Seq<char>) -> bool {
    part == "Projects"@ || part == "UnityProjects"@
}

/// Index of the first marker among the parts; -1 where there is none.
pub open spec fn first_marker(parts: Seq<Seq<char>>) -> int
    decreases parts.len(),
{
    if parts.len() == 0 {
        -1
    } else if first_marker(parts.drop_last()) >= 0 {
        first_marker(parts.drop_last())
    } else if is_root_marker(parts.last()) {
        parts.len() - 1
    } else {
        -1
    }
}

/// The segments put together so far from the parts after the marker.
pub struct Assembly {
    /// The finished segments.
    pub done: Seq<Seq<char>>,
    /// The segment being built; empty where none is.
    pub current: Seq<char>,
    /// Whether an empty part was met: from then on every part is a folder.
    pub hidden: bool,
}

impl Assembly {
    /// The finished segments with the one being built, where there is one.
    pub open spec fn closed(self) -> Seq<Seq<char>> {
        if self.current.len() > 0 {
            self.done.push(self.current)
        } else {
            self.done
        }
    }

    /// The assembly after one more part.
    ///
    /// An empty part, which stands between two dashes, ends the current
    /// segment and announces a hidden folder. After such a part, a part
    /// begins a segment: with a dot where no segment is open, without
    /// where one is. Before any such part, a part goes on with the current
    /// segment behind a dash.
    pub open spec fn with_part(self, part: Seq<char>) -> Assembly {
        if part.len() == 0 {
            Assembly { done: self.closed(), current: Seq::<char>::empty(), hidden: true }
        } else if self.hidden {
            if self.current.len() == 0 {
                Assembly { done: self.done, current: seq!['.'] + part, hidden: true }
            } else {
                Assembly { done: self.closed(), current: part, hidden: true }
            }
        } else if self.current.len() == 0 {
            Assembly { done: self.done, current: part, hidden: false }
        } else {
            Assembly { done: self.done, current: self.current + seq!['-'] + part, hidden: false }
        }
    }
}

/// The assembly after all the parts, taken in order.
pub open spec fn assemble(parts: Seq<Seq<char>>) -> Assembly
    decreases parts.len(),
{
    if parts.len() == 0 {
        Assembly { done: Seq::<Seq<char>>::empty(), current: Seq::<char>::empty(), hidden: false }
    } else {
        assemble(parts.drop_last()).with_part(parts.last())
    }
}

/// `s` with every dash replaced by a separator.
pub open spec fn dashes_to_separators(s: Seq<char>) -> Seq<char> {
    Seq::new(s.len(), |i: int| if s[i] == '-' { '/' } else { s[i] })
}

/// The path that a directory name is read as.
pub open spec fn path_of(dir_name: Seq<char>) -> Seq<char> {
    let name = strip_leading(dir_name, '-');
    let parts = split_on(name, '-');
    let at = first_marker(parts);
    if at < 0 {
        seq!['/'] + dashes_to_separators(name)
    } else {
        let head = seq!['/'] + join_with(parts.take(at + 1), seq!['/']);
        let tail = parts.skip(at + 1);
        if tail.len() == 0 {
            head
        } else {
            head + seq!['/'] + join_with(assemble(tail).closed(), seq!['/'])
        }
    }
}

/// A word: a text without separator, dash and dot.
pub open spec fn is_word(word: Seq<char>) -> bool {
    is_free_of(word, '/') && is_free_of(word, '-') && is_free_of(word, '.')
}

/// The path of a project that lies right in a folder for projects: the
/// folders down to it, the folder for projects, and the project's name,
/// given as the words that dashes part it into. Without such words, the
/// path of the folder for projects itself.
pub open spec fn project_path(
    folders: Seq<Seq<char>>,
    marker: Seq<char>,
    name: Seq<Seq<char>>,
) -> Seq<char> {
    let head = seq!['/'] + join_with(folders.push(marker), seq!['/']);
    if name.len() == 0 {
        head
    } else {
        head + seq!['/'] + join_with(name, seq!['-'])
    }
}

/// `s` with every separator replaced by a dash.
pub open spec fn separators_to_dashes(s: Seq<char>) -> Seq<char> {
    Seq::new(s.len(), |i: int| if s[i] == '/' { '-' } else { s[i] })
}

/// Both markers are words.
proof fn lemma_marker_is_word(marker: Seq<char>)
    requires
        is_root_marker(marker),
    ensures
        is_word(marker),
{
    reveal_strlit("Projects");
    reveal_strlit("UnityProjects");
    let a = "Projects"@;
    let b = "UnityProjects"@;
    assert(a[0] == 'P' && a[1] == 'r' && a[2] == 'o' && a[3] == 'j' && a[4] == 'e' && a[5] == 'c'
        && a[6] == 't' && a[7] == 's');
    assert(b[0] == 'U' && b[1] == 'n' && b[2] == 'i' && b[3] == 't' && b[4] == 'y' && b[5] == 'P'
        && b[6] == 'r' && b[7] == 'o' && b[8] == 'j' && b[9] == 'e' && b[10] == 'c' && b[11]
        == 't' && b[12] == 's');
    assert(a.len() == 8 && b.len() == 13);
    assert forall|i: int| 0 <= i < marker.len() implies (#[trigger] marker[i]) != '/' && marker[i]
        != '-' && marker[i] != '.' by {
        if marker == a {
            if i == 0 {
            } else if i == 1 {
            } else if i == 2 {
            } else if i == 3 {
            } else if i == 4 {
            } else if i == 5 {
            } else if i == 6 {
            } else {
                assert(i == 7);
            }
        } else {
            if i == 0 {
            } else if i == 1 {
            } else if i == 2 {
            } else if i == 3 {
            } else if i == 4 {
            } else if i == 5 {
            } else if i == 6 {
            } else if i == 7 {
            } else if i == 8 {
            } else if i == 9 {
            } else if i == 10 {
            } else if i == 11 {
            } else {
                assert(i == 12);
            }
        }
    }
}

/// Words joined with a character that is neither a separator nor a dot
/// hold neither; joined with separators, they hold no dot.
proof fn lemma_join_keeps_free(words: Seq<Seq<char>>, sep: char, c: char)
    requires
        c != sep,
        forall|i: int| 0 <= i < words.len() ==> is_free_of(#[trigger] words[i], c),
    ensures
        is_free_of(join_with(words, seq![sep]), c),
    decreases words.len(),
{
    if words.len() >= 2 {
        let front = words.drop_last();
        assert forall|i: int| 0 <= i < front.len() implies is_free_of(#[trigger] front[i], c) by {
            assert(front[i] == words[i]);
        }
        lemma_join_keeps_free(front, sep, c);
        assert(is_free_of(words[words.len() - 1], c));
        let joined = join_with(words, seq![sep]);
        let before = join_with(front, seq![sep]);
        assert forall|i: int| 0 <= i < joined.len() implies #[trigger] joined[i] != c by {
            if i < before.len() {
                assert(joined[i] == before[i]);
            } else if i == before.len() {
                assert(joined[i] == sep);
            } else {
                assert(joined[i] == words.last()[i - before.len() - 1]);
            }
        }
    } else if words.len() == 1 {
        assert(is_free_of(words[0], c));
    }
}

/// Words joined with separators become the same words joined with dashes
/// when every separator is replaced by a dash.
proof fn lemma_dashes_of_join(words: Seq<Seq<char>>)
    requires
        forall|i: int| 0 <= i < words.len() ==> is_free_of(#[trigger] words[i], '/'),
    ensures
        separators_to_dashes(join_with(words, seq!['/'])) == join_with(words, seq!['-']),
    decreases words.len(),
{
    if words.len() == 0 {
        assert(separators_to_dashes(Seq::<char>::empty()) =~= Seq::<char>::empty());
    } else if words.len() == 1 {
        assert(is_free_of(words[0], '/'));
        assert(separators_to_dashes(words[0]) =~= words[0]);
    } else {
        let front = words.drop_last();
        assert forall|i: int| 0 <= i < front.len() implies is_free_of(#[trigger] front[i], '/') by {
            assert(front[i] == words[i]);
        }
        lemma_dashes_of_join(front);
        assert(is_free_of(words[words.len() - 1], '/'));
        let a = join_with(front, seq!['/']);
        let w = words.last();
        assert(separators_to_dashes(a + seq!['/'] + w) =~= separators_to_dashes(a) + seq!['-']
            + w);
    }
}

/// Among folders of which none is a marker, with a marker behind them,
/// the marker is the first; words behind it do not change that.
proof fn lemma_marker_found(folders: Seq<Seq<char>>, marker: Seq<char>, name: Seq<Seq<char>>)
    requires
        forall|i: int| 0 <= i < folders.len() ==> !is_root_marker(#[trigger] folders[i]),
        is_root_marker(marker),
    ensures
        first_marker(folders.push(marker) + name) == folders.len(),
    decreases name.len(),
{
    if name.len() == 0 {
        assert(folders.push(marker) + name =~= folders.push(marker));
        assert(folders.push(marker).drop_last() =~= folders);
        lemma_no_marker(folders);
    } else {
        lemma_marker_found(folders, marker, name.drop_last());
        assert((folders.push(marker) + name).drop_last() =~= folders.push(marker)
            + name.drop_last());
    }
}

/// There is no first marker where there is no marker.
proof fn lemma_no_marker(parts: Seq<Seq<char>>)
    requires
        forall|i: int| 0 <= i < parts.len() ==> !is_root_marker(#[trigger] parts[i]),
    ensures
        first_marker(parts) == -1,
    decreases parts.len(),
{
    if parts.len() > 0 {
        let front = parts.drop_last();
        assert forall|i: int| 0 <= i < front.len() implies !is_root_marker(#[trigger] front[i]) by {
            assert(front[i] == parts[i]);
        }
        lemma_no_marker(front);
        assert(!is_root_marker(parts[parts.len() - 1]));
    }
}

/// Parts of which none is empty are put together to one segment: the
/// parts with dashes between them.
proof fn lemma_assemble_name(name: Seq<Seq<char>>)
    requires
        name.len() > 0,
        forall|i: int| 0 <= i < name.len() ==> (#[trigger] name[i]).len() > 0,
    ensures
        assemble(name) == (Assembly {
            done: Seq::<Seq<char>>::empty(),
            current: join_with(name, seq!['-']),
            hidden: false,
        }),
        join_with(name, seq!['-']).len() > 0,
    decreases name.len(),
{
    assert(name[name.len() - 1].len() > 0);
    let front = name.drop_last();
    let last = name.last();
    if name.len() == 1 {
        assert(front =~= Seq::<Seq<char>>::empty());
        let start = assemble(front);
        assert(start.current.len() == 0 && !start.hidden);
        assert(start.with_part(last).current == last);
        assert(join_with(name, seq!['-']) == last);
    } else {
        assert forall|i: int| 0 <= i < front.len() implies (#[trigger] front[i]).len() > 0 by {
            assert(front[i] == name[i]);
        }
        lemma_assemble_name(front);
        let so_far = assemble(front);
        assert(so_far.current.len() > 0 && !so_far.hidden);
        assert(so_far.with_part(last).current == so_far.current + seq!['-'] + last);
        assert(join_with(name, seq!['-']) == join_with(front, seq!['-']) + seq!['-'] + last);
    }
}

/// Decoding undoes encoding for a project that lies right in a folder
/// for projects: where the folders down to the first folder named
/// `Projects` or `UnityProjects` are words, and the project's name is made
/// of words with single dashes between them, the directory name of the
/// path is read as the path again.
///
/// The same holds of the folder for projects itself (`name` is empty).
/// It does not hold of a path with a dash in a folder above the project,
/// nor of a folder below the project: such dashes and separators are all
/// read as part of the project's name.
pub proof fn lemma_path_round_trip(
    folders: Seq<Seq<char>>,
    marker: Seq<char>,
    name: Seq<Seq<char>>,
)
    requires
        forall|i: int|
            0 <= i < folders.len() ==> is_word(#[trigger] folders[i]) && !is_root_marker(
                folders[i],
            ),
        is_root_marker(marker),
        forall|i: int| 0 <= i < name.len() ==> is_word(#[trigger] name[i]) && name[i].len() > 0,
    ensures
        path_of(dir_name_of(project_path(folders, marker, name))) == project_path(
            folders,
            marker,
            name,
        ),
{
    let path = project_path(folders, marker, name);
    let above = folders.push(marker);
    let words = above + name;
    lemma_marker_is_word(marker);
    assert forall|i: int| 0 <= i < above.len() implies is_word(#[trigger] above[i]) by {
        if i < folders.len() {
            assert(above[i] == folders[i]);
        }
    }
    assert forall|i: int| 0 <= i < words.len() implies is_word(#[trigger] words[i]) by {
        if i < above.len() {
            assert(words[i] == above[i]);
        } else {
            assert(words[i] == name[i - above.len()]);
        }
    }
    // the path without its leading separator, and what it is encoded to
    let body = strip_leading(path, '/');
    assert(path[0] == '/');
    let head = join_with(above, seq!['/']);
    let project = join_with(name, seq!['-']);
    if name.len() == 0 {
        assert(body =~= head);
    } else {
        assert(body =~= head + seq!['/'] + project);
    }
    lemma_join_keeps_free(above, '/', '.');
    lemma_join_keeps_free(name, '-', '.');
    lemma_join_keeps_free(name, '-', '/');
    assert(is_free_of(body, '.')) by {
        assert forall|i: int| 0 <= i < body.len() implies #[trigger] body[i] != '.' by {
            if i < head.len() {
                assert(body[i] == head[i]);
            } else if i > head.len() {
                assert(body[i] == project[i - head.len() - 1]);
            }
        }
    }
    let coded = Seq::new(body.len(), |i: int| encoded_char(body, i));
    assert(coded =~= separators_to_dashes(body)) by {
        assert forall|i: int| 0 <= i < body.len() implies coded[i] == separators_to_dashes(
            body,
        )[i] by {
            assert(body[i] != '.');
        }
    }
    lemma_dashes_of_join(above);
    let dashed = join_with(words, seq!['-']);
    if name.len() == 0 {
        assert(words =~= above);
    } else {
        assert(is_free_of(project, '/'));
        assert(separators_to_dashes(head + seq!['/'] + project) =~= separators_to_dashes(head)
            + seq!['-'] + project);
        lemma_join_of_concat(above, name, seq!['-']);
    }
    assert(coded == dashed);
    let dir = dir_name_of(path);
    assert(dir == seq!['-'] + dashed);
    assert(dir[0] == '-');
    assert(strip_leading(dir, '-') =~= dashed);
    // the parts of the directory name are the words
    lemma_split_of_join(words, '-');
    let parts = split_on(dashed, '-');
    assert(parts == words);
    lemma_marker_found(folders, marker, name);
    let at = folders.len() as int;
    assert(parts.take(at + 1) =~= above);
    assert(parts.skip(at + 1) =~= name);
    if name.len() > 0 {
        lemma_assemble_name(name);
        assert(assemble(name).closed() =~= seq![project]);
        assert(join_with(seq![project], seq!['/']) == project);
    }
}

/// Decoding undoes encoding for the path of a folder for projects that
/// is written with a separator at its end.
pub proof fn lemma_path_round_trip_trailing_separator(folders: Seq<Seq<char>>, marker: Seq<char>)
    requires
        forall|i: int|
            0 <= i < folders.len() ==> is_word(#[trigger] folders[i]) && !is_root_marker(
                folders[i],
            ),
        is_root_marker(marker),
    ensures
        path_of(
            dir_name_of(seq!['/'] + join_with(folders.push(marker), seq!['/']) + seq!['/']),
        ) == seq!['/'] + join_with(folders.push(marker), seq!['/']) + seq!['/'],
{
    let above = folders.push(marker);
    let head = join_with(above, seq!['/']);
    let path = seq!['/'] + head + seq!['/'];
    let empty = Seq::<char>::empty();
    let name = seq![empty];
    let words = above + name;
    lemma_marker_is_word(marker);
    assert forall|i: int| 0 <= i < above.len() implies is_word(#[trigger] above[i]) by {
        if i < folders.len() {
            assert(above[i] == folders[i]);
        }
    }
    assert forall|i: int| 0 <= i < words.len() implies is_word(#[trigger] words[i]) by {
        if i < above.len() {
            assert(words[i] == above[i]);
        } else {
            assert(words[i] == empty);
        }
    }
    let body = strip_leading(path, '/');
    assert(path[0] == '/');
    assert(body =~= head + seq!['/']);
    lemma_join_keeps_free(above, '/', '.');
    assert forall|i: int| 0 <= i < body.len() implies #[trigger] body[i] != '.' by {
        if i < head.len() {
            assert(body[i] == head[i]);
        }
    }
    let coded = Seq::new(body.len(), |i: int| encoded_char(body, i));
    assert(coded =~= separators_to_dashes(body)) by {
        assert forall|i: int| 0 <= i < body.len() implies coded[i] == separators_to_dashes(
            body,
        )[i] by {
            assert(body[i] != '.');
        }
    }
    lemma_dashes_of_join(above);
    assert(separators_to_dashes(head + seq!['/']) =~= separators_to_dashes(head) + seq!['-']);
    lemma_join_of_concat(above, name, seq!['-']);
    assert(join_with(name, seq!['-']) == empty);
    let dashed = join_with(words, seq!['-']);
    assert(coded =~= dashed);
    let dir = dir_name_of(path);
    assert(dir == seq!['-'] + dashed);
    assert(dir[0] == '-');
    assert(strip_leading(dir, '-') =~= dashed);
    lemma_split_of_join(words, '-');
    lemma_marker_found(folders, marker, name);
    let parts = split_on(dashed, '-');
    let at = folders.len() as int;
    assert(parts.take(at + 1) =~= above);
    assert(parts.skip(at + 1) =~= name);
    assert(name.drop_last() =~= Seq::<Seq<char>>::empty());
    let start = assemble(name.drop_last());
    assert(start.current.len() == 0 && start.done.len() == 0);
    assert(assemble(name).closed() =~= Seq::<Seq<char>>::empty());
    assert(join_with(Seq::<Seq<char>>::empty(), seq!['/']) == empty);
    assert(path_of(dir) =~= path);
}

/// A vector holding the one character `c`.
fn single(c: char) -> (r: Vec<char>)
    ensures
        r@ == seq![c],
{
    let mut v: Vec<char> = Vec::new();
    v.push(c);
    v
}

/// The characters of `s` without one leading `c`.
fn without_leading(s: &Vec<char>, c: char) -> (r: Vec<char>)
    ensures
        r@ == strip_leading(s@, c),
{
    if s.len() > 0 && s[0] == c {
        slice(s, 1, s.len())
    } else {
        assert(s@.subrange(0, s.len() as int) == s@);
        slice(s, 0, s.len())
    }
}

/// The name of the log directory of the project at `path`.
pub fn convert_path_to_dir_name(path: &str) -> (r: String)
    ensures
        r@ == dir_name_of(path@),
{
    let chars = to_chars(path);
    let body = without_leading(&chars, '/');
    let ghost coded = Seq::new(body@.len(), |i: int| encoded_char(body@, i));
    let mut out = single('-');
    let mut i: usize = 0;
    while i < body.len()
        invariant
            i <= body.len(),
            coded == Seq::new(body@.len(), |i: int| encoded_char(body@, i)),
            out@ == seq!['-'] + coded.take(i as int),
        decreases body.len() - i,
    {
        let c = body[i];
        let dash = c == '/' || (c == '.' && i > 0 && body[i - 1] == '/');
        if dash {
            out.push('-');
        } else {
            out.push(c);
        }
        assert(coded.take(i + 1) == coded.take(i as int).push(coded[i as int]));
        i += 1;
    }
    assert(coded.take(body.len() as int) == coded);
    from_chars(&out)
}

/// Whether the part is a marker of the folder projects live in.
fn part_is_marker(part: &Vec<char>) -> (r: bool)
    ensures
        r == is_root_marker(part@),
{
    let a = to_chars("Projects");
    let b = to_chars("UnityProjects");
    chars_eq(part, &a) || chars_eq(part, &b)
}

/// Index of the first marker among the parts.
fn find_marker(parts: &Vec<Vec<char>>) -> (r: Option<usize>)
    ensures
        match r {
            Some(at) => at < parts.len() && first_marker(views(parts@)) == at,
            None => first_marker(views(parts@)) == -1,
        },
{
    let ghost all = views(parts@);
    let mut i: usize = 0;
    while i < parts.len()
        invariant
            i <= parts.len(),
            all == views(parts@),
            first_marker(all.take(i as int)) == -1,
        decreases parts.len() - i,
    {
        assert(all.take(i + 1).drop_last() == all.take(i as int));
        assert(all.take(i + 1).last() == parts@[i as int]@);
        if part_is_marker(&parts[i]) {
            proof {
                lemma_first_marker_stays(all, i + 1);
            }
            return Some(i);
        }
        i += 1;
    }
    assert(all.take(parts.len() as int) == all);
    None
}

/// A marker found among the first `n` parts is the first of all parts.
proof fn lemma_first_marker_stays(parts: Seq<Seq<char>>, n: int)
    requires
        0 <= n <= parts.len(),
        first_marker(parts.take(n)) >= 0,
    ensures
        first_marker(parts) == first_marker(parts.take(n)),
    decreases parts.len() - n,
{
    if n < parts.len() {
        assert(parts.take(n + 1).drop_last() == parts.take(n));
        lemma_first_marker_stays(parts, n + 1);
    } else {
        assert(parts.take(n) == parts);
    }
}

/// The segments that the parts from `from` on are put together to.
fn assemble_from(parts: &Vec<Vec<char>>, from: usize) -> (r: Vec<Vec<char>>)
    requires
        from <= parts.len(),
    ensures
        views(r@) == assemble(views(parts@).skip(from as int)).closed(),
{
    let ghost tail = views(parts@).skip(from as int);
    let mut done: Vec<Vec<char>> = Vec::new();
    let mut current: Vec<char> = Vec::new();
    let mut hidden = false;
    let mut i: usize = from;
    assert(tail.take(0) == Seq::<Seq<char>>::empty());
    assert(views(done@) == Seq::<Seq<char>>::empty());
    while i < parts.len()
        invariant
            from <= i <= parts.len(),
            tail == views(parts@).skip(from as int),
            assemble(tail.take(i - from)) == (Assembly {
                done: views(done@),
                current: current@,
                hidden: hidden,
            }),
        decreases parts.len() - i,
    {
        let ghost before = assemble(tail.take(i - from));
        assert(tail.take(i - from + 1).drop_last() == tail.take(i - from));
        assert(tail.take(i - from + 1).last() == parts@[i as int]@);
        let part = &parts[i];
        if part.len() == 0 {
            if current.len() > 0 {
                let ghost old_done = done@;
                done.push(current);
                assert(views(done@) == views(old_done).push(before.current));
                current = Vec::new();
            }
            hidden = true;
            assert(current@ == Seq::<char>::empty());
        } else if hidden {
            if current.len() == 0 {
                current = single('.');
                append(&mut current, part);
            } else {
                let ghost old_done = done@;
                done.push(current);
                assert(views(done@) == views(old_done).push(before.current));
                current = slice(part, 0, part.len());
                assert(part@.subrange(0, part.len() as int) == part@);
            }
        } else if current.len() == 0 {
            current = slice(part, 0, part.len());
            assert(part@.subrange(0, part.len() as int) == part@);
        } else {
            current.push('-');
            append(&mut current, part);
            assert(current@ == before.current + seq!['-'] + part@);
        }
        i += 1;
    }
    assert(tail.take(parts.len() - from) == tail);
    if current.len() > 0 {
        let ghost old_done = done@;
        let ghost last = current@;
        done.push(current);
        assert(views(done@) == views(old_done).push(last));
    }
    done
}

/// The path that the name of a log directory is read as.
pub fn convert_dir_name_to_path(dir_name: &str) -> (r: String)
    ensures
        r@ == path_of(dir_name@),
{
    let chars = to_chars(dir_name);
    let name = without_leading(&chars, '-');
    let parts = split(&name, '-');
    let separator = single('/');
    let mut path = single('/');
    match find_marker(&parts) {
        Some(at) => {
            assert(views(parts@).subrange(0, at + 1) == views(parts@).take(at + 1));
            let head = join_range(&parts, 0, at + 1, &separator);
            append(&mut path, &head);
            if at + 1 < parts.len() {
                let segments = assemble_from(&parts, at + 1);
                let tail = join(&segments, &separator);
                path.push('/');
                append(&mut path, &tail);
                assert(path@ == seq!['/'] + head@ + seq!['/'] + tail@);
            }
        },
        None => {
            let ghost mapped = dashes_to_separators(name@);
            let mut i: usize = 0;
            while i < name.len()
                invariant
                    i <= name.len(),
                    mapped == dashes_to_separators(name@),
                    path@ == seq!['/'] + mapped.take(i as int),
                decreases name.len() - i,
            {
                if name[i] == '-' {
                    path.push('/');
                } else {
                    path.push(name[i]);
                }
                assert(mapped.take(i + 1) == mapped.take(i as int).push(mapped[i as int]));
                i += 1;
            }
            assert(mapped.take(name.len() as int) == mapped);
        },
    }
    from_chars(&path)
}

} // verus!
