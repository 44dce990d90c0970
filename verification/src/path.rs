//! Lexical file paths, as on Unix: components are separated by `/`; empty components and `.`
//! components count for nothing, except a `.` that a relative path begins with.

use vstd::prelude::*;
use crate::text;

verus! {

/// Where the components of `p` begin, behind its root or its leading `.`.
pub open spec fn body_start(p: Seq<char>) -> int {
    if p.len() > 0 && (p[0] == '/' || (p[0] == '.' && (p.len() == 1 || p[1] == '/'))) {
        1
    } else {
        0
    }
}

/// Where the last component of `p[from..to]` begins.
pub open spec fn piece_start(p: Seq<char>, from: int, to: int) -> int
    decreases to - from,
{
    if from < to && p[to - 1] != '/' {
        piece_start(p, from, to - 1)
    } else {
        to
    }
}

/// Where `p[from..to]` ends without the component that begins at `start`, and without the
/// separator before it.
pub open spec fn before_piece(from: int, start: int) -> int {
    if start > from {
        start - 1
    } else {
        from
    }
}

/// Where `p[from..to]` ends without the components at its end that count for nothing.
pub open spec fn significant_end(p: Seq<char>, from: int, to: int) -> int
    decreases to - from,
{
    let start = piece_start(p, from, to);
    if from < to && from <= start <= to && (start == to || (start == to - 1 && p[start] == '.')) {
        significant_end(p, from, before_piece(from, start))
    } else {
        to
    }
}

/// The last component of `p`, unless `p` has none or ends in `..`.
pub open spec fn file_name(p: Seq<char>) -> Option<Seq<char>> {
    let from = body_start(p);
    let end = significant_end(p, from, p.len() as int);
    let piece = p.subrange(piece_start(p, from, end), end);
    if end <= from || piece == seq!['.', '.'] {
        None
    } else {
        Some(piece)
    }
}

/// `p` without its last component, unless `p` is empty or the root.
pub open spec fn parent(p: Seq<char>) -> Option<Seq<char>> {
    let from = body_start(p);
    let end = significant_end(p, from, p.len() as int);
    if end > from {
        let rest = before_piece(from, piece_start(p, from, end));
        Some(p.take(significant_end(p, from, rest)))
    } else if from == 1 && p[0] == '.' {
        Some(Seq::empty())
    } else {
        None
    }
}

/// `name` inside the directory `dir`. An absolute `name` stands for itself.
pub open spec fn join(dir: Seq<char>, name: Seq<char>) -> Seq<char> {
    if name.len() > 0 && name[0] == '/' {
        name
    } else if dir.len() == 0 || dir.last() == '/' {
        dir + name
    } else {
        dir.push('/') + name
    }
}

/// `p` with its last component replaced by `name`, or with `name` added to it where it has no
/// file name.
pub open spec fn with_file_name(p: Seq<char>, name: Seq<char>) -> Seq<char> {
    match (file_name(p), parent(p)) {
        (Some(_), Some(dir)) => join(dir, name),
        _ => join(p, name),
    }
}

/// Whether `name` can name a file: one component that is neither `.` nor `..`.
pub open spec fn is_plain_name(name: Seq<char>) -> bool {
    &&& name.len() > 0
    &&& !name.contains('/')
    &&& name != seq!['.']
    &&& name != seq!['.', '.']
}

proof fn piece_start_bounds(p: Seq<char>, from: int, to: int)
    requires
        0 <= from <= to <= p.len(),
    ensures
        from <= piece_start(p, from, to) <= to,
        forall|i: int| piece_start(p, from, to) <= i < to ==> #[trigger] p[i] != '/',
        piece_start(p, from, to) > from ==> p[piece_start(p, from, to) - 1] == '/',
    decreases to - from,
{
    if from < to && p[to - 1] != '/' {
        piece_start_bounds(p, from, to - 1);
    }
}

proof fn significant_end_bounds(p: Seq<char>, from: int, to: int)
    requires
        0 <= from <= to <= p.len(),
    ensures
        from <= significant_end(p, from, to) <= to,
        significant_end(p, from, to) > from ==> {
            let start = piece_start(p, from, significant_end(p, from, to));
            start < significant_end(p, from, to) && !(start == significant_end(p, from, to) - 1
                && p[start] == '.')
        },
    decreases to - from,
{
    piece_start_bounds(p, from, to);
    let start = piece_start(p, from, to);
    if from < to && (start == to || (start == to - 1 && p[start] == '.')) {
        significant_end_bounds(p, from, before_piece(from, start));
    }
}

/// A file name is a plain name.
pub proof fn file_name_is_plain(p: Seq<char>)
    ensures
        file_name(p) matches Some(name) ==> is_plain_name(name),
{
    let from = body_start(p);
    let end = significant_end(p, from, p.len() as int);
    significant_end_bounds(p, from, p.len() as int);
    piece_start_bounds(p, from, end);
    let start = piece_start(p, from, end);
    let name = p.subrange(start, end);
    if end > from {
        assert(forall|i: int| 0 <= i < name.len() ==> name[i] == p[start + i]);
        if name == seq!['.'] {
            assert(name.len() == 1);
            assert(name[0] == '.');
            assert(false);
        }
    }
}

proof fn piece_start_found(p: Seq<char>, from: int, at: int, to: int)
    requires
        0 <= from <= at <= to <= p.len(),
        forall|i: int| at <= i < to ==> #[trigger] p[i] != '/',
        at == from || p[at - 1] == '/',
    ensures
        piece_start(p, from, to) == at,
    decreases to - from,
{
    if at < to {
        assert(p[to - 1] != '/');
        piece_start_found(p, from, at, to - 1);
    }
}

/// A plain name inside a directory is the file name of the path.
pub proof fn joined_name_is_file_name(dir: Seq<char>, name: Seq<char>)
    requires
        is_plain_name(name),
    ensures
        file_name(join(dir, name)) == Some(name),
{
    let p = join(dir, name);
    let at = p.len() - name.len();
    let from = body_start(p);
    assert(name[0] != '/') by {
        assert(name.contains(name[0]));
    }
    assert(p.subrange(at, p.len() as int) =~= name);
    assert forall|i: int| at <= i < p.len() implies #[trigger] p[i] != '/' by {
        assert(p[i] == name[i - at]);
        assert(name.contains(name[i - at]));
    }
    if dir.len() == 0 {
        assert(p =~= name);
        if from == 1 {
            assert(p[0] == '.');
            if p.len() == 1 {
                assert(name =~= seq!['.']);
            } else {
                assert(p[1] != '/');
            }
            assert(false);
        }
    } else {
        assert(p[at - 1] == '/');
    }
    piece_start_found(p, from, at, p.len() as int);
    if name.len() == 1 && p[at] == '.' {
        assert(name[0] == '.');
        assert(name =~= seq!['.']);
    }
    assert(significant_end(p, from, p.len() as int) == p.len());
}

/// Replacing the file name by a plain name makes it the file name.
pub proof fn replaced_name_is_file_name(p: Seq<char>, name: Seq<char>)
    requires
        is_plain_name(name),
    ensures
        file_name(with_file_name(p, name)) == Some(name),
{
    match (file_name(p), parent(p)) {
        (Some(_), Some(dir)) => joined_name_is_file_name(dir, name),
        _ => joined_name_is_file_name(p, name),
    }
}

proof fn pieces_depend_on_what_they_cover(p: Seq<char>, q: Seq<char>, from: int, to: int)
    requires
        0 <= from <= to <= p.len(),
        to <= q.len(),
        p.take(to) == q.take(to),
    ensures
        piece_start(p, from, to) == piece_start(q, from, to),
        significant_end(p, from, to) == significant_end(q, from, to),
    decreases to - from,
{
    assert forall|i: int| 0 <= i < to implies p[i] == q[i] by {
        assert(p.take(to)[i] == p[i]);
        assert(q.take(to)[i] == q[i]);
    }
    if from < to {
        assert(p.take(to - 1) =~= q.take(to - 1));
        pieces_depend_on_what_they_cover(p, q, from, to - 1);
        piece_start_bounds(p, from, to);
        let start = piece_start(p, from, to);
        let rest = before_piece(from, start);
        if rest < to {
            assert(p.take(rest) =~= q.take(rest));
            pieces_depend_on_what_they_cover(p, q, from, rest);
        }
    }
}

proof fn tail_counts_for_nothing(p: Seq<char>, tail: Seq<char>)
    requires
        p.len() > 0,
        tail == seq!['/'] || tail == seq!['/', '.'],
    ensures
        body_start(p + tail) == body_start(p),
        significant_end(p + tail, body_start(p), (p.len() + tail.len()) as int)
            == significant_end(p, body_start(p), p.len() as int),
        file_name(p + tail) == file_name(p),
        parent(p + tail) == parent(p),
{
    let q = p + tail;
    let from = body_start(p);
    let n = p.len() as int;
    let to = q.len() as int;
    assert(q[0] == p[0]);
    assert(q[n] == '/');
    assert(body_start(q) == from) by {
        if p.len() > 1 {
            assert(q[1] == p[1]);
        }
    }
    assert(q.take(n) =~= p.take(n));
    if tail == seq!['/'] {
        assert(piece_start(q, from, to) == to);
    } else {
        assert(q[n + 1] == '.');
        piece_start_found(q, from, n + 1, to);
    }
    pieces_depend_on_what_they_cover(q, p, from, n);
    assert(significant_end(q, from, to) == significant_end(q, from, n));
    significant_end_bounds(p, from, n);
    let end = significant_end(p, from, n);
    assert(q.take(end) =~= p.take(end));
    pieces_depend_on_what_they_cover(q, p, from, end);
    piece_start_bounds(p, from, end);
    let start = piece_start(p, from, end);
    assert(q.subrange(start, end) =~= p.subrange(start, end));
    if end > from {
        let rest = before_piece(from, start);
        assert(q.take(rest) =~= p.take(rest));
        pieces_depend_on_what_they_cover(q, p, from, rest);
        significant_end_bounds(p, from, rest);
        let cut = significant_end(p, from, rest);
        assert(q.take(cut) =~= p.take(cut));
    }
}

/// A separator at the end of a path, or one with a `.` behind it, counts for nothing: neither the
/// file name nor the directory changes.
pub proof fn trailing_separators_count_for_nothing(p: Seq<char>)
    requires
        p.len() > 0,
    ensures
        file_name(p + seq!['/']) == file_name(p),
        parent(p + seq!['/']) == parent(p),
        file_name(p + seq!['/', '.']) == file_name(p),
        parent(p + seq!['/', '.']) == parent(p),
{
    tail_counts_for_nothing(p, seq!['/']);
    tail_counts_for_nothing(p, seq!['/', '.']);
}

proof fn parent_of_dir_and_name(dir: Seq<char>, name: Seq<char>)
    requires
        dir.len() > 0,
        name.len() > 0,
        !name.contains('/'),
        name != seq!['.'],
    ensures
        body_start(dir + seq!['/'] + name) == body_start(dir),
        parent(dir + seq!['/'] + name) == Some(
            dir.take(significant_end(dir, body_start(dir), dir.len() as int)),
        ),
{
    let p = dir + seq!['/'] + name;
    let from = body_start(dir);
    let n = dir.len() as int;
    let to = p.len() as int;
    assert(p[0] == dir[0] && p[n] == '/');
    assert(body_start(p) == from) by {
        if dir.len() > 1 {
            assert(p[1] == dir[1]);
        }
    }
    assert forall|i: int| n + 1 <= i < to implies #[trigger] p[i] != '/' by {
        assert(p[i] == name[i - n - 1]);
        assert(name.contains(name[i - n - 1]));
    }
    piece_start_found(p, from, n + 1, to);
    if name.len() == 1 && p[n + 1] == '.' {
        assert(name =~= seq!['.']);
    }
    assert(significant_end(p, from, to) == to);
    assert(p.take(n) =~= dir.take(n));
    pieces_depend_on_what_they_cover(p, dir, from, n);
    significant_end_bounds(dir, from, n);
    let cut = significant_end(dir, from, n);
    assert(p.take(cut) =~= dir.take(cut));
}

/// The directory of a path is what stands before its last separator, where that does not end in
/// a separator or in a `.` component itself. A bare name is in the empty directory, and one
/// behind the root in the root.
pub proof fn parent_is_what_stands_before_the_name(dir: Seq<char>, name: Seq<char>)
    requires
        name.len() > 0,
        !name.contains('/'),
        name != seq!['.'],
    ensures
        parent(name) == Some(Seq::<char>::empty()),
        parent(seq!['/'] + name) == Some(seq!['/']),
        dir.len() > 0 && dir.last() != '/' && (dir.last() == '.' && dir.len() > 1 ==> dir[dir.len()
            - 2] != '/') ==> parent(dir + seq!['/'] + name) == Some(dir),
{
    assert(name[0] != '/') by {
        assert(name.contains(name[0]));
    }
    assert forall|i: int| 0 <= i < name.len() implies #[trigger] name[i] != '/' by {
        assert(name.contains(name[i]));
    }
    if name.len() == 1 && name[0] == '.' {
        assert(name =~= seq!['.']);
    }
    let to = name.len() as int;
    assert(body_start(name) == 0);
    piece_start_found(name, 0, 0, to);
    assert(significant_end(name, 0, to) == to);
    assert(name.take(0) =~= Seq::empty());
    let rooted = seq!['/'] + name;
    assert(body_start(rooted) == 1);
    assert forall|i: int| 1 <= i < to + 1 implies #[trigger] rooted[i] != '/' by {
        assert(rooted[i] == name[i - 1]);
    }
    piece_start_found(rooted, 1, 1, to + 1);
    if name.len() == 1 {
        assert(rooted[1] == name[0]);
    }
    assert(significant_end(rooted, 1, to + 1) == to + 1);
    assert(rooted.take(1) =~= seq!['/']);
    if dir.len() > 0 && dir.last() != '/' && (dir.last() == '.' && dir.len() > 1 ==> dir[dir.len()
        - 2] != '/') {
        parent_of_dir_and_name(dir, name);
        let from = body_start(dir);
        let n = dir.len() as int;
        piece_start_bounds(dir, from, n);
        let start = piece_start(dir, from, n);
        assert(significant_end(dir, from, n) == n);
        assert(dir.take(n) =~= dir);
    }
}

/// Further separators and `.` components before a name count for nothing.
pub proof fn inner_separators_count_for_nothing(dir: Seq<char>, name: Seq<char>)
    requires
        dir.len() > 0,
        name.len() > 0,
        !name.contains('/'),
        name != seq!['.'],
    ensures
        parent(dir + seq!['/'] + seq!['/'] + name) == parent(dir + seq!['/'] + name),
        parent(dir + seq!['/', '.'] + seq!['/'] + name) == parent(dir + seq!['/'] + name),
        parent(seq!['/'] + seq!['/'] + name) == Some(seq!['/']),
        parent(seq!['/', '.'] + seq!['/'] + name) == Some(seq!['/']),
{
    parent_of_dir_and_name(seq!['/'], name);
    parent_of_dir_and_name(seq!['/', '.'], name);
    let rooted = seq!['/', '.'];
    assert(body_start(rooted) == 1);
    piece_start_found(rooted, 1, 1, 2);
    reveal_with_fuel(significant_end, 3);
    assert(significant_end(rooted, 1, 2) == 1);
    assert(rooted.take(1) =~= seq!['/']);
    assert(seq!['/'].take(1) =~= seq!['/']);
    parent_of_dir_and_name(dir, name);
    parent_of_dir_and_name(dir + seq!['/'], name);
    parent_of_dir_and_name(dir + seq!['/', '.'], name);
    tail_counts_for_nothing(dir, seq!['/']);
    tail_counts_for_nothing(dir, seq!['/', '.']);
    significant_end_bounds(dir, body_start(dir), dir.len() as int);
    let cut = significant_end(dir, body_start(dir), dir.len() as int);
    assert((dir + seq!['/']).take(cut) =~= dir.take(cut));
    assert((dir + seq!['/', '.']).take(cut) =~= dir.take(cut));
}

/// The empty path and the root have neither a file name nor a directory; a lone `.` has the empty
/// directory; and a path whose last component is `..` has no file name.
pub proof fn paths_without_a_file_name(dir: Seq<char>)
    ensures
        file_name(Seq::empty()) is None && parent(Seq::empty()) is None,
        file_name(seq!['/']) is None && parent(seq!['/']) is None,
        file_name(seq!['.']) is None && parent(seq!['.']) == Some(Seq::<char>::empty()),
        file_name(seq!['.', '.']) is None,
        file_name(dir + seq!['/', '.', '.']) is None,
        file_name(seq!['/', '.']) is None && parent(seq!['/', '.']) is None,
{
    let rooted = seq!['/', '.'];
    assert(body_start(rooted) == 1);
    piece_start_found(rooted, 1, 1, 2);
    reveal_with_fuel(significant_end, 3);
    assert(significant_end(rooted, 1, 2) == 1);
    let up = seq!['.', '.'];
    assert(body_start(up) == 0);
    piece_start_found(up, 0, 0, 2);
    assert(significant_end(up, 0, 2) == 2);
    assert(up.subrange(0, 2) =~= up);
    let p = dir + seq!['/', '.', '.'];
    let n = dir.len() as int;
    let from = body_start(p);
    assert(p[n] == '/' && p[n + 1] == '.' && p[n + 2] == '.');
    assert(from <= n + 1);
    piece_start_found(p, from, n + 1, n + 3);
    assert(significant_end(p, from, n + 3) == n + 3);
    assert(p.subrange(n + 1, n + 3) =~= up);
}

/// A name is put into a directory with one separator between them; into the empty directory, or
/// behind a separator, it is put as it is. An absolute name stands for itself.
pub proof fn names_are_joined_by_one_separator(dir: Seq<char>, name: Seq<char>)
    ensures
        name.len() > 0 && name[0] == '/' ==> join(dir, name) == name,
        !(name.len() > 0 && name[0] == '/') ==> {
            &&& dir.len() == 0 ==> join(dir, name) == name
            &&& dir.len() > 0 && dir.last() == '/' ==> join(dir, name) == dir + name
            &&& dir.len() > 0 && dir.last() != '/' ==> join(dir, name) == dir + seq!['/'] + name
        },
{
    assert(Seq::empty() + name =~= name);
    assert(dir.len() == 0 ==> dir + name =~= name);
    assert(dir.push('/') + name =~= dir + seq!['/'] + name);
}

/// Replacing the file name keeps the directory; a path without a file name gets one.
pub proof fn replacing_keeps_the_directory(dir: Seq<char>, name: Seq<char>, new: Seq<char>)
    requires
        is_plain_name(name),
        is_plain_name(new),
    ensures
        with_file_name(name, new) == new,
        with_file_name(seq!['/'] + name, new) == seq!['/'] + new,
        dir.len() > 0 && dir.last() != '/' && (dir.last() == '.' && dir.len() > 1 ==> dir[dir.len()
            - 2] != '/') ==> with_file_name(dir + seq!['/'] + name, new) == dir + seq!['/'] + new,
        file_name(dir) is None ==> with_file_name(dir, new) == join(dir, new),
        file_name(dir) is Some ==> (parent(dir) matches Some(d) ==> with_file_name(dir, new)
            == join(d, new)),
{
    parent_is_what_stands_before_the_name(dir, name);
    joined_name_is_file_name(Seq::empty(), name);
    joined_name_is_file_name(seq!['/'], name);
    joined_name_is_file_name(dir, name);
    names_are_joined_by_one_separator(Seq::empty(), name);
    names_are_joined_by_one_separator(seq!['/'], name);
    names_are_joined_by_one_separator(dir, name);
    names_are_joined_by_one_separator(Seq::empty(), new);
    names_are_joined_by_one_separator(seq!['/'], new);
    names_are_joined_by_one_separator(dir, new);
    assert(name[0] != '/') by {
        assert(name.contains(name[0]));
    }
    assert(new[0] != '/') by {
        assert(new.contains(new[0]));
    }
}

fn find_body_start(p: &Vec<char>) -> (n: usize)
    ensures
        n == body_start(p@),
        n <= p.len(),
{
    if p.len() > 0 && (p[0] == '/' || (p[0] == '.' && (p.len() == 1 || p[1] == '/'))) {
        1
    } else {
        0
    }
}

fn find_piece_start(p: &Vec<char>, from: usize, to: usize) -> (n: usize)
    requires
        from <= to <= p.len(),
    ensures
        n == piece_start(p@, from as int, to as int),
        from <= n <= to,
{
    let mut n: usize = to;
    while from < n && p[n - 1] != '/'
        invariant
            from <= n <= to <= p.len(),
            piece_start(p@, from as int, n as int) == piece_start(p@, from as int, to as int),
        decreases n,
    {
        n = n - 1;
    }
    n
}

fn find_significant_end(p: &Vec<char>, from: usize, to: usize) -> (n: usize)
    requires
        from <= to <= p.len(),
    ensures
        n == significant_end(p@, from as int, to as int),
        from <= n <= to,
{
    let mut n: usize = to;
    let mut start = find_piece_start(p, from, n);
    while from < n && (start == n || (start == n - 1 && p[start] == '.'))
        invariant
            from <= start <= n <= to <= p.len(),
            start == piece_start(p@, from as int, n as int),
            significant_end(p@, from as int, n as int) == significant_end(
                p@,
                from as int,
                to as int,
            ),
        decreases n,
    {
        n = if start > from {
            start - 1
        } else {
            from
        };
        start = find_piece_start(p, from, n);
    }
    n
}

fn text_of(p: &Vec<char>, from: usize, to: usize) -> (s: String)
    requires
        from <= to <= p.len(),
    ensures
        s@ == p@.subrange(from as int, to as int),
{
    let mut s = String::new();
    let mut i: usize = from;
    while i < to
        invariant
            from <= i <= to <= p.len(),
            s@ == p@.subrange(from as int, i as int),
        decreases to - i,
    {
        s.push(p[i]);
        i = i + 1;
        assert(p@.subrange(from as int, i as int) == p@.subrange(from as int, i - 1).push(
            p@[i - 1],
        ));
    }
    s
}

/// The last component of a path.
pub fn file_name_of(path: &str) -> (name: Option<String>)
    ensures
        match name {
            Some(name) => file_name(path@) == Some(name@),
            None => file_name(path@) is None,
        },
{
    let p = text::to_chars(path);
    let from = find_body_start(&p);
    let end = find_significant_end(&p, from, p.len());
    if end <= from {
        return None;
    }
    let start = find_piece_start(&p, from, end);
    let ghost piece = p@.subrange(start as int, end as int);
    if end - start == 2 && p[start] == '.' && p[start + 1] == '.' {
        assert(piece =~= seq!['.', '.']);
        return None;
    }
    proof {
        if piece == seq!['.', '.'] {
            assert(piece.len() == 2 && piece[0] == '.' && piece[1] == '.');
        }
    }
    Some(text_of(&p, start, end))
}

/// A path without its last component.
pub fn parent_of(path: &str) -> (dir: Option<String>)
    ensures
        match dir {
            Some(dir) => parent(path@) == Some(dir@),
            None => parent(path@) is None,
        },
{
    let p = text::to_chars(path);
    let from = find_body_start(&p);
    let end = find_significant_end(&p, from, p.len());
    if end > from {
        let start = find_piece_start(&p, from, end);
        let rest: usize = if start > from {
            start - 1
        } else {
            from
        };
        let n = find_significant_end(&p, from, rest);
        assert(p@.take(n as int) =~= p@.subrange(0, n as int));
        Some(text_of(&p, 0, n))
    } else if from == 1 && p[0] == '.' {
        Some(String::new())
    } else {
        None
    }
}

/// A name inside a directory.
pub fn joined(dir: &str, name: &str) -> (p: String)
    ensures
        p@ == join(dir@, name@),
{
    let n = text::to_chars(name);
    if n.len() > 0 && n[0] == '/' {
        return name.to_string();
    }
    let d = text::to_chars(dir);
    let mut p = dir.to_string();
    if d.len() > 0 && d[d.len() - 1] != '/' {
        p.push('/');
    }
    p.append(name);
    p
}

/// A path with its last component replaced.
pub fn replaced(path: &str, name: &str) -> (p: String)
    ensures
        p@ == with_file_name(path@, name@),
{
    match (file_name_of(path), parent_of(path)) {
        (Some(_), Some(dir)) => joined(dir.as_str(), name),
        _ => joined(path, name),
    }
}

} // verus!
