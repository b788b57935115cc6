use crate::path::{join, spec_join};
use crate::text::chars_of;
use vstd::prelude::*;

verus! {

/// The position of the first occurrence of `c` in `s`, or the length of `s`
/// where there is none.
pub open spec fn first_index_of(s: Seq<char>, c: char) -> int
    decreases s.len(),
{
    if s.len() == 0 {
        0
    } else if s[0] == c {
        0
    } else {
        1 + first_index_of(s.drop_first(), c)
    }
}

/// `first_index_of` names an occurrence of `c`, and no occurrence comes
/// before it.
pub proof fn lemma_first_index_of(s: Seq<char>, c: char)
    ensures
        0 <= first_index_of(s, c) <= s.len(),
        first_index_of(s, c) < s.len() ==> s[first_index_of(s, c)] == c,
        forall|k: int| 0 <= k < first_index_of(s, c) ==> s[k] != c,
    decreases s.len(),
{
    if s.len() > 0 && s[0] != c {
        let rest = s.drop_first();
        lemma_first_index_of(rest, c);
        assert forall|k: int| 0 <= k < first_index_of(s, c) implies s[k] != c by {
            if k > 0 {
                assert(rest[k - 1] == s[k]);
            }
        }
    }
}

/// A position before which `c` does not occur, and which holds `c` or is
/// the end, is the one that `first_index_of` gives.
pub proof fn lemma_first_index_of_is(s: Seq<char>, c: char, r: int)
    requires
        0 <= r <= s.len(),
        r < s.len() ==> s[r] == c,
        forall|k: int| 0 <= k < r ==> s[k] != c,
    ensures
        first_index_of(s, c) == r,
{
    lemma_first_index_of(s, c);
}

/// The pieces of a name between its `/` characters, in order. A name
/// without `/` is its own single piece.
pub open spec fn spec_components(name: Seq<char>) -> Seq<Seq<char>>
    decreases name.len(),
{
    let k = first_index_of(name, '/');
    if k < 0 || k >= name.len() {
        seq![name]
    } else {
        seq![name.take(k)] + spec_components(name.skip(k + 1))
    }
}

/// The directories entered so far, after one more piece of a name: an empty
/// piece and `.` stay where they are, `..` leaves the last directory
/// entered, any other piece enters one. `None` where `..` would leave the
/// starting point.
pub open spec fn step(stack: Seq<Seq<char>>, piece: Seq<char>) -> Option<Seq<Seq<char>>> {
    if piece.len() == 0 || piece == seq!['.'] {
        Some(stack)
    } else if piece == seq!['.', '.'] {
        if stack.len() == 0 {
            None
        } else {
            Some(stack.drop_last())
        }
    } else {
        Some(stack.push(piece))
    }
}

/// `step` over all the pieces, from the first to the last.
pub open spec fn walk(pieces: Seq<Seq<char>>, stack: Seq<Seq<char>>) -> Option<Seq<Seq<char>>>
    decreases pieces.len(),
{
    if pieces.len() == 0 {
        Some(stack)
    } else {
        match step(stack, pieces[0]) {
            Some(next) => walk(pieces.drop_first(), next),
            None => None,
        }
    }
}

/// The directories and the final item that a stored name leads through,
/// counted from the place of unpacking. `None` for a name that holds a NUL
/// character, that starts at the root, or that at some point would leave the
/// place of unpacking.
pub open spec fn spec_safe_components(name: Seq<char>) -> Option<Seq<Seq<char>>> {
    if name.contains('\0') || (name.len() > 0 && name[0] == '/') {
        None
    } else {
        walk(spec_components(name), Seq::empty())
    }
}

/// A directory path followed by the given pieces, one inside the other.
pub open spec fn nest(dir: Seq<char>, pieces: Seq<Seq<char>>) -> Seq<char>
    decreases pieces.len(),
{
    if pieces.len() == 0 {
        dir
    } else {
        spec_join(nest(dir, pieces.drop_last()), pieces.last())
    }
}

/// Whether a stored name is that of a directory: it ends in `/`.
pub open spec fn spec_names_directory(name: Seq<char>) -> bool {
    name.len() > 0 && name.last() == '/'
}

/// The path at which the entry of a stored name is written when the archive
/// is unpacked into `dir`. `None` for a name that is not safe, and for a
/// file whose name leads to `dir` itself.
pub open spec fn spec_entry_path(dir: Seq<char>, name: Seq<char>) -> Option<Seq<char>> {
    match spec_safe_components(name) {
        Some(pieces) => if pieces.len() == 0 && !spec_names_directory(name) {
            None
        } else {
            Some(nest(dir, pieces))
        },
        None => None,
    }
}

/// Whether the entry of a stored name can be unpacked inside a directory:
/// the name is safe, and it names something inside, unless the entry is a
/// directory, which may be the place of unpacking itself.
pub open spec fn spec_is_admitted(name: Seq<char>, is_directory: bool) -> bool {
    match spec_safe_components(name) {
        Some(pieces) => pieces.len() > 0 || is_directory || spec_names_directory(name),
        None => false,
    }
}

/// The pieces of `s` that the spans cut out.
pub open spec fn cut(s: Seq<char>, spans: Seq<(usize, usize)>) -> Seq<Seq<char>> {
    Seq::new(spans.len(), |j: int| s.subrange(spans[j].0 as int, spans[j].1 as int))
}

/// Whether every span lies within a text of length `len`.
pub open spec fn spans_fit(spans: Seq<(usize, usize)>, len: nat) -> bool {
    forall|j: int| 0 <= j < spans.len() ==> (#[trigger] spans[j]).0 <= spans[j].1 <= len
}

/// Takes one more piece of a name, the characters from `from` up to `to`,
/// into account. Returns whether the name is still inside the place of
/// unpacking.
fn take_piece(chars: &Vec<char>, stack: &mut Vec<(usize, usize)>, from: usize, to: usize) -> (ok:
    bool)
    requires
        from <= to <= chars.len(),
        spans_fit(old(stack)@, chars@.len()),
    ensures
        spans_fit(final(stack)@, chars@.len()),
        match step(cut(chars@, old(stack)@), chars@.subrange(from as int, to as int)) {
            Some(next) => ok && cut(chars@, final(stack)@) == next,
            None => !ok,
        },
{
    let ghost piece = chars@.subrange(from as int, to as int);
    let ghost before = cut(chars@, stack@);
    let len: usize = to - from;
    if len == 0 {
        return true;
    }
    if len == 1 && chars[from] == '.' {
        assert(piece =~= seq!['.']);
        return true;
    }
    if len == 2 && chars[from] == '.' && chars[from + 1] == '.' {
        assert(piece =~= seq!['.', '.']);
        if stack.len() == 0 {
            return false;
        }
        stack.pop();
        assert(cut(chars@, stack@) =~= before.drop_last());
        return true;
    }
    assert(piece != seq!['.'] && piece != seq!['.', '.']) by {
        assert(piece.len() == len);
        assert(seq!['.'].len() == 1 && seq!['.'][0] == '.');
        assert(seq!['.', '.'].len() == 2 && seq!['.', '.'][0] == '.' && seq!['.', '.'][1] == '.');
        if len == 1 {
            assert(piece[0] != '.');
        }
        if len == 2 {
            assert(piece[0] != '.' || piece[1] != '.');
        }
    }
    stack.push((from, to));
    assert(cut(chars@, stack@) =~= before.push(piece));
    true
}

/// Splits a stored name at its `/` characters and follows the pieces. Each
/// span of the result gives, in characters, where a piece begins and ends in
/// the name.
pub fn safe_components(name: &str) -> (r: Option<Vec<(usize, usize)>>)
    ensures
        match r {
            Some(spans) => spans_fit(spans@, name@.len()) && spec_safe_components(name@) == Some(
                cut(name@, spans@),
            ),
            None => spec_safe_components(name@) is None,
        },
{
    let chars = chars_of(name);
    let n: usize = chars.len();
    if n > 0 && chars[0] == '/' {
        return None;
    }
    let mut stack: Vec<(usize, usize)> = Vec::new();
    let mut start: usize = 0;
    let mut i: usize = 0;
    assert(chars@.skip(0) =~= chars@);
    assert(cut(chars@, stack@) =~= Seq::<Seq<char>>::empty());
    while i < n
        invariant
            chars@ == name@,
            n == chars.len(),
            start <= i <= n,
            forall|k: int| start <= k < i ==> chars@[k] != '/',
            forall|k: int| 0 <= k < i ==> chars@[k] != '\0',
            spans_fit(stack@, chars@.len()),
            walk(spec_components(chars@), Seq::empty()) == walk(
                spec_components(chars@.skip(start as int)),
                cut(chars@, stack@),
            ),
        decreases n - i,
    {
        if chars[i] == '\0' {
            assert(name@.contains('\0'));
            return None;
        }
        if chars[i] == '/' {
            let ghost tail = chars@.skip(start as int);
            proof {
                lemma_first_index_of_is(tail, '/', i - start);
                assert(tail.take(i - start) =~= chars@.subrange(start as int, i as int));
                assert(tail.skip(i - start + 1) =~= chars@.skip(i + 1));
                let pieces = spec_components(tail);
                let rest = spec_components(chars@.skip(i + 1));
                assert(pieces == seq![tail.take(i - start)] + rest);
                assert(pieces.drop_first() =~= rest);
            }
            if !take_piece(&chars, &mut stack, start, i) {
                return None;
            }
            start = i + 1;
        }
        i += 1;
    }
    let ghost tail = chars@.skip(start as int);
    proof {
        lemma_first_index_of_is(tail, '/', tail.len() as int);
        assert(tail =~= chars@.subrange(start as int, n as int));
        assert(spec_components(tail) == seq![tail]);
        assert(seq![tail].drop_first() =~= Seq::<Seq<char>>::empty());
        assert(!name@.contains('\0'));
    }
    let ghost before = cut(chars@, stack@);
    if !take_piece(&chars, &mut stack, start, n) {
        return None;
    }
    proof {
        let after = cut(chars@, stack@);
        assert(walk(seq![tail], before) == walk(Seq::<Seq<char>>::empty(), after));
        assert(walk(Seq::<Seq<char>>::empty(), after) == Some(after));
    }
    Some(stack)
}

/// Whether a stored name is that of a directory.
pub fn names_directory(name: &str) -> (r: bool)
    ensures
        r == spec_names_directory(name@),
{
    let chars = chars_of(name);
    let n: usize = chars.len();
    n > 0 && chars[n - 1] == '/'
}

/// Whether the entry of a stored name can be unpacked inside a directory.
pub fn is_admitted(name: &str, is_directory: bool) -> (r: bool)
    ensures
        r == spec_is_admitted(name@, is_directory),
{
    match safe_components(name) {
        Some(spans) => spans.len() > 0 || is_directory || names_directory(name),
        None => false,
    }
}

/// The directory path followed by the pieces that the spans cut out of the
/// name.
fn nested(dir: &str, name: &str, spans: &Vec<(usize, usize)>) -> (r: String)
    requires
        spans_fit(spans@, name@.len()),
    ensures
        r@ == nest(dir@, cut(name@, spans@)),
{
    let ghost pieces = cut(name@, spans@);
    let mut out = String::from_str(dir);
    let mut j: usize = 0;
    assert(pieces.take(0) =~= Seq::<Seq<char>>::empty());
    while j < spans.len()
        invariant
            j <= spans.len(),
            pieces == cut(name@, spans@),
            spans_fit(spans@, name@.len()),
            out@ == nest(dir@, pieces.take(j as int)),
        decreases spans.len() - j,
    {
        let (from, to) = spans[j];
        assert(spans@[j as int].0 <= spans@[j as int].1 <= name@.len());
        let piece = name.substring_char(from, to);
        proof {
            let upto = pieces.take(j + 1);
            assert(upto.drop_last() =~= pieces.take(j as int));
            assert(upto.last() == piece@);
        }
        out = join(out.as_str(), piece);
        j += 1;
    }
    assert(pieces.take(spans.len() as int) =~= pieces);
    out
}

/// The path at which the entry of a stored name is written when the archive
/// is unpacked into `dir`, or `None` where the name is refused.
pub fn entry_path(dir: &str, name: &str) -> (r: Option<String>)
    ensures
        match r {
            Some(p) => spec_entry_path(dir@, name@) == Some(p@),
            None => spec_entry_path(dir@, name@) is None,
        },
{
    match safe_components(name) {
        Some(spans) => {
            if spans.len() == 0 && !names_directory(name) {
                None
            } else {
                Some(nested(dir, name, &spans))
            }
        },
        None => None,
    }
}

/// Whether a piece names one item inside a directory and nothing else: it
/// is not empty, not `.`, not `..`, and holds no `/`.
pub open spec fn is_plain_piece(piece: Seq<char>) -> bool {
    &&& piece.len() > 0
    &&& piece != seq!['.']
    &&& piece != seq!['.', '.']
    &&& !piece.contains('/')
}

/// Whether every piece is a plain one.
pub open spec fn all_plain(pieces: Seq<Seq<char>>) -> bool {
    forall|i: int| 0 <= i < pieces.len() ==> is_plain_piece(#[trigger] pieces[i])
}

/// No piece of a name holds a `/`.
pub proof fn lemma_components_hold_no_separator(name: Seq<char>)
    ensures
        forall|i: int|
            0 <= i < spec_components(name).len() ==> !(#[trigger] spec_components(name)[i]).contains(
                '/',
            ),
    decreases name.len(),
{
    let k = first_index_of(name, '/');
    lemma_first_index_of(name, '/');
    if k >= name.len() {
        assert forall|j: int| 0 <= j < name.len() implies name[j] != '/' by {}
    } else {
        let head = name.take(k);
        let rest = spec_components(name.skip(k + 1));
        lemma_components_hold_no_separator(name.skip(k + 1));
        assert forall|j: int| 0 <= j < head.len() implies head[j] != '/' by {
            assert(head[j] == name[j]);
        }
        assert forall|i: int| 0 <= i < spec_components(name).len() implies !(
        #[trigger] spec_components(name)[i]).contains('/') by {
            if i > 0 {
                assert(spec_components(name)[i] == rest[i - 1]);
            }
        }
    }
}

/// Following pieces without `/` from plain pieces leads to plain pieces.
pub proof fn lemma_walk_is_plain(pieces: Seq<Seq<char>>, stack: Seq<Seq<char>>)
    requires
        all_plain(stack),
        forall|i: int| 0 <= i < pieces.len() ==> !(#[trigger] pieces[i]).contains('/'),
    ensures
        walk(pieces, stack) is Some ==> all_plain(walk(pieces, stack)->0),
    decreases pieces.len(),
{
    if pieces.len() > 0 {
        match step(stack, pieces[0]) {
            Some(next) => {
                assert(all_plain(next)) by {
                    assert forall|i: int| 0 <= i < next.len() implies is_plain_piece(
                        #[trigger] next[i],
                    ) by {
                        if i < stack.len() {
                            assert(next[i] == stack[i]);
                        }
                    }
                }
                let rest = pieces.drop_first();
                assert forall|i: int| 0 <= i < rest.len() implies !(#[trigger] rest[i]).contains(
                    '/',
                ) by {
                    assert(rest[i] == pieces[i + 1]);
                }
                lemma_walk_is_plain(rest, next);
            },
            None => {},
        }
    }
}

/// A directory path with pieces inside it begins with the directory path.
pub proof fn lemma_nest_begins_with_dir(dir: Seq<char>, pieces: Seq<Seq<char>>)
    ensures
        dir.is_prefix_of(nest(dir, pieces)),
    decreases pieces.len(),
{
    if pieces.len() > 0 {
        lemma_nest_begins_with_dir(dir, pieces.drop_last());
    }
}

/// An entry that is given a path stays inside the directory of unpacking:
/// its path is that directory followed by plain pieces alone, none of which
/// is `..` or reaches through a `/`.
pub proof fn lemma_entry_stays_inside(dir: Seq<char>, name: Seq<char>)
    requires
        spec_entry_path(dir, name) is Some,
    ensures
        spec_safe_components(name) is Some,
        all_plain(spec_safe_components(name)->0),
        spec_entry_path(dir, name) == Some(nest(dir, spec_safe_components(name)->0)),
        dir.is_prefix_of(spec_entry_path(dir, name)->0),
{
    lemma_components_hold_no_separator(name);
    lemma_walk_is_plain(spec_components(name), Seq::empty());
    lemma_nest_begins_with_dir(dir, spec_safe_components(name)->0);
}

/// A name whose first piece is `..` is given no path, whatever follows.
pub proof fn lemma_parent_first_is_refused(dir: Seq<char>, name: Seq<char>)
    requires
        name.len() >= 2,
        name[0] == '.',
        name[1] == '.',
        name.len() == 2 || name[2] == '/',
    ensures
        spec_entry_path(dir, name) is None,
{
    lemma_first_index_of_is(name, '/', 2);
    if name.len() == 2 {
        assert(name =~= seq!['.', '.']);
    } else {
        assert(name.take(2) =~= seq!['.', '.']);
    }
    assert(spec_components(name)[0] == seq!['.', '.']);
}

/// An entry that is admitted follows plain pieces alone from the place of
/// unpacking: none of them is `..`, none reaches through a `/`, and the path
/// that they make begins with the directory. An entry that is given a path
/// is an admitted one.
pub proof fn lemma_admitted_stays_inside(dir: Seq<char>, name: Seq<char>, is_directory: bool)
    requires
        spec_is_admitted(name, is_directory),
    ensures
        spec_safe_components(name) is Some,
        all_plain(spec_safe_components(name)->0),
        dir.is_prefix_of(nest(dir, spec_safe_components(name)->0)),
        spec_entry_path(dir, name) is Some ==> spec_is_admitted(name, false),
        !is_directory ==> spec_entry_path(dir, name) == Some(
            nest(dir, spec_safe_components(name)->0),
        ),
{
    lemma_components_hold_no_separator(name);
    lemma_walk_is_plain(spec_components(name), Seq::empty());
    lemma_nest_begins_with_dir(dir, spec_safe_components(name)->0);
}

} // verus!
