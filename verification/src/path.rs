use crate::text::chars_of;
use vstd::prelude::*;

verus! {

/// The position of the last occurrence of `c` in `s`, or -1 where there is
/// none.
pub open spec fn last_index_of(s: Seq<char>, c: char) -> int
    decreases s.len(),
{
    if s.len() == 0 {
        -1
    } else if s.last() == c {
        s.len() - 1
    } else {
        last_index_of(s.drop_last(), c)
    }
}

/// `last_index_of` names an occurrence of `c`, and no occurrence follows it.
pub proof fn lemma_last_index_of(s: Seq<char>, c: char)
    ensures
        -1 <= last_index_of(s, c) < s.len(),
        last_index_of(s, c) >= 0 ==> s[last_index_of(s, c)] == c,
        forall|k: int| last_index_of(s, c) < k < s.len() ==> s[k] != c,
    decreases s.len(),
{
    if s.len() > 0 && s.last() != c {
        let front = s.drop_last();
        lemma_last_index_of(front, c);
        assert forall|k: int| last_index_of(s, c) < k < s.len() implies s[k] != c by {
            if k < front.len() {
                assert(front[k] == s[k]);
            }
        }
    }
}

/// A position that holds `c` (or -1) and after which `c` does not occur is
/// the one that `last_index_of` gives.
pub proof fn lemma_last_index_of_is(s: Seq<char>, c: char, r: int)
    requires
        -1 <= r < s.len(),
        r >= 0 ==> s[r] == c,
        forall|k: int| r < k < s.len() ==> s[k] != c,
    ensures
        last_index_of(s, c) == r,
{
    lemma_last_index_of(s, c);
}

/// The text after the last `/` of a path.
pub open spec fn last_component(path: Seq<char>) -> Seq<char> {
    path.skip(last_index_of(path, '/') + 1)
}

/// Whether a component is one that names a file or directory of its own:
/// not empty, not `.`, not `..`.
pub open spec fn is_plain_name(name: Seq<char>) -> bool {
    &&& name.len() > 0
    &&& name != seq!['.']
    &&& name != seq!['.', '.']
}

/// The file name of a path: its last component, where that is a plain name.
pub open spec fn spec_file_name(path: Seq<char>) -> Option<Seq<char>> {
    let name = last_component(path);
    if is_plain_name(name) {
        Some(name)
    } else {
        None
    }
}

/// Where the stem of a file name ends: at its last `.`, unless the name has
/// none or only the one it begins with.
pub open spec fn stem_len(name: Seq<char>) -> int {
    let dot = last_index_of(name, '.');
    if dot <= 0 {
        name.len() as int
    } else {
        dot
    }
}

/// The stem of a path: its file name without the final extension.
pub open spec fn spec_file_stem(path: Seq<char>) -> Option<Seq<char>> {
    match spec_file_name(path) {
        Some(name) => Some(name.take(stem_len(name))),
        None => None,
    }
}

/// The extension of a path: what follows the last `.` of its file name,
/// where the name has a `.` beyond its first character.
pub open spec fn spec_extension(path: Seq<char>) -> Option<Seq<char>> {
    match spec_file_name(path) {
        Some(name) => if last_index_of(name, '.') <= 0 {
            None
        } else {
            Some(name.skip(last_index_of(name, '.') + 1))
        },
        None => None,
    }
}

/// A path with the final extension of its file name taken off, the `.`
/// included. A path without an extension is left as it is.
pub open spec fn spec_without_extension(path: Seq<char>) -> Seq<char> {
    match spec_extension(path) {
        Some(ext) => path.take(path.len() - ext.len() - 1),
        None => path,
    }
}

/// The directory that holds the last component of a path: `.` for a bare
/// name, `/` for a name directly under the root.
pub open spec fn spec_directory_of(path: Seq<char>) -> Seq<char> {
    let slash = last_index_of(path, '/');
    if slash < 0 {
        seq!['.']
    } else if slash == 0 {
        seq!['/']
    } else {
        path.take(slash)
    }
}

/// A name placed inside a directory. An empty directory path stands for the
/// current directory, and gives the name itself.
pub open spec fn spec_join(dir: Seq<char>, name: Seq<char>) -> Seq<char> {
    if dir.len() == 0 {
        name
    } else if dir.last() == '/' {
        dir + name
    } else {
        dir + seq!['/'] + name
    }
}

/// The view of an optional string slice.
pub open spec fn view_of(s: Option<&str>) -> Option<Seq<char>> {
    match s {
        Some(t) => Some(t@),
        None => None,
    }
}

/// Finds the last occurrence of `c` at or after `from`.
fn find_last(chars: &Vec<char>, from: usize, c: char) -> (r: Option<usize>)
    requires
        from <= chars.len(),
    ensures
        match r {
            Some(i) => from <= i < chars.len() && last_index_of(chars@.skip(from as int), c) == i
                - from,
            None => last_index_of(chars@.skip(from as int), c) == -1,
        },
{
    let ghost tail = chars@.skip(from as int);
    let mut i: usize = chars.len();
    while i > from
        invariant
            from <= i <= chars.len(),
            tail == chars@.skip(from as int),
            forall|k: int| i - from <= k < tail.len() ==> tail[k] != c,
        decreases i,
    {
        i -= 1;
        if chars[i] == c {
            proof {
                lemma_last_index_of_is(tail, c, i - from);
            }
            return Some(i);
        }
    }
    proof {
        lemma_last_index_of_is(tail, c, -1);
    }
    None
}

/// Where the file name of a path begins and where its stem ends, counted in
/// characters from the start of the path.
fn name_bounds(chars: &Vec<char>) -> (r: Option<(usize, usize)>)
    ensures
        match r {
            Some((start, end)) => {
                &&& start == last_index_of(chars@, '/') + 1
                &&& start < end <= chars.len()
                &&& spec_file_name(chars@) == Some(chars@.skip(start as int))
                &&& end - start == stem_len(chars@.skip(start as int))
            },
            None => spec_file_name(chars@) is None,
        },
{
    let n: usize = chars.len();
    assert(chars@.skip(0) =~= chars@);
    let start: usize = match find_last(chars, 0, '/') {
        Some(i) => i + 1,
        None => 0,
    };
    let ghost name = chars@.skip(start as int);
    if start == n {
        return None;
    }
    if n - start == 1 && chars[start] == '.' {
        assert(name =~= seq!['.']);
        return None;
    }
    if n - start == 2 && chars[start] == '.' && chars[start + 1] == '.' {
        assert(name =~= seq!['.', '.']);
        return None;
    }
    assert(is_plain_name(name)) by {
        if name.len() == 1 {
            assert(name[0] != '.');
        }
        if name.len() == 2 {
            assert(name[0] != '.' || name[1] != '.');
        }
    }
    let end: usize = match find_last(chars, start, '.') {
        Some(d) => if d == start {
            n
        } else {
            d
        },
        None => n,
    };
    proof {
        lemma_last_index_of(name, '.');
    }
    Some((start, end))
}

/// The file name of a path.
pub fn file_name(path: &str) -> (r: Option<&str>)
    ensures
        view_of(r) == spec_file_name(path@),
{
    let chars = chars_of(path);
    match name_bounds(&chars) {
        Some((start, _)) => {
            let name = path.substring_char(start, chars.len());
            assert(name@ =~= path@.skip(start as int));
            Some(name)
        },
        None => None,
    }
}

/// The stem of a path: its file name without the final extension.
pub fn file_stem(path: &str) -> (r: Option<&str>)
    ensures
        view_of(r) == spec_file_stem(path@),
{
    let chars = chars_of(path);
    match name_bounds(&chars) {
        Some((start, end)) => {
            let stem = path.substring_char(start, end);
            assert(stem@ =~= path@.skip(start as int).take(end - start));
            Some(stem)
        },
        None => None,
    }
}

/// The extension of a path, without its `.`.
pub fn extension(path: &str) -> (r: Option<&str>)
    ensures
        view_of(r) == spec_extension(path@),
{
    let chars = chars_of(path);
    match name_bounds(&chars) {
        Some((start, end)) => {
            proof {
                lemma_last_index_of(path@.skip(start as int), '.');
            }
            if end == chars.len() {
                None
            } else {
                let ext = path.substring_char(end + 1, chars.len());
                assert(ext@ =~= path@.skip(start as int).skip(end - start + 1));
                Some(ext)
            }
        },
        None => None,
    }
}

/// A path with the final extension of its file name taken off.
pub fn without_extension(path: &str) -> (r: &str)
    ensures
        r@ == spec_without_extension(path@),
{
    let chars = chars_of(path);
    match name_bounds(&chars) {
        Some((start, end)) => {
            proof {
                lemma_last_index_of(path@.skip(start as int), '.');
            }
            if end == chars.len() {
                path
            } else {
                let r = path.substring_char(0, end);
                assert(r@ =~= path@.take(end as int));
                r
            }
        },
        None => path,
    }
}

/// The directory that holds the last component of a path.
pub fn directory_of(path: &str) -> (r: &str)
    ensures
        r@ == spec_directory_of(path@),
{
    proof {
        reveal_strlit(".");
        reveal_strlit("/");
    }
    let chars = chars_of(path);
    assert(chars@.skip(0) =~= chars@);
    match find_last(&chars, 0, '/') {
        None => {
            let r = ".";
            assert(r@ =~= seq!['.']);
            r
        },
        Some(i) => if i == 0 {
            let r = "/";
            assert(r@ =~= seq!['/']);
            r
        } else {
            let r = path.substring_char(0, i);
            assert(r@ =~= path@.take(i as int));
            r
        },
    }
}

/// Whether a component names a file or directory of its own.
pub fn is_plain(name: &str) -> (r: bool)
    ensures
        r == is_plain_name(name@),
{
    let chars = chars_of(name);
    let n: usize = chars.len();
    if n == 0 {
        false
    } else if n == 1 && chars[0] == '.' {
        assert(chars@ =~= seq!['.']);
        false
    } else if n == 2 && chars[0] == '.' && chars[1] == '.' {
        assert(chars@ =~= seq!['.', '.']);
        false
    } else {
        assert(seq!['.'].len() == 1 && seq!['.'][0] == '.');
        assert(seq!['.', '.'].len() == 2 && seq!['.', '.'][0] == '.' && seq!['.', '.'][1] == '.');
        true
    }
}

/// A name placed inside a directory.
pub fn join(dir: &str, name: &str) -> (r: String)
    ensures
        r@ == spec_join(dir@, name@),
{
    proof {
        reveal_strlit("/");
    }
    let chars = chars_of(dir);
    let n: usize = chars.len();
    if n == 0 {
        String::from_str(name)
    } else {
        let mut out = String::from_str(dir);
        if chars[n - 1] != '/' {
            out.append("/");
            assert("/"@ =~= seq!['/']);
        }
        out.append(name);
        out
    }
}

/// The file name of a path holds no `/`.
pub proof fn lemma_file_name_holds_no_separator(path: Seq<char>)
    ensures
        !last_component(path).contains('/'),
{
    lemma_last_index_of(path, '/');
    let start = last_index_of(path, '/') + 1;
    let name = last_component(path);
    assert forall|k: int| 0 <= k < name.len() implies name[k] != '/' by {
        assert(name[k] == path[start + k]);
    }
}

/// A path with an extension is the path without it, a `.`, and the
/// extension; and its file name is its stem, a `.`, and the extension.
pub proof fn lemma_extension_recomposes(path: Seq<char>)
    requires
        spec_extension(path) is Some,
    ensures
        path == spec_without_extension(path) + seq!['.'] + spec_extension(path)->0,
        spec_file_name(path)->0 == spec_file_stem(path)->0 + seq!['.'] + spec_extension(path)->0,
        !spec_extension(path)->0.contains('.'),
        !spec_extension(path)->0.contains('/'),
{
    lemma_last_index_of(path, '/');
    let start = last_index_of(path, '/') + 1;
    let name = last_component(path);
    lemma_last_index_of(name, '.');
    lemma_file_name_holds_no_separator(path);
    let dot = last_index_of(name, '.');
    let ext = name.skip(dot + 1);
    assert(path =~= path.take(path.len() - ext.len() - 1) + seq!['.'] + ext);
    assert(name =~= name.take(dot) + seq!['.'] + ext);
    assert forall|k: int| 0 <= k < ext.len() implies ext[k] != '.' && ext[k] != '/' by {
        assert(ext[k] == name[dot + 1 + k]);
    }
}

/// A plain name without `/` that is placed inside a directory is the file
/// name of the path that results, and that path begins with the directory.
pub proof fn lemma_join_keeps_name(dir: Seq<char>, name: Seq<char>)
    requires
        is_plain_name(name),
        !name.contains('/'),
    ensures
        spec_file_name(spec_join(dir, name)) == Some(name),
        dir.is_prefix_of(spec_join(dir, name)),
{
    let joined = spec_join(dir, name);
    let slash = joined.len() - name.len() - 1;
    assert forall|k: int| slash < k < joined.len() implies joined[k] != '/' by {
        assert(joined[k] == name[k - slash - 1]);
    }
    if dir.len() == 0 {
        lemma_last_index_of_is(joined, '/', -1);
        assert(joined.skip(0) =~= name);
    } else {
        lemma_last_index_of_is(joined, '/', slash);
        assert(joined.skip(slash + 1) =~= name);
    }
}

/// The stem of a path holds no `/`.
pub proof fn lemma_stem_holds_no_separator(path: Seq<char>)
    requires
        spec_file_stem(path) is Some,
    ensures
        !spec_file_stem(path)->0.contains('/'),
{
    lemma_file_name_holds_no_separator(path);
    let name = last_component(path);
    lemma_last_index_of(name, '.');
    let stem = name.take(stem_len(name));
    assert forall|k: int| 0 <= k < stem.len() implies stem[k] != '/' by {
        assert(stem[k] == name[k]);
    }
}

} // verus!
