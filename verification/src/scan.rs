//! Path names of session logs: components, file names, stems and
//! extensions, as `std::path::Path` reads them on Unix.
use vstd::prelude::*;
use crate::text::{chars_eq, chars_of, lemma_pieces_nonempty, pieces, string_of};

verus! {

/// The pieces of a path between slashes that name something: empty pieces
/// (from repeated or trailing slashes) and `.` pieces are skipped.
pub open spec fn named(ps: Seq<Seq<char>>) -> Seq<Seq<char>>
    decreases ps.len(),
{
    if ps.len() == 0 {
        seq![]
    } else {
        let rest = named(ps.drop_last());
        if keeps(ps.last()) {
            rest.push(ps.last())
        } else {
            rest
        }
    }
}

/// A piece of a path that names something.
pub open spec fn keeps(piece: Seq<char>) -> bool {
    piece.len() > 0 && piece != seq!['.']
}

/// The components of a path after its root, `.` dropped.
pub open spec fn components(path: Seq<char>) -> Seq<Seq<char>> {
    named(pieces(path, '/'))
}

/// The path starts at the root.
pub open spec fn rooted(path: Seq<char>) -> bool {
    path.len() > 0 && path[0] == '/'
}

/// A relative path whose first component is `.` (`.` itself, or `./`
/// followed by more).
pub open spec fn leading_cur_dir(path: Seq<char>) -> bool {
    path.len() > 0 && path[0] == '.' && (path.len() == 1 || path[1] == '/')
}

/// Two paths name the same place as `Path` compares them: both rooted or
/// both not, both or neither starting with a `.` component, and the same
/// components after that (repeated slashes, a trailing slash and inner `.`
/// components make no difference).
pub open spec fn same_path(a: Seq<char>, b: Seq<char>) -> bool {
    &&& rooted(a) == rooted(b)
    &&& leading_cur_dir(a) == leading_cur_dir(b)
    &&& components(a) == components(b)
}

/// `Path::file_name`: the last component, unless there is none or it is `..`.
pub open spec fn file_name_of(path: Seq<char>) -> Option<Seq<char>> {
    let c = components(path);
    if c.len() == 0 || c.last() == seq!['.', '.'] {
        None
    } else {
        Some(c.last())
    }
}

/// The position of the last `.` in `name`, or -1 when there is none.
pub open spec fn last_dot(name: Seq<char>) -> int
    decreases name.len(),
{
    if name.len() == 0 {
        -1
    } else if name.last() == '.' {
        name.len() - 1
    } else {
        last_dot(name.drop_last())
    }
}

/// `Path::extension` of a file name: what follows the last `.`, unless
/// there is no `.` or the only one starts the name.
pub open spec fn extension_of(name: Seq<char>) -> Option<Seq<char>> {
    let d = last_dot(name);
    if d <= 0 {
        None
    } else {
        Some(name.subrange(d + 1, name.len() as int))
    }
}

/// `Path::file_stem` of a file name: what precedes the last `.`, or the
/// whole name when `extension_of` finds none.
pub open spec fn stem_of(name: Seq<char>) -> Seq<char> {
    let d = last_dot(name);
    if d <= 0 {
        name
    } else {
        name.subrange(0, d)
    }
}

/// A path names a `.jsonl` file.
pub open spec fn jsonl_path(path: Seq<char>) -> bool {
    match file_name_of(path) {
        Some(n) => extension_of(n) == Some(seq!['j', 's', 'o', 'n', 'l']),
        None => false,
    }
}

/// `last_dot` is the position of the last `.`, or -1 when there is none.
pub proof fn lemma_last_dot(name: Seq<char>)
    ensures
        -1 <= last_dot(name) < name.len(),
        last_dot(name) >= 0 ==> name[last_dot(name)] == '.',
        forall|k: int| last_dot(name) < k < name.len() ==> name[k] != '.',
    decreases name.len(),
{
    if name.len() > 0 {
        let prev = name.drop_last();
        lemma_last_dot(prev);
        assert forall|k: int| last_dot(name) < k < name.len() implies name[k] != '.' by {
            if k < name.len() - 1 {
                assert(name[k] == prev[k]);
            }
        }
    }
}

/// A file name is its stem, a dot and its extension, whenever it has an
/// extension.
pub proof fn lemma_stem_dot_extension(name: Seq<char>)
    ensures
        extension_of(name) matches Some(e) ==> stem_of(name) + seq!['.'] + e == name,
        extension_of(name) is None ==> stem_of(name) == name,
{
    lemma_last_dot(name);
    if let Some(e) = extension_of(name) {
        let d = last_dot(name);
        assert(stem_of(name) + seq!['.'] + e =~= name);
    }
}

/// The components of a path, in order.
fn path_components(path: &Vec<char>) -> (r: Vec<Vec<char>>)
    ensures
        r@.len() == components(path@).len(),
        forall|i: int| 0 <= i < r@.len() ==> (#[trigger] r@[i])@ == components(path@)[i],
{
    let mut done: Vec<Vec<char>> = Vec::new();
    let mut cur: Vec<char> = Vec::new();
    let mut i: usize = 0;
    proof {
        lemma_pieces_nonempty(path@.take(0), '/');
        assert(path@.take(0) =~= seq![]);
    }
    while i < path.len()
        invariant
            i <= path.len(),
            pieces(path@.take(i as int), '/').len() >= 1,
            cur@ == pieces(path@.take(i as int), '/').last(),
            done@.len() == named(pieces(path@.take(i as int), '/').drop_last()).len(),
            forall|k: int|
                0 <= k < done@.len() ==> (#[trigger] done@[k])@ == named(
                    pieces(path@.take(i as int), '/').drop_last(),
                )[k],
        decreases path.len() - i,
    {
        let ghost before = pieces(path@.take(i as int), '/');
        assert(path@.take(i + 1).drop_last() == path@.take(i as int));
        assert(path@.take(i + 1).last() == path@[i as int]);
        let c = path[i];
        if c == '/' {
            let ghost after = before.push(seq![]);
            assert(pieces(path@.take(i + 1), '/') == after);
            assert(after.drop_last() == before);
            assert(before.drop_last().push(before.last()) == before);
            if cur.len() > 0 && !(cur.len() == 1 && cur[0] == '.') {
                assert(keeps(cur@));
                done.push(cur);
            } else {
                assert(!keeps(cur@)) by {
                    if cur@.len() == 1 && cur@[0] == '.' {
                        assert(cur@ =~= seq!['.']);
                    }
                }
            }
            cur = Vec::new();
        } else {
            cur.push(c);
            let ghost after = before.update(before.len() - 1, before.last().push(c));
            assert(pieces(path@.take(i + 1), '/') == after);
            assert(after.drop_last() == before.drop_last());
        }
        i = i + 1;
    }
    let ghost all = pieces(path@.take(i as int), '/');
    assert(path@.take(i as int) == path@);
    assert(all.drop_last().push(all.last()) == all);
    if cur.len() > 0 && !(cur.len() == 1 && cur[0] == '.') {
        assert(keeps(cur@));
        done.push(cur);
    } else {
        assert(!keeps(cur@)) by {
            if cur@.len() == 1 && cur@[0] == '.' {
                assert(cur@ =~= seq!['.']);
            }
        }
    }
    done
}

/// Whether two paths are equal as `Path`s.
pub fn path_eq(a: &str, b: &str) -> (r: bool)
    ensures
        r == same_path(a@, b@),
{
    let pa = chars_of(a);
    let pb = chars_of(b);
    let ra = pa.len() > 0 && pa[0] == '/';
    let rb = pb.len() > 0 && pb[0] == '/';
    let la = pa.len() > 0 && pa[0] == '.' && (pa.len() == 1 || pa[1] == '/');
    let lb = pb.len() > 0 && pb[0] == '.' && (pb.len() == 1 || pb[1] == '/');
    if ra != rb || la != lb {
        return false;
    }
    let ca = path_components(&pa);
    let cb = path_components(&pb);
    if ca.len() != cb.len() {
        return false;
    }
    let mut i: usize = 0;
    while i < ca.len()
        invariant
            ca@.len() == cb@.len(),
            ca@.len() == components(a@).len(),
            cb@.len() == components(b@).len(),
            forall|k: int| 0 <= k < ca@.len() ==> (#[trigger] ca@[k])@ == components(a@)[k],
            forall|k: int| 0 <= k < cb@.len() ==> (#[trigger] cb@[k])@ == components(b@)[k],
            i <= ca.len(),
            forall|k: int| 0 <= k < i ==> components(a@)[k] == components(b@)[k],
        decreases ca.len() - i,
    {
        if !chars_eq(&ca[i], &cb[i]) {
            assert(ca@[i as int]@ != cb@[i as int]@);
            return false;
        }
        i = i + 1;
    }
    assert(components(a@) =~= components(b@));
    true
}

/// `Path::file_name` of a path, as a string.
pub fn file_name(path: &str) -> (r: Option<String>)
    ensures
        match r {
            Some(n) => file_name_of(path@) == Some(n@),
            None => file_name_of(path@) is None,
        },
{
    let p = chars_of(path);
    let comps = path_components(&p);
    if comps.len() == 0 {
        return None;
    }
    let last = &comps[comps.len() - 1];
    if last.len() == 2 && last[0] == '.' && last[1] == '.' {
        assert(last@ =~= seq!['.', '.']);
        return None;
    }
    assert(last@ != seq!['.', '.']) by {
        if last@ == seq!['.', '.'] {
            assert(last@.len() == 2 && last@[0] == '.' && last@[1] == '.');
        }
    }
    Some(string_of(last))
}

/// The position of the last `.` in `name`, if any.
fn find_last_dot(name: &Vec<char>) -> (r: Option<usize>)
    ensures
        match r {
            Some(d) => last_dot(name@) == d as int,
            None => last_dot(name@) == -1,
        },
{
    let mut i: usize = name.len();
    assert(name@.take(i as int) == name@);
    while i > 0
        invariant
            i <= name.len(),
            last_dot(name@) == last_dot(name@.take(i as int)),
        decreases i,
    {
        assert(name@.take(i as int).drop_last() == name@.take(i - 1));
        if name[i - 1] == '.' {
            return Some(i - 1);
        }
        i = i - 1;
    }
    None
}

/// `Path::extension` of a file name.
pub fn extension(name: &str) -> (r: Option<String>)
    ensures
        match r {
            Some(e) => extension_of(name@) == Some(e@),
            None => extension_of(name@) is None,
        },
{
    let v = chars_of(name);
    match find_last_dot(&v) {
        Some(d) => {
            if d == 0 {
                return None;
            }
            proof {
                lemma_last_dot(v@);
            }
            assert(d < v.len());
            let mut out: Vec<char> = Vec::new();
            let mut i: usize = d + 1;
            while i < v.len()
                invariant
                    d + 1 <= i <= v.len(),
                    v@ == name@,
                    out@ == v@.subrange(d + 1, i as int),
                decreases v.len() - i,
            {
                out.push(v[i]);
                i = i + 1;
                assert(out@ == v@.subrange(d + 1, i as int));
            }
            Some(string_of(&out))
        },
        None => None,
    }
}

/// `Path::file_stem` of a file name.
pub fn file_stem(name: &str) -> (r: String)
    ensures
        r@ == stem_of(name@),
{
    let v = chars_of(name);
    match find_last_dot(&v) {
        Some(d) => {
            if d == 0 {
                return string_of(&v);
            }
            proof {
                lemma_last_dot(v@);
            }
            let mut out: Vec<char> = Vec::new();
            let mut i: usize = 0;
            while i < d
                invariant
                    i <= d < v.len(),
                    v@ == name@,
                    out@ == v@.subrange(0, i as int),
                decreases d - i,
            {
                out.push(v[i]);
                i = i + 1;
                assert(out@ == v@.subrange(0, i as int));
            }
            string_of(&out)
        },
        None => string_of(&v),
    }
}

/// The session id of a log file: the stem of its file name, if it has one.
pub fn session_id_of(path: &str) -> (r: Option<String>)
    ensures
        match r {
            Some(id) => file_name_of(path@) matches Some(n) && id@ == stem_of(n),
            None => file_name_of(path@) is None,
        },
{
    match file_name(path) {
        Some(n) => Some(file_stem(n.as_str())),
        None => None,
    }
}

/// The path names a file whose extension is `jsonl`.
pub fn is_jsonl(path: &str) -> (r: bool)
    ensures
        r == jsonl_path(path@),
{
    match file_name(path) {
        Some(n) => match extension(n.as_str()) {
            Some(e) => {
                let v = chars_of(e.as_str());
                let hit = v.len() == 5 && v[0] == 'j' && v[1] == 's' && v[2] == 'o' && v[3] == 'n'
                    && v[4] == 'l';
                assert(hit == (e@ == seq!['j', 's', 'o', 'n', 'l'])) by {
                    if e@ == seq!['j', 's', 'o', 'n', 'l'] {
                        assert(v@.len() == 5);
                    }
                    if hit {
                        assert(v@ =~= seq!['j', 's', 'o', 'n', 'l']);
                    }
                }
                hit
            },
            None => false,
        },
        None => false,
    }
}

/// What a walk of the projects directory does with one entry.
#[derive(Debug, PartialEq, Eq, Structural, Clone, Copy)]
pub enum EntryStep {
    /// A directory: walk into it.
    Descend,
    /// A session log: list it.
    Collect,
    /// Anything else: leave it.
    Skip,
}

/// The step for an entry at `path`: directories are walked into, `.jsonl`
/// files are listed, and everything else is left alone.
pub fn entry_step(is_dir: bool, path: &str) -> (r: EntryStep)
    ensures
        is_dir ==> r == EntryStep::Descend,
        !is_dir && jsonl_path(path@) ==> r == EntryStep::Collect,
        !is_dir && !jsonl_path(path@) ==> r == EntryStep::Skip,
{
    if is_dir {
        EntryStep::Descend
    } else if is_jsonl(path) {
        EntryStep::Collect
    } else {
        EntryStep::Skip
    }
}

} // verus!
