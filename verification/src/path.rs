//! Paths as texts whose parts are separated by `/`.
use crate::duplicate::push_value;
use crate::text::{
    chars_of, lemma_split_on_last, lemma_split_on_nonempty, lemma_split_on_single, same_text, split,
    split_on, text_range,
};
use vstd::prelude::*;
use vstd::string::*;

verus! {

/// Whether a path starts at the root of the file system.
pub open spec fn absolute(path: Seq<char>) -> bool {
    path.len() > 0 && path[0] == '/'
}

/// Whether a path starts at the root of the file system.
pub fn is_absolute(path: &str) -> (r: bool)
    ensures
        r == absolute(path@),
{
    let n: usize = path.unicode_len();
    n > 0 && path.get_char(0) == '/'
}

/// The path `rest` as seen from `base`.
pub open spec fn joined_path(base: Seq<char>, rest: Seq<char>) -> Seq<char> {
    if absolute(rest) {
        rest
    } else if base.len() > 0 && base.last() != '/' {
        base + "/"@ + rest
    } else {
        base + rest
    }
}

/// The path `rest` as seen from `base`.
pub fn join_path(base: &str, rest: &str) -> (r: String)
    ensures
        r@ == joined_path(base@, rest@),
{
    if is_absolute(rest) {
        return rest.to_owned();
    }
    let mut out = base.to_owned();
    let n: usize = base.unicode_len();
    if n > 0 && base.get_char(n - 1) != '/' {
        out.append("/");
    }
    out.append(rest);
    out
}

/// Those of the pieces that name something: neither empty nor the directory
/// itself.
pub open spec fn naming_pieces(pieces: Seq<Seq<char>>) -> Seq<Seq<char>>
    decreases pieces.len(),
{
    if pieces.len() == 0 {
        Seq::empty()
    } else {
        let before = naming_pieces(pieces.drop_last());
        if pieces.last().len() == 0 || pieces.last() == "."@ {
            before
        } else {
            before.push(pieces.last())
        }
    }
}

/// The components of a path: the root if it starts there, the directory itself
/// if the path says so at its start, and the names in it.
pub open spec fn components(path: Seq<char>) -> Seq<Seq<char>> {
    let pieces = split_on(path, '/');
    let names = naming_pieces(pieces);
    if absolute(path) {
        seq!["/"@] + names
    } else if pieces[0] == "."@ {
        seq!["."@] + names
    } else {
        names
    }
}

/// The components of a path.
pub fn path_components(path: &str) -> (r: Vec<String>)
    ensures
        r.deep_view() == components(path@),
{
    let pieces = split(path, '/');
    let ghost all = pieces.deep_view();
    let mut out: Vec<String> = Vec::new();
    proof {
        lemma_split_on_nonempty(path@, '/');
    }
    assert(all[0] == pieces@[0]@);
    if is_absolute(path) {
        out.push("/".to_owned());
    } else if same_text(pieces[0].as_str(), ".") {
        out.push(".".to_owned());
    }
    let ghost start = out.deep_view();
    assert(start + naming_pieces(all) =~= components(path@));
    let mut i: usize = 0;
    assert(out.deep_view() =~= start + naming_pieces(all.take(0)));
    while i < pieces.len()
        invariant
            i <= pieces@.len(),
            all == pieces.deep_view(),
            out.deep_view() == start + naming_pieces(all.take(i as int)),
        decreases pieces@.len() - i,
    {
        let piece = &pieces[i];
        assert(all[i as int] == piece@);
        assert(all.take(i as int + 1).drop_last() =~= all.take(i as int));
        let ghost before = naming_pieces(all.take(i as int));
        if !piece.as_str().is_empty() && !same_text(piece.as_str(), ".") {
            push_value(&mut out, piece.clone());
            assert(start + before.push(piece@) =~= (start + before).push(piece@));
        }
        i += 1;
    }
    assert(all.take(i as int) =~= all);
    out
}

/// Whether `path` is `root` or lies in it.
pub open spec fn lies_under(path: Seq<char>, root: Seq<char>) -> bool {
    components(root).len() <= components(path).len() && components(path).take(
        components(root).len() as int,
    ) == components(root)
}

/// Whether `path` is `root` or lies in it.
pub fn is_under(path: &str, root: &str) -> (r: bool)
    ensures
        r == lies_under(path@, root@),
{
    let path_parts = path_components(path);
    let root_parts = path_components(root);
    let ghost a = path_parts.deep_view();
    let ghost b = root_parts.deep_view();
    assert(a.len() == path_parts@.len() && b.len() == root_parts@.len());
    if root_parts.len() > path_parts.len() {
        return false;
    }
    let mut i: usize = 0;
    while i < root_parts.len()
        invariant
            i <= root_parts@.len() <= path_parts@.len(),
            a == path_parts.deep_view(),
            b == root_parts.deep_view(),
            a == components(path@),
            b == components(root@),
            forall|k: int| 0 <= k < i ==> a[k] == b[k],
        decreases root_parts@.len() - i,
    {
        assert(a[i as int] == path_parts@[i as int]@);
        assert(b[i as int] == root_parts@[i as int]@);
        if !same_text(path_parts[i].as_str(), root_parts[i].as_str()) {
            assert(a.take(b.len() as int)[i as int] != b[i as int]);
            return false;
        }
        i += 1;
    }
    assert(a.take(b.len() as int) =~= b);
    true
}

/// Every path lies under itself, and what lies under a path lies under all that
/// the path lies under.
pub proof fn law_lies_under_is_an_order(a: Seq<char>, b: Seq<char>, c: Seq<char>)
    ensures
        lies_under(a, a),
        lies_under(a, b) && lies_under(b, c) ==> lies_under(a, c),
{
    let x = components(a);
    let y = components(b);
    let z = components(c);
    assert(x.take(x.len() as int) =~= x);
    if lies_under(a, b) && lies_under(b, c) {
        assert(x.take(z.len() as int) =~= x.take(y.len() as int).take(z.len() as int));
    }
}

/// A path without the separators and the `.` at its end that name nothing. Of the
/// root, the root is left.
pub open spec fn trimmed_path(path: Seq<char>) -> Seq<char>
    decreases path.len(),
{
    let n = path.len();
    if n > 1 && (path.last() == '/' || (path.last() == '.' && path[n - 2] == '/')) {
        trimmed_path(path.drop_last())
    } else {
        path
    }
}

/// How much of a path stands before its last name: up to the last separator.
pub open spec fn name_start(path: Seq<char>) -> nat
    decreases path.len(),
{
    if path.len() == 0 || path.last() == '/' {
        path.len()
    } else {
        name_start(path.drop_last())
    }
}

/// The directory that a path is in. The root and the empty path are in none.
pub open spec fn parent_path(path: Seq<char>) -> Option<Seq<char>> {
    let whole = trimmed_path(path);
    if whole.len() == 0 || whole == "/"@ {
        None
    } else {
        Some(trimmed_path(whole.take(name_start(whole) as int)))
    }
}

/// A path that is trimmed has the same components and ends with a name, unless it
/// is empty or the root.
proof fn lemma_trimmed_path(path: Seq<char>)
    ensures
        components(trimmed_path(path)) == components(path),
        ({
            let whole = trimmed_path(path);
            whole.len() > 1 ==> whole.last() != '/' && !(whole.last() == '.' && whole[whole.len()
                - 2] == '/')
        }),
    decreases path.len(),
{
    reveal_strlit(".");
    let n = path.len();
    if n > 1 && (path.last() == '/' || (path.last() == '.' && path[n - 2] == '/')) {
        let shorter = path.drop_last();
        lemma_trimmed_path(shorter);
        let none = Seq::<char>::empty();
        if path.last() == '/' {
            lemma_split_on_nonempty(shorter, '/');
            let pieces = split_on(shorter, '/');
            assert(path =~= shorter.push('/') + none);
            lemma_split_on_last(shorter, '/', none);
            assert(pieces.push(none).drop_last() =~= pieces);
            assert(naming_pieces(pieces.push(none)) == naming_pieces(pieces));
        } else {
            let head = shorter.drop_last();
            lemma_split_on_nonempty(head, '/');
            let pieces = split_on(head, '/');
            let dot = seq!['.'];
            assert("."@ =~= dot);
            assert(path =~= head.push('/') + dot);
            assert(shorter =~= head.push('/') + none);
            lemma_split_on_last(head, '/', dot);
            lemma_split_on_last(head, '/', none);
            assert(pieces.push(none).drop_last() =~= pieces);
            assert(pieces.push(dot).drop_last() =~= pieces);
            assert(naming_pieces(pieces.push(none)) == naming_pieces(pieces.push(dot)));
        }
    }
}

/// Behind the place where the last name starts there is no separator, and in front
/// of it there is one, if anything is.
proof fn lemma_name_start(path: Seq<char>)
    ensures
        name_start(path) <= path.len(),
        forall|i: int| name_start(path) <= i < path.len() ==> path[i] != '/',
        name_start(path) > 0 ==> path[name_start(path) - 1] == '/',
    decreases path.len(),
{
    if path.len() > 0 && path.last() != '/' {
        let shorter = path.drop_last();
        lemma_name_start(shorter);
        assert forall|i: int| name_start(path) <= i < path.len() implies path[i] != '/' by {
            if i < shorter.len() {
                assert(shorter[i] == path[i]);
            }
        }
    }
}

/// The directory that a path is in has all components of the path but the last.
/// Only a path without a component behind the root is in none.
pub proof fn law_parent_drops_the_last_component(path: Seq<char>)
    ensures
        match parent_path(path) {
            Some(dir) => {
                &&& components(path).len() > 0
                &&& components(path) != seq!["/"@]
                &&& components(dir) == components(path).drop_last()
            },
            None => components(path).len() == 0 || components(path) == seq!["/"@],
        },
{
    reveal_strlit(".");
    reveal_strlit("/");
    let whole = trimmed_path(path);
    lemma_trimmed_path(path);
    let none = Seq::<char>::empty();
    lemma_split_on_single(none, '/');
    assert(seq![none].drop_last() =~= Seq::<Seq<char>>::empty());
    assert(seq![none].last() == none);
    assert(naming_pieces(seq![none].drop_last()) =~= Seq::<Seq<char>>::empty());
    assert(naming_pieces(seq![none]) =~= Seq::<Seq<char>>::empty());
    assert(components(none) =~= Seq::<Seq<char>>::empty());
    if whole.len() == 0 {
        assert(whole =~= none);
    } else if whole == "/"@ {
        assert(whole =~= none.push('/') + none);
        lemma_split_on_last(none, '/', none);
        assert(seq![none].push(none).drop_last() =~= seq![none]);
        assert(components(whole) =~= seq!["/"@]);
    } else {
        assert(whole.last() != '/') by {
            if whole.len() == 1 && whole.last() == '/' {
                assert(whole =~= "/"@);
            }
        }
        lemma_name_start(whole);
        let at = name_start(whole) as int;
        let head = whole.take(at);
        let name = whole.skip(at);
        assert(name.len() > 0);
        assert(name != "/"@) by {
            assert(name[0] == whole[at]);
        }
        lemma_trimmed_path(head);
        if at == 0 {
            assert(head =~= none);
            assert(name =~= whole);
            lemma_split_on_single(whole, '/');
            assert(seq![whole].drop_last() =~= Seq::<Seq<char>>::empty());
            assert(naming_pieces(seq![whole]) =~= if whole == "."@ {
                Seq::<Seq<char>>::empty()
            } else {
                seq![whole]
            });
            assert(components(whole) =~= seq![whole]);
            assert(seq![whole].drop_last() =~= components(none));
            assert(seq![whole].last() != seq!["/"@].last());
        } else {
            let front = whole.take(at - 1);
            assert(head =~= front.push('/') + none);
            assert(whole =~= front.push('/') + name);
            lemma_split_on_last(front, '/', none);
            lemma_split_on_last(front, '/', name);
            lemma_split_on_nonempty(front, '/');
            let pieces = split_on(front, '/');
            assert(pieces.push(none).drop_last() =~= pieces);
            assert(pieces.push(name).drop_last() =~= pieces);
            assert(name != "."@) by {
                if name == "."@ {
                    assert(name.len() == 1 && name[0] == '.');
                    assert(whole.last() == '.');
                    assert(whole[whole.len() - 2] == '/');
                }
            }
            assert(naming_pieces(pieces.push(name)) == naming_pieces(pieces).push(name));
            assert(components(whole) =~= components(head).push(name));
            assert(components(head).push(name).drop_last() =~= components(head));
            assert(components(whole).last() != seq!["/"@].last());
        }
    }
}

/// Where a trimmed path ends that is the start of `v`.
fn trim_path_end(v: &Vec<char>, upto: usize) -> (r: usize)
    requires
        upto <= v@.len(),
    ensures
        r <= upto,
        v@.take(r as int) == trimmed_path(v@.take(upto as int)),
{
    let mut end: usize = upto;
    while end > 1 && (v[end - 1] == '/' || (v[end - 1] == '.' && v[end - 2] == '/'))
        invariant
            end <= upto <= v@.len(),
            trimmed_path(v@.take(end as int)) == trimmed_path(v@.take(upto as int)),
        decreases end,
    {
        assert(v@.take(end as int).drop_last() =~= v@.take(end - 1));
        end -= 1;
    }
    end
}

/// `Path::parent`: the directory that a path is in.
pub fn parent_of(path: &str) -> (r: Option<String>)
    ensures
        r.deep_view() == parent_path(path@),
        r matches Some(dir) ==> components(dir@) == components(path@).drop_last(),
        r is None <==> components(path@).len() == 0 || components(path@) == seq!["/"@],
{
    proof {
        law_parent_drops_the_last_component(path@);
        reveal_strlit("/");
    }
    let v = chars_of(path);
    assert(v@.take(v@.len() as int) =~= v@);
    let end: usize = trim_path_end(&v, v.len());
    let ghost whole = v@.take(end as int);
    if end == 0 || (end == 1 && v[0] == '/') {
        proof {
            if end == 1 {
                assert(whole =~= "/"@);
            }
        }
        return None;
    }
    assert(whole != "/"@) by {
        if whole == "/"@ {
            assert(whole[0] == '/' && whole.len() == 1);
        }
    }
    let mut at: usize = end;
    assert(whole.take(end as int) =~= whole);
    while at > 0 && v[at - 1] != '/'
        invariant
            at <= end <= v@.len(),
            whole == v@.take(end as int),
            name_start(whole.take(at as int)) == name_start(whole),
        decreases at,
    {
        assert(whole.take(at as int).drop_last() =~= whole.take(at - 1));
        at -= 1;
    }
    assert(at == name_start(whole));
    assert(whole.take(at as int) =~= v@.take(at as int));
    let dir_end: usize = trim_path_end(&v, at);
    let dir = text_range(&v, 0, dir_end);
    assert(dir@ =~= v@.take(dir_end as int));
    Some(dir)
}

/// The name that a path ends with, if it ends with one.
pub open spec fn file_name_of(path: Seq<char>) -> Option<Seq<char>> {
    let parts = components(path);
    if parts.len() == 0 || parts.last() == "/"@ || parts.last() == "."@ || parts.last() == ".."@ {
        None
    } else {
        Some(parts.last())
    }
}

/// The name that a path ends with, if it ends with one.
pub fn file_name(path: &str) -> (r: Option<String>)
    ensures
        r.deep_view() == file_name_of(path@),
{
    let parts = path_components(path);
    let ghost all = parts.deep_view();
    assert(all.len() == parts@.len());
    let n: usize = parts.len();
    if n == 0 {
        return None;
    }
    let last = &parts[n - 1];
    assert(all.last() == last@);
    if same_text(last.as_str(), "/") || same_text(last.as_str(), ".") || same_text(
        last.as_str(),
        "..",
    ) {
        None
    } else {
        Some(last.clone())
    }
}

} // verus!
