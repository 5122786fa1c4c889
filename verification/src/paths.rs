//! Paths as lists of names. Two texts are the same path where they have the same names: a
//! doubled slash, a slash at the end and a `.` that is not at the front do not count.

use vstd::prelude::*;

use crate::text::{chars_of, join3, same, split, split_spec, views};
use crate::wording::{joined, joining_is_undone_by_splitting};

verus! {

broadcast use vstd::string::group_string_axioms;

/// A path from the root.
pub open spec fn is_rooted(path: Seq<char>) -> bool {
    path.len() > 0 && path[0] == '/'
}

/// The pieces that are names: those that are not empty, and no `.` but at the front.
pub open spec fn names_among(pieces: Seq<Seq<char>>) -> Seq<Seq<char>>
    decreases pieces.len(),
{
    if pieces.len() == 0 {
        Seq::empty()
    } else {
        let front = names_among(pieces.drop_last());
        if pieces.last().len() == 0 || (pieces.last() == "."@ && pieces.len() > 1) {
            front
        } else {
            front.push(pieces.last())
        }
    }
}

/// The names of a path.
pub open spec fn path_names(path: Seq<char>) -> Seq<Seq<char>> {
    names_among(split_spec(path, '/'))
}

/// Two texts are the same path.
pub open spec fn same_path(a: Seq<char>, b: Seq<char>) -> bool {
    is_rooted(a) == is_rooted(b) && path_names(a) == path_names(b)
}

/// No name points to the directory itself or to the one above.
pub open spec fn all_normal(names: Seq<Seq<char>>) -> bool {
    forall|i: int| 0 <= i < names.len() ==> (#[trigger] names[i]) != "."@ && names[i] != ".."@
}

/// The path that some names make.
pub open spec fn joined_names(names: Seq<Seq<char>>) -> Seq<char>
    decreases names.len(),
{
    if names.len() == 0 {
        Seq::empty()
    } else if names.len() == 1 {
        names[0]
    } else {
        joined_names(names.drop_last()) + "/"@ + names.last()
    }
}

/// The directories on the way to the path that some names make, and that path, outermost
/// first.
pub open spec fn directory_chain(names: Seq<Seq<char>>) -> Seq<Seq<char>>
    decreases names.len(),
{
    if names.len() == 0 {
        Seq::empty()
    } else {
        directory_chain(names.drop_last()).push(joined_names(names))
    }
}

/// Pieces that are all proper names stay as they are.
pub proof fn proper_pieces_are_names(pieces: Seq<Seq<char>>)
    requires
        forall|p: int|
            0 <= p < pieces.len() ==> (#[trigger] pieces[p]).len() > 0 && pieces[p] != "."@,
    ensures
        names_among(pieces) == pieces,
    decreases pieces.len(),
{
    if pieces.len() > 0 {
        let front = pieces.drop_last();
        assert forall|p: int| 0 <= p < front.len() implies (#[trigger] front[p]).len() > 0
            && front[p] != "."@ by {
            assert(front[p] == pieces[p]);
        }
        proper_pieces_are_names(front);
        assert(pieces[pieces.len() - 1] == pieces.last());
        assert(names_among(pieces) =~= pieces);
    } else {
        assert(names_among(pieces) =~= pieces);
    }
}

/// A path whose first piece is not empty does not start at the root.
pub proof fn first_piece_of_rooted(path: Seq<char>)
    ensures
        split_spec(path, '/').len() >= 1,
        is_rooted(path) ==> split_spec(path, '/')[0].len() == 0,
    decreases path.len(),
{
    reveal_with_fuel(split_spec, 2);
    if path.len() > 1 {
        first_piece_of_rooted(path.drop_last());
        assert(path.drop_last()[0] == path[0]);
        let front = split_spec(path.drop_last(), '/');
        if is_rooted(path) {
            rooted_has_two_pieces(path.drop_last());
        }
    } else if path.len() == 1 {
        assert(path.drop_last() =~= Seq::<char>::empty());
    }
}

proof fn rooted_has_two_pieces(path: Seq<char>)
    requires
        is_rooted(path),
    ensures
        split_spec(path, '/').len() >= 2,
    decreases path.len(),
{
    reveal_with_fuel(split_spec, 2);
    if path.len() > 1 {
        assert(path.drop_last()[0] == path[0]);
        rooted_has_two_pieces(path.drop_last());
    } else {
        assert(path.drop_last() =~= Seq::<char>::empty());
    }
}

/// Whether a path starts at the root.
pub fn starts_at_root(path: &str) -> (r: bool)
    ensures
        r == is_rooted(path@),
{
    let v = chars_of(path);
    v.len() > 0 && v[0] == '/'
}

/// The names of a path.
pub fn names_of_path(path: &str) -> (r: Vec<String>)
    ensures
        views(r@) == path_names(path@),
{
    let pieces = split(path, '/');
    let ghost all = views(pieces@);
    let mut r: Vec<String> = Vec::new();
    let mut i: usize = 0;
    proof {
        assert(all.take(0) =~= Seq::<Seq<char>>::empty());
        assert(views(r@) =~= Seq::<Seq<char>>::empty());
    }
    while i < pieces.len()
        invariant
            i <= pieces@.len(),
            all == views(pieces@),
            views(r@) == names_among(all.take(i as int)),
        decreases pieces@.len() - i,
    {
        let ghost before = r@;
        let piece = pieces[i].as_str();
        proof {
            assert(all.take(i as int + 1).drop_last() =~= all.take(i as int));
            assert(all.take(i as int + 1).last() == piece@);
        }
        if !piece.is_empty() && !(same(piece, ".") && i > 0) {
            r.push(piece.to_owned());
            proof {
                assert(views(r@) =~= views(before).push(piece@));
            }
        }
        i = i + 1;
    }
    proof {
        assert(all.take(all.len() as int) =~= all);
    }
    r
}

/// Whether two lists hold the same texts.
pub fn same_list(a: &Vec<String>, b: &Vec<String>) -> (r: bool)
    ensures
        r == (views(a@) == views(b@)),
{
    if a.len() != b.len() {
        proof {
            assert(views(a@).len() == a@.len() && views(b@).len() == b@.len());
        }
        return false;
    }
    let mut i: usize = 0;
    while i < a.len()
        invariant
            i <= a@.len(),
            a@.len() == b@.len(),
            forall|j: int| 0 <= j < i ==> (#[trigger] a@[j])@ == b@[j]@,
        decreases a@.len() - i,
    {
        if !same(a[i].as_str(), b[i].as_str()) {
            proof {
                assert(views(a@)[i as int] != views(b@)[i as int]);
            }
            return false;
        }
        i = i + 1;
    }
    proof {
        assert(views(a@) =~= views(b@));
    }
    true
}

/// Whether two texts are the same path.
pub fn is_same_path(a: &str, b: &str) -> (r: bool)
    ensures
        r == same_path(a@, b@),
{
    starts_at_root(a) == starts_at_root(b) && same_list(&names_of_path(a), &names_of_path(b))
}

/// A path lies directly in a directory: it has one name more, the last.
pub open spec fn directly_in(path: Seq<char>, directory: Seq<char>) -> bool {
    let names = path_names(path);
    &&& is_rooted(path) == is_rooted(directory)
    &&& names.len() > 0
    &&& names.drop_last() == path_names(directory)
}

/// Whether a path lies directly in a directory.
pub fn is_directly_in(path: &str, directory: &str) -> (r: bool)
    ensures
        r == directly_in(path@, directory@),
{
    let mut names = names_of_path(path);
    let ghost all = names@;
    proof {
        assert(path_names(path@).len() == all.len());
    }
    match names.pop() {
        None => false,
        Some(_) => {
            proof {
                assert(views(names@) =~= path_names(path@).drop_last());
            }
            starts_at_root(path) == starts_at_root(directory) && same_list(
                &names,
                &names_of_path(directory),
            )
        },
    }
}

/// The last name of a path, where it has one.
pub fn last_name(path: &str) -> (r: Option<String>)
    ensures
        match r {
            Some(name) => path_names(path@).len() > 0 && name@ == path_names(path@).last(),
            None => path_names(path@).len() == 0,
        },
{
    let mut names = names_of_path(path);
    proof {
        assert(views(names@).len() == names@.len());
    }
    let ghost all = names@;
    let last = names.pop();
    proof {
        if all.len() > 0 {
            assert(views(all).last() == all.last()@);
        }
    }
    last
}

/// Whether the first `n` names point neither to the directory itself nor to the one above.
pub fn are_normal(names: &Vec<String>, n: usize) -> (r: bool)
    requires
        n <= names@.len(),
    ensures
        r == all_normal(views(names@).take(n as int)),
{
    let ghost all = views(names@).take(n as int);
    let mut i: usize = 0;
    while i < n
        invariant
            i <= n <= names@.len(),
            all == views(names@).take(n as int),
            forall|j: int| 0 <= j < i ==> (#[trigger] all[j]) != "."@ && all[j] != ".."@,
        decreases n - i,
    {
        proof {
            assert(all[i as int] == names@[i as int]@);
        }
        if same(names[i].as_str(), ".") || same(names[i].as_str(), "..") {
            return false;
        }
        i = i + 1;
    }
    true
}

/// The directories that the first `n` names make, outermost first.
pub fn chain_of(names: &Vec<String>, n: usize) -> (r: Vec<String>)
    requires
        n <= names@.len(),
    ensures
        views(r@) == directory_chain(views(names@).take(n as int)),
{
    let ghost all = views(names@);
    let mut r: Vec<String> = Vec::new();
    let mut path: String = String::new();
    let mut i: usize = 0;
    proof {
        assert(views(r@) =~= Seq::<Seq<char>>::empty());
        assert(all.take(0) =~= Seq::<Seq<char>>::empty());
        assert(path@ =~= Seq::<char>::empty());
    }
    while i < n
        invariant
            i <= n <= names@.len(),
            all == views(names@),
            path@ == joined_names(all.take(i as int)),
            views(r@) == directory_chain(all.take(i as int)),
        decreases n - i,
    {
        let ghost before = r@;
        let ghost next = all.take(i as int + 1);
        proof {
            assert(next.drop_last() =~= all.take(i as int));
            assert(next.last() == names@[i as int]@);
        }
        path = if i == 0 {
            proof {
                assert(next[0] == names@[0]@);
            }
            names[i].clone()
        } else {
            join3(path.as_str(), "/", names[i].as_str())
        };
        r.push(path.clone());
        proof {
            assert(views(r@) =~= views(before).push(path@));
        }
        i = i + 1;
    }
    r
}

proof fn names_are_kept(pieces: Seq<Seq<char>>)
    requires
        forall|i: int| 0 <= i < pieces.len() ==> (#[trigger] pieces[i]).len() > 0,
        forall|i: int| 1 <= i < pieces.len() ==> (#[trigger] pieces[i]) != "."@,
    ensures
        names_among(pieces) == pieces,
        names_among(seq![Seq::<char>::empty()] + pieces) == (if pieces.len() > 0 && pieces[0]
            == "."@ {
            pieces.skip(1)
        } else {
            pieces
        }),
    decreases pieces.len(),
{
    let all = seq![Seq::<char>::empty()] + pieces;
    if pieces.len() == 0 {
        assert(all.drop_last() =~= Seq::<Seq<char>>::empty());
        assert(all.last() =~= Seq::<char>::empty());
        assert(names_among(all.drop_last()) =~= Seq::<Seq<char>>::empty());
        assert(names_among(all) =~= Seq::<Seq<char>>::empty());
    } else {
        let front = pieces.drop_last();
        let n = pieces.len() - 1;
        assert forall|i: int| 0 <= i < front.len() implies (#[trigger] front[i]).len() > 0 by {
            assert(front[i] == pieces[i]);
        }
        assert forall|i: int| 1 <= i < front.len() implies (#[trigger] front[i]) != "."@ by {
            assert(front[i] == pieces[i]);
        }
        names_are_kept(front);
        assert(pieces[n] == pieces.last());
        assert(front.push(pieces.last()) =~= pieces);
        assert(all.drop_last() =~= seq![Seq::<char>::empty()] + front);
        assert(all.last() == pieces.last());
        if n > 0 {
            assert(front[0] == pieces[0]);
            if pieces[0] == "."@ {
                assert(front.skip(1).push(pieces.last()) =~= pieces.skip(1));
            }
        } else {
            assert(names_among(all.drop_last()) =~= Seq::<Seq<char>>::empty());
            if pieces[0] == "."@ {
                assert(names_among(all) =~= pieces.skip(1));
            } else {
                assert(names_among(all) =~= pieces);
            }
        }
    }
}

proof fn joined_with_slashes(names: Seq<Seq<char>>)
    ensures
        joined_names(names) == joined(names, '/'),
    decreases names.len(),
{
    if names.len() > 1 {
        joined_with_slashes(names.drop_last());
        reveal_strlit("/");
        assert(joined_names(names) =~= joined(names, '/'));
    }
}

/// The names of a path are those that it was joined from, whether it is rooted or not.
pub proof fn a_path_is_its_names(names: Seq<Seq<char>>)
    requires
        names.len() >= 1,
        forall|i: int|
            0 <= i < names.len() ==> (#[trigger] names[i]).len() > 0 && !names[i].contains('/')
                && names[i] != "."@,
    ensures
        path_names(joined_names(names)) == names,
        path_names("/"@ + joined_names(names)) == names,
        is_rooted("/"@ + joined_names(names)),
{
    joined_with_slashes(names);
    joining_is_undone_by_splitting(names, '/');
    names_are_kept(names);
    let none = Seq::<char>::empty();
    let all = seq![none] + names;
    assert forall|i: int| 0 <= i < all.len() implies !(#[trigger] all[i]).contains('/') by {
        if i > 0 {
            assert(all[i] == names[i - 1]);
        }
    }
    joining_is_undone_by_splitting(all, '/');
    slash_in_front(names);
    reveal_strlit("/");
    assert(("/"@ + joined_names(names))[0] == '/');
}

proof fn slash_in_front(names: Seq<Seq<char>>)
    requires
        names.len() >= 1,
    ensures
        joined(seq![Seq::<char>::empty()] + names, '/') == "/"@ + joined(names, '/'),
    decreases names.len(),
{
    let all = seq![Seq::<char>::empty()] + names;
    reveal_strlit("/");
    reveal_with_fuel(joined, 2);
    if names.len() == 1 {
        assert(all.drop_last() =~= seq![Seq::<char>::empty()]);
        assert(all.last() == names[0]);
        assert(joined(all, '/') =~= "/"@ + joined(names, '/'));
    } else {
        let front = names.drop_last();
        assert(all.drop_last() =~= seq![Seq::<char>::empty()] + front);
        assert(all.last() == names.last());
        slash_in_front(front);
        assert(joined(all, '/') =~= "/"@ + joined(names, '/'));
    }
}

/// A path lies directly in a directory exactly where it is the directory and one name more.
pub proof fn one_name_more(path: Seq<char>, directory: Seq<char>)
    ensures
        directly_in(path, directory) <==> is_rooted(path) == is_rooted(directory) && path_names(
            path,
        ).len() == path_names(directory).len() + 1 && forall|i: int|
            0 <= i < path_names(directory).len() ==> (#[trigger] path_names(directory)[i])
                == path_names(path)[i],
{
    let p = path_names(path);
    let d = path_names(directory);
    if directly_in(path, directory) {
        assert forall|i: int| 0 <= i < d.len() implies #[trigger] d[i] == p[i] by {
            assert(p.drop_last()[i] == p[i]);
        }
    }
    if p.len() == d.len() + 1 && forall|i: int| 0 <= i < d.len() ==> #[trigger] d[i] == p[i] {
        assert(p.drop_last() =~= d);
    }
}

} // verus!
