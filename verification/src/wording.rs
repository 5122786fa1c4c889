//! What the operations on texts give, stated by what they take apart and put together.

use vstd::prelude::*;

use crate::text::{
    ascii_lower, ends_with, equal_ignoring_case, first_index, first_index_is_least, first_word_spec,
    is_ascii_whitespace, is_control, is_space, is_whitespace, lines_spec, lowercase, non_empty,
    split_nonempty, split_once_spec, split_spaces, split_spec, starts_with, trim_end_spec,
    trim_spec, trim_start_spec, without_cr, word_len, words_spec,
};

verus! {

broadcast use vstd::string::group_string_axioms;

/// Blanks, tabs and line ends are white space; what is printed in ASCII is not.
pub proof fn white_space_is_not_printed(c: char)
    ensures
        c == ' ' || c == '\t' || c == '\n' || c == '\r' ==> is_whitespace(c)
            && is_ascii_whitespace(c),
        '!' <= c <= '~' ==> !is_whitespace(c) && !is_ascii_whitespace(c) && !is_control(c),
        is_ascii_whitespace(c) ==> is_whitespace(c),
{
}

/// What stands before a place and from another place on is white space, and what stands
/// between begins and ends with something else.
pub open spec fn is_core(s: Seq<char>, a: int, b: int) -> bool {
    &&& 0 <= a <= b <= s.len()
    &&& forall|i: int| 0 <= i < a ==> is_whitespace(#[trigger] s[i])
    &&& forall|i: int| b <= i < s.len() ==> is_whitespace(#[trigger] s[i])
    &&& a < b ==> !is_whitespace(s[a]) && !is_whitespace(s[b - 1])
}

proof fn trimming_the_front(s: Seq<char>) -> (a: int)
    ensures
        0 <= a <= s.len(),
        trim_start_spec(s) == s.skip(a),
        forall|i: int| 0 <= i < a ==> is_whitespace(#[trigger] s[i]),
        a < s.len() ==> !is_whitespace(s[a]),
    decreases s.len(),
{
    if s.len() > 0 && is_whitespace(s[0]) {
        let rest = s.drop_first();
        let a = trimming_the_front(rest);
        assert(rest.skip(a) =~= s.skip(a + 1));
        assert forall|i: int| 0 <= i < a + 1 implies is_whitespace(#[trigger] s[i]) by {
            if i > 0 {
                assert(rest[i - 1] == s[i]);
            }
        }
        a + 1
    } else {
        assert(s.skip(0) =~= s);
        0
    }
}

proof fn trimming_the_back(s: Seq<char>) -> (b: int)
    ensures
        0 <= b <= s.len(),
        trim_end_spec(s) == s.take(b),
        forall|i: int| b <= i < s.len() ==> is_whitespace(#[trigger] s[i]),
        b > 0 ==> !is_whitespace(s[b - 1]),
    decreases s.len(),
{
    if s.len() > 0 && is_whitespace(s.last()) {
        let front = s.drop_last();
        let b = trimming_the_back(front);
        assert(front.take(b) =~= s.take(b));
        assert forall|i: int| b <= i < s.len() implies is_whitespace(#[trigger] s[i]) by {
            if i < front.len() {
                assert(front[i] == s[i]);
            }
        }
        b
    } else {
        assert(s.take(s.len() as int) =~= s);
        s.len() as int
    }
}

/// Trimming leaves what stands between the white space at the two ends.
pub proof fn trimming_leaves_the_core(s: Seq<char>)
    ensures
        exists|a: int, b: int| #[trigger] is_core(s, a, b) && trim_spec(s) == s.subrange(a, b),
{
    let a = trimming_the_front(s);
    let rest = s.skip(a);
    let b = trimming_the_back(rest);
    assert(rest.take(b) =~= s.subrange(a, a + b));
    assert forall|i: int| a + b <= i < s.len() implies is_whitespace(#[trigger] s[i]) by {
        assert(rest[i - a] == s[i]);
    }
    assert(is_core(s, a, a + b));
}

/// Pieces put together again, with a separator between any two.
pub open spec fn joined(pieces: Seq<Seq<char>>, sep: char) -> Seq<char>
    decreases pieces.len(),
{
    if pieces.len() == 0 {
        Seq::empty()
    } else if pieces.len() == 1 {
        pieces[0]
    } else {
        joined(pieces.drop_last(), sep).push(sep) + pieces.last()
    }
}

/// Splitting takes a text apart at every separator: no piece has one, and put together again
/// the pieces are the text.
pub proof fn splitting_is_undone_by_joining(s: Seq<char>, sep: char)
    ensures
        split_spec(s, sep).len() >= 1,
        forall|i: int|
            0 <= i < split_spec(s, sep).len() ==> !(#[trigger] split_spec(s, sep)[i]).contains(sep),
        joined(split_spec(s, sep), sep) == s,
    decreases s.len(),
{
    if s.len() > 0 {
        let f = s.drop_last();
        splitting_is_undone_by_joining(f, sep);
        let front = split_spec(f, sep);
        let all = split_spec(s, sep);
        assert forall|i: int| 0 <= i < all.len() implies !(#[trigger] all[i]).contains(sep) by {
            if i < front.len() - 1 || (s.last() == sep && i < front.len()) {
                assert(all[i] == front[i]);
            } else if s.last() != sep {
                assert(all[i] == front.last().push(s.last()));
                assert(!front[front.len() - 1].contains(sep));
                if all[i].contains(sep) {
                    let k = choose|k: int| 0 <= k < all[i].len() && all[i][k] == sep;
                    if k < front.last().len() {
                        assert(front.last()[k] == sep);
                        assert(front[front.len() - 1].contains(sep));
                    }
                }
            }
        }
        if s.last() == sep {
            assert(all.drop_last() =~= front);
            assert(joined(all, sep) =~= s);
        } else {
            assert(all.drop_last() =~= front.drop_last());
            assert(f.push(s.last()) =~= s);
            assert(all.last() == front.last().push(s.last()));
            if front.len() > 1 {
                let j = joined(front.drop_last(), sep).push(sep);
                assert(f == j + front.last());
                assert(j + front.last().push(s.last()) =~= f.push(s.last()));
            }
            assert(joined(all, sep) == s);
        }
    } else {
        let all = split_spec(s, sep);
        assert(all.len() == 1 && all[0] =~= Seq::<char>::empty());
        assert(joined(all, sep) =~= s);
    }
}

/// Splitting once takes a text apart at its first separator.
pub proof fn splitting_once(s: Seq<char>, c: char)
    ensures
        split_once_spec(s, c) is Some <==> s.contains(c),
        split_once_spec(s, c) matches Some((a, b)) ==> s == a.push(c) + b && !a.contains(c),
{
    first_index_is_least(s, c);
    if s.contains(c) {
        let i = first_index(s, c);
        assert(s =~= s.take(i).push(c) + s.skip(i + 1));
    }
}

/// The first word of a text has no white space in it, only white space before it, and ends at
/// white space or with the text; a text of white space has none.
pub proof fn the_first_word(s: Seq<char>)
    ensures
        first_word_spec(s) is None <==> forall|i: int|
            0 <= i < s.len() ==> is_whitespace(#[trigger] s[i]),
        first_word_spec(s) matches Some(w) ==> exists|a: int, b: int|
            0 <= a < b <= s.len() && w == #[trigger] s.subrange(a, b) && (forall|i: int|
                0 <= i < a ==> is_whitespace(#[trigger] s[i])) && (forall|i: int|
                a <= i < b ==> !is_whitespace(#[trigger] s[i])) && (b < s.len() ==> is_whitespace(
                s[b],
            )),
{
    let a = trimming_the_front(s);
    let rest = s.skip(a);
    if rest.len() > 0 {
        word_ends(rest);
        let b = a + word_len(rest);
        assert(rest[0] == s[a]);
        assert(rest.take(word_len(rest) as int) =~= s.subrange(a, b));
        assert forall|i: int| a <= i < b implies !is_whitespace(#[trigger] s[i]) by {
            assert(rest[i - a] == s[i]);
        }
        assert(b < s.len() ==> rest[b - a] == s[b]);
        assert(word_len(rest) >= 1);
    }
}

proof fn word_ends(s: Seq<char>)
    ensures
        word_len(s) <= s.len(),
        forall|i: int| 0 <= i < word_len(s) ==> !is_whitespace(#[trigger] s[i]),
        word_len(s) < s.len() ==> is_whitespace(s[word_len(s) as int]),
    decreases s.len(),
{
    if s.len() > 0 && !is_whitespace(s[0]) {
        let rest = s.drop_first();
        word_ends(rest);
        assert forall|i: int| 0 <= i < word_len(s) implies !is_whitespace(#[trigger] s[i]) by {
            if i > 0 {
                assert(rest[i - 1] == s[i]);
            }
        }
        if word_len(s) < s.len() {
            assert(rest[word_len(rest) as int] == s[word_len(s) as int]);
        }
    }
}

proof fn splitting_two_parts(a: Seq<char>, b: Seq<char>, sep: char)
    ensures
        split_spec(a.push(sep) + b, sep) == split_spec(a, sep) + split_spec(b, sep),
    decreases b.len(),
{
    let s = a.push(sep) + b;
    if b.len() == 0 {
        assert(s =~= a.push(sep));
        assert(s.drop_last() =~= a);
        assert(split_spec(s, sep) =~= split_spec(a, sep) + split_spec(b, sep));
    } else {
        let f = b.drop_last();
        assert(s.drop_last() =~= a.push(sep) + f);
        splitting_two_parts(a, f, sep);
        split_nonempty(f, sep);
        let x = split_spec(a, sep);
        let y = split_spec(f, sep);
        assert((x + y).last() == y.last());
        assert(split_spec(s, sep) =~= x + split_spec(b, sep));
    }
}

proof fn splitting_one_part(a: Seq<char>, sep: char)
    requires
        !a.contains(sep),
    ensures
        split_spec(a, sep) == seq![a],
    decreases a.len(),
{
    if a.len() > 0 {
        let f = a.drop_last();
        assert(!f.contains(sep)) by {
            if f.contains(sep) {
                let k = choose|k: int| 0 <= k < f.len() && f[k] == sep;
                assert(a[k] == sep);
            }
        }
        assert(a[a.len() - 1] != sep);
        splitting_one_part(f, sep);
        assert(f.push(a.last()) =~= a);
        assert(split_spec(a, sep) =~= seq![a]);
    } else {
        assert(a =~= Seq::<char>::empty());
    }
}

/// A text begins with the line before its first line feed, without the carriage return that
/// may end it, and its other lines are those of what follows. A text without a line feed is
/// one line, and none where it is empty.
pub proof fn lines_end_at_line_feeds(a: Seq<char>, b: Seq<char>)
    requires
        !a.contains('\n'),
    ensures
        lines_spec(a) == (if a.len() == 0 {
            Seq::<Seq<char>>::empty()
        } else {
            seq![a]
        }),
        lines_spec(a.push('\n') + b) == seq![
            if a.len() > 0 && a.last() == '\r' {
                a.drop_last()
            } else {
                a
            },
        ] + lines_spec(b),
{
    splitting_one_part(a, '\n');
    splitting_two_parts(a, b, '\n');
    split_nonempty(b, '\n');
    let y = split_spec(b, '\n');
    let all = split_spec(a.push('\n') + b, '\n');
    assert(all =~= seq![a] + y);
    assert(all.last() == y.last());
    assert(all.drop_last() =~= seq![a] + y.drop_last());
    let f = |p: Seq<char>| without_cr(p);
    assert(all.drop_last().map_values(f) =~= seq![without_cr(a)] + y.drop_last().map_values(f));
    assert(lines_spec(a.push('\n') + b) =~= seq![without_cr(a)] + lines_spec(b));
    assert(split_spec(a, '\n').drop_last().map_values(f) =~= Seq::<Seq<char>>::empty());
    assert(lines_spec(a) =~= (if a.len() == 0 {
        Seq::<Seq<char>>::empty()
    } else {
        seq![a]
    }));
}

proof fn spaces_split_two_parts(a: Seq<char>, c: char, b: Seq<char>, ascii: bool)
    requires
        is_space(c, ascii),
    ensures
        split_spaces(a.push(c) + b, ascii) == split_spaces(a, ascii) + split_spaces(b, ascii),
        split_spaces(b, ascii).len() >= 1,
    decreases b.len(),
{
    let s = a.push(c) + b;
    if b.len() == 0 {
        assert(s =~= a.push(c));
        assert(s.drop_last() =~= a);
        assert(split_spaces(s, ascii) =~= split_spaces(a, ascii) + split_spaces(b, ascii));
    } else {
        let f = b.drop_last();
        assert(s.drop_last() =~= a.push(c) + f);
        spaces_split_two_parts(a, c, f, ascii);
        let x = split_spaces(a, ascii);
        let y = split_spaces(f, ascii);
        assert((x + y).last() == y.last());
        assert(split_spaces(s, ascii) =~= x + split_spaces(b, ascii));
    }
}

proof fn no_space_to_split(a: Seq<char>, ascii: bool)
    requires
        forall|i: int| 0 <= i < a.len() ==> !is_space(#[trigger] a[i], ascii),
    ensures
        split_spaces(a, ascii) == seq![a],
    decreases a.len(),
{
    if a.len() > 0 {
        let f = a.drop_last();
        assert forall|i: int| 0 <= i < f.len() implies !is_space(#[trigger] f[i], ascii) by {
            assert(f[i] == a[i]);
        }
        no_space_to_split(f, ascii);
        assert(!is_space(a[a.len() - 1], ascii));
        assert(f.push(a.last()) =~= a);
        assert(split_spaces(a, ascii) =~= seq![a]);
    } else {
        assert(a =~= Seq::<char>::empty());
    }
}

proof fn what_is_not_empty(a: Seq<Seq<char>>, b: Seq<Seq<char>>)
    ensures
        non_empty(a + b) == non_empty(a) + non_empty(b),
    decreases b.len(),
{
    if b.len() == 0 {
        assert(a + b =~= a);
        assert(non_empty(a) + non_empty(b) =~= non_empty(a));
    } else {
        let f = b.drop_last();
        what_is_not_empty(a, f);
        assert((a + b).drop_last() =~= a + f);
        assert((a + b).last() == b.last());
        assert(non_empty(a + b) =~= non_empty(a) + non_empty(b));
    }
}

/// A text without white space is one word, and none where it is empty; the words of a text
/// with white space in it are those before it and those after it.
pub proof fn words_end_at_white_space(
    w: Seq<char>,
    a: Seq<char>,
    c: char,
    b: Seq<char>,
    ascii: bool,
)
    requires
        forall|i: int| 0 <= i < w.len() ==> !is_space(#[trigger] w[i], ascii),
        is_space(c, ascii),
    ensures
        words_spec(w, ascii) == (if w.len() == 0 {
            Seq::<Seq<char>>::empty()
        } else {
            seq![w]
        }),
        words_spec(a.push(c) + b, ascii) == words_spec(a, ascii) + words_spec(b, ascii),
{
    no_space_to_split(w, ascii);
    let one = seq![w];
    assert(one.drop_last() =~= Seq::<Seq<char>>::empty());
    assert(one.last() == w);
    reveal_with_fuel(non_empty, 2);
    assert(non_empty(one) =~= (if w.len() == 0 {
        Seq::<Seq<char>>::empty()
    } else {
        seq![w]
    }));
    spaces_split_two_parts(a, c, b, ascii);
    what_is_not_empty(split_spaces(a, ascii), split_spaces(b, ascii));
}

/// Only the capital letters of ASCII have another lower case, which is the letter at the same
/// place of the alphabet; two texts are the same but for case where their lower cases are.
pub proof fn case_is_that_of_ascii(c: char, a: Seq<char>, b: Seq<char>)
    ensures
        'A' <= c <= 'Z' ==> ascii_lower(c) as u32 - 'a' as u32 == c as u32 - 'A' as u32,
        !('A' <= c <= 'Z') ==> ascii_lower(c) == c,
        ascii_lower(ascii_lower(c)) == ascii_lower(c),
        equal_ignoring_case(a, b) <==> lowercase(a) == lowercase(b),
        lowercase(a).len() == a.len(),
        lowercase(lowercase(a)) == lowercase(a),
{
    let x = lowercase(a);
    let y = lowercase(b);
    if x == y {
        assert(x.len() == a.len() && y.len() == b.len());
        assert forall|i: int| 0 <= i < a.len() implies ascii_lower(#[trigger] a[i]) == ascii_lower(
            b[i],
        ) by {
            assert(x[i] == ascii_lower(a[i]) && y[i] == ascii_lower(b[i]));
        }
    }
    if equal_ignoring_case(a, b) {
        assert(x =~= y);
    }
    assert forall|d: char| ascii_lower(#[trigger] ascii_lower(d)) == ascii_lower(d) by {}
    assert(lowercase(x) =~= x);
}

/// A text begins or ends with another exactly where it is that other with something after or
/// before it.
pub proof fn beginnings_and_ends(p: Seq<char>, rest: Seq<char>, s: Seq<char>)
    ensures
        starts_with(p + rest, p),
        ends_with(rest + p, p),
        starts_with(s, p) ==> s == p + s.skip(p.len() as int),
        ends_with(s, p) ==> s == s.take(s.len() - p.len()) + p,
{
    assert((p + rest).take(p.len() as int) =~= p);
    assert((rest + p).skip(rest.len() as int) =~= p);
    if starts_with(s, p) {
        assert(s =~= p + s.skip(p.len() as int));
    }
    if ends_with(s, p) {
        assert(s =~= s.take(s.len() - p.len()) + p);
    }
}

/// Joining pieces without the separator is undone by splitting.
pub proof fn joining_is_undone_by_splitting(pieces: Seq<Seq<char>>, sep: char)
    requires
        pieces.len() >= 1,
        forall|i: int| 0 <= i < pieces.len() ==> !(#[trigger] pieces[i]).contains(sep),
    ensures
        split_spec(joined(pieces, sep), sep) == pieces,
    decreases pieces.len(),
{
    let n = pieces.len() - 1;
    assert(pieces[n] == pieces.last());
    if pieces.len() == 1 {
        splitting_one_part(pieces[0], sep);
        assert(split_spec(joined(pieces, sep), sep) =~= pieces);
    } else {
        let front = pieces.drop_last();
        assert forall|i: int| 0 <= i < front.len() implies !(#[trigger] front[i]).contains(sep) by {
            assert(front[i] == pieces[i]);
        }
        joining_is_undone_by_splitting(front, sep);
        splitting_two_parts(joined(front, sep), pieces.last(), sep);
        splitting_one_part(pieces.last(), sep);
        assert(split_spec(joined(pieces, sep), sep) =~= pieces);
    }
}

/// A text is taken apart at its first separator into what stood before and after it.
pub proof fn the_first_separator(a: Seq<char>, c: char, b: Seq<char>)
    requires
        !a.contains(c),
    ensures
        split_once_spec(a.push(c) + b, c) == Some((a, b)),
        split_once_spec(a, c) is None,
{
    let s = a.push(c) + b;
    first_index_is_least(s, c);
    first_index_is_least(a, c);
    let n = a.len() as int;
    assert(s[n] == c);
    let i = first_index(s, c);
    if i < n {
        assert(a[i] == s[i]);
    }
    assert(s.take(n) =~= a);
    assert(s.skip(n + 1) =~= b);
}

} // verus!
