//! Text as sequences of characters: the few string operations that the rest of the
//! library is written with, each with an exact contract.

use vstd::prelude::*;
use vstd::utf8::encode_utf8;

verus! {

broadcast use vstd::string::group_string_axioms;

/// A text in double quotes, with escapes, as the `Debug` form of `str` writes it.
pub uninterp spec fn quoted_text(s: Seq<char>) -> Seq<char>;

/// The `Debug` form of `str`: the text in double quotes, with escapes.
#[verifier::external_body]
pub(crate) fn quoted(s: &str) -> (r: String)
    ensures
        r@ == quoted_text(s@),
{
    format!("{:?}", s)
}

/// `String::push` appends one character to the end of the text.
pub assume_specification[ String::push ](s: &mut String, c: char)
    ensures
        final(s)@ == old(s)@.push(c),
;

/// Number of bytes of the UTF-8 form of `s`.
pub open spec fn byte_len(s: Seq<char>) -> nat {
    encode_utf8(s).len()
}

/// Number of bytes of the UTF-8 form of one character.
pub open spec fn char_width(c: char) -> nat {
    if (c as u32) < 0x80 {
        1
    } else if (c as u32) < 0x800 {
        2
    } else if (c as u32) < 0x10000 {
        3
    } else {
        4
    }
}

/// Number of bytes of the UTF-8 form of one character.
pub fn width(c: char) -> (n: usize)
    ensures
        n == char_width(c),
        1 <= n <= 4,
{
    let code: u32 = c as u32;
    if code < 0x80 {
        1
    } else if code < 0x800 {
        2
    } else if code < 0x10000 {
        3
    } else {
        4
    }
}

/// The byte length of a text grows by the width of each character that is appended.
pub proof fn byte_len_push(s: Seq<char>, c: char)
    ensures
        byte_len(s.push(c)) == byte_len(s) + char_width(c),
    decreases s.len(),
{
    broadcast use vstd::utf8::char_is_scalar;
    if s.len() == 0 {
        assert(s.push(c).drop_first() =~= Seq::<char>::empty());
        assert(s.push(c)[0] == c);
        assert(encode_utf8(Seq::<char>::empty()).len() == 0);
        assert(encode_utf8(s.push(c)).len() == vstd::utf8::encode_scalar(c as u32).len());
    } else {
        assert(s.push(c).drop_first() =~= s.drop_first().push(c));
        byte_len_push(s.drop_first(), c);
    }
}

/// Byte lengths add up under concatenation.
pub proof fn byte_len_concat(a: Seq<char>, b: Seq<char>)
    ensures
        byte_len(a + b) == byte_len(a) + byte_len(b),
    decreases b.len(),
{
    if b.len() == 0 {
        assert(a + b =~= a);
    } else {
        let front = b.drop_last();
        assert(a + b =~= (a + front).push(b.last()));
        assert(b =~= front.push(b.last()));
        byte_len_push(a + front, b.last());
        byte_len_push(front, b.last());
        byte_len_concat(a, front);
    }
}

/// A text has at least as many bytes as characters.
pub proof fn byte_len_at_least_len(s: Seq<char>)
    ensures
        byte_len(s) >= s.len(),
    decreases s.len(),
{
    if s.len() > 0 {
        byte_len_at_least_len(s.drop_last());
        byte_len_push(s.drop_last(), s.last());
        assert(s =~= s.drop_last().push(s.last()));
    }
}

/// In a text of ASCII characters every character is one byte.
pub proof fn byte_len_ascii(s: Seq<char>)
    requires
        forall|i: int| 0 <= i < s.len() ==> (#[trigger] s[i] as u32) < 0x80,
    ensures
        byte_len(s) == s.len(),
    decreases s.len(),
{
    if s.len() > 0 {
        byte_len_ascii(s.drop_last());
        byte_len_push(s.drop_last(), s.last());
        assert(s =~= s.drop_last().push(s.last()));
    }
}

/// Number of bytes of the UTF-8 form of `s`.
pub fn byte_length(s: &str) -> (n: usize)
    ensures
        n == byte_len(s@),
{
    s.as_bytes().len()
}

/// The characters of a text, in order.
pub fn chars_of(s: &str) -> (v: Vec<char>)
    ensures
        v@ == s@,
{
    let mut v: Vec<char> = Vec::new();
    for c in it: s.chars()
        invariant
            it.seq() == s@,
            v@ == s@.take(it.index() as int),
    {
        v.push(c);
        proof {
            assert(s@.take(it.index() as int + 1) =~= s@.take(it.index() as int).push(c));
        }
    }
    proof {
        assert(s@.take(s@.len() as int) =~= s@);
    }
    v
}

/// The text made of the characters `v[from..to]`.
pub fn text_of(v: &Vec<char>, from: usize, to: usize) -> (s: String)
    requires
        from <= to <= v@.len(),
    ensures
        s@ == v@.subrange(from as int, to as int),
{
    let mut s: String = String::new();
    let mut i: usize = from;
    while i < to
        invariant
            from <= i <= to <= v@.len(),
            s@ == v@.subrange(from as int, i as int),
        decreases to - i,
    {
        s.push(v[i]);
        i = i + 1;
        proof {
            assert(v@.subrange(from as int, i as int) =~= v@.subrange(
                from as int,
                i as int - 1,
            ).push(v@[i as int - 1]));
        }
    }
    s
}

/// Whether two texts have the same characters.
pub fn same(a: &str, b: &str) -> (r: bool)
    ensures
        r == (a@ == b@),
{
    a.to_owned() == b.to_owned()
}

/// The characters of an optional text.
pub open spec fn view_option(o: Option<String>) -> Option<Seq<char>> {
    match o {
        Some(x) => Some(x@),
        None => None,
    }
}

/// The characters of an optional borrowed text.
pub open spec fn view_str(o: Option<&str>) -> Option<Seq<char>> {
    match o {
        Some(s) => Some(s@),
        None => None,
    }
}

/// The same optional text, owned.
pub fn own_option(a: Option<&str>) -> (r: Option<String>)
    ensures
        view_option(r) == view_str(a),
{
    match a {
        Some(s) => Some(s.to_owned()),
        None => None,
    }
}

/// Whether two optional texts are both absent or have the same characters.
pub fn same_option(a: &Option<String>, b: &Option<String>) -> (r: bool)
    ensures
        r == (view_option(*a) == view_option(*b)),
{
    match (a, b) {
        (None, None) => true,
        (Some(x), Some(y)) => *x == *y,
        _ => false,
    }
}

/// Whether an optional text is present with the given characters.
pub fn option_is(a: &Option<String>, b: &str) -> (r: bool)
    ensures
        r == (view_option(*a) == Some(b@)),
{
    match a {
        Some(x) => same(x.as_str(), b),
        None => false,
    }
}

/// A copy of an optional text.
pub fn copy_option(a: &Option<String>) -> (r: Option<String>)
    ensures
        r == *a,
{
    match a {
        Some(x) => Some(x.clone()),
        None => None,
    }
}

/// The bytes of an optional byte string.
pub open spec fn view_bytes(o: Option<Vec<u8>>) -> Option<Seq<u8>> {
    match o {
        Some(x) => Some(x@),
        None => None,
    }
}

/// A copy of a byte string.
pub fn copy_bytes(a: &Vec<u8>) -> (r: Vec<u8>)
    ensures
        r@ == a@,
{
    let mut r: Vec<u8> = Vec::new();
    let mut i: usize = 0;
    while i < a.len()
        invariant
            i <= a@.len(),
            r@ == a@.take(i as int),
        decreases a@.len() - i,
    {
        r.push(a[i]);
        i = i + 1;
        proof {
            assert(a@.take(i as int) =~= a@.take(i as int - 1).push(a@[i as int - 1]));
        }
    }
    proof {
        assert(a@.take(a@.len() as int) =~= a@);
    }
    r
}

/// A copy of a list of texts.
pub fn copy_list(a: &Vec<String>) -> (r: Vec<String>)
    ensures
        r@ == a@,
{
    let mut r: Vec<String> = Vec::new();
    let mut i: usize = 0;
    while i < a.len()
        invariant
            i <= a@.len(),
            r@ == a@.take(i as int),
        decreases a@.len() - i,
    {
        r.push(a[i].clone());
        i = i + 1;
        proof {
            assert(a@.take(i as int) =~= a@.take(i as int - 1).push(a@[i as int - 1]));
        }
    }
    proof {
        assert(a@.take(a@.len() as int) =~= a@);
    }
    r
}

/// Whether `s` begins with `p`.
pub open spec fn starts_with(s: Seq<char>, p: Seq<char>) -> bool {
    s.len() >= p.len() && s.take(p.len() as int) == p
}

/// Whether `s` ends with `p`.
pub open spec fn ends_with(s: Seq<char>, p: Seq<char>) -> bool {
    s.len() >= p.len() && s.skip(s.len() - p.len()) == p
}

/// Whether `s` begins with `p`.
pub fn has_prefix(s: &str, p: &str) -> (r: bool)
    ensures
        r == starts_with(s@, p@),
{
    let n: usize = p.unicode_len();
    if s.unicode_len() < n {
        return false;
    }
    let head = s.substring_char(0, n);
    proof {
        assert(s@.take(n as int) =~= s@.subrange(0, n as int));
    }
    same(head, p)
}

/// Whether `s` ends with `p`.
pub fn has_suffix(s: &str, p: &str) -> (r: bool)
    ensures
        r == ends_with(s@, p@),
{
    let n: usize = p.unicode_len();
    let m: usize = s.unicode_len();
    if m < n {
        return false;
    }
    let tail = s.substring_char(m - n, m);
    proof {
        assert(s@.skip(m - n) =~= s@.subrange(m - n, m as int));
    }
    same(tail, p)
}

/// What follows `p` in `s`, where `s` begins with `p`.
pub fn after_prefix<'a>(s: &'a str, p: &str) -> (r: Option<&'a str>)
    ensures
        r is Some <==> starts_with(s@, p@),
        r matches Some(rest) ==> rest@ == s@.skip(p@.len() as int),
{
    if has_prefix(s, p) {
        let n: usize = p.unicode_len();
        let m: usize = s.unicode_len();
        proof {
            assert(s@.skip(n as int) =~= s@.subrange(n as int, m as int));
        }
        Some(s.substring_char(n, m))
    } else {
        None
    }
}

/// What precedes `p` in `s`, where `s` ends with `p`.
pub fn before_suffix<'a>(s: &'a str, p: &str) -> (r: Option<&'a str>)
    ensures
        r is Some <==> ends_with(s@, p@),
        r matches Some(rest) ==> rest@ == s@.take(s@.len() - p@.len()),
{
    if has_suffix(s, p) {
        let n: usize = p.unicode_len();
        let m: usize = s.unicode_len();
        proof {
            assert(s@.take(m - n) =~= s@.subrange(0, m - n));
        }
        Some(s.substring_char(0, m - n))
    } else {
        None
    }
}

/// Whether the character `c` occurs in `s`.
pub fn contains_char(s: &str, c: char) -> (r: bool)
    ensures
        r == s@.contains(c),
{
    let v = chars_of(s);
    let mut i: usize = 0;
    while i < v.len()
        invariant
            i <= v@.len(),
            v@ == s@,
            forall|j: int| 0 <= j < i ==> v@[j] != c,
        decreases v@.len() - i,
    {
        if v[i] == c {
            proof {
                assert(s@[i as int] == c);
            }
            return true;
        }
        i = i + 1;
    }
    false
}

/// Whether the texts of a list contain `x`.
pub open spec fn lists(list: Seq<String>, x: Seq<char>) -> bool {
    exists|i: int| 0 <= i < list.len() && (#[trigger] list[i])@ == x
}

/// Whether the texts of a list contain `x`.
pub fn list_contains(list: &Vec<String>, x: &str) -> (r: bool)
    ensures
        r == lists(list@, x@),
{
    let mut i: usize = 0;
    while i < list.len()
        invariant
            i <= list@.len(),
            forall|j: int| 0 <= j < i ==> (#[trigger] list@[j])@ != x@,
        decreases list@.len() - i,
    {
        if same(list[i].as_str(), x) {
            return true;
        }
        i = i + 1;
    }
    false
}

/// ASCII decimal digit.
pub open spec fn is_digit(c: char) -> bool {
    '0' <= c <= '9'
}

/// ASCII letter or decimal digit.
pub open spec fn is_alphanumeric(c: char) -> bool {
    is_digit(c) || 'a' <= c <= 'z' || 'A' <= c <= 'Z'
}

/// ASCII decimal digit.
pub fn digit(c: char) -> (r: bool)
    ensures
        r == is_digit(c),
{
    '0' <= c && c <= '9'
}

/// ASCII letter or decimal digit.
pub fn alphanumeric(c: char) -> (r: bool)
    ensures
        r == is_alphanumeric(c),
{
    digit(c) || ('a' <= c && c <= 'z') || ('A' <= c && c <= 'Z')
}

/// Unicode general category Cc: the C0 and C1 control characters and DEL.
pub open spec fn is_control(c: char) -> bool {
    (c as u32) < 0x20 || 0x7f <= (c as u32) <= 0x9f
}

/// Unicode general category Cc: the C0 and C1 control characters and DEL.
pub fn control(c: char) -> (r: bool)
    ensures
        r == is_control(c),
{
    let code: u32 = c as u32;
    code < 0x20 || (0x7f <= code && code <= 0x9f)
}

/// Unicode property White_Space.
pub open spec fn is_whitespace(c: char) -> bool {
    let code = c as u32;
    ||| 0x09 <= code <= 0x0d
    ||| code == 0x20
    ||| code == 0x85
    ||| code == 0xa0
    ||| code == 0x1680
    ||| 0x2000 <= code <= 0x200a
    ||| code == 0x2028
    ||| code == 0x2029
    ||| code == 0x202f
    ||| code == 0x205f
    ||| code == 0x3000
}

/// Unicode property White_Space.
pub fn whitespace(c: char) -> (r: bool)
    ensures
        r == is_whitespace(c),
{
    let code: u32 = c as u32;
    (0x09 <= code && code <= 0x0d) || code == 0x20 || code == 0x85 || code == 0xa0 || code == 0x1680
        || (0x2000 <= code && code <= 0x200a) || code == 0x2028 || code == 0x2029 || code == 0x202f
        || code == 0x205f || code == 0x3000
}

/// `s` without the white space at its front.
pub open spec fn trim_start_spec(s: Seq<char>) -> Seq<char>
    decreases s.len(),
{
    if s.len() > 0 && is_whitespace(s[0]) {
        trim_start_spec(s.drop_first())
    } else {
        s
    }
}

/// `s` without the white space at its back.
pub open spec fn trim_end_spec(s: Seq<char>) -> Seq<char>
    decreases s.len(),
{
    if s.len() > 0 && is_whitespace(s.last()) {
        trim_end_spec(s.drop_last())
    } else {
        s
    }
}

/// `s` without the white space at its two ends.
pub open spec fn trim_spec(s: Seq<char>) -> Seq<char> {
    trim_end_spec(trim_start_spec(s))
}

/// `s` without the white space at its two ends.
pub fn trim(s: &str) -> (r: String)
    ensures
        r@ == trim_spec(s@),
{
    let v = chars_of(s);
    let mut from: usize = 0;
    proof {
        assert(v@.skip(0) =~= v@);
    }
    while from < v.len() && whitespace(v[from])
        invariant
            from <= v@.len(),
            trim_start_spec(v@.skip(from as int)) == trim_start_spec(v@),
        decreases v@.len() - from,
    {
        proof {
            assert(v@.skip(from as int).drop_first() =~= v@.skip(from as int + 1));
        }
        from = from + 1;
    }
    proof {
        assert(trim_start_spec(v@) == v@.skip(from as int));
    }
    let mut to: usize = v.len();
    proof {
        assert(v@.subrange(from as int, to as int) =~= v@.skip(from as int));
    }
    while to > from && whitespace(v[to - 1])
        invariant
            from <= to <= v@.len(),
            trim_end_spec(v@.subrange(from as int, to as int)) == trim_end_spec(
                v@.skip(from as int),
            ),
        decreases to,
    {
        proof {
            let cur = v@.subrange(from as int, to as int);
            assert(cur.drop_last() =~= v@.subrange(from as int, to as int - 1));
            assert(cur.last() == v@[to - 1]);
        }
        to = to - 1;
    }
    proof {
        let cur = v@.subrange(from as int, to as int);
        if to > from {
            assert(cur.last() == v@[to - 1]);
        }
    }
    text_of(&v, from, to)
}

/// The pieces of `s` between the occurrences of `sep`: one more than there are
/// occurrences.
pub open spec fn split_spec(s: Seq<char>, sep: char) -> Seq<Seq<char>>
    decreases s.len(),
{
    if s.len() == 0 {
        seq![Seq::empty()]
    } else {
        let front = split_spec(s.drop_last(), sep);
        if s.last() == sep {
            front.push(Seq::empty())
        } else {
            front.update(front.len() - 1, front.last().push(s.last()))
        }
    }
}

/// Splitting gives at least one piece.
pub proof fn split_nonempty(s: Seq<char>, sep: char)
    ensures
        split_spec(s, sep).len() >= 1,
    decreases s.len(),
{
    if s.len() > 0 {
        split_nonempty(s.drop_last(), sep);
    }
}

/// The characters of each text of a list.
pub open spec fn views(list: Seq<String>) -> Seq<Seq<char>> {
    list.map_values(|s: String| s@)
}

/// The pieces of `s` between the occurrences of `sep`.
pub fn split(s: &str, sep: char) -> (r: Vec<String>)
    ensures
        views(r@) == split_spec(s@, sep),
        r@.len() >= 1,
{
    let v = chars_of(s);
    let mut r: Vec<String> = Vec::new();
    let mut current: String = String::new();
    let mut i: usize = 0;
    proof {
        assert(v@.take(0) =~= Seq::<char>::empty());
        assert(views(r@).push(current@) =~= seq![Seq::<char>::empty()]);
    }
    while i < v.len()
        invariant
            i <= v@.len(),
            v@ == s@,
            views(r@).push(current@) == split_spec(v@.take(i as int), sep),
        decreases v@.len() - i,
    {
        let c = v[i];
        proof {
            let before = v@.take(i as int);
            let after = v@.take(i as int + 1);
            assert(after.drop_last() =~= before);
            assert(after.last() == c);
        }
        let ghost front = views(r@).push(current@);
        if c == sep {
            let ghost done = r@;
            let ghost piece = current@;
            r.push(current);
            current = String::new();
            proof {
                assert(views(r@) =~= views(done).push(piece));
                assert(views(r@).push(current@) =~= front.push(Seq::empty()));
            }
        } else {
            current.push(c);
            proof {
                assert(views(r@).push(current@) =~= front.update(
                    front.len() - 1,
                    front.last().push(c),
                ));
            }
        }
        i = i + 1;
    }
    let ghost done = r@;
    let ghost piece = current@;
    r.push(current);
    proof {
        assert(v@.take(v@.len() as int) =~= s@);
        assert(views(r@) =~= views(done).push(piece));
    }
    r
}

/// Position of the first `c` in `s`, or the length of `s` where there is none.
pub open spec fn first_index(s: Seq<char>, c: char) -> int
    decreases s.len(),
{
    if s.len() == 0 || s[0] == c {
        0
    } else {
        1 + first_index(s.drop_first(), c)
    }
}

/// `first_index` is the least position at which `c` stands.
pub proof fn first_index_is_least(s: Seq<char>, c: char)
    ensures
        0 <= first_index(s, c) <= s.len(),
        forall|i: int| 0 <= i < first_index(s, c) ==> s[i] != c,
        first_index(s, c) < s.len() ==> s[first_index(s, c)] == c,
        s.contains(c) <==> first_index(s, c) < s.len(),
    decreases s.len(),
{
    if s.len() > 0 && s[0] != c {
        let rest = s.drop_first();
        first_index_is_least(rest, c);
        assert forall|i: int| 0 <= i < first_index(s, c) implies s[i] != c by {
            if i > 0 {
                assert(rest[i - 1] == s[i]);
            }
        }
        if s.contains(c) {
            let k = choose|k: int| 0 <= k < s.len() && s[k] == c;
            assert(rest[k - 1] == c);
        }
        if rest.contains(c) {
            let k = choose|k: int| 0 <= k < rest.len() && rest[k] == c;
            assert(s[k + 1] == c);
        }
    }
}

/// What stands before the first `c` and what stands after it.
pub open spec fn split_once_spec(s: Seq<char>, c: char) -> Option<(Seq<char>, Seq<char>)> {
    let i = first_index(s, c);
    if i < s.len() {
        Some((s.take(i), s.skip(i + 1)))
    } else {
        None
    }
}

/// What stands before the first `c` and what stands after it.
pub fn split_once(s: &str, c: char) -> (r: Option<(String, String)>)
    ensures
        match r {
            Some((a, b)) => split_once_spec(s@, c) == Some((a@, b@)),
            None => split_once_spec(s@, c) is None,
        },
{
    let v = chars_of(s);
    let mut i: usize = 0;
    proof {
        assert(v@.skip(0) =~= v@);
    }
    while i < v.len() && v[i] != c
        invariant
            i <= v@.len(),
            v@ == s@,
            first_index(v@, c) == i + first_index(v@.skip(i as int), c),
        decreases v@.len() - i,
    {
        proof {
            assert(v@.skip(i as int).drop_first() =~= v@.skip(i as int + 1));
        }
        i = i + 1;
    }
    if i < v.len() {
        let a = text_of(&v, 0, i);
        let b = text_of(&v, i + 1, v.len());
        proof {
            assert(v@.subrange(0, i as int) =~= v@.take(i as int));
            assert(v@.subrange(i as int + 1, v@.len() as int) =~= v@.skip(i as int + 1));
        }
        Some((a, b))
    } else {
        None
    }
}

/// Every character of a text is the separator or a character of some piece.
pub proof fn split_covers(s: Seq<char>, sep: char, k: int)
    requires
        0 <= k < s.len(),
        s[k] != sep,
    ensures
        exists|p: int, j: int|
            0 <= p < split_spec(s, sep).len() && 0 <= j < split_spec(s, sep)[p].len()
                && #[trigger] split_spec(s, sep)[p][j] == s[k],
    decreases s.len(),
{
    let front = split_spec(s.drop_last(), sep);
    split_nonempty(s.drop_last(), sep);
    if k == s.len() - 1 {
        let whole = split_spec(s, sep);
        let p = whole.len() - 1;
        let j = whole[p].len() - 1;
        assert(whole[p][j] == s[k]);
    } else {
        split_covers(s.drop_last(), sep, k);
        let (p, j) = choose|p: int, j: int|
            0 <= p < front.len() && 0 <= j < front[p].len() && #[trigger] front[p][j]
                == s.drop_last()[k];
        assert(split_spec(s, sep)[p][j] == s[k]);
    }
}

/// Length of the longest front part of `s` without white space.
pub open spec fn word_len(s: Seq<char>) -> nat
    decreases s.len(),
{
    if s.len() == 0 || is_whitespace(s[0]) {
        0
    } else {
        1 + word_len(s.drop_first())
    }
}

/// The first run of characters of `s` that are not white space.
pub open spec fn first_word_spec(s: Seq<char>) -> Option<Seq<char>> {
    let rest = trim_start_spec(s);
    if rest.len() == 0 {
        None
    } else {
        Some(rest.take(word_len(rest) as int))
    }
}

/// The first run of characters of `s` that are not white space.
pub fn first_word(s: &str) -> (r: Option<String>)
    ensures
        view_option(r) == first_word_spec(s@),
{
    let v = chars_of(s);
    let mut from: usize = 0;
    proof {
        assert(v@.skip(0) =~= v@);
    }
    while from < v.len() && whitespace(v[from])
        invariant
            from <= v@.len(),
            trim_start_spec(v@.skip(from as int)) == trim_start_spec(v@),
        decreases v@.len() - from,
    {
        proof {
            assert(v@.skip(from as int).drop_first() =~= v@.skip(from as int + 1));
        }
        from = from + 1;
    }
    let ghost rest = v@.skip(from as int);
    proof {
        assert(trim_start_spec(v@) == rest);
        assert(rest.skip(0) =~= rest);
    }
    if from == v.len() {
        return None;
    }
    let mut to: usize = from;
    while to < v.len() && !whitespace(v[to])
        invariant
            from <= to <= v@.len(),
            rest == v@.skip(from as int),
            word_len(rest) == (to - from) + word_len(rest.skip(to - from)),
        decreases v@.len() - to,
    {
        proof {
            let here = rest.skip(to - from);
            assert(here[0] == v@[to as int]);
            assert(here.drop_first() =~= rest.skip(to - from + 1));
        }
        to = to + 1;
    }
    proof {
        let here = rest.skip(to - from);
        if to < v@.len() {
            assert(here[0] == v@[to as int]);
        }
        assert(word_len(here) == 0);
        assert(v@.subrange(from as int, to as int) =~= rest.take(to - from));
    }
    Some(text_of(&v, from, to))
}

/// A line without the carriage return that ends it.
pub open spec fn without_cr(s: Seq<char>) -> Seq<char> {
    if s.len() > 0 && s.last() == '\r' {
        s.drop_last()
    } else {
        s
    }
}

/// The lines of a text: what stands between line feeds, without a last empty piece. A
/// carriage return before a line feed belongs to neither line.
pub open spec fn lines_spec(s: Seq<char>) -> Seq<Seq<char>> {
    let pieces = split_spec(s, '\n');
    let ended = pieces.drop_last().map_values(|p: Seq<char>| without_cr(p));
    if pieces.last().len() == 0 {
        ended
    } else {
        ended.push(pieces.last())
    }
}

/// The lines of a text.
pub fn lines(s: &str) -> (r: Vec<String>)
    ensures
        views(r@) == lines_spec(s@),
{
    let pieces = split(s, '\n');
    let n: usize = pieces.len();
    let kept: usize = if pieces[n - 1].as_str().is_empty() {
        n - 1
    } else {
        n
    };
    let mut r: Vec<String> = Vec::new();
    let mut i: usize = 0;
    proof {
        assert(views(pieces@).last() == pieces@[n - 1]@);
    }
    while i < kept
        invariant
            i <= kept <= pieces@.len(),
            r@.len() == i,
            n == pieces@.len(),
            forall|j: int|
                0 <= j < i ==> (#[trigger] r@[j])@ == (if j < n - 1 {
                    without_cr(pieces@[j]@)
                } else {
                    pieces@[j]@
                }),
        decreases kept - i,
    {
        let v = chars_of(pieces[i].as_str());
        let end: usize = if i < n - 1 && v.len() > 0 && v[v.len() - 1] == '\r' {
            v.len() - 1
        } else {
            v.len()
        };
        let line = text_of(&v, 0, end);
        proof {
            assert(v@.len() > 0 ==> v@.subrange(0, v@.len() - 1) =~= v@.drop_last());
            assert(v@.subrange(0, v@.len() as int) =~= v@);
        }
        r.push(line);
        i = i + 1;
    }
    proof {
        let all = split_spec(s@, '\n');
        assert(all == views(pieces@));
        assert(all.len() == n);
        assert(all.last().len() == 0 <==> kept == n - 1);
        assert(views(r@).len() == lines_spec(s@).len());
        assert forall|j: int| 0 <= j < kept implies views(r@)[j] == lines_spec(s@)[j] by {
            assert(r@[j]@ == views(r@)[j]);
            assert(views(pieces@)[j] == pieces@[j]@);
        }
        assert(views(r@) =~= lines_spec(s@));
    }
    r
}

/// ASCII white space.
pub open spec fn is_ascii_whitespace(c: char) -> bool {
    c == ' ' || c == '\t' || c == '\n' || c == '\r' || c == '\u{c}'
}

/// White space of the one or the other kind.
pub open spec fn is_space(c: char, ascii: bool) -> bool {
    if ascii {
        is_ascii_whitespace(c)
    } else {
        is_whitespace(c)
    }
}

/// The pieces of `s` between its white space characters.
pub open spec fn split_spaces(s: Seq<char>, ascii: bool) -> Seq<Seq<char>>
    decreases s.len(),
{
    if s.len() == 0 {
        seq![Seq::empty()]
    } else {
        let front = split_spaces(s.drop_last(), ascii);
        if is_space(s.last(), ascii) {
            front.push(Seq::empty())
        } else {
            front.update(front.len() - 1, front.last().push(s.last()))
        }
    }
}

/// The pieces that are not empty.
pub open spec fn non_empty(pieces: Seq<Seq<char>>) -> Seq<Seq<char>>
    decreases pieces.len(),
{
    if pieces.len() == 0 {
        Seq::empty()
    } else {
        let front = non_empty(pieces.drop_last());
        if pieces.last().len() == 0 {
            front
        } else {
            front.push(pieces.last())
        }
    }
}

/// The words of `s`: its runs of characters that are not white space.
pub open spec fn words_spec(s: Seq<char>, ascii: bool) -> Seq<Seq<char>> {
    non_empty(split_spaces(s, ascii))
}

fn space(c: char, ascii: bool) -> (r: bool)
    ensures
        r == is_space(c, ascii),
{
    if ascii {
        c == ' ' || c == '\t' || c == '\n' || c == '\r' || c == '\u{c}'
    } else {
        whitespace(c)
    }
}

/// The words of `s`.
pub fn words(s: &str, ascii: bool) -> (r: Vec<String>)
    ensures
        views(r@) == words_spec(s@, ascii),
{
    let v = chars_of(s);
    let mut r: Vec<String> = Vec::new();
    let mut current: String = String::new();
    let ghost mut front: Seq<Seq<char>> = Seq::empty();
    let mut i: usize = 0;
    proof {
        assert(v@.take(0) =~= Seq::<char>::empty());
        assert(front.push(current@) =~= seq![Seq::<char>::empty()]);
        assert(views(r@) =~= Seq::<Seq<char>>::empty());
    }
    while i < v.len()
        invariant
            i <= v@.len(),
            v@ == s@,
            front.push(current@) == split_spaces(v@.take(i as int), ascii),
            views(r@) == non_empty(front),
        decreases v@.len() - i,
    {
        let c = v[i];
        proof {
            assert(v@.take(i as int + 1).drop_last() =~= v@.take(i as int));
            assert(v@.take(i as int + 1).last() == c);
        }
        let ghost whole = front.push(current@);
        if space(c, ascii) {
            proof {
                assert(whole.drop_last() =~= front);
                front = whole;
            }
            if !current.as_str().is_empty() {
                let ghost before = r@;
                let ghost piece = current@;
                r.push(current);
                proof {
                    assert(views(r@) =~= views(before).push(piece));
                }
            }
            current = String::new();
            proof {
                assert(front.push(current@) =~= whole.push(Seq::empty()));
            }
        } else {
            current.push(c);
            proof {
                assert(front.push(current@) =~= whole.update(
                    whole.len() - 1,
                    whole.last().push(c),
                ));
            }
        }
        i = i + 1;
    }
    proof {
        assert(v@.take(v@.len() as int) =~= s@);
        assert(front.push(current@).drop_last() =~= front);
    }
    if !current.as_str().is_empty() {
        let ghost before = r@;
        let ghost piece = current@;
        r.push(current);
        proof {
            assert(views(r@) =~= views(before).push(piece));
        }
    }
    r
}

/// Whether `a` stands before `b` in the order of code points, or is the same.
pub open spec fn text_le(a: Seq<char>, b: Seq<char>) -> bool
    decreases a.len(),
{
    if a.len() == 0 {
        true
    } else if b.len() == 0 {
        false
    } else if a[0] != b[0] {
        a[0] < b[0]
    } else {
        text_le(a.drop_first(), b.drop_first())
    }
}

/// Any two texts are in order one way or the other.
pub proof fn text_le_is_total(a: Seq<char>, b: Seq<char>)
    ensures
        text_le(a, b) || text_le(b, a),
        text_le(a, a),
    decreases a.len(),
{
    if a.len() > 0 {
        text_le_is_total(a.drop_first(), b.drop_first());
    }
}

/// The order of texts is transitive.
pub proof fn text_le_is_transitive(a: Seq<char>, b: Seq<char>, c: Seq<char>)
    requires
        text_le(a, b),
        text_le(b, c),
    ensures
        text_le(a, c),
    decreases a.len(),
{
    if a.len() > 0 && b.len() > 0 && c.len() > 0 && a[0] == b[0] && b[0] == c[0] {
        text_le_is_transitive(a.drop_first(), b.drop_first(), c.drop_first());
    }
}

/// Two texts are in the order of their first difference, and a text stands before those that
/// it begins.
pub proof fn the_first_difference_decides(a: Seq<char>, b: Seq<char>, k: int)
    requires
        0 <= k <= a.len(),
        0 <= k <= b.len(),
        forall|i: int| 0 <= i < k ==> #[trigger] a[i] == b[i],
    ensures
        k < a.len() && k < b.len() && a[k] != b[k] ==> (text_le(a, b) <==> a[k] < b[k]),
        k == a.len() ==> text_le(a, b),
        k == b.len() && a.len() > k ==> !text_le(a, b),
    decreases k,
{
    if k > 0 {
        assert(a[0] == b[0]);
        let x = a.drop_first();
        let y = b.drop_first();
        assert forall|i: int| 0 <= i < k - 1 implies #[trigger] x[i] == y[i] by {
            assert(a[i + 1] == b[i + 1]);
        }
        the_first_difference_decides(x, y, k - 1);
        if k < a.len() && k < b.len() {
            assert(x[k - 1] == a[k] && y[k - 1] == b[k]);
        }
    }
}

/// Whether `a` stands before `b` in the order of code points, or is the same.
pub fn in_order(a: &str, b: &str) -> (r: bool)
    ensures
        r == text_le(a@, b@),
{
    let x = chars_of(a);
    let y = chars_of(b);
    let mut i: usize = 0;
    proof {
        assert(x@.skip(0) =~= x@);
        assert(y@.skip(0) =~= y@);
    }
    while i < x.len() && i < y.len() && x[i] == y[i]
        invariant
            i <= x@.len(),
            i <= y@.len(),
            x@ == a@,
            y@ == b@,
            text_le(a@, b@) == text_le(x@.skip(i as int), y@.skip(i as int)),
        decreases x@.len() - i,
    {
        proof {
            assert(x@.skip(i as int).drop_first() =~= x@.skip(i as int + 1));
            assert(y@.skip(i as int).drop_first() =~= y@.skip(i as int + 1));
        }
        i = i + 1;
    }
    if i == x.len() {
        true
    } else if i == y.len() {
        false
    } else {
        x[i] < y[i]
    }
}

/// Two texts, one after the other.
pub fn join2(a: &str, b: &str) -> (r: String)
    ensures
        r@ == a@ + b@,
{
    let mut r = a.to_owned();
    r.append(b);
    r
}

/// Three texts, one after the other.
pub fn join3(a: &str, b: &str, c: &str) -> (r: String)
    ensures
        r@ == a@ + b@ + c@,
{
    let mut r = a.to_owned();
    r.append(b);
    r.append(c);
    r
}

/// An ASCII letter in lower case; other characters as they are.
pub open spec fn ascii_lower(c: char) -> char {
    if 'A' <= c <= 'Z' {
        (c as u32 + 32) as char
    } else {
        c
    }
}

/// Two texts that differ at most in the case of ASCII letters.
pub open spec fn equal_ignoring_case(a: Seq<char>, b: Seq<char>) -> bool {
    a.len() == b.len() && forall|i: int|
        0 <= i < a.len() ==> ascii_lower(#[trigger] a[i]) == ascii_lower(b[i])
}

/// An ASCII letter in lower case; other characters as they are.
pub fn lower(c: char) -> (r: char)
    ensures
        r == ascii_lower(c),
{
    match c {
        'A' => 'a',
        'B' => 'b',
        'C' => 'c',
        'D' => 'd',
        'E' => 'e',
        'F' => 'f',
        'G' => 'g',
        'H' => 'h',
        'I' => 'i',
        'J' => 'j',
        'K' => 'k',
        'L' => 'l',
        'M' => 'm',
        'N' => 'n',
        'O' => 'o',
        'P' => 'p',
        'Q' => 'q',
        'R' => 'r',
        'S' => 's',
        'T' => 't',
        'U' => 'u',
        'V' => 'v',
        'W' => 'w',
        'X' => 'x',
        'Y' => 'y',
        'Z' => 'z',
        _ => c,
    }
}

/// Whether two texts differ at most in the case of ASCII letters.
pub fn eq_ignore_ascii_case(a: &str, b: &str) -> (r: bool)
    ensures
        r == equal_ignoring_case(a@, b@),
{
    let x = chars_of(a);
    let y = chars_of(b);
    if x.len() != y.len() {
        return false;
    }
    let mut i: usize = 0;
    while i < x.len()
        invariant
            i <= x@.len(),
            x@.len() == y@.len(),
            x@ == a@,
            y@ == b@,
            forall|j: int| 0 <= j < i ==> ascii_lower(#[trigger] x@[j]) == ascii_lower(y@[j]),
        decreases x@.len() - i,
    {
        if lower(x[i]) != lower(y[i]) {
            proof {
                assert(ascii_lower(x@[i as int]) != ascii_lower(y@[i as int]));
            }
            return false;
        }
        i = i + 1;
    }
    true
}

/// A text with its ASCII letters in lower case.
pub open spec fn lowercase(s: Seq<char>) -> Seq<char> {
    s.map_values(|c: char| ascii_lower(c))
}

/// A text with its ASCII letters in lower case.
pub fn to_ascii_lowercase(s: &str) -> (r: String)
    ensures
        r@ == lowercase(s@),
{
    let v = chars_of(s);
    let mut out: Vec<char> = Vec::new();
    let mut i: usize = 0;
    while i < v.len()
        invariant
            i <= v@.len(),
            v@ == s@,
            out@.len() == i,
            forall|j: int| 0 <= j < i ==> out@[j] == lowercase(s@)[j],
        decreases v@.len() - i,
    {
        out.push(lower(v[i]));
        i = i + 1;
    }
    proof {
        assert(out@.subrange(0, out@.len() as int) =~= lowercase(s@));
    }
    let n: usize = out.len();
    text_of(&out, 0, n)
}

} // verus!
