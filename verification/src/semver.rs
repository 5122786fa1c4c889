//! Strict semantic versions, as release archives and release directories carry them.

use vstd::prelude::*;

use crate::text::{
    alphanumeric, byte_len, byte_len_ascii, chars_of, digit, is_alphanumeric, is_digit, split,
    split_covers, split_once, split_once_spec, split_spec, views,
};
use crate::wording::{joined, joining_is_undone_by_splitting, the_first_separator};

verus! {

broadcast use vstd::string::group_string_axioms;

/// Why a version text was refused.
#[derive(Clone, Copy, Debug, PartialEq, Eq, Structural)]
pub enum VersionError {
    /// The VERSION file of a release archive.
    NotStrict,
    /// The name of a release or of its directory.
    NotSafe,
}

impl VersionError {
    /// The text shown to an operator.
    pub fn message(&self) -> (r: &'static str)
        ensures
            r@ == match *self {
                VersionError::NotStrict => "release VERSION is not a strict semantic version"@,
                VersionError::NotSafe => "release version is not a safe semantic version"@,
            },
    {
        match self {
            VersionError::NotStrict => "release VERSION is not a strict semantic version",
            VersionError::NotSafe => "release version is not a safe semantic version",
        }
    }
}

/// All characters are ASCII decimal digits.
pub open spec fn all_digits(s: Seq<char>) -> bool {
    forall|i: int| 0 <= i < s.len() ==> is_digit(#[trigger] s[i])
}

/// A decimal number without superfluous zeros at its front.
pub open spec fn numeric_identifier(s: Seq<char>) -> bool {
    &&& s.len() > 0
    &&& all_digits(s)
    &&& s.len() == 1 || s[0] != '0'
}

/// One dot-separated identifier of a pre-release (`strict`) or of build metadata.
pub open spec fn identifier(s: Seq<char>, strict: bool) -> bool {
    &&& s.len() > 0
    &&& forall|i: int| 0 <= i < s.len() ==> is_alphanumeric(#[trigger] s[i]) || s[i] == '-'
    &&& strict && all_digits(s) ==> numeric_identifier(s)
}

/// A dot-separated list of identifiers.
pub open spec fn identifiers(s: Seq<char>, strict: bool) -> bool {
    &&& s.len() > 0
    &&& forall|p: int|
        0 <= p < split_spec(s, '.').len() ==> identifier(#[trigger] split_spec(s, '.')[p], strict)
}

/// The three numbers `major.minor.patch`.
pub open spec fn version_core(s: Seq<char>) -> bool {
    &&& split_spec(s, '.').len() == 3
    &&& forall|p: int| 0 <= p < 3 ==> numeric_identifier(#[trigger] split_spec(s, '.')[p])
}

/// `core` or `core-prerelease`.
pub open spec fn core_and_prerelease(s: Seq<char>) -> bool {
    match split_once_spec(s, '-') {
        Some((core, prerelease)) => version_core(core) && identifiers(prerelease, true),
        None => version_core(s),
    }
}

/// A semantic version: `core`, optionally `-prerelease`, optionally `+build`.
pub open spec fn is_semver(s: Seq<char>) -> bool {
    match split_once_spec(s, '+') {
        Some((version, build)) => core_and_prerelease(version) && identifiers(build, false),
        None => core_and_prerelease(s),
    }
}

/// The characters that a release name may hold.
pub open spec fn name_char(c: char) -> bool {
    is_alphanumeric(c) || c == '.' || c == '-' || c == '+'
}

/// `s` without one leading `v`.
pub open spec fn without_v(s: Seq<char>) -> Seq<char> {
    if s.len() > 0 && s[0] == 'v' {
        s.skip(1)
    } else {
        s
    }
}

/// A semantic version that is short enough to name a directory.
pub open spec fn is_release_name(s: Seq<char>) -> bool {
    1 <= s.len() <= 64 && is_semver(s)
}

fn digits_only(v: &Vec<char>) -> (r: bool)
    ensures
        r == all_digits(v@),
{
    let mut i: usize = 0;
    while i < v.len()
        invariant
            i <= v@.len(),
            forall|j: int| 0 <= j < i ==> is_digit(#[trigger] v@[j]),
        decreases v@.len() - i,
    {
        if !digit(v[i]) {
            proof {
                assert(!is_digit(v@[i as int]));
            }
            return false;
        }
        i = i + 1;
    }
    true
}

/// Whether `value` is a decimal number without superfluous zeros at its front.
pub fn valid_numeric_identifier(value: &str) -> (r: bool)
    ensures
        r == numeric_identifier(value@),
{
    let v = chars_of(value);
    v.len() > 0 && digits_only(&v) && (v.len() == 1 || v[0] != '0')
}

fn valid_identifier(value: &str, strict: bool) -> (r: bool)
    ensures
        r == identifier(value@, strict),
{
    let v = chars_of(value);
    if v.len() == 0 {
        return false;
    }
    let mut i: usize = 0;
    while i < v.len()
        invariant
            i <= v@.len(),
            v@ == value@,
            forall|j: int| 0 <= j < i ==> is_alphanumeric(#[trigger] v@[j]) || v@[j] == '-',
        decreases v@.len() - i,
    {
        if !(alphanumeric(v[i]) || v[i] == '-') {
            proof {
                assert(!(is_alphanumeric(v@[i as int]) || v@[i as int] == '-'));
            }
            return false;
        }
        i = i + 1;
    }
    !(strict && digits_only(&v) && v.len() > 1 && v[0] == '0')
}

/// Whether `value` is a dot-separated list of identifiers.
pub fn valid_semver_identifiers(value: &str, reject_numeric_leading_zero: bool) -> (r: bool)
    ensures
        r == identifiers(value@, reject_numeric_leading_zero),
{
    if value.is_empty() {
        return false;
    }
    let pieces = split(value, '.');
    let mut i: usize = 0;
    while i < pieces.len()
        invariant
            i <= pieces@.len(),
            views(pieces@) == split_spec(value@, '.'),
            forall|p: int|
                0 <= p < i ==> identifier(
                    #[trigger] split_spec(value@, '.')[p],
                    reject_numeric_leading_zero,
                ),
        decreases pieces@.len() - i,
    {
        proof {
            assert(views(pieces@)[i as int] == pieces@[i as int]@);
        }
        if !valid_identifier(pieces[i].as_str(), reject_numeric_leading_zero) {
            proof {
                assert(!identifier(split_spec(value@, '.')[i as int], reject_numeric_leading_zero));
            }
            return false;
        }
        i = i + 1;
    }
    true
}

/// `valid_semver_identifiers` as a check that fails with an error.
pub fn validate_semver_identifiers(value: &str, reject_numeric_leading_zero: bool) -> (r: Result<
    (),
    VersionError,
>)
    ensures
        r == (if identifiers(value@, reject_numeric_leading_zero) {
            Ok::<(), VersionError>(())
        } else {
            Err::<(), VersionError>(VersionError::NotStrict)
        }),
{
    if valid_semver_identifiers(value, reject_numeric_leading_zero) {
        Ok(())
    } else {
        Err(VersionError::NotStrict)
    }
}

fn valid_version_core(value: &str) -> (r: bool)
    ensures
        r == version_core(value@),
{
    let pieces = split(value, '.');
    proof {
        assert(views(pieces@).len() == pieces@.len());
        assert(pieces@.len() == 3 ==> views(pieces@)[0] == pieces@[0]@ && views(pieces@)[1]
            == pieces@[1]@ && views(pieces@)[2] == pieces@[2]@);
    }
    if pieces.len() != 3 {
        return false;
    }
    valid_numeric_identifier(pieces[0].as_str()) && valid_numeric_identifier(pieces[1].as_str())
        && valid_numeric_identifier(pieces[2].as_str())
}

fn valid_core_and_prerelease(value: &str) -> (r: bool)
    ensures
        r == core_and_prerelease(value@),
{
    match split_once(value, '-') {
        Some((core, prerelease)) => {
            valid_semver_identifiers(prerelease.as_str(), true) && valid_version_core(core.as_str())
        },
        None => valid_version_core(value),
    }
}

fn valid_semver(value: &str) -> (r: bool)
    ensures
        r == is_semver(value@),
{
    match split_once(value, '+') {
        Some((version, build)) => {
            valid_semver_identifiers(build.as_str(), false) && valid_core_and_prerelease(
                version.as_str(),
            )
        },
        None => valid_core_and_prerelease(value),
    }
}

/// Accepts exactly the semantic versions.
pub fn validate_semver(value: &str) -> (r: Result<(), VersionError>)
    ensures
        r == (if is_semver(value@) {
            Ok::<(), VersionError>(())
        } else {
            Err::<(), VersionError>(VersionError::NotStrict)
        }),
{
    if valid_semver(value) {
        Ok(())
    } else {
        Err(VersionError::NotStrict)
    }
}

/// The release name without a leading `v`, where it is a semantic version of at most
/// sixty-four bytes.
pub fn normalized_release_name(value: &str) -> (r: Result<String, VersionError>)
    ensures
        r is Ok <==> is_release_name(without_v(value@)),
        r matches Ok(name) ==> name@ == without_v(value@),
        r matches Err(e) ==> e == VersionError::NotSafe,
{
    let v = chars_of(value);
    let from: usize = if v.len() > 0 && v[0] == 'v' {
        1
    } else {
        0
    };
    let name = crate::text::text_of(&v, from, v.len());
    proof {
        assert(v@.subrange(0, v@.len() as int) =~= v@);
        assert(v@.len() > 0 ==> v@.subrange(1, v@.len() as int) =~= v@.skip(1));
    }
    let n: usize = v.len() - from;
    if n == 0 || n > 64 {
        return Err(VersionError::NotSafe);
    }
    if valid_semver(name.as_str()) {
        Ok(name)
    } else {
        Err(VersionError::NotSafe)
    }
}

proof fn identifiers_are_name_chars(s: Seq<char>, strict: bool)
    requires
        identifiers(s, strict),
    ensures
        forall|k: int| 0 <= k < s.len() ==> name_char(#[trigger] s[k]) && s[k] != '+',
{
    assert forall|k: int| 0 <= k < s.len() implies name_char(#[trigger] s[k]) && s[k] != '+' by {
        if s[k] != '.' {
            split_covers(s, '.', k);
            let (p, j) = choose|p: int, j: int|
                0 <= p < split_spec(s, '.').len() && 0 <= j < split_spec(s, '.')[p].len()
                    && #[trigger] split_spec(s, '.')[p][j] == s[k];
            assert(identifier(split_spec(s, '.')[p], strict));
        }
    }
}

proof fn core_is_digits_and_dots(s: Seq<char>)
    requires
        version_core(s),
    ensures
        forall|k: int| 0 <= k < s.len() ==> is_digit(#[trigger] s[k]) || s[k] == '.',
{
    assert forall|k: int| 0 <= k < s.len() implies is_digit(#[trigger] s[k]) || s[k] == '.' by {
        if s[k] != '.' {
            split_covers(s, '.', k);
            let (p, j) = choose|p: int, j: int|
                0 <= p < split_spec(s, '.').len() && 0 <= j < split_spec(s, '.')[p].len()
                    && #[trigger] split_spec(s, '.')[p][j] == s[k];
            assert(numeric_identifier(split_spec(s, '.')[p]));
        }
    }
}

proof fn core_and_prerelease_is_name_chars(s: Seq<char>)
    requires
        core_and_prerelease(s),
    ensures
        forall|k: int| 0 <= k < s.len() ==> name_char(#[trigger] s[k]) && s[k] != '+',
        s.len() > 0,
        is_digit(s[0]),
{
    crate::text::first_index_is_least(s, '-');
    match split_once_spec(s, '-') {
        Some((core, prerelease)) => {
            core_is_digits_and_dots(core);
            core_starts_with_digit(core);
            identifiers_are_name_chars(prerelease, true);
            let i = crate::text::first_index(s, '-');
            assert forall|k: int| 0 <= k < s.len() implies name_char(#[trigger] s[k]) && s[k]
                != '+' by {
                if k < i {
                    assert(core[k] == s[k]);
                } else if k > i {
                    assert(prerelease[k - i - 1] == s[k]);
                }
            }
            assert(core[0] == s[0]);
        },
        None => {
            core_is_digits_and_dots(s);
            core_starts_with_digit(s);
        },
    }
}

/// The first piece of a split is the text before the first separator.
proof fn first_piece(s: Seq<char>, sep: char)
    ensures
        split_spec(s, sep).len() >= 1,
        split_spec(s, sep)[0] == s.take(crate::text::first_index(s, sep)),
    decreases s.len(),
{
    crate::text::first_index_is_least(s, sep);
    if s.len() == 0 {
        assert(s.take(0) =~= Seq::<char>::empty());
    } else {
        let front = s.drop_last();
        first_piece(front, sep);
        crate::text::first_index_is_least(front, sep);
        let i = crate::text::first_index(front, sep);
        let k = crate::text::first_index(s, sep);
        if i < front.len() {
            assert(s[i] == sep);
            assert(front[k] == s[k]);
            assert(k == i);
            assert(s.take(i) =~= front.take(i));
            several_pieces(front, sep);
        } else if s.last() == sep {
            assert(k == s.len() - 1) by {
                if k < s.len() - 1 {
                    assert(front[k] == sep);
                }
            }
            assert(s.take(k) =~= front);
            assert(front.take(i) =~= front);
        } else {
            assert(k == s.len()) by {
                if k < s.len() - 1 {
                    assert(front[k] == sep);
                }
            }
            assert(s.take(k) =~= s);
            assert(front.take(i) =~= front);
            assert(split_spec(front, sep).len() == 1) by {
                single_piece(front, sep);
            }
            assert(front.push(s.last()) =~= s);
        }
    }
}

proof fn single_piece(s: Seq<char>, sep: char)
    requires
        !s.contains(sep),
    ensures
        split_spec(s, sep).len() == 1,
    decreases s.len(),
{
    if s.len() > 0 {
        assert(s[s.len() - 1] == s.last());
        let front = s.drop_last();
        assert(!front.contains(sep)) by {
            if front.contains(sep) {
                let k = choose|k: int| 0 <= k < front.len() && front[k] == sep;
                assert(s[k] == sep);
            }
        }
        single_piece(front, sep);
    }
}

proof fn several_pieces(s: Seq<char>, sep: char)
    requires
        s.contains(sep),
    ensures
        split_spec(s, sep).len() >= 2,
    decreases s.len(),
{
    let front = s.drop_last();
    crate::text::split_nonempty(front, sep);
    if s.last() != sep {
        let k = choose|k: int| 0 <= k < s.len() && s[k] == sep;
        assert(front[k] == sep);
        several_pieces(front, sep);
    }
}

proof fn core_starts_with_digit(s: Seq<char>)
    requires
        version_core(s),
    ensures
        s.len() > 0,
        is_digit(s[0]),
{
    first_piece(s, '.');
    let piece = split_spec(s, '.')[0];
    assert(numeric_identifier(piece));
    crate::text::first_index_is_least(s, '.');
    assert(piece[0] == s[0]);
}

/// A semantic version is made of letters, digits, dots, hyphens and at most one plus
/// sign, and begins with a digit.
pub proof fn semver_alphabet(s: Seq<char>)
    requires
        is_semver(s),
    ensures
        s.len() > 0,
        is_digit(s[0]),
        forall|k: int| 0 <= k < s.len() ==> name_char(#[trigger] s[k]),
        forall|j: int, k: int|
            0 <= j < k < s.len() ==> !(#[trigger] s[j] == '+' && #[trigger] s[k] == '+'),
        byte_len(s) == s.len(),
{
    crate::text::first_index_is_least(s, '+');
    let i = crate::text::first_index(s, '+');
    match split_once_spec(s, '+') {
        Some((version, build)) => {
            core_and_prerelease_is_name_chars(version);
            identifiers_are_name_chars(build, false);
            assert forall|k: int| 0 <= k < s.len() implies name_char(#[trigger] s[k]) && (s[k]
                == '+' ==> k == i) by {
                if k < i {
                    assert(version[k] == s[k]);
                } else if k > i {
                    assert(build[k - i - 1] == s[k]);
                }
            }
            assert(version[0] == s[0]);
        },
        None => {
            core_and_prerelease_is_name_chars(s);
        },
    }
    byte_len_ascii(s);
}

/// Normalising a release name twice changes nothing more, and what it yields is a
/// semantic version without a path separator.
pub proof fn normalized_names_are_stable(value: Seq<char>)
    requires
        is_release_name(without_v(value)),
    ensures
        without_v(without_v(value)) == without_v(value),
        is_release_name(without_v(without_v(value))),
        is_semver(without_v(value)),
        !without_v(value).contains('/'),
        without_v(value)[0] != '.',
{
    let name = without_v(value);
    semver_alphabet(name);
    assert(name[0] != 'v');
    assert(!name.contains('/')) by {
        if name.contains('/') {
            let k = choose|k: int| 0 <= k < name.len() && name[k] == '/';
            assert(name_char(name[k]));
        }
    }
}

/// Every archive version of at most sixty-four characters is its own release name.
pub proof fn strict_versions_name_themselves(value: Seq<char>)
    requires
        is_semver(value),
        value.len() <= 64,
    ensures
        is_release_name(without_v(value)),
        without_v(value) == value,
{
    semver_alphabet(value);
}

/// A part of a version number: digits, without a leading zero unless it is zero.
pub open spec fn is_number_part(s: Seq<char>) -> bool {
    &&& s.len() > 0
    &&& forall|i: int| 0 <= i < s.len() ==> '0' <= #[trigger] s[i] <= '9'
    &&& s.len() > 1 ==> s[0] != '0'
}

/// A part of what follows a hyphen or a plus sign: letters, digits and hyphens. After a
/// hyphen a part of digits only has no leading zero.
pub open spec fn is_label_part(s: Seq<char>, leading_zeros: bool) -> bool {
    &&& s.len() > 0
    &&& forall|i: int|
        0 <= i < s.len() ==> 'a' <= #[trigger] s[i] <= 'z' || 'A' <= s[i] <= 'Z' || '0' <= s[i]
            <= '9' || s[i] == '-'
    &&& leading_zeros || s.len() == 1 || s[0] != '0' || exists|i: int|
        0 <= i < s.len() && !('0' <= #[trigger] s[i] <= '9')
}

proof fn number_parts(s: Seq<char>)
    ensures
        numeric_identifier(s) <==> is_number_part(s),
{
    if numeric_identifier(s) {
        assert forall|i: int| 0 <= i < s.len() implies '0' <= #[trigger] s[i] <= '9' by {
            assert(is_digit(s[i]));
        }
    }
    if is_number_part(s) {
        assert forall|i: int| 0 <= i < s.len() implies is_digit(#[trigger] s[i]) by {}
    }
}

proof fn label_parts(s: Seq<char>, strict: bool)
    ensures
        identifier(s, strict) <==> is_label_part(s, !strict),
{
    number_parts(s);
    if identifier(s, strict) {
        assert forall|i: int| 0 <= i < s.len() implies 'a' <= #[trigger] s[i] <= 'z' || 'A' <= s[i]
            <= 'Z' || '0' <= s[i] <= '9' || s[i] == '-' by {
            assert(is_alphanumeric(s[i]) || s[i] == '-');
        }
        if !all_digits(s) {
            let i = choose|i: int| 0 <= i < s.len() && !is_digit(#[trigger] s[i]);
            assert(!('0' <= s[i] <= '9'));
        }
    }
    if is_label_part(s, !strict) {
        assert forall|i: int| 0 <= i < s.len() implies is_alphanumeric(#[trigger] s[i]) || s[i]
            == '-' by {}
        if strict && all_digits(s) {
            assert forall|i: int| 0 <= i < s.len() implies '0' <= #[trigger] s[i] <= '9' by {
                assert(is_digit(s[i]));
            }
        }
    }
}

/// A version without hyphens and plus signs is three numbers with full stops between them.
pub proof fn a_version_is_three_numbers(parts: Seq<Seq<char>>)
    requires
        parts.len() >= 1,
        forall|i: int|
            0 <= i < parts.len() ==> !(#[trigger] parts[i]).contains('.'),
        !joined(parts, '.').contains('-'),
        !joined(parts, '.').contains('+'),
    ensures
        is_semver(joined(parts, '.')) <==> parts.len() == 3 && is_number_part(parts[0])
            && is_number_part(parts[1]) && is_number_part(parts[2]),
{
    let s = joined(parts, '.');
    joining_is_undone_by_splitting(parts, '.');
    the_first_separator(s, '-', Seq::empty());
    the_first_separator(s, '+', Seq::empty());
    if parts.len() == 3 {
        number_parts(parts[0]);
        number_parts(parts[1]);
        number_parts(parts[2]);
        if version_core(s) {
            assert(numeric_identifier(split_spec(s, '.')[0]));
            assert(numeric_identifier(split_spec(s, '.')[1]));
            assert(numeric_identifier(split_spec(s, '.')[2]));
        }
    }
}

/// A version may be followed by a hyphen and labels, and then by a plus sign and labels; the
/// labels have full stops between them, and none is empty.
pub proof fn labels_follow_a_version(
    core: Seq<char>,
    version: Seq<char>,
    labels: Seq<Seq<char>>,
)
    requires
        !core.contains('-') && !core.contains('+'),
        !version.contains('+'),
        labels.len() >= 1,
        forall|i: int| 0 <= i < labels.len() ==> !(#[trigger] labels[i]).contains('.'),
        joined(labels, '.').len() > 0,
    ensures
        !joined(labels, '.').contains('+') ==> (is_semver(core.push('-') + joined(labels, '.'))
            <==> is_semver(core) && forall|i: int|
            0 <= i < labels.len() ==> is_label_part(#[trigger] labels[i], false)),
        is_semver(version.push('+') + joined(labels, '.')) <==> is_semver(version) && forall|i: int|
            0 <= i < labels.len() ==> is_label_part(#[trigger] labels[i], true),
{
    let tail = joined(labels, '.');
    joining_is_undone_by_splitting(labels, '.');
    the_first_separator(core, '-', tail);
    the_first_separator(core, '+', tail);
    the_first_separator(version, '+', tail);
    assert forall|p: int| 0 <= p < labels.len() implies (identifier(#[trigger] labels[p], true)
        <==> is_label_part(labels[p], false)) && (identifier(labels[p], false) <==> is_label_part(
        labels[p],
        true,
    )) by {
        label_parts(labels[p], true);
        label_parts(labels[p], false);
    }
    assert(identifiers(tail, true) <==> forall|i: int|
        0 <= i < labels.len() ==> is_label_part(#[trigger] labels[i], false)) by {
        if identifiers(tail, true) {
            assert forall|i: int| 0 <= i < labels.len() implies is_label_part(
                #[trigger] labels[i],
                false,
            ) by {
                assert(identifier(split_spec(tail, '.')[i], true));
            }
        }
    }
    assert(identifiers(tail, false) <==> forall|i: int|
        0 <= i < labels.len() ==> is_label_part(#[trigger] labels[i], true)) by {
        if identifiers(tail, false) {
            assert forall|i: int| 0 <= i < labels.len() implies is_label_part(
                #[trigger] labels[i],
                true,
            ) by {
                assert(identifier(split_spec(tail, '.')[i], false));
            }
        }
    }
    if !tail.contains('+') {
        let s = core.push('-') + tail;
        assert(!s.contains('+')) by {
            if s.contains('+') {
                let k = choose|k: int| 0 <= k < s.len() && s[k] == '+';
                if k < core.len() {
                    assert(core[k] == '+');
                } else if k > core.len() {
                    assert(tail[k - core.len() - 1] == '+');
                }
            }
        }
        the_first_separator(s, '+', Seq::empty());
    }
}

/// The name of a release is a version of at most sixty-four characters; a small letter v in
/// front of it is dropped once.
pub proof fn the_name_of_a_release(s: Seq<char>)
    ensures
        is_release_name(s) <==> is_semver(s) && 1 <= s.len() && s.len() <= 64,
        without_v("v"@ + s) == s,
        s.len() > 0 && s[0] != 'v' ==> without_v(s) == s,
{
    reveal_strlit("v");
    assert(("v"@ + s).skip(1) =~= s);
}

} // verus!
