//! Text primitives over sequences of characters.
//!
//! Every function here is stated over the characters of its arguments
//! (`Seq<char>`), so the rest of the crate can be specified without talking
//! about byte offsets.
use vstd::prelude::*;
use vstd::string::*;
use vstd::utf8::{encode_utf8, valid_utf8};

verus! {

/// `String::push`: appends one character at the end of the string.
pub assume_specification[ String::push ](s: &mut String, c: char)
    ensures
        final(s)@ == old(s)@.push(c),
;

/// The characters of `s`, in order.
pub fn chars_of(s: &str) -> (v: Vec<char>)
    ensures
        v@ == s@,
{
    let mut v: Vec<char> = Vec::new();
    for c in it: s.chars()
        invariant
            v@ == s@.take(it.index() as int),
            it.seq() == s@,
    {
        v.push(c);
        assert(s@.take(it.index() as int + 1) == s@.take(it.index() as int).push(c));
    }
    assert(s@.take(s@.len() as int) == s@);
    v
}

/// The string made of `v[from..to]`.
pub fn text_range(v: &Vec<char>, from: usize, to: usize) -> (s: String)
    requires
        from <= to <= v@.len(),
    ensures
        s@ == v@.subrange(from as int, to as int),
{
    let mut s = String::new();
    let mut i: usize = from;
    while i < to
        invariant
            from <= i <= to <= v@.len(),
            s@ == v@.subrange(from as int, i as int),
        decreases to - i,
    {
        s.push(v[i]);
        assert(v@.subrange(from as int, i as int + 1) == v@.subrange(from as int, i as int).push(
            v@[i as int],
        ));
        i += 1;
    }
    s
}

/// `str::from_utf8`: the text that bytes encode, where they are UTF-8.
#[verifier::external_body]
pub(crate) fn str_from_utf8(bytes: &[u8]) -> (r: Option<&str>)
    ensures
        r is Some <==> valid_utf8(bytes@),
        r matches Some(text) ==> encode_utf8(text@) == bytes@,
{
    std::str::from_utf8(bytes).ok()
}

/// Whether `c` is a Unicode `White_Space` character.
pub open spec fn is_space(c: char) -> bool {
    let u = c as u32;
    ||| 0x09 <= u <= 0x0d
    ||| u == 0x20
    ||| u == 0x85
    ||| u == 0xa0
    ||| u == 0x1680
    ||| 0x2000 <= u <= 0x200a
    ||| u == 0x2028
    ||| u == 0x2029
    ||| u == 0x202f
    ||| u == 0x205f
    ||| u == 0x3000
}

/// Whether `c` is a Unicode `White_Space` character.
pub fn char_is_space(c: char) -> (b: bool)
    ensures
        b == is_space(c),
{
    let u: u32 = c as u32;
    (0x09 <= u && u <= 0x0d) || u == 0x20 || u == 0x85 || u == 0xa0 || u == 0x1680 || (0x2000 <= u
        && u <= 0x200a) || u == 0x2028 || u == 0x2029 || u == 0x202f || u == 0x205f || u == 0x3000
}

/// `s` without its leading white space.
pub open spec fn trimmed_start(s: Seq<char>) -> Seq<char>
    decreases s.len(),
{
    if s.len() > 0 && is_space(s[0]) {
        trimmed_start(s.drop_first())
    } else {
        s
    }
}

/// `s` without its trailing white space.
pub open spec fn trimmed_end(s: Seq<char>) -> Seq<char>
    decreases s.len(),
{
    if s.len() > 0 && is_space(s.last()) {
        trimmed_end(s.drop_last())
    } else {
        s
    }
}

/// `s` without white space at either end.
pub open spec fn trimmed(s: Seq<char>) -> Seq<char> {
    trimmed_end(trimmed_start(s))
}

/// Whether every character of `s` is white space.
pub open spec fn is_blank(s: Seq<char>) -> bool {
    forall|i: int| 0 <= i < s.len() ==> is_space(#[trigger] s[i])
}

/// Trimming leaves nothing exactly when the text is blank.
pub proof fn lemma_blank_iff_trimmed_empty(s: Seq<char>)
    ensures
        is_blank(s) <==> trimmed(s).len() == 0,
        is_blank(s) <==> trimmed_start(s).len() == 0,
{
    lemma_trimmed_start_shape(s);
    lemma_trimmed_end_shape(trimmed_start(s));
}

/// What trimming the start leaves is a suffix of the text that starts with no
/// white space, and what it takes away is white space.
pub proof fn lemma_trimmed_start_shape(s: Seq<char>)
    ensures
        trimmed_start(s).len() <= s.len(),
        trimmed_start(s) == s.skip(s.len() - trimmed_start(s).len()),
        forall|i: int| 0 <= i < s.len() - trimmed_start(s).len() ==> is_space(#[trigger] s[i]),
        trimmed_start(s).len() > 0 ==> !is_space(trimmed_start(s)[0]),
    decreases s.len(),
{
    if s.len() > 0 && is_space(s[0]) {
        let t = s.drop_first();
        lemma_trimmed_start_shape(t);
        assert(trimmed_start(s) == s.skip(s.len() - trimmed_start(s).len()));
        assert forall|i: int| 0 <= i < s.len() - trimmed_start(s).len() implies is_space(
            #[trigger] s[i],
        ) by {
            if i > 0 {
                assert(t[i - 1] == s[i]);
            }
        }
    } else {
        assert(s.skip(0) == s);
    }
}

/// What trimming the end leaves is a prefix of the text that ends with no
/// white space, and what it takes away is white space.
pub proof fn lemma_trimmed_end_shape(s: Seq<char>)
    ensures
        trimmed_end(s).len() <= s.len(),
        trimmed_end(s) == s.take(trimmed_end(s).len() as int),
        forall|i: int| trimmed_end(s).len() <= i < s.len() ==> is_space(#[trigger] s[i]),
        trimmed_end(s).len() > 0 ==> !is_space(trimmed_end(s).last()),
    decreases s.len(),
{
    if s.len() > 0 && is_space(s.last()) {
        let t = s.drop_last();
        lemma_trimmed_end_shape(t);
        assert(trimmed_end(s) == s.take(trimmed_end(s).len() as int));
        assert forall|i: int| trimmed_end(s).len() <= i < s.len() implies is_space(
            #[trigger] s[i],
        ) by {
            if i < s.len() - 1 {
                assert(t[i] == s[i]);
            }
        }
    } else {
        assert(s.take(s.len() as int) == s);
    }
}

/// Text that neither starts nor ends with white space is its own trimming.
pub proof fn lemma_trimmed_of_tight(s: Seq<char>)
    requires
        s.len() > 0 ==> !is_space(s[0]) && !is_space(s.last()),
    ensures
        trimmed_start(s) == s,
        trimmed_end(s) == s,
        trimmed(s) == s,
{
}

/// What trimming leaves neither starts nor ends with white space.
pub proof fn lemma_trimmed_is_tight(s: Seq<char>)
    ensures
        trimmed(s).len() > 0 ==> !is_space(trimmed(s)[0]) && !is_space(trimmed(s).last()),
{
    lemma_trimmed_start_shape(s);
    lemma_trimmed_end_shape(trimmed_start(s));
}

/// `str::trim_start`.
pub fn trim_start(s: &str) -> (r: &str)
    ensures
        r@ == trimmed_start(s@),
{
    let v = chars_of(s);
    let n: usize = v.len();
    let mut i: usize = 0;
    assert(s@.skip(0) == s@);
    while i < n && char_is_space(v[i])
        invariant
            i <= n == v@.len(),
            v@ == s@,
            trimmed_start(s@) == trimmed_start(s@.skip(i as int)),
        decreases n - i,
    {
        assert(s@.skip(i as int).drop_first() == s@.skip(i as int + 1));
        i += 1;
    }
    assert(s@.subrange(i as int, n as int) == s@.skip(i as int));
    s.substring_char(i, n)
}

/// `str::trim_end`.
pub fn trim_end(s: &str) -> (r: &str)
    ensures
        r@ == trimmed_end(s@),
{
    let v = chars_of(s);
    let mut n: usize = v.len();
    assert(s@.take(n as int) == s@);
    while n > 0 && char_is_space(v[n - 1])
        invariant
            n <= v@.len(),
            v@ == s@,
            trimmed_end(s@) == trimmed_end(s@.take(n as int)),
        decreases n,
    {
        assert(s@.take(n as int).drop_last() == s@.take(n as int - 1));
        n -= 1;
    }
    assert(s@.subrange(0, n as int) == s@.take(n as int));
    s.substring_char(0, n)
}

/// `str::trim`.
pub fn trim(s: &str) -> (r: &str)
    ensures
        r@ == trimmed(s@),
{
    trim_end(trim_start(s))
}

/// Whether the two texts hold the same characters.
pub fn same_text(a: &str, b: &str) -> (r: bool)
    ensures
        r == (a@ == b@),
{
    a.to_owned() == b.to_owned()
}

/// Whether `needle` stands in `s` at character offset `at`.
pub open spec fn occurs_at(s: Seq<char>, needle: Seq<char>, at: int) -> bool {
    0 <= at && at + needle.len() <= s.len() && s.subrange(at, at + needle.len()) == needle
}

/// Whether `needle` occurs anywhere in `s`.
pub open spec fn contains_text(s: Seq<char>, needle: Seq<char>) -> bool {
    exists|at: int| occurs_at(s, needle, at)
}

/// The first offset at or after `from` at which `needle` stands in `s`.
pub open spec fn find_from(s: Seq<char>, needle: Seq<char>, from: int) -> Option<int>
    decreases s.len() - from + 1,
{
    if from < 0 || from + needle.len() > s.len() {
        None
    } else if occurs_at(s, needle, from) {
        Some(from)
    } else {
        find_from(s, needle, from + 1)
    }
}

/// `find_from` finds the first occurrence there is, and finds one when there is one.
pub proof fn lemma_find_from(s: Seq<char>, needle: Seq<char>, from: int)
    requires
        0 <= from,
    ensures
        match find_from(s, needle, from) {
            Some(at) => from <= at && occurs_at(s, needle, at) && forall|k: int|
                from <= k < at ==> !occurs_at(s, needle, k),
            None => forall|k: int| from <= k ==> !occurs_at(s, needle, k),
        },
    decreases s.len() - from + 1,
{
    if from + needle.len() > s.len() {
    } else if occurs_at(s, needle, from) {
    } else {
        lemma_find_from(s, needle, from + 1);
    }
}

/// Whether `needle` stands in `v` at offset `at`.
pub fn matches_at(v: &Vec<char>, needle: &Vec<char>, at: usize) -> (b: bool)
    ensures
        b == occurs_at(v@, needle@, at as int),
{
    if needle.len() > v.len() || at > v.len() - needle.len() {
        return false;
    }
    let mut k: usize = 0;
    while k < needle.len()
        invariant
            k <= needle@.len(),
            at + needle@.len() <= v@.len() <= usize::MAX,
            forall|j: int| 0 <= j < k ==> v@[at + j] == needle@[j],
        decreases needle@.len() - k,
    {
        if v[at + k] != needle[k] {
            assert(v@.subrange(at as int, at + needle@.len())[k as int] == v@[at + k]);
            return false;
        }
        k += 1;
    }
    assert(v@.subrange(at as int, at + needle@.len()) =~= needle@);
    true
}

/// The first offset at or after `from` at which `needle` stands in `v`.
pub fn find_in(v: &Vec<char>, needle: &Vec<char>, from: usize) -> (r: Option<usize>)
    ensures
        match r {
            Some(at) => find_from(v@, needle@, from as int) == Some(at as int),
            None => find_from(v@, needle@, from as int) is None,
        },
{
    let mut i: usize = from;
    while needle.len() <= v.len() && i <= v.len() - needle.len()
        invariant
            from <= i,
            find_from(v@, needle@, from as int) == find_from(v@, needle@, i as int),
        decreases v@.len() - i + 1,
    {
        if matches_at(v, needle, i) {
            return Some(i);
        }
        if i == usize::MAX {
            assert(needle@.len() == 0);
            assert(v@.subrange(i as int, i as int) =~= needle@);
            return None;
        }
        i += 1;
    }
    None
}

/// `str::contains` with a string pattern.
pub fn contains(s: &str, needle: &str) -> (b: bool)
    ensures
        b == contains_text(s@, needle@),
{
    let v = chars_of(s);
    let n = chars_of(needle);
    let r = find_in(&v, &n, 0);
    proof {
        lemma_find_from(s@, needle@, 0);
    }
    r.is_some()
}

/// What follows the first occurrence of `needle`, if there is one.
pub open spec fn after_first(s: Seq<char>, needle: Seq<char>) -> Option<Seq<char>> {
    match find_from(s, needle, 0) {
        Some(at) => Some(s.skip(at + needle.len())),
        None => None,
    }
}

/// The second half of `str::split_once` with a string pattern.
pub fn text_after<'a>(s: &'a str, needle: &str) -> (r: Option<&'a str>)
    ensures
        match r {
            Some(rest) => after_first(s@, needle@) == Some(rest@),
            None => after_first(s@, needle@) is None,
        },
{
    let v = chars_of(s);
    let needle_chars = chars_of(needle);
    proof {
        lemma_find_from(s@, needle@, 0);
    }
    match find_in(&v, &needle_chars, 0) {
        Some(at) => {
            let n: usize = v.len();
            let from: usize = at + needle_chars.len();
            assert(s@.subrange(from as int, n as int) == s@.skip(from as int));
            Some(s.substring_char(from, n))
        },
        None => None,
    }
}

/// The last offset up to `upto` at which `needle` stands in `s`.
pub open spec fn find_last(s: Seq<char>, needle: Seq<char>, upto: int) -> Option<int>
    decreases upto + 1,
{
    if upto < 0 {
        None
    } else if occurs_at(s, needle, upto) {
        Some(upto)
    } else {
        find_last(s, needle, upto - 1)
    }
}

/// What stands before the last occurrence of `needle`, if there is one.
pub open spec fn before_last(s: Seq<char>, needle: Seq<char>) -> Option<Seq<char>> {
    match find_last(s, needle, s.len() as int) {
        Some(at) => Some(s.take(at)),
        None => None,
    }
}

/// The first half of `str::rsplit_once` with a string pattern.
pub fn text_before_last<'a>(s: &'a str, needle: &str) -> (r: Option<&'a str>)
    ensures
        match r {
            Some(rest) => before_last(s@, needle@) == Some(rest@),
            None => before_last(s@, needle@) is None,
        },
{
    let v = chars_of(s);
    let needle_chars = chars_of(needle);
    let n: usize = v.len();
    let mut i: usize = n;
    loop
        invariant
            i <= n == s@.len(),
            v@ == s@,
            needle_chars@ == needle@,
            find_last(s@, needle@, n as int) == find_last(s@, needle@, i as int),
        decreases i,
    {
        if matches_at(&v, &needle_chars, i) {
            assert(s@.subrange(0, i as int) == s@.take(i as int));
            return Some(s.substring_char(0, i));
        }
        if i == 0 {
            return None;
        }
        i -= 1;
    }
}

/// Whether `s` starts with `prefix`.
pub open spec fn has_prefix(s: Seq<char>, prefix: Seq<char>) -> bool {
    prefix.len() <= s.len() && s.take(prefix.len() as int) == prefix
}

/// Whether `s` ends with `suffix`.
pub open spec fn has_suffix(s: Seq<char>, suffix: Seq<char>) -> bool {
    suffix.len() <= s.len() && s.skip(s.len() - suffix.len()) == suffix
}

/// `str::starts_with` with a string pattern.
pub fn starts_with(s: &str, prefix: &str) -> (b: bool)
    ensures
        b == has_prefix(s@, prefix@),
{
    let v = chars_of(s);
    let p = chars_of(prefix);
    assert(prefix@.len() <= s@.len() ==> s@.subrange(0, 0int + prefix@.len()) == s@.take(
        prefix@.len() as int,
    ));
    matches_at(&v, &p, 0)
}

/// `str::ends_with` with a string pattern.
pub fn ends_with(s: &str, suffix: &str) -> (b: bool)
    ensures
        b == has_suffix(s@, suffix@),
{
    let v = chars_of(s);
    let p = chars_of(suffix);
    if p.len() > v.len() {
        return false;
    }
    assert(s@.subrange(s@.len() - suffix@.len(), s@.len() as int) == s@.skip(
        s@.len() - suffix@.len(),
    ));
    matches_at(&v, &p, v.len() - p.len())
}

/// `str::strip_prefix` with a string pattern.
pub fn strip_prefix<'a>(s: &'a str, prefix: &str) -> (r: Option<&'a str>)
    ensures
        match r {
            Some(rest) => has_prefix(s@, prefix@) && rest@ == s@.skip(prefix@.len() as int),
            None => !has_prefix(s@, prefix@),
        },
{
    if starts_with(s, prefix) {
        let n: usize = s.unicode_len();
        let k: usize = prefix.unicode_len();
        assert(s@.subrange(k as int, n as int) == s@.skip(k as int));
        Some(s.substring_char(k, n))
    } else {
        None
    }
}

/// The ASCII digit of `d`, for `d < 10`.
pub open spec fn digit_char(d: nat) -> char {
    (d + 48) as char
}

/// The decimal digits of `n`, without leading zeros.
pub open spec fn decimal(n: nat) -> Seq<char>
    decreases n,
{
    if n < 10 {
        seq![digit_char(n)]
    } else {
        decimal(n / 10).push(digit_char(n % 10))
    }
}

/// The decimal form of a signed number.
pub open spec fn signed_decimal(n: int) -> Seq<char> {
    if n < 0 {
        seq!['-'] + decimal((-n) as nat)
    } else {
        decimal(n as nat)
    }
}

/// Prints `n` in decimal.
pub fn print_u64(n: u64) -> (s: String)
    ensures
        s@ == decimal(n as nat),
    decreases n,
{
    let d: u8 = (n % 10) as u8;
    let c: char = (d + 48) as char;
    let mut s = if n < 10 {
        String::new()
    } else {
        print_u64(n / 10)
    };
    s.push(c);
    assert(s@ =~= decimal(n as nat));
    s
}

/// Prints `n` in decimal.
pub fn print_i64(n: i64) -> (s: String)
    ensures
        s@ == signed_decimal(n as int),
{
    if n >= 0 {
        print_u64(n as u64)
    } else {
        let m: u64 = (-(n + 1)) as u64 + 1;
        let mut s = String::new();
        s.push('-');
        let digits = print_u64(m);
        s.append(digits.as_str());
        s
    }
}

/// `s` with every occurrence of `from` replaced by `to`, scanning from the
/// left and never looking inside a replacement.
pub open spec fn replaced(s: Seq<char>, from: Seq<char>, to: Seq<char>) -> Seq<char>
    decreases s.len(),
{
    if from.len() == 0 || s.len() < from.len() {
        s
    } else if has_prefix(s, from) {
        to + replaced(s.skip(from.len() as int), from, to)
    } else {
        seq![s[0]] + replaced(s.drop_first(), from, to)
    }
}

/// `str::replace` with a string pattern; an empty pattern replaces nothing.
pub fn replace(s: &str, from: &str, to: &str) -> (r: String)
    ensures
        r@ == replaced(s@, from@, to@),
{
    let v = chars_of(s);
    let f = chars_of(from);
    let mut out = String::new();
    let mut i: usize = 0;
    let n: usize = v.len();
    if f.len() == 0 {
        return s.to_owned();
    }
    assert(s@.skip(0) == s@);
    while i < n
        invariant
            i <= n == v@.len(),
            v@ == s@,
            f@ == from@,
            f@.len() > 0,
            replaced(s@, from@, to@) == out@ + replaced(s@.skip(i as int), from@, to@),
        decreases n - i,
    {
        let ghost rest = s@.skip(i as int);
        if matches_at(&v, &f, i) {
            assert(rest.take(from@.len() as int) == s@.subrange(i as int, i + from@.len()));
            assert(rest.skip(from@.len() as int) == s@.skip(i + from@.len()));
            out.append(to);
            i += f.len();
        } else {
            assert(rest.drop_first() == s@.skip(i as int + 1));
            assert(has_prefix(rest, from@) ==> rest.take(from@.len() as int) == s@.subrange(
                i as int,
                i + from@.len(),
            ));
            proof {
                if rest.len() < from@.len() {
                    assert(rest == seq![s@[i as int]] + rest.drop_first());
                }
            }
            out.push(v[i]);
            i += 1;
        }
    }
    assert(s@.skip(n as int) == Seq::<char>::empty());
    out
}

/// The pieces of `s` between occurrences of `sep`: one more than there are
/// occurrences.
pub open spec fn split_on(s: Seq<char>, sep: char) -> Seq<Seq<char>>
    decreases s.len(),
{
    if s.len() == 0 {
        seq![Seq::<char>::empty()]
    } else {
        let before = split_on(s.drop_last(), sep);
        if s.last() == sep {
            before.push(Seq::<char>::empty())
        } else {
            before.update(before.len() - 1, before.last().push(s.last()))
        }
    }
}

/// There is at least one piece.
pub proof fn lemma_split_on_nonempty(s: Seq<char>, sep: char)
    ensures
        split_on(s, sep).len() > 0,
    decreases s.len(),
{
    if s.len() > 0 {
        lemma_split_on_nonempty(s.drop_last(), sep);
    }
}

/// What stands behind a separator and holds none is a piece of its own.
pub proof fn lemma_split_on_last(s: Seq<char>, sep: char, last: Seq<char>)
    requires
        forall|i: int| 0 <= i < last.len() ==> last[i] != sep,
    ensures
        split_on(s.push(sep) + last, sep) == split_on(s, sep).push(last),
    decreases last.len(),
{
    let whole = s.push(sep) + last;
    if last.len() == 0 {
        assert(whole =~= s.push(sep));
        assert(whole.drop_last() =~= s);
        assert(last =~= Seq::<char>::empty());
    } else {
        assert(whole.drop_last() =~= s.push(sep) + last.drop_last());
        lemma_split_on_last(s, sep, last.drop_last());
        assert(last =~= last.drop_last().push(last.last()));
        assert(split_on(whole, sep) =~= split_on(s, sep).push(last));
    }
}

/// Text without a separator is a single piece.
pub proof fn lemma_split_on_single(s: Seq<char>, sep: char)
    requires
        forall|i: int| 0 <= i < s.len() ==> s[i] != sep,
    ensures
        split_on(s, sep) == seq![s],
    decreases s.len(),
{
    if s.len() > 0 {
        lemma_split_on_single(s.drop_last(), sep);
        assert(s =~= s.drop_last().push(s.last()));
        assert(split_on(s, sep) =~= seq![s]);
    } else {
        assert(s =~= Seq::<char>::empty());
    }
}

/// Splits `s` on every occurrence of `sep`.
pub fn split(s: &str, sep: char) -> (r: Vec<String>)
    ensures
        r.deep_view() == split_on(s@, sep),
{
    let v = chars_of(s);
    let mut out: Vec<String> = Vec::new();
    let mut piece = String::new();
    let mut i: usize = 0;
    let n: usize = v.len();
    assert(out.deep_view().push(piece@) =~= split_on(s@.take(0), sep));
    while i < n
        invariant
            i <= n == v@.len(),
            v@ == s@,
            out.deep_view().push(piece@) == split_on(s@.take(i as int), sep),
        decreases n - i,
    {
        let ghost next = s@.take(i as int + 1);
        assert(next.drop_last() == s@.take(i as int));
        let ghost before = split_on(s@.take(i as int), sep);
        if v[i] == sep {
            let ghost done = out.deep_view();
            out.push(piece);
            assert(out.deep_view() =~= done.push(piece@));
            piece = String::new();
        } else {
            piece.push(v[i]);
            assert(out.deep_view().push(piece@) =~= before.update(
                before.len() - 1,
                before.last().push(v@[i as int]),
            ));
        }
        i += 1;
    }
    assert(s@.take(n as int) == s@);
    let ghost done = out.deep_view();
    out.push(piece);
    assert(out.deep_view() =~= done.push(piece@));
    out
}

/// `line` without one carriage return at its end.
pub open spec fn without_cr(line: Seq<char>) -> Seq<char> {
    if line.len() > 0 && line.last() == '\r' {
        line.drop_last()
    } else {
        line
    }
}

/// The lines of `s`: what stands between line feeds, a carriage return in
/// front of a line feed belonging to the line break, with no line after a
/// final line feed.
pub open spec fn lines_of(s: Seq<char>) -> Seq<Seq<char>> {
    let pieces = split_on(s, '\n');
    let ended = pieces.drop_last().map_values(|line: Seq<char>| without_cr(line));
    if pieces.last().len() == 0 {
        ended
    } else {
        ended.push(pieces.last())
    }
}

/// `str::lines`.
pub fn lines(s: &str) -> (r: Vec<String>)
    ensures
        r.deep_view() == lines_of(s@),
{
    let pieces = split(s, '\n');
    proof {
        lemma_split_on_nonempty(s@, '\n');
    }
    let ghost all = split_on(s@, '\n');
    let n: usize = pieces.len();
    assert(n == pieces.deep_view().len());
    let mut out: Vec<String> = Vec::new();
    let mut i: usize = 0;
    let ghost ended = all.drop_last().map_values(|line: Seq<char>| without_cr(line));
    while i < n - 1
        invariant
            i <= n - 1,
            n == pieces@.len(),
            pieces.deep_view() == all,
            ended == all.drop_last().map_values(|line: Seq<char>| without_cr(line)),
            out.deep_view() =~= ended.take(i as int),
        decreases n - i,
    {
        assert(pieces.deep_view()[i as int] == pieces@[i as int]@);
        let piece = pieces[i].as_str();
        let k: usize = piece.unicode_len();
        let line = if k > 0 && piece.get_char(k - 1) == '\r' {
            assert(piece@.subrange(0, k - 1) == piece@.drop_last());
            piece.substring_char(0, k - 1).to_owned()
        } else {
            piece.to_owned()
        };
        assert(ended[i as int] == line@);
        let ghost done = out.deep_view();
        out.push(line);
        assert(out.deep_view() =~= done.push(line@));
        assert(ended.take(i as int + 1) =~= ended.take(i as int).push(ended[i as int]));
        i += 1;
    }
    assert(pieces.deep_view()[n - 1] == pieces@[n - 1]@);
    assert(ended.take(n - 1) =~= ended);
    if !pieces[n - 1].as_str().is_empty() {
        let ghost done = out.deep_view();
        out.push(pieces[n - 1].clone());
        assert(out.deep_view() =~= done.push(all.last()));
    }
    out
}

/// The lower-case form of an ASCII letter; any other character itself.
pub open spec fn ascii_lower(c: char) -> char {
    if 'A' <= c && c <= 'Z' {
        (c as u32 + 32) as char
    } else {
        c
    }
}

/// `str::to_ascii_lowercase`.
pub open spec fn ascii_lowered(s: Seq<char>) -> Seq<char> {
    s.map_values(|c: char| ascii_lower(c))
}

/// The lower-case form of an ASCII letter; any other character itself.
pub fn char_ascii_lower(c: char) -> (r: char)
    ensures
        r == ascii_lower(c),
{
    if 'A' <= c && c <= 'Z' {
        let b: u8 = c as u8;
        (b + 32) as char
    } else {
        c
    }
}

/// `str::to_ascii_lowercase`.
pub fn to_ascii_lower(s: &str) -> (r: String)
    ensures
        r@ == ascii_lowered(s@),
{
    let v = chars_of(s);
    let mut out = String::new();
    let mut i: usize = 0;
    let n: usize = v.len();
    while i < n
        invariant
            i <= n == v@.len(),
            v@ == s@,
            out@ =~= ascii_lowered(s@).take(i as int),
        decreases n - i,
    {
        out.push(char_ascii_lower(v[i]));
        i += 1;
    }
    out
}

/// `s` cut down to its first `limit` characters.
pub fn take_chars(s: &str, limit: usize) -> (r: &str)
    ensures
        r@ == (if s@.len() <= limit { s@ } else { s@.take(limit as int) }),
{
    let n: usize = s.unicode_len();
    if n <= limit {
        s
    } else {
        assert(s@.subrange(0, limit as int) == s@.take(limit as int));
        s.substring_char(0, limit)
    }
}

/// The parts one after the other, with `sep` between each two.
pub open spec fn joined(parts: Seq<Seq<char>>, sep: Seq<char>) -> Seq<char>
    decreases parts.len(),
{
    if parts.len() == 0 {
        Seq::empty()
    } else if parts.len() == 1 {
        parts[0]
    } else {
        joined(parts.drop_last(), sep) + sep + parts.last()
    }
}

/// `[String]::join`.
pub fn join(parts: &Vec<String>, sep: &str) -> (r: String)
    ensures
        r@ == joined(parts.deep_view(), sep@),
{
    let mut out = String::new();
    let mut i: usize = 0;
    let n: usize = parts.len();
    let ghost all = parts.deep_view();
    assert(all.take(0) =~= Seq::<Seq<char>>::empty());
    while i < n
        invariant
            i <= n == parts@.len(),
            all == parts.deep_view(),
            out@ == joined(all.take(i as int), sep@),
        decreases n - i,
    {
        assert(all[i as int] == parts@[i as int]@);
        assert(all.take(i as int + 1).drop_last() =~= all.take(i as int));
        if i > 0 {
            out.append(sep);
        }
        out.append(parts[i].as_str());
        assert(i == 0 ==> out@ =~= all[0]);
        i += 1;
    }
    assert(all.take(n as int) =~= all);
    out
}

/// Whether `c` is an ASCII digit.
pub open spec fn is_digit(c: char) -> bool {
    '0' <= c && c <= '9'
}

/// The number that the ASCII digits `s` spell; nothing where `s` is empty or
/// holds anything else.
pub open spec fn digits_value(s: Seq<char>) -> Option<nat>
    decreases s.len(),
{
    if s.len() == 0 || !is_digit(s.last()) {
        None
    } else if s.len() == 1 {
        Some((s.last() as u32 - 48) as nat)
    } else {
        match digits_value(s.drop_last()) {
            Some(n) => Some(n * 10 + (s.last() as u32 - 48) as nat),
            None => None,
        }
    }
}

/// The number that `s` spells, with an optional `+` in front, where it is at
/// most `max`.
pub open spec fn parsed_unsigned(s: Seq<char>, max: nat) -> Option<nat> {
    let body = if s.len() > 0 && s[0] == '+' {
        s.drop_first()
    } else {
        s
    };
    match digits_value(body) {
        Some(n) => if n <= max {
            Some(n)
        } else {
            None
        },
        None => None,
    }
}

/// The number that `s` spells, with an optional sign in front, where it lies
/// between `min` and `max`.
pub open spec fn parsed_signed(s: Seq<char>, min: int, max: int) -> Option<int> {
    let value = if s.len() > 0 && (s[0] == '-' || s[0] == '+') {
        match digits_value(s.drop_first()) {
            Some(n) => Some(if s[0] == '-' { -(n as int) } else { n as int }),
            None => None,
        }
    } else {
        match digits_value(s) {
            Some(n) => Some(n as int),
            None => None,
        }
    };
    match value {
        Some(n) => if min <= n <= max {
            Some(n)
        } else {
            None
        },
        None => None,
    }
}

/// A text with a character that is no digit spells no number.
proof fn lemma_digits_value_none(s: Seq<char>, k: int)
    requires
        0 <= k < s.len(),
        !is_digit(s[k]),
    ensures
        digits_value(s) is None,
    decreases s.len(),
{
    if s.len() > 1 && k < s.len() - 1 {
        lemma_digits_value_none(s.drop_last(), k);
    }
}

/// More digits never spell a smaller number.
proof fn lemma_digits_value_grows(s: Seq<char>, k: int)
    requires
        0 < k <= s.len(),
        digits_value(s) is Some,
    ensures
        digits_value(s.take(k)) is Some,
        digits_value(s.take(k))->0 <= digits_value(s)->0,
    decreases s.len(),
{
    if k == s.len() {
        assert(s.take(k) == s);
    } else {
        assert(s.drop_last().take(k) == s.take(k));
        lemma_digits_value_grows(s.drop_last(), k);
    }
}

/// The number that `v[from..]` spells in ASCII digits, where it is at most
/// `max`.
fn digits_from(v: &Vec<char>, from: usize, max: u64) -> (r: Option<u64>)
    requires
        from <= v@.len(),
    ensures
        match r {
            Some(n) => n <= max && digits_value(v@.skip(from as int)) == Some(n as nat),
            None => match digits_value(v@.skip(from as int)) {
                Some(n) => n > max,
                None => true,
            },
        },
{
    let ghost s = v@.skip(from as int);
    if from == v.len() {
        return None;
    }
    let mut value: u64 = 0;
    let mut i: usize = from;
    while i < v.len()
        invariant
            from <= i <= v@.len(),
            s == v@.skip(from as int),
            value <= max,
            i == from ==> value == 0,
            i > from ==> digits_value(s.take(i - from)) == Some(value as nat),
        decreases v@.len() - i,
    {
        let c = v[i];
        assert(s[i - from] == c);
        if !('0' <= c && c <= '9') {
            proof {
                lemma_digits_value_none(s, i - from);
            }
            return None;
        }
        let d: u64 = (c as u32 - 48) as u64;
        let ghost next = s.take(i - from + 1);
        assert(next.drop_last() == s.take(i - from));
        assert(next.last() == c);
        assert(digits_value(next) == Some((value * 10 + d) as nat));
        proof {
            if digits_value(s) is Some {
                lemma_digits_value_grows(s, i - from + 1);
            }
        }
        if value > (u64::MAX - d) / 10 || value * 10 + d > max {
            return None;
        }
        value = value * 10 + d;
        i += 1;
    }
    assert(s.take(s.len() as int) == s);
    Some(value)
}

/// `str::parse::<usize>`, where the text is a number that fits.
pub fn parse_usize(s: &str) -> (r: Option<usize>)
    ensures
        match r {
            Some(n) => parsed_unsigned(s@, usize::MAX as nat) == Some(n as nat),
            None => parsed_unsigned(s@, usize::MAX as nat) is None,
        },
{
    let v = chars_of(s);
    let from: usize = if v.len() > 0 && v[0] == '+' {
        1
    } else {
        0
    };
    assert(s@.skip(0) == s@);
    assert(s@.len() > 0 ==> s@.skip(1) == s@.drop_first());
    match digits_from(&v, from, usize::MAX as u64) {
        Some(n) => Some(n as usize),
        None => None,
    }
}

/// `str::parse::<i32>`, where the text is a number that fits.
pub fn parse_i32(s: &str) -> (r: Option<i32>)
    ensures
        match r {
            Some(n) => parsed_signed(s@, i32::MIN as int, i32::MAX as int) == Some(n as int),
            None => parsed_signed(s@, i32::MIN as int, i32::MAX as int) is None,
        },
{
    let v = chars_of(s);
    assert(s@.skip(0) == s@);
    assert(s@.len() > 0 ==> s@.skip(1) == s@.drop_first());
    if v.len() > 0 && v[0] == '-' {
        match digits_from(&v, 1, 2_147_483_648) {
            Some(n) => Some((-(n as i64)) as i32),
            None => None,
        }
    } else {
        let from: usize = if v.len() > 0 && v[0] == '+' {
            1
        } else {
            0
        };
        match digits_from(&v, from, 2_147_483_647) {
            Some(n) => Some(n as i32),
            None => None,
        }
    }
}

/// The pieces of `s` between the successive non-overlapping occurrences of
/// `sep`; `s` itself where `sep` is empty.
pub open spec fn split_text(s: Seq<char>, sep: Seq<char>) -> Seq<Seq<char>>
    decreases s.len(),
{
    if sep.len() == 0 {
        seq![s]
    } else {
        proof {
            lemma_find_from(s, sep, 0);
        }
        match find_from(s, sep, 0) {
            Some(at) => seq![s.take(at)] + split_text(s.skip(at + sep.len()), sep),
            None => seq![s],
        }
    }
}

/// Looking for a text in the rest of `s` finds what looking in `s` from there on finds.
proof fn lemma_find_from_skip(s: Seq<char>, needle: Seq<char>, from: int, k: int)
    requires
        0 <= from <= s.len(),
        0 <= k,
    ensures
        find_from(s.skip(from), needle, k) == (match find_from(s, needle, from + k) {
            Some(at) => Some(at - from),
            None => None,
        }),
    decreases s.len() - from - k + 1,
{
    let t = s.skip(from);
    if k + needle.len() <= t.len() {
        assert(t.subrange(k, k + needle.len()) == s.subrange(from + k, from + k + needle.len()));
        if !occurs_at(t, needle, k) {
            lemma_find_from_skip(s, needle, from, k + 1);
        }
    }
}

/// Splits `s` on every occurrence of `sep`, scanning from the left.
pub fn split_str(s: &str, sep: &str) -> (r: Vec<String>)
    ensures
        r.deep_view() == split_text(s@, sep@),
{
    let v = chars_of(s);
    let p = chars_of(sep);
    let mut out: Vec<String> = Vec::new();
    if p.len() == 0 {
        let whole = s.to_owned();
        out.push(whole);
        assert(out.deep_view() =~= split_text(s@, sep@));
        return out;
    }
    let mut from: usize = 0;
    assert(v.len() <= usize::MAX);
    assert(s@.skip(0) == s@);
    assert(out.deep_view() + split_text(s@, sep@) =~= split_text(s@, sep@));
    loop
        invariant
            from <= v@.len() <= usize::MAX,
            v@ == s@,
            p@ == sep@,
            p@.len() > 0,
            split_text(s@, sep@) == out.deep_view() + split_text(s@.skip(from as int), sep@),
        decreases v@.len() - from,
    {
        let ghost rest = s@.skip(from as int);
        let ghost done = out.deep_view();
        proof {
            lemma_find_from_skip(s@, sep@, from as int, 0);
            lemma_find_from(s@, sep@, from as int);
        }
        match find_in(&v, &p, from) {
            Some(at) => {
                let piece = text_range(&v, from, at);
                assert(piece@ == rest.take(at - from));
                assert(rest.skip(at - from + sep@.len()) == s@.skip(at + sep@.len()));
                out.push(piece);
                assert(out.deep_view() =~= done.push(piece@));
                from = at + p.len();
                assert(done + (seq![piece@] + split_text(s@.skip(from as int), sep@))
                    =~= done.push(piece@) + split_text(s@.skip(from as int), sep@));
            },
            None => {
                let piece = text_range(&v, from, v.len());
                assert(piece@ == rest);
                out.push(piece);
                assert(out.deep_view() =~= done.push(piece@));
                assert(done + seq![rest] =~= done.push(rest));
                return out;
            },
        }
    }
}

/// The number of bytes of `c` in UTF-8.
pub open spec fn utf8_width(c: char) -> nat {
    let u = c as u32;
    if u < 0x80 {
        1
    } else if u < 0x800 {
        2
    } else if u < 0x10000 {
        3
    } else {
        4
    }
}

/// The number of bytes of `s` in UTF-8.
pub open spec fn utf8_len(s: Seq<char>) -> nat
    decreases s.len(),
{
    if s.len() == 0 {
        0
    } else {
        utf8_len(s.drop_last()) + utf8_width(s.last())
    }
}

/// A prefix takes no more bytes than the whole.
pub proof fn lemma_utf8_len_take(s: Seq<char>, k: int)
    requires
        0 <= k <= s.len(),
    ensures
        utf8_len(s.take(k)) <= utf8_len(s),
        k < s.len() ==> utf8_len(s.take(k)) < utf8_len(s),
    decreases s.len(),
{
    if k == s.len() {
        assert(s.take(k) == s);
    } else {
        assert(s.drop_last().take(k) == s.take(k));
        lemma_utf8_len_take(s.drop_last(), k);
    }
}

/// The number of bytes of `c` in UTF-8.
pub fn char_utf8_width(c: char) -> (r: usize)
    ensures
        r == utf8_width(c),
{
    let u: u32 = c as u32;
    if u < 0x80 {
        1
    } else if u < 0x800 {
        2
    } else if u < 0x10000 {
        3
    } else {
        4
    }
}

/// The longest prefix of `s` that takes at most `limit` bytes in UTF-8.
pub open spec fn prefix_within(s: Seq<char>, limit: nat) -> Seq<char>
    decreases s.len(),
{
    if utf8_len(s) <= limit {
        s
    } else {
        prefix_within(s.drop_last(), limit)
    }
}

/// A text is its own longest prefix within its size, and what is cut off a
/// longer one did not fit.
proof fn lemma_prefix_within(s: Seq<char>, limit: nat, k: int)
    requires
        0 <= k <= s.len(),
        utf8_len(s.take(k)) <= limit,
        k < s.len() ==> utf8_len(s.take(k + 1)) > limit,
    ensures
        prefix_within(s, limit) == s.take(k),
        utf8_len(s) > limit <==> k < s.len(),
    decreases s.len(),
{
    assert(s.take(s.len() as int) == s);
    if k < s.len() {
        lemma_utf8_len_take(s, k + 1);
        assert(s.drop_last().take(k) == s.take(k));
        if k + 1 < s.len() {
            assert(s.drop_last().take(k + 1) == s.take(k + 1));
        }
        lemma_prefix_within(s.drop_last(), limit, k);
    }
}

/// The longest prefix of `s` that takes at most `limit` bytes in UTF-8, and
/// whether that leaves anything out.
pub fn cut_to_bytes(s: &str, limit: usize) -> (r: (&str, bool))
    ensures
        r.0@ == prefix_within(s@, limit as nat),
        r.1 == (utf8_len(s@) > limit),
{
    let v = chars_of(s);
    let n: usize = v.len();
    let mut used: usize = 0;
    let mut i: usize = 0;
    while i < n
        invariant
            i <= n == v@.len(),
            v@ == s@,
            used == utf8_len(s@.take(i as int)),
            used <= limit,
        decreases n - i,
    {
        let width: usize = char_utf8_width(v[i]);
        assert(s@.take(i as int + 1).drop_last() == s@.take(i as int));
        if width > limit - used {
            proof {
                lemma_prefix_within(s@, limit as nat, i as int);
            }
            assert(s@.subrange(0, i as int) == s@.take(i as int));
            return (s.substring_char(0, i), true);
        }
        used += width;
        i += 1;
    }
    proof {
        lemma_prefix_within(s@, limit as nat, n as int);
    }
    assert(s@.take(n as int) == s@);
    (s, false)
}

/// `s` cut down to `max_chars` characters, with an ellipsis where that leaves
/// anything out.
pub open spec fn clipped(s: Seq<char>, max_chars: nat) -> Seq<char> {
    if s.len() > max_chars {
        s.take(max_chars as int).push('…')
    } else {
        s
    }
}

/// Cuts a text down to a preview of at most `max_chars` characters, followed
/// by an ellipsis where that leaves anything out.
pub fn truncate_preview(s: &str, max_chars: usize) -> (r: String)
    ensures
        r@ == clipped(s@, max_chars as nat),
{
    let n: usize = s.unicode_len();
    let mut out = take_chars(s, max_chars).to_owned();
    if n > max_chars {
        out.push('…');
    }
    out
}

/// A preview is never more than one character longer than asked for and never
/// longer than the text, starts like the text, and is the text itself where it
/// fits.
pub proof fn law_preview_is_prefix(s: Seq<char>, max_chars: nat)
    ensures
        clipped(s, max_chars).len() <= max_chars + 1,
        clipped(s, max_chars).len() <= s.len(),
        s.len() <= max_chars ==> clipped(s, max_chars) == s,
        forall|i: int|
            0 <= i < s.len() && i < max_chars ==> #[trigger] clipped(s, max_chars)[i] == s[i],
{
}

/// Different numbers print differently, and every digit prints as a digit.
pub proof fn lemma_decimal_injective(a: nat, b: nat)
    ensures
        decimal(a).len() > 0,
        is_digit(decimal(a)[0]),
        decimal(a) == decimal(b) ==> a == b,
    decreases a,
{
    lemma_decimal_starts_with_digit(a);
    lemma_decimal_starts_with_digit(b);
    if decimal(a) == decimal(b) {
        assert(decimal(a).last() == decimal(b).last());
        assert(digit_char(a % 10) == decimal(a).last());
        assert(digit_char(b % 10) == decimal(b).last());
        assert(a % 10 == b % 10);
        if a >= 10 && b >= 10 {
            assert(decimal(a).drop_last() =~= decimal(a / 10));
            assert(decimal(b).drop_last() =~= decimal(b / 10));
            lemma_decimal_injective(a / 10, b / 10);
        } else if a >= 10 {
            lemma_decimal_starts_with_digit(a / 10);
            assert(decimal(a).len() > 1);
        } else if b >= 10 {
            lemma_decimal_starts_with_digit(b / 10);
            assert(decimal(b).len() > 1);
        }
    }
}

/// A printed number starts with a digit.
pub proof fn lemma_decimal_starts_with_digit(n: nat)
    ensures
        decimal(n).len() > 0,
        is_digit(decimal(n)[0]),
    decreases n,
{
    if n >= 10 {
        lemma_decimal_starts_with_digit(n / 10);
    }
}

/// Different signed numbers print differently.
pub proof fn lemma_signed_decimal_injective(a: int, b: int)
    ensures
        signed_decimal(a).len() > 0,
        signed_decimal(a) == signed_decimal(b) ==> a == b,
{
    let abs_a = if a < 0 { (-a) as nat } else { a as nat };
    let abs_b = if b < 0 { (-b) as nat } else { b as nat };
    lemma_decimal_injective(abs_a, abs_b);
    lemma_decimal_injective(abs_b, abs_a);
    if signed_decimal(a) == signed_decimal(b) {
        assert(signed_decimal(a)[0] == signed_decimal(b)[0]);
        if a < 0 && b < 0 {
            assert(signed_decimal(a).drop_first() =~= decimal(abs_a));
            assert(signed_decimal(b).drop_first() =~= decimal(abs_b));
        }
    }
}

} // verus!
