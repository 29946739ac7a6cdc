//! Character-level text utilities with exact specifications.
use vstd::prelude::*;
use vstd::std_specs::iter::IteratorSpec;

verus! {

broadcast use vstd::string::group_string_axioms;

/// Appends one character to a string (`String::push`).
///
/// Trusted: `String::push` appends the character at the end of the string.
#[verifier::external_body]
pub(crate) fn push_char(s: &mut String, c: char)
    ensures
        final(s)@ == old(s)@.push(c),
{
    s.push(c);
}

/// The characters of a string, as a vector.
pub fn chars_of(s: &str) -> (r: Vec<char>)
    ensures
        r@ == s@,
{
    let mut r: Vec<char> = Vec::new();
    let mut it = s.chars();
    loop
        invariant
            r@ + it.remaining() == s@,
            it.obeys_prophetic_iter_laws(),
            it.decrease() is Some,
        ensures
            r@ == s@,
        decreases it.decrease()->0,
    {
        let ghost before = it.remaining();
        match it.next() {
            Some(c) => {
                r.push(c);
                assert(r@ + it.remaining() == s@) by {
                    assert(before == seq![c] + it.remaining());
                }
            },
            None => {
                assert(it.remaining().len() == 0);
                assert(r@ + it.remaining() == r@);
                break;
            },
        }
    }
    r
}

/// Builds a string from the characters `v[from..to]`.
pub fn string_from_range(v: &Vec<char>, from: usize, to: usize) -> (r: String)
    requires
        from <= to <= v@.len(),
    ensures
        r@ == v@.subrange(from as int, to as int),
{
    let mut r = String::new();
    let mut i = from;
    while i < to
        invariant
            from <= i <= to <= v@.len(),
            r@ == v@.subrange(from as int, i as int),
        decreases to - i,
    {
        push_char(&mut r, v[i]);
        assert(v@.subrange(from as int, i + 1) == v@.subrange(from as int, i as int).push(v@[i as int]));
        i = i + 1;
    }
    r
}

/// Builds a string from a vector of characters.
pub fn string_from_chars(v: &Vec<char>) -> (r: String)
    ensures
        r@ == v@,
{
    let r = string_from_range(v, 0, v.len());
    assert(v@.subrange(0, v@.len() as int) == v@);
    r
}

/// A new string with the contents of a literal or slice.
pub fn text(s: &str) -> (r: String)
    ensures
        r@ == s@,
{
    String::from_str(s)
}

/// A copy of a string.
pub fn copy(s: &String) -> (r: String)
    ensures
        r@ == s@,
{
    s.clone()
}

/// The concatenation of two strings.
pub fn concat2(a: &str, b: &str) -> (r: String)
    ensures
        r@ == a@ + b@,
{
    let mut r = String::from_str(a);
    r.append(b);
    r
}

/// The concatenation of three strings.
pub fn concat3(a: &str, b: &str, c: &str) -> (r: String)
    ensures
        r@ == a@ + b@ + c@,
{
    let mut r = String::from_str(a);
    r.append(b);
    r.append(c);
    r
}

/// Whether two strings hold the same characters.
pub fn same_text(a: &String, b: &str) -> (r: bool)
    ensures
        r == (a@ == b@),
{
    let b2 = String::from_str(b);
    *a == b2
}

// ---------------------------------------------------------------------------
// Unicode whitespace and trimming (`str::trim`).
// ---------------------------------------------------------------------------

/// Unicode `White_Space` characters, as recognised by `char::is_whitespace`.
pub open spec fn is_white_space(c: char) -> bool {
    ||| ('\u{9}' <= c && c <= '\u{d}')
    ||| c == ' '
    ||| c == '\u{85}'
    ||| c == '\u{a0}'
    ||| c == '\u{1680}'
    ||| ('\u{2000}' <= c && c <= '\u{200a}')
    ||| c == '\u{2028}'
    ||| c == '\u{2029}'
    ||| c == '\u{202f}'
    ||| c == '\u{205f}'
    ||| c == '\u{3000}'
}

/// Executable form of `is_white_space`.
pub fn char_is_white_space(c: char) -> (r: bool)
    ensures
        r == is_white_space(c),
{
    ('\u{9}' <= c && c <= '\u{d}') || c == ' ' || c == '\u{85}' || c == '\u{a0}' || c == '\u{1680}'
        || ('\u{2000}' <= c && c <= '\u{200a}') || c == '\u{2028}' || c == '\u{2029}' || c
        == '\u{202f}' || c == '\u{205f}' || c == '\u{3000}'
}

/// Number of leading white-space characters of `s`.
pub open spec fn leading_white(s: Seq<char>) -> nat
    decreases s.len(),
{
    if s.len() > 0 && is_white_space(s[0]) {
        1 + leading_white(s.drop_first())
    } else {
        0
    }
}

/// Number of trailing white-space characters of `s`.
pub open spec fn trailing_white(s: Seq<char>) -> nat
    decreases s.len(),
{
    if s.len() > 0 && is_white_space(s.last()) {
        1 + trailing_white(s.drop_last())
    } else {
        0
    }
}

/// `s` without its leading and trailing white space (what `str::trim` returns).
pub open spec fn trim_spec(s: Seq<char>) -> Seq<char> {
    let lead = s.skip(leading_white(s) as int);
    lead.take(lead.len() - trailing_white(lead))
}

proof fn lemma_leading_white_bound(s: Seq<char>)
    ensures
        leading_white(s) <= s.len(),
    decreases s.len(),
{
    if s.len() > 0 && is_white_space(s[0]) {
        lemma_leading_white_bound(s.drop_first());
    }
}

proof fn lemma_trailing_white_bound(s: Seq<char>)
    ensures
        trailing_white(s) <= s.len(),
    decreases s.len(),
{
    if s.len() > 0 && is_white_space(s.last()) {
        lemma_trailing_white_bound(s.drop_last());
    }
}

/// The leading white space of `s` is the prefix before the first other char.
proof fn lemma_leading_white_at(s: Seq<char>, i: int)
    requires
        0 <= i <= s.len(),
        forall|j: int| 0 <= j < i ==> is_white_space(#[trigger] s[j]),
        i == s.len() || !is_white_space(s[i]),
    ensures
        leading_white(s) == i,
    decreases i,
{
    if i > 0 {
        assert forall|j: int| 0 <= j < i - 1 implies is_white_space(#[trigger] s.drop_first()[j]) by {
            assert(s.drop_first()[j] == s[j + 1]);
        }
        if i - 1 < s.drop_first().len() {
            assert(s.drop_first()[i - 1] == s[i]);
        }
        lemma_leading_white_at(s.drop_first(), i - 1);
        assert(is_white_space(s[0]));
    }
}

/// The trailing white space of `s` is the suffix after the last other char.
proof fn lemma_trailing_white_at(s: Seq<char>, i: int)
    requires
        0 <= i <= s.len(),
        forall|j: int| i <= j < s.len() ==> is_white_space(#[trigger] s[j]),
        i == 0 || !is_white_space(s[i - 1]),
    ensures
        trailing_white(s) == s.len() - i,
    decreases s.len() - i,
{
    if i < s.len() {
        assert forall|j: int| i <= j < s.drop_last().len() implies is_white_space(
            #[trigger] s.drop_last()[j],
        ) by {
            assert(s.drop_last()[j] == s[j]);
        }
        if i > 0 {
            assert(s.drop_last()[i - 1] == s[i - 1]);
        }
        lemma_trailing_white_at(s.drop_last(), i);
        assert(is_white_space(s.last()));
    }
}

/// Removes leading and trailing Unicode white space, as `str::trim` does.
pub fn trim(s: &str) -> (r: String)
    ensures
        r@ == trim_spec(s@),
{
    let v = chars_of(s);
    let n = v.len();
    let mut start: usize = 0;
    while start < n && char_is_white_space(v[start])
        invariant
            start <= n == v@.len(),
            v@ == s@,
            forall|j: int| 0 <= j < start ==> is_white_space(#[trigger] v@[j]),
        decreases n - start,
    {
        start = start + 1;
    }
    proof {
        lemma_leading_white_at(s@, start as int);
    }
    let mut end: usize = n;
    while end > start && char_is_white_space(v[end - 1])
        invariant
            start <= end <= n == v@.len(),
            v@ == s@,
            forall|j: int| end <= j < n ==> is_white_space(#[trigger] v@[j]),
        decreases end - start,
    {
        end = end - 1;
    }
    proof {
        let lead = s@.skip(start as int);
        assert forall|j: int| end - start <= j < lead.len() implies is_white_space(
            #[trigger] lead[j],
        ) by {
            assert(lead[j] == v@[j + start]);
        }
        if end > start {
            assert(lead[end - start - 1] == v@[end - 1]);
        }
        lemma_trailing_white_at(lead, end - start);
        assert(lead.take(end - start) == s@.subrange(start as int, end as int));
    }
    string_from_range(&v, start, end)
}

// ---------------------------------------------------------------------------
// Splitting on a separator character (`str::split` with a `char` pattern).
// ---------------------------------------------------------------------------

/// Index of the first occurrence of `c` in `s` at or after `from`, if any.
pub open spec fn find_from(s: Seq<char>, c: char, from: int) -> int
    decreases s.len() - from,
{
    if from >= s.len() {
        s.len() as int
    } else if s[from] == c {
        from
    } else {
        find_from(s, c, from + 1)
    }
}

/// The pieces of `s[from..]` between occurrences of `sep`, as `str::split` yields them.
pub open spec fn split_from(s: Seq<char>, sep: char, from: int) -> Seq<Seq<char>>
    decreases s.len() - from,
{
    let end = find_from(s, sep, from);
    if from > s.len() || end >= s.len() {
        seq![s.subrange(from, s.len() as int)]
    } else if end < from {
        seq![]
    } else {
        seq![s.subrange(from, end)] + split_from(s, sep, end + 1)
    }
}

/// The pieces of `s` between occurrences of `sep` (what `str::split(sep)` yields).
pub open spec fn split_spec(s: Seq<char>, sep: char) -> Seq<Seq<char>> {
    split_from(s, sep, 0)
}

proof fn lemma_find_from(s: Seq<char>, c: char, from: int)
    requires
        0 <= from <= s.len(),
    ensures
        from <= find_from(s, c, from) <= s.len(),
        forall|j: int| from <= j < find_from(s, c, from) ==> s[j] != c,
        find_from(s, c, from) < s.len() ==> s[find_from(s, c, from)] == c,
    decreases s.len() - from,
{
    if from < s.len() && s[from] != c {
        lemma_find_from(s, c, from + 1);
    }
}

/// Splits `s` at every occurrence of `sep`.
pub fn split_on(s: &str, sep: char) -> (r: Vec<String>)
    ensures
        r@.len() == split_spec(s@, sep).len(),
        forall|i: int| 0 <= i < r@.len() ==> #[trigger] r@[i]@ == split_spec(s@, sep)[i],
{
    let v = chars_of(s);
    let n = v.len();
    let mut r: Vec<String> = Vec::new();
    let mut from: usize = 0;
    let mut i: usize = 0;
    proof {
        lemma_find_from(s@, sep, 0);
    }
    loop
        invariant
            v@ == s@,
            n == v@.len(),
            from <= i <= n,
            forall|j: int| from <= j < i ==> v@[j] != sep,
            find_from(s@, sep, from as int) == find_from(s@, sep, i as int),
            r@.len() + split_from(s@, sep, from as int).len() == split_spec(s@, sep).len(),
            forall|k: int| 0 <= k < r@.len() ==> #[trigger] r@[k]@ == split_spec(s@, sep)[k],
            forall|k: int|
                0 <= k < split_from(s@, sep, from as int).len() ==> split_spec(s@, sep)[r@.len()
                    + k] == #[trigger] split_from(s@, sep, from as int)[k],
        decreases n - i, n - from,
    {
        if i == n {
            proof {
                lemma_find_from(s@, sep, from as int);
            }
            let piece = string_from_range(&v, from, n);
            assert(split_from(s@, sep, from as int) == seq![s@.subrange(from as int, n as int)]);
            let ghost old_r = r@;
            r.push(piece);
            assert forall|k: int| 0 <= k < r@.len() implies #[trigger] r@[k]@ == split_spec(s@, sep)[k] by {
                if k < old_r.len() {
                    assert(r@[k] == old_r[k]);
                } else {
                    assert(split_spec(s@, sep)[old_r.len() as int] == split_from(s@, sep, from as int)[0]);
                }
            }
            return r;
        }
        if v[i] == sep {
            proof {
                lemma_find_from(s@, sep, from as int);
                assert(find_from(s@, sep, i as int) == i);
            }
            let piece = string_from_range(&v, from, i);
            let ghost before = split_from(s@, sep, from as int);
            assert(before == seq![s@.subrange(from as int, i as int)] + split_from(
                s@,
                sep,
                i + 1,
            ));
            let ghost old_r = r@;
            r.push(piece);
            assert forall|k: int| 0 <= k < r@.len() implies #[trigger] r@[k]@ == split_spec(s@, sep)[k] by {
                if k < old_r.len() {
                    assert(r@[k] == old_r[k]);
                } else {
                    assert(split_spec(s@, sep)[old_r.len() as int] == before[0]);
                }
            }
            from = i + 1;
            i = i + 1;
            proof {
                assert forall|k: int| 0 <= k < split_from(s@, sep, from as int).len() implies split_spec(
                    s@,
                    sep,
                )[r@.len() + k] == #[trigger] split_from(s@, sep, from as int)[k] by {
                    assert(before[k + 1] == split_from(s@, sep, from as int)[k]);
                }
            }
        } else {
            proof {
                assert(find_from(s@, sep, i as int) == find_from(s@, sep, i + 1));
            }
            i = i + 1;
        }
    }
}

// ---------------------------------------------------------------------------
// Unicode lower-casing (`str::to_lowercase`).
// ---------------------------------------------------------------------------

/// What `str::to_lowercase` returns for the given characters.
pub uninterp spec fn unicode_lowercase(s: Seq<char>) -> Seq<char>;

/// ASCII lower-casing of one character.
pub open spec fn ascii_lower(c: char) -> char {
    if 'A' <= c && c <= 'Z' {
        ((c as int) + 32) as char
    } else {
        c
    }
}

/// Whether every character of `s` is ASCII.
pub open spec fn all_ascii(s: Seq<char>) -> bool {
    forall|i: int| 0 <= i < s.len() ==> (#[trigger] s[i] as int) < 128
}

/// Lower-cases a string as `str::to_lowercase` does (Unicode case mapping).
///
/// Trusted: `str::to_lowercase` maps each character to its Unicode lowercase
/// form. The result is named `unicode_lowercase`; the one fact stated of it is
/// the one the documentation gives for ASCII text: ASCII letters are mapped
/// to their lowercase counterparts and every other ASCII character is kept.
#[verifier::external_body]
pub(crate) fn to_lowercase(s: &str) -> (r: String)
    ensures
        r@ == unicode_lowercase(s@),
        all_ascii(s@) ==> r@ == s@.map_values(|c: char| ascii_lower(c)),
{
    s.to_lowercase()
}

/// What `str::to_lowercase` returns, as far as it is known: ASCII text
/// lower-cased letter by letter, other text as `unicode_lowercase` names it.
pub open spec fn lowercase_text(s: Seq<char>) -> Seq<char> {
    if all_ascii(s) {
        s.map_values(|c: char| ascii_lower(c))
    } else {
        unicode_lowercase(s)
    }
}

/// ASCII upper-casing of one character.
pub open spec fn ascii_upper(c: char) -> char {
    if 'a' <= c && c <= 'z' {
        ((c as int) - 32) as char
    } else {
        c
    }
}

/// ASCII lower-casing of one character (`char::to_ascii_lowercase`).
pub fn char_ascii_lower(c: char) -> (r: char)
    ensures
        r == ascii_lower(c),
{
    if 'A' <= c && c <= 'Z' {
        let b: u8 = (c as u8) + 32u8;
        let r = b as char;
        assert(r == ascii_lower(c)) by {
            assert((c as u8) as int == c as int);
        }
        r
    } else {
        c
    }
}

/// Whether two character sequences are equal up to ASCII case.
pub open spec fn ascii_case_insensitive_eq(a: Seq<char>, b: Seq<char>) -> bool {
    &&& a.len() == b.len()
    &&& forall|i: int| 0 <= i < a.len() ==> ascii_lower(#[trigger] a[i]) == ascii_lower(b[i])
}

/// ASCII case-insensitive comparison (what `str::eq_ignore_ascii_case` computes:
/// the ASCII-lowercased forms of both strings are equal).
pub fn eq_ignore_ascii_case(a: &str, b: &str) -> (r: bool)
    ensures
        r == ascii_case_insensitive_eq(a@, b@),
{
    let va = chars_of(a);
    let vb = chars_of(b);
    if va.len() != vb.len() {
        return false;
    }
    let mut i: usize = 0;
    while i < va.len()
        invariant
            va@ == a@,
            vb@ == b@,
            va@.len() == vb@.len(),
            i <= va@.len(),
            forall|j: int| 0 <= j < i ==> ascii_lower(#[trigger] a@[j]) == ascii_lower(b@[j]),
        decreases va.len() - i,
    {
        if char_ascii_lower(va[i]) != char_ascii_lower(vb[i]) {
            return false;
        }
        i = i + 1;
    }
    true
}

// ---------------------------------------------------------------------------
// Decimal rendering of integers (`Display` for integer types).
// ---------------------------------------------------------------------------

/// The ASCII digit for `d` (0 through 9).
pub open spec fn digit_char(d: int) -> char {
    (d + 48) as char
}

/// Decimal digits of a natural number, without leading zeros.
pub open spec fn decimal(n: nat) -> Seq<char>
    decreases n,
{
    if n < 10 {
        seq![digit_char(n as int)]
    } else {
        decimal(n / 10).push(digit_char((n % 10) as int))
    }
}

/// Decimal text of an integer, with a leading `-` for negative values.
pub open spec fn int_text(i: int) -> Seq<char> {
    if i < 0 {
        seq!['-'] + decimal((-i) as nat)
    } else {
        decimal(i as nat)
    }
}

fn digit(d: u64) -> (c: char)
    requires
        d < 10,
    ensures
        c == digit_char(d as int),
{
    let b: u8 = (d as u8) + 48u8;
    let c = b as char;
    assert(c == digit_char(d as int)) by {
        assert((b as char) == ((d as int) + 48) as char);
    }
    c
}

/// Appends the decimal digits of `n` to `out`.
pub fn push_decimal(out: &mut String, n: u64)
    ensures
        final(out)@ == old(out)@ + decimal(n as nat),
    decreases n,
{
    if n < 10 {
        push_char(out, digit(n));
        assert(old(out)@.push(digit_char(n as int)) == old(out)@ + decimal(n as nat));
    } else {
        push_decimal(out, n / 10);
        push_char(out, digit(n % 10));
        assert(old(out)@ + decimal((n / 10) as nat) + seq![digit_char((n % 10) as int)] == old(
            out,
        )@ + decimal(n as nat));
    }
}

/// Decimal text of an unsigned integer (what `u64::to_string` returns).
pub fn u64_text(n: u64) -> (r: String)
    ensures
        r@ == decimal(n as nat),
{
    let mut r = String::new();
    push_decimal(&mut r, n);
    r
}

/// Decimal text of a signed integer (what `i64::to_string` returns).
pub fn i64_text(n: i64) -> (r: String)
    ensures
        r@ == int_text(n as int),
{
    let mut r = String::new();
    if n < 0 {
        push_char(&mut r, '-');
        let m: u64 = if n == i64::MIN {
            9223372036854775808u64
        } else {
            (-n) as u64
        };
        push_decimal(&mut r, m);
    } else {
        push_decimal(&mut r, n as u64);
    }
    r
}

// ---------------------------------------------------------------------------
// Prefixes, segments, lines, joining and padding.
// ---------------------------------------------------------------------------

/// Whether `s` begins with `prefix`.
pub open spec fn starts_with_spec(s: Seq<char>, prefix: Seq<char>) -> bool {
    prefix.len() <= s.len() && s.take(prefix.len() as int) == prefix
}

/// Whether `s` begins with `prefix` (`str::starts_with`).
pub fn starts_with(s: &str, prefix: &str) -> (r: bool)
    ensures
        r == starts_with_spec(s@, prefix@),
{
    let v = chars_of(s);
    let p = chars_of(prefix);
    if p.len() > v.len() {
        return false;
    }
    let mut i: usize = 0;
    while i < p.len()
        invariant
            v@ == s@,
            p@ == prefix@,
            p@.len() <= v@.len(),
            i <= p@.len(),
            forall|j: int| 0 <= j < i ==> v@[j] == p@[j],
        decreases p.len() - i,
    {
        if v[i] != p[i] {
            assert(s@.take(prefix@.len() as int)[i as int] != prefix@[i as int]);
            return false;
        }
        i = i + 1;
    }
    assert(s@.take(prefix@.len() as int) =~= prefix@);
    true
}

/// The text after the last occurrence of `c` in `s`; all of `s` when it
/// holds none (what `s.rsplit(c).next()` yields).
pub open spec fn after_last(s: Seq<char>, c: char) -> Seq<char>
    decreases s.len(),
{
    if s.len() == 0 {
        s
    } else if s.last() == c {
        Seq::empty()
    } else {
        after_last(s.drop_last(), c).push(s.last())
    }
}

/// The text after the last occurrence of `c` in `s`, or all of `s`.
pub fn after_last_char(s: &str, c: char) -> (r: String)
    ensures
        r@ == after_last(s@, c),
{
    let v = chars_of(s);
    let n = v.len();
    let mut i: usize = n;
    proof {
        assert(s@.take(n as int) =~= s@);
        assert(after_last(s@, c) + s@.subrange(n as int, n as int) =~= after_last(s@, c));
    }
    while i > 0 && v[i - 1] != c
        invariant
            v@ == s@,
            n == v@.len(),
            i <= n,
            after_last(s@, c) == after_last(s@.take(i as int), c) + s@.subrange(i as int, n as int),
        decreases i,
    {
        proof {
            let t = s@.take(i as int);
            assert(t.drop_last() =~= s@.take(i - 1));
            assert(s@.subrange(i - 1, n as int) =~= seq![t.last()] + s@.subrange(i as int, n as int));
            assert(after_last(t, c) == after_last(t.drop_last(), c).push(t.last()));
            assert(after_last(s@.take(i - 1), c).push(t.last()) + s@.subrange(i as int, n as int)
                =~= after_last(s@.take(i - 1), c) + s@.subrange(i - 1, n as int));
        }
        i = i - 1;
    }
    proof {
        if i > 0 {
            assert(s@.take(i as int).last() == c);
        }
        assert(after_last(s@.take(i as int), c) =~= Seq::<char>::empty());
        assert(Seq::<char>::empty() + s@.subrange(i as int, n as int) =~= s@.subrange(i as int, n as int));
    }
    string_from_range(&v, i, n)
}

/// `l` without a final carriage return.
pub open spec fn strip_cr(l: Seq<char>) -> Seq<char> {
    if l.len() > 0 && l.last() == '\r' {
        l.drop_last()
    } else {
        l
    }
}

/// The lines of a text, as `str::lines` yields them: the text is split at
/// each `\n`, a `\r` right before a `\n` is dropped, and a final `\n` ends
/// the last line rather than starting an empty one.
pub open spec fn lines_spec(s: Seq<char>) -> Seq<Seq<char>> {
    if s.len() == 0 {
        Seq::empty()
    } else if s.last() == '\n' {
        split_spec(s.drop_last(), '\n').map_values(|l: Seq<char>| strip_cr(l))
    } else {
        let p = split_spec(s, '\n');
        p.drop_last().map_values(|l: Seq<char>| strip_cr(l)).push(p.last())
    }
}

fn strip_cr_string(l: &String) -> (r: String)
    ensures
        r@ == strip_cr(l@),
{
    let v = chars_of(l.as_str());
    if v.len() > 0 && v[v.len() - 1] == '\r' {
        string_from_range(&v, 0, v.len() - 1)
    } else {
        copy(l)
    }
}

proof fn lemma_split_nonempty(s: Seq<char>, sep: char, from: int)
    requires
        0 <= from <= s.len(),
    ensures
        split_from(s, sep, from).len() > 0,
    decreases s.len() - from,
{
    lemma_find_from(s, sep, from);
    let end = find_from(s, sep, from);
    if end < s.len() {
        lemma_split_nonempty(s, sep, end + 1);
    }
}

/// The lines of a text (`str::lines`).
pub fn lines(s: &str) -> (r: Vec<String>)
    ensures
        r@.len() == lines_spec(s@).len(),
        forall|i: int| 0 <= i < r@.len() ==> #[trigger] r@[i]@ == lines_spec(s@)[i],
{
    let v = chars_of(s);
    let n = v.len();
    if n == 0 {
        return Vec::new();
    }
    let ends_with_newline = v[n - 1] == '\n';
    let body = if ends_with_newline {
        string_from_range(&v, 0, n - 1)
    } else {
        text(s)
    };
    proof {
        if ends_with_newline {
            assert(body@ =~= s@.drop_last());
        }
        lemma_split_nonempty(body@, '\n', 0);
    }
    let pieces = split_on(body.as_str(), '\n');
    let ghost p = split_spec(body@, '\n');
    let stripped_count = if ends_with_newline {
        pieces.len()
    } else {
        pieces.len() - 1
    };
    let mut r: Vec<String> = Vec::new();
    let mut i: usize = 0;
    while i < stripped_count
        invariant
            pieces@.len() == p.len(),
            p.len() > 0,
            forall|k: int| 0 <= k < pieces@.len() ==> #[trigger] pieces@[k]@ == p[k],
            stripped_count <= pieces@.len(),
            i <= stripped_count,
            r@.len() == i,
            forall|k: int| 0 <= k < i ==> #[trigger] r@[k]@ == strip_cr(p[k]),
        decreases stripped_count - i,
    {
        let l = strip_cr_string(&pieces[i]);
        r.push(l);
        i = i + 1;
    }
    if !ends_with_newline {
        let last = copy(&pieces[pieces.len() - 1]);
        r.push(last);
    }
    proof {
        if ends_with_newline {
            assert(lines_spec(s@) =~= p.map_values(|l: Seq<char>| strip_cr(l)));
        } else {
            assert(body@ == s@);
            assert(lines_spec(s@) =~= p.drop_last().map_values(|l: Seq<char>| strip_cr(l)).push(p.last()));
        }
        assert forall|k: int| 0 <= k < r@.len() implies #[trigger] r@[k]@ == lines_spec(s@)[k] by {
        }
    }
    r
}

/// The texts joined with a separator between each two.
pub open spec fn join_spec(ls: Seq<Seq<char>>, sep: Seq<char>) -> Seq<char>
    decreases ls.len(),
{
    if ls.len() == 0 {
        Seq::empty()
    } else if ls.len() == 1 {
        ls[0]
    } else {
        join_spec(ls.drop_last(), sep) + sep + ls.last()
    }
}

/// The views of a sequence of strings.
pub open spec fn texts(v: Seq<String>) -> Seq<Seq<char>> {
    v.map_values(|s: String| s@)
}

/// The strings joined with a separator between each two (`[String]::join`).
pub fn join(v: &Vec<String>, sep: &str) -> (r: String)
    ensures
        r@ == join_spec(texts(v@), sep@),
{
    let mut r = String::new();
    let mut i: usize = 0;
    while i < v.len()
        invariant
            i <= v@.len(),
            r@ == join_spec(texts(v@.take(i as int)), sep@),
        decreases v.len() - i,
    {
        proof {
            let t = texts(v@.take(i + 1));
            assert(t.drop_last() =~= texts(v@.take(i as int)));
            assert(t.last() == v@[i as int]@);
        }
        if i > 0 {
            r.append(sep);
        }
        r.append(v[i].as_str());
        i = i + 1;
    }
    proof {
        assert(v@.take(v@.len() as int) =~= v@);
    }
    r
}

/// `s` padded on the left with spaces to at least `width` characters (what
/// `{:>width}` prints).
pub open spec fn pad_left(s: Seq<char>, width: nat) -> Seq<char> {
    if s.len() < width {
        Seq::new((width - s.len()) as nat, |i: int| ' ') + s
    } else {
        s
    }
}

/// Pads a text on the left with spaces to at least `width` characters.
pub fn padded_left(s: &str, width: usize) -> (r: String)
    ensures
        r@ == pad_left(s@, width as nat),
{
    let v = chars_of(s);
    let mut r = String::new();
    let mut k: usize = v.len();
    while k < width
        invariant
            v@ == s@,
            k >= v@.len(),
            v@.len() >= width ==> k == v@.len(),
            v@.len() < width ==> k <= width,
            r@ == Seq::new((k - v@.len()) as nat, |i: int| ' '),
        decreases width - k,
    {
        push_char(&mut r, ' ');
        assert(r@ =~= Seq::new((k + 1 - v@.len()) as nat, |i: int| ' '));
        k = k + 1;
    }
    let ghost pad = r@;
    r.append(s);
    proof {
        if v@.len() >= width {
            assert(k == v@.len());
            assert(pad =~= Seq::<char>::empty());
            assert(r@ =~= s@);
        } else {
            assert(k == width);
        }
    }
    r
}

// ---------------------------------------------------------------------------
// Lexicographic order (`str`'s `Ord`).
// ---------------------------------------------------------------------------

/// Lexicographic order of character sequences by code point (the order of
/// `str`'s `Ord`).
pub open spec fn lex_le(a: Seq<char>, b: Seq<char>) -> bool
    decreases a.len(),
{
    if a.len() == 0 {
        true
    } else if b.len() == 0 {
        false
    } else if (a[0] as int) < (b[0] as int) {
        true
    } else if a[0] == b[0] {
        lex_le(a.drop_first(), b.drop_first())
    } else {
        false
    }
}

/// Any two texts are ordered one way or the other.
pub proof fn lemma_lex_total(a: Seq<char>, b: Seq<char>)
    ensures
        lex_le(a, b) || lex_le(b, a),
    decreases a.len(),
{
    if a.len() > 0 && b.len() > 0 && a[0] == b[0] {
        lemma_lex_total(a.drop_first(), b.drop_first());
    }
}

/// The lexicographic order is transitive.
pub proof fn lemma_lex_trans(a: Seq<char>, b: Seq<char>, c: Seq<char>)
    requires
        lex_le(a, b),
        lex_le(b, c),
    ensures
        lex_le(a, c),
    decreases a.len(),
{
    if a.len() > 0 && b.len() > 0 && c.len() > 0 && a[0] == b[0] && b[0] == c[0] {
        lemma_lex_trans(a.drop_first(), b.drop_first(), c.drop_first());
    }
}

/// The lexicographic order is antisymmetric.
pub proof fn lemma_lex_antisym(a: Seq<char>, b: Seq<char>)
    requires
        lex_le(a, b),
        lex_le(b, a),
    ensures
        a == b,
    decreases a.len(),
{
    if a.len() > 0 && b.len() > 0 {
        lemma_lex_antisym(a.drop_first(), b.drop_first());
        assert(a =~= seq![a[0]] + a.drop_first());
        assert(b =~= seq![b[0]] + b.drop_first());
    }
}

/// Strict lexicographic order.
pub open spec fn lex_lt(a: Seq<char>, b: Seq<char>) -> bool {
    lex_le(a, b) && a != b
}

/// Executable `lex_le` on strings.
pub fn lex_le_exec(a: &String, b: &String) -> (r: bool)
    ensures
        r == lex_le(a@, b@),
{
    let va = chars_of(a.as_str());
    let vb = chars_of(b.as_str());
    let mut i: usize = 0;
    assert(a@.skip(0) == a@ && b@.skip(0) == b@);
    while i < va.len() && i < vb.len() && va[i] == vb[i]
        invariant
            va@ == a@,
            vb@ == b@,
            i <= va@.len(),
            i <= vb@.len(),
            lex_le(a@, b@) == lex_le(a@.skip(i as int), b@.skip(i as int)),
        decreases va.len() - i,
    {
        proof {
            assert(a@.skip(i as int).drop_first() == a@.skip(i + 1));
            assert(b@.skip(i as int).drop_first() == b@.skip(i + 1));
        }
        i = i + 1;
    }
    if i == va.len() {
        true
    } else if i == vb.len() {
        false
    } else {
        va[i] < vb[i]
    }
}

/// The strict lexicographic order is transitive.
pub proof fn lemma_lex_lt_trans(a: Seq<char>, b: Seq<char>, c: Seq<char>)
    requires
        lex_lt(a, b),
        lex_lt(b, c),
    ensures
        lex_lt(a, c),
{
    lemma_lex_trans(a, b, c);
    if a == c {
        lemma_lex_antisym(a, b);
    }
}

/// Executable `lex_lt` on strings.
pub fn lex_lt_exec(a: &String, b: &String) -> (r: bool)
    ensures
        r == lex_lt(a@, b@),
{
    lex_le_exec(a, b) && !same_text(a, b.as_str())
}

/// A word of ASCII characters without white space, upper-case letters or
/// the separator `sep`.
pub open spec fn plain_word(w: Seq<char>, sep: char) -> bool {
    forall|i: int|
        0 <= i < w.len() ==> {
            &&& (#[trigger] w[i] as int) < 128
            &&& !is_white_space(w[i])
            &&& !('A' <= w[i] && w[i] <= 'Z')
            &&& w[i] != sep
        }
}

/// Trimming, lower-casing and splitting leave a plain word as it is: trimmed
/// and lower-cased it is itself, and split on `sep` it is its only piece.
pub proof fn lemma_plain_word(w: Seq<char>, sep: char)
    requires
        plain_word(w, sep),
    ensures
        trim_spec(w) == w,
        lowercase_text(w) == w,
        split_spec(w, sep) == seq![w],
{
    if w.len() > 0 {
        assert(!is_white_space(w[0]));
        assert(!is_white_space(w.last()));
    }
    assert(leading_white(w) == 0);
    assert(w.skip(0) =~= w);
    assert(trailing_white(w) == 0);
    assert(w.take(w.len() as int) =~= w);
    assert(all_ascii(w));
    assert(w.map_values(|c: char| ascii_lower(c)) =~= w);
    lemma_find_from(w, sep, 0);
    if find_from(w, sep, 0) < w.len() {
        assert(w[find_from(w, sep, 0)] != sep);
    }
    assert(w.subrange(0, w.len() as int) =~= w);
}

} // verus!
