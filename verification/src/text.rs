//! Character-level text primitives with their mathematical specifications.
//!
//! Every string is modelled as its sequence of Unicode scalar values (`Seq<char>`).
use vstd::prelude::*;

verus! {

// ---------------------------------------------------------------------------
// Specifications
// ---------------------------------------------------------------------------
/// Unicode `White_Space` property (the set that `char::is_whitespace` tests).
pub open spec fn is_ws(c: char) -> bool {
    ||| c == '\t'
    ||| c == '\n'
    ||| c == '\u{0B}'
    ||| c == '\u{0C}'
    ||| c == '\r'
    ||| c == ' '
    ||| c == '\u{85}'
    ||| c == '\u{A0}'
    ||| c == '\u{1680}'
    ||| ('\u{2000}' <= c && c <= '\u{200A}')
    ||| c == '\u{2028}'
    ||| c == '\u{2029}'
    ||| c == '\u{202F}'
    ||| c == '\u{205F}'
    ||| c == '\u{3000}'
}

/// `s` with its leading whitespace removed.
pub open spec fn trim_start_seq(s: Seq<char>) -> Seq<char>
    decreases s.len(),
{
    if s.len() > 0 && is_ws(s[0]) {
        trim_start_seq(s.drop_first())
    } else {
        s
    }
}

/// `s` with its trailing whitespace removed.
pub open spec fn trim_end_seq(s: Seq<char>) -> Seq<char>
    decreases s.len(),
{
    if s.len() > 0 && is_ws(s.last()) {
        trim_end_seq(s.drop_last())
    } else {
        s
    }
}

/// `s` with leading and trailing whitespace removed (`str::trim`).
pub open spec fn trim_seq(s: Seq<char>) -> Seq<char> {
    trim_end_seq(trim_start_seq(s))
}

/// True when `s` holds only whitespace (`s.trim().is_empty()`).
pub open spec fn blank(s: Seq<char>) -> bool {
    trim_seq(s).len() == 0
}

/// ASCII lower-casing of one character (`char::to_ascii_lowercase`).
pub open spec fn lower_char(c: char) -> char {
    if 'A' <= c && c <= 'Z' {
        ((c as u32) + 32) as char
    } else {
        c
    }
}

/// ASCII lower-casing of a string (`str::to_ascii_lowercase`).
pub open spec fn lower_seq(s: Seq<char>) -> Seq<char> {
    s.map_values(|c: char| lower_char(c))
}

/// `str::eq_ignore_ascii_case`.
pub open spec fn eq_ignore_case(a: Seq<char>, b: Seq<char>) -> bool {
    lower_seq(a) == lower_seq(b)
}

/// `pat` occurs in `s` at position `i`.
pub open spec fn has_at(s: Seq<char>, pat: Seq<char>, i: int) -> bool {
    0 <= i && i + pat.len() <= s.len() && s.subrange(i, i + pat.len()) == pat
}

/// First occurrence of `pat` in `s` at or after `i`.
pub open spec fn find_from(s: Seq<char>, pat: Seq<char>, i: int) -> Option<int>
    decreases s.len() + 1 - i,
{
    if i < 0 || i + pat.len() > s.len() {
        None
    } else if has_at(s, pat, i) {
        Some(i)
    } else {
        find_from(s, pat, i + 1)
    }
}

/// First occurrence of `pat` in `s` (`str::find`).
pub open spec fn find_seq(s: Seq<char>, pat: Seq<char>) -> Option<int> {
    find_from(s, pat, 0)
}

/// `str::contains`.
pub open spec fn contains_seq(s: Seq<char>, pat: Seq<char>) -> bool {
    find_seq(s, pat) is Some
}

/// `str::starts_with`.
pub open spec fn starts_with(s: Seq<char>, p: Seq<char>) -> bool {
    p.len() <= s.len() && s.take(p.len() as int) == p
}

/// `str::ends_with`.
pub open spec fn ends_with(s: Seq<char>, p: Seq<char>) -> bool {
    p.len() <= s.len() && s.skip(s.len() - p.len()) == p
}

/// Left-to-right replacement of every non-overlapping occurrence of a non-empty
/// `pat` by `rep` (`str::replace`).
pub open spec fn replace_seq(s: Seq<char>, pat: Seq<char>, rep: Seq<char>) -> Seq<char>
    decreases s.len(),
{
    if pat.len() == 0 || s.len() < pat.len() {
        s
    } else if s.take(pat.len() as int) == pat {
        rep + replace_seq(s.skip(pat.len() as int), pat, rep)
    } else {
        seq![s[0]] + replace_seq(s.drop_first(), pat, rep)
    }
}

/// Character classes used to split text into fields.
#[derive(Clone, Copy, PartialEq, Eq, Debug)]
pub enum CharClass {
    /// Unicode whitespace.
    Whitespace,
    /// A single given character.
    Single(char),
    /// Newline or semicolon.
    NewlineOrSemicolon,
    /// Whitespace, `,`, `;`, `(` or `)`.
    AddressSeparators,
    /// `-`, `_` or a space.
    WordSeparators,
}

/// Membership of a character in a class.
pub open spec fn in_class(cls: CharClass, c: char) -> bool {
    match cls {
        CharClass::Whitespace => is_ws(c),
        CharClass::Single(d) => c == d,
        CharClass::NewlineOrSemicolon => c == '\n' || c == ';',
        CharClass::AddressSeparators => is_ws(c) || c == ',' || c == ';' || c == '(' || c == ')',
        CharClass::WordSeparators => c == '-' || c == '_' || c == ' ',
    }
}

/// First index at or after `i` holding a character of the class.
pub open spec fn find_class_from(s: Seq<char>, cls: CharClass, i: int) -> Option<int>
    decreases s.len() - i,
{
    if i < 0 || i >= s.len() {
        None
    } else if in_class(cls, s[i]) {
        Some(i)
    } else {
        find_class_from(s, cls, i + 1)
    }
}

/// The fields of `s` separated by single characters of the class, empty fields
/// included (`str::split` with a character predicate).
pub open spec fn fields(s: Seq<char>, cls: CharClass) -> Seq<Seq<char>>
    decreases s.len(),
{
    match find_class_from(s, cls, 0) {
        None => seq![s],
        Some(k) => if 0 <= k < s.len() {
            seq![s.take(k)] + fields(s.skip(k + 1), cls)
        } else {
            seq![s]
        },
    }
}

/// The non-empty members of a sequence of strings, in order.
pub open spec fn non_empty(ss: Seq<Seq<char>>) -> Seq<Seq<char>> {
    ss.filter(|w: Seq<char>| w.len() > 0)
}

/// `str::split_whitespace`.
pub open spec fn words(s: Seq<char>) -> Seq<Seq<char>> {
    non_empty(fields(s, CharClass::Whitespace))
}

/// `parts.join(sep)`.
pub open spec fn join_seq(parts: Seq<Seq<char>>, sep: Seq<char>) -> Seq<char>
    decreases parts.len(),
{
    if parts.len() == 0 {
        seq![]
    } else if parts.len() == 1 {
        parts[0]
    } else {
        join_seq(parts.drop_last(), sep) + sep + parts.last()
    }
}

/// The decimal digit character of `d < 10`.
pub open spec fn digit_char(d: nat) -> char {
    ((d + 48) as u32) as char
}

/// Decimal rendering of a natural number (`to_string` on an unsigned integer).
pub open spec fn dec(n: nat) -> Seq<char>
    decreases n,
{
    if n < 10 {
        seq![digit_char(n)]
    } else {
        dec(n / 10).push(digit_char(n % 10))
    }
}

/// Value of a hexadecimal digit, if `c` is one.
pub open spec fn hex_val(c: char) -> Option<nat> {
    if '0' <= c && c <= '9' {
        Some((c as nat - 48) as nat)
    } else if 'a' <= c && c <= 'f' {
        Some((c as nat - 87) as nat)
    } else if 'A' <= c && c <= 'F' {
        Some((c as nat - 55) as nat)
    } else {
        None
    }
}

/// Value of a non-empty run of hexadecimal digits (without bound).
pub open spec fn hex_digits_value(s: Seq<char>) -> Option<nat>
    decreases s.len(),
{
    if s.len() == 0 {
        Some(0)
    } else {
        match (hex_digits_value(s.drop_last()), hex_val(s.last())) {
            (Some(v), Some(d)) => Some(v * 16 + d),
            _ => None,
        }
    }
}

/// `usize::from_str_radix(s, 16)`: an optional `+`, then at least one hexadecimal
/// digit, with a value that fits in `usize`.
pub open spec fn parse_hex_usize(s: Seq<char>) -> Option<nat> {
    let digits = if s.len() > 0 && s[0] == '+' { s.drop_first() } else { s };
    if digits.len() == 0 {
        None
    } else {
        match hex_digits_value(digits) {
            Some(v) => if v <= usize::MAX { Some(v) } else { None },
            None => None,
        }
    }
}

// ---------------------------------------------------------------------------
// Lemmas
// ---------------------------------------------------------------------------
proof fn lemma_trim_start_skip(s: Seq<char>, i: int)
    requires
        0 <= i <= s.len(),
        forall|j: int| 0 <= j < i ==> is_ws(#[trigger] s[j]),
    ensures
        trim_start_seq(s) == trim_start_seq(s.skip(i)),
    decreases i,
{
    if i > 0 {
        assert(s.drop_first().skip(i - 1) =~= s.skip(i));
        assert forall|j: int| 0 <= j < i - 1 implies is_ws(#[trigger] s.drop_first()[j]) by {
            assert(s.drop_first()[j] == s[j + 1]);
        }
        lemma_trim_start_skip(s.drop_first(), i - 1);
    } else {
        assert(s.skip(0) =~= s);
    }
}

proof fn lemma_trim_end_take(s: Seq<char>, j: int)
    requires
        0 <= j <= s.len(),
        forall|k: int| j <= k < s.len() ==> is_ws(#[trigger] s[k]),
    ensures
        trim_end_seq(s) == trim_end_seq(s.take(j)),
    decreases s.len() - j,
{
    if j < s.len() {
        assert(s.drop_last().take(j) =~= s.take(j));
        assert forall|k: int| j <= k < s.drop_last().len() implies is_ws(
            #[trigger] s.drop_last()[k],
        ) by {
            assert(s.drop_last()[k] == s[k]);
        }
        lemma_trim_end_take(s.drop_last(), j);
    } else {
        assert(s.take(j) =~= s);
    }
}

/// A string that starts and ends with non-whitespace is its own trim.
pub proof fn lemma_trim_of_trimmed(s: Seq<char>)
    requires
        s.len() == 0 || (!is_ws(s[0]) && !is_ws(s.last())),
    ensures
        trim_seq(s) == s,
{
}

proof fn lemma_find_from_none(s: Seq<char>, pat: Seq<char>, i: int)
    requires
        0 <= i,
        forall|j: int| i <= j ==> !has_at(s, pat, j),
    ensures
        find_from(s, pat, i) is None,
    decreases s.len() + 1 - i,
{
    if i + pat.len() <= s.len() {
        lemma_find_from_none(s, pat, i + 1);
    }
}

/// A position that `find_from` reports holds the pattern.
pub proof fn lemma_find_from_some(s: Seq<char>, pat: Seq<char>, i: int)
    requires
        find_from(s, pat, i) is Some,
    ensures
        has_at(s, pat, find_from(s, pat, i).unwrap()),
        i <= find_from(s, pat, i).unwrap() <= s.len(),
    decreases s.len() + 1 - i,
{
    if i >= 0 && i + pat.len() <= s.len() && !has_at(s, pat, i) {
        lemma_find_from_some(s, pat, i + 1);
    }
}

/// A text holding the pattern at some position at or after `i` has it found there
/// or before.
pub proof fn lemma_has_at_found(s: Seq<char>, pat: Seq<char>, i: int, j: int)
    requires
        0 <= i <= j,
        has_at(s, pat, j),
    ensures
        find_from(s, pat, i) is Some,
    decreases j - i,
{
    if i < j && !has_at(s, pat, i) {
        lemma_has_at_found(s, pat, i + 1, j);
    }
}

proof fn lemma_find_from_skip(s: Seq<char>, pat: Seq<char>, i: int, k: int)
    requires
        0 <= i <= k,
        forall|j: int| i <= j < k ==> !has_at(s, pat, j),
    ensures
        find_from(s, pat, i) == find_from(s, pat, k),
    decreases k - i,
{
    if i < k {
        lemma_find_from_skip(s, pat, i + 1, k);
    }
}

proof fn lemma_find_class_skip(s: Seq<char>, cls: CharClass, i: int, k: int)
    requires
        0 <= i <= k <= s.len(),
        forall|j: int| i <= j < k ==> !in_class(cls, #[trigger] s[j]),
    ensures
        find_class_from(s, cls, i) == find_class_from(s, cls, k),
    decreases k - i,
{
    if i < k {
        lemma_find_class_skip(s, cls, i + 1, k);
    }
}

/// `fields` of a string made of a delimiter-free prefix, a delimiter, and a rest.
proof fn lemma_fields_cons(cur: Seq<char>, rest: Seq<char>, cls: CharClass)
    requires
        rest.len() > 0,
        in_class(cls, rest[0]),
        forall|j: int| 0 <= j < cur.len() ==> !in_class(cls, #[trigger] cur[j]),
    ensures
        fields(cur + rest, cls) == seq![cur] + fields(rest.drop_first(), cls),
{
    let s = cur + rest;
    assert forall|j: int| 0 <= j < cur.len() implies !in_class(cls, #[trigger] s[j]) by {
        assert(s[j] == cur[j]);
    }
    lemma_find_class_skip(s, cls, 0, cur.len() as int);
    assert(s[cur.len() as int] == rest[0]);
    assert(s.take(cur.len() as int) =~= cur);
    assert(s.skip(cur.len() as int + 1) =~= rest.drop_first());
}

proof fn lemma_fields_no_delim(cur: Seq<char>, cls: CharClass)
    requires
        forall|j: int| 0 <= j < cur.len() ==> !in_class(cls, #[trigger] cur[j]),
    ensures
        fields(cur, cls) == seq![cur],
{
    lemma_find_class_skip(cur, cls, 0, cur.len() as int);
}

/// The deep view of a character vector is its view.
pub proof fn lemma_chars_deep(v: Vec<char>)
    ensures
        v.deep_view() == v@,
{
    assert(v.deep_view() =~= v@);
}

proof fn lemma_non_empty_push(ss: Seq<Seq<char>>, w: Seq<char>)
    ensures
        non_empty(ss.push(w)) == if w.len() > 0 {
            non_empty(ss).push(w)
        } else {
            non_empty(ss)
        },
{
    reveal_with_fuel(Seq::filter, 1);
    assert(ss.push(w).drop_last() =~= ss);
}

proof fn lemma_non_empty_add(a: Seq<Seq<char>>, b: Seq<Seq<char>>)
    ensures
        non_empty(a + b) == non_empty(a) + non_empty(b),
{
    broadcast use Seq::filter_distributes_over_add;

}

// ---------------------------------------------------------------------------
// Conversions between strings and character vectors
// ---------------------------------------------------------------------------
/// The characters of a string slice.
pub fn chars_of(s: &str) -> (v: Vec<char>)
    ensures
        v@ == s@,
{
    let mut v: Vec<char> = Vec::new();
    for c in it: s.chars()
        invariant
            v@ == it.seq().take(it.index() as int),
    {
        v.push(c);
    }
    v
}

/// A string made of the given characters (std's `FromIterator<char>` for `String`).
#[verifier::external_body]
pub(crate) fn string_from_chars(chars: &[char]) -> (s: String)
    ensures
        s@ == chars@,
{
    chars.iter().collect()
}

/// A copy of a string slice as an owned string.
pub fn owned(s: &str) -> (r: String)
    ensures
        r@ == s@,
{
    s.to_owned()
}

/// Concatenation of two strings.
pub fn concat2(a: &str, b: &str) -> (r: String)
    ensures
        r@ == a@ + b@,
{
    let mut r = a.to_owned();
    r.append(b);
    r
}

/// Concatenation of three strings.
pub fn concat3(a: &str, b: &str, c: &str) -> (r: String)
    ensures
        r@ == a@ + b@ + c@,
{
    let mut r = a.to_owned();
    r.append(b);
    r.append(c);
    r
}

/// Concatenation of a list of strings.
pub fn concat_all(parts: &Vec<&str>) -> (r: String)
    ensures
        r@ == join_seq(parts@.map_values(|p: &str| p@), seq![]),
{
    let ghost views = parts@.map_values(|p: &str| p@);
    let mut r = String::new();
    let mut i: usize = 0;
    proof {
        assert(views.take(0) =~= Seq::<Seq<char>>::empty());
    }
    while i < parts.len()
        invariant
            i <= parts.len(),
            views == parts@.map_values(|p: &str| p@),
            r@ == join_seq(views.take(i as int), seq![]),
        decreases parts.len() - i,
    {
        let ghost prev = r@;
        r.append(parts[i]);
        proof {
            assert(views.take(i + 1).drop_last() =~= views.take(i as int));
            assert(views.take(i + 1).last() == parts@[i as int]@);
            if i > 0 {
                assert(r@ =~= join_seq(views.take(i as int), seq![]) + Seq::<char>::empty()
                    + views.take(i + 1).last());
            } else {
                assert(join_seq(views.take(0), seq![]) =~= Seq::<char>::empty());
                assert(r@ =~= views.take(1)[0]);
            }
        }
        i = i + 1;
    }
    proof {
        assert(views.take(parts.len() as int) =~= views);
    }
    r
}

// ---------------------------------------------------------------------------
// Whitespace
// ---------------------------------------------------------------------------
/// `char::is_whitespace`.
pub fn is_whitespace(c: char) -> (b: bool)
    ensures
        b == is_ws(c),
{
    c == '\t' || c == '\n' || c == '\u{0B}' || c == '\u{0C}' || c == '\r' || c == ' ' || c
        == '\u{85}' || c == '\u{A0}' || c == '\u{1680}' || ('\u{2000}' <= c && c <= '\u{200A}')
        || c == '\u{2028}' || c == '\u{2029}' || c == '\u{202F}' || c == '\u{205F}' || c
        == '\u{3000}'
}

/// Bounds of the trimmed part of `s`.
pub fn trim_bounds(s: &[char]) -> (r: (usize, usize))
    ensures
        r.0 <= r.1 <= s@.len(),
        s@.subrange(r.0 as int, r.1 as int) == trim_seq(s@),
        trim_start_seq(s@) == s@.skip(r.0 as int),
{
    let mut i: usize = 0;
    while i < s.len() && is_whitespace(s[i])
        invariant
            i <= s@.len(),
            forall|j: int| 0 <= j < i ==> is_ws(#[trigger] s@[j]),
        decreases s@.len() - i,
    {
        i = i + 1;
    }
    proof {
        lemma_trim_start_skip(s@, i as int);
    }
    let mut j: usize = s.len();
    let ghost t = s@.skip(i as int);
    while j > i && is_whitespace(s[j - 1])
        invariant
            i <= j <= s@.len(),
            t == s@.skip(i as int),
            forall|k: int| j - i <= k < t.len() ==> is_ws(#[trigger] t[k]),
        decreases j,
    {
        j = j - 1;
        assert(t[j - i] == s@[j as int]);
    }
    proof {
        lemma_trim_end_take(t, j - i);
        assert(t.take(j - i) =~= s@.subrange(i as int, j as int));
    }
    (i, j)
}

/// `str::trim`, as characters.
pub fn trim_chars(s: &[char]) -> (r: Vec<char>)
    ensures
        r@ == trim_seq(s@),
{
    let (a, b) = trim_bounds(s);
    slice_chars(s, a, b)
}

/// `str::trim`.
pub fn trim(s: &str) -> (r: String)
    ensures
        r@ == trim_seq(s@),
{
    let v = chars_of(s);
    let t = trim_chars(v.as_slice());
    string_from_chars(t.as_slice())
}

/// `s.trim().is_empty()`.
pub fn is_blank(s: &str) -> (b: bool)
    ensures
        b == blank(s@),
{
    let v = chars_of(s);
    let (a, b) = trim_bounds(v.as_slice());
    a == b
}

/// `s.trim().is_empty()` for characters.
pub fn is_blank_chars(s: &[char]) -> (b: bool)
    ensures
        b == blank(s@),
{
    let (a, b) = trim_bounds(s);
    a == b
}

/// A copy of `s[a..b]`.
pub fn slice_chars(s: &[char], a: usize, b: usize) -> (r: Vec<char>)
    requires
        a <= b <= s@.len(),
    ensures
        r@ == s@.subrange(a as int, b as int),
{
    let mut r: Vec<char> = Vec::new();
    let mut i = a;
    while i < b
        invariant
            a <= i <= b <= s@.len(),
            r@ == s@.subrange(a as int, i as int),
        decreases b - i,
    {
        r.push(s[i]);
        i = i + 1;
        assert(r@ =~= s@.subrange(a as int, i as int));
    }
    r
}

/// Appends a copy of `src` to `dst`.
pub fn extend_chars(dst: &mut Vec<char>, src: &[char])
    ensures
        final(dst)@ == old(dst)@ + src@,
{
    let mut i: usize = 0;
    let ghost start = dst@;
    while i < src.len()
        invariant
            i <= src@.len(),
            dst@ == start + src@.take(i as int),
        decreases src@.len() - i,
    {
        dst.push(src[i]);
        i = i + 1;
        assert(dst@ =~= start + src@.take(i as int));
    }
    assert(src@.take(src@.len() as int) =~= src@);
}

// ---------------------------------------------------------------------------
// Case
// ---------------------------------------------------------------------------
/// `char::to_ascii_lowercase`.
pub fn lower(c: char) -> (r: char)
    ensures
        r == lower_char(c),
{
    if 'A' <= c && c <= 'Z' {
        ((c as u8) + 32) as char
    } else {
        c
    }
}

/// `str::to_ascii_lowercase`, as characters.
pub fn lower_chars(s: &[char]) -> (r: Vec<char>)
    ensures
        r@ == lower_seq(s@),
{
    let mut r: Vec<char> = Vec::new();
    let mut i: usize = 0;
    while i < s.len()
        invariant
            i <= s@.len(),
            r@ == lower_seq(s@.take(i as int)),
        decreases s@.len() - i,
    {
        r.push(lower(s[i]));
        i = i + 1;
        assert(r@ =~= lower_seq(s@.take(i as int)));
    }
    assert(s@.take(s@.len() as int) =~= s@);
    r
}

/// `str::to_ascii_lowercase`.
pub fn to_ascii_lowercase(s: &str) -> (r: String)
    ensures
        r@ == lower_seq(s@),
{
    let v = chars_of(s);
    let l = lower_chars(v.as_slice());
    string_from_chars(l.as_slice())
}

/// `str::eq_ignore_ascii_case` for characters.
pub fn eq_ignore_case_chars(a: &[char], b: &[char]) -> (r: bool)
    ensures
        r == eq_ignore_case(a@, b@),
{
    if a.len() != b.len() {
        assert(lower_seq(a@).len() == a@.len());
        assert(lower_seq(b@).len() == b@.len());
        return false;
    }
    let mut i: usize = 0;
    while i < a.len()
        invariant
            a@.len() == b@.len(),
            i <= a@.len(),
            forall|j: int| 0 <= j < i ==> lower_char(#[trigger] a@[j]) == lower_char(b@[j]),
        decreases a@.len() - i,
    {
        if lower(a[i]) != lower(b[i]) {
            assert(lower_seq(a@)[i as int] != lower_seq(b@)[i as int]);
            return false;
        }
        i = i + 1;
    }
    assert(lower_seq(a@) =~= lower_seq(b@));
    true
}

/// `str::eq_ignore_ascii_case`.
pub fn eq_ignore_ascii_case(a: &str, b: &str) -> (r: bool)
    ensures
        r == eq_ignore_case(a@, b@),
{
    let va = chars_of(a);
    let vb = chars_of(b);
    eq_ignore_case_chars(va.as_slice(), vb.as_slice())
}

// ---------------------------------------------------------------------------
// Searching
// ---------------------------------------------------------------------------
/// Equality of two character slices.
pub fn chars_eq(a: &[char], b: &[char]) -> (r: bool)
    ensures
        r == (a@ == b@),
{
    if a.len() != b.len() {
        return false;
    }
    let mut i: usize = 0;
    while i < a.len()
        invariant
            a@.len() == b@.len(),
            i <= a@.len(),
            forall|j: int| 0 <= j < i ==> #[trigger] a@[j] == b@[j],
        decreases a@.len() - i,
    {
        if a[i] != b[i] {
            return false;
        }
        i = i + 1;
    }
    assert(a@ =~= b@);
    true
}

/// Equality of two strings.
pub fn str_eq(a: &str, b: &str) -> (r: bool)
    ensures
        r == (a@ == b@),
{
    let va = chars_of(a);
    let vb = chars_of(b);
    chars_eq(va.as_slice(), vb.as_slice())
}

/// Whether `pat` occurs in `s` at `i`.
pub fn matches_at(s: &[char], pat: &[char], i: usize) -> (r: bool)
    ensures
        r == has_at(s@, pat@, i as int),
{
    if i > s.len() || pat.len() > s.len() - i {
        return false;
    }
    let n = s.len();
    let mut k: usize = 0;
    while k < pat.len()
        invariant
            n == s@.len(),
            i + pat@.len() <= s@.len(),
            k <= pat@.len(),
            forall|j: int| 0 <= j < k ==> #[trigger] pat@[j] == s@[i + j],
        decreases pat@.len() - k,
    {
        if s[i + k] != pat[k] {
            assert(s@.subrange(i as int, i + pat@.len())[k as int] != pat@[k as int]);
            return false;
        }
        k = k + 1;
    }
    assert(s@.subrange(i as int, i + pat@.len()) =~= pat@);
    true
}

/// `str::find`, starting at `from`.
pub fn find_chars_from(s: &[char], pat: &[char], from: usize) -> (r: Option<usize>)
    ensures
        match find_from(s@, pat@, from as int) {
            Some(k) => r == Some(k as usize),
            None => r is None,
        },
{
    if from > s.len() {
        return None;
    }
    let mut i = from;
    while i < s.len()
        invariant
            from <= i <= s@.len(),
            forall|j: int| from <= j < i ==> !has_at(s@, pat@, j),
        decreases s@.len() - i,
    {
        if matches_at(s, pat, i) {
            proof {
                lemma_find_from_skip(s@, pat@, from as int, i as int);
            }
            return Some(i);
        }
        i = i + 1;
    }
    proof {
        lemma_find_from_skip(s@, pat@, from as int, i as int);
    }
    if matches_at(s, pat, i) {
        Some(i)
    } else {
        proof {
            lemma_find_from_none(s@, pat@, i as int);
        }
        None
    }
}

/// `str::find`.
pub fn find_chars(s: &[char], pat: &[char]) -> (r: Option<usize>)
    ensures
        match find_seq(s@, pat@) {
            Some(k) => r is Some && r.unwrap() as int == k,
            None => r is None,
        },
        r matches Some(k) ==> has_at(s@, pat@, k as int),
{
    let n = s.len();
    let r = find_chars_from(s, pat, 0);
    proof {
        if r is Some {
            lemma_find_from_some(s@, pat@, 0);
        }
    }
    r
}

/// `str::contains`.
pub fn contains_chars(s: &[char], pat: &[char]) -> (r: bool)
    ensures
        r == contains_seq(s@, pat@),
{
    find_chars(s, pat).is_some()
}

/// `str::contains` on strings.
pub fn contains(s: &str, pat: &str) -> (r: bool)
    ensures
        r == contains_seq(s@, pat@),
{
    let vs = chars_of(s);
    let vp = chars_of(pat);
    contains_chars(vs.as_slice(), vp.as_slice())
}

/// `str::starts_with`.
pub fn starts_with_chars(s: &[char], p: &[char]) -> (r: bool)
    ensures
        r == starts_with(s@, p@),
{
    let r = matches_at(s, p, 0);
    proof {
        if p@.len() <= s@.len() {
            assert(s@.subrange(0, p@.len() as int) =~= s@.take(p@.len() as int));
        }
    }
    r
}

/// `str::ends_with`.
pub fn ends_with_chars(s: &[char], p: &[char]) -> (r: bool)
    ensures
        r == ends_with(s@, p@),
{
    if p.len() > s.len() {
        return false;
    }
    let r = matches_at(s, p, s.len() - p.len());
    proof {
        assert(s@.subrange(s@.len() - p@.len(), s@.len() as int) =~= s@.skip(
            s@.len() - p@.len(),
        ));
    }
    r
}

/// `str::ends_with` on strings.
pub fn ends_with_str(s: &str, p: &str) -> (r: bool)
    ensures
        r == ends_with(s@, p@),
{
    let vs = chars_of(s);
    let vp = chars_of(p);
    ends_with_chars(vs.as_slice(), vp.as_slice())
}

/// `str::starts_with` on strings.
pub fn starts_with_str(s: &str, p: &str) -> (r: bool)
    ensures
        r == starts_with(s@, p@),
{
    let vs = chars_of(s);
    let vp = chars_of(p);
    starts_with_chars(vs.as_slice(), vp.as_slice())
}

// ---------------------------------------------------------------------------
// Replacing
// ---------------------------------------------------------------------------
/// `str::replace` for a non-empty pattern, as characters.
pub fn replace_chars(s: &[char], pat: &[char], rep: &[char]) -> (r: Vec<char>)
    requires
        pat@.len() > 0,
    ensures
        r@ == replace_seq(s@, pat@, rep@),
{
    let mut out: Vec<char> = Vec::new();
    let mut i: usize = 0;
    proof {
        assert(s@.skip(0) =~= s@);
    }
    while i < s.len()
        invariant
            pat@.len() > 0,
            i <= s@.len(),
            out@ + replace_seq(s@.skip(i as int), pat@, rep@) == replace_seq(s@, pat@, rep@),
        decreases s@.len() - i,
    {
        let ghost rest = s@.skip(i as int);
        if matches_at(s, pat, i) {
            proof {
                assert(rest.take(pat@.len() as int) =~= s@.subrange(i as int, i + pat@.len()));
                assert(rest.skip(pat@.len() as int) =~= s@.skip(i + pat@.len()));
                assert(out@ + rep@ + replace_seq(s@.skip(i + pat@.len()), pat@, rep@) =~= out@
                    + replace_seq(rest, pat@, rep@));
            }
            extend_chars(&mut out, rep);
            i = i + pat.len();
        } else {
            proof {
                if rest.len() >= pat@.len() {
                    assert(rest.take(pat@.len() as int) =~= s@.subrange(
                        i as int,
                        i + pat@.len(),
                    ));
                }
                assert(rest.drop_first() =~= s@.skip(i + 1));
                assert(rest[0] == s@[i as int]);
                assert(out@.push(s@[i as int]) + replace_seq(s@.skip(i + 1), pat@, rep@) =~= out@
                    + replace_seq(rest, pat@, rep@));
            }
            out.push(s[i]);
            i = i + 1;
        }
    }
    proof {
        assert(s@.skip(i as int) =~= Seq::<char>::empty());
        assert(out@ + Seq::<char>::empty() =~= out@);
    }
    out
}

/// `str::replace` on strings, for a non-empty pattern.
pub fn replace_str(s: &str, pat: &str, rep: &str) -> (r: String)
    requires
        pat@.len() > 0,
    ensures
        r@ == replace_seq(s@, pat@, rep@),
{
    let vs = chars_of(s);
    let vp = chars_of(pat);
    let vr = chars_of(rep);
    let out = replace_chars(vs.as_slice(), vp.as_slice(), vr.as_slice());
    string_from_chars(out.as_slice())
}

// ---------------------------------------------------------------------------
// Splitting and joining
// ---------------------------------------------------------------------------
/// Membership test for a character class.
pub fn in_class_exec(cls: CharClass, c: char) -> (b: bool)
    ensures
        b == in_class(cls, c),
{
    match cls {
        CharClass::Whitespace => is_whitespace(c),
        CharClass::Single(d) => c == d,
        CharClass::NewlineOrSemicolon => c == '\n' || c == ';',
        CharClass::AddressSeparators => is_whitespace(c) || c == ',' || c == ';' || c == '('
            || c == ')',
        CharClass::WordSeparators => c == '-' || c == '_' || c == ' ',
    }
}

/// The first index of a character of the class.
pub fn find_class(s: &[char], cls: CharClass) -> (r: Option<usize>)
    ensures
        match find_class_from(s@, cls, 0) {
            Some(k) => r == Some(k as usize),
            None => r is None,
        },
        match r {
            Some(i) => find_class_from(s@, cls, 0) == Some(i as int) && i < s@.len(),
            None => find_class_from(s@, cls, 0) is None,
        },
{
    let mut i: usize = 0;
    while i < s.len()
        invariant
            i <= s@.len(),
            forall|j: int| 0 <= j < i ==> !in_class(cls, #[trigger] s@[j]),
        decreases s@.len() - i,
    {
        if in_class_exec(cls, s[i]) {
            proof {
                lemma_find_class_skip(s@, cls, 0, i as int);
            }
            return Some(i);
        }
        i = i + 1;
    }
    proof {
        lemma_find_class_skip(s@, cls, 0, i as int);
    }
    None
}

/// `str::split` on a character class, empty fields included.
pub fn split_fields(s: &[char], cls: CharClass) -> (r: Vec<Vec<char>>)
    ensures
        r.deep_view() == fields(s@, cls),
{
    let mut out: Vec<Vec<char>> = Vec::new();
    let mut cur: Vec<char> = Vec::new();
    let mut i: usize = 0;
    proof {
        assert(s@.skip(0) =~= s@);
        assert(cur@ + s@ =~= s@);
    }
    while i < s.len()
        invariant
            i <= s@.len(),
            forall|j: int| 0 <= j < cur@.len() ==> !in_class(cls, #[trigger] cur@[j]),
            out.deep_view() + fields(cur@ + s@.skip(i as int), cls) == fields(s@, cls),
        decreases s@.len() - i,
    {
        let c = s[i];
        let ghost rest = s@.skip(i as int);
        assert(rest[0] == c);
        if in_class_exec(cls, c) {
            proof {
                lemma_fields_cons(cur@, rest, cls);
                assert(rest.drop_first() =~= s@.skip(i + 1));
                assert(Seq::<char>::empty() + s@.skip(i + 1) =~= s@.skip(i + 1));
            }
            let ghost old_out = out.deep_view();
            let ghost ov = out@;
            let ghost cv = cur.deep_view();
            proof { lemma_chars_deep(cur); }
            out.push(cur);
            cur = Vec::new();
            proof {
                assert(out@ == ov.push(out@.last()));
                assert(out.deep_view() =~= old_out.push(cv));
                assert(out.deep_view() + fields(cur@ + s@.skip(i + 1), cls) =~= old_out + (seq![
                    cv,
                ] + fields(s@.skip(i + 1), cls)));
            }
        } else {
            proof {
                assert(cur@ + rest =~= cur@.push(c) + s@.skip(i + 1));
            }
            cur.push(c);
        }
        i = i + 1;
    }
    proof {
        assert(s@.skip(i as int) =~= Seq::<char>::empty());
        assert(cur@ + Seq::<char>::empty() =~= cur@);
        lemma_fields_no_delim(cur@, cls);
    }
    let ghost old_out = out.deep_view();
    let ghost cv = cur.deep_view();
    proof { lemma_chars_deep(cur); }
    out.push(cur);
    assert(out.deep_view() =~= old_out.push(cv));
    out
}

/// The non-empty members of a list of fields.
pub fn keep_non_empty(ws: Vec<Vec<char>>) -> (r: Vec<Vec<char>>)
    ensures
        r.deep_view() == non_empty(ws.deep_view()),
{
    let mut out: Vec<Vec<char>> = Vec::new();
    let mut i: usize = 0;
    let ghost dv = ws.deep_view();
    proof {
        assert(dv.take(0) =~= Seq::<Seq<char>>::empty());
        reveal_with_fuel(Seq::filter, 1);
    }
    while i < ws.len()
        invariant
            i <= ws@.len(),
            dv == ws.deep_view(),
            out.deep_view() == non_empty(dv.take(i as int)),
        decreases ws@.len() - i,
    {
        proof {
            assert(dv.take(i + 1) =~= dv.take(i as int).push(dv[i as int]));
            lemma_non_empty_push(dv.take(i as int), dv[i as int]);
        }
        if ws[i].len() > 0 {
            let ghost old_out = out.deep_view();
            out.push(ws[i].clone());
            assert(out.deep_view() =~= old_out.push(dv[i as int]));
        }
        i = i + 1;
    }
    assert(dv.take(ws@.len() as int) =~= dv);
    out
}

/// `str::split_whitespace`, as character vectors.
pub fn split_words(s: &[char]) -> (r: Vec<Vec<char>>)
    ensures
        r.deep_view() == words(s@),
{
    let f = split_fields(s, CharClass::Whitespace);
    keep_non_empty(f)
}

/// `parts.join(sep)` for character vectors.
pub fn join_chars(parts: &Vec<Vec<char>>, sep: &[char]) -> (r: Vec<char>)
    ensures
        r@ == join_seq(parts.deep_view(), sep@),
{
    let mut out: Vec<char> = Vec::new();
    let mut i: usize = 0;
    let ghost dv = parts.deep_view();
    proof {
        assert(dv.take(0) =~= Seq::<Seq<char>>::empty());
    }
    while i < parts.len()
        invariant
            i <= parts@.len(),
            dv == parts.deep_view(),
            out@ == join_seq(dv.take(i as int), sep@),
        decreases parts@.len() - i,
    {
        proof {
            assert(dv.take(i + 1).drop_last() =~= dv.take(i as int));
            assert(dv.take(i + 1).last() == parts@[i as int]@);
        }
        if i > 0 {
            extend_chars(&mut out, sep);
        }
        extend_chars(&mut out, parts[i].as_slice());
        proof {
            if i == 0 {
                assert(out@ =~= dv.take(1)[0]);
            }
        }
        i = i + 1;
    }
    assert(dv.take(parts@.len() as int) =~= dv);
    out
}

// ---------------------------------------------------------------------------
// Numbers
// ---------------------------------------------------------------------------
proof fn lemma_dec_len(n: nat)
    ensures
        dec(n).len() >= 1,
    decreases n,
{
    if n >= 10 {
        lemma_dec_len(n / 10);
    }
}

/// Decimal digits of `n`, as characters.
pub fn dec_chars(n: u64) -> (r: Vec<char>)
    ensures
        r@ == dec(n as nat),
    decreases n,
{
    if n < 10 {
        let c = ((n as u8) + 48) as char;
        let mut r = Vec::new();
        r.push(c);
        assert(r@ =~= seq![digit_char(n as nat)]);
        r
    } else {
        let mut r = dec_chars(n / 10);
        let d = n % 10;
        let c = ((d as u8) + 48) as char;
        r.push(c);
        r
    }
}

/// Decimal rendering of an unsigned integer (`u64::to_string`).
pub fn dec_string(n: u64) -> (r: String)
    ensures
        r@ == dec(n as nat),
{
    let v = dec_chars(n);
    string_from_chars(v.as_slice())
}

/// Value of a hexadecimal digit.
pub fn hex_digit(c: char) -> (r: Option<u8>)
    ensures
        match hex_val(c) {
            Some(v) => r == Some(v as u8),
            None => r is None,
        },
{
    if '0' <= c && c <= '9' {
        Some((c as u32 - 48) as u8)
    } else if 'a' <= c && c <= 'f' {
        Some((c as u32 - 87) as u8)
    } else if 'A' <= c && c <= 'F' {
        Some((c as u32 - 55) as u8)
    } else {
        None
    }
}

proof fn lemma_hex_digits_value_prefix(s: Seq<char>, i: int)
    requires
        0 <= i <= s.len(),
        hex_digits_value(s.take(i)) is None,
    ensures
        hex_digits_value(s) is None,
    decreases s.len() - i,
{
    if i < s.len() {
        assert(s.take(i + 1).drop_last() =~= s.take(i));
        lemma_hex_digits_value_prefix(s, i + 1);
    } else {
        assert(s.take(i) =~= s);
    }
}

proof fn lemma_hex_digits_value_mono(s: Seq<char>, i: int)
    requires
        0 <= i <= s.len(),
        hex_digits_value(s) is Some,
    ensures
        hex_digits_value(s.take(i)) is Some,
        hex_digits_value(s.take(i)).unwrap() <= hex_digits_value(s).unwrap(),
    decreases s.len() - i,
{
    if i < s.len() {
        assert(s.take(s.len() - 1) =~= s.drop_last());
        assert(s.drop_last().take(i) =~= s.take(i));
        lemma_hex_digits_value_mono(s.drop_last(), i);
    } else {
        assert(s.take(i) =~= s);
    }
}

/// The value of a run of hexadecimal digits, when it fits in `usize`.
fn hex_run_value(d: &[char]) -> (r: Option<usize>)
    ensures
        match hex_digits_value(d@) {
            Some(v) => if v <= usize::MAX {
                r == Some(v as usize)
            } else {
                r is None
            },
            None => r is None,
        },
{
    let mut value: usize = 0;
    let mut i: usize = 0;
    proof {
        assert(d@.take(0) =~= Seq::<char>::empty());
    }
    while i < d.len()
        invariant
            i <= d@.len(),
            hex_digits_value(d@.take(i as int)) == Some(value as nat),
        decreases d@.len() - i,
    {
        proof {
            assert(d@.take(i + 1).drop_last() =~= d@.take(i as int));
            assert(d@.take(i + 1).last() == d@[i as int]);
        }
        match hex_digit(d[i]) {
            None => {
                proof {
                    assert(hex_digits_value(d@.take(i + 1)) is None);
                    lemma_hex_digits_value_prefix(d@, i + 1);
                }
                return None;
            },
            Some(x) => {
                if value > (usize::MAX - x as usize) / 16 {
                    proof {
                        assert(value as nat * 16 + x as nat > usize::MAX) by (nonlinear_arith)
                            requires
                                value > (usize::MAX - x as usize) / 16,
                                x < 16,
                        ;
                        assert(hex_digits_value(d@.take(i + 1)) == Some(
                            value as nat * 16 + x as nat,
                        ));
                        if hex_digits_value(d@) is Some {
                            lemma_hex_digits_value_mono(d@, i + 1);
                        }
                    }
                    return None;
                }
                assert(value * 16 + x as usize <= usize::MAX) by (nonlinear_arith)
                    requires
                        value <= (usize::MAX - x as usize) / 16,
                ;
                value = value * 16 + x as usize;
            },
        }
        i = i + 1;
    }
    assert(d@.take(d@.len() as int) =~= d@);
    Some(value)
}

/// `usize::from_str_radix(s, 16)`, with `None` for every error.
pub fn parse_hex(s: &[char]) -> (r: Option<usize>)
    ensures
        match parse_hex_usize(s@) {
            Some(v) => r == Some(v as usize),
            None => r is None,
        },
{
    let start: usize = if s.len() > 0 && s[0] == '+' { 1 } else { 0 };
    if start >= s.len() {
        return None;
    }
    let digits = slice_chars(s, start, s.len());
    proof {
        if start == 1 {
            assert(digits@ =~= s@.drop_first());
        } else {
            assert(digits@ =~= s@);
        }
    }
    hex_run_value(digits.as_slice())
}


// ---------------------------------------------------------------------------
// Words and their joining
// ---------------------------------------------------------------------------
proof fn lemma_find_class(s: Seq<char>, cls: CharClass, i: int)
    requires
        0 <= i,
    ensures
        find_class_from(s, cls, i) matches Some(k) ==> i <= k < s.len() && in_class(cls, s[k]) && forall|j: int|
            i <= j < k ==> !in_class(cls, #[trigger] s[j]),
        find_class_from(s, cls, i) is None ==> forall|j: int| i <= j < s.len() ==> !in_class(cls, #[trigger] s[j]),
    decreases s.len() - i,
{
    if i < s.len() && !in_class(cls, s[i]) {
        lemma_find_class(s, cls, i + 1);
    }
}

/// No field of a text holds a character of the class it was split on.
pub proof fn lemma_fields_plain(s: Seq<char>, cls: CharClass)
    ensures
        forall|k: int, j: int|
            0 <= k < fields(s, cls).len() && 0 <= j < fields(s, cls)[k].len() ==> !in_class(
                cls,
                #[trigger] fields(s, cls)[k][j],
            ),
    decreases s.len(),
{
    lemma_find_class(s, cls, 0);
    match find_class_from(s, cls, 0) {
        None => {},
        Some(k) => {
            lemma_fields_plain(s.skip(k + 1), cls);
            let f = fields(s, cls);
            let rest = fields(s.skip(k + 1), cls);
            assert(f == seq![s.take(k)] + rest);
            assert forall|a: int, j: int| 0 <= a < f.len() && 0 <= j < f[a].len() implies !in_class(
                cls,
                #[trigger] f[a][j],
            ) by {
                if a == 0 {
                    assert(f[0] == s.take(k));
                    assert(f[0][j] == s[j]);
                } else {
                    assert(f[a] == rest[a - 1]);
                }
            }
        },
    }
}

proof fn lemma_non_empty_members(ss: Seq<Seq<char>>)
    ensures
        forall|k: int| 0 <= k < non_empty(ss).len() ==> (#[trigger] non_empty(ss)[k]).len() > 0 && exists|a: int|
            0 <= a < ss.len() && ss[a] == non_empty(ss)[k],
    decreases ss.len(),
{
    if ss.len() > 0 {
        let d = ss.drop_last();
        lemma_non_empty_members(d);
        lemma_non_empty_push(d, ss.last());
        assert(d.push(ss.last()) =~= ss);
        let n = non_empty(ss);
        let nd = non_empty(d);
        assert forall|k: int| 0 <= k < n.len() implies (#[trigger] n[k]).len() > 0 && exists|a: int|
            0 <= a < ss.len() && ss[a] == n[k] by {
            if k < nd.len() {
                assert(n[k] == nd[k]);
                let a = choose|a: int| 0 <= a < d.len() && d[a] == nd[k];
                assert(ss[a] == d[a]);
            } else {
                assert(n[k] == ss.last());
                assert(ss[ss.len() - 1] == ss.last());
            }
        }
    } else {
        reveal_with_fuel(Seq::filter, 1);
    }
}

/// The words of a text are non-empty and hold no whitespace.
pub proof fn lemma_words_plain(s: Seq<char>)
    ensures
        forall|k: int| 0 <= k < words(s).len() ==> (#[trigger] words(s)[k]).len() > 0,
        forall|k: int, j: int| 0 <= k < words(s).len() && 0 <= j < words(s)[k].len() ==> !is_ws(#[trigger] words(s)[k][j]),
{
    let f = fields(s, CharClass::Whitespace);
    lemma_fields_plain(s, CharClass::Whitespace);
    lemma_non_empty_members(f);
    assert forall|k: int, j: int| 0 <= k < words(s).len() && 0 <= j < words(s)[k].len() implies !is_ws(
        #[trigger] words(s)[k][j],
    ) by {
        assert((words(s)[k]).len() > 0);
        let a = choose|a: int| 0 <= a < f.len() && f[a] == words(s)[k];
        assert(!in_class(CharClass::Whitespace, f[a][j]));
    }
}

/// A join of two or more parts starts with the first part and the separator.
pub proof fn lemma_join_first(t: Seq<Seq<char>>, sep: Seq<char>)
    requires
        t.len() >= 2,
    ensures
        join_seq(t, sep) == t[0] + sep + join_seq(t.skip(1), sep),
    decreases t.len(),
{
    if t.len() == 2 {
        assert(t.drop_last().len() == 1);
        assert(t.skip(1).len() == 1);
        assert(join_seq(t.drop_last(), sep) == t[0]);
        assert(join_seq(t.skip(1), sep) == t[1]);
        assert(t[0] + sep + t[1] =~= t[0] + sep + join_seq(t.skip(1), sep));
    } else {
        let d = t.drop_last();
        lemma_join_first(d, sep);
        assert(d.skip(1) =~= t.skip(1).drop_last());
        assert(t.skip(1).last() == t.last());
        assert(join_seq(t, sep) =~= t[0] + sep + join_seq(t.skip(1), sep));
    }
}

proof fn lemma_fields_of_join(t: Seq<Seq<char>>)
    requires
        t.len() >= 1,
        forall|k: int, j: int| 0 <= k < t.len() && 0 <= j < t[k].len() ==> !is_ws(#[trigger] t[k][j]),
    ensures
        fields(join_seq(t, " "@), CharClass::Whitespace) == t,
    decreases t.len(),
{
    reveal_strlit(" ");
    assert forall|j: int| 0 <= j < t[0].len() implies !in_class(CharClass::Whitespace, #[trigger] t[0][j]) by {}
    if t.len() == 1 {
        lemma_fields_no_delim(t[0], CharClass::Whitespace);
        assert(fields(t[0], CharClass::Whitespace) =~= t);
    } else {
        let tail = t.skip(1);
        assert forall|k: int, j: int| 0 <= k < tail.len() && 0 <= j < tail[k].len() implies !is_ws(#[trigger] tail[k][j]) by {
            assert(tail[k] == t[k + 1]);
        }
        lemma_fields_of_join(tail);
        lemma_join_first(t, " "@);
        let rest = " "@ + join_seq(tail, " "@);
        assert(rest[0] == ' ');
        lemma_fields_cons(t[0], rest, CharClass::Whitespace);
        assert(t[0] + " "@ + join_seq(tail, " "@) =~= t[0] + rest);
        assert(rest.drop_first() =~= join_seq(tail, " "@));
        assert(seq![t[0]] + tail =~= t);
    }
}

proof fn lemma_non_empty_all(t: Seq<Seq<char>>)
    requires
        forall|k: int| 0 <= k < t.len() ==> (#[trigger] t[k]).len() > 0,
    ensures
        non_empty(t) == t,
    decreases t.len(),
{
    if t.len() > 0 {
        let d = t.drop_last();
        assert forall|k: int| 0 <= k < d.len() implies (#[trigger] d[k]).len() > 0 by {
            assert(d[k] == t[k]);
        }
        lemma_non_empty_all(d);
        lemma_non_empty_push(d, t.last());
        assert(d.push(t.last()) =~= t);
    } else {
        reveal_with_fuel(Seq::filter, 1);
        assert(non_empty(t) =~= t);
    }
}

/// Words joined by single spaces split back into the same words.
pub proof fn lemma_words_of_join(t: Seq<Seq<char>>)
    requires
        t.len() >= 1,
        forall|k: int| 0 <= k < t.len() ==> (#[trigger] t[k]).len() > 0,
        forall|k: int, j: int| 0 <= k < t.len() && 0 <= j < t[k].len() ==> !is_ws(#[trigger] t[k][j]),
    ensures
        words(join_seq(t, " "@)) == t,
{
    lemma_fields_of_join(t);
    lemma_non_empty_all(t);
}

/// The first `:` of a text whose first `k` characters hold none, and whose `k`-th
/// is one, is at `k`.
pub proof fn lemma_first_colon(s: Seq<char>, k: int)
    requires
        0 <= k < s.len(),
        s[k] == ':',
        forall|j: int| 0 <= j < k ==> #[trigger] s[j] != ':',
    ensures
        find_seq(s, ":"@) == Some(k),
{
    reveal_strlit(":");
    assert forall|j: int| 0 <= j < k implies !has_at(s, ":"@, j) by {
        assert(s.subrange(j, j + 1)[0] == s[j]);
    }
    lemma_find_from_skip(s, ":"@, 0, k);
    assert(s.subrange(k, k + 1) =~= ":"@);
}

/// The decimal digits of a number hold no whitespace and no `:`, and there is at
/// least one.
pub proof fn lemma_dec_plain(n: nat)
    ensures
        dec(n).len() >= 1,
        forall|j: int| 0 <= j < dec(n).len() ==> '0' <= #[trigger] dec(n)[j] && dec(n)[j] <= '9',
    decreases n,
{
    if n >= 10 {
        lemma_dec_plain(n / 10);
        assert forall|j: int| 0 <= j < dec(n).len() implies '0' <= #[trigger] dec(n)[j] && dec(n)[j] <= '9' by {
            if j < dec(n / 10).len() {
                assert(dec(n)[j] == dec(n / 10)[j]);
            } else {
                assert(dec(n)[j] == digit_char(n % 10));
            }
        }
    }
}

/// Before the position `find_from` reports, the pattern does not occur.
pub proof fn lemma_find_first(s: Seq<char>, pat: Seq<char>, i: int)
    requires
        0 <= i,
    ensures
        find_from(s, pat, i) matches Some(k) ==> forall|j: int| i <= j < k ==> !has_at(s, pat, j),
    decreases s.len() + 1 - i,
{
    if i + pat.len() <= s.len() && !has_at(s, pat, i) {
        lemma_find_first(s, pat, i + 1);
    }
}
} // verus!
