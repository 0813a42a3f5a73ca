use vstd::prelude::*;

use crate::measures::Measure;

verus! {

use vstd::string::to_string_from_display_ensures;

/// The kinds of characters that parsing strips or looks for.
#[derive(Clone, Copy, PartialEq, Eq, Debug)]
pub enum CharClass {
    Space,
    Paren,
    NotSeparator,
}

/// The glyph between the value and the error.
pub open spec fn separator() -> char {
    '\u{b1}'
}

/// Unicode white space, the characters that `char::is_whitespace` accepts.
pub open spec fn is_space(c: char) -> bool {
    let u = c as u32;
    ||| 0x09 <= u <= 0x0d
    ||| u == 0x20
    ||| u == 0x85
    ||| u == 0xa0
    ||| u == 0x1680
    ||| 0x2000 <= u <= 0x200a
    ||| u == 0x2028
    ||| u == 0x2029
    ||| u == 0x202f
    ||| u == 0x205f
    ||| u == 0x3000
}

pub open spec fn in_class(c: char, k: CharClass) -> bool {
    match k {
        CharClass::Space => is_space(c),
        CharClass::Paren => c == '(' || c == ')',
        CharClass::NotSeparator => c != separator(),
    }
}

/// How many characters at the start of `s` are of class `k`.
pub open spec fn count_leading(s: Seq<char>, k: CharClass) -> nat
    decreases s.len(),
{
    if s.len() > 0 && in_class(s[0], k) {
        1 + count_leading(s.drop_first(), k)
    } else {
        0
    }
}

/// How many characters at the end of `s` are of class `k`.
pub open spec fn count_trailing(s: Seq<char>, k: CharClass) -> nat
    decreases s.len(),
{
    if s.len() > 0 && in_class(s.last(), k) {
        1 + count_trailing(s.drop_last(), k)
    } else {
        0
    }
}

/// `s` without the characters of class `k` at either end.
pub open spec fn trim_class(s: Seq<char>, k: CharClass) -> Seq<char> {
    let t = s.subrange(count_leading(s, k) as int, s.len() as int);
    t.subrange(0, t.len() - count_trailing(t, k))
}

/// The text inside the outer white space and parentheses.
pub open spec fn body(s: Seq<char>) -> Seq<char> {
    trim_class(trim_class(s, CharClass::Space), CharClass::Paren)
}

/// Where the first separator stands in the body (its length if there is none).
pub open spec fn separator_at(s: Seq<char>) -> int {
    count_leading(body(s), CharClass::NotSeparator) as int
}

pub open spec fn has_separator(s: Seq<char>) -> bool {
    separator_at(s) < body(s).len()
}

/// The text of the value: what precedes the first separator, trimmed.
pub open spec fn value_text(s: Seq<char>) -> Seq<char> {
    trim_class(body(s).subrange(0, separator_at(s)), CharClass::Space)
}

/// The text of the error: what follows the first separator, up to a second
/// one or the end, trimmed.
pub open spec fn error_text(s: Seq<char>) -> Seq<char> {
    let rest = body(s).subrange(separator_at(s) + 1, body(s).len() as int);
    trim_class(rest.subrange(0, count_leading(rest, CharClass::NotSeparator) as int), CharClass::Space)
}

/// The text of a measure whose components read `v` and `e`.
pub open spec fn formatted(v: Seq<char>, e: Seq<char>) -> Seq<char> {
    v + seq![' ', separator(), ' '] + e
}

proof fn lemma_count_leading(s: Seq<char>, k: CharClass, n: int)
    requires
        0 <= n <= s.len(),
        forall|j: int| 0 <= j < n ==> in_class(#[trigger] s[j], k),
        n == s.len() || !in_class(s[n], k),
    ensures
        count_leading(s, k) == n,
    decreases n,
{
    if n > 0 {
        lemma_count_leading(s.drop_first(), k, n - 1);
    }
}

proof fn lemma_count_trailing(s: Seq<char>, k: CharClass, n: int)
    requires
        0 <= n <= s.len(),
        forall|j: int| s.len() - n <= j < s.len() ==> in_class(#[trigger] s[j], k),
        n == s.len() || !in_class(s[s.len() - n - 1], k),
    ensures
        count_trailing(s, k) == n,
    decreases n,
{
    if n > 0 {
        lemma_count_trailing(s.drop_last(), k, n - 1);
    }
}

fn class_member(c: char, k: CharClass) -> (r: bool)
    ensures
        r == in_class(c, k),
{
    let u = c as u32;
    match k {
        CharClass::Space => {
            (0x09 <= u && u <= 0x0d) || u == 0x20 || u == 0x85 || u == 0xa0 || u == 0x1680 || (
            0x2000 <= u && u <= 0x200a) || u == 0x2028 || u == 0x2029 || u == 0x202f || u == 0x205f
                || u == 0x3000
        },
        CharClass::Paren => c == '(' || c == ')',
        CharClass::NotSeparator => c != '\u{b1}',
    }
}

/// The first position at or after `lo`, and before `hi`, whose character is
/// not of class `k` (`hi` if there is none).
fn skip_leading(s: &str, lo: usize, hi: usize, k: CharClass) -> (r: usize)
    requires
        lo <= hi <= s@.len(),
    ensures
        lo <= r <= hi,
        r - lo == count_leading(s@.subrange(lo as int, hi as int), k),
{
    let mut i: usize = lo;
    while i < hi && class_member(s.get_char(i), k)
        invariant
            lo <= i <= hi,
            hi <= s@.len(),
            forall|j: int| lo <= j < i ==> in_class(#[trigger] s@[j], k),
        decreases hi - i,
    {
        i = i + 1;
    }
    proof {
        let t = s@.subrange(lo as int, hi as int);
        assert forall|j: int| 0 <= j < i - lo implies in_class(#[trigger] t[j], k) by {
            assert(t[j] == s@[lo + j]);
        }
        lemma_count_leading(t, k, i - lo);
    }
    i
}

/// The last position after `lo`, and at or before `hi`, that follows a
/// character not of class `k` (`lo` if there is none).
fn skip_trailing(s: &str, lo: usize, hi: usize, k: CharClass) -> (r: usize)
    requires
        lo <= hi <= s@.len(),
    ensures
        lo <= r <= hi,
        hi - r == count_trailing(s@.subrange(lo as int, hi as int), k),
{
    let mut i: usize = hi;
    while i > lo && class_member(s.get_char(i - 1), k)
        invariant
            lo <= i <= hi,
            hi <= s@.len(),
            forall|j: int| i <= j < hi ==> in_class(#[trigger] s@[j], k),
        decreases i - lo,
    {
        i = i - 1;
    }
    proof {
        let t = s@.subrange(lo as int, hi as int);
        assert forall|j: int| t.len() - (hi - i) <= j < t.len() implies in_class(
            #[trigger] t[j],
            k,
        ) by {
            assert(t[j] == s@[lo + j]);
        }
        lemma_count_trailing(t, k, hi - i);
    }
    i
}

/// The bounds of `s[lo..hi]` without the characters of class `k` at either end.
fn trim_range(s: &str, lo: usize, hi: usize, k: CharClass) -> (r: (usize, usize))
    requires
        lo <= hi <= s@.len(),
    ensures
        lo <= r.0 <= r.1 <= hi,
        s@.subrange(r.0 as int, r.1 as int) == trim_class(s@.subrange(lo as int, hi as int), k),
{
    let a = skip_leading(s, lo, hi, k);
    let b = skip_trailing(s, a, hi, k);
    proof {
        let t = s@.subrange(lo as int, hi as int);
        assert(t.subrange(count_leading(t, k) as int, t.len() as int) =~= s@.subrange(
            a as int,
            hi as int,
        ));
        assert(trim_class(t, k) =~= s@.subrange(a as int, b as int));
    }
    (a, b)
}

/// The texts of the value and of the error in `s`, or `None` when `s` has no
/// separator.
pub fn split_parts(s: &str) -> (r: Option<(&str, &str)>)
    ensures
        r is Some <==> has_separator(s@),
        r matches Some(p) ==> p.0@ == value_text(s@) && p.1@ == error_text(s@),
{
    let n = s.unicode_len();
    let (lo0, hi0) = trim_range(s, 0, n, CharClass::Space);
    let (lo, hi) = trim_range(s, lo0, hi0, CharClass::Paren);
    let sep = skip_leading(s, lo, hi, CharClass::NotSeparator);
    proof {
        assert(s@.subrange(0, n as int) =~= s@);
        assert(s@.subrange(lo as int, hi as int) == body(s@));
    }
    if sep == hi {
        return None;
    }
    let (vlo, vhi) = trim_range(s, lo, sep, CharClass::Space);
    let end = skip_leading(s, sep + 1, hi, CharClass::NotSeparator);
    let (elo, ehi) = trim_range(s, sep + 1, end, CharClass::Space);
    proof {
        let b = body(s@);
        assert(b.subrange(0, separator_at(s@)) =~= s@.subrange(lo as int, sep as int));
        let rest = b.subrange(separator_at(s@) + 1, b.len() as int);
        assert(rest =~= s@.subrange(sep + 1, hi as int));
        assert(rest.subrange(0, count_leading(rest, CharClass::NotSeparator) as int) =~= s@.subrange(
            sep + 1,
            end as int,
        ));
    }
    Some((s.substring_char(vlo, vhi), s.substring_char(elo, ehi)))
}

/// Why a text could not be read as a measure.
#[derive(Clone, PartialEq, Eq, Debug)]
pub enum ParseError<E> {
    /// The text holds no separator between a value and an error.
    MissingSeparator,
    /// The value's text was refused by the component type's parser.
    Value(E),
    /// The error's text was refused by the component type's parser.
    Error(E),
}

/// The measure, or the error, that the outcomes of reading the value's text
/// and the error's text make: a failure of the value comes first.
pub open spec fn combined<T, E>(value: Result<T, E>, error: Result<T, E>) -> Result<
    Measure<T>,
    ParseError<E>,
> {
    match (value, error) {
        (Ok(v), Ok(e)) => Ok(Measure { value: v, error: e }),
        (Err(x), _) => Err(ParseError::Value(x)),
        (Ok(_), Err(x)) => Err(ParseError::Error(x)),
    }
}

pub fn combine_components<T, E>(value: Result<T, E>, error: Result<T, E>) -> (r: Result<
    Measure<T>,
    ParseError<E>,
>)
    ensures
        r == combined(value, error),
{
    match value {
        Err(x) => Err(ParseError::Value(x)),
        Ok(v) => match error {
            Ok(e) => Ok(Measure { value: v, error: e }),
            Err(x) => Err(ParseError::Error(x)),
        },
    }
}

impl<T> Measure<T> {
    /// Reads `value \u{b1} error`, with optional white space around either
    /// component and around the whole, and optional enclosing parentheses.
    /// Each component's text is handed to `read` (for instance
    /// `str::parse::<f64>`), and a failure there names the component.
    pub fn parse_with<E, F: Fn(&str) -> Result<T, E>>(s: &str, read: F) -> (r: Result<
        Measure<T>,
        ParseError<E>,
    >)
        requires
            forall|t: &str| read.requires((t,)),
        ensures
            !has_separator(s@) <==> r == Err::<Measure<T>, ParseError<E>>(
                ParseError::MissingSeparator,
            ),
            has_separator(s@) ==> exists|v: &str, e: &str, rv: Result<T, E>, re: Result<T, E>|
                #[trigger] read.ensures((v,), rv) && #[trigger] read.ensures((e,), re) && v@
                    == value_text(s@) && e@ == error_text(s@) && r == combined(rv, re),
    {
        match split_parts(s) {
            None => Err(ParseError::MissingSeparator),
            Some((v, e)) => {
                let value = read(v);
                let error = read(e);
                combine_components(value, error)
            },
        }
    }
}

impl<T: core::fmt::Display> Measure<T> {
    /// `value \u{b1} error`, each component as `T` displays it.
    pub fn to_string(&self) -> (r: String)
        ensures
            exists|v: String, e: String|
                #[trigger] to_string_from_display_ensures::<T>(&self.value, v)
                    && #[trigger] to_string_from_display_ensures::<T>(&self.error, e)
                    && r@ == formatted(v@, e@),
    {
        let v = self.value.to_string();
        let e = self.error.to_string();
        let mut out = v.clone();
        out.append(" \u{b1} ");
        out.append(e.as_str());
        proof {
            reveal_strlit(" \u{b1} ");
            assert(out@ =~= formatted(v@, e@));
        }
        out
    }
}

/// A component text that reads back unchanged: not empty, without a
/// separator, and neither starting nor ending with white space or a
/// parenthesis.
pub open spec fn plain_text(t: Seq<char>) -> bool {
    &&& t.len() > 0
    &&& !in_class(t[0], CharClass::Space)
    &&& !in_class(t[0], CharClass::Paren)
    &&& !in_class(t.last(), CharClass::Space)
    &&& !in_class(t.last(), CharClass::Paren)
    &&& forall|j: int| 0 <= j < t.len() ==> in_class(#[trigger] t[j], CharClass::NotSeparator)
}

/// Splitting the text of a measure gives back the texts of its two
/// components, when these are plain.  With a component type whose parser
/// reads back what it displays, reading a formatted measure therefore
/// returns the measure.
pub proof fn lemma_split_formatted(v: Seq<char>, e: Seq<char>)
    requires
        plain_text(v),
        plain_text(e),
    ensures
        has_separator(formatted(v, e)),
        value_text(formatted(v, e)) == v,
        error_text(formatted(v, e)) == e,
{
    let f = formatted(v, e);
    let n = f.len() as int;
    assert(f[0] == v[0]);
    assert(f[n - 1] == e.last());
    lemma_count_leading(f, CharClass::Space, 0);
    lemma_count_trailing(f, CharClass::Space, 0);
    assert(f.subrange(0, n) =~= f);
    assert(trim_class(f, CharClass::Space) == f);
    lemma_count_leading(f, CharClass::Paren, 0);
    lemma_count_trailing(f, CharClass::Paren, 0);
    assert(body(f) == f);
    let k = v.len() as int + 1;
    assert forall|j: int| 0 <= j < k implies in_class(#[trigger] f[j], CharClass::NotSeparator) by {
        if j < v.len() {
            assert(f[j] == v[j]);
        }
    }
    assert(f[k] == separator());
    lemma_count_leading(f, CharClass::NotSeparator, k);
    assert(separator_at(f) == k);
    let head = f.subrange(0, k);
    assert(head[0] == v[0]);
    lemma_count_leading(head, CharClass::Space, 0);
    assert(head.subrange(0, k) =~= head);
    assert(head[k - 2] == v.last());
    lemma_count_trailing(head, CharClass::Space, 1);
    assert(head.subrange(0, k - 1) =~= v);
    let rest = f.subrange(k + 1, n);
    assert(rest =~= seq![' '] + e);
    assert forall|j: int| 0 <= j < rest.len() implies in_class(
        #[trigger] rest[j],
        CharClass::NotSeparator,
    ) by {
        if j > 0 {
            assert(rest[j] == e[j - 1]);
        }
    }
    lemma_count_leading(rest, CharClass::NotSeparator, rest.len() as int);
    assert(rest.subrange(0, rest.len() as int) =~= rest);
    assert(rest[1] == e[0]);
    lemma_count_leading(rest, CharClass::Space, 1);
    let tail = rest.subrange(1, rest.len() as int);
    assert(tail =~= e);
    lemma_count_trailing(tail, CharClass::Space, 0);
    assert(tail.subrange(0, tail.len() as int) =~= e);
}

} // verus!
