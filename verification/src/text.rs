//! Plain-text helpers: everything the command line and the result line need
//! from strings, stated over sequences of characters.
use vstd::prelude::*;

verus! {

/// `String::push` appends the given character to the end of the string and
/// changes nothing else.
pub assume_specification[ String::push ](s: &mut String, c: char)
    ensures
        final(s)@ == old(s)@.push(c),
;

/// Characters with the Unicode `White_Space` property.
pub open spec fn is_white_space(c: char) -> bool {
    ||| '\u{9}' <= c <= '\u{d}'
    ||| c == ' '
    ||| c == '\u{85}'
    ||| c == '\u{a0}'
    ||| c == '\u{1680}'
    ||| '\u{2000}' <= c <= '\u{200a}'
    ||| c == '\u{2028}'
    ||| c == '\u{2029}'
    ||| c == '\u{202f}'
    ||| c == '\u{205f}'
    ||| c == '\u{3000}'
}

/// Every character of `s` is white space.
pub open spec fn all_white_space(s: Seq<char>) -> bool {
    forall|i: int| 0 <= i < s.len() ==> is_white_space(#[trigger] s[i])
}

/// No character of `s` is white space.
pub open spec fn no_white_space(s: Seq<char>) -> bool {
    forall|i: int| 0 <= i < s.len() ==> !is_white_space(#[trigger] s[i])
}

/// Length of the longest prefix of `s` whose characters all satisfy `p`.
pub open spec fn span(s: Seq<char>, p: spec_fn(char) -> bool) -> int
    decreases s.len(),
{
    if s.len() > 0 && p(s[0]) {
        1 + span(s.drop_first(), p)
    } else {
        0
    }
}

/// The predicate "is white space".
pub open spec fn white() -> spec_fn(char) -> bool {
    |c: char| is_white_space(c)
}

/// The predicate "is not white space".
pub open spec fn not_white() -> spec_fn(char) -> bool {
    |c: char| !is_white_space(c)
}

/// The predicate "is another character than `c`".
pub open spec fn other_than(c: char) -> spec_fn(char) -> bool {
    |x: char| x != c
}

/// `s` without its leading white space.
pub open spec fn trim_start(s: Seq<char>) -> Seq<char> {
    s.skip(span(s, white()))
}

/// `s` without its trailing white space.
pub open spec fn trim_end(s: Seq<char>) -> Seq<char>
    decreases s.len(),
{
    if s.len() > 0 && is_white_space(s.last()) {
        trim_end(s.drop_last())
    } else {
        s
    }
}

/// `s` without leading and trailing white space.
pub open spec fn trimmed(s: Seq<char>) -> Seq<char> {
    trim_end(trim_start(s))
}

/// What follows `prefix` in `s`, if `s` starts with it.
pub open spec fn after_prefix(s: Seq<char>, prefix: Seq<char>) -> Option<Seq<char>> {
    if prefix.is_prefix_of(s) {
        Some(s.skip(prefix.len() as int))
    } else {
        None
    }
}

/// The part of `s` before the first `c`; all of `s` where there is no `c`.
pub open spec fn before(s: Seq<char>, c: char) -> Seq<char> {
    s.take(span(s, other_than(c)))
}

/// The part of `s` behind the first `c`, if there is a `c`.
pub open spec fn behind(s: Seq<char>, c: char) -> Option<Seq<char>> {
    let n = span(s, other_than(c));
    if n < s.len() {
        Some(s.skip(n + 1))
    } else {
        None
    }
}

/// The white-space separated words of `s`, in order.
pub open spec fn words(s: Seq<char>) -> Seq<Seq<char>>
    decreases s.len(),
{
    if s.len() == 0 {
        Seq::empty()
    } else if is_white_space(s[0]) {
        words(s.drop_first())
    } else {
        let n = span(s, not_white());
        proof {
            lemma_span(s, not_white());
        }
        seq![s.take(n)] + words(s.skip(n))
    }
}

/// The first line of `s`, without its line ending.
pub open spec fn first_line_of(s: Seq<char>) -> Seq<char> {
    let line = before(s, '\n');
    if line.len() < s.len() && line.len() > 0 && line.last() == '\r' {
        line.drop_last()
    } else {
        line
    }
}

/// `span` stops at the first character that fails `p`.
pub proof fn lemma_span(s: Seq<char>, p: spec_fn(char) -> bool)
    ensures
        0 <= span(s, p) <= s.len(),
        forall|i: int| 0 <= i < span(s, p) ==> p(#[trigger] s[i]),
        span(s, p) < s.len() ==> !p(s[span(s, p)]),
        s.len() > 0 && p(s[0]) ==> span(s, p) > 0,
    decreases s.len(),
{
    if s.len() > 0 && p(s[0]) {
        lemma_span(s.drop_first(), p);
        assert forall|i: int| 0 <= i < span(s, p) implies p(#[trigger] s[i]) by {
            if i > 0 {
                assert(s[i] == s.drop_first()[i - 1]);
            }
        }
        if span(s, p) < s.len() {
            assert(s[span(s, p)] == s.drop_first()[span(s, p) - 1]);
        }
    }
}

/// The position that `lemma_span` describes is the span.
pub proof fn lemma_span_is(s: Seq<char>, p: spec_fn(char) -> bool, n: int)
    requires
        0 <= n <= s.len(),
        forall|i: int| 0 <= i < n ==> p(#[trigger] s[i]),
        n < s.len() ==> !p(s[n]),
    ensures
        span(s, p) == n,
{
    lemma_span(s, p);
    if span(s, p) < n {
        assert(p(s[span(s, p)]));
    }
    if n < span(s, p) {
        assert(p(s[n]));
    }
}

/// The characters of `s`, in order.
pub(crate) fn chars_of(s: &str) -> (v: Vec<char>)
    ensures
        v@ == s@,
{
    let mut v: Vec<char> = Vec::new();
    for c in it: s.chars()
        invariant
            v@ == it.seq().take(it.index() as int),
            it.seq() == s@,
    {
        v.push(c);
    }
    v
}

/// Whether `c` is white space.
pub(crate) fn white_space(c: char) -> (r: bool)
    ensures
        r == is_white_space(c),
{
    ('\u{9}' <= c && c <= '\u{d}') || c == ' ' || c == '\u{85}' || c == '\u{a0}' || c == '\u{1680}'
        || ('\u{2000}' <= c && c <= '\u{200a}') || c == '\u{2028}' || c == '\u{2029}'
        || c == '\u{202f}' || c == '\u{205f}' || c == '\u{3000}'
}

/// Whether two strings hold the same characters.
pub(crate) fn same_text(a: &str, b: &str) -> (r: bool)
    ensures
        r == (a@ == b@),
{
    let u = chars_of(a);
    let v = chars_of(b);
    if u.len() != v.len() {
        return false;
    }
    for i in 0..u.len()
        invariant
            u@ == a@,
            v@ == b@,
            u.len() == v.len(),
            forall|j: int| 0 <= j < i ==> u@[j] == v@[j],
    {
        if u[i] != v[i] {
            assert(a@[i as int] != b@[i as int]);
            return false;
        }
    }
    assert(a@ =~= b@);
    true
}

/// Whether `s` starts with `prefix`.
pub(crate) fn starts_with(s: &str, prefix: &str) -> (r: bool)
    ensures
        r == prefix@.is_prefix_of(s@),
{
    let u = chars_of(s);
    let v = chars_of(prefix);
    if u.len() < v.len() {
        return false;
    }
    for i in 0..v.len()
        invariant
            u@ == s@,
            v@ == prefix@,
            v.len() <= u.len(),
            forall|j: int| 0 <= j < i ==> u@[j] == v@[j],
    {
        if u[i] != v[i] {
            assert(s@.take(prefix@.len() as int)[i as int] != prefix@[i as int]);
            return false;
        }
    }
    assert(prefix@ =~= s@.take(prefix@.len() as int));
    true
}

/// What follows `prefix` in `s`, if `s` starts with it.
pub(crate) fn strip_prefix<'a>(s: &'a str, prefix: &str) -> (r: Option<&'a str>)
    ensures
        match r {
            Some(rest) => after_prefix(s@, prefix@) == Some(rest@),
            None => after_prefix(s@, prefix@) is None,
        },
{
    if starts_with(s, prefix) {
        Some(s.substring_char(prefix.unicode_len(), s.unicode_len()))
    } else {
        None
    }
}

/// `s` without leading and trailing white space.
pub(crate) fn trim(s: &str) -> (r: &str)
    ensures
        r@ == trimmed(s@),
{
    let v = chars_of(s);
    let mut from: usize = 0;
    while from < v.len() && white_space(v[from])
        invariant
            v@ == s@,
            from <= v.len(),
            forall|i: int| 0 <= i < from ==> is_white_space(#[trigger] s@[i]),
        decreases v.len() - from,
    {
        from = from + 1;
    }
    let ghost t = s@.skip(from as int);
    proof {
        lemma_span_is(s@, white(), from as int);
        assert(t.take(t.len() as int) == t);
    }
    let mut to: usize = v.len();
    while to > from && white_space(v[to - 1])
        invariant
            v@ == s@,
            from <= to <= v.len(),
            t == s@.skip(from as int),
            trim_end(t) == trim_end(t.take(to - from)),
        decreases to,
    {
        assert(t.take(to - from).drop_last() == t.take(to - from - 1));
        to = to - 1;
    }
    proof {
        assert(trim_end(t.take(to - from)) == t.take(to - from));
        assert(s@.subrange(from as int, to as int) == t.take(to - from));
    }
    s.substring_char(from, to)
}

/// Position of the first `c` in `v`; the length of `v` where there is none.
fn find(v: &[char], c: char) -> (n: usize)
    ensures
        n == span(v@, other_than(c)),
        n <= v@.len(),
{
    let mut n: usize = 0;
    while n < v.len() && v[n] != c
        invariant
            n <= v@.len(),
            forall|i: int| 0 <= i < n ==> #[trigger] v@[i] != c,
        decreases v@.len() - n,
    {
        n = n + 1;
    }
    proof {
        lemma_span_is(v@, other_than(c), n as int);
    }
    n
}

/// Cuts `s` at the first `c`: what stands before it and, if it is there, what
/// stands behind it.
pub(crate) fn cut<'a>(s: &'a str, c: char) -> (r: (&'a str, Option<&'a str>))
    ensures
        r.0@ == before(s@, c),
        match r.1 {
            Some(rest) => behind(s@, c) == Some(rest@),
            None => behind(s@, c) is None,
        },
{
    let v = chars_of(s);
    let n = find(v.as_slice(), c);
    let head = s.substring_char(0, n);
    if n < v.len() {
        (head, Some(s.substring_char(n + 1, v.len())))
    } else {
        (head, None)
    }
}

/// The first line of `s`, without its line ending; empty where `s` is empty.
pub fn first_line(s: &str) -> (r: &str)
    ensures
        r@ == first_line_of(s@),
{
    let v = chars_of(s);
    let n = find(v.as_slice(), '\n');
    if n < v.len() && n > 0 && v[n - 1] == '\r' {
        assert(s@.take(n as int).drop_last() == s@.subrange(0, n - 1));
        s.substring_char(0, n - 1)
    } else {
        s.substring_char(0, n)
    }
}

// ---------------------------------------------------------------------------
// Laws
// ---------------------------------------------------------------------------

/// The white space there is, by its code points: the controls from the tab to
/// the carriage return, the space, the next line, the no-break space, and the
/// separators of Unicode.
pub proof fn law_white_space_code_points(c: char)
    ensures
        is_white_space(c) <==> {
            let n = c as int;
            ||| n == 0x20 || n == 0x85 || n == 0xA0 || n == 0x1680
            ||| 0x09 <= n <= 0x0D
            ||| 0x2000 <= n <= 0x200A
            ||| n == 0x2028 || n == 0x2029 || n == 0x202F || n == 0x205F || n == 0x3000
        },
{
}

/// A text that ends in white space, cut there.
proof fn lemma_trim_end_of_white(s: Seq<char>)
    requires
        all_white_space(s),
    ensures
        trim_end(s) == Seq::<char>::empty(),
    decreases s.len(),
{
    if s.len() > 0 {
        assert(is_white_space(s[s.len() - 1]));
        lemma_trim_end_of_white(s.drop_last());
    }
}

/// White space behind a text that does not end in it is cut off.
proof fn lemma_trim_end_stops(s: Seq<char>, right: Seq<char>)
    requires
        s.len() > 0,
        !is_white_space(s.last()),
        all_white_space(right),
    ensures
        trim_end(s + right) == s,
    decreases right.len(),
{
    if right.len() > 0 {
        assert((s + right).last() == right[right.len() - 1]);
        assert((s + right).drop_last() =~= s + right.drop_last());
        lemma_trim_end_stops(s, right.drop_last());
    } else {
        assert(s + right =~= s);
    }
}

/// Trimming takes the white space off both ends and nothing else: what starts
/// and ends in other characters stays whole, with any white space inside.
pub proof fn law_trimming(left: Seq<char>, s: Seq<char>, right: Seq<char>)
    requires
        all_white_space(left),
        all_white_space(right),
        s.len() > 0,
        !is_white_space(s[0]),
        !is_white_space(s.last()),
    ensures
        trimmed(left + s + right) == s,
        trimmed(left) == Seq::<char>::empty(),
{
    let all = left + s + right;
    assert forall|i: int| 0 <= i < left.len() implies white()(#[trigger] all[i]) by {
        assert(all[i] == left[i]);
    }
    assert(all[left.len() as int] == s[0]);
    lemma_span_is(all, white(), left.len() as int);
    assert(all.skip(left.len() as int) =~= s + right);
    lemma_trim_end_stops(s, right);
    lemma_span_is(left, white(), left.len() as int);
    assert(left.skip(left.len() as int) =~= Seq::empty());
    lemma_trim_end_of_white(Seq::empty());
}

/// The first line is what stands before the first line feed, without a carriage
/// return right before that; without a line feed it is the whole text.
pub proof fn law_first_line(line: Seq<char>, rest: Seq<char>)
    requires
        forall|i: int| 0 <= i < line.len() ==> #[trigger] line[i] != '\n',
    ensures
        first_line_of(line) == line,
        first_line_of(line + seq!['\r', '\n'] + rest) == line,
        line.len() == 0 || line.last() != '\r' ==> first_line_of(line + seq!['\n'] + rest) == line,
{
    let s = line + seq!['\n'] + rest;
    let t = line + seq!['\r', '\n'] + rest;
    lemma_span_is(line, other_than('\n'), line.len() as int);
    assert(line.take(line.len() as int) =~= line);
    assert forall|i: int| 0 <= i < line.len() implies other_than('\n')(#[trigger] s[i]) by {
        assert(s[i] == line[i]);
    }
    lemma_span_is(s, other_than('\n'), line.len() as int);
    assert(s.take(line.len() as int) =~= line);
    assert forall|i: int| 0 <= i < line.len() + 1 implies other_than('\n')(#[trigger] t[i]) by {
        if i < line.len() {
            assert(t[i] == line[i]);
        }
    }
    lemma_span_is(t, other_than('\n'), line.len() as int + 1);
    assert(t.take(line.len() as int + 1).drop_last() =~= line);
    assert(t.take(line.len() as int + 1).last() == '\r');
}

} // verus!
