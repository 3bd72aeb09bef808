//! Lines of `key=value` fields: writing them and reading a field back.
use vstd::prelude::*;

use crate::text::{
    after_prefix, all_white_space, chars_of, first_line_of, is_white_space, lemma_span_is,
    no_white_space, not_white, other_than, strip_prefix, white_space, words,
};

verus! {

// ---------------------------------------------------------------------------
// The model
// ---------------------------------------------------------------------------

/// The words with one space between them.
pub open spec fn joined(ws: Seq<Seq<char>>) -> Seq<char>
    decreases ws.len(),
{
    if ws.len() == 0 {
        Seq::empty()
    } else if ws.len() == 1 {
        ws[0]
    } else {
        ws[0] + seq![' '] + joined(ws.drop_first())
    }
}

/// `key=value`.
pub open spec fn field_word(key: Seq<char>, value: Seq<char>) -> Seq<char> {
    key + seq!['='] + value
}

/// The line of the given fields.
pub open spec fn field_line(pairs: Seq<(Seq<char>, Seq<char>)>) -> Seq<char> {
    joined(field_words(pairs))
}

/// What follows the prefix in the first word that starts with it.
pub open spec fn first_with_prefix(ws: Seq<Seq<char>>, prefix: Seq<char>) -> Option<Seq<char>>
    decreases ws.len(),
{
    if ws.len() == 0 {
        None
    } else if after_prefix(ws[0], prefix) is Some {
        after_prefix(ws[0], prefix)
    } else {
        first_with_prefix(ws.drop_first(), prefix)
    }
}

/// The value of the first field of the line that has this key.
pub open spec fn field_value(line: Seq<char>, key: Seq<char>) -> Option<Seq<char>> {
    first_with_prefix(words(line), key + seq!['='])
}

/// The model of an optional part of a string.
pub open spec fn optional_part(s: Option<&str>) -> Option<Seq<char>> {
    match s {
        Some(t) => Some(t@),
        None => None,
    }
}

/// The words with the given runs of characters before, between and behind
/// them.
pub open spec fn spaced(gaps: Seq<Seq<char>>, ws: Seq<Seq<char>>) -> Seq<char>
    decreases ws.len(),
{
    if ws.len() == 0 {
        gaps[0]
    } else {
        gaps[0] + ws[0] + spaced(gaps.drop_first(), ws.drop_first())
    }
}

/// Runs of white space that fit around and between `n` words: between two
/// words there is at least one character.
pub open spec fn proper_gaps(gaps: Seq<Seq<char>>, n: int) -> bool {
    &&& gaps.len() == n + 1
    &&& forall|i: int| 0 <= i <= n ==> all_white_space(#[trigger] gaps[i])
    &&& forall|i: int| 0 < i < n ==> (#[trigger] gaps[i]).len() > 0
}

/// The words of the given fields.
pub open spec fn field_words(pairs: Seq<(Seq<char>, Seq<char>)>) -> Seq<Seq<char>> {
    pairs.map_values(|p: (Seq<char>, Seq<char>)| field_word(p.0, p.1))
}

// ---------------------------------------------------------------------------
// The code
// ---------------------------------------------------------------------------

/// The value of the first field of the line that has this key.
pub fn field<'a>(line: &'a str, key: &str) -> (r: Option<&'a str>)
    ensures
        optional_part(r) == field_value(line@, key@),
{
    let mut prefix = key.to_owned();
    prefix.push('=');
    let ghost p = key@ + seq!['='];
    assert(prefix@ == p);
    let v = chars_of(line);
    let mut i: usize = 0;
    assert(line@.skip(0) == line@);
    while i < v.len()
        invariant
            v@ == line@,
            prefix@ == p,
            i <= v.len(),
            field_value(line@, key@) == first_with_prefix(words(line@.skip(i as int)), p),
        decreases v.len() - i,
    {
        let ghost rest = line@.skip(i as int);
        assert(rest[0] == v@[i as int]);
        if white_space(v[i]) {
            assert(rest.drop_first() == line@.skip(i + 1));
            i = i + 1;
        } else {
            let mut end: usize = i;
            while end < v.len() && !white_space(v[end])
                invariant
                    v@ == line@,
                    i <= end <= v.len(),
                    rest == line@.skip(i as int),
                    forall|k: int| 0 <= k < end - i ==> !is_white_space(#[trigger] rest[k]),
                decreases v.len() - end,
            {
                assert(rest[end - i] == v@[end as int]);
                end = end + 1;
            }
            proof {
                if end < v.len() {
                    assert(rest[end - i] == v@[end as int]);
                }
                lemma_span_is(rest, not_white(), end - i);
                assert(rest.take(end - i) == line@.subrange(i as int, end as int));
                assert(rest.skip(end - i) == line@.skip(end as int));
                let ws = words(rest);
                assert(ws == seq![rest.take(end - i)] + words(line@.skip(end as int)));
                assert(ws[0] == rest.take(end - i));
                assert(ws.drop_first() == words(line@.skip(end as int)));
            }
            let word = line.substring_char(i, end);
            match strip_prefix(word, prefix.as_str()) {
                Some(value) => return Some(value),
                None => {},
            }
            assert(end > i) by {
                if end == i {
                    assert(rest[0] == v@[i as int]);
                }
            }
            i = end;
        }
    }
    assert(line@.skip(i as int) =~= Seq::empty());
    None
}

/// Appends a space and the field to a line.
pub(crate) fn push_field(out: &mut String, key: &str, value: &str)
    ensures
        final(out)@ == old(out)@ + seq![' '] + field_word(key@, value@),
{
    out.push(' ');
    out.append(key);
    out.push('=');
    out.append(value);
    assert(out@ == old(out)@ + seq![' '] + field_word(key@, value@));
}

// ---------------------------------------------------------------------------
// Laws
// ---------------------------------------------------------------------------

/// A word behind the others comes behind a space.
pub proof fn lemma_joined_push(ws: Seq<Seq<char>>, w: Seq<char>)
    ensures
        joined(ws.push(w)) == if ws.len() == 0 { w } else { joined(ws) + seq![' '] + w },
    decreases ws.len(),
{
    if ws.len() > 0 {
        let all = ws.push(w);
        assert(all.drop_first() == ws.drop_first().push(w));
        assert(all[0] == ws[0]);
        lemma_joined_push(ws.drop_first(), w);
        if ws.len() == 1 {
            assert(ws.drop_first().len() == 0);
        }
        assert(joined(all) == joined(ws) + seq![' '] + w);
    }
}

/// A word in front of a space is the first word.
proof fn lemma_first_word(w: Seq<char>, rest: Seq<char>)
    requires
        w.len() > 0,
        no_white_space(w),
        rest.len() > 0 ==> is_white_space(rest[0]),
    ensures
        words(w + rest) == seq![w] + words(rest),
{
    let s = w + rest;
    assert(s[0] == w[0]);
    assert forall|i: int| 0 <= i < w.len() implies not_white()(#[trigger] s[i]) by {
        assert(s[i] == w[i]);
    }
    if rest.len() > 0 {
        assert(s[w.len() as int] == rest[0]);
    }
    lemma_span_is(s, not_white(), w.len() as int);
    assert(s.take(w.len() as int) == w);
    assert(s.skip(w.len() as int) == rest);
}

/// Joining words and taking the line apart again gives the words.
pub proof fn law_words_of_joined(ws: Seq<Seq<char>>)
    requires
        forall|i: int|
            0 <= i < ws.len() ==> (#[trigger] ws[i]).len() > 0 && no_white_space(ws[i]),
    ensures
        words(joined(ws)) == ws,
    decreases ws.len(),
{
    if ws.len() == 1 {
        assert(ws[0].len() > 0);
        lemma_first_word(ws[0], Seq::empty());
        assert(ws[0] + Seq::<char>::empty() == ws[0]);
        assert(seq![ws[0]] + words(Seq::<char>::empty()) =~= ws);
    } else if ws.len() > 1 {
        assert(ws[0].len() > 0);
        let tail = ws.drop_first();
        let rest = seq![' '] + joined(tail);
        assert(joined(ws) == ws[0] + rest);
        lemma_first_word(ws[0], rest);
        assert(rest[0] == ' ');
        assert(rest.drop_first() == joined(tail));
        assert forall|i: int| 0 <= i < tail.len() implies (#[trigger] tail[i]).len() > 0
            && no_white_space(tail[i]) by {
            assert(tail[i] == ws[i + 1]);
        }
        law_words_of_joined(tail);
        assert(seq![ws[0]] + tail =~= ws);
    } else {
        assert(ws =~= Seq::empty());
    }
}

/// A key that holds no `=` and no white space.
pub open spec fn proper_key(key: Seq<char>) -> bool {
    no_white_space(key) && forall|i: int| 0 <= i < key.len() ==> #[trigger] key[i] != '='
}

/// A field is found by its own key and by no other.
proof fn lemma_field_word(key: Seq<char>, value: Seq<char>, asked: Seq<char>)
    requires
        proper_key(key),
        proper_key(asked),
    ensures
        after_prefix(field_word(key, value), asked + seq!['=']) == if key == asked {
            Some(value)
        } else {
            None
        },
{
    let w = field_word(key, value);
    let p = asked + seq!['='];
    assert(w[key.len() as int] == '=');
    assert(p[asked.len() as int] == '=');
    if key == asked {
        assert(w.take(p.len() as int) =~= p);
        assert(w.skip(p.len() as int) =~= value);
    } else if p.is_prefix_of(w) {
        assert(p =~= w.take(p.len() as int));
        assert forall|i: int| 0 <= i < p.len() implies p[i] == w[i] by {
            assert(p[i] == w.take(p.len() as int)[i]);
        }
        if asked.len() < key.len() {
            assert(w[asked.len() as int] == key[asked.len() as int]);
        } else if asked.len() > key.len() {
            assert(p[key.len() as int] == asked[key.len() as int]);
        } else {
            assert forall|i: int| 0 <= i < key.len() implies key[i] == asked[i] by {
                assert(p[i] == asked[i]);
                assert(w[i] == key[i]);
            }
            assert(key =~= asked);
        }
    }
}

/// The first field with the key is the one that is found.
proof fn lemma_first_field(pairs: Seq<(Seq<char>, Seq<char>)>, n: int)
    requires
        0 <= n < pairs.len(),
        forall|i: int| 0 <= i < pairs.len() ==> proper_key((#[trigger] pairs[i]).0),
        forall|i: int| 0 <= i < n ==> (#[trigger] pairs[i]).0 != pairs[n].0,
    ensures
        first_with_prefix(
            field_words(pairs),
            pairs[n].0 + seq!['='],
        ) == Some(pairs[n].1),
    decreases n,
{
    let ws = field_words(pairs);
    let asked = pairs[n].0;
    assert(ws[0] == field_word(pairs[0].0, pairs[0].1));
    assert(proper_key(pairs[0].0) && proper_key(pairs[n].0));
    lemma_field_word(pairs[0].0, pairs[0].1, asked);
    if n > 0 {
        let tail = pairs.drop_first();
        assert forall|i: int| 0 <= i < tail.len() implies proper_key((#[trigger] tail[i]).0) by {
            assert(tail[i] == pairs[i + 1]);
        }
        assert forall|i: int| 0 <= i < n - 1 implies (#[trigger] tail[i]).0 != tail[n - 1].0 by {
            assert(tail[i] == pairs[i + 1]);
        }
        assert(tail[n - 1] == pairs[n]);
        lemma_first_field(tail, n - 1);
        assert(ws.drop_first() =~= field_words(tail));
    }
}

/// White space in front of a line changes no word.
proof fn lemma_words_skip(gap: Seq<char>, s: Seq<char>)
    requires
        all_white_space(gap),
    ensures
        words(gap + s) == words(s),
    decreases gap.len(),
{
    if gap.len() > 0 {
        assert((gap + s)[0] == gap[0]);
        assert((gap + s).drop_first() == gap.drop_first() + s);
        assert forall|i: int| 0 <= i < gap.drop_first().len() implies is_white_space(
            #[trigger] gap.drop_first()[i],
        ) by {
            assert(gap.drop_first()[i] == gap[i + 1]);
        }
        lemma_words_skip(gap.drop_first(), s);
    } else {
        assert(gap + s == s);
    }
}

/// A line taken apart gives its words, whatever runs of white space stand
/// before, between and behind them.
pub proof fn law_words_of_spaced(gaps: Seq<Seq<char>>, ws: Seq<Seq<char>>)
    requires
        proper_gaps(gaps, ws.len() as int),
        forall|i: int|
            0 <= i < ws.len() ==> (#[trigger] ws[i]).len() > 0 && no_white_space(ws[i]),
    ensures
        words(spaced(gaps, ws)) == ws,
    decreases ws.len(),
{
    assert(all_white_space(gaps[0]));
    if ws.len() == 0 {
        lemma_words_skip(gaps[0], Seq::empty());
        assert(gaps[0] + Seq::<char>::empty() == gaps[0]);
        assert(ws =~= Seq::empty());
    } else {
        let later = gaps.drop_first();
        let tail = ws.drop_first();
        let rest = spaced(later, tail);
        assert forall|i: int| 0 <= i <= tail.len() implies all_white_space(
            #[trigger] later[i],
        ) by {
            assert(later[i] == gaps[i + 1]);
        }
        assert forall|i: int| 0 < i < tail.len() implies (#[trigger] later[i]).len() > 0 by {
            assert(later[i] == gaps[i + 1]);
        }
        assert forall|i: int| 0 <= i < tail.len() implies (#[trigger] tail[i]).len() > 0
            && no_white_space(tail[i]) by {
            assert(tail[i] == ws[i + 1]);
        }
        law_words_of_spaced(later, tail);
        assert(spaced(gaps, ws) == gaps[0] + (ws[0] + rest));
        lemma_words_skip(gaps[0], ws[0] + rest);
        assert(ws[0].len() > 0);
        if rest.len() > 0 {
            assert(later[0] == gaps[1]);
            assert(all_white_space(later[0]));
            if tail.len() > 0 {
                assert(gaps[1].len() > 0);
                assert(rest[0] == later[0][0]);
            }
        }
        lemma_first_word(ws[0], rest);
        assert(seq![ws[0]] + tail =~= ws);
    }
}

/// A key that no word starts with is not found, and a key that is not found
/// starts no word.
pub proof fn law_missing_field(line: Seq<char>, key: Seq<char>)
    ensures
        field_value(line, key) is None <==> forall|i: int|
            0 <= i < words(line).len() ==> !(key + seq!['=']).is_prefix_of(
                #[trigger] words(line)[i],
            ),
{
    lemma_first_with_prefix(words(line), key + seq!['=']);
}

/// The value that is found follows the key in the first word that starts with
/// it.
pub proof fn law_first_field_is_found(line: Seq<char>, key: Seq<char>, n: int)
    requires
        0 <= n < words(line).len(),
        (key + seq!['=']).is_prefix_of(words(line)[n]),
        forall|i: int|
            0 <= i < n ==> !(key + seq!['=']).is_prefix_of(#[trigger] words(line)[i]),
    ensures
        field_value(line, key) == Some(words(line)[n].skip(key.len() as int + 1)),
{
    lemma_first_at(words(line), key + seq!['='], n);
}

/// A prefix is found exactly where some word starts with it.
proof fn lemma_first_with_prefix(ws: Seq<Seq<char>>, prefix: Seq<char>)
    ensures
        first_with_prefix(ws, prefix) is None <==> forall|i: int|
            0 <= i < ws.len() ==> !prefix.is_prefix_of(#[trigger] ws[i]),
    decreases ws.len(),
{
    if ws.len() > 0 {
        let tail = ws.drop_first();
        lemma_first_with_prefix(tail, prefix);
        if !prefix.is_prefix_of(ws[0]) {
            if first_with_prefix(ws, prefix) is None {
                assert forall|i: int| 0 <= i < ws.len() implies !prefix.is_prefix_of(
                    #[trigger] ws[i],
                ) by {
                    if i > 0 {
                        assert(ws[i] == tail[i - 1]);
                    }
                }
            } else {
                let k = choose|k: int| 0 <= k < tail.len() && prefix.is_prefix_of(#[trigger] tail[k]);
                assert(prefix.is_prefix_of(ws[k + 1]));
            }
        }
    }
}

/// The first word with the prefix is the one that is found.
proof fn lemma_first_at(ws: Seq<Seq<char>>, prefix: Seq<char>, n: int)
    requires
        0 <= n < ws.len(),
        prefix.is_prefix_of(ws[n]),
        forall|i: int| 0 <= i < n ==> !prefix.is_prefix_of(#[trigger] ws[i]),
    ensures
        first_with_prefix(ws, prefix) == Some(ws[n].skip(prefix.len() as int)),
    decreases n,
{
    if n > 0 {
        let tail = ws.drop_first();
        assert(!prefix.is_prefix_of(ws[0]));
        assert forall|i: int| 0 <= i < n - 1 implies !prefix.is_prefix_of(#[trigger] tail[i]) by {
            assert(tail[i] == ws[i + 1]);
        }
        lemma_first_at(tail, prefix, n - 1);
    }
}

/// The words of proper fields are words.
pub proof fn lemma_field_words(pairs: Seq<(Seq<char>, Seq<char>)>)
    requires
        forall|i: int| 0 <= i < pairs.len() ==> proper_key((#[trigger] pairs[i]).0),
        forall|i: int| 0 <= i < pairs.len() ==> no_white_space((#[trigger] pairs[i]).1),
    ensures
        forall|i: int|
            0 <= i < pairs.len() ==> (#[trigger] field_words(pairs)[i]).len() > 0
                && no_white_space(field_words(pairs)[i]),
{
    let ws = field_words(pairs);
    assert forall|i: int| 0 <= i < ws.len() implies (#[trigger] ws[i]).len() > 0 && no_white_space(
        ws[i],
    ) by {
        let key = pairs[i].0;
        let value = pairs[i].1;
        assert(ws[i] == field_word(key, value));
        assert(proper_key(pairs[i].0) && no_white_space(pairs[i].1));
        assert forall|k: int| 0 <= k < ws[i].len() implies !is_white_space(#[trigger] ws[i][k]) by {
            if k < key.len() {
                assert(ws[i][k] == key[k]);
            } else if k > key.len() {
                assert(ws[i][k] == value[k - key.len() - 1]);
            }
        }
    }
}

/// Reading a field of a line gives back the value that was written under its
/// key, whatever runs of white space stand around the fields.
pub proof fn law_spaced_field_reads_back(
    gaps: Seq<Seq<char>>,
    pairs: Seq<(Seq<char>, Seq<char>)>,
    n: int,
)
    requires
        0 <= n < pairs.len(),
        proper_gaps(gaps, pairs.len() as int),
        forall|i: int| 0 <= i < pairs.len() ==> proper_key((#[trigger] pairs[i]).0),
        forall|i: int| 0 <= i < pairs.len() ==> no_white_space((#[trigger] pairs[i]).1),
        forall|i: int| 0 <= i < n ==> (#[trigger] pairs[i]).0 != pairs[n].0,
    ensures
        field_value(spaced(gaps, field_words(pairs)), pairs[n].0) == Some(pairs[n].1),
{
    lemma_field_words(pairs);
    law_words_of_spaced(gaps, field_words(pairs));
    lemma_first_field(pairs, n);
}

/// A key under which nothing was written is not found.
pub proof fn law_unwritten_key_is_not_found(
    gaps: Seq<Seq<char>>,
    pairs: Seq<(Seq<char>, Seq<char>)>,
    key: Seq<char>,
)
    requires
        proper_gaps(gaps, pairs.len() as int),
        forall|i: int| 0 <= i < pairs.len() ==> proper_key((#[trigger] pairs[i]).0),
        forall|i: int| 0 <= i < pairs.len() ==> no_white_space((#[trigger] pairs[i]).1),
        proper_key(key),
        forall|i: int| 0 <= i < pairs.len() ==> (#[trigger] pairs[i]).0 != key,
    ensures
        field_value(spaced(gaps, field_words(pairs)), key) is None,
{
    let ws = field_words(pairs);
    lemma_field_words(pairs);
    law_words_of_spaced(gaps, ws);
    assert forall|i: int| 0 <= i < ws.len() implies !(key + seq!['=']).is_prefix_of(
        #[trigger] ws[i],
    ) by {
        assert(ws[i] == field_word(pairs[i].0, pairs[i].1));
        assert(proper_key(pairs[i].0));
        lemma_field_word(pairs[i].0, pairs[i].1, key);
    }
    lemma_first_with_prefix(ws, key + seq!['=']);
}

/// Reading a field of a line gives back the value that was written under its
/// key.
pub proof fn law_field_reads_back(pairs: Seq<(Seq<char>, Seq<char>)>, n: int)
    requires
        0 <= n < pairs.len(),
        forall|i: int| 0 <= i < pairs.len() ==> proper_key((#[trigger] pairs[i]).0),
        forall|i: int| 0 <= i < pairs.len() ==> no_white_space((#[trigger] pairs[i]).1),
        forall|i: int| 0 <= i < n ==> (#[trigger] pairs[i]).0 != pairs[n].0,
    ensures
        field_value(field_line(pairs), pairs[n].0) == Some(pairs[n].1),
{
    lemma_field_words(pairs);
    law_words_of_joined(field_words(pairs));
    lemma_first_field(pairs, n);
}

/// Joined words hold no white space but the spaces between them.
proof fn lemma_joined_characters(ws: Seq<Seq<char>>)
    requires
        forall|i: int| 0 <= i < ws.len() ==> no_white_space(#[trigger] ws[i]),
    ensures
        forall|k: int|
            0 <= k < joined(ws).len() ==> (#[trigger] joined(ws)[k]) == ' ' || !is_white_space(
                joined(ws)[k],
            ),
    decreases ws.len(),
{
    if ws.len() == 1 {
        assert(no_white_space(ws[0]));
    } else if ws.len() > 1 {
        let rest = joined(ws.drop_first());
        lemma_joined_characters(ws.drop_first());
        assert(no_white_space(ws[0]));
        let s = joined(ws);
        assert forall|k: int| 0 <= k < s.len() implies (#[trigger] s[k]) == ' '
            || !is_white_space(s[k]) by {
            if k < ws[0].len() {
                assert(s[k] == ws[0][k]);
            } else if k > ws[0].len() {
                assert(s[k] == rest[k - ws[0].len() - 1]);
            }
        }
    }
}

/// A line of fields is the first line of what is printed from it on.
pub proof fn law_field_line_is_first_line(
    pairs: Seq<(Seq<char>, Seq<char>)>,
    rest: Seq<char>,
)
    requires
        forall|i: int| 0 <= i < pairs.len() ==> proper_key((#[trigger] pairs[i]).0),
        forall|i: int| 0 <= i < pairs.len() ==> no_white_space((#[trigger] pairs[i]).1),
    ensures
        first_line_of(field_line(pairs) + seq!['\n'] + rest) == field_line(pairs),
{
    let line = field_line(pairs);
    let s = line + seq!['\n'] + rest;
    lemma_field_words(pairs);
    lemma_joined_characters(field_words(pairs));
    assert(is_white_space('\n') && is_white_space('\r'));
    assert forall|i: int| 0 <= i < line.len() implies other_than('\n')(#[trigger] s[i]) by {
        assert(s[i] == line[i]);
    }
    lemma_span_is(s, other_than('\n'), line.len() as int);
    assert(s.take(line.len() as int) =~= line);
    if line.len() > 0 {
        assert(line.last() == line[line.len() - 1]);
    }
}

/// A key under which nothing was written is not found in a line of fields.
pub proof fn law_field_line_lacks_other_keys(
    pairs: Seq<(Seq<char>, Seq<char>)>,
    key: Seq<char>,
)
    requires
        forall|i: int| 0 <= i < pairs.len() ==> proper_key((#[trigger] pairs[i]).0),
        forall|i: int| 0 <= i < pairs.len() ==> no_white_space((#[trigger] pairs[i]).1),
        proper_key(key),
        forall|i: int| 0 <= i < pairs.len() ==> (#[trigger] pairs[i]).0 != key,
    ensures
        field_value(field_line(pairs), key) is None,
{
    let ws = field_words(pairs);
    lemma_field_words(pairs);
    law_words_of_joined(ws);
    assert forall|i: int| 0 <= i < ws.len() implies !(key + seq!['=']).is_prefix_of(
        #[trigger] ws[i],
    ) by {
        assert(proper_key(pairs[i].0));
        lemma_field_word(pairs[i].0, pairs[i].1, key);
    }
    lemma_first_with_prefix(ws, key + seq!['=']);
}

/// Joining puts one space between words and nothing else.
pub proof fn law_joining(ws: Seq<Seq<char>>, w: Seq<char>)
    ensures
        joined(Seq::empty()) == Seq::<char>::empty(),
        joined(seq![w]) == w,
        ws.len() > 0 ==> joined(ws.push(w)) == joined(ws) + seq![' '] + w,
{
    lemma_joined_push(ws, w);
}

} // verus!
