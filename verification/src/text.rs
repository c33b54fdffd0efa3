//! Text helpers for the line-oriented formats: field splitting.

use vstd::prelude::*;
use vstd::string::*;

verus! {

/// The fields of `s` when cut at every `sep`, in order.
///
/// A text without separator is one field. Two separators in a row, or one at
/// either end, give an empty field.
pub open spec fn split_fields(s: Seq<char>, sep: char) -> Seq<Seq<char>>
    decreases s.len(),
{
    if s.len() == 0 {
        seq![Seq::<char>::empty()]
    } else {
        let before = split_fields(s.drop_last(), sep);
        if s.last() == sep {
            before.push(Seq::<char>::empty())
        } else {
            before.update(before.len() - 1, before.last().push(s.last()))
        }
    }
}

/// The views of a vector of strings.
pub open spec fn views(v: Seq<String>) -> Seq<Seq<char>> {
    Seq::new(v.len(), |i: int| v[i]@)
}

/// Whether `c` occurs in `s`.
pub open spec fn has_char(s: Seq<char>, c: char) -> bool {
    exists|i: int| 0 <= i < s.len() && s[i] == c
}

/// A split always has at least one field.
pub proof fn lemma_split_nonempty(s: Seq<char>, sep: char)
    ensures
        split_fields(s, sep).len() >= 1,
    decreases s.len(),
{
    if s.len() > 0 {
        lemma_split_nonempty(s.drop_last(), sep);
    }
}

/// A text without separator is its own single field.
pub proof fn lemma_split_without_sep(s: Seq<char>, sep: char)
    requires
        !has_char(s, sep),
    ensures
        split_fields(s, sep) == seq![s],
    decreases s.len(),
{
    if s.len() == 0 {
        assert(s == Seq::<char>::empty());
    } else {
        let head = s.drop_last();
        assert(!has_char(head, sep)) by {
            if has_char(head, sep) {
                let i = choose|i: int| 0 <= i < head.len() && head[i] == sep;
                assert(s[i] == sep);
            }
        }
        lemma_split_without_sep(head, sep);
        assert(s.last() != sep) by {
            assert(s[s.len() - 1] == s.last());
        }
        assert(head.push(s.last()) == s);
        assert(seq![head].update(0, s) == seq![s]);
    }
}

/// A separator followed by a text without separator adds that text as one
/// more field.
pub proof fn lemma_split_append_field(s: Seq<char>, sep: char, t: Seq<char>)
    requires
        !has_char(t, sep),
    ensures
        split_fields(s.push(sep) + t, sep) == split_fields(s, sep).push(t),
    decreases t.len(),
{
    let whole = s.push(sep) + t;
    if t.len() == 0 {
        assert(whole == s.push(sep));
        assert(whole.drop_last() == s);
        assert(t == Seq::<char>::empty());
    } else {
        let head = t.drop_last();
        assert(!has_char(head, sep)) by {
            if has_char(head, sep) {
                let i = choose|i: int| 0 <= i < head.len() && head[i] == sep;
                assert(t[i] == sep);
            }
        }
        lemma_split_append_field(s, sep, head);
        assert(whole.drop_last() == s.push(sep) + head);
        assert(whole.last() == t.last());
        assert(t.last() != sep) by {
            assert(t[t.len() - 1] == t.last());
        }
        let before = split_fields(s, sep).push(head);
        assert(head.push(t.last()) == t);
        assert(before.update(before.len() - 1, t) == split_fields(s, sep).push(t));
    }
}

/// Cuts `s` at every `sep`.
pub fn split(s: &str, sep: char) -> (fields: Vec<String>)
    ensures
        views(fields@) == split_fields(s@, sep),
{
    let n: usize = s.unicode_len();
    let mut fields: Vec<String> = Vec::new();
    let mut start: usize = 0;
    let mut i: usize = 0;
    proof {
        assert(s@.take(0) == Seq::<char>::empty());
        assert(s@.subrange(0, 0) == Seq::<char>::empty());
        assert(views(fields@).push(s@.subrange(0, 0)) == seq![Seq::<char>::empty()]);
    }
    while i < n
        invariant
            n == s@.len(),
            start <= i <= n,
            split_fields(s@.take(i as int), sep) == views(fields@).push(
                s@.subrange(start as int, i as int),
            ),
        decreases n - i,
    {
        let c = s.get_char(i);
        proof {
            let t = s@.take(i + 1);
            assert(t.drop_last() == s@.take(i as int));
            assert(t.last() == s@[i as int]);
            let before = split_fields(s@.take(i as int), sep);
            assert(before.len() - 1 == views(fields@).len());
            assert(before.last() == s@.subrange(start as int, i as int));
            assert(s@.subrange(start as int, i as int).push(s@[i as int]) == s@.subrange(
                start as int,
                i + 1,
            ));
        }
        if c == sep {
            let field = s.substring_char(start, i).to_owned();
            let ghost old_fields = fields@;
            fields.push(field);
            start = i + 1;
            proof {
                assert(views(fields@) == views(old_fields).push(field@));
                assert(s@.subrange(i + 1, i + 1) == Seq::<char>::empty());
            }
        } else {
            proof {
                let before = split_fields(s@.take(i as int), sep);
                assert(before.update(before.len() - 1, s@.subrange(start as int, i + 1))
                    == views(fields@).push(s@.subrange(start as int, i + 1)));
            }
        }
        i = i + 1;
    }
    let last = s.substring_char(start, n).to_owned();
    let ghost old_fields = fields@;
    fields.push(last);
    proof {
        assert(s@.take(n as int) == s@);
        assert(views(fields@) == views(old_fields).push(last@));
    }
    fields
}

/// The line without its terminator: one trailing newline is dropped, and
/// nothing else. A text that does not end in a newline stays as it is.
pub open spec fn without_terminator(s: Seq<char>) -> Seq<char> {
    if s.len() > 0 && s.last() == '\n' {
        s.drop_last()
    } else {
        s
    }
}

} // verus!
