//! Facts about trimming and about lines.

use vstd::prelude::*;
use crate::text::{
    decimal, digit_char, is_trimmed, is_whitespace, join_lines, leading_whitespace, lemma_leading_whitespace,
    lemma_line_end, lemma_trailing_whitespace, line_end, lines, trailing_whitespace, trim,
    trim_end, trim_start,
};

verus! {

/// `s` holds no line feed.
pub open spec fn single_line(s: Seq<char>) -> bool {
    forall|i: int| 0 <= i < s.len() ==> #[trigger] s[i] != '\n'
}

/// Every character of `s` is whitespace.
pub open spec fn all_whitespace(s: Seq<char>) -> bool {
    forall|i: int| 0 <= i < s.len() ==> is_whitespace(#[trigger] s[i])
}

/// Every sequence in `lines` is a single line.
pub open spec fn single_lines(lines: Seq<Seq<char>>) -> bool {
    forall|i: int| 0 <= i < lines.len() ==> single_line(#[trigger] lines[i])
}

/// A trimmed sequence is a piece of the sequence it was trimmed from, and is
/// itself trimmed.
pub proof fn lemma_trim(s: Seq<char>)
    ensures
        is_trimmed(trim(s)),
        trim(s) == s.subrange(
            leading_whitespace(s) as int,
            s.len() - trailing_whitespace(trim_start(s)),
        ),
        leading_whitespace(s) <= s.len() - trailing_whitespace(trim_start(s)) <= s.len(),
        single_line(s) ==> single_line(trim(s)),
{
    let a = leading_whitespace(s) as int;
    lemma_leading_whitespace(s, 0);
    let body = trim_start(s);
    lemma_trailing_whitespace(body, 0);
    let b = trailing_whitespace(body) as int;
    assert(trim(s) =~= s.subrange(a, s.len() - b));
    if trim(s).len() > 0 {
        assert(trim(s)[0] == s[a]);
        assert(trim(s).last() == body[body.len() - b - 1]);
    }
    if single_line(s) {
        assert forall|i: int| 0 <= i < trim(s).len() implies #[trigger] trim(s)[i] != '\n' by {
            assert(trim(s)[i] == s[a + i]);
        }
    }
}

/// Trimming takes away whitespace put around a trimmed sequence.
pub proof fn lemma_trim_padded(before: Seq<char>, s: Seq<char>, after: Seq<char>)
    requires
        all_whitespace(before),
        all_whitespace(after),
        is_trimmed(s),
    ensures
        trim(before + s + after) == s,
{
    let padded = before + s + after;
    if s.len() == 0 {
        assert(all_whitespace(padded)) by {
            assert forall|i: int| 0 <= i < padded.len() implies is_whitespace(
                #[trigger] padded[i],
            ) by {
                if i < before.len() {
                    assert(padded[i] == before[i]);
                } else {
                    assert(padded[i] == after[i - before.len()]);
                }
            }
        }
        lemma_leading_whitespace(padded, padded.len() as int);
        assert(trim_start(padded) =~= Seq::<char>::empty());
        assert(trim(padded) =~= s);
    } else {
        assert forall|i: int| 0 <= i < before.len() implies is_whitespace(#[trigger] padded[i]) by {
            assert(padded[i] == before[i]);
        }
        assert(padded[before.len() as int] == s[0]);
        lemma_leading_whitespace(padded, before.len() as int);
        let body = trim_start(padded);
        assert(body =~= s + after);
        assert forall|i: int| body.len() - after.len() <= i < body.len() implies is_whitespace(
            #[trigger] body[i],
        ) by {
            assert(body[i] == after[i - s.len()]);
        }
        assert(body[body.len() - after.len() - 1] == s.last());
        lemma_trailing_whitespace(body, after.len() as int);
        assert(trim(padded) =~= s);
    }
}

/// The first line of a sequence that begins with a character other than a
/// line feed.
pub proof fn lemma_lines_nonempty(s: Seq<char>)
    ensures
        lines(s).len() >= 1,
        single_lines(lines(s)),
    decreases s.len(),
{
    lemma_line_end(s, 0);
    let end = line_end(s) as int;
    if end < s.len() {
        let rest = s.skip(end + 1);
        lemma_lines_nonempty(rest);
        let first = s.take(end);
        assert(single_line(first)) by {
            assert forall|i: int| 0 <= i < first.len() implies #[trigger] first[i] != '\n' by {
                assert(first[i] == s[i]);
            }
        }
        assert forall|i: int| 0 <= i < lines(s).len() implies single_line(#[trigger] lines(s)[i]) by {
            if i > 0 {
                assert(lines(s)[i] == lines(rest)[i - 1]);
            }
        }
    } else {
        assert(single_line(s)) by {
            assert forall|i: int| 0 <= i < s.len() implies #[trigger] s[i] != '\n' by {}
        }
    }
}

/// A sequence without a line feed is its own single line.
pub proof fn lemma_lines_single(s: Seq<char>)
    requires
        single_line(s),
    ensures
        lines(s) == seq![s],
{
    lemma_line_end(s, s.len() as int);
}

/// The lines of two texts with a line feed between them are the lines of the
/// first and then the lines of the second.
pub proof fn lemma_lines_concat(a: Seq<char>, b: Seq<char>)
    ensures
        lines(a + seq!['\n'] + b) == lines(a) + lines(b),
    decreases a.len(),
{
    let whole = a + seq!['\n'] + b;
    lemma_line_end(a, 0);
    let end = line_end(a) as int;
    assert forall|i: int| 0 <= i < end implies #[trigger] whole[i] != '\n' by {
        assert(whole[i] == a[i]);
    }
    if end < a.len() {
        assert(whole[end] == a[end]);
        lemma_line_end(whole, end);
        let rest = a.skip(end + 1);
        lemma_lines_concat(rest, b);
        assert(whole.skip(end + 1) =~= rest + seq!['\n'] + b);
        assert(whole.take(end) =~= a.take(end));
        assert(seq![a.take(end)] + (lines(rest) + lines(b)) =~= (seq![a.take(end)] + lines(rest))
            + lines(b));
    } else {
        assert(whole[end] == '\n');
        lemma_line_end(whole, end);
        assert(whole.skip(end + 1) =~= b);
        assert(whole.take(end) =~= a);
    }
}

/// Joining one more line.
pub proof fn lemma_join_lines_push(lines: Seq<Seq<char>>, line: Seq<char>)
    ensures
        join_lines(lines.push(line)) == if lines.len() == 0 {
            line
        } else {
            join_lines(lines) + seq!['\n'] + line
        },
{
    assert(lines.push(line).drop_last() == lines);
}

/// Joining two lists of lines, neither of them empty.
pub proof fn lemma_join_lines_concat(a: Seq<Seq<char>>, b: Seq<Seq<char>>)
    requires
        a.len() > 0,
        b.len() > 0,
    ensures
        join_lines(a + b) == join_lines(a) + seq!['\n'] + join_lines(b),
    decreases b.len(),
{
    if b.len() == 1 {
        assert(a + b == a.push(b[0]));
        lemma_join_lines_push(a, b[0]);
    } else {
        let front = b.drop_last();
        lemma_join_lines_concat(a, front);
        assert(a + b == (a + front).push(b.last()));
        lemma_join_lines_push(a + front, b.last());
        assert(b == front.push(b.last()));
        lemma_join_lines_push(front, b.last());
        assert((join_lines(a) + seq!['\n'] + join_lines(front)) + seq!['\n'] + b.last()
            =~= join_lines(a) + seq!['\n'] + (join_lines(front) + seq!['\n'] + b.last()));
    }
}

/// The lines of joined single lines are those lines.
pub proof fn lemma_lines_of_join(list: Seq<Seq<char>>)
    requires
        list.len() > 0,
        single_lines(list),
    ensures
        lines(join_lines(list)) == list,
    decreases list.len(),
{
    if list.len() == 1 {
        lemma_lines_single(list[0]);
        assert(list == seq![list[0]]);
    } else {
        let front = list.drop_last();
        assert(single_lines(front)) by {
            assert forall|i: int| 0 <= i < front.len() implies single_line(#[trigger] front[i]) by {
                assert(front[i] == list[i]);
            }
        }
        lemma_lines_of_join(front);
        lemma_lines_concat(join_lines(front), list.last());
        lemma_lines_single(list.last());
        assert(front + seq![list.last()] == list);
    }
}

/// Joining the lines of a text gives the text back.
pub proof fn lemma_join_of_lines(s: Seq<char>)
    ensures
        join_lines(lines(s)) == s,
    decreases s.len(),
{
    lemma_line_end(s, 0);
    let end = line_end(s) as int;
    if end < s.len() {
        let rest = s.skip(end + 1);
        lemma_join_of_lines(rest);
        lemma_lines_nonempty(rest);
        lemma_join_lines_concat(seq![s.take(end)], lines(rest));
        assert(s.take(end) + seq!['\n'] + rest =~= s);
    }
}

/// The lines of a text that lost its first character: the first line is gone
/// if that character was a line feed, and else has lost it.
pub proof fn lemma_lines_drop_first(s: Seq<char>)
    requires
        s.len() > 0,
    ensures
        lines(s).len() >= 1,
        s[0] == '\n' ==> lines(s.drop_first()) == lines(s).drop_first(),
        s[0] != '\n' ==> lines(s)[0].len() > 0 && lines(s.drop_first()) == lines(s).update(
            0,
            lines(s)[0].drop_first(),
        ),
{
    let rest = s.drop_first();
    lemma_line_end(s, 0);
    lemma_line_end(rest, 0);
    lemma_lines_nonempty(s);
    if s[0] == '\n' {
        assert(s.skip(1) == rest);
        assert((seq![s.take(0)] + lines(rest)).drop_first() =~= lines(rest));
    } else {
        let end = line_end(s) as int;
        assert(line_end(rest) == end - 1);
        if end < s.len() {
            assert(rest.skip(end) =~= s.skip(end + 1));
            assert(rest.take(end - 1) =~= s.take(end).drop_first());
            assert(seq![rest.take(end - 1)] + lines(rest.skip(end)) =~= (seq![s.take(end)] + lines(
                s.skip(end + 1),
            )).update(0, s.take(end).drop_first()));
        } else {
            assert(seq![rest] =~= seq![s].update(0, s.drop_first()));
        }
    }
}

/// The lines of a text with one more character at its end: one more empty
/// line if the character is a line feed, and else a longer last line.
pub proof fn lemma_lines_push(s: Seq<char>, c: char)
    ensures
        lines(s).len() >= 1,
        c == '\n' ==> lines(s.push(c)) == lines(s).push(Seq::empty()),
        c != '\n' ==> lines(s.push(c)) == lines(s).drop_last().push(lines(s).last().push(c)),
    decreases s.len(),
{
    lemma_lines_nonempty(s);
    if c == '\n' {
        lemma_lines_concat(s, Seq::empty());
        assert(s + seq!['\n'] + Seq::<char>::empty() =~= s.push(c));
        lemma_lines_single(Seq::<char>::empty());
        assert(lines(s) + seq![Seq::<char>::empty()] =~= lines(s).push(Seq::empty()));
    } else {
        let longer = s.push(c);
        lemma_line_end(s, 0);
        let end = line_end(s) as int;
        assert forall|i: int| 0 <= i < end implies #[trigger] longer[i] != '\n' by {
            assert(longer[i] == s[i]);
        }
        if end < s.len() {
            assert(longer[end] == s[end]);
            lemma_line_end(longer, end);
            let rest = s.skip(end + 1);
            lemma_lines_push(rest, c);
            assert(longer.skip(end + 1) =~= rest.push(c));
            assert(longer.take(end) =~= s.take(end));
            assert(seq![s.take(end)] + lines(rest).drop_last().push(lines(rest).last().push(c))
                =~= (seq![s.take(end)] + lines(rest)).drop_last().push(
                (seq![s.take(end)] + lines(rest)).last().push(c),
            ));
        } else {
            lemma_line_end(longer, longer.len() as int);
            assert(seq![longer] =~= seq![s].drop_last().push(seq![s].last().push(c)));
        }
    }
}

/// Trimming at the start, one character at a time.
pub proof fn lemma_trim_start_unfold(s: Seq<char>)
    ensures
        trim_start(s) == if s.len() > 0 && is_whitespace(s[0]) {
            trim_start(s.drop_first())
        } else {
            s
        },
{
    lemma_leading_whitespace(s, 0);
    if s.len() > 0 && is_whitespace(s[0]) {
        lemma_leading_whitespace(s.drop_first(), 0);
        assert(s.skip(leading_whitespace(s) as int) =~= s.drop_first().skip(
            leading_whitespace(s.drop_first()) as int,
        ));
    } else {
        assert(s.skip(0) =~= s);
    }
}

/// Trimming at the end, one character at a time.
pub proof fn lemma_trim_end_unfold(s: Seq<char>)
    ensures
        trim_end(s) == if s.len() > 0 && is_whitespace(s.last()) {
            trim_end(s.drop_last())
        } else {
            s
        },
{
    lemma_trailing_whitespace(s, 0);
    if s.len() > 0 && is_whitespace(s.last()) {
        lemma_trailing_whitespace(s.drop_last(), 0);
        assert(s.take(s.len() - trailing_whitespace(s)) =~= s.drop_last().take(
            s.drop_last().len() - trailing_whitespace(s.drop_last()),
        ));
    } else {
        assert(s.take(s.len() as int) =~= s);
    }
}

/// A number in decimal notation has a digit, and from ten on at least two.
pub proof fn lemma_decimal_len(n: nat)
    ensures
        decimal(n).len() >= 1,
        n >= 10 ==> decimal(n).len() >= 2,
    decreases n,
{
    if n >= 10 {
        lemma_decimal_len(n / 10);
    }
}

/// Two numbers with the same decimal notation are the same number.
pub proof fn lemma_decimal_injective(a: nat, b: nat)
    requires
        decimal(a) == decimal(b),
    ensures
        a == b,
    decreases a,
{
    lemma_decimal_len(a);
    lemma_decimal_len(b);
    if a < 10 && b < 10 {
        assert(decimal(a)[0] == digit_char(a));
        assert(decimal(b)[0] == digit_char(b));
    } else if a >= 10 && b >= 10 {
        let front_a = decimal(a / 10);
        let front_b = decimal(b / 10);
        assert(front_a.push(digit_char(a % 10)).last() == digit_char(a % 10));
        assert(front_b.push(digit_char(b % 10)).last() == digit_char(b % 10));
        assert(front_a.push(digit_char(a % 10)).drop_last() =~= front_a);
        assert(front_b.push(digit_char(b % 10)).drop_last() =~= front_b);
        lemma_decimal_injective(a / 10, b / 10);
    }
}

} // verus!
