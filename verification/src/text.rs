//! Character sequences: whitespace, trimming, lines, searching and numbers in
//! decimal notation.

use vstd::prelude::*;

verus! {

/// `String::push` appends one character to the string.
pub assume_specification[ String::push ](s: &mut String, c: char)
    ensures
        final(s)@ == old(s)@.push(c),
;

/// The characters with the Unicode property `White_Space`.
pub open spec fn is_whitespace(c: char) -> bool {
    let n = c as u32;
    ||| 0x9 <= n <= 0xd
    ||| n == 0x20
    ||| n == 0x85
    ||| n == 0xa0
    ||| n == 0x1680
    ||| 0x2000 <= n <= 0x200a
    ||| n == 0x2028
    ||| n == 0x2029
    ||| n == 0x202f
    ||| n == 0x205f
    ||| n == 0x3000
}

/// Whether `c` is a whitespace character.
pub fn is_whitespace_char(c: char) -> (b: bool)
    ensures
        b == is_whitespace(c),
{
    let n: u32 = c as u32;
    (0x9 <= n && n <= 0xd) || n == 0x20 || n == 0x85 || n == 0xa0 || n == 0x1680 || (0x2000 <= n
        && n <= 0x200a) || n == 0x2028 || n == 0x2029 || n == 0x202f || n == 0x205f || n == 0x3000
}

/// The number of whitespace characters that `s` begins with.
pub open spec fn leading_whitespace(s: Seq<char>) -> nat
    decreases s.len(),
{
    if s.len() > 0 && is_whitespace(s[0]) {
        1 + leading_whitespace(s.drop_first())
    } else {
        0
    }
}

/// The number of whitespace characters that `s` ends with.
pub open spec fn trailing_whitespace(s: Seq<char>) -> nat
    decreases s.len(),
{
    if s.len() > 0 && is_whitespace(s.last()) {
        1 + trailing_whitespace(s.drop_last())
    } else {
        0
    }
}

/// The number of characters equal to `c` that `s` begins with.
pub open spec fn leading_run(s: Seq<char>, c: char) -> nat
    decreases s.len(),
{
    if s.len() > 0 && s[0] == c {
        1 + leading_run(s.drop_first(), c)
    } else {
        0
    }
}

/// `s` without the whitespace it begins with.
pub open spec fn trim_start(s: Seq<char>) -> Seq<char> {
    s.skip(leading_whitespace(s) as int)
}

/// `s` without the whitespace it ends with.
pub open spec fn trim_end(s: Seq<char>) -> Seq<char> {
    s.take(s.len() - trailing_whitespace(s))
}

/// `s` without the whitespace around it.
pub open spec fn trim(s: Seq<char>) -> Seq<char> {
    trim_end(trim_start(s))
}

/// `s` neither begins nor ends with whitespace.
pub open spec fn is_trimmed(s: Seq<char>) -> bool {
    s.len() > 0 ==> !is_whitespace(s[0]) && !is_whitespace(s.last())
}

/// What singles out `leading_whitespace(s)`: the first `n` characters are
/// whitespace and the next one, if there is one, is not.
pub proof fn lemma_leading_whitespace(s: Seq<char>, n: int)
    ensures
        leading_whitespace(s) <= s.len(),
        forall|i: int| 0 <= i < leading_whitespace(s) ==> is_whitespace(#[trigger] s[i]),
        leading_whitespace(s) < s.len() ==> !is_whitespace(s[leading_whitespace(s) as int]),
        (0 <= n <= s.len() && (forall|i: int| 0 <= i < n ==> is_whitespace(#[trigger] s[i])) && (n
            < s.len() ==> !is_whitespace(s[n]))) ==> leading_whitespace(s) == n,
    decreases s.len(),
{
    if s.len() > 0 && is_whitespace(s[0]) {
        let rest = s.drop_first();
        lemma_leading_whitespace(rest, n - 1);
        assert forall|i: int| 0 <= i < leading_whitespace(s) implies is_whitespace(
            #[trigger] s[i],
        ) by {
            if i > 0 {
                assert(s[i] == rest[i - 1]);
            }
        }
        if 0 <= n <= s.len() && (forall|i: int| 0 <= i < n ==> is_whitespace(#[trigger] s[i])) && (n
            < s.len() ==> !is_whitespace(s[n])) {
            assert(n >= 1);
            assert forall|i: int| 0 <= i < n - 1 implies is_whitespace(#[trigger] rest[i]) by {
                assert(rest[i] == s[i + 1]);
            }
        }
    }
}

/// What singles out `trailing_whitespace(s)`.
pub proof fn lemma_trailing_whitespace(s: Seq<char>, n: int)
    ensures
        trailing_whitespace(s) <= s.len(),
        forall|i: int| s.len() - trailing_whitespace(s) <= i < s.len() ==> is_whitespace(
            #[trigger] s[i],
        ),
        trailing_whitespace(s) < s.len() ==> !is_whitespace(
            s[s.len() - trailing_whitespace(s) - 1],
        ),
        (0 <= n <= s.len() && (forall|i: int| s.len() - n <= i < s.len() ==> is_whitespace(
            #[trigger] s[i],
        )) && (n < s.len() ==> !is_whitespace(s[s.len() - n - 1]))) ==> trailing_whitespace(s)
            == n,
    decreases s.len(),
{
    if s.len() > 0 && is_whitespace(s.last()) {
        let rest = s.drop_last();
        lemma_trailing_whitespace(rest, n - 1);
        assert forall|i: int| s.len() - trailing_whitespace(s) <= i < s.len() implies is_whitespace(
            #[trigger] s[i],
        ) by {
            if i < s.len() - 1 {
                assert(s[i] == rest[i]);
            }
        }
        if 0 <= n <= s.len() && (forall|i: int| s.len() - n <= i < s.len() ==> is_whitespace(
            #[trigger] s[i],
        )) && (n < s.len() ==> !is_whitespace(s[s.len() - n - 1])) {
            assert(n >= 1);
            assert forall|i: int| rest.len() - (n - 1) <= i < rest.len() implies is_whitespace(
                #[trigger] rest[i],
            ) by {
                assert(rest[i] == s[i]);
            }
        }
    }
}

/// What singles out `leading_run(s, c)`.
pub proof fn lemma_leading_run(s: Seq<char>, c: char, n: int)
    ensures
        leading_run(s, c) <= s.len(),
        forall|i: int| 0 <= i < leading_run(s, c) ==> #[trigger] s[i] == c,
        leading_run(s, c) < s.len() ==> s[leading_run(s, c) as int] != c,
        (0 <= n <= s.len() && (forall|i: int| 0 <= i < n ==> #[trigger] s[i] == c) && (n < s.len()
            ==> s[n] != c)) ==> leading_run(s, c) == n,
    decreases s.len(),
{
    if s.len() > 0 && s[0] == c {
        let rest = s.drop_first();
        lemma_leading_run(rest, c, n - 1);
        assert forall|i: int| 0 <= i < leading_run(s, c) implies #[trigger] s[i] == c by {
            if i > 0 {
                assert(s[i] == rest[i - 1]);
            }
        }
        if 0 <= n <= s.len() && (forall|i: int| 0 <= i < n ==> #[trigger] s[i] == c) && (n
            < s.len() ==> s[n] != c) {
            assert(n >= 1);
            assert forall|i: int| 0 <= i < n - 1 implies #[trigger] rest[i] == c by {
                assert(rest[i] == s[i + 1]);
            }
        }
    }
}

/// Counts the whitespace characters that `s` begins with.
pub fn count_leading_whitespace(s: &[char]) -> (n: usize)
    ensures
        n == leading_whitespace(s@),
        n <= s@.len(),
{
    let mut n: usize = 0;
    while n < s.len() && is_whitespace_char(s[n])
        invariant
            n <= s@.len(),
            forall|i: int| 0 <= i < n ==> is_whitespace(#[trigger] s@[i]),
        decreases s@.len() - n,
    {
        n += 1;
    }
    proof {
        lemma_leading_whitespace(s@, n as int);
    }
    n
}

/// Counts the whitespace characters that `s` ends with.
pub fn count_trailing_whitespace(s: &[char]) -> (n: usize)
    ensures
        n == trailing_whitespace(s@),
        n <= s@.len(),
{
    let len: usize = s.len();
    let mut n: usize = 0;
    while n < len && is_whitespace_char(s[len - n - 1])
        invariant
            len == s@.len(),
            n <= len,
            forall|i: int| len - n <= i < len ==> is_whitespace(#[trigger] s@[i]),
        decreases len - n,
    {
        n += 1;
    }
    proof {
        lemma_trailing_whitespace(s@, n as int);
    }
    n
}

/// Counts the characters equal to `c` that `s` begins with.
pub fn count_leading_run(s: &[char], c: char) -> (n: usize)
    ensures
        n == leading_run(s@, c),
        n <= s@.len(),
{
    let mut n: usize = 0;
    while n < s.len() && s[n] == c
        invariant
            n <= s@.len(),
            forall|i: int| 0 <= i < n ==> #[trigger] s@[i] == c,
        decreases s@.len() - n,
    {
        n += 1;
    }
    proof {
        lemma_leading_run(s@, c, n as int);
    }
    n
}

/// `s` without the whitespace it begins with.
pub fn trim_start_of(s: &[char]) -> (t: &[char])
    ensures
        t@ == trim_start(s@),
{
    let n: usize = count_leading_whitespace(s);
    let t = &s[n..s.len()];
    proof {
        assert(s@.subrange(n as int, s@.len() as int) == s@.skip(n as int));
    }
    t
}

/// `s` without the whitespace around it.
pub fn trim_of(s: &[char]) -> (t: &[char])
    ensures
        t@ == trim(s@),
{
    let body = trim_start_of(s);
    let n: usize = count_trailing_whitespace(body);
    let t = &body[0..body.len() - n];
    proof {
        assert(body@.subrange(0, body@.len() - n) == body@.take(body@.len() - n));
    }
    t
}

/// The characters of a string, in order.
pub fn chars_of(s: &str) -> (chars: Vec<char>)
    ensures
        chars@ == s@,
{
    let mut chars: Vec<char> = Vec::new();
    for c in it: s.chars()
        invariant
            chars@ == it.seq().take(it.index()),
            it.seq() == s@,
    {
        chars.push(c);
    }
    chars
}

/// The string made of the given characters.
pub fn string_of(chars: &[char]) -> (s: String)
    ensures
        s@ == chars@,
{
    let mut s = String::new();
    let mut i: usize = 0;
    while i < chars.len()
        invariant
            i <= chars@.len(),
            s@ == chars@.take(i as int),
        decreases chars@.len() - i,
    {
        s.push(chars[i]);
        proof {
            assert(chars@.take(i + 1) == chars@.take(i as int).push(chars@[i as int]));
        }
        i += 1;
    }
    proof {
        assert(chars@.take(i as int) == chars@);
    }
    s
}

/// Appends the characters of `tail` to `buffer`.
pub fn push_all(buffer: &mut Vec<char>, tail: &[char])
    ensures
        final(buffer)@ == old(buffer)@ + tail@,
{
    let mut i: usize = 0;
    while i < tail.len()
        invariant
            i <= tail@.len(),
            buffer@ == old(buffer)@ + tail@.take(i as int),
        decreases tail@.len() - i,
    {
        buffer.push(tail[i]);
        proof {
            assert(tail@.take(i + 1) == tail@.take(i as int).push(tail@[i as int]));
            assert(old(buffer)@ + tail@.take(i as int).push(tail@[i as int]) == (old(buffer)@
                + tail@.take(i as int)).push(tail@[i as int]));
        }
        i += 1;
    }
    proof {
        assert(tail@.take(i as int) == tail@);
    }
}

/// Appends the characters of the string `tail` to `buffer`.
pub fn push_str(buffer: &mut Vec<char>, tail: &str)
    ensures
        final(buffer)@ == old(buffer)@ + tail@,
{
    let chars = chars_of(tail);
    push_all(buffer, chars.as_slice());
}

/// The number of characters before the first line feed of `s`, or the length
/// of `s` if it has none.
pub open spec fn line_end(s: Seq<char>) -> nat
    decreases s.len(),
{
    if s.len() > 0 && s[0] != '\n' {
        1 + line_end(s.drop_first())
    } else {
        0
    }
}

/// The lines of `s`: the pieces between its line feeds. There is always at
/// least one line, and a text that ends with a line feed ends with an empty
/// line.
pub open spec fn lines(s: Seq<char>) -> Seq<Seq<char>>
    decreases s.len(),
{
    let end = line_end(s);
    if end < s.len() {
        seq![s.take(end as int)] + lines(s.skip(end as int + 1))
    } else {
        seq![s]
    }
}

/// The lines put together again, with a line feed between two lines.
pub open spec fn join_lines(lines: Seq<Seq<char>>) -> Seq<char>
    decreases lines.len(),
{
    if lines.len() == 0 {
        Seq::empty()
    } else if lines.len() == 1 {
        lines[0]
    } else {
        join_lines(lines.drop_last()) + seq!['\n'] + lines.last()
    }
}

/// The character sequences that the slices hold.
pub open spec fn slice_views(slices: Seq<&[char]>) -> Seq<Seq<char>> {
    slices.map_values(|slice: &[char]| slice@)
}

/// What singles out `line_end(s)`.
pub proof fn lemma_line_end(s: Seq<char>, n: int)
    ensures
        line_end(s) <= s.len(),
        forall|i: int| 0 <= i < line_end(s) ==> #[trigger] s[i] != '\n',
        line_end(s) < s.len() ==> s[line_end(s) as int] == '\n',
        (0 <= n <= s.len() && (forall|i: int| 0 <= i < n ==> #[trigger] s[i] != '\n') && (n
            < s.len() ==> s[n] == '\n')) ==> line_end(s) == n,
    decreases s.len(),
{
    if s.len() > 0 && s[0] != '\n' {
        let rest = s.drop_first();
        lemma_line_end(rest, n - 1);
        assert forall|i: int| 0 <= i < line_end(s) implies #[trigger] s[i] != '\n' by {
            if i > 0 {
                assert(s[i] == rest[i - 1]);
            }
        }
        if 0 <= n <= s.len() && (forall|i: int| 0 <= i < n ==> #[trigger] s[i] != '\n') && (n
            < s.len() ==> s[n] == '\n') {
            assert(n >= 1);
            assert forall|i: int| 0 <= i < n - 1 implies #[trigger] rest[i] != '\n' by {
                assert(rest[i] == s[i + 1]);
            }
        }
    }
}

/// Splits `s` into its lines.
pub fn split_lines<'a>(s: &'a [char]) -> (result: Vec<&'a [char]>)
    ensures
        slice_views(result@) == lines(s@),
        result@.len() >= 1,
{
    let mut result: Vec<&'a [char]> = Vec::new();
    let len: usize = s.len();
    let mut start: usize = 0;
    proof {
        assert(s@.skip(0) == s@);
        assert(slice_views(result@) + lines(s@) == lines(s@));
    }
    loop
        invariant_except_break
            len == s@.len(),
            start <= len,
            lines(s@) == slice_views(result@) + lines(s@.skip(start as int)),
        ensures
            slice_views(result@) == lines(s@),
            result@.len() >= 1,
        decreases len - start,
    {
        let mut end: usize = start;
        while end < len && s[end] != '\n'
            invariant
                len == s@.len(),
                start <= end <= len,
                forall|i: int| start <= i < end ==> #[trigger] s@[i] != '\n',
            decreases len - end,
        {
            end += 1;
        }
        let ghost rest = s@.skip(start as int);
        let ghost before = slice_views(result@);
        proof {
            assert forall|i: int| 0 <= i < end - start implies #[trigger] rest[i] != '\n' by {
                assert(rest[i] == s@[start + i]);
            }
            lemma_line_end(rest, end - start);
        }
        let line = &s[start..end];
        result.push(line);
        proof {
            assert(slice_views(result@) == before.push(line@)) by {
                assert(slice_views(result@) =~= before.push(line@));
            }
            assert(line@ == rest.take(end - start));
        }
        if end < len {
            proof {
                assert(rest.skip(end - start + 1) == s@.skip(end + 1));
                assert(before + (seq![rest.take(end - start)] + lines(s@.skip(end + 1)))
                    == before.push(line@) + lines(s@.skip(end + 1)));
            }
            start = end + 1;
        } else {
            proof {
                assert(rest.take(end - start) == rest);
                assert(before + seq![rest] == before.push(line@));
            }
            break;
        }
    }
    result
}

/// Joins the lines with a line feed between two lines.
pub fn join_all(lines: &Vec<&[char]>) -> (joined: Vec<char>)
    ensures
        joined@ == join_lines(slice_views(lines@)),
{
    let mut joined: Vec<char> = Vec::new();
    let mut i: usize = 0;
    while i < lines.len()
        invariant
            i <= lines@.len(),
            joined@ == join_lines(slice_views(lines@).take(i as int)),
        decreases lines@.len() - i,
    {
        let ghost views = slice_views(lines@);
        proof {
            assert(views.take(i + 1).drop_last() == views.take(i as int));
            assert(views.take(i + 1).last() == lines@[i as int]@);
        }
        if i > 0 {
            joined.push('\n');
        }
        push_all(&mut joined, lines[i]);
        i += 1;
    }
    proof {
        assert(slice_views(lines@).take(i as int) == slice_views(lines@));
    }
    joined
}

/// The decimal digit for a number below ten.
pub open spec fn digit_char(d: nat) -> char {
    if d == 0 {
        '0'
    } else if d == 1 {
        '1'
    } else if d == 2 {
        '2'
    } else if d == 3 {
        '3'
    } else if d == 4 {
        '4'
    } else if d == 5 {
        '5'
    } else if d == 6 {
        '6'
    } else if d == 7 {
        '7'
    } else if d == 8 {
        '8'
    } else {
        '9'
    }
}

/// A number in decimal notation, without leading zeros.
pub open spec fn decimal(n: nat) -> Seq<char>
    decreases n,
{
    if n < 10 {
        seq![digit_char(n)]
    } else {
        decimal(n / 10).push(digit_char(n % 10))
    }
}

fn digit_of(d: usize) -> (c: char)
    requires
        d < 10,
    ensures
        c == digit_char(d as nat),
{
    if d == 0 {
        '0'
    } else if d == 1 {
        '1'
    } else if d == 2 {
        '2'
    } else if d == 3 {
        '3'
    } else if d == 4 {
        '4'
    } else if d == 5 {
        '5'
    } else if d == 6 {
        '6'
    } else if d == 7 {
        '7'
    } else if d == 8 {
        '8'
    } else {
        '9'
    }
}

/// Writes `n` in decimal notation.
pub fn decimal_of(n: usize) -> (digits: Vec<char>)
    ensures
        digits@ == decimal(n as nat),
    decreases n,
{
    if n < 10 {
        let mut digits: Vec<char> = Vec::new();
        digits.push(digit_of(n));
        digits
    } else {
        let mut digits = decimal_of(n / 10);
        digits.push(digit_of(n % 10));
        digits
    }
}

/// `needle` stands in `haystack` at position `at`.
pub open spec fn occurs_at(haystack: Seq<char>, needle: Seq<char>, at: int) -> bool {
    &&& 0 <= at
    &&& at + needle.len() <= haystack.len()
    &&& haystack.subrange(at, at + needle.len()) == needle
}

/// `needle` stands somewhere in `haystack`. The empty sequence stands in
/// every sequence.
pub open spec fn contains(haystack: Seq<char>, needle: Seq<char>) -> bool {
    exists|at: int| occurs_at(haystack, needle, at)
}

fn matches_at(haystack: &[char], needle: &[char], at: usize) -> (b: bool)
    requires
        at + needle@.len() <= haystack@.len(),
    ensures
        b == occurs_at(haystack@, needle@, at as int),
{
    let len: usize = haystack.len();
    let mut k: usize = 0;
    while k < needle.len()
        invariant
            k <= needle@.len(),
            len == haystack@.len(),
            at + needle@.len() <= len,
            forall|j: int| 0 <= j < k ==> haystack@[at + j] == #[trigger] needle@[j],
        decreases needle@.len() - k,
    {
        if haystack[at + k] != needle[k] {
            proof {
                assert(haystack@.subrange(at as int, at + needle@.len())[k as int]
                    != needle@[k as int]);
            }
            return false;
        }
        k += 1;
    }
    proof {
        assert(haystack@.subrange(at as int, at + needle@.len()) =~= needle@);
    }
    true
}

/// Whether `needle` stands somewhere in `haystack`.
pub fn contains_chars(haystack: &[char], needle: &[char]) -> (b: bool)
    ensures
        b == contains(haystack@, needle@),
{
    if needle.len() > haystack.len() {
        return false;
    }
    let last: usize = haystack.len() - needle.len();
    let mut at: usize = 0;
    loop
        invariant
            last + needle@.len() == haystack@.len(),
            at <= last,
            forall|j: int| 0 <= j < at ==> !occurs_at(haystack@, needle@, j),
        decreases last - at,
    {
        if matches_at(haystack, needle, at) {
            return true;
        }
        if at == last {
            return false;
        }
        at += 1;
    }
}

/// The name of what `str::to_lowercase` returns for a string: its lower-case
/// form by the Unicode case mappings, which depends on the string alone.
pub uninterp spec fn lowercase(s: Seq<char>) -> Seq<char>;

/// `str::to_lowercase`: the lower-case form of `s`.
#[verifier::external_body]
pub(crate) fn to_lowercase(s: &str) -> (lower: String)
    ensures
        lower@ == lowercase(s@),
{
    s.to_lowercase()
}

/// The number of characters equal to `c` that `s` ends with.
pub open spec fn trailing_run(s: Seq<char>, c: char) -> nat
    decreases s.len(),
{
    if s.len() > 0 && s.last() == c {
        1 + trailing_run(s.drop_last(), c)
    } else {
        0
    }
}

/// What singles out `trailing_run(s, c)`.
pub proof fn lemma_trailing_run(s: Seq<char>, c: char, n: int)
    ensures
        trailing_run(s, c) <= s.len(),
        forall|i: int| s.len() - trailing_run(s, c) <= i < s.len() ==> #[trigger] s[i] == c,
        trailing_run(s, c) < s.len() ==> s[s.len() - trailing_run(s, c) - 1] != c,
        (0 <= n <= s.len() && (forall|i: int| s.len() - n <= i < s.len() ==> #[trigger] s[i] == c)
            && (n < s.len() ==> s[s.len() - n - 1] != c)) ==> trailing_run(s, c) == n,
    decreases s.len(),
{
    if s.len() > 0 && s.last() == c {
        let rest = s.drop_last();
        lemma_trailing_run(rest, c, n - 1);
        assert forall|i: int| s.len() - trailing_run(s, c) <= i < s.len() implies #[trigger] s[i]
            == c by {
            if i < s.len() - 1 {
                assert(s[i] == rest[i]);
            }
        }
        if 0 <= n <= s.len() && (forall|i: int| s.len() - n <= i < s.len() ==> #[trigger] s[i] == c)
            && (n < s.len() ==> s[s.len() - n - 1] != c) {
            assert(n >= 1);
            assert forall|i: int| rest.len() - (n - 1) <= i < rest.len() implies #[trigger] rest[i]
                == c by {
                assert(rest[i] == s[i]);
            }
        }
    }
}

/// Counts the characters equal to `c` that `s` ends with.
pub fn count_trailing_run(s: &[char], c: char) -> (n: usize)
    ensures
        n == trailing_run(s@, c),
        n <= s@.len(),
{
    let len: usize = s.len();
    let mut n: usize = 0;
    while n < len && s[len - n - 1] == c
        invariant
            len == s@.len(),
            n <= len,
            forall|i: int| len - n <= i < len ==> #[trigger] s@[i] == c,
        decreases len - n,
    {
        n += 1;
    }
    proof {
        lemma_trailing_run(s@, c, n as int);
    }
    n
}

/// Whether two slices hold the same characters.
pub fn same_chars(a: &[char], b: &[char]) -> (same: bool)
    ensures
        same == (a@ == b@),
{
    if a.len() != b.len() {
        return false;
    }
    let mut i: usize = 0;
    while i < a.len()
        invariant
            a@.len() == b@.len(),
            i <= a@.len(),
            forall|j: int| 0 <= j < i ==> a@[j] == b@[j],
        decreases a@.len() - i,
    {
        if a[i] != b[i] {
            return false;
        }
        i += 1;
    }
    proof {
        assert(a@ =~= b@);
    }
    true
}

/// Whether two strings hold the same characters.
pub fn same_text(a: &str, b: &str) -> (same: bool)
    ensures
        same == (a@ == b@),
{
    let left = chars_of(a);
    let right = chars_of(b);
    same_chars(left.as_slice(), right.as_slice())
}

/// Every character of `s` is whitespace.
pub open spec fn all_blank(s: Seq<char>) -> bool {
    leading_whitespace(s) == s.len()
}

/// Whether every character of `s` is whitespace.
pub fn is_blank(s: &str) -> (blank: bool)
    ensures
        blank == all_blank(s@),
{
    let chars = chars_of(s);
    count_leading_whitespace(chars.as_slice()) == chars.len()
}

} // verus!
