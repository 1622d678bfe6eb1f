//! Text as sequences of characters: splitting, trimming, searching, numbers.
use vstd::prelude::*;
use vstd::utf8::{encode_utf8, encode_utf8_decode_utf8};

verus! {

// ---------------------------------------------------------------- strings

/// `String::push` appends the character to the end of the string.
pub assume_specification[ String::push ](s: &mut String, c: char)
    ensures
        final(s)@ == old(s)@.push(c),
;

/// The characters of `s`, in order.
pub fn chars_of(s: &str) -> (out: Vec<char>)
    ensures
        out@ == s@,
{
    let mut out: Vec<char> = Vec::new();
    for c in it: s.chars()
        invariant
            out@ == it.seq().take(it.index()),
            it.seq() == s@,
    {
        out.push(c);
    }
    out
}

/// The string made of the characters `v[from..to]`.
pub fn string_of(v: &Vec<char>, from: usize, to: usize) -> (out: String)
    requires
        from <= to <= v.len(),
    ensures
        out@ == v@.subrange(from as int, to as int),
{
    let mut out = String::new();
    let mut i: usize = from;
    while i < to
        invariant
            from <= i <= to <= v.len(),
            out@ == v@.subrange(from as int, i as int),
        decreases to - i,
    {
        out.push(v[i]);
        i = i + 1;
    }
    out
}

/// Two texts with the same UTF-8 encoding are the same text.
pub proof fn encoding_is_injective(a: Seq<char>, b: Seq<char>)
    requires
        encode_utf8(a) == encode_utf8(b),
    ensures
        a == b,
{
    encode_utf8_decode_utf8(a);
    encode_utf8_decode_utf8(b);
}

/// Whether two byte strings are equal.
pub fn same_bytes(a: &[u8], b: &[u8]) -> (r: bool)
    ensures
        r == (a@ == b@),
{
    if a.len() != b.len() {
        return false;
    }
    let mut i: usize = 0;
    while i < a.len()
        invariant
            a.len() == b.len(),
            i <= a.len(),
            a@.take(i as int) == b@.take(i as int),
        decreases a.len() - i,
    {
        if a[i] != b[i] {
            return false;
        }
        assert(a@.take(i + 1) == a@.take(i as int).push(a[i as int]));
        assert(b@.take(i + 1) == b@.take(i as int).push(b[i as int]));
        i = i + 1;
    }
    assert(a@.take(i as int) == a@);
    assert(b@.take(i as int) == b@);
    true
}

/// Whether two texts are equal.
pub fn same_text(a: &str, b: &str) -> (r: bool)
    ensures
        r == (a@ == b@),
{
    let r = same_bytes(a.as_bytes(), b.as_bytes());
    proof {
        if r {
            encoding_is_injective(a@, b@);
        }
    }
    r
}

/// A copy of the text.
pub fn copy_text(s: &str) -> (out: String)
    ensures
        out@ == s@,
{
    s.to_owned()
}

// ------------------------------------------------------------- whitespace

/// The characters with the Unicode property `White_Space`.
pub open spec fn is_space(c: char) -> bool {
    let u = c as u32;
    ||| 0x9 <= u <= 0xd
    ||| u == 0x20
    ||| u == 0x85
    ||| u == 0xa0
    ||| u == 0x1680
    ||| 0x2000 <= u <= 0x200a
    ||| u == 0x2028
    ||| u == 0x2029
    ||| u == 0x202f
    ||| u == 0x205f
    ||| u == 0x3000
}

/// Whether `c` is a whitespace character.
pub fn space(c: char) -> (r: bool)
    ensures
        r == is_space(c),
{
    let u: u32 = c as u32;
    (0x9 <= u && u <= 0xd) || u == 0x20 || u == 0x85 || u == 0xa0 || u == 0x1680 || (0x2000 <= u
        && u <= 0x200a) || u == 0x2028 || u == 0x2029 || u == 0x202f || u == 0x205f || u == 0x3000
}

/// `s` without its leading whitespace.
pub open spec fn trim_start(s: Seq<char>) -> Seq<char>
    decreases s.len(),
{
    if s.len() > 0 && is_space(s[0]) {
        trim_start(s.drop_first())
    } else {
        s
    }
}

/// `s` without its trailing whitespace.
pub open spec fn trim_end(s: Seq<char>) -> Seq<char>
    decreases s.len(),
{
    if s.len() > 0 && is_space(s.last()) {
        trim_end(s.drop_last())
    } else {
        s
    }
}

/// `s` without its leading and trailing whitespace.
pub open spec fn trim(s: Seq<char>) -> Seq<char> {
    trim_end(trim_start(s))
}

/// Where the first character at or after `from` stands that is no whitespace.
pub fn skip_space(v: &Vec<char>, from: usize) -> (i: usize)
    requires
        from <= v.len(),
    ensures
        from <= i <= v.len(),
        trim_start(v@.skip(from as int)) == v@.skip(i as int),
        i < v.len() ==> !is_space(v[i as int]),
        forall|j: int| from <= j < i ==> is_space(#[trigger] v[j]),
{
    let mut i: usize = from;
    while i < v.len() && space(v[i])
        invariant
            from <= i <= v.len(),
            trim_start(v@.skip(from as int)) == trim_start(v@.skip(i as int)),
            forall|j: int| from <= j < i ==> is_space(#[trigger] v[j]),
        decreases v.len() - i,
    {
        assert(v@.skip(i as int).drop_first() == v@.skip(i + 1));
        i = i + 1;
    }
    i
}

/// Where the trailing whitespace of `v[from..]` begins.
fn end_of_text(v: &Vec<char>, from: usize) -> (i: usize)
    requires
        from <= v.len(),
    ensures
        from <= i <= v.len(),
        trim_end(v@.skip(from as int)) == v@.subrange(from as int, i as int),
{
    let mut i: usize = v.len();
    assert(v@.skip(from as int) == v@.subrange(from as int, i as int));
    while i > from && space(v[i - 1])
        invariant
            from <= i <= v.len(),
            trim_end(v@.skip(from as int)) == trim_end(v@.subrange(from as int, i as int)),
        decreases i,
    {
        assert(v@.subrange(from as int, i as int).drop_last() == v@.subrange(
            from as int,
            i - 1,
        ));
        i = i - 1;
    }
    i
}

/// The text without its leading and trailing whitespace.
pub fn trimmed(s: &str) -> (out: String)
    ensures
        out@ == trim(s@),
{
    let v = chars_of(s);
    assert(v@.skip(0) == v@);
    let lo = skip_space(&v, 0);
    let hi = end_of_text(&v, lo);
    string_of(&v, lo, hi)
}

/// Whether a text holds nothing but whitespace.
pub open spec fn is_blank(s: Seq<char>) -> bool {
    forall|i: int| 0 <= i < s.len() ==> is_space(#[trigger] s[i])
}

proof fn trim_start_suffix(s: Seq<char>)
    ensures
        trim_start(s).len() <= s.len(),
        trim_start(s) == s.skip(s.len() - trim_start(s).len()),
        trim_start(s).len() > 0 ==> !is_space(trim_start(s)[0]),
        forall|j: int| 0 <= j < s.len() - trim_start(s).len() ==> is_space(#[trigger] s[j]),
    decreases s.len(),
{
    if s.len() > 0 && is_space(s[0]) {
        trim_start_suffix(s.drop_first());
        assert(s.drop_first().skip(s.drop_first().len() - trim_start(s).len()) == s.skip(
            s.len() - trim_start(s).len(),
        ));
        assert forall|j: int| 0 <= j < s.len() - trim_start(s).len() implies is_space(
            #[trigger] s[j],
        ) by {
            if j > 0 {
                assert(s.drop_first()[j - 1] == s[j]);
            }
        }
    }
}

proof fn trim_end_keeps_first(s: Seq<char>)
    requires
        s.len() > 0,
        !is_space(s[0]),
    ensures
        trim_end(s).len() > 0,
        trim_end(s)[0] == s[0],
    decreases s.len(),
{
    if is_space(s.last()) {
        trim_end_keeps_first(s.drop_last());
    }
}

/// Trimming changes nothing in a text that neither begins nor ends with
/// whitespace.
pub proof fn trim_of_tight(s: Seq<char>)
    requires
        s.len() > 0 ==> !is_space(s[0]) && !is_space(s.last()),
    ensures
        trim(s) == s,
{
}

// -------------------------------------------------------------- splitting

/// Where `c` first stands in `s`; the length of `s` where it does not.
pub open spec fn index_of(s: Seq<char>, c: char) -> int
    decreases s.len(),
{
    if s.len() == 0 || s[0] == c {
        0
    } else {
        1 + index_of(s.drop_first(), c)
    }
}

/// What `index_of` is, without recursion.
pub proof fn index_of_is_first(s: Seq<char>, c: char)
    ensures
        0 <= index_of(s, c) <= s.len(),
        index_of(s, c) < s.len() ==> s[index_of(s, c)] == c,
        forall|j: int| 0 <= j < index_of(s, c) ==> #[trigger] s[j] != c,
    decreases s.len(),
{
    if s.len() > 0 && s[0] != c {
        index_of_is_first(s.drop_first(), c);
        assert forall|j: int| 0 <= j < index_of(s, c) implies #[trigger] s[j] != c by {
            if j > 0 {
                assert(s.drop_first()[j - 1] == s[j]);
            }
        }
    }
}

/// A position with `c`, and none before it, is the first one.
pub proof fn first_is_index_of(s: Seq<char>, c: char, i: int)
    requires
        0 <= i <= s.len(),
        i < s.len() ==> s[i] == c,
        forall|j: int| 0 <= j < i ==> #[trigger] s[j] != c,
    ensures
        index_of(s, c) == i,
{
    index_of_is_first(s, c);
    let k = index_of(s, c);
    if k < i {
        assert(s[k] != c);
    }
    if i < k {
        assert(s[i] != c);
    }
}

/// Where `c` first stands in `v[from..]`, or `v.len()`.
pub fn find_char(v: &Vec<char>, from: usize, c: char) -> (i: usize)
    requires
        from <= v.len(),
    ensures
        from <= i <= v.len(),
        i == from + index_of(v@.skip(from as int), c),
        i < v.len() ==> v[i as int] == c,
        forall|j: int| from <= j < i ==> #[trigger] v[j] != c,
{
    let mut i: usize = from;
    while i < v.len() && v[i] != c
        invariant
            from <= i <= v.len(),
            forall|j: int| from <= j < i ==> #[trigger] v[j] != c,
        decreases v.len() - i,
    {
        i = i + 1;
    }
    proof {
        first_is_index_of(v@.skip(from as int), c, i - from);
    }
    i
}

/// The line without the carriage return at its end, if it has one.
pub open spec fn without_cr(line: Seq<char>) -> Seq<char> {
    if line.len() > 0 && line.last() == '\r' {
        line.drop_last()
    } else {
        line
    }
}

/// The lines of `s`: a line ends at a newline, or at a carriage return with a
/// newline behind it; the ending of the last line may be missing.
pub open spec fn lines(s: Seq<char>) -> Seq<Seq<char>>
    decreases s.len(),
    via lines_decreases
{
    if s.len() == 0 {
        seq![]
    } else if index_of(s, '\n') < s.len() {
        seq![without_cr(s.take(index_of(s, '\n')))] + lines(s.skip(index_of(s, '\n') + 1))
    } else {
        seq![s]
    }
}

#[via_fn]
proof fn lines_decreases(s: Seq<char>) {
    index_of_is_first(s, '\n');
}

/// The lines of the text.
pub fn lines_of(text: &str) -> (out: Vec<String>)
    ensures
        texts(out@) == lines(text@),
{
    let v = chars_of(text);
    let mut out: Vec<String> = Vec::new();
    let mut from: usize = 0;
    assert(v@.skip(0) == v@);
    assert(texts(out@) + lines(v@.skip(0)) == lines(v@));
    while from < v.len()
        invariant
            from <= v.len(),
            texts(out@) + lines(v@.skip(from as int)) == lines(v@),
        decreases v.len() - from,
    {
        let ghost rest = v@.skip(from as int);
        let at = find_char(&v, from, '\n');
        let ghost before = out@;
        if at < v.len() {
            let end: usize = if at > from && v[at - 1] == '\r' {
                at - 1
            } else {
                at
            };
            out.push(string_of(&v, from, end));
            proof {
                assert(rest.take(at - from) == v@.subrange(from as int, at as int));
                assert(without_cr(rest.take(at - from)) == v@.subrange(from as int, end as int));
                assert(rest.skip(at - from + 1) == v@.skip(at + 1));
                assert(texts(out@) == texts(before).push(v@.subrange(from as int, end as int)));
                assert(texts(before) + (seq![v@.subrange(from as int, end as int)] + lines(
                    v@.skip(at + 1),
                )) == texts(out@) + lines(v@.skip(at + 1)));
            }
            from = at + 1;
        } else {
            out.push(string_of(&v, from, at));
            proof {
                assert(rest == v@.subrange(from as int, at as int));
                assert(lines(v@.skip(at as int)) == Seq::<Seq<char>>::empty());
                assert(texts(out@) == texts(before).push(rest));
                assert(texts(before) + seq![rest] == texts(out@) + lines(v@.skip(at as int)));
            }
            from = at;
        }
    }
    assert(v@.skip(from as int) == Seq::<char>::empty());
    assert(texts(out@) + Seq::<Seq<char>>::empty() == texts(out@));
    out
}

/// The characters of each string.
pub open spec fn texts(v: Seq<String>) -> Seq<Seq<char>> {
    v.map_values(|s: String| s@)
}

/// The parts of `s` between the occurrences of `sep`.
pub open spec fn split(s: Seq<char>, sep: char) -> Seq<Seq<char>>
    decreases s.len(),
    via split_decreases
{
    if index_of(s, sep) < s.len() {
        seq![s.take(index_of(s, sep))] + split(s.skip(index_of(s, sep) + 1), sep)
    } else {
        seq![s]
    }
}

#[via_fn]
proof fn split_decreases(s: Seq<char>, sep: char) {
    index_of_is_first(s, sep);
}

/// The parts of the text between the occurrences of `sep`.
pub fn split_of(text: &str, sep: char) -> (out: Vec<String>)
    ensures
        texts(out@) == split(text@, sep),
        out.len() > 0,
{
    let v = chars_of(text);
    let mut out: Vec<String> = Vec::new();
    let mut from: usize = 0;
    let mut at: usize = find_char(&v, 0, sep);
    assert(v@.skip(0) == v@);
    assert(texts(out@) + split(v@.skip(0), sep) == split(v@, sep));
    while at < v.len()
        invariant
            from <= at <= v.len(),
            at == from + index_of(v@.skip(from as int), sep),
            texts(out@) + split(v@.skip(from as int), sep) == split(v@, sep),
        decreases v.len() - from,
    {
        let ghost rest = v@.skip(from as int);
        let ghost before = out@;
        out.push(string_of(&v, from, at));
        proof {
            let part = v@.subrange(from as int, at as int);
            assert(rest.take(at - from) == part);
            assert(rest.skip(at - from + 1) == v@.skip(at + 1));
            assert(texts(out@) == texts(before).push(part));
            assert(texts(before) + (seq![part] + split(v@.skip(at + 1), sep)) == texts(out@)
                + split(v@.skip(at + 1), sep));
        }
        from = at + 1;
        at = find_char(&v, from, sep);
    }
    let ghost before = out@;
    out.push(string_of(&v, from, at));
    assert(v@.skip(from as int) == v@.subrange(from as int, at as int));
    assert(texts(out@) == texts(before) + seq![v@.skip(from as int)]);
    out
}

/// Where the first whitespace stands in `s`, or the length of `s`.
pub open spec fn word_len(s: Seq<char>) -> int
    decreases s.len(),
{
    if s.len() == 0 || is_space(s[0]) {
        0
    } else {
        1 + word_len(s.drop_first())
    }
}

proof fn word_len_is_first(s: Seq<char>)
    ensures
        0 <= word_len(s) <= s.len(),
        word_len(s) < s.len() ==> is_space(s[word_len(s)]),
        forall|j: int| 0 <= j < word_len(s) ==> !is_space(#[trigger] s[j]),
    decreases s.len(),
{
    if s.len() > 0 && !is_space(s[0]) {
        word_len_is_first(s.drop_first());
        assert forall|j: int| 0 <= j < word_len(s) implies !is_space(#[trigger] s[j]) by {
            if j > 0 {
                assert(s.drop_first()[j - 1] == s[j]);
            }
        }
    }
}

proof fn first_is_word_len(s: Seq<char>, i: int)
    requires
        0 <= i <= s.len(),
        i < s.len() ==> is_space(s[i]),
        forall|j: int| 0 <= j < i ==> !is_space(#[trigger] s[j]),
    ensures
        word_len(s) == i,
{
    word_len_is_first(s);
    let k = word_len(s);
    if k < i {
        assert(!is_space(s[k]));
    }
    if i < k {
        assert(!is_space(s[i]));
    }
}

/// The words of `s`: its longest parts without whitespace.
pub open spec fn words(s: Seq<char>) -> Seq<Seq<char>>
    decreases s.len(),
    via words_decreases
{
    let t = trim_start(s);
    if t.len() == 0 {
        seq![]
    } else {
        seq![t.take(word_len(t))] + words(t.skip(word_len(t)))
    }
}

#[via_fn]
proof fn words_decreases(s: Seq<char>) {
    let t = trim_start(s);
    trim_start_suffix(s);
    word_len_is_first(t);
    if t.len() > 0 {
        assert(word_len(t) > 0);
    }
}

/// The words of the text.
pub fn words_of(text: &str) -> (out: Vec<String>)
    ensures
        texts(out@) == words(text@),
{
    let v = chars_of(text);
    let mut out: Vec<String> = Vec::new();
    assert(v@.skip(0) == v@);
    let mut from: usize = skip_space(&v, 0);
    proof {
        trim_start_suffix(v@);
        words_of_trimmed(v@);
        assert(texts(out@) + words(v@.skip(from as int)) == words(v@));
    }
    while from < v.len()
        invariant
            from <= v.len(),
            from < v.len() ==> !is_space(v[from as int]),
            texts(out@) + words(v@.skip(from as int)) == words(v@),
        decreases v.len() - from,
    {
        let ghost rest = v@.skip(from as int);
        let mut to: usize = from;
        while to < v.len() && !space(v[to])
            invariant
                from <= to <= v.len(),
                forall|j: int| from <= j < to ==> !is_space(#[trigger] v[j]),
            decreases v.len() - to,
        {
            to = to + 1;
        }
        let ghost before = out@;
        out.push(string_of(&v, from, to));
        let next = skip_space(&v, to);
        proof {
            first_is_word_len(rest, to - from);
            assert(to > from);
            let part = v@.subrange(from as int, to as int);
            assert(trim_start(rest) == rest);
            assert(rest.take(to - from) == part);
            assert(rest.skip(to - from) == v@.skip(to as int));
            words_of_trimmed(v@.skip(to as int));
            assert(texts(out@) == texts(before).push(part));
            assert(texts(before) + (seq![part] + words(v@.skip(next as int))) == texts(out@)
                + words(v@.skip(next as int)));
        }
        from = next;
    }
    assert(v@.skip(from as int) == Seq::<char>::empty());
    assert(texts(out@) + Seq::<Seq<char>>::empty() == texts(out@));
    out
}

proof fn words_of_trimmed(s: Seq<char>)
    ensures
        words(trim_start(s)) == words(s),
{
    trim_start_suffix(s);
    assert(trim_start(trim_start(s)) == trim_start(s));
}

/// The words with one space between each two of them.
pub open spec fn join(ws: Seq<Seq<char>>, sep: Seq<char>) -> Seq<char>
    decreases ws.len(),
{
    if ws.len() == 0 {
        seq![]
    } else if ws.len() == 1 {
        ws[0]
    } else {
        join(ws.drop_last(), sep) + sep + ws.last()
    }
}

/// The strings with `sep` between each two of them.
pub fn joined(parts: &Vec<String>, sep: &str) -> (out: String)
    ensures
        out@ == join(texts(parts@), sep@),
{
    let mut out = String::new();
    let mut i: usize = 0;
    while i < parts.len()
        invariant
            i <= parts.len(),
            out@ == join(texts(parts@).take(i as int), sep@),
        decreases parts.len() - i,
    {
        if i > 0 {
            out.append(sep);
        }
        out.append(parts[i].as_str());
        assert(texts(parts@).take(i + 1).drop_last() == texts(parts@).take(i as int));
        i = i + 1;
    }
    assert(texts(parts@).take(i as int) == texts(parts@));
    out
}

// -------------------------------------------------------------- searching

proof fn join_from_the_front(ws: Seq<Seq<char>>, sep: Seq<char>)
    requires
        ws.len() > 1,
    ensures
        join(ws, sep) == ws[0] + sep + join(ws.drop_first(), sep),
    decreases ws.len(),
{
    let front = ws.drop_last();
    let back = ws.drop_first();
    if ws.len() == 2 {
        assert(join(front, sep) == ws[0]);
        assert(join(back, sep) == ws[1]);
    } else {
        join_from_the_front(front, sep);
        assert(front.drop_first() == back.drop_last());
        assert(back.last() == ws.last());
        let middle = join(back.drop_last(), sep);
        assert(ws[0] + sep + middle + sep + ws.last() == ws[0] + sep + (middle + sep + ws.last()));
    }
}

/// Words that are joined by single spaces are found again, if none of them is
/// empty or holds whitespace.
pub proof fn joined_words_are_found(ws: Seq<Seq<char>>)
    requires
        forall|i: int| 0 <= i < ws.len() ==> (#[trigger] ws[i]).len() > 0,
        forall|i: int, j: int|
            0 <= i < ws.len() && 0 <= j < ws[i].len() ==> !is_space(#[trigger] ws[i][j]),
    ensures
        words(join(ws, " "@)) == ws,
    decreases ws.len(),
{
    reveal_strlit(" ");
    let s = join(ws, " "@);
    if ws.len() == 0 {
        assert(trim_start(s) == s);
    } else {
        let w = ws[0];
        assert(!is_space(w[0]));
        if ws.len() == 1 {
            assert(s == w);
            assert(trim_start(s) == s);
            first_is_word_len(s, w.len() as int);
            assert(s.take(w.len() as int) == w);
            let rest = s.skip(w.len() as int);
            assert(rest == Seq::<char>::empty());
            assert(trim_start(rest) == rest);
            assert(words(rest) == Seq::<Seq<char>>::empty());
            assert(seq![w] + Seq::<Seq<char>>::empty() == ws);
        } else {
            let others = ws.drop_first();
            assert forall|i: int, j: int|
                0 <= i < others.len() && 0 <= j < others[i].len() implies !is_space(
                #[trigger] others[i][j],
            ) by {
                assert(others[i] == ws[i + 1]);
                assert(!is_space(ws[i + 1][j]));
            }
            joined_words_are_found(others);
            let rest = join(others, " "@);
            join_from_the_front(ws, " "@);
            assert(s == w + " "@ + rest);
            assert(s[0] == w[0]);
            assert(trim_start(s) == s);
            assert forall|j: int| 0 <= j < w.len() implies !is_space(#[trigger] s[j]) by {
                assert(s[j] == w[j]);
            }
            assert(s[w.len() as int] == ' ');
            first_is_word_len(s, w.len() as int);
            assert(s.take(w.len() as int) == w);
            let spaced = s.skip(w.len() as int);
            assert(spaced[0] == ' ');
            assert(spaced.drop_first() == rest);
            words_of_trimmed(spaced);
            words_of_trimmed(rest);
            assert(trim_start(spaced) == trim_start(rest));
            assert(seq![w] + others == ws);
        }
    }
}

/// Whether `p` stands in `s` at position `i`.
pub open spec fn occurs_at(s: Seq<char>, p: Seq<char>, i: int) -> bool {
    0 <= i && i + p.len() <= s.len() && s.subrange(i, i + p.len()) == p
}

/// Whether `p` stands somewhere in `s`.
pub open spec fn contains(s: Seq<char>, p: Seq<char>) -> bool {
    exists|i: int| occurs_at(s, p, i)
}

/// Whether `p` stands in `v` at position `at`.
pub fn text_at(v: &Vec<char>, p: &Vec<char>, at: usize) -> (r: bool)
    ensures
        r == occurs_at(v@, p@, at as int),
{
    if at > v.len() || p.len() > v.len() - at {
        return false;
    }
    let mut i: usize = 0;
    while i < p.len()
        invariant
            at + p.len() <= v.len(),
            i <= p.len(),
            forall|j: int| 0 <= j < i ==> v@[at + j] == #[trigger] p@[j],
        decreases p.len() - i,
    {
        if v[at + i] != p[i] {
            assert(v@.subrange(at as int, at + p.len())[i as int] != p@[i as int]);
            return false;
        }
        i = i + 1;
    }
    assert(v@.subrange(at as int, at + p.len()) == p@);
    true
}

/// Whether the text contains `pattern`.
pub fn contains_text(text: &str, pattern: &str) -> (r: bool)
    ensures
        r == contains(text@, pattern@),
{
    let v = chars_of(text);
    let p = chars_of(pattern);
    let mut i: usize = 0;
    while i < v.len()
        invariant
            v@ == text@,
            p@ == pattern@,
            i <= v.len(),
            forall|j: int| 0 <= j < i ==> !#[trigger] occurs_at(v@, p@, j),
        decreases v.len() - i,
    {
        if text_at(&v, &p, i) {
            return true;
        }
        i = i + 1;
    }
    let r = text_at(&v, &p, i);
    assert(forall|j: int| j > v.len() ==> !#[trigger] occurs_at(v@, p@, j));
    r
}

/// Whether `s` begins with `p`.
pub open spec fn begins_with<T>(s: Seq<T>, p: Seq<T>) -> bool {
    p.len() <= s.len() && s.take(p.len() as int) == p
}

/// Whether the text begins with `prefix`.
pub fn text_begins_with(text: &str, prefix: &str) -> (r: bool)
    ensures
        r == begins_with(text@, prefix@),
{
    let v = chars_of(text);
    let p = chars_of(prefix);
    text_at(&v, &p, 0)
}

/// Whether the bytes begin with `prefix`.
pub fn bytes_begin_with(bytes: &[u8], prefix: &[u8]) -> (r: bool)
    ensures
        r == begins_with(bytes@, prefix@),
{
    if prefix.len() > bytes.len() {
        return false;
    }
    let mut i: usize = 0;
    while i < prefix.len()
        invariant
            prefix.len() <= bytes.len(),
            i <= prefix.len(),
            forall|j: int| 0 <= j < i ==> bytes@[j] == #[trigger] prefix@[j],
        decreases prefix.len() - i,
    {
        if bytes[i] != prefix[i] {
            assert(bytes@.take(prefix@.len() as int)[i as int] != prefix@[i as int]);
            return false;
        }
        i = i + 1;
    }
    assert(bytes@.take(prefix@.len() as int) == prefix@);
    true
}

// ------------------------------------------------------------------- case

/// The upper-case form of an ASCII letter; any other character as it is.
pub open spec fn upper_char(c: char) -> char {
    if 'a' <= c <= 'z' {
        ((c as u8) - 32) as u8 as char
    } else {
        c
    }
}

/// The lower-case form of an ASCII letter; any other character as it is.
pub open spec fn lower_char(c: char) -> char {
    if 'A' <= c <= 'Z' {
        ((c as u8) + 32) as u8 as char
    } else {
        c
    }
}

/// `s` with its ASCII letters in upper case.
pub open spec fn upper(s: Seq<char>) -> Seq<char> {
    s.map_values(|c: char| upper_char(c))
}

/// `s` with its ASCII letters in lower case.
pub open spec fn lower(s: Seq<char>) -> Seq<char> {
    s.map_values(|c: char| lower_char(c))
}

/// The text with its ASCII letters in upper case.
pub fn upper_text(s: &str) -> (out: String)
    ensures
        out@ == upper(s@),
{
    let mut out = String::new();
    for c in it: s.chars()
        invariant
            it.seq() == s@,
            out@ == upper(s@.take(it.index())),
    {
        assert(upper(s@.take(it.index() + 1)) == upper(s@.take(it.index())).push(upper_char(c)));
        if 'a' <= c && c <= 'z' {
            out.push((c as u8 - 32) as char);
        } else {
            out.push(c);
        }
    }
    assert(s@.take(s@.len() as int) == s@);
    out
}

/// The text with its ASCII letters in lower case.
pub fn lower_text(s: &str) -> (out: String)
    ensures
        out@ == lower(s@),
{
    let mut out = String::new();
    for c in it: s.chars()
        invariant
            it.seq() == s@,
            out@ == lower(s@.take(it.index())),
    {
        assert(lower(s@.take(it.index() + 1)) == lower(s@.take(it.index())).push(lower_char(c)));
        if 'A' <= c && c <= 'Z' {
            out.push((c as u8 + 32) as char);
        } else {
            out.push(c);
        }
    }
    assert(s@.take(s@.len() as int) == s@);
    out
}

// ------------------------------------------------------------------- laws

/// Trimming takes whitespace from both ends, all of it and nothing else.
pub proof fn trimming_takes_whitespace_only(s: Seq<char>) -> (r: (int, int))
    ensures
        0 <= r.0 <= r.1 <= s.len(),
        trim(s) == s.subrange(r.0, r.1),
        forall|i: int| 0 <= i < r.0 || r.1 <= i < s.len() ==> is_space(#[trigger] s[i]),
        trim(s).len() > 0 ==> !is_space(trim(s)[0]) && !is_space(trim(s).last()),
{
    trim_start_suffix(s);
    let t = trim_start(s);
    let a = s.len() - t.len();
    trim_end_prefix(t);
    let b = a + trim_end(t).len();
    assert(trim(s) == s.subrange(a, b));
    assert forall|i: int| 0 <= i < a || b <= i < s.len() implies is_space(#[trigger] s[i]) by {
        if i >= b {
            assert(t[i - a] == s[i]);
        }
    }
    (a, b)
}

proof fn trim_end_prefix(s: Seq<char>)
    ensures
        trim_end(s).len() <= s.len(),
        trim_end(s) == s.take(trim_end(s).len() as int),
        trim_end(s).len() > 0 ==> !is_space(trim_end(s).last()),
        forall|j: int| trim_end(s).len() <= j < s.len() ==> is_space(#[trigger] s[j]),
    decreases s.len(),
{
    if s.len() > 0 && is_space(s.last()) {
        let less = s.drop_last();
        trim_end_prefix(less);
        assert(less.take(trim_end(s).len() as int) == s.take(trim_end(s).len() as int));
        assert forall|j: int| trim_end(s).len() <= j < s.len() implies is_space(
            #[trigger] s[j],
        ) by {
            if j < less.len() {
                assert(less[j] == s[j]);
            }
        }
    } else {
        assert(s.take(s.len() as int) == s);
    }
}

/// The parts of a text, joined by what separates them, are the text again, and
/// none of them holds what separates them.
pub proof fn parts_are_joined_again(s: Seq<char>, sep: char)
    ensures
        join(split(s, sep), seq![sep]) == s,
        split(s, sep).len() > 0,
        forall|i: int| 0 <= i < split(s, sep).len() ==> !(#[trigger] split(s, sep)[i]).contains(sep),
    decreases s.len(),
{
    index_of_is_first(s, sep);
    let i = index_of(s, sep);
    let parts = split(s, sep);
    if i < s.len() {
        let rest = s.skip(i + 1);
        parts_are_joined_again(rest, sep);
        let head = s.take(i);
        assert(parts == seq![head] + split(rest, sep));
        assert(parts.drop_first() == split(rest, sep));
        join_from_the_front(parts, seq![sep]);
        assert(head + seq![sep] + rest == s);
        assert forall|k: int| 0 <= k < parts.len() implies !(#[trigger] parts[k]).contains(sep) by {
            if k > 0 {
                assert(parts[k] == split(rest, sep)[k - 1]);
            } else if head.contains(sep) {
                let j = choose|j: int| 0 <= j < head.len() && head[j] == sep;
                assert(s[j] == sep);
            }
        }
    } else {
        assert(parts == seq![s]);
        assert(parts.len() == 1);
        if s.contains(sep) {
            let j = choose|j: int| 0 <= j < s.len() && s[j] == sep;
            assert(s[j] == sep);
        }
    }
}

/// A line ends at its newline, with a carriage return before it or none; the last
/// line needs no newline, and a text without any characters has no lines.
pub proof fn a_line_ends_at_its_newline(line: Seq<char>, rest: Seq<char>)
    requires
        !line.contains('\n'),
    ensures
        lines(Seq::<char>::empty()).len() == 0,
        line.len() > 0 ==> lines(line) == seq![line],
        lines(line + seq!['\n'] + rest) == seq![
            if line.len() > 0 && line.last() == '\r' {
                line.drop_last()
            } else {
                line
            },
        ] + lines(rest),
{
    let s = line + seq!['\n'] + rest;
    index_of_is_first(line, '\n');
    if index_of(line, '\n') < line.len() {
        assert(line.contains(line[index_of(line, '\n')]));
    }
    index_of_is_first(s, '\n');
    let i = index_of(s, '\n');
    assert(s[line.len() as int] == '\n');
    if i < line.len() {
        assert(s[i] == line[i]);
        assert(line.contains(line[i]));
    }
    assert(i == line.len());
    assert(s.take(i) == line);
    assert(s.skip(i + 1) == rest);
}

/// Changing the case changes the case of letters and nothing else.
pub proof fn only_the_case_of_letters_changes(s: Seq<char>, i: int)
    requires
        0 <= i < s.len(),
    ensures
        upper(s).len() == s.len(),
        lower(s).len() == s.len(),
        'a' <= s[i] <= 'z' ==> 'A' <= upper(s)[i] <= 'Z' && upper(s)[i] as int == s[i] as int - 32,
        'A' <= s[i] <= 'Z' ==> 'a' <= lower(s)[i] <= 'z' && lower(s)[i] as int == s[i] as int + 32,
        !('a' <= s[i] <= 'z') ==> upper(s)[i] == s[i],
        !('A' <= s[i] <= 'Z') ==> lower(s)[i] == s[i],
{
}

/// A text that holds another one in its middle contains it.
pub proof fn what_stands_in_a_text_is_found(a: Seq<char>, p: Seq<char>, b: Seq<char>)
    ensures
        contains(a + p + b, p),
        begins_with(p + b, p),
{
    assert((a + p + b).subrange(a.len() as int, (a.len() + p.len()) as int) == p);
    assert(occurs_at(a + p + b, p, a.len() as int));
    assert((p + b).take(p.len() as int) == p);
}

/// Of the ASCII characters the blank and those that move the line or the column
/// are whitespace, and no letter, digit or sign is.
pub proof fn letters_and_signs_are_no_whitespace(c: char)
    ensures
        c == ' ' || c == '\t' || c == '\n' || c == '\r' ==> is_space(c),
        '!' <= c <= '~' ==> !is_space(c),
{
}

} // verus!
