use vstd::prelude::*;

verus! {

/// The longest a wrapped dialogue line may grow, in bytes, before the next word
/// moves to a new line.
pub const CHARACTERS_PER_LINE: u128 = 40;

/// ASCII whitespace as `split_ascii_whitespace` knows it: space, tab, line feed,
/// form feed and carriage return.
pub open spec fn is_ascii_ws(c: char) -> bool {
    c == ' ' || c == '\t' || c == '\n' || c == '\x0C' || c == '\r'
}

/// The number of bytes UTF-8 needs for `c`.
pub open spec fn char_bytes(c: char) -> nat {
    if (c as u32) < 0x80 {
        1
    } else if (c as u32) < 0x800 {
        2
    } else if (c as u32) < 0x10000 {
        3
    } else {
        4
    }
}

/// The number of bytes UTF-8 needs for `s`.
pub open spec fn bytes_len(s: Seq<char>) -> nat
    decreases s.len(),
{
    if s.len() == 0 {
        0
    } else {
        bytes_len(s.drop_last()) + char_bytes(s.last())
    }
}

/// The pieces of `s` between occurrences of `sep`, as `str::split` gives them:
/// one more piece than there are separators, empty pieces included.
pub open spec fn split_char(s: Seq<char>, sep: char) -> Seq<Seq<char>>
    decreases s.len(),
{
    if s.len() == 0 {
        seq![Seq::<char>::empty()]
    } else {
        let p = split_char(s.drop_last(), sep);
        if s.last() == sep {
            p.push(Seq::<char>::empty())
        } else {
            p.update(p.len() - 1, p.last().push(s.last()))
        }
    }
}

/// The maximal non-empty runs of characters that are not ASCII whitespace, in
/// order, as `split_ascii_whitespace` gives them.
pub open spec fn ascii_words(s: Seq<char>) -> Seq<Seq<char>>
    decreases s.len(),
{
    if s.len() == 0 {
        Seq::<Seq<char>>::empty()
    } else {
        let w = ascii_words(s.drop_last());
        if is_ascii_ws(s.last()) {
            w
        } else if s.len() > 1 && !is_ascii_ws(s[s.len() - 2]) {
            w.update(w.len() - 1, w.last().push(s.last()))
        } else {
            w.push(seq![s.last()])
        }
    }
}

/// `s` without its last character, or `s` itself when it is empty (`String::pop`).
pub open spec fn pop(s: Seq<char>) -> Seq<char> {
    if s.len() > 0 {
        s.drop_last()
    } else {
        s
    }
}

/// Lays out the words of one line after `out`: a word that would take the line
/// past the limit starts a new line, and every word is followed by a space.
/// Gives the text and the byte count of the current line.
pub open spec fn wrap_words(words: Seq<Seq<char>>, out: Seq<char>) -> (Seq<char>, nat)
    decreases words.len(),
{
    if words.len() == 0 {
        (out, 0)
    } else {
        let (o, ch) = wrap_words(words.drop_last(), out);
        let w = words.last();
        if ch + bytes_len(w) > 40 {
            ((o.push('\n') + w).push(' '), bytes_len(w))
        } else {
            ((o + w).push(' '), ch + bytes_len(w))
        }
    }
}

/// The last line of `s`: what follows its last line feed (all of `s` when it
/// has none).
pub open spec fn last_line(s: Seq<char>) -> Seq<char>
    decreases s.len(),
{
    if s.len() == 0 {
        s
    } else if s.last() == '\n' {
        Seq::empty()
    } else {
        last_line(s.drop_last()).push(s.last())
    }
}

/// The bytes of `s` that are not spaces.
pub open spec fn word_bytes(s: Seq<char>) -> nat
    decreases s.len(),
{
    if s.len() == 0 {
        0
    } else {
        word_bytes(s.drop_last()) + if s.last() == ' ' {
            0nat
        } else {
            char_bytes(s.last())
        }
    }
}

/// Text without line feeds continues the last line.
proof fn lemma_last_line_append(a: Seq<char>, b: Seq<char>)
    requires
        forall|j: int| 0 <= j < b.len() ==> b[j] != '\n',
    ensures
        last_line(a + b) == last_line(a) + b,
    decreases b.len(),
{
    if b.len() == 0 {
        assert(a + b =~= a);
        assert(last_line(a) + b =~= last_line(a));
    } else {
        lemma_last_line_append(a, b.drop_last());
        assert((a + b).drop_last() =~= a + b.drop_last());
        assert(last_line(a) + b =~= (last_line(a) + b.drop_last()).push(b.last()));
    }
}

/// The non-space bytes of two texts together are those of each.
proof fn lemma_word_bytes_append(a: Seq<char>, b: Seq<char>)
    ensures
        word_bytes(a + b) == word_bytes(a) + word_bytes(b),
    decreases b.len(),
{
    if b.len() == 0 {
        assert(a + b =~= a);
    } else {
        lemma_word_bytes_append(a, b.drop_last());
        assert((a + b).drop_last() =~= a + b.drop_last());
    }
}

/// A text without spaces has all its bytes counted.
proof fn lemma_word_bytes_no_space(b: Seq<char>)
    requires
        forall|j: int| 0 <= j < b.len() ==> b[j] != ' ',
    ensures
        word_bytes(b) == bytes_len(b),
    decreases b.len(),
{
    if b.len() > 0 {
        lemma_word_bytes_no_space(b.drop_last());
    }
}

/// How one line is laid out, for words without spaces or line feeds, after
/// text that ends a line: the byte count carried along is the number of
/// bytes of the words on the current output line, and that line holds at
/// most 40 such bytes unless it holds only the last word (a word too long
/// for any line gets one to itself).
pub proof fn law_wrap_counts_line_bytes(words: Seq<Seq<char>>, out: Seq<char>)
    requires
        forall|i: int, j: int| 0 <= i < words.len() && 0 <= j < words[i].len() ==> #[trigger] words[i][j] != ' ' && words[i][j] != '\n',
        out.len() == 0 || out.last() == '\n',
    ensures
        wrap_words(words, out).1 == word_bytes(last_line(wrap_words(words, out).0)),
        wrap_words(words, out).1 <= 40 || last_line(wrap_words(words, out).0) == words.last().push(' '),
    decreases words.len(),
{
    if words.len() == 0 {
        if out.len() > 0 {
            assert(last_line(out) == Seq::<char>::empty());
        }
    } else {
        let prev = words.drop_last();
        assert forall|i: int, j: int| 0 <= i < prev.len() && 0 <= j < prev[i].len() implies #[trigger] prev[i][j] != ' ' && prev[i][j] != '\n' by {
            assert(prev[i] == words[i]);
        }
        law_wrap_counts_line_bytes(prev, out);
        let (o, ch) = wrap_words(prev, out);
        let w = words.last();
        assert forall|j: int| 0 <= j < w.len() implies w[j] != ' ' && w[j] != '\n' by {
            assert(w[j] == words[words.len() - 1][j]);
        }
        let ws = w.push(' ');
        assert forall|j: int| 0 <= j < ws.len() implies ws[j] != '\n' by {
            if j < w.len() {
                assert(ws[j] == w[j]);
            }
        }
        lemma_word_bytes_no_space(w);
        assert(seq![' '].drop_last() =~= Seq::<char>::empty());
        assert(seq![' '].last() == ' ');
        assert(word_bytes(Seq::<char>::empty()) == 0);
        assert(word_bytes(seq![' ']) == 0);
        lemma_word_bytes_append(w, seq![' ']);
        assert(w + seq![' '] =~= ws);
        if ch + bytes_len(w) > 40 {
            let o2 = o.push('\n');
            assert(last_line(o2) == Seq::<char>::empty());
            lemma_last_line_append(o2, ws);
            assert((o2 + w).push(' ') =~= o2 + ws);
            assert(Seq::<char>::empty() + ws =~= ws);
        } else {
            lemma_last_line_append(o, ws);
            assert((o + w).push(' ') =~= o + ws);
            lemma_word_bytes_append(last_line(o), ws);
        }
    }
}

/// Laying out one more word: it goes on the current line, after a space,
/// exactly when the line's word bytes and its own stay within 40; otherwise it
/// starts a new line.
pub proof fn law_wrap_breaks_only_when_full(words: Seq<Seq<char>>, w: Seq<char>, out: Seq<char>)
    requires
        forall|i: int, j: int| 0 <= i < words.len() && 0 <= j < words[i].len() ==> #[trigger] words[i][j] != ' ' && words[i][j] != '\n',
        out.len() == 0 || out.last() == '\n',
    ensures
        word_bytes(last_line(wrap_words(words, out).0)) + bytes_len(w) <= 40 ==> wrap_words(words.push(w), out).0 == (
        wrap_words(words, out).0 + w).push(' '),
        word_bytes(last_line(wrap_words(words, out).0)) + bytes_len(w) > 40 ==> wrap_words(words.push(w), out).0 == (
        wrap_words(words, out).0.push('\n') + w).push(' '),
{
    law_wrap_counts_line_bytes(words, out);
    assert(words.push(w).drop_last() =~= words);
}

/// Whether a line holds at most one word: no space before its last character.
pub open spec fn single_word(l: Seq<char>) -> bool {
    forall|j: int| 0 <= j < l.len() - 1 ==> l[j] != ' '
}

/// Whether a laid-out line fits: at most 40 bytes of words, unless it holds a
/// single word.
pub open spec fn line_fits(l: Seq<char>) -> bool {
    word_bytes(l) <= 40 || single_word(l)
}

/// Whether every line of `t` fits.
pub open spec fn lines_fit(t: Seq<char>) -> bool {
    forall|k: int| 0 <= k < split_char(t, '\n').len() ==> line_fits(#[trigger] split_char(t, '\n')[k])
}

/// The last piece of a text split at line feeds is its last line.
proof fn lemma_split_last(a: Seq<char>)
    ensures
        split_char(a, '\n').len() >= 1,
        split_char(a, '\n').last() == last_line(a),
    decreases a.len(),
{
    if a.len() > 0 {
        lemma_split_last(a.drop_last());
    }
}

/// Text without line feeds lengthens the last piece.
proof fn lemma_split_append(a: Seq<char>, b: Seq<char>)
    requires
        forall|j: int| 0 <= j < b.len() ==> b[j] != '\n',
    ensures
        split_char(a + b, '\n') == split_char(a, '\n').update(
            split_char(a, '\n').len() - 1,
            split_char(a, '\n').last() + b,
        ),
    decreases b.len(),
{
    lemma_split_last(a);
    let p = split_char(a, '\n');
    if b.len() == 0 {
        assert(a + b =~= a);
        assert(p.last() + b =~= p.last());
        assert(p.update(p.len() - 1, p.last()) =~= p);
    } else {
        lemma_split_append(a, b.drop_last());
        assert((a + b).drop_last() =~= a + b.drop_last());
        let q = p.update(p.len() - 1, p.last() + b.drop_last());
        assert(q.last() == p.last() + b.drop_last());
        assert((p.last() + b.drop_last()).push(b.last()) =~= p.last() + b);
        assert(q.update(q.len() - 1, q.last().push(b.last())) =~= p.update(p.len() - 1, p.last() + b));
    }
}

/// Bytes of words only shrink when the last character goes.
proof fn lemma_word_bytes_drop_last(l: Seq<char>)
    requires
        l.len() > 0,
    ensures
        word_bytes(l.drop_last()) <= word_bytes(l),
{
}

/// Taking the last character off a text keeps its lines fitting.
proof fn lemma_pop_fits(t: Seq<char>)
    requires
        lines_fit(t),
    ensures
        lines_fit(pop(t)),
{
    if t.len() > 0 {
        let p = split_char(t.drop_last(), '\n');
        let q = split_char(t, '\n');
        lemma_split_last(t.drop_last());
        if t.last() == '\n' {
            assert forall|k: int| 0 <= k < p.len() implies line_fits(#[trigger] p[k]) by {
                assert(q[k] == p[k]);
            }
        } else {
            assert forall|k: int| 0 <= k < p.len() implies line_fits(#[trigger] p[k]) by {
                if k < p.len() - 1 {
                    assert(q[k] == p[k]);
                } else {
                    let l = q[k];
                    assert(l == p.last().push(t.last()));
                    assert(l.drop_last() =~= p[k]);
                    assert(line_fits(l));
                    lemma_word_bytes_drop_last(l);
                }
            }
        }
    }
}

/// A line feed after fitting lines adds an empty line, which fits.
proof fn lemma_push_newline_fits(t: Seq<char>)
    requires
        lines_fit(t),
    ensures
        lines_fit(t.push('\n')),
{
    assert(t.push('\n').drop_last() =~= t);
    let q = split_char(t.push('\n'), '\n');
    assert forall|k: int| 0 <= k < q.len() implies line_fits(#[trigger] q[k]) by {
        if k < q.len() - 1 {
            assert(q[k] == split_char(t, '\n')[k]);
        } else {
            assert(q[k] == Seq::<char>::empty());
            assert(word_bytes(Seq::<char>::empty()) == 0);
        }
    }
}

/// Laying out the words of a line keeps every line fitting.
proof fn lemma_wrap_words_fit(words: Seq<Seq<char>>, out: Seq<char>)
    requires
        forall|i: int, j: int| 0 <= i < words.len() && 0 <= j < words[i].len() ==> #[trigger] words[i][j] != ' ' && words[i][j] != '\n',
        out.len() == 0 || out.last() == '\n',
        lines_fit(out),
    ensures
        lines_fit(wrap_words(words, out).0),
    decreases words.len(),
{
    if words.len() > 0 {
        let prev = words.drop_last();
        assert forall|i: int, j: int| 0 <= i < prev.len() && 0 <= j < prev[i].len() implies #[trigger] prev[i][j] != ' ' && prev[i][j] != '\n' by {
            assert(prev[i] == words[i]);
        }
        lemma_wrap_words_fit(prev, out);
        law_wrap_counts_line_bytes(prev, out);
        let (o, ch) = wrap_words(prev, out);
        let w = words.last();
        assert forall|j: int| 0 <= j < w.len() implies w[j] != ' ' && w[j] != '\n' by {
            assert(w[j] == words[words.len() - 1][j]);
        }
        let ws = w.push(' ');
        assert forall|j: int| 0 <= j < ws.len() implies ws[j] != '\n' by {
            if j < w.len() {
                assert(ws[j] == w[j]);
            }
        }
        lemma_word_bytes_no_space(w);
        assert(seq![' '].drop_last() =~= Seq::<char>::empty());
        assert(seq![' '].last() == ' ');
        assert(word_bytes(Seq::<char>::empty()) == 0);
        lemma_word_bytes_append(w, seq![' ']);
        assert(w + seq![' '] =~= ws);
        if ch + bytes_len(w) > 40 {
            let o2 = o.push('\n');
            lemma_push_newline_fits(o);
            lemma_split_append(o2, ws);
            lemma_split_last(o2);
            assert((o2 + w).push(' ') =~= o2 + ws);
            let p = split_char(o2, '\n');
            let q = split_char(o2 + ws, '\n');
            assert(p.last() == Seq::<char>::empty());
            assert(Seq::<char>::empty() + ws =~= ws);
            assert forall|k: int| 0 <= k < q.len() implies line_fits(#[trigger] q[k]) by {
                if k < q.len() - 1 {
                    assert(q[k] == p[k]);
                } else {
                    assert(q[k] == ws);
                    assert(single_word(ws));
                }
            }
        } else {
            lemma_split_append(o, ws);
            lemma_split_last(o);
            assert((o + w).push(' ') =~= o + ws);
            lemma_word_bytes_append(last_line(o), ws);
            let p = split_char(o, '\n');
            let q = split_char(o + ws, '\n');
            assert forall|k: int| 0 <= k < q.len() implies line_fits(#[trigger] q[k]) by {
                if k < q.len() - 1 {
                    assert(q[k] == p[k]);
                } else {
                    assert(q[k] == last_line(o) + ws);
                }
            }
        }
    }
}

/// Wrapping lines one after the other keeps every line fitting, and the
/// text laid out so far is empty or ends a line.
proof fn lemma_wrap_lines_fit(lines: Seq<Seq<char>>)
    ensures
        lines_fit(wrap_lines(lines)),
        wrap_lines(lines).len() == 0 || wrap_lines(lines).last() == '\n',
    decreases lines.len(),
{
    if lines.len() == 0 {
        let e = Seq::<char>::empty();
        assert(split_char(e, '\n')[0] == e);
        assert(word_bytes(e) == 0);
    } else {
        lemma_wrap_lines_fit(lines.drop_last());
        let out = wrap_lines(lines.drop_last());
        let words = ascii_words(lines.last());
        lemma_ascii_words_no_ws(lines.last());
        lemma_wrap_words_fit(words, out);
        lemma_pop_fits(wrap_words(words, out).0);
        lemma_push_newline_fits(pop(wrap_words(words, out).0));
    }
}

/// Every line of the wrapped dialogue text that holds more than one word has
/// at most 40 bytes of word characters (spaces not counted).
pub proof fn law_wrapped_lines_fit(s: Seq<char>)
    ensures
        forall|k: int|
            0 <= k < split_char(typewriter_wrapped(s), '\n').len() ==> {
                let l = #[trigger] split_char(typewriter_wrapped(s), '\n')[k];
                word_bytes(l) <= 40 || single_word(l)
            },
{
    lemma_wrap_lines_fit(split_char(s, '\n'));
    lemma_pop_fits(wrap_lines(split_char(s, '\n')));
}

/// Appends one wrapped line: its words, the trailing space taken back, then a line feed.
pub open spec fn wrap_line(out: Seq<char>, line: Seq<char>) -> Seq<char> {
    pop(wrap_words(ascii_words(line), out).0).push('\n')
}

/// Wraps the lines one after the other.
pub open spec fn wrap_lines(lines: Seq<Seq<char>>) -> Seq<char>
    decreases lines.len(),
{
    if lines.len() == 0 {
        Seq::<char>::empty()
    } else {
        wrap_line(wrap_lines(lines.drop_last()), lines.last())
    }
}

/// The whole text wrapped for the dialogue box, before it is cut to the
/// number of bytes shown so far.
pub open spec fn typewriter_wrapped(s: Seq<char>) -> Seq<char> {
    pop(wrap_lines(split_char(s, '\n')))
}

/// Whether the first `k` characters of `s` take exactly `b` bytes.
pub open spec fn prefix_has_bytes(s: Seq<char>, k: int, b: nat) -> bool {
    0 <= k <= s.len() && bytes_len(s.take(k)) == b
}

/// The smaller of two numbers.
pub open spec fn min_nat(a: nat, b: nat) -> nat {
    if a < b {
        a
    } else {
        b
    }
}

/// A text takes at least one and at most four bytes per character.
pub proof fn lemma_bytes_len_bounds(s: Seq<char>)
    ensures
        s.len() <= bytes_len(s) <= 4 * s.len(),
    decreases s.len(),
{
    if s.len() > 0 {
        lemma_bytes_len_bounds(s.drop_last());
    }
}

/// Longer prefixes take strictly more bytes.
pub proof fn lemma_bytes_len_prefix_strict(s: Seq<char>, j: int, k: int)
    requires
        0 <= j < k <= s.len(),
    ensures
        bytes_len(s.take(j)) < bytes_len(s.take(k)),
    decreases k - j,
{
    assert(s.take(k).drop_last() =~= s.take(k - 1));
    if j < k - 1 {
        lemma_bytes_len_prefix_strict(s, j, k - 1);
    }
}

/// At most one prefix takes a given number of bytes.
pub proof fn lemma_prefix_bytes_unique(s: Seq<char>, j: int, k: int, b: nat)
    requires
        prefix_has_bytes(s, j, b),
        prefix_has_bytes(s, k, b),
    ensures
        j == k,
{
    if j < k {
        lemma_bytes_len_prefix_strict(s, j, k);
    } else if k < j {
        lemma_bytes_len_prefix_strict(s, k, j);
    }
}

/// `str::split` always gives at least one piece.
pub proof fn lemma_split_char_len(s: Seq<char>, sep: char)
    ensures
        split_char(s, sep).len() >= 1,
    decreases s.len(),
{
    if s.len() > 0 {
        lemma_split_char_len(s.drop_last(), sep);
    }
}

/// A text that ends in a non-whitespace character has at least one word.
pub proof fn lemma_ascii_words_nonempty(s: Seq<char>)
    requires
        s.len() > 0,
        !is_ascii_ws(s.last()),
    ensures
        ascii_words(s).len() >= 1,
    decreases s.len(),
{
    if s.len() > 1 && !is_ascii_ws(s[s.len() - 2]) {
        assert(s.drop_last().last() == s[s.len() - 2]);
        lemma_ascii_words_nonempty(s.drop_last());
    }
}

/// The words of a text hold no ASCII whitespace.
proof fn lemma_ascii_words_no_ws(s: Seq<char>)
    ensures
        forall|i: int, j: int|
            0 <= i < ascii_words(s).len() && 0 <= j < ascii_words(s)[i].len() ==> !is_ascii_ws(
                #[trigger] ascii_words(s)[i][j],
            ),
    decreases s.len(),
{
    if s.len() > 0 {
        lemma_ascii_words_no_ws(s.drop_last());
        let w = ascii_words(s.drop_last());
        if !is_ascii_ws(s.last()) {
            if s.len() > 1 && !is_ascii_ws(s[s.len() - 2]) {
                assert(s.drop_last().last() == s[s.len() - 2]);
                lemma_ascii_words_nonempty(s.drop_last());
                let r = ascii_words(s);
                assert forall|i: int, j: int| 0 <= i < r.len() && 0 <= j < r[i].len() implies !is_ascii_ws(
                    #[trigger] r[i][j],
                ) by {
                    if i < w.len() - 1 {
                        assert(r[i] == w[i]);
                    } else if j < w.last().len() {
                        assert(r[i][j] == w.last()[j]);
                        assert(w.last() == w[w.len() - 1]);
                    }
                }
            } else {
                let r = ascii_words(s);
                assert forall|i: int, j: int| 0 <= i < r.len() && 0 <= j < r[i].len() implies !is_ascii_ws(
                    #[trigger] r[i][j],
                ) by {
                    if i < w.len() {
                        assert(r[i] == w[i]);
                    }
                }
            }
        }
    }
}

/// The characters of `s`, in order.
pub fn chars_of(s: &str) -> (r: Vec<char>)
    ensures
        r@ == s@,
{
    let n = s.unicode_len();
    let mut r: Vec<char> = Vec::new();
    let mut i: usize = 0;
    while i < n
        invariant
            n == s@.len(),
            i <= n,
            r@ == s@.take(i as int),
        decreases n - i,
    {
        let c = s.get_char(i);
        r.push(c);
        assert(r@ =~= s@.take(i + 1));
        i = i + 1;
    }
    assert(r@ =~= s@);
    r
}

/// The pieces of `s` between occurrences of `sep`.
pub fn split_chars(s: &Vec<char>, sep: char) -> (r: Vec<Vec<char>>)
    ensures
        r.len() == split_char(s@, sep).len(),
        forall|i: int| 0 <= i < r.len() ==> #[trigger] r@[i]@ == split_char(s@, sep)[i],
{
    let mut pieces: Vec<Vec<char>> = Vec::new();
    let mut cur: Vec<char> = Vec::new();
    let mut i: usize = 0;
    while i < s.len()
        invariant
            i <= s.len(),
            split_char(s@.take(i as int), sep).len() == pieces.len() + 1,
            forall|j: int|
                0 <= j < pieces.len() ==> #[trigger] pieces@[j]@ == split_char(
                    s@.take(i as int),
                    sep,
                )[j],
            cur@ == split_char(s@.take(i as int), sep).last(),
        decreases s.len() - i,
    {
        let c = s[i];
        let ghost p = split_char(s@.take(i as int), sep);
        assert(s@.take(i + 1).drop_last() =~= s@.take(i as int));
        assert(s@.take(i + 1).last() == c);
        if c == sep {
            pieces.push(cur);
            cur = Vec::new();
            assert(split_char(s@.take(i + 1), sep) == p.push(Seq::<char>::empty()));
        } else {
            cur.push(c);
            assert(split_char(s@.take(i + 1), sep) == p.update(p.len() - 1, p.last().push(c)));
        }
        i = i + 1;
    }
    pieces.push(cur);
    assert(s@.take(i as int) =~= s@);
    pieces
}

/// The words of `s` separated by ASCII whitespace.
pub fn ascii_words_of(s: &Vec<char>) -> (r: Vec<Vec<char>>)
    ensures
        r.len() == ascii_words(s@).len(),
        forall|i: int| 0 <= i < r.len() ==> #[trigger] r@[i]@ == ascii_words(s@)[i],
{
    let mut words: Vec<Vec<char>> = Vec::new();
    let mut i: usize = 0;
    while i < s.len()
        invariant
            i <= s.len(),
            words.len() == ascii_words(s@.take(i as int)).len(),
            forall|j: int|
                0 <= j < words.len() ==> #[trigger] words@[j]@ == ascii_words(s@.take(i as int))[j],
        decreases s.len() - i,
    {
        let c = s[i];
        let ghost w = ascii_words(s@.take(i as int));
        let ghost t = s@.take(i + 1);
        assert(t.drop_last() =~= s@.take(i as int));
        assert(t.last() == c);
        if c == ' ' || c == '\t' || c == '\n' || c == '\x0C' || c == '\r' {
            assert(ascii_words(t) == w);
        } else if i > 0 && !(s[i - 1] == ' ' || s[i - 1] == '\t' || s[i - 1] == '\n' || s[i - 1]
            == '\x0C' || s[i - 1] == '\r') {
            assert(t[t.len() - 2] == s[i - 1]);
            proof {
                lemma_ascii_words_nonempty(s@.take(i as int));
            }
            let mut last = words.pop().unwrap();
            last.push(c);
            words.push(last);
            assert(ascii_words(t) == w.update(w.len() - 1, w.last().push(c)));
        } else {
            let mut nw: Vec<char> = Vec::new();
            nw.push(c);
            words.push(nw);
            assert(ascii_words(t) == w.push(seq![c]));
            assert(words@.last()@ =~= seq![c]);
        }
        i = i + 1;
    }
    assert(s@.take(i as int) =~= s@);
    words
}

/// The number of bytes UTF-8 needs for `c`.
pub fn char_len_utf8(c: char) -> (r: u128)
    ensures
        r == char_bytes(c),
{
    let v = c as u32;
    if v < 0x80 {
        1
    } else if v < 0x800 {
        2
    } else if v < 0x10000 {
        3
    } else {
        4
    }
}

/// The number of bytes UTF-8 needs for `s`.
pub fn utf8_len(s: &Vec<char>) -> (r: u128)
    ensures
        r == bytes_len(s@),
        r <= 4 * s@.len(),
{
    let mut total: u128 = 0;
    let mut i: usize = 0;
    while i < s.len()
        invariant
            i <= s.len(),
            total == bytes_len(s@.take(i as int)),
            total <= 4 * i,
        decreases s.len() - i,
    {
        assert(s@.take(i + 1).drop_last() =~= s@.take(i as int));
        let b = char_len_utf8(s[i]);
        total = total + b;
        i = i + 1;
    }
    assert(s@.take(i as int) =~= s@);
    total
}

/// Appends the characters of `w` to `out`.
pub(crate) fn append_chars(out: &mut Vec<char>, w: &Vec<char>)
    ensures
        final(out)@ == old(out)@ + w@,
{
    let mut j: usize = 0;
    while j < w.len()
        invariant
            j <= w.len(),
            out@ == old(out)@ + w@.take(j as int),
        decreases w.len() - j,
    {
        out.push(w[j]);
        assert(old(out)@ + w@.take(j + 1) =~= (old(out)@ + w@.take(j as int)).push(w@[j as int]));
        j = j + 1;
    }
    assert(w@.take(j as int) =~= w@);
}

/// Removes the last character, if there is one.
fn pop_char(out: &mut Vec<char>)
    ensures
        final(out)@ == pop(old(out)@),
{
    if out.len() > 0 {
        let _ = out.pop();
    }
}

/// Lays out the words of one line after `out` (see `wrap_words`).
fn wrap_words_into(words: &Vec<Vec<char>>, out: &mut Vec<char>) -> (r: u128)
    ensures
        (final(out)@, r as nat) == wrap_words(words@.map_values(|w: Vec<char>| w@), old(out)@),
{
    let ghost ws = words@.map_values(|w: Vec<char>| w@);
    let mut ch: u128 = 0;
    let mut i: usize = 0;
    while i < words.len()
        invariant
            i <= words.len(),
            ws == words@.map_values(|w: Vec<char>| w@),
            (out@, ch as nat) == wrap_words(ws.take(i as int), old(out)@),
            ch <= 4 * 0xffff_ffff_ffff_ffffu128 + 40,
        decreases words.len() - i,
    {
        let w = &words[i];
        let bl = utf8_len(w);
        assert(ws.take(i + 1).drop_last() =~= ws.take(i as int));
        assert(ws.take(i + 1).last() == w@);
        let wl = w.len();
        assert(w@.len() == wl);
        ch = ch + bl;
        if ch > CHARACTERS_PER_LINE {
            out.push('\n');
            append_chars(out, w);
            ch = bl;
        } else {
            append_chars(out, w);
        }
        out.push(' ');
        i = i + 1;
    }
    assert(ws.take(i as int) =~= ws);
    ch
}

/// The whole text wrapped for the dialogue box: lines are kept, and within a
/// line a word that would take it past 40 bytes starts a new line.
pub fn typewriter_wrap_chars(s: &Vec<char>) -> (r: Vec<char>)
    ensures
        r@ == typewriter_wrapped(s@),
{
    let lines = split_chars(s, '\n');
    let ghost ls = split_char(s@, '\n');
    let mut out: Vec<char> = Vec::new();
    let mut i: usize = 0;
    while i < lines.len()
        invariant
            i <= lines.len(),
            lines.len() == ls.len(),
            forall|j: int| 0 <= j < lines.len() ==> #[trigger] lines@[j]@ == ls[j],
            out@ == wrap_lines(ls.take(i as int)),
        decreases lines.len() - i,
    {
        let words = ascii_words_of(&lines[i]);
        assert(words@.map_values(|w: Vec<char>| w@) =~= ascii_words(ls[i as int]));
        let ghost before = out@;
        let _ = wrap_words_into(&words, &mut out);
        pop_char(&mut out);
        out.push('\n');
        assert(ls.take(i + 1).drop_last() =~= ls.take(i as int));
        assert(out@ == wrap_line(before, ls[i as int]));
        i = i + 1;
    }
    assert(ls.take(i as int) =~= ls);
    pop_char(&mut out);
    out
}

/// The number of characters of `s` whose bytes make up the first `cap` bytes of
/// `s` (or all of `s`, when it is shorter), if the cut falls between characters.
pub fn prefix_chars_for_bytes(s: &Vec<char>, cap: usize) -> (r: Option<usize>)
    ensures
        match r {
            Some(k) => prefix_has_bytes(s@, k as int, min_nat(cap as nat, bytes_len(s@))),
            None => forall|k: int| !prefix_has_bytes(s@, k, min_nat(cap as nat, bytes_len(s@))),
        },
{
    let total = utf8_len(s);
    let target: u128 = if (cap as u128) < total {
        cap as u128
    } else {
        total
    };
    let mut acc: u128 = 0;
    let mut k: usize = 0;
    while k < s.len() && acc < target
        invariant
            k <= s.len(),
            acc == bytes_len(s@.take(k as int)),
            target == min_nat(cap as nat, bytes_len(s@)),
            total == bytes_len(s@),
            target <= total,
            forall|j: int| 0 <= j < k ==> bytes_len(s@.take(j)) < target,
        decreases s.len() - k,
    {
        assert(s@.take(k + 1).drop_last() =~= s@.take(k as int));
        proof {
            lemma_bytes_len_prefix_strict(s@, k as int, s@.len() as int);
            assert(s@.take(s@.len() as int) =~= s@);
        }
        let b = char_len_utf8(s[k]);
        acc = acc + b;
        k = k + 1;
    }
    if acc == target {
        Some(k)
    } else {
        proof {
            if k == s@.len() {
                assert(s@.take(k as int) =~= s@);
            }
            assert forall|j: int| !prefix_has_bytes(s@, j, target as nat) by {
                if prefix_has_bytes(s@, j, target as nat) {
                    if j < k {
                    } else if j > k {
                        lemma_bytes_len_prefix_strict(s@, k as int, j);
                    }
                }
            }
        }
        None
    }
}


/// Builds a `String` from characters with `String::from_iter`; the contract
/// claims only what std documents: the string holds exactly these characters, in order.
#[verifier::external_body]
pub(crate) fn string_from_chars(v: Vec<char>) -> (r: String)
    ensures
        r@ == v@,
{
    String::from_iter(v)
}

/// The whole text wrapped for the dialogue box (the text that the typewriter
/// effect shows once every character has appeared).
pub fn typewriter_wrap(string: &str) -> (r: String)
    ensures
        r@ == typewriter_wrapped(string@),
{
    let cs = chars_of(string);
    let w = typewriter_wrap_chars(&cs);
    string_from_chars(w)
}

/// The wrapped text cut to its first `cap_chars` bytes (all of it when it is
/// shorter), or `None` when the cut would fall inside a character.
pub fn typewriter_text_checked(string: &str, cap_chars: usize) -> (r: Option<String>)
    ensures
        r is Some <==> exists|k: int|
            prefix_has_bytes(
                typewriter_wrapped(string@),
                k,
                min_nat(cap_chars as nat, bytes_len(typewriter_wrapped(string@))),
            ),
        r matches Some(t) ==> {
            &&& t@.len() <= typewriter_wrapped(string@).len()
            &&& t@ == typewriter_wrapped(string@).take(t@.len() as int)
            &&& bytes_len(t@) == min_nat(cap_chars as nat, bytes_len(typewriter_wrapped(string@)))
        },
{
    let cs = chars_of(string);
    let w = typewriter_wrap_chars(&cs);
    let k = prefix_chars_for_bytes(&w, cap_chars);
    match k {
        Some(k) => {
            let mut cut: Vec<char> = Vec::new();
            let mut i: usize = 0;
            while i < k
                invariant
                    k <= w@.len(),
                    i <= k,
                    cut@ == w@.take(i as int),
                decreases k - i,
            {
                cut.push(w[i]);
                assert(cut@ =~= w@.take(i + 1));
                i = i + 1;
            }
            Some(string_from_chars(cut))
        },
        None => None,
    }
}

/// The wrapped text cut to its first `cap_chars` bytes (all of it when it is
/// shorter). The cut must fall between two characters.
pub fn typewriter_text(string: &str, cap_chars: usize) -> (r: String)
    requires
        exists|k: int|
            prefix_has_bytes(
                typewriter_wrapped(string@),
                k,
                min_nat(cap_chars as nat, bytes_len(typewriter_wrapped(string@))),
            ),
    ensures
        r@.len() <= typewriter_wrapped(string@).len(),
        r@ == typewriter_wrapped(string@).take(r@.len() as int),
        bytes_len(r@) == min_nat(cap_chars as nat, bytes_len(typewriter_wrapped(string@))),
        r@ == typewriter_cut(string@, cap_chars as nat),
{
    match typewriter_text_checked(string, cap_chars) {
        Some(t) => {
            proof {
                lemma_typewriter_cut(string@, cap_chars as nat, t@);
            }
            t
        },
        None => String::new(),
    }
}

/// The wrapped `s` cut to its first `cap` bytes (all of it when it is
/// shorter), where that cut falls between two characters.
pub open spec fn typewriter_cut(s: Seq<char>, cap: nat) -> Seq<char> {
    let w = typewriter_wrapped(s);
    w.take(choose|k: int| prefix_has_bytes(w, k, min_nat(cap, bytes_len(w))))
}

/// A prefix of the wrapped text with the bytes of the cut is the cut.
pub proof fn lemma_typewriter_cut(s: Seq<char>, cap: nat, t: Seq<char>)
    requires
        t.len() <= typewriter_wrapped(s).len(),
        t == typewriter_wrapped(s).take(t.len() as int),
        bytes_len(t) == min_nat(cap, bytes_len(typewriter_wrapped(s))),
    ensures
        t == typewriter_cut(s, cap),
{
    let w = typewriter_wrapped(s);
    let b = min_nat(cap, bytes_len(w));
    assert(prefix_has_bytes(w, t.len() as int, b));
    let k = choose|k: int| prefix_has_bytes(w, k, b);
    lemma_prefix_bytes_unique(w, k, t.len() as int, b);
}

/// What the typewriter shows with fewer bytes is the start of what it shows
/// with more: the cut at `cap1` is a prefix of the cut at a larger `cap2`.
pub proof fn law_typewriter_grows(s: Seq<char>, cap1: nat, cap2: nat)
    requires
        cap1 <= cap2,
        cut_between_chars(s, cap1),
        cut_between_chars(s, cap2),
    ensures
        typewriter_cut(s, cap1).len() <= typewriter_cut(s, cap2).len(),
        typewriter_cut(s, cap2).take(typewriter_cut(s, cap1).len() as int) == typewriter_cut(s, cap1),
{
    let w = typewriter_wrapped(s);
    let b1 = min_nat(cap1, bytes_len(w));
    let b2 = min_nat(cap2, bytes_len(w));
    let k1 = choose|k: int| prefix_has_bytes(w, k, b1);
    let k2 = choose|k: int| prefix_has_bytes(w, k, b2);
    assert(prefix_has_bytes(w, k1, b1));
    assert(prefix_has_bytes(w, k2, b2));
    if k2 < k1 {
        lemma_bytes_len_prefix_strict(w, k2, k1);
    }
    assert(typewriter_cut(s, cap1) == w.take(k1));
    assert(typewriter_cut(s, cap2) == w.take(k2));
    assert(w.take(k2).take(k1) =~= w.take(k1));
}


/// The decimal digit `d` (below ten) as a character.
pub open spec fn digit_char(d: nat) -> char {
    seq!['0', '1', '2', '3', '4', '5', '6', '7', '8', '9'][d as int]
}

/// `n` written in decimal, without leading zeros.
pub open spec fn decimal(n: nat) -> Seq<char>
    decreases n,
{
    if n < 10 {
        seq![digit_char(n)]
    } else {
        decimal(n / 10).push(digit_char(n % 10))
    }
}

/// The decimal digit `d` as a character.
fn digit(d: u64) -> (r: char)
    requires
        d < 10,
    ensures
        r == digit_char(d as nat),
{
    match d {
        0 => '0',
        1 => '1',
        2 => '2',
        3 => '3',
        4 => '4',
        5 => '5',
        6 => '6',
        7 => '7',
        8 => '8',
        _ => '9',
    }
}

/// `n` written in decimal (see `decimal`).
pub fn decimal_chars(n: u64) -> (r: Vec<char>)
    ensures
        r@ == decimal(n as nat),
    decreases n,
{
    if n < 10 {
        let mut r: Vec<char> = Vec::new();
        r.push(digit(n));
        assert(r@ =~= seq![digit_char(n as nat)]);
        r
    } else {
        let mut r = decimal_chars(n / 10);
        r.push(digit(n % 10));
        r
    }
}

/// The number of bytes past which every text is typed out at once.
pub const TYPEWRITER_ALL: usize = 99999;

/// Whether cutting the wrapped `s` to its first `cap` bytes (all of it when it
/// is shorter) falls between two characters.
pub open spec fn cut_between_chars(s: Seq<char>, cap: nat) -> bool {
    exists|k: int| prefix_has_bytes(typewriter_wrapped(s), k, min_nat(cap, bytes_len(typewriter_wrapped(s))))
}

/// Whether the typewriter shows as much of the wrapped `s` with `cap` bytes
/// as it does once everything is typed out.
pub open spec fn fully_typed(s: Seq<char>, cap: nat) -> bool {
    min_nat(cap, bytes_len(typewriter_wrapped(s))) == min_nat(TYPEWRITER_ALL as nat, bytes_len(typewriter_wrapped(s)))
}

/// Whether the text has been typed out with `cap_chars` bytes shown (see
/// `fully_typed`). Both cuts must fall between two characters.
pub fn text_typed_out(string: &str, cap_chars: usize) -> (r: bool)
    requires
        cut_between_chars(string@, cap_chars as nat),
        cut_between_chars(string@, TYPEWRITER_ALL as nat),
    ensures
        r == fully_typed(string@, cap_chars as nat),
{
    let cs = chars_of(string);
    let w = typewriter_wrap_chars(&cs);
    let total = utf8_len(&w);
    let shown: u128 = if (cap_chars as u128) < total {
        cap_chars as u128
    } else {
        total
    };
    let all: u128 = if (TYPEWRITER_ALL as u128) < total {
        TYPEWRITER_ALL as u128
    } else {
        total
    };
    shown == all
}

/// Whitespace as `char::is_whitespace` knows it: the characters with the
/// Unicode `White_Space` property.
pub open spec fn is_ws(c: char) -> bool {
    ||| '\t' <= c <= '\r'
    ||| c == ' '
    ||| c == '\u{85}'
    ||| c == '\u{A0}'
    ||| c == '\u{1680}'
    ||| '\u{2000}' <= c <= '\u{200A}'
    ||| c == '\u{2028}'
    ||| c == '\u{2029}'
    ||| c == '\u{202F}'
    ||| c == '\u{205F}'
    ||| c == '\u{3000}'
}

/// `s` without its leading whitespace.
pub open spec fn trim_start(s: Seq<char>) -> Seq<char>
    decreases s.len(),
{
    if s.len() > 0 && is_ws(s[0]) {
        trim_start(s.drop_first())
    } else {
        s
    }
}

/// `s` without its trailing whitespace.
pub open spec fn trim_end(s: Seq<char>) -> Seq<char>
    decreases s.len(),
{
    if s.len() > 0 && is_ws(s.last()) {
        trim_end(s.drop_last())
    } else {
        s
    }
}

/// `s` without leading and trailing whitespace (`str::trim`).
pub open spec fn trim(s: Seq<char>) -> Seq<char> {
    trim_end(trim_start(s))
}

/// The position of the first `c` in `s`, or -1 when there is none (`str::find`).
pub open spec fn first_index(s: Seq<char>, c: char) -> int
    decreases s.len(),
{
    if s.len() == 0 {
        -1
    } else {
        let p = first_index(s.drop_last(), c);
        if p >= 0 {
            p
        } else if s.last() == c {
            s.len() - 1
        } else {
            -1
        }
    }
}

/// The part of `s` before its first `c`, or all of `s`: the first piece of `split(c)`.
pub open spec fn before_char(s: Seq<char>, c: char) -> Seq<char> {
    if first_index(s, c) >= 0 {
        s.take(first_index(s, c))
    } else {
        s
    }
}

/// Without the separator, `str::split` gives the whole text as one piece.
pub proof fn lemma_split_char_whole(s: Seq<char>, sep: char)
    requires
        forall|j: int| 0 <= j < s.len() ==> s[j] != sep,
    ensures
        split_char(s, sep) == seq![s],
    decreases s.len(),
{
    if s.len() == 0 {
        assert(s =~= Seq::<char>::empty());
    } else {
        lemma_split_char_whole(s.drop_last(), sep);
        assert(s.drop_last().push(s.last()) =~= s);
        assert(seq![s.drop_last()].update(0, s.drop_last().push(s.last())) =~= seq![s]);
    }
}

/// The first `c` in `s` is at `i` when `s[i]` is `c` and no earlier
/// character is.
pub proof fn lemma_first_index_at(s: Seq<char>, c: char, i: int)
    requires
        0 <= i <= s.len(),
        i < s.len() ==> s[i] == c,
        forall|j: int| 0 <= j < i ==> s[j] != c,
    ensures
        first_index(s, c) == (if i < s.len() { i } else { -1 }),
    decreases s.len(),
{
    if s.len() > 0 {
        if i < s.len() - 1 {
            lemma_first_index_at(s.drop_last(), c, i);
        } else {
            lemma_first_index_at(s.drop_last(), c, s.len() - 1);
        }
    }
}

/// A text that starts and ends with something other than whitespace is its
/// own trim.
pub proof fn lemma_trim_unchanged(s: Seq<char>)
    requires
        s.len() > 0,
        !is_ws(s[0]),
        !is_ws(s.last()),
    ensures
        trim(s) == s,
{
    assert(trim_start(s) == s);
    assert(trim_end(s) == s);
}

/// Whether the text `w` occurs somewhere in `s`.
pub open spec fn mentions(s: Seq<char>, w: Seq<char>) -> bool {
    exists|i: int| 0 <= i && i + w.len() <= s.len() && #[trigger] s.subrange(i, i + w.len()) == w
}

/// A text whose first four characters appear nowhere in `s` does not occur in `s`.
pub proof fn lemma_no_mention(s: Seq<char>, w: Seq<char>)
    requires
        w.len() >= 4,
        forall|i: int|
            0 <= i && i + 4 <= s.len() ==> !(#[trigger] s[i] == w[0] && s[i + 1] == w[1] && s[i + 2] == w[2] && s[i + 3]
                == w[3]),
    ensures
        !mentions(s, w),
{
    assert forall|i: int| 0 <= i && i + w.len() <= s.len() implies #[trigger] s.subrange(i, i + w.len()) != w by {
        if s.subrange(i, i + w.len()) == w {
            assert(s.subrange(i, i + w.len())[0] == s[i]);
            assert(s.subrange(i, i + w.len())[1] == s[i + 1]);
            assert(s.subrange(i, i + w.len())[2] == s[i + 2]);
            assert(s.subrange(i, i + w.len())[3] == s[i + 3]);
        }
    }
}

/// The position of the first `==` in `s`, or -1 when there is none.
pub open spec fn first_double_eq(s: Seq<char>) -> int
    decreases s.len(),
{
    if s.len() < 2 {
        -1
    } else {
        let p = first_double_eq(s.drop_last());
        if p >= 0 {
            p
        } else if s[s.len() - 2] == '=' && s.last() == '=' {
            s.len() - 2
        } else {
            -1
        }
    }
}

/// The part of `s` before its first `==`, or all of `s`: the first piece of `split("==")`.
pub open spec fn before_double_eq(s: Seq<char>) -> Seq<char> {
    if first_double_eq(s) >= 0 {
        s.take(first_double_eq(s))
    } else {
        s
    }
}

/// Whether `s` begins with `p`.
pub open spec fn starts_with(s: Seq<char>, p: Seq<char>) -> bool {
    p.len() <= s.len() && s.take(p.len() as int) == p
}

/// Whether `c` is an ASCII digit.
pub open spec fn is_digit(c: char) -> bool {
    '0' <= c <= '9'
}

/// The value of a string of decimal digits.
pub open spec fn digits_value(s: Seq<char>) -> nat
    decreases s.len(),
{
    if s.len() == 0 {
        0
    } else {
        10 * digits_value(s.drop_last()) + ((s.last() as nat) - ('0' as nat)) as nat
    }
}

/// Whether every character of `s` is a digit.
pub open spec fn all_digits(s: Seq<char>) -> bool {
    forall|i: int| 0 <= i < s.len() ==> is_digit(#[trigger] s[i])
}

/// The digits of a number: the text without its leading sign, if any.
pub open spec fn unsigned_part(s: Seq<char>) -> Seq<char> {
    if s.len() > 0 && (s[0] == '+' || s[0] == '-') {
        s.drop_first()
    } else {
        s
    }
}

/// What `str::parse::<i32>` gives: an optional sign, then at least one digit,
/// and nothing else; `None` when the text is malformed or out of range.
pub open spec fn parse_i32(s: Seq<char>) -> Option<i32> {
    if s.len() == 0 {
        None
    } else if (s[0] == '+' || s[0] == '-') && s.len() == 1 {
        None
    } else if !all_digits(unsigned_part(s)) {
        None
    } else if s[0] == '-' {
        if digits_value(unsigned_part(s)) <= 2147483648 {
            Some((-(digits_value(unsigned_part(s)) as int)) as i32)
        } else {
            None
        }
    } else {
        if digits_value(unsigned_part(s)) <= 2147483647 {
            Some(digits_value(unsigned_part(s)) as i32)
        } else {
            None
        }
    }
}

/// Leading whitespace skipped up to position `i` leaves `trim_start` unchanged.
proof fn lemma_trim_start_skip(s: Seq<char>, i: int)
    requires
        0 <= i <= s.len(),
        forall|j: int| 0 <= j < i ==> is_ws(s[j]),
    ensures
        trim_start(s) == trim_start(s.skip(i)),
    decreases i,
{
    if i > 0 {
        assert(s.drop_first().skip(i - 1) =~= s.skip(i));
        lemma_trim_start_skip(s.drop_first(), i - 1);
    } else {
        assert(s.skip(0) =~= s);
    }
}

/// Trailing whitespace cut from position `j` on leaves `trim_end` unchanged.
proof fn lemma_trim_end_take(s: Seq<char>, j: int)
    requires
        0 <= j <= s.len(),
        forall|k: int| j <= k < s.len() ==> is_ws(s[k]),
    ensures
        trim_end(s) == trim_end(s.take(j)),
    decreases s.len() - j,
{
    if j < s.len() {
        assert(s.drop_last().take(j) =~= s.take(j));
        lemma_trim_end_take(s.drop_last(), j);
    } else {
        assert(s.take(j) =~= s);
    }
}

/// A found position stays the first one in every longer text.
proof fn lemma_first_index_extend(s: Seq<char>, c: char, k: int)
    requires
        0 <= k <= s.len(),
        first_index(s.take(k), c) >= 0,
    ensures
        first_index(s, c) == first_index(s.take(k), c),
    decreases s.len() - k,
{
    if k < s.len() {
        assert(s.take(k + 1).drop_last() =~= s.take(k));
        lemma_first_index_extend(s, c, k + 1);
    } else {
        assert(s.take(k) =~= s);
    }
}

/// A found `==` stays the first one in every longer text.
proof fn lemma_first_double_eq_extend(s: Seq<char>, k: int)
    requires
        0 <= k <= s.len(),
        first_double_eq(s.take(k)) >= 0,
    ensures
        first_double_eq(s) == first_double_eq(s.take(k)),
    decreases s.len() - k,
{
    if k < s.len() {
        assert(s.take(k + 1).drop_last() =~= s.take(k));
        lemma_first_double_eq_extend(s, k + 1);
    } else {
        assert(s.take(k) =~= s);
    }
}

/// The characters of `s` from `a` up to `b`.
pub fn sub_chars(s: &Vec<char>, a: usize, b: usize) -> (r: Vec<char>)
    requires
        a <= b <= s@.len(),
    ensures
        r@ == s@.subrange(a as int, b as int),
{
    let mut r: Vec<char> = Vec::new();
    let mut i: usize = a;
    while i < b
        invariant
            a <= i <= b,
            b <= s@.len(),
            r@ == s@.subrange(a as int, i as int),
        decreases b - i,
    {
        r.push(s[i]);
        assert(r@ =~= s@.subrange(a as int, i + 1));
        i = i + 1;
    }
    r
}

/// Whether `c` is whitespace (`char::is_whitespace`).
pub fn is_whitespace(c: char) -> (r: bool)
    ensures
        r == is_ws(c),
{
    ('\t' <= c && c <= '\r') || c == ' ' || c == '\u{85}' || c == '\u{A0}' || c == '\u{1680}'
        || ('\u{2000}' <= c && c <= '\u{200A}') || c == '\u{2028}' || c == '\u{2029}' || c
        == '\u{202F}' || c == '\u{205F}' || c == '\u{3000}'
}

/// `s` without leading and trailing whitespace.
pub fn trim_chars(s: &Vec<char>) -> (r: Vec<char>)
    ensures
        r@ == trim(s@),
{
    let n = s.len();
    let mut i: usize = 0;
    while i < n && is_whitespace(s[i])
        invariant
            n == s@.len(),
            i <= n,
            forall|j: int| 0 <= j < i ==> is_ws(s@[j]),
        decreases n - i,
    {
        i = i + 1;
    }
    proof {
        lemma_trim_start_skip(s@, i as int);
        if i < n {
            assert(!is_ws(s@.skip(i as int)[0]));
        } else {
            assert(s@.skip(i as int).len() == 0);
        }
    }
    let mut j: usize = n;
    while j > i && is_whitespace(s[j - 1])
        invariant
            n == s@.len(),
            i <= j <= n,
            forall|k: int| j <= k < n ==> is_ws(s@[k]),
        decreases j,
    {
        j = j - 1;
    }
    let ghost t = s@.skip(i as int);
    proof {
        assert(trim_start(s@) == t);
        assert forall|k: int| j - i <= k < t.len() implies is_ws(t[k]) by {
            assert(t[k] == s@[i + k]);
        }
        lemma_trim_end_take(t, j - i);
        let u = t.take(j - i);
        if j > i {
            assert(u.last() == s@[j - 1]);
        }
    }
    let r = sub_chars(s, i, j);
    assert(r@ =~= t.take(j - i));
    r
}

/// The position of the first `c` in `s`, if any.
pub fn find_char(s: &Vec<char>, c: char) -> (r: Option<usize>)
    ensures
        match r {
            Some(i) => first_index(s@, c) == i && i < s@.len(),
            None => first_index(s@, c) == -1,
        },
{
    let mut i: usize = 0;
    while i < s.len()
        invariant
            i <= s@.len(),
            first_index(s@.take(i as int), c) == -1,
        decreases s.len() - i,
    {
        assert(s@.take(i + 1).drop_last() =~= s@.take(i as int));
        if s[i] == c {
            proof {
                lemma_first_index_extend(s@, c, i + 1);
            }
            return Some(i);
        }
        i = i + 1;
    }
    assert(s@.take(i as int) =~= s@);
    None
}

/// The position of the first `==` in `s`, if any.
pub fn find_double_eq(s: &Vec<char>) -> (r: Option<usize>)
    ensures
        match r {
            Some(i) => first_double_eq(s@) == i && i + 2 <= s@.len(),
            None => first_double_eq(s@) == -1,
        },
{
    if s.len() < 2 {
        return None;
    }
    let mut i: usize = 1;
    assert(first_double_eq(s@.take(1)) == -1);
    while i < s.len()
        invariant
            1 <= i <= s@.len(),
            first_double_eq(s@.take(i as int)) == -1,
        decreases s.len() - i,
    {
        let ghost t = s@.take(i + 1);
        assert(t.drop_last() =~= s@.take(i as int));
        assert(t[t.len() - 2] == s@[i - 1]);
        if s[i - 1] == '=' && s[i] == '=' {
            proof {
                lemma_first_double_eq_extend(s@, i + 1);
            }
            return Some(i - 1);
        }
        i = i + 1;
    }
    assert(s@.take(i as int) =~= s@);
    None
}

/// Whether `v` holds exactly the characters of `lit`.
pub fn chars_eq_str(v: &Vec<char>, lit: &str) -> (r: bool)
    ensures
        r == (v@ == lit@),
{
    let l = chars_of(lit);
    if l.len() != v.len() {
        return false;
    }
    let mut i: usize = 0;
    while i < v.len()
        invariant
            l@ == lit@,
            l@.len() == v@.len(),
            i <= v@.len(),
            forall|j: int| 0 <= j < i ==> v@[j] == l@[j],
        decreases v.len() - i,
    {
        if v[i] != l[i] {
            return false;
        }
        i = i + 1;
    }
    assert(v@ =~= l@);
    true
}

/// Whether `v` begins with the characters of `lit`.
pub fn starts_with_str(v: &Vec<char>, lit: &str) -> (r: bool)
    ensures
        r == starts_with(v@, lit@),
{
    let l = chars_of(lit);
    if l.len() > v.len() {
        return false;
    }
    let mut i: usize = 0;
    while i < l.len()
        invariant
            l@ == lit@,
            l@.len() <= v@.len(),
            i <= l@.len(),
            forall|j: int| 0 <= j < i ==> v@[j] == l@[j],
        decreases l.len() - i,
    {
        if v[i] != l[i] {
            assert(v@.take(l@.len() as int)[i as int] != l@[i as int]);
            return false;
        }
        i = i + 1;
    }
    assert(v@.take(l@.len() as int) =~= l@);
    true
}

/// What `str::parse::<i32>` gives for these characters.
pub fn parse_i32_chars(s: &Vec<char>) -> (r: Option<i32>)
    ensures
        r == parse_i32(s@),
{
    let n = s.len();
    if n == 0 {
        return None;
    }
    if (s[0] == '+' || s[0] == '-') && n == 1 {
        return None;
    }
    let neg = s[0] == '-';
    let start: usize = if s[0] == '+' || s[0] == '-' {
        1
    } else {
        0
    };
    let ghost ds = unsigned_part(s@);
    assert(ds =~= s@.skip(start as int));
    // The running value, held at 2^31 + 1 once it grows past every i32.
    let cap: u64 = 2147483649;
    let mut acc: u64 = 0;
    let mut i: usize = start;
    while i < n
        invariant
            n == s@.len(),
            n > 0,
            !((s@[0] == '+' || s@[0] == '-') && n == 1),
            neg == (s@[0] == '-'),
            start <= i <= n,
            ds == s@.skip(start as int),
            ds == unsigned_part(s@),
            cap == 2147483649,
            forall|j: int| 0 <= j < i - start ==> is_digit(#[trigger] ds[j]),
            acc == min_nat(digits_value(ds.take(i - start)), cap as nat),
        decreases n - i,
    {
        let c = s[i];
        if !('0' <= c && c <= '9') {
            assert(!is_digit(ds[i - start]));
            assert(!all_digits(ds));
            return None;
        }
        let ghost t = ds.take(i - start + 1);
        assert(t.drop_last() =~= ds.take(i - start));
        assert(t.last() == c);
        let d = (c as u32 - '0' as u32) as u64;
        let next: u64 = if acc >= cap {
            cap
        } else {
            let v = acc * 10 + d;
            if v > cap {
                cap
            } else {
                v
            }
        };
        acc = next;
        i = i + 1;
    }
    assert(ds.take(n - start) =~= ds);
    if neg {
        if acc <= 2147483648 {
            let v: i64 = -(acc as i64);
            Some(v as i32)
        } else {
            None
        }
    } else {
        if acc <= 2147483647 {
            Some(acc as i32)
        } else {
            None
        }
    }
}

} // verus!
