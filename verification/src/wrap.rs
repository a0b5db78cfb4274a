//! Splitting a text into words and greedy wrapping of the words into lines.
//! Lengths are counted in characters, not in bytes and not in rendered
//! width.

use vstd::prelude::*;
use vstd::string::StringExecFns;
use vstd::string::StrSliceExecFns;

verus! {

/// Whether `c` separates words: the Unicode white space characters.
pub open spec fn is_space(c: char) -> bool {
    let n = c as u32;
    ||| 0x09 <= n <= 0x0d
    ||| n == 0x20
    ||| n == 0x85
    ||| n == 0xa0
    ||| n == 0x1680
    ||| 0x2000 <= n <= 0x200a
    ||| n == 0x2028
    ||| n == 0x2029
    ||| n == 0x202f
    ||| n == 0x205f
    ||| n == 0x3000
}

/// Length of the run of characters at the front of `s` that are not white
/// space.
pub open spec fn word_len(s: Seq<char>) -> nat
    decreases s.len(),
{
    if s.len() == 0 || is_space(s[0]) {
        0
    } else {
        1 + word_len(s.drop_first())
    }
}

/// The words of a text: its maximal runs of characters that are not white
/// space, in order.
pub open spec fn words(s: Seq<char>) -> Seq<Seq<char>>
    decreases s.len(),
    via words_decreases
{
    if s.len() == 0 {
        Seq::empty()
    } else if is_space(s[0]) {
        words(s.drop_first())
    } else {
        seq![s.take(word_len(s) as int)] + words(s.skip(word_len(s) as int))
    }
}

#[via_fn]
proof fn words_decreases(s: Seq<char>) {
    if s.len() > 0 && !is_space(s[0]) {
        lemma_word_len_bound(s);
    }
}

/// The leading run is no longer than the text, and not empty where the text
/// starts with a character that is not white space.
pub proof fn lemma_word_len_bound(s: Seq<char>)
    ensures
        word_len(s) <= s.len(),
        s.len() > 0 && !is_space(s[0]) ==> word_len(s) >= 1,
    decreases s.len(),
{
    if s.len() > 0 && !is_space(s[0]) {
        lemma_word_len_bound(s.drop_first());
    }
}

/// Exec form of `is_space`.
pub fn is_whitespace(c: char) -> (b: bool)
    ensures
        b == is_space(c),
{
    let n: u32 = c as u32;
    (0x09 <= n && n <= 0x0d) || n == 0x20 || n == 0x85 || n == 0xa0 || n == 0x1680 || (0x2000 <= n
        && n <= 0x200a) || n == 0x2028 || n == 0x2029 || n == 0x202f || n == 0x205f || n == 0x3000
}

/// Whether no character of `s` is white space.
pub open spec fn has_no_space(s: Seq<char>) -> bool {
    forall|i: int| 0 <= i < s.len() ==> !is_space(#[trigger] s[i])
}

/// A run without white space at the front of a text is part of its leading
/// run.
pub proof fn lemma_word_len_prefix(run: Seq<char>, rest: Seq<char>)
    requires
        has_no_space(run),
    ensures
        word_len(run + rest) == run.len() + word_len(rest),
    decreases run.len(),
{
    if run.len() > 0 {
        assert((run + rest).drop_first() =~= run.drop_first() + rest);
        lemma_word_len_prefix(run.drop_first(), rest);
    }
}

/// A run without white space that is followed by white space, or by nothing,
/// is the first word.
pub proof fn lemma_words_first(run: Seq<char>, rest: Seq<char>)
    requires
        run.len() > 0,
        has_no_space(run),
        rest.len() == 0 || is_space(rest[0]),
    ensures
        words(run + rest) == seq![run] + words(rest),
{
    lemma_word_len_prefix(run, rest);
    assert((run + rest).take(run.len() as int) =~= run);
    assert((run + rest).skip(run.len() as int) =~= rest);
}

/// Whether every character of `s` is white space.
pub open spec fn is_all_space(s: Seq<char>) -> bool {
    forall|i: int| 0 <= i < s.len() ==> is_space(#[trigger] s[i])
}

/// White space at the front of a text holds no word.
pub proof fn lemma_words_skip_space(gap: Seq<char>, rest: Seq<char>)
    requires
        is_all_space(gap),
    ensures
        words(gap + rest) == words(rest),
    decreases gap.len(),
{
    if gap.len() > 0 {
        assert((gap + rest).drop_first() =~= gap.drop_first() + rest);
        lemma_words_skip_space(gap.drop_first(), rest);
    }
}

/// Splits a text into its words.
pub fn split_words(text: &str) -> (out: Vec<String>)
    ensures
        out.deep_view() == words(text@),
{
    let mut out: Vec<String> = Vec::new();
    let mut word = String::new();
    let chars = text.chars();
    proof {
        assert(word@ + text@.skip(0) =~= text@);
    }
    for c in it: chars
        invariant
            it.seq() == text@,
            has_no_space(word@),
            words(text@) == out.deep_view() + words(word@ + text@.skip(it.index() as int)),
    {
        let ghost k = it.index() as int;
        let ghost rest = text@.skip(k);
        proof {
            assert(rest.drop_first() =~= text@.skip(k + 1));
        }
        if is_whitespace(c) {
            if !word.as_str().is_empty() {
                proof {
                    lemma_words_first(word@, rest);
                }
                out.push(word);
                word = String::new();
            }
        } else {
            let ghost run = word@;
            word.push(c);
            proof {
                assert(word@ + text@.skip(k + 1) =~= run + rest);
            }
        }
    }
    if !word.as_str().is_empty() {
        proof {
            lemma_words_first(word@, Seq::empty());
        }
        out.push(word);
    }
    out
}

/// The characters of the leading run are not white space.
pub proof fn lemma_word_len_run(s: Seq<char>)
    ensures
        has_no_space(s.take(word_len(s) as int)),
    decreases s.len(),
{
    lemma_word_len_bound(s);
    if s.len() > 0 && !is_space(s[0]) {
        lemma_word_len_run(s.drop_first());
        lemma_word_len_bound(s.drop_first());
        let run = s.take(word_len(s) as int);
        let tail = s.drop_first().take(word_len(s.drop_first()) as int);
        assert forall|i: int| 0 <= i < run.len() implies !is_space(#[trigger] run[i]) by {
            if i > 0 {
                assert(run[i] == tail[i - 1]);
            }
        }
    }
}

/// Every word is a non-empty run without white space.
pub proof fn lemma_words_are_runs(s: Seq<char>)
    ensures
        forall|i: int|
            0 <= i < words(s).len() ==> (#[trigger] words(s)[i]).len() > 0 && has_no_space(
                words(s)[i],
            ),
    decreases s.len(),
{
    if s.len() == 0 {
        assert(words(s).len() == 0);
    } else if is_space(s[0]) {
        lemma_words_are_runs(s.drop_first());
        assert(words(s) == words(s.drop_first()));
    } else {
        lemma_word_len_bound(s);
        lemma_word_len_run(s);
        assert(words(s) == seq![s.take(word_len(s) as int)] + words(
            s.skip(word_len(s) as int),
        ));
        let first = s.take(word_len(s) as int);
        let others = words(s.skip(word_len(s) as int));
        lemma_words_are_runs(s.skip(word_len(s) as int));
        assert forall|i: int| 0 <= i < words(s).len() implies (#[trigger] words(s)[i]).len() > 0
            && has_no_space(words(s)[i]) by {
            if i == 0 {
                assert(words(s)[0] == first);
            } else {
                assert(words(s)[i] == others[i - 1]);
            }
        }
    }
}

/// Whether `word` still goes on `line`, behind one space, within `width`
/// characters.
pub open spec fn fits(line: Seq<char>, word: Seq<char>, width: nat) -> bool {
    line.len() + 1 + word.len() <= width
}

/// The lines that come of `rest` when `line` is the line being filled: each
/// word goes on the line if it fits, and starts the next line if not.
pub open spec fn pack(line: Seq<char>, rest: Seq<Seq<char>>, width: nat) -> Seq<Seq<char>>
    decreases rest.len(),
{
    if rest.len() == 0 {
        seq![line]
    } else if fits(line, rest[0], width) {
        pack(line + seq![' '] + rest[0], rest.drop_first(), width)
    } else {
        seq![line] + pack(rest[0], rest.drop_first(), width)
    }
}

/// Greedy first-fit filling of lines with `words`, the first word starting
/// the first line.
pub open spec fn greedy_lines(words: Seq<Seq<char>>, width: nat) -> Seq<Seq<char>> {
    if words.len() == 0 {
        Seq::empty()
    } else {
        pack(words[0], words.drop_first(), width)
    }
}

/// The lines of `text` wrapped at `width` characters.
pub open spec fn wrapped(text: Seq<char>, width: nat) -> Seq<Seq<char>> {
    greedy_lines(words(text), width)
}

/// Wraps `text` into lines of at most `max_width` characters, breaking only
/// at white space; a word longer than that stands on a line of its own. The
/// lines, joined by single spaces, are the text with its white space
/// normalised.
pub fn wrap_text(text: &str, max_width: usize) -> (lines: Vec<String>)
    ensures
        lines.deep_view() == wrapped(text@, max_width as nat),
        forall|i: int|
            0 <= i < lines.len() ==> (#[trigger] lines[i])@.len() <= max_width || words(
                text@,
            ).contains(lines[i]@),
        joined(lines.deep_view(), seq![' ']) == normalized(text@),
        text@.len() == 0 ==> lines.len() == 0,
{
    let parts = split_words(text);
    let ghost all = parts.deep_view();
    let ghost width = max_width as nat;
    let mut lines: Vec<String> = Vec::new();
    let mut current = String::new();
    let mut current_len: usize = 0;
    proof {
        lemma_words_are_runs(text@);
    }
    for i in 0..parts.len()
        invariant
            all == parts.deep_view(),
            all == words(text@),
            width == max_width,
            forall|j: int| 0 <= j < all.len() ==> (#[trigger] all[j]).len() > 0,
            current_len == current@.len(),
            i == 0 ==> lines@.len() == 0 && current@.len() == 0,
            i > 0 ==> current@.len() > 0 && greedy_lines(all, width) == lines.deep_view() + pack(
                current@,
                all.skip(i as int),
                width,
            ),
    {
        let word: &String = &parts[i];
        let word_len = word.as_str().unicode_len();
        let ghost line = current@;
        proof {
            assert(all.skip(i as int).drop_first() =~= all.skip(i + 1));
        }
        if current.as_str().is_empty() {
            current = word.clone();
            current_len = word_len;
        } else if word_len < max_width && current_len <= max_width - word_len - 1 {
            current.push(' ');
            current.append(word.as_str());
            current_len = current_len + 1 + word_len;
            proof {
                assert(current@ =~= line + seq![' '] + word@);
            }
        } else {
            lines.push(current);
            current = word.clone();
            current_len = word_len;
        }
    }
    let ghost done = lines.deep_view();
    let ghost line = current@;
    if !current.as_str().is_empty() {
        lines.push(current);
        proof {
            assert(lines.deep_view() =~= done + seq![line]);
        }
    }
    proof {
        lemma_wrapped_width(text@, width);
        lemma_wrapped_joined(text@, width);
        assert forall|i: int| 0 <= i < lines.len() implies (#[trigger] lines[i])@.len()
            <= max_width || words(text@).contains(lines[i]@) by {
            assert(lines.deep_view()[i] == lines[i]@);
        }
    }
    lines
}

/// The parts in order, with `sep` between each two of them.
pub open spec fn joined(parts: Seq<Seq<char>>, sep: Seq<char>) -> Seq<char>
    decreases parts.len(),
{
    if parts.len() == 0 {
        Seq::empty()
    } else if parts.len() == 1 {
        parts[0]
    } else {
        joined(parts.drop_last(), sep) + sep + parts.last()
    }
}

/// A text with its white space normalised: its words with one space between
/// each two of them.
pub open spec fn normalized(text: Seq<char>) -> Seq<char> {
    joined(words(text), seq![' '])
}

/// Joining, read from the front.
pub proof fn lemma_joined_front(parts: Seq<Seq<char>>, sep: Seq<char>)
    requires
        parts.len() >= 2,
    ensures
        joined(parts, sep) == parts[0] + sep + joined(parts.drop_first(), sep),
    decreases parts.len(),
{
    let tail = parts.drop_first();
    if parts.len() == 2 {
        assert(joined(parts.drop_last(), sep) == parts[0]);
    } else {
        lemma_joined_front(parts.drop_last(), sep);
        assert(parts.drop_last().drop_first() =~= tail.drop_last());
    }
}

/// Filling lines never leaves the line being filled out.
pub proof fn lemma_pack_len(line: Seq<char>, rest: Seq<Seq<char>>, width: nat)
    ensures
        pack(line, rest, width).len() >= 1,
    decreases rest.len(),
{
    if rest.len() > 0 {
        if fits(line, rest[0], width) {
            lemma_pack_len(line + seq![' '] + rest[0], rest.drop_first(), width);
        } else {
            lemma_pack_len(rest[0], rest.drop_first(), width);
        }
    }
}

/// The lines that filling gives, joined by single spaces, are the line being
/// filled and the words still to come, joined by single spaces.
pub proof fn lemma_pack_joined(line: Seq<char>, rest: Seq<Seq<char>>, width: nat)
    ensures
        joined(pack(line, rest, width), seq![' ']) == joined(seq![line] + rest, seq![' ']),
    decreases rest.len(),
{
    let sp = seq![' '];
    if rest.len() > 0 {
        let tail = rest.drop_first();
        let whole = seq![line] + rest;
        lemma_joined_front(whole, sp);
        assert(whole.drop_first() =~= rest);
        if fits(line, rest[0], width) {
            let longer = line + sp + rest[0];
            lemma_pack_joined(longer, tail, width);
            if tail.len() > 0 {
                lemma_joined_front(seq![longer] + tail, sp);
                assert((seq![longer] + tail).drop_first() =~= tail);
                lemma_joined_front(rest, sp);
            }
        } else {
            let below = pack(rest[0], tail, width);
            lemma_pack_joined(rest[0], tail, width);
            lemma_pack_len(rest[0], tail, width);
            lemma_joined_front(seq![line] + below, sp);
            assert((seq![line] + below).drop_first() =~= below);
            assert(seq![rest[0]] + tail =~= rest);
        }
    }
}

/// The lines of a wrapped text, joined by single spaces, are the text with
/// its white space normalised.
pub proof fn lemma_wrapped_joined(text: Seq<char>, width: nat)
    ensures
        joined(wrapped(text, width), seq![' ']) == normalized(text),
{
    let all = words(text);
    if all.len() > 0 {
        lemma_pack_joined(all[0], all.drop_first(), width);
        assert(seq![all[0]] + all.drop_first() =~= all);
    }
}

/// Every line that filling gives is within the width or is one of the words,
/// if that holds of the line being filled and the words to come are among
/// `all`.
pub proof fn lemma_pack_width(
    line: Seq<char>,
    rest: Seq<Seq<char>>,
    width: nat,
    all: Seq<Seq<char>>,
)
    requires
        line.len() <= width || all.contains(line),
        forall|j: int| 0 <= j < rest.len() ==> all.contains(#[trigger] rest[j]),
    ensures
        forall|i: int|
            0 <= i < pack(line, rest, width).len() ==> {
                let l = #[trigger] pack(line, rest, width)[i];
                l.len() <= width || all.contains(l)
            },
    decreases rest.len(),
{
    let lines = pack(line, rest, width);
    if rest.len() == 0 {
        assert(lines =~= seq![line]);
    } else {
        let tail = rest.drop_first();
        assert forall|j: int| 0 <= j < tail.len() implies all.contains(#[trigger] tail[j]) by {
            assert(tail[j] == rest[j + 1]);
        }
        assert(all.contains(rest[0]));
        if fits(line, rest[0], width) {
            let longer = line + seq![' '] + rest[0];
            assert(longer.len() <= width);
            lemma_pack_width(longer, tail, width, all);
            assert(lines == pack(longer, tail, width));
        } else {
            let below = pack(rest[0], tail, width);
            lemma_pack_width(rest[0], tail, width, all);
            assert(lines == seq![line] + below);
            assert forall|i: int| 0 <= i < lines.len() implies {
                let l = #[trigger] lines[i];
                l.len() <= width || all.contains(l)
            } by {
                if i > 0 {
                    assert(lines[i] == below[i - 1]);
                }
            }
        }
    }
}

/// No line of a wrapped text is longer than the width, unless the line is a
/// single word of the text that is itself longer.
pub proof fn lemma_wrapped_width(text: Seq<char>, width: nat)
    ensures
        forall|i: int|
            0 <= i < wrapped(text, width).len() ==> {
                let l = #[trigger] wrapped(text, width)[i];
                l.len() <= width || words(text).contains(l)
            },
{
    let all = words(text);
    if all.len() > 0 {
        let tail = all.drop_first();
        assert forall|j: int| 0 <= j < tail.len() implies all.contains(#[trigger] tail[j]) by {
            assert(tail[j] == all[j + 1]);
        }
        lemma_pack_width(all[0], tail, width, all);
    }
}

/// A text without words wraps into no lines at all.
pub proof fn lemma_wrapped_empty(width: nat)
    ensures
        wrapped(Seq::empty(), width) == Seq::<Seq<char>>::empty(),
{
}

} // verus!
