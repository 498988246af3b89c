//! Breaking text into lines of a given width.
use vstd::prelude::*;
use crate::screen;
use crate::screen::{truncate_to_width, visible_width};
use crate::text;
use crate::text::{cat2, cat3, copy_text, repeat_char, text_lines, text_words};

verus! {

broadcast use crate::text::group_texts;

/// Lines that are full, and the line that words are still added to.
pub struct Filling {
    pub lines: Seq<Seq<char>>,
    pub current: Seq<char>,
}

/// The filling after one more word. A word that is too wide for a line of its own is cut, unless it
/// is what started the current line.
pub open spec fn filled(before: Filling, word: Seq<char>, width: nat) -> Filling {
    let candidate = if before.current.len() == 0 {
        word
    } else {
        before.current + " "@ + word
    };
    if screen::width_of(candidate) > width && before.current.len() > 0 {
        Filling { lines: before.lines.push(screen::cut(before.current, width)), current: word }
    } else if screen::width_of(word) > width {
        Filling { lines: before.lines.push(screen::cut(word, width)), current: Seq::empty() }
    } else {
        Filling { lines: before.lines, current: candidate }
    }
}

/// The filling after a sequence of words.
pub open spec fn filling(words: Seq<Seq<char>>, width: nat) -> Filling
    decreases words.len(),
{
    if words.len() == 0 {
        Filling { lines: Seq::empty(), current: Seq::empty() }
    } else {
        filled(filling(words.drop_last(), width), words.last(), width)
    }
}

/// One line of text, broken at white space.
pub open spec fn wrapped_line(line: Seq<char>, width: nat) -> Seq<Seq<char>> {
    if line.len() == 0 {
        seq![Seq::empty()]
    } else {
        let end = filling(text::words_of(line), width);
        if end.current.len() > 0 {
            end.lines.push(end.current)
        } else {
            end.lines
        }
    }
}

/// Several lines of text, each broken at white space.
pub open spec fn wrapped_lines(lines: Seq<Seq<char>>, width: nat) -> Seq<Seq<char>>
    decreases lines.len(),
{
    if lines.len() == 0 {
        Seq::empty()
    } else {
        wrapped_lines(lines.drop_last(), width) + wrapped_line(lines.last(), width)
    }
}

/// A text, broken at white space: always at least one line.
pub open spec fn wrapped(s: Seq<char>, width: nat) -> Seq<Seq<char>> {
    let lines = wrapped_lines(text::lines_of(s), width);
    if width == 0 || lines.len() == 0 {
        seq![Seq::empty()]
    } else {
        lines
    }
}

fn wrap_line(line: &str, width: usize) -> (r: Vec<String>)
    ensures
        text::texts(r@) == wrapped_line(line@, width as nat),
{
    let mut lines: Vec<String> = Vec::new();
    if line.is_empty() {
        lines.push(String::new());
        assert(text::texts(lines@) =~= seq![Seq::<char>::empty()]);
        return lines;
    }
    let words = text_words(line);
    let ghost all = text::texts(words@);
    let mut current = String::new();
    let mut i: usize = 0;
    assert(all.take(0) =~= Seq::<Seq<char>>::empty());
    while i < words.len()
        invariant
            0 <= i <= words.len(),
            all == text::texts(words@),
            text::texts(lines@) == filling(all.take(i as int), width as nat).lines,
            current@ == filling(all.take(i as int), width as nat).current,
        decreases words.len() - i,
    {
        assert(all.take(i + 1).drop_last() =~= all.take(i as int));
        let word = words[i].as_str();
        let candidate = if current.as_str().is_empty() {
            copy_text(word)
        } else {
            cat3(current.as_str(), " ", word)
        };
        if visible_width(candidate.as_str()) > width && !current.as_str().is_empty() {
            lines.push(truncate_to_width(current.as_str(), width));
            current = copy_text(word);
        } else if visible_width(word) > width {
            lines.push(truncate_to_width(word, width));
            current = String::new();
        } else {
            current = candidate;
        }
        i += 1;
    }
    assert(all.take(i as int) =~= all);
    if !current.as_str().is_empty() {
        lines.push(current);
    }
    lines
}

/// A text, broken at white space into lines of at most `width` columns where its words allow it.
pub fn wrap_text(s: &str, width: usize) -> (r: Vec<String>)
    ensures
        text::texts(r@) == wrapped(s@, width as nat),
{
    let mut lines: Vec<String> = Vec::new();
    if width > 0 {
        let raw = text_lines(s);
        let ghost all = text::texts(raw@);
        let mut i: usize = 0;
        assert(all.take(0) =~= Seq::<Seq<char>>::empty());
        while i < raw.len()
            invariant
                0 <= i <= raw.len(),
                all == text::texts(raw@),
                text::texts(lines@) == wrapped_lines(all.take(i as int), width as nat),
            decreases raw.len() - i,
        {
            assert(all.take(i + 1).drop_last() =~= all.take(i as int));
            let mut more = wrap_line(raw[i].as_str(), width);
            lines.append(&mut more);
            i += 1;
        }
        assert(all.take(i as int) =~= all);
    }
    if lines.len() == 0 {
        lines.push(String::new());
        assert(text::texts(lines@) =~= seq![Seq::<char>::empty()]);
    }
    lines
}

/// Lines with a prefix on the first one and `indent` spaces on the others.
pub open spec fn prefixed(lines: Seq<Seq<char>>, prefix: Seq<char>, indent: nat) -> Seq<Seq<char>> {
    Seq::new(
        lines.len(),
        |i: int|
            if i == 0 {
                prefix + lines[i]
            } else {
                text::repeated(' ', indent) + lines[i]
            },
    )
}

/// Lines with a prefix on the first one and `indent` spaces on the others.
pub fn prefix_lines(lines: &[String], prefix: &str, indent: usize) -> (r: Vec<String>)
    ensures
        text::texts(r@) == prefixed(text::texts(lines@), prefix@, indent as nat),
{
    let ghost all = prefixed(text::texts(lines@), prefix@, indent as nat);
    let blank = repeat_char(' ', indent);
    let mut out: Vec<String> = Vec::new();
    let mut i: usize = 0;
    while i < lines.len()
        invariant
            0 <= i <= lines.len(),
            blank@ == text::repeated(' ', indent as nat),
            all == prefixed(text::texts(lines@), prefix@, indent as nat),
            text::texts(out@) == all.take(i as int),
        decreases lines.len() - i,
    {
        if i == 0 {
            out.push(cat2(prefix, lines[i].as_str()));
        } else {
            out.push(cat2(blank.as_str(), lines[i].as_str()));
        }
        i += 1;
        assert(all.take(i as int) =~= all.take(i - 1).push(all[i - 1]));
    }
    assert(all.take(i as int) =~= all);
    out
}

/// How many columns are left beside a prefix: at least one.
pub open spec fn beside(width: nat, prefix: Seq<char>) -> nat {
    if screen::width_of(prefix) < width {
        (width - screen::width_of(prefix)) as nat
    } else {
        1
    }
}

/// A text, broken beside a prefix.
pub open spec fn wrapped_beside(s: Seq<char>, prefix: Seq<char>, width: nat) -> Seq<Seq<char>> {
    prefixed(wrapped(s, beside(width, prefix)), prefix, screen::width_of(prefix))
}

/// A text, broken beside a prefix.
pub fn wrap_with_prefix(s: &str, prefix: &str, width: usize) -> (r: Vec<String>)
    ensures
        text::texts(r@) == wrapped_beside(s@, prefix@, width as nat),
{
    let used = visible_width(prefix);
    let available: usize = if used < width {
        width - used
    } else {
        1
    };
    let lines = wrap_text(s, available);
    prefix_lines(lines.as_slice(), prefix, used)
}

proof fn filling_fits(words: Seq<Seq<char>>, width: nat)
    requires
        forall|i: int| 0 <= i < words.len() ==> screen::width_of(#[trigger] words[i]) <= width,
    ensures
        screen::width_of(filling(words, width).current) <= width,
        forall|i: int|
            0 <= i < filling(words, width).lines.len() ==> screen::width_of(
                #[trigger] filling(words, width).lines[i],
            ) <= width,
    decreases words.len(),
{
    if words.len() > 0 {
        let front = words.drop_last();
        assert(forall|i: int| 0 <= i < front.len() ==> front[i] == words[i]);
        filling_fits(front, width);
        let before = filling(front, width);
        assert(words[words.len() - 1] == words.last());
        screen::cut_keeps_to_width(before.current, width);
        screen::cut_keeps_to_width(words.last(), width);
        let after = filling(words, width);
        assert forall|i: int| 0 <= i < after.lines.len() implies screen::width_of(
            #[trigger] after.lines[i],
        ) <= width by {
            if i < before.lines.len() {
                assert(after.lines[i] == before.lines[i]);
            }
        }
    }
}

/// Where no word is wider than the width, no line is.
pub proof fn wrapped_lines_fit(line: Seq<char>, width: nat)
    requires
        forall|i: int|
            0 <= i < text::words_of(line).len() ==> screen::width_of(
                #[trigger] text::words_of(line)[i],
            ) <= width,
    ensures
        forall|i: int|
            0 <= i < wrapped_line(line, width).len() ==> screen::width_of(
                #[trigger] wrapped_line(line, width)[i],
            ) <= width,
{
    filling_fits(text::words_of(line), width);
    let end = filling(text::words_of(line), width);
    let lines = wrapped_line(line, width);
    assert forall|i: int| 0 <= i < lines.len() implies screen::width_of(#[trigger] lines[i])
        <= width by {
        if line.len() == 0 {
            assert(lines[i].len() == 0);
        } else if i < end.lines.len() {
            assert(lines[i] == end.lines[i]);
        }
    }
}

/// Wrapping gives at least one line.
pub proof fn wrapped_is_not_empty(s: Seq<char>, width: nat)
    ensures
        wrapped(s, width).len() > 0,
{
}

/// The texts of two sequences joined are both joined, with the separator between them.
pub proof fn join_in_two(a: Seq<Seq<char>>, b: Seq<Seq<char>>, separator: Seq<char>)
    requires
        a.len() > 0,
        b.len() > 0,
    ensures
        text::join(a + b, separator) == text::join(a, separator) + separator + text::join(
            b,
            separator,
        ),
    decreases b.len(),
{
    let front = b.drop_last();
    assert((a + b).drop_last() =~= a + front);
    assert((a + b).last() == b.last());
    if b.len() == 1 {
        assert(a + front =~= a);
    } else {
        join_in_two(a, front, separator);
        assert(text::join(a + b, separator) =~= text::join(a, separator) + separator + text::join(
            b,
            separator,
        ));
    }
}

/// The lines that a filling stands for: the full ones, and the one that is still filled.
spec fn all_lines(f: Filling) -> Seq<Seq<char>> {
    if f.current.len() > 0 {
        f.lines.push(f.current)
    } else {
        f.lines
    }
}

proof fn filling_keeps_words(words: Seq<Seq<char>>, width: nat)
    requires
        forall|i: int|
            0 <= i < words.len() ==> screen::width_of(#[trigger] words[i]) <= width
                && words[i].len() > 0,
    ensures
        text::join(all_lines(filling(words, width)), " "@) == text::join(words, " "@),
        words.len() > 0 ==> filling(words, width).current.len() > 0,
    decreases words.len(),
{
    if words.len() > 0 {
        let front = words.drop_last();
        let word = words.last();
        assert(forall|i: int| 0 <= i < front.len() ==> front[i] == words[i]);
        assert(words[words.len() - 1] == word);
        filling_keeps_words(front, width);
        filling_fits(front, width);
        let before = filling(front, width);
        let after = filling(words, width);
        screen::cut_keeps_to_width(before.current, width);
        if before.current.len() == 0 {
            assert(front.len() == 0);
            assert(before.lines.len() == 0);
            assert(all_lines(after) =~= seq![word]);
            assert(words =~= seq![word]);
        } else {
            assert(front.len() > 0);
            assert(words =~= front + seq![word]);
            join_in_two(front, seq![word], " "@);
            let done = all_lines(before);
            if screen::width_of(before.current + " "@ + word) > width {
                assert(all_lines(after) =~= done + seq![word]);
                join_in_two(done, seq![word], " "@);
            } else {
                let longer = before.current + " "@ + word;
                assert(all_lines(after) =~= before.lines.push(longer));
                if before.lines.len() == 0 {
                    assert(done =~= seq![before.current]);
                    assert(all_lines(after) =~= seq![longer]);
                } else {
                    assert(before.lines.push(longer) =~= before.lines + seq![longer]);
                    assert(done =~= before.lines + seq![before.current]);
                    join_in_two(before.lines, seq![longer], " "@);
                    join_in_two(before.lines, seq![before.current], " "@);
                    assert(text::join(all_lines(after), " "@) =~= text::join(words, " "@));
                }
            }
        }
    }
}

/// Breaking a line loses no word and keeps their order: where no word is wider than the width, the
/// broken lines with spaces between them are the words with spaces between them.
pub proof fn wrapping_keeps_the_words(line: Seq<char>, width: nat)
    requires
        line.len() > 0,
        forall|i: int|
            0 <= i < text::words_of(line).len() ==> screen::width_of(
                #[trigger] text::words_of(line)[i],
            ) <= width,
    ensures
        text::join(wrapped_line(line, width), " "@) == text::join(text::words_of(line), " "@),
{
    let words = text::words_of(line);
    assert forall|i: int| 0 <= i < words.len() implies screen::width_of(#[trigger] words[i])
        <= width && words[i].len() > 0 by {
        text::words_are_words(line, i);
    }
    filling_keeps_words(words, width);
}

proof fn one_line_is_filled(words: Seq<Seq<char>>, width: nat)
    requires
        forall|i: int|
            0 <= i < words.len() ==> (#[trigger] words[i]).len() > 0 && !words[i].contains('\x1b'),
        screen::width_of(text::join(words, " "@)) <= width,
    ensures
        filling(words, width).lines.len() == 0,
        filling(words, width).current == text::join(words, " "@),
        !text::join(words, " "@).contains('\x1b'),
    decreases words.len(),
{
    if words.len() > 0 {
        let front = words.drop_last();
        let word = words.last();
        assert(forall|i: int| 0 <= i < front.len() ==> front[i] == words[i]);
        assert(words[words.len() - 1] == word);
        let head = text::join(front, " "@);
        let whole = text::join(words, " "@);
        reveal_strlit(" ");
        assert(" "@ =~= seq![' ']);
        joined_hold_no_more(words, " "@, '\x1b');
        joined_hold_no_more(front, " "@, '\x1b');
        screen::plain_is_visible(whole);
        screen::plain_is_visible(head);
        screen::plain_is_visible(word);
        screen::visible_is_wide(screen::Scan::Plain, whole);
        screen::visible_is_wide(screen::Scan::Plain, head);
        screen::visible_is_wide(screen::Scan::Plain, word);
        if front.len() == 0 {
            assert(whole == word);
            assert(filling(front, width).current =~= Seq::<char>::empty());
        } else {
            assert(whole == head + " "@ + word);
            one_line_is_filled(front, width);
            assert(head.len() > 0) by {
                if front.len() == 1 {
                    assert(front[0].len() > 0);
                }
            }
        }
    }
}

proof fn joined_hold_no_more(parts: Seq<Seq<char>>, separator: Seq<char>, c: char)
    requires
        forall|i: int| 0 <= i < parts.len() ==> !(#[trigger] parts[i]).contains(c),
        !separator.contains(c),
    ensures
        !text::join(parts, separator).contains(c),
    decreases parts.len(),
{
    if parts.len() > 1 {
        let front = parts.drop_last();
        assert(forall|i: int| 0 <= i < front.len() ==> front[i] == parts[i]);
        assert(parts[parts.len() - 1] == parts.last());
        joined_hold_no_more(front, separator, c);
        let head = text::join(front, separator);
        let whole = text::join(parts, separator);
        if whole.contains(c) {
            let k = choose|k: int| 0 <= k < whole.len() && whole[k] == c;
            if k < head.len() {
                assert(head[k] == c);
            } else if k < head.len() + separator.len() {
                assert(separator[k - head.len()] == c);
            } else {
                assert(parts.last()[k - head.len() - separator.len()] == c);
            }
        }
    }
}

/// A line that fits is not broken: its words stand on one line, with one space between each two.
pub proof fn fitting_lines_are_not_broken(line: Seq<char>, width: nat)
    requires
        text::words_of(line).len() > 0,
        !line.contains('\x1b'),
        screen::width_of(text::join(text::words_of(line), " "@)) <= width,
    ensures
        wrapped_line(line, width) == seq![text::join(text::words_of(line), " "@)],
{
    let words = text::words_of(line);
    assert forall|i: int| 0 <= i < words.len() implies (#[trigger] words[i]).len() > 0
        && !words[i].contains('\x1b') by {
        text::words_are_words(line, i);
        text::words_hold_no_more(line, '\x1b', i);
    }
    one_line_is_filled(words, width);
    assert(words[0].len() > 0);
    assert(text::join(words, " "@).len() > 0) by {
        if words.len() > 1 {
            assert(words[words.len() - 1].len() > 0);
        }
    }
    assert(wrapped_line(line, width) =~= seq![text::join(words, " "@)]);
}

/// Each line of a text is broken alone.
pub proof fn wrapped_lines_in_two(a: Seq<Seq<char>>, b: Seq<Seq<char>>, width: nat)
    ensures
        wrapped_lines(a + b, width) == wrapped_lines(a, width) + wrapped_lines(b, width),
    decreases b.len(),
{
    if b.len() == 0 {
        assert(a + b =~= a);
        assert(wrapped_lines(a, width) + wrapped_lines(b, width) =~= wrapped_lines(a, width));
    } else {
        wrapped_lines_in_two(a, b.drop_last(), width);
        assert((a + b).drop_last() =~= a + b.drop_last());
        assert((a + b).last() == b.last());
        assert(wrapped_lines(a + b, width) =~= wrapped_lines(a, width) + wrapped_lines(b, width));
    }
}

/// A prefix stands on the first line alone, and the other lines begin below the text behind it.
pub proof fn prefix_stands_once(lines: Seq<Seq<char>>, prefix: Seq<char>, indent: nat, i: int)
    requires
        0 <= i < lines.len(),
    ensures
        prefixed(lines, prefix, indent).len() == lines.len(),
        i == 0 ==> prefixed(lines, prefix, indent)[i] == prefix + lines[i],
        i > 0 ==> prefixed(lines, prefix, indent)[i].skip(indent as int) == lines[i]
            && screen::width_of(prefixed(lines, prefix, indent)[i]) == indent + screen::width_of(
            lines[i],
        ),
{
    if i > 0 {
        let blank = text::repeated(' ', indent);
        assert((blank + lines[i]).skip(indent as int) =~= lines[i]);
        screen::spaces_are_wide(indent);
        screen::width_adds_up(blank, lines[i]);
    }
}

} // verus!
