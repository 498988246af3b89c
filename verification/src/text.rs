//! Text as a sequence of characters.
//!
//! The specifications of the whole library speak of `Seq<char>`: what a piece of text is, how it
//! splits into lines and words, how pieces are joined. The functions here compute those notions
//! on `str` and `String`.
use vstd::prelude::*;

verus! {

/// `String::push` appends one character at the end.
pub assume_specification[ std::string::String::push ](s: &mut std::string::String, c: char)
    ensures
        final(s)@ == old(s)@.push(c),
;

/// The texts held by a sequence of strings.
pub open spec fn texts(lines: Seq<String>) -> Seq<Seq<char>> {
    Seq::new(lines.len(), |i: int| lines[i]@)
}

/// The text held by an optional string.
pub open spec fn opt_text(value: Option<String>) -> Option<Seq<char>> {
    match value {
        Some(text) => Some(text@),
        None => None,
    }
}

/// There are as many texts as strings.
pub broadcast proof fn texts_len(lines: Seq<String>)
    ensures
        (#[trigger] texts(lines)).len() == lines.len(),
{
}

/// The text at a place is that of the string there.
pub broadcast proof fn texts_index(lines: Seq<String>, i: int)
    requires
        0 <= i < lines.len(),
    ensures
        #[trigger] texts(lines)[i] == lines[i]@,
{
}

/// The texts of strings with one more.
pub broadcast proof fn texts_push(lines: Seq<String>, line: String)
    ensures
        #[trigger] texts(lines.push(line)) == texts(lines).push(line@),
{
    assert(texts(lines.push(line)) =~= texts(lines).push(line@));
}

/// The texts of strings one after the other.
pub broadcast proof fn texts_add(a: Seq<String>, b: Seq<String>)
    ensures
        #[trigger] texts(a + b) == texts(a) + texts(b),
{
    assert(texts(a + b) =~= texts(a) + texts(b));
}

/// The texts of the first strings.
pub broadcast proof fn texts_take(lines: Seq<String>, n: int)
    requires
        0 <= n <= lines.len(),
    ensures
        #[trigger] texts(lines.take(n)) == texts(lines).take(n),
{
    assert(texts(lines.take(n)) =~= texts(lines).take(n));
}

/// The texts of the last strings.
pub broadcast proof fn texts_skip(lines: Seq<String>, n: int)
    requires
        0 <= n <= lines.len(),
    ensures
        #[trigger] texts(lines.skip(n)) == texts(lines).skip(n),
{
    assert(texts(lines.skip(n)) =~= texts(lines).skip(n));
}

/// The texts of some strings in a row.
pub broadcast proof fn texts_subrange(lines: Seq<String>, i: int, j: int)
    requires
        0 <= i <= j <= lines.len(),
    ensures
        #[trigger] texts(lines.subrange(i, j)) == texts(lines).subrange(i, j),
{
    assert(texts(lines.subrange(i, j)) =~= texts(lines).subrange(i, j));
}

/// No strings hold no texts.
pub broadcast proof fn texts_empty(lines: Seq<String>)
    requires
        lines.len() == 0,
    ensures
        #[trigger] texts(lines) == Seq::<Seq<char>>::empty(),
{
    assert(texts(lines) =~= Seq::<Seq<char>>::empty());
}

pub broadcast group group_texts {
    texts_len,
    texts_index,
    texts_push,
    texts_add,
    texts_take,
    texts_skip,
    texts_subrange,
    texts_empty,
}

/// Whether two strings hold the same characters.
pub fn same(a: &str, b: &str) -> (r: bool)
    ensures
        r == (a@ == b@),
{
    a.to_owned() == b.to_owned()
}

/// A copy of a text.
pub fn copy_text(s: &str) -> (r: String)
    ensures
        r@ == s@,
{
    s.to_owned()
}

/// A copy of an optional text.
pub fn copy_opt(value: &Option<String>) -> (r: Option<String>)
    ensures
        opt_text(r) == opt_text(*value),
{
    match value {
        Some(text) => Some(copy_text(text.as_str())),
        None => None,
    }
}

/// A copy of a list of texts.
pub fn copy_texts(lines: &[String]) -> (r: Vec<String>)
    ensures
        texts(r@) == texts(lines@),
{
    broadcast use group_texts;

    let mut out: Vec<String> = Vec::new();
    let mut i: usize = 0;
    while i < lines.len()
        invariant
            0 <= i <= lines.len(),
            texts(out@) == texts(lines@).take(i as int),
        decreases lines.len() - i,
    {
        broadcast use group_texts;

        out.push(copy_text(lines[i].as_str()));
        i += 1;
    }
    out
}

/// Appends copies of `lines` to `out`.
pub fn extend_texts(out: &mut Vec<String>, lines: &[String])
    ensures
        texts(final(out)@) == texts(old(out)@) + texts(lines@),
{
    broadcast use group_texts;

    let mut copied = copy_texts(lines);
    out.append(&mut copied);
}

/// The characters of a text.
pub fn chars_of(s: &str) -> (v: Vec<char>)
    ensures
        v@ == s@,
{
    let mut v: Vec<char> = Vec::new();
    for c in it: s.chars()
        invariant
            v@ == it.seq().take(it.index() as int),
            it.seq() == s@,
    {
        v.push(c);
    }
    v
}

/// The text made of the characters from `from` up to `to`.
pub fn slice_text(chars: &[char], from: usize, to: usize) -> (r: String)
    requires
        from <= to <= chars@.len(),
    ensures
        r@ == chars@.subrange(from as int, to as int),
{
    let mut out = String::new();
    let mut i: usize = from;
    while i < to
        invariant
            from <= i <= to <= chars@.len(),
            out@ == chars@.subrange(from as int, i as int),
        decreases to - i,
    {
        out.push(chars[i]);
        i += 1;
        assert(chars@.subrange(from as int, i as int) =~= chars@.subrange(
            from as int,
            i - 1,
        ).push(chars@[i - 1]));
    }
    out
}

/// Two texts, one after the other.
pub fn cat2(a: &str, b: &str) -> (r: String)
    ensures
        r@ == a@ + b@,
{
    let mut out = copy_text(a);
    out.append(b);
    out
}

/// Three texts, one after the other.
pub fn cat3(a: &str, b: &str, c: &str) -> (r: String)
    ensures
        r@ == a@ + b@ + c@,
{
    let mut out = cat2(a, b);
    out.append(c);
    out
}

/// Four texts, one after the other.
pub fn cat4(a: &str, b: &str, c: &str, d: &str) -> (r: String)
    ensures
        r@ == a@ + b@ + c@ + d@,
{
    let mut out = cat3(a, b, c);
    out.append(d);
    out
}

/// Five texts, one after the other.
pub fn cat5(a: &str, b: &str, c: &str, d: &str, e: &str) -> (r: String)
    ensures
        r@ == a@ + b@ + c@ + d@ + e@,
{
    let mut out = cat4(a, b, c, d);
    out.append(e);
    out
}

/// Whether `s` starts with the character `c`.
pub open spec fn starts_with_char(s: Seq<char>, c: char) -> bool {
    s.len() > 0 && s[0] == c
}

/// Whether `s` starts with the character `c`.
pub fn begins_with_char(s: &str, c: char) -> (r: bool)
    ensures
        r == starts_with_char(s@, c),
{
    if s.is_empty() {
        false
    } else {
        s.get_char(0) == c
    }
}

/// Whether `s` starts with `prefix`.
pub open spec fn has_prefix(s: Seq<char>, prefix: Seq<char>) -> bool {
    prefix.len() <= s.len() && s.take(prefix.len() as int) == prefix
}

/// Whether `s` ends with `suffix`.
pub open spec fn has_suffix(s: Seq<char>, suffix: Seq<char>) -> bool {
    suffix.len() <= s.len() && s.skip(s.len() - suffix.len()) == suffix
}

/// Whether `s` starts with `prefix`.
pub fn begins_with(s: &str, prefix: &str) -> (r: bool)
    ensures
        r == has_prefix(s@, prefix@),
{
    let n: usize = prefix.unicode_len();
    if s.unicode_len() < n {
        return false;
    }
    let head = s.substring_char(0, n);
    assert(head@ =~= s@.take(n as int));
    same(head, prefix)
}

/// Whether `s` ends with `suffix`.
pub fn ends_with(s: &str, suffix: &str) -> (r: bool)
    ensures
        r == has_suffix(s@, suffix@),
{
    let n: usize = suffix.unicode_len();
    let len: usize = s.unicode_len();
    if len < n {
        return false;
    }
    let tail = s.substring_char(len - n, len);
    assert(tail@ =~= s@.skip(len - n));
    same(tail, suffix)
}

/// What follows `prefix` in `s`, where `s` starts with it.
pub fn strip_prefix(s: &str, prefix: &str) -> (r: Option<String>)
    ensures
        r is Some == has_prefix(s@, prefix@),
        r is Some ==> r->0@ == s@.skip(prefix@.len() as int),
{
    if begins_with(s, prefix) {
        let tail = s.substring_char(prefix.unicode_len(), s.unicode_len());
        assert(tail@ =~= s@.skip(prefix@.len() as int));
        Some(copy_text(tail))
    } else {
        None
    }
}

/// The characters of `s` from position `n` on.
pub fn text_from(s: &str, n: usize) -> (r: String)
    requires
        n <= s@.len(),
    ensures
        r@ == s@.skip(n as int),
{
    let tail = s.substring_char(n, s.unicode_len());
    assert(tail@ =~= s@.skip(n as int));
    copy_text(tail)
}

/// The first `n` characters of `s`.
pub fn text_upto(s: &str, n: usize) -> (r: String)
    requires
        n <= s@.len(),
    ensures
        r@ == s@.take(n as int),
{
    let head = s.substring_char(0, n);
    assert(head@ =~= s@.take(n as int));
    copy_text(head)
}

/// Whether a list of texts holds the text `t`.
pub fn holds_text(list: &[String], t: &str) -> (r: bool)
    ensures
        r == texts(list@).contains(t@),
{
    broadcast use group_texts;

    let mut i: usize = 0;
    while i < list.len()
        invariant
            0 <= i <= list.len(),
            forall|j: int| 0 <= j < i ==> texts(list@)[j] != t@,
        decreases list.len() - i,
    {
        if same(list[i].as_str(), t) {
            assert(texts(list@)[i as int] == t@);
            return true;
        }
        i += 1;
    }
    false
}

/// Unicode white space.
pub open spec fn is_white(c: char) -> bool {
    let n = c as u32;
    ||| 9 <= n <= 13
    ||| n == 0x20
    ||| n == 0x85
    ||| n == 0xA0
    ||| n == 0x1680
    ||| 0x2000 <= n <= 0x200A
    ||| n == 0x2028
    ||| n == 0x2029
    ||| n == 0x202F
    ||| n == 0x205F
    ||| n == 0x3000
}

/// Whether `c` is white space.
pub fn white(c: char) -> (r: bool)
    ensures
        r == is_white(c),
{
    let n: u32 = c as u32;
    (9 <= n && n <= 13) || n == 0x20 || n == 0x85 || n == 0xA0 || n == 0x1680 || (0x2000 <= n && n
        <= 0x200A) || n == 0x2028 || n == 0x2029 || n == 0x202F || n == 0x205F || n == 0x3000
}

/// `s` without the white space it starts with.
pub open spec fn trim_start(s: Seq<char>) -> Seq<char>
    decreases s.len(),
{
    if s.len() > 0 && is_white(s[0]) {
        trim_start(s.skip(1))
    } else {
        s
    }
}

/// `s` without the white space it ends with.
pub open spec fn trim_end(s: Seq<char>) -> Seq<char>
    decreases s.len(),
{
    if s.len() > 0 && is_white(s.last()) {
        trim_end(s.drop_last())
    } else {
        s
    }
}

/// `s` without the white space around it.
pub open spec fn trim(s: Seq<char>) -> Seq<char> {
    trim_end(trim_start(s))
}

/// `s` without the white space it starts with.
pub fn trimmed_start(s: &str) -> (r: String)
    ensures
        r@ == trim_start(s@),
{
    let v = chars_of(s);
    let mut i: usize = 0;
    assert(v@.skip(0) =~= v@);
    while i < v.len() && white(v[i])
        invariant
            0 <= i <= v.len(),
            trim_start(v@.skip(i as int)) == trim_start(v@),
        decreases v.len() - i,
    {
        assert(v@.skip(i as int).skip(1) =~= v@.skip(i + 1));
        i += 1;
    }
    assert(v@.skip(i as int) =~= v@.subrange(i as int, v@.len() as int));
    slice_text(v.as_slice(), i, v.len())
}

/// `s` without the white space it ends with.
pub fn trimmed_end(s: &str) -> (r: String)
    ensures
        r@ == trim_end(s@),
{
    let v = chars_of(s);
    let mut n: usize = v.len();
    assert(v@.take(n as int) =~= v@);
    while n > 0 && white(v[n - 1])
        invariant
            0 <= n <= v.len(),
            trim_end(v@.take(n as int)) == trim_end(v@),
        decreases n,
    {
        assert(v@.take(n as int).drop_last() =~= v@.take(n - 1));
        n -= 1;
    }
    assert(v@.take(n as int) =~= v@.subrange(0, n as int));
    slice_text(v.as_slice(), 0, n)
}

/// `s` without the white space around it.
pub fn trimmed(s: &str) -> (r: String)
    ensures
        r@ == trim(s@),
{
    trimmed_end(trimmed_start(s).as_str())
}

/// `s` without the characters `c` it starts with.
pub open spec fn trim_start_char(s: Seq<char>, c: char) -> Seq<char>
    decreases s.len(),
{
    if s.len() > 0 && s[0] == c {
        trim_start_char(s.skip(1), c)
    } else {
        s
    }
}

/// `s` without the characters `c` it starts with.
pub fn trimmed_start_char(s: &str, c: char) -> (r: String)
    ensures
        r@ == trim_start_char(s@, c),
{
    let v = chars_of(s);
    let mut i: usize = 0;
    assert(v@.skip(0) =~= v@);
    while i < v.len() && v[i] == c
        invariant
            0 <= i <= v.len(),
            trim_start_char(v@.skip(i as int), c) == trim_start_char(v@, c),
        decreases v.len() - i,
    {
        assert(v@.skip(i as int).skip(1) =~= v@.skip(i + 1));
        i += 1;
    }
    assert(v@.skip(i as int) =~= v@.subrange(i as int, v@.len() as int));
    slice_text(v.as_slice(), i, v.len())
}

/// `s` without the repetitions of the pair `--` it starts with.
pub open spec fn trim_start_dashes(s: Seq<char>) -> Seq<char>
    decreases s.len(),
{
    if s.len() > 1 && s[0] == '-' && s[1] == '-' {
        trim_start_dashes(s.skip(2))
    } else {
        s
    }
}

/// `s` without the repetitions of the pair `--` it starts with.
pub fn trimmed_start_dashes(s: &str) -> (r: String)
    ensures
        r@ == trim_start_dashes(s@),
{
    let v = chars_of(s);
    let mut i: usize = 0;
    assert(v@.skip(0) =~= v@);
    while v.len() - i > 1 && v[i] == '-' && v[i + 1] == '-'
        invariant
            0 <= i <= v.len(),
            trim_start_dashes(v@.skip(i as int)) == trim_start_dashes(v@),
        decreases v.len() - i,
    {
        assert(v@.skip(i as int).skip(2) =~= v@.skip(i + 2));
        i += 2;
    }
    let ghost rest = v@.skip(i as int);
    assert(rest.len() > 1 ==> rest[0] == v@[i as int] && rest[1] == v@[i + 1]);
    assert(trim_start_dashes(rest) == rest);
    assert(rest =~= v@.subrange(i as int, v@.len() as int));
    slice_text(v.as_slice(), i, v.len())
}

/// The pieces of `s` between the separators `c`: always at least one.
pub open spec fn split_on(s: Seq<char>, c: char) -> Seq<Seq<char>>
    decreases s.len(),
{
    if s.len() == 0 {
        seq![Seq::empty()]
    } else {
        let before = split_on(s.drop_last(), c);
        if s.last() == c {
            before.push(Seq::empty())
        } else {
            before.drop_last().push(before.last().push(s.last()))
        }
    }
}

/// Splitting gives at least one piece.
pub proof fn split_on_nonempty(s: Seq<char>, c: char)
    ensures
        split_on(s, c).len() > 0,
    decreases s.len(),
{
    if s.len() > 0 {
        split_on_nonempty(s.drop_last(), c);
    }
}

/// The pieces of `s` between the separators `c`.
pub fn split_text(s: &str, c: char) -> (r: Vec<String>)
    ensures
        texts(r@) == split_on(s@, c),
        r@.len() > 0,
{
    broadcast use group_texts;

    let v = chars_of(s);
    let mut out: Vec<String> = Vec::new();
    let mut current = String::new();
    let mut i: usize = 0;
    assert(texts(out@).push(current@) =~= seq![Seq::<char>::empty()]);
    while i < v.len()
        invariant
            0 <= i <= v.len(),
            texts(out@).push(current@) == split_on(v@.take(i as int), c),
        decreases v.len() - i,
    {
        assert(v@.take(i + 1).drop_last() =~= v@.take(i as int));
        let ghost before = texts(out@).push(current@);
        assert(before.drop_last() =~= texts(out@));
        if v[i] == c {
            out.push(current);
            current = String::new();
        } else {
            current.push(v[i]);
        }
        i += 1;
    }
    assert(v@.take(i as int) =~= v@);
    out.push(current);
    out
}

/// `s` without the carriage return it ends with.
pub open spec fn strip_return(s: Seq<char>) -> Seq<char> {
    if s.len() > 0 && s.last() == '\r' {
        s.drop_last()
    } else {
        s
    }
}

/// The lines of `s`. A line ends at a line feed, or at a carriage return and a line feed; the text
/// after the last line feed is a line where it is not empty.
pub open spec fn lines_of(s: Seq<char>) -> Seq<Seq<char>> {
    let parts = split_on(s, '\n');
    let ended = Seq::new((parts.len() - 1) as nat, |i: int| strip_return(parts[i]));
    if parts.last().len() == 0 {
        ended
    } else {
        ended.push(parts.last())
    }
}

/// The lines of `s`.
pub fn text_lines(s: &str) -> (r: Vec<String>)
    ensures
        texts(r@) == lines_of(s@),
{
    broadcast use group_texts;

    let parts = split_text(s, '\n');
    let ghost all = split_on(s@, '\n');
    let mut out: Vec<String> = Vec::new();
    let mut i: usize = 0;
    while i < parts.len() - 1
        invariant
            0 <= i <= parts.len() - 1,
            texts(parts@) == all,
            texts(out@) == Seq::new(i as nat, |k: int| strip_return(all[k])),
        decreases parts.len() - i,
    {
        broadcast use group_texts;

        let part = &parts[i];
        assert(part@ == all[i as int]);
        let n: usize = part.as_str().unicode_len();
        if n > 0 && part.as_str().get_char(n - 1) == '\r' {
            let line = text_upto(part.as_str(), n - 1);
            assert(line@ =~= part@.drop_last());
            out.push(line);
        } else {
            out.push(copy_text(part.as_str()));
        }
        assert(out@[i as int]@ == strip_return(all[i as int]));
        i += 1;
    }
    let last = &parts[parts.len() - 1];
    assert(last@ == all.last());
    if !last.as_str().is_empty() {
        out.push(copy_text(last.as_str()));
    }
    out
}

/// The maximal runs of characters of `s` that are not white space.
pub open spec fn words_of(s: Seq<char>) -> Seq<Seq<char>> {
    let (done, current) = words_scan(s);
    if current.len() > 0 {
        done.push(current)
    } else {
        done
    }
}

/// The words of `s` that are ended by white space, and the run of other characters at its end.
pub open spec fn words_scan(s: Seq<char>) -> (Seq<Seq<char>>, Seq<char>)
    decreases s.len(),
{
    if s.len() == 0 {
        (Seq::empty(), Seq::empty())
    } else {
        let (done, current) = words_scan(s.drop_last());
        if !is_white(s.last()) {
            (done, current.push(s.last()))
        } else if current.len() > 0 {
            (done.push(current), Seq::empty())
        } else {
            (done, current)
        }
    }
}

/// The words of `s`.
pub fn text_words(s: &str) -> (r: Vec<String>)
    ensures
        texts(r@) == words_of(s@),
{
    broadcast use group_texts;

    let v = chars_of(s);
    let mut out: Vec<String> = Vec::new();
    let mut current = String::new();
    let mut i: usize = 0;
    while i < v.len()
        invariant
            0 <= i <= v.len(),
            (texts(out@), current@) == words_scan(v@.take(i as int)),
        decreases v.len() - i,
    {
        assert(v@.take(i + 1).drop_last() =~= v@.take(i as int));
        if !white(v[i]) {
            current.push(v[i]);
        } else if !current.as_str().is_empty() {
            out.push(current);
            current = String::new();
        }
        i += 1;
    }
    assert(v@.take(i as int) =~= v@);
    if !current.as_str().is_empty() {
        out.push(current);
    }
    out
}

/// The texts of `parts` with `separator` between each two.
pub open spec fn join(parts: Seq<Seq<char>>, separator: Seq<char>) -> Seq<char>
    decreases parts.len(),
{
    if parts.len() == 0 {
        Seq::empty()
    } else if parts.len() == 1 {
        parts[0]
    } else {
        join(parts.drop_last(), separator) + separator + parts.last()
    }
}

/// The texts of `parts` with `separator` between each two.
pub fn join_texts(parts: &[String], separator: &str) -> (r: String)
    ensures
        r@ == join(texts(parts@), separator@),
{
    broadcast use group_texts;

    let mut out = String::new();
    let mut i: usize = 0;
    while i < parts.len()
        invariant
            0 <= i <= parts.len(),
            out@ == join(texts(parts@).take(i as int), separator@),
        decreases parts.len() - i,
    {
        let ghost upto = texts(parts@).take(i + 1);
        assert(upto.drop_last() =~= texts(parts@).take(i as int));
        if i > 0 {
            out.append(separator);
        }
        out.append(parts[i].as_str());
        i += 1;
        assert(out@ =~= join(upto, separator@));
    }
    assert(texts(parts@).take(i as int) =~= texts(parts@));
    out
}

/// `n` times the character `c`.
pub open spec fn repeated(c: char, n: nat) -> Seq<char> {
    Seq::new(n, |i: int| c)
}

/// `n` times the character `c`.
pub fn repeat_char(c: char, n: usize) -> (r: String)
    ensures
        r@ == repeated(c, n as nat),
{
    let mut out = String::new();
    let mut i: usize = 0;
    while i < n
        invariant
            0 <= i <= n,
            out@ == repeated(c, i as nat),
        decreases n - i,
    {
        out.push(c);
        i += 1;
        assert(out@ =~= repeated(c, i as nat));
    }
    out
}

/// The decimal digit `d`.
pub open spec fn digit(d: nat) -> char {
    (48 + d) as char
}

/// The number `n` in decimal digits.
pub open spec fn decimal(n: nat) -> Seq<char>
    decreases n,
{
    if n < 10 {
        seq![digit(n)]
    } else {
        decimal(n / 10).push(digit(n % 10))
    }
}

/// The number `n` in decimal digits.
pub fn decimal_text(n: u64) -> (r: String)
    ensures
        r@ == decimal(n as nat),
    decreases n,
{
    let last: char = (48 + (n % 10) as u8) as char;
    if n < 10 {
        let mut out = String::new();
        out.push(last);
        assert(out@ =~= decimal(n as nat));
        out
    } else {
        let mut out = decimal_text(n / 10);
        out.push(last);
        out
    }
}

/// The number `n` in decimal digits, for numbers beyond 64 bits.
pub fn wide_decimal_text(n: u128) -> (r: String)
    ensures
        r@ == decimal(n as nat),
    decreases n,
{
    let last: char = (48 + (n % 10) as u8) as char;
    if n < 10 {
        let mut out = String::new();
        out.push(last);
        assert(out@ =~= decimal(n as nat));
        out
    } else {
        let mut out = wide_decimal_text(n / 10);
        out.push(last);
        out
    }
}

/// `s` with each character `from` replaced by the text `to`.
pub open spec fn replace_char(s: Seq<char>, from: char, to: Seq<char>) -> Seq<char>
    decreases s.len(),
{
    if s.len() == 0 {
        s
    } else if s.last() == from {
        replace_char(s.drop_last(), from, to) + to
    } else {
        replace_char(s.drop_last(), from, to).push(s.last())
    }
}

/// `s` with each character `from` replaced by the text `to`.
pub fn replaced_char(s: &str, from: char, to: &str) -> (r: String)
    ensures
        r@ == replace_char(s@, from, to@),
{
    let v = chars_of(s);
    let mut out = String::new();
    let mut i: usize = 0;
    while i < v.len()
        invariant
            0 <= i <= v.len(),
            out@ == replace_char(v@.take(i as int), from, to@),
        decreases v.len() - i,
    {
        assert(v@.take(i + 1).drop_last() =~= v@.take(i as int));
        if v[i] == from {
            out.append(to);
        } else {
            out.push(v[i]);
        }
        i += 1;
    }
    assert(v@.take(i as int) =~= v@);
    out
}

/// Whether `pattern` stands in `s` at position `i`.
pub open spec fn occurs_at(s: Seq<char>, pattern: Seq<char>, i: int) -> bool {
    0 <= i && i + pattern.len() <= s.len() && s.subrange(i, i + pattern.len()) == pattern
}

/// Whether `pattern` stands somewhere in `s`.
pub open spec fn contains_text(s: Seq<char>, pattern: Seq<char>) -> bool {
    exists|i: int| occurs_at(s, pattern, i)
}

/// `r` is the first place at or after `from` where `pattern` stands in `s`.
pub open spec fn is_first_at(s: Seq<char>, pattern: Seq<char>, from: int, r: Option<int>) -> bool {
    match r {
        Some(i) => from <= i && occurs_at(s, pattern, i) && forall|j: int|
            from <= j < i ==> !occurs_at(s, pattern, j),
        None => forall|j: int| from <= j ==> !occurs_at(s, pattern, j),
    }
}

/// The first place at or after `from` where `pattern` stands in `s`.
pub open spec fn first_at(s: Seq<char>, pattern: Seq<char>, from: int) -> Option<int>
    decreases s.len() + 1 - from,
{
    if from < 0 || from + pattern.len() > s.len() {
        None
    } else if occurs_at(s, pattern, from) {
        Some(from)
    } else {
        first_at(s, pattern, from + 1)
    }
}

/// The place where a pattern is found first is one where it stands, and it stands at none before.
pub proof fn first_at_is_first(s: Seq<char>, pattern: Seq<char>, from: int)
    requires
        0 <= from,
    ensures
        is_first_at(s, pattern, from, first_at(s, pattern, from)),
    decreases s.len() + 1 - from,
{
    if from + pattern.len() > s.len() {
    } else if occurs_at(s, pattern, from) {
    } else {
        first_at_is_first(s, pattern, from + 1);
    }
}

/// Whether `pattern` stands in `s` at position `i`.
pub fn stands_at(s: &[char], pattern: &[char], i: usize) -> (r: bool)
    requires
        i <= s@.len(),
    ensures
        r == occurs_at(s@, pattern@, i as int),
{
    if pattern.len() > s.len() - i {
        return false;
    }
    let mut k: usize = 0;
    while k < pattern.len()
        invariant
            i + pattern.len() <= s.len(),
            0 <= k <= pattern.len(),
            forall|j: int| 0 <= j < k ==> s@[i + j] == pattern@[j],
        decreases pattern.len() - k,
    {
        if s[i + k] != pattern[k] {
            assert(s@.subrange(i as int, i + pattern@.len())[k as int] != pattern@[k as int]);
            return false;
        }
        k += 1;
    }
    assert(s@.subrange(i as int, i + pattern@.len()) =~= pattern@);
    true
}

/// The first place at or after `from` where `pattern` stands in `s`.
pub fn find_at(s: &[char], pattern: &[char], from: usize) -> (r: Option<usize>)
    requires
        from <= s@.len(),
    ensures
        r is Some ==> first_at(s@, pattern@, from as int) == Some(r->0 as int),
        r is None ==> first_at(s@, pattern@, from as int) is None,
        r is Some ==> r->0 + pattern@.len() <= s@.len(),
{
    let mut i: usize = from;
    while i <= s.len() && pattern.len() <= s.len() - i
        invariant
            from <= i <= s@.len() + 1,
            first_at(s@, pattern@, i as int) == first_at(s@, pattern@, from as int),
        decreases s@.len() + 1 - i,
    {
        if stands_at(s, pattern, i) {
            return Some(i);
        }
        if i == s.len() {
            assert(first_at(s@, pattern@, i + 1) is None);
            return None;
        }
        i += 1;
    }
    None
}

/// `s` from position `i` on, with each place where `from` stands replaced by `to`, taken from left
/// to right.
pub open spec fn replace_from(s: Seq<char>, from: Seq<char>, to: Seq<char>, i: int) -> Seq<char>
    decreases s.len() - i,
{
    if i < 0 || i >= s.len() {
        Seq::empty()
    } else if from.len() > 0 && occurs_at(s, from, i) {
        to + replace_from(s, from, to, i + from.len())
    } else {
        seq![s[i]] + replace_from(s, from, to, i + 1)
    }
}

/// `s` with each place where `from` stands replaced by `to`.
pub open spec fn replace_all(s: Seq<char>, from: Seq<char>, to: Seq<char>) -> Seq<char> {
    replace_from(s, from, to, 0)
}

/// `s` with each place where `from` stands replaced by `to`.
pub fn replaced_text(s: &str, from: &str, to: &str) -> (r: String)
    requires
        from@.len() > 0,
    ensures
        r@ == replace_all(s@, from@, to@),
{
    let v = chars_of(s);
    let p = chars_of(from);
    let len: usize = v.len();
    let mut out = String::new();
    let mut i: usize = 0;
    assert(out@ + replace_from(v@, p@, to@, 0) =~= replace_all(s@, from@, to@));
    while i < len
        invariant
            len == v@.len(),
            v@ == s@,
            p@ == from@,
            0 < p@.len(),
            0 <= i <= len,
            out@ + replace_from(v@, p@, to@, i as int) == replace_all(s@, from@, to@),
        decreases len - i,
    {
        if stands_at(v.as_slice(), p.as_slice(), i) {
            let ghost before = out@;
            let ghost rest = replace_from(v@, p@, to@, i + p@.len());
            out.append(to);
            assert(out@ + rest =~= before + (to@ + rest));
            i += p.len();
        } else {
            let ghost before = out@;
            let ghost rest = replace_from(v@, p@, to@, i + 1);
            out.push(v[i]);
            assert(out@ + rest =~= before + (seq![v@[i as int]] + rest));
            i += 1;
        }
    }
    assert(out@ + Seq::<char>::empty() =~= out@);
    out
}

/// The pieces of `s` from position `i` on that stand between the places of `pattern`.
pub open spec fn pieces_from(s: Seq<char>, pattern: Seq<char>, i: int) -> Seq<Seq<char>>
    decreases s.len() - i,
    via pieces_shrink
{
    match first_at(s, pattern, i) {
        Some(k) => if 0 <= i && pattern.len() > 0 && i <= k && k + pattern.len() <= s.len() {
            seq![s.subrange(i, k)] + pieces_from(s, pattern, k + pattern.len())
        } else {
            seq![s.skip(i)]
        },
        None => seq![s.skip(i)],
    }
}

#[via_fn]
proof fn pieces_shrink(s: Seq<char>, pattern: Seq<char>, i: int) {
}

/// The pieces of `s` between the places of `pattern`.
pub fn split_on_text(s: &str, pattern: &str) -> (r: Vec<String>)
    requires
        pattern@.len() > 0,
    ensures
        texts(r@) == pieces_from(s@, pattern@, 0),
{
    let v = chars_of(s);
    let p = chars_of(pattern);
    let ghost all = pieces_from(s@, pattern@, 0);
    let mut out: Vec<String> = Vec::new();
    let mut i: usize = 0;
    assert(texts(out@) + all =~= all);
    let len: usize = v.len();
    loop
        invariant_except_break
            0 <= i <= v@.len(),
            texts(out@) + pieces_from(v@, p@, i as int) == all,
        invariant
            len == v@.len(),
            v@ == s@,
            p@ == pattern@,
            0 < p@.len(),
        ensures
            texts(out@) == all,
        decreases v@.len() - i,
    {
        proof {
            first_at_is_first(v@, p@, i as int);
        }
        let ghost before = texts(out@);
        match find_at(v.as_slice(), p.as_slice(), i) {
            Some(k) => {
                out.push(slice_text(v.as_slice(), i, k));
                assert(k + p@.len() <= len);
                i = k + p.len();
                assert(texts(out@) + pieces_from(v@, p@, i as int) =~= all);
            },
            None => {
                out.push(slice_text(v.as_slice(), i, len));
                assert(v@.subrange(i as int, v@.len() as int) =~= v@.skip(i as int));
                assert(texts(out@) =~= all);
                break;
            },
        }
    }
    out
}

/// Whether `pattern` stands somewhere in `s`.
pub fn contains(s: &str, pattern: &str) -> (r: bool)
    ensures
        r == contains_text(s@, pattern@),
{
    let v = chars_of(s);
    let p = chars_of(pattern);
    proof {
        first_at_is_first(v@, p@, 0);
    }
    let found = find_at(v.as_slice(), p.as_slice(), 0);
    proof {
        if found is Some {
            assert(occurs_at(s@, pattern@, found->0 as int));
        } else {
            assert forall|i: int| !occurs_at(s@, pattern@, i) by {
                if i >= 0 {
                    assert(!occurs_at(v@, p@, i));
                }
            }
        }
    }
    found.is_some()
}

/// Whether `a` comes before `b` when texts are ordered by their characters, first difference first.
pub open spec fn text_less(a: Seq<char>, b: Seq<char>) -> bool
    decreases a.len(),
{
    if b.len() == 0 {
        false
    } else if a.len() == 0 {
        true
    } else if a[0] != b[0] {
        a[0] < b[0]
    } else {
        text_less(a.skip(1), b.skip(1))
    }
}

/// Whether `a` comes before `b` in the order of texts.
pub fn before(a: &str, b: &str) -> (r: bool)
    ensures
        r == text_less(a@, b@),
{
    let x = chars_of(a);
    let y = chars_of(b);
    let mut i: usize = 0;
    assert(x@.skip(0) =~= x@);
    assert(y@.skip(0) =~= y@);
    while i < x.len() && i < y.len() && x[i] == y[i]
        invariant
            0 <= i <= x.len(),
            i <= y.len(),
            text_less(x@.skip(i as int), y@.skip(i as int)) == text_less(x@, y@),
        decreases x.len() - i,
    {
        assert(x@.skip(i as int).skip(1) =~= x@.skip(i + 1));
        assert(y@.skip(i as int).skip(1) =~= y@.skip(i + 1));
        i += 1;
    }
    if i >= y.len() {
        false
    } else if i >= x.len() {
        true
    } else {
        x[i] < y[i]
    }
}

/// Of two texts one comes before the other, or they are the same.
pub proof fn text_less_is_total(a: Seq<char>, b: Seq<char>)
    ensures
        a == b ==> !text_less(a, b),
        text_less(a, b) ==> !text_less(b, a),
        text_less(a, b) || text_less(b, a) || a == b,
    decreases a.len(),
{
    if a.len() > 0 && b.len() > 0 && a[0] == b[0] {
        text_less_is_total(a.skip(1), b.skip(1));
        if a.skip(1) == b.skip(1) {
            assert(a =~= seq![a[0]] + a.skip(1));
            assert(b =~= seq![b[0]] + b.skip(1));
        }
    } else if a.len() == 0 && b.len() == 0 {
        assert(a =~= b);
    }
}

/// What comes before a text comes before all that comes after it.
pub proof fn text_less_is_transitive(a: Seq<char>, b: Seq<char>, c: Seq<char>)
    requires
        text_less(a, b),
        text_less(b, c),
    ensures
        text_less(a, c),
    decreases a.len(),
{
    if a.len() > 0 && b.len() > 0 && c.len() > 0 && a[0] == b[0] && b[0] == c[0] {
        text_less_is_transitive(a.skip(1), b.skip(1), c.skip(1));
    }
}

/// Whether all characters are ASCII characters.
pub open spec fn all_ascii(s: Seq<char>) -> bool {
    forall|i: int| 0 <= i < s.len() ==> (#[trigger] s[i] as u32) < 128
}

/// An ASCII capital as a small letter; another character as it is.
pub open spec fn ascii_lower_char(c: char) -> char {
    if 'A' <= c <= 'Z' {
        ((c as u32 + 32) as u32) as char
    } else {
        c
    }
}

/// A text with its ASCII capitals as small letters.
pub open spec fn ascii_lower(s: Seq<char>) -> Seq<char> {
    s.map_values(|c: char| ascii_lower_char(c))
}

/// A text with its ASCII capitals as small letters.
pub fn lower_ascii(s: &str) -> (r: String)
    ensures
        r@ == ascii_lower(s@),
{
    let v = chars_of(s);
    let ghost shown = ascii_lower(s@);
    let mut out = String::new();
    let mut i: usize = 0;
    assert(shown.take(0) =~= Seq::<char>::empty());
    while i < v.len()
        invariant
            0 <= i <= v.len(),
            v@ == s@,
            shown == ascii_lower(s@),
            out@ == shown.take(i as int),
        decreases v.len() - i,
    {
        let c = v[i];
        let lower = if 'A' <= c && c <= 'Z' {
            (c as u8 + 32) as char
        } else {
            c
        };
        out.push(lower);
        i += 1;
        assert(shown.take(i as int) =~= shown.take(i - 1).push(shown[i - 1]));
    }
    assert(shown.take(i as int) =~= shown);
    out
}

/// What `str::to_lowercase` makes of a text that is not all ASCII.
pub uninterp spec fn unicode_lower(s: Seq<char>) -> Seq<char>;

/// `str::to_lowercase` gives the lowercase equivalent of a text, as Unicode defines it. For ASCII
/// texts that is said here; for other texts it is left to the name `unicode_lower`. Of every text is
/// said that a character may become several, but none disappears, and that an ASCII character of
/// the result is a small letter unless it stood in the text before.
pub assume_specification[ str::to_lowercase ](s: &str) -> (r: std::string::String)
    ensures
        all_ascii(s@) ==> r@ == ascii_lower(s@),
        !all_ascii(s@) ==> r@ == unicode_lower(s@),
        s@.len() <= r@.len(),
        forall|i: int|
            0 <= i < r@.len() && (#[trigger] r@[i] as u32) < 128 ==> 'a' <= r@[i] <= 'z'
                || s@.contains(r@[i]),
;

/// A text in small letters.
pub open spec fn lowered(s: Seq<char>) -> Seq<char> {
    if all_ascii(s) {
        ascii_lower(s)
    } else {
        unicode_lower(s)
    }
}

proof fn split_of_plain_tail(s: Seq<char>, t: Seq<char>, c: char)
    requires
        !t.contains(c),
    ensures
        split_on(s + t, c) == split_on(s, c).drop_last().push(split_on(s, c).last() + t),
    decreases t.len(),
{
    split_on_nonempty(s, c);
    let whole = split_on(s, c);
    if t.len() == 0 {
        assert(s + t =~= s);
        assert(whole.last() + t =~= whole.last());
        assert(whole =~= whole.drop_last().push(whole.last()));
    } else {
        let front = t.drop_last();
        assert(!front.contains(c)) by {
            if front.contains(c) {
                let i = choose|i: int| 0 <= i < front.len() && front[i] == c;
                assert(t[i] == c);
            }
        }
        split_of_plain_tail(s, front, c);
        assert((s + t).drop_last() =~= s + front);
        assert((s + t).last() == t.last());
        assert(t[t.len() - 1] != c);
        let before = split_on(s + front, c);
        assert(before.drop_last() =~= whole.drop_last());
        assert((whole.last() + front).push(t.last()) =~= whole.last() + t);
    }
}

/// Splitting what was joined gives the parts back, where no part holds the separator.
pub proof fn split_undoes_join(parts: Seq<Seq<char>>, c: char)
    requires
        parts.len() > 0,
        forall|i: int| 0 <= i < parts.len() ==> !(#[trigger] parts[i]).contains(c),
    ensures
        split_on(join(parts, seq![c]), c) == parts,
    decreases parts.len(),
{
    let last = parts.last();
    assert(parts[parts.len() - 1] == last);
    if parts.len() == 1 {
        let nothing = Seq::<char>::empty();
        split_of_plain_tail(nothing, last, c);
        assert(nothing + last =~= last);
        assert(split_on(nothing, c) =~= seq![nothing]);
        assert(split_on(last, c) =~= parts);
    } else {
        let front = parts.drop_last();
        assert(forall|i: int| 0 <= i < front.len() ==> front[i] == parts[i]);
        split_undoes_join(front, c);
        let head = join(front, seq![c]);
        let opened = head + seq![c];
        assert(opened.drop_last() =~= head);
        assert(split_on(opened, c) == front.push(Seq::<char>::empty()));
        split_of_plain_tail(opened, last, c);
        let nothing = Seq::<char>::empty();
        assert(front.push(nothing).drop_last() =~= front);
        assert(nothing + last =~= last);
        assert(front.push(last) =~= parts);
    }
}

/// The pieces of a split text hold characters of the text only, and never the separator.
pub proof fn split_pieces(s: Seq<char>, c: char, i: int)
    requires
        0 <= i < split_on(s, c).len(),
    ensures
        !split_on(s, c)[i].contains(c),
        all_ascii(s) ==> all_ascii(split_on(s, c)[i]),
    decreases s.len(),
{
    if s.len() > 0 {
        let front = s.drop_last();
        let before = split_on(front, c);
        split_on_nonempty(front, c);
        assert(all_ascii(s) ==> all_ascii(front)) by {
            if all_ascii(s) {
                assert forall|k: int| 0 <= k < front.len() implies (#[trigger] front[k] as u32)
                    < 128 by {
                    assert(front[k] == s[k]);
                }
            }
        }
        if i < before.len() {
            split_pieces(front, c, i);
        }
        let piece = split_on(s, c)[i];
        if s.last() != c && i == before.len() - 1 {
            assert(piece == before.last().push(s.last()));
            assert(!piece.contains(c)) by {
                if piece.contains(c) {
                    let k = choose|k: int| 0 <= k < piece.len() && piece[k] == c;
                    if k < before.last().len() {
                        assert(before.last()[k] == c);
                    }
                }
            }
            assert(all_ascii(s) ==> all_ascii(piece)) by {
                if all_ascii(s) {
                    assert(s[s.len() - 1] == s.last());
                    assert forall|k: int| 0 <= k < piece.len() implies (#[trigger] piece[k] as u32)
                        < 128 by {
                        if k < before.last().len() {
                            assert(piece[k] == before.last()[k]);
                        }
                    }
                }
            }
        }
    }
}

/// What trimming leaves is a part of the text that neither starts nor ends with white space.
pub proof fn trimmed_part(s: Seq<char>) -> (place: (int, int))
    ensures
        0 <= place.0 <= place.1 <= s.len(),
        trim(s) == s.subrange(place.0, place.1),
        trim(s).len() > 0 ==> !is_white(trim(s)[0]) && !is_white(trim(s).last()),
{
    let a = trimmed_start_place(s);
    let b = trimmed_end_place(trim_start(s));
    let r = (a, a + b);
    assert(trim(s) =~= s.subrange(r.0, r.1));
    if trim(s).len() > 0 {
        assert(trim(s)[0] == trim_start(s)[0]);
    }
    r
}

proof fn trimmed_start_place(s: Seq<char>) -> (place: int)
    ensures
        0 <= place <= s.len(),
        trim_start(s) == s.skip(place),
        trim_start(s).len() > 0 ==> !is_white(trim_start(s)[0]),
    decreases s.len(),
{
    if s.len() > 0 && is_white(s[0]) {
        let k = trimmed_start_place(s.skip(1));
        assert(s.skip(1).skip(k) =~= s.skip(k + 1));
        k + 1
    } else {
        assert(s.skip(0) =~= s);
        0
    }
}

proof fn trimmed_end_place(s: Seq<char>) -> (place: int)
    ensures
        0 <= place <= s.len(),
        trim_end(s) == s.take(place),
        trim_end(s).len() > 0 ==> !is_white(trim_end(s).last()),
    decreases s.len(),
{
    if s.len() > 0 && is_white(s.last()) {
        let k = trimmed_end_place(s.drop_last());
        assert(s.drop_last().take(k) =~= s.take(k));
        k
    } else {
        assert(s.take(s.len() as int) =~= s);
        s.len() as int
    }
}

/// A text that neither starts nor ends with white space is not changed by trimming.
pub proof fn trim_keeps(s: Seq<char>)
    requires
        s.len() > 0,
        !is_white(s[0]),
        !is_white(s.last()),
    ensures
        trim(s) == s,
{
}

/// The lines of a text hold no character that the text does not hold.
pub proof fn lines_hold_no_more(s: Seq<char>, c: char, i: int)
    requires
        !s.contains(c),
        0 <= i < lines_of(s).len(),
    ensures
        !lines_of(s)[i].contains(c),
{
    let parts = split_on(s, '\n');
    split_on_nonempty(s, '\n');
    assert(parts[parts.len() - 1] == parts.last());
    crate::paths::pieces_without(s, '\n', c, i);
    let line = lines_of(s)[i];
    if line.contains(c) {
        let k = choose|k: int| 0 <= k < line.len() && line[k] == c;
        assert(parts[i][k] == c);
    }
}

/// Of two texts one after the other each is replaced alone.
pub proof fn replace_in_two(a: Seq<char>, b: Seq<char>, from: char, to: Seq<char>)
    ensures
        replace_char(a + b, from, to) == replace_char(a, from, to) + replace_char(b, from, to),
    decreases b.len(),
{
    if b.len() == 0 {
        assert(a + b =~= a);
        assert(replace_char(a, from, to) + replace_char(b, from, to) =~= replace_char(a, from, to));
    } else {
        replace_in_two(a, b.drop_last(), from, to);
        assert((a + b).drop_last() =~= a + b.drop_last());
        assert((a + b).last() == b.last());
        assert(replace_char(a + b, from, to) =~= replace_char(a, from, to) + replace_char(
            b,
            from,
            to,
        ));
    }
}

/// A character that is replaced becomes the text, and another one stays.
pub proof fn replace_of_one(c: char, from: char, to: Seq<char>)
    ensures
        replace_char(seq![c], from, to) == (if c == from {
            to
        } else {
            seq![c]
        }),
{
    let none = Seq::<char>::empty();
    assert(seq![c].drop_last() =~= none);
    assert(replace_char(none, from, to) =~= none);
    assert(none + to =~= to);
    assert(none.push(c) =~= seq![c]);
}

/// Replacing adds no character that neither the text nor the replacement holds, and leaves none of
/// those that are replaced.
pub proof fn replaced_holds_no_more(s: Seq<char>, from: char, to: Seq<char>, c: char)
    requires
        !to.contains(c),
        c == from || !s.contains(c),
    ensures
        !replace_char(s, from, to).contains(c),
    decreases s.len(),
{
    if s.len() > 0 {
        let front = s.drop_last();
        if c != from {
            if front.contains(c) {
                let k = choose|k: int| 0 <= k < front.len() && front[k] == c;
                assert(s[k] == c);
            }
        }
        replaced_holds_no_more(front, from, to, c);
        assert(s[s.len() - 1] == s.last());
        let before = replace_char(front, from, to);
        let after = replace_char(s, from, to);
        if after.contains(c) {
            let k = choose|k: int| 0 <= k < after.len() && after[k] == c;
            if k < before.len() {
                assert(before[k] == c);
            } else if s.last() == from {
                assert(to[k - before.len()] == c);
            } else {
                assert(s.contains(s.last()));
            }
        }
    }
}

/// The lines of a text that ends each of them with a line feed are those lines again.
pub proof fn lines_are_read_back(lines: Seq<Seq<char>>)
    requires
        lines.len() > 0,
        forall|i: int|
            0 <= i < lines.len() ==> !(#[trigger] lines[i]).contains('\n') && !lines[i].contains(
                '\r',
            ),
    ensures
        lines_of(join(lines, seq!['\n']) + seq!['\n']) == lines,
        lines.last().len() > 0 ==> lines_of(join(lines, seq!['\n'])) == lines,
{
    let none = Seq::<char>::empty();
    let joined = join(lines, seq!['\n']);
    let ended = joined + seq!['\n'];
    split_undoes_join(lines, '\n');
    assert(ended.drop_last() =~= joined);
    assert(split_on(ended, '\n') == lines.push(none));
    assert forall|i: int| 0 <= i < lines.len() implies strip_return(#[trigger] lines[i])
        == lines[i] by {
        if lines[i].len() > 0 {
            assert(lines[i].contains(lines[i].last())) by {
                assert(lines[i][lines[i].len() - 1] == lines[i].last());
            }
        }
    }
    assert(lines_of(ended) =~= lines);
    if lines.last().len() > 0 {
        assert(lines_of(joined) =~= lines);
    }
}


proof fn scanned_words(s: Seq<char>, i: int)
    ensures
        forall|k: int| 0 <= k < words_scan(s).1.len() ==> !is_white(#[trigger] words_scan(s).1[k]),
        0 <= i < words_scan(s).0.len() ==> words_scan(s).0[i].len() > 0 && forall|k: int|
            0 <= k < words_scan(s).0[i].len() ==> !is_white(#[trigger] words_scan(s).0[i][k]),
    decreases s.len(),
{
    if s.len() > 0 {
        scanned_words(s.drop_last(), i);
        let before = words_scan(s.drop_last()).1;
        let current = words_scan(s).1;
        assert forall|k: int| 0 <= k < current.len() implies !is_white(#[trigger] current[k]) by {
            if k < before.len() {
                assert(!is_white(before[k]));
                assert(current[k] == before[k]);
            }
        }
    }
}

/// A word is not empty and holds no white space.
pub proof fn words_are_words(s: Seq<char>, i: int)
    requires
        0 <= i < words_of(s).len(),
    ensures
        words_of(s)[i].len() > 0,
        forall|k: int| 0 <= k < words_of(s)[i].len() ==> !is_white(#[trigger] words_of(s)[i][k]),
{
    scanned_words(s, i);
}

/// A text without its white space.
pub open spec fn without_white(s: Seq<char>) -> Seq<char>
    decreases s.len(),
{
    if s.len() == 0 {
        Seq::empty()
    } else if is_white(s.last()) {
        without_white(s.drop_last())
    } else {
        without_white(s.drop_last()).push(s.last())
    }
}

/// Texts one after the other.
pub open spec fn concat(parts: Seq<Seq<char>>) -> Seq<char>
    decreases parts.len(),
{
    if parts.len() == 0 {
        Seq::empty()
    } else {
        concat(parts.drop_last()) + parts.last()
    }
}

proof fn concat_push(parts: Seq<Seq<char>>, part: Seq<char>)
    ensures
        concat(parts.push(part)) == concat(parts) + part,
{
    assert(parts.push(part).drop_last() =~= parts);
}

proof fn scan_keeps_text(s: Seq<char>)
    ensures
        concat(words_scan(s).0) + words_scan(s).1 == without_white(s),
    decreases s.len(),
{
    let none = Seq::<char>::empty();
    if s.len() == 0 {
        assert(concat(words_scan(s).0) + words_scan(s).1 =~= none);
    } else {
        let front = s.drop_last();
        scan_keeps_text(front);
        let (done, current) = words_scan(front);
        concat_push(done, current);
        let (d, c) = words_scan(s);
        assert(concat(d) + c =~= without_white(s));
    }
}

/// The words of a text are all of it but the white space, in order.
pub proof fn words_lose_no_text(s: Seq<char>)
    ensures
        concat(words_of(s)) == without_white(s),
{
    scan_keeps_text(s);
    let (done, current) = words_scan(s);
    concat_push(done, current);
    assert(concat(done) + Seq::<char>::empty() =~= concat(done));
    if current.len() == 0 {
        assert(concat(done) + current =~= concat(done));
    }
}

proof fn scan_behind_word(s: Seq<char>, word: Seq<char>)
    requires
        forall|k: int| 0 <= k < word.len() ==> !is_white(#[trigger] word[k]),
    ensures
        words_scan(s + word) == (words_scan(s).0, words_scan(s).1 + word),
    decreases word.len(),
{
    if word.len() == 0 {
        assert(s + word =~= s);
        assert(words_scan(s).1 + word =~= words_scan(s).1);
    } else {
        let front = word.drop_last();
        assert(forall|k: int| 0 <= k < front.len() ==> front[k] == word[k]);
        scan_behind_word(s, front);
        assert((s + word).drop_last() =~= s + front);
        assert((s + word).last() == word.last());
        assert(!is_white(word[word.len() - 1]));
        assert((words_scan(s).1 + front).push(word.last()) =~= words_scan(s).1 + word);
    }
}

/// Words with a white character between each two are read back as those words.
pub proof fn words_are_read_back(words: Seq<Seq<char>>, space: char)
    requires
        is_white(space),
        forall|i: int|
            0 <= i < words.len() ==> (#[trigger] words[i]).len() > 0 && forall|k: int|
                0 <= k < words[i].len() ==> !is_white(#[trigger] words[i][k]),
    ensures
        words_of(join(words, seq![space])) == words,
        words.len() > 0 ==> words_scan(join(words, seq![space])) == (
            words.drop_last(),
            words.last(),
        ),
    decreases words.len(),
{
    let none = Seq::<char>::empty();
    if words.len() == 0 {
        assert(words_of(none) =~= words);
    } else {
        let front = words.drop_last();
        let word = words.last();
        assert(words[words.len() - 1] == word);
        assert(words[words.len() - 1].len() > 0);
        assert(forall|i: int| 0 <= i < front.len() ==> front[i] == words[i]);
        words_are_read_back(front, space);
        if words.len() == 1 {
            scan_behind_word(none, word);
            assert(none + word =~= word);
            assert(words_scan(none).0 =~= front);
            assert(words_scan(none).1 =~= none);
        } else {
            let head = join(front, seq![space]);
            let opened = head + seq![space];
            assert(opened.drop_last() =~= head);
            assert(front[front.len() - 1].len() > 0);
            assert(front.drop_last().push(front.last()) =~= front);
            scan_behind_word(opened, word);
            assert(none + word =~= word);
        }
        assert(front.push(word) =~= words);
    }
}

/// The words of a text hold no character that the text does not hold.
pub proof fn words_hold_no_more(s: Seq<char>, c: char, i: int)
    requires
        !s.contains(c),
        0 <= i < words_of(s).len(),
    ensures
        !words_of(s)[i].contains(c),
{
    scan_holds_no_more(s, c, i);
}

proof fn scan_holds_no_more(s: Seq<char>, c: char, i: int)
    requires
        !s.contains(c),
    ensures
        !words_scan(s).1.contains(c),
        0 <= i < words_scan(s).0.len() ==> !words_scan(s).0[i].contains(c),
    decreases s.len(),
{
    if s.len() > 0 {
        let front = s.drop_last();
        if front.contains(c) {
            let k = choose|k: int| 0 <= k < front.len() && front[k] == c;
            assert(s[k] == c);
        }
        scan_holds_no_more(front, c, i);
        let current = words_scan(front).1;
        let longer = current.push(s.last());
        assert(!longer.contains(c)) by {
            if longer.contains(c) {
                let k = choose|k: int| 0 <= k < longer.len() && longer[k] == c;
                if k < current.len() {
                    assert(current[k] == c);
                } else {
                    assert(s[s.len() - 1] == c);
                }
            }
        }
    }
}

} // verus!
