//! Places in texts, counted in the bytes of UTF-8.
use vstd::prelude::*;
use crate::text::chars_of;

verus! {

/// How many bytes a character takes.
pub open spec fn char_size(c: char) -> nat {
    if (c as u32) < 0x80 {
        1
    } else if (c as u32) < 0x800 {
        2
    } else if (c as u32) < 0x10000 {
        3
    } else {
        4
    }
}

/// How many bytes a text takes.
pub open spec fn size(s: Seq<char>) -> nat
    decreases s.len(),
{
    if s.len() == 0 {
        0
    } else {
        size(s.drop_last()) + char_size(s.last())
    }
}

/// How many characters stand before a place that is counted in bytes; nothing where the place is
/// behind the end or inside a character.
pub open spec fn chars_before(s: Seq<char>, place: nat) -> Option<int>
    decreases s.len(),
{
    if place == 0 {
        Some(0)
    } else if s.len() == 0 || place < char_size(s[0]) {
        None
    } else {
        match chars_before(s.skip(1), (place - char_size(s[0])) as nat) {
            Some(n) => Some(n + 1),
            None => None,
        }
    }
}

/// The bytes of two texts one after the other add up.
pub proof fn sizes_add_up(a: Seq<char>, b: Seq<char>)
    ensures
        size(a + b) == size(a) + size(b),
    decreases b.len(),
{
    if b.len() == 0 {
        assert(a + b =~= a);
    } else {
        sizes_add_up(a, b.drop_last());
        assert((a + b).drop_last() =~= a + b.drop_last());
    }
}

/// A text takes at least as many bytes as it has characters.
pub proof fn size_is_enough(s: Seq<char>)
    ensures
        s.len() <= size(s),
    decreases s.len(),
{
    if s.len() > 0 {
        size_is_enough(s.drop_last());
    }
}

proof fn size_of_first(s: Seq<char>)
    requires
        s.len() > 0,
    ensures
        size(s) == char_size(s[0]) + size(s.skip(1)),
{
    let first = seq![s[0]];
    reveal_with_fuel(size, 2);
    assert(size(first) == char_size(s[0])) by {
        assert(first.drop_last() =~= Seq::<char>::empty());
    }
    sizes_add_up(first, s.skip(1));
    assert(first + s.skip(1) =~= s);
}

/// The size of a text is the length of its encoding.
pub proof fn size_is_length_of_encoding(s: Seq<char>)
    ensures
        size(s) == vstd::utf8::encode_utf8(s).len(),
    decreases s.len(),
{
    if s.len() > 0 {
        size_of_first(s);
        vstd::utf8::char_is_scalar(s[0]);
        size_is_length_of_encoding(s.skip(1));
        assert(s.skip(1) =~= s.drop_first());
    }
}

/// The place behind the first characters of a text leads back to how many they are.
pub proof fn places_lead_back(s: Seq<char>, n: int)
    requires
        0 <= n <= s.len(),
    ensures
        chars_before(s, size(s.take(n))) == Some(n),
    decreases s.len(),
{
    if n == 0 {
        assert(s.take(0) =~= Seq::<char>::empty());
    } else {
        size_of_first(s.take(n));
        assert(s.take(n).skip(1) =~= s.skip(1).take(n - 1));
        places_lead_back(s.skip(1), n - 1);
    }
}

/// The characters before a place are characters of the text, and they take the bytes before it.
pub proof fn chars_before_are_there(s: Seq<char>, place: nat)
    ensures
        match chars_before(s, place) {
            Some(n) => 0 <= n <= s.len() && size(s.take(n)) == place,
            None => true,
        },
    decreases s.len(),
{
    if place == 0 {
        assert(s.take(0) =~= Seq::<char>::empty());
    } else if s.len() > 0 && place >= char_size(s[0]) {
        let rest = (place - char_size(s[0])) as nat;
        chars_before_are_there(s.skip(1), rest);
        if let Some(n) = chars_before(s.skip(1), rest) {
            size_of_first(s.take(n + 1));
            assert(s.take(n + 1).skip(1) =~= s.skip(1).take(n));
        }
    }
}

/// How many bytes a character takes.
pub fn size_of_char(c: char) -> (r: usize)
    ensures
        r == char_size(c),
{
    let code = c as u32;
    if code < 0x80 {
        1
    } else if code < 0x800 {
        2
    } else if code < 0x10000 {
        3
    } else {
        4
    }
}

/// How many bytes a text takes.
pub fn size_of(s: &str) -> (r: usize)
    requires
        size(s@) <= usize::MAX,
    ensures
        r == size(s@),
{
    let chars = chars_of(s);
    let mut total: usize = 0;
    let mut i: usize = 0;
    while i < chars.len()
        invariant
            0 <= i <= chars.len(),
            chars@ == s@,
            size(s@) <= usize::MAX,
            total == size(s@.take(i as int)),
        decreases chars.len() - i,
    {
        proof {
            let done = s@.take(i + 1);
            assert(done.drop_last() =~= s@.take(i as int));
            sizes_add_up(done, s@.skip(i + 1));
            assert(done + s@.skip(i + 1) =~= s@);
        }
        total += size_of_char(chars[i]);
        i += 1;
    }
    assert(s@.take(i as int) =~= s@);
    total
}

/// How many characters stand before a place that is counted in bytes; nothing where the place is
/// behind the end or inside a character.
pub fn count_chars_before(s: &str, place: usize) -> (r: Option<usize>)
    ensures
        (match r {
            Some(n) => Some(n as int),
            None => None,
        }) == chars_before(s@, place as nat),
        r is Some ==> r->0 <= s@.len(),
{
    let chars = chars_of(s);
    let mut left: usize = place;
    let mut i: usize = 0;
    assert(s@.skip(0) =~= s@);
    while left > 0
        invariant
            0 <= i <= chars.len(),
            chars@ == s@,
            chars_before(s@, place as nat) == (match chars_before(s@.skip(i as int), left as nat) {
                Some(n) => Some(n + i),
                None => None,
            }),
        decreases left,
    {
        if i >= chars.len() {
            return None;
        }
        let taken = size_of_char(chars[i]);
        if left < taken {
            return None;
        }
        proof {
            assert(s@.skip(i as int).skip(1) =~= s@.skip(i + 1));
        }
        left -= taken;
        i += 1;
    }
    Some(i)
}

} // verus!
