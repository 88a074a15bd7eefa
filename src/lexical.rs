//! The tokens of the rotation format: runs of one class of characters,
//! unsigned numbers, clock times, durations and quoted names.

use vstd::prelude::*;
use vstd::std_specs::iter::IteratorSpec;

verus! {

broadcast use vstd::string::axiom_spec_iter, vstd::string::next_postcondition;

/// The classes of characters that the grammar scans for.
#[derive(Clone, Copy, Debug, PartialEq, Eq, Structural)]
pub enum CharClass {
    /// ASCII letters.
    Alpha,
    /// ASCII digits.
    Digit,
    /// Spaces and tabs.
    Blank,
    /// Spaces, tabs and line breaks.
    Space,
    /// What a quoted name may hold: ASCII letters, digits, spaces and tabs.
    NameChar,
}

pub open spec fn in_class(c: char, class: CharClass) -> bool {
    let alpha = ('a' <= c && c <= 'z') || ('A' <= c && c <= 'Z');
    let digit = '0' <= c && c <= '9';
    let blank = c == ' ' || c == '\t';
    match class {
        CharClass::Alpha => alpha,
        CharClass::Digit => digit,
        CharClass::Blank => blank,
        CharClass::Space => blank || c == '\r' || c == '\n',
        CharClass::NameChar => alpha || digit || blank,
    }
}

/// The end of the longest run of characters of `class` that starts at `i`.
pub open spec fn scan(s: Seq<char>, i: int, class: CharClass) -> int
    decreases s.len() - i,
{
    if 0 <= i < s.len() && in_class(s[i], class) {
        scan(s, i + 1, class)
    } else {
        i
    }
}

/// Position `i` holds the character `c`.
pub open spec fn has_char(s: Seq<char>, i: int, c: char) -> bool {
    0 <= i < s.len() && s[i] == c
}

/// The number that the decimal digits `s[i..j]` write.
pub open spec fn digits_value(s: Seq<char>, i: int, j: int) -> int
    decreases j - i,
{
    if j <= i {
        0
    } else {
        digits_value(s, i, j - 1) * 10 + ((s[j - 1] as u32) as int - 48)
    }
}

/// An unsigned 32-bit number at `i`: all the digits there, and the position
/// after them. There is none where no digit stands at `i` or the number
/// does not fit in 32 bits.
pub open spec fn uint_at(s: Seq<char>, i: int) -> Option<(u32, int)> {
    let e = scan(s, i, CharClass::Digit);
    if e == i || digits_value(s, i, e) > u32::MAX {
        None
    } else {
        Some((digits_value(s, i, e) as u32, e))
    }
}

/// A clock time `h:m:s` of any three numbers at `i`, and the position after it.
pub open spec fn clock_at(s: Seq<char>, i: int) -> Option<(u32, u32, u32, int)> {
    match uint_at(s, i) {
        None => None,
        Some((h, a)) => if !has_char(s, a, ':') {
            None
        } else {
            match uint_at(s, a + 1) {
                None => None,
                Some((m, b)) => if !has_char(s, b, ':') {
                    None
                } else {
                    match uint_at(s, b + 1) {
                        None => None,
                        Some((sec, c)) => Some((h, m, sec, c)),
                    }
                },
            }
        },
    }
}

/// A duration `<hours>h` or `<hours>h<minutes>m` at `i`, in seconds, and the
/// position after it.
pub open spec fn duration_at(s: Seq<char>, i: int) -> Option<(u64, int)> {
    match uint_at(s, i) {
        None => None,
        Some((h, a)) => if !has_char(s, a, 'h') {
            None
        } else {
            match uint_at(s, a + 1) {
                Some((m, b)) => if has_char(s, b, 'm') {
                    Some(((h * 3600 + m * 60) as u64, b + 1))
                } else {
                    Some(((h * 3600) as u64, a + 1))
                },
                None => Some(((h * 3600) as u64, a + 1)),
            }
        },
    }
}

/// A quoted name at `i`: what stands between the quotes, and the position
/// after the closing one.
pub open spec fn name_at(s: Seq<char>, i: int) -> Option<(Seq<char>, int)> {
    if !has_char(s, i, '"') {
        None
    } else {
        let e = scan(s, i + 1, CharClass::NameChar);
        if e == i + 1 || !has_char(s, e, '"') {
            None
        } else {
            Some((s.subrange(i + 1, e), e + 1))
        }
    }
}

/// `r` holds a position as `usize` where `o` holds it as `int`.
pub open spec fn same_outcome<T>(r: Option<(T, usize)>, o: Option<(T, int)>) -> bool {
    match r {
        None => o is None,
        Some((v, e)) => o == Some((v, e as int)),
    }
}

/// The characters of `text`, in order.
pub fn chars_of(text: &str) -> (r: Vec<char>)
    ensures
        r@ == text@,
        r@.len() <= usize::MAX,
{
    let mut out: Vec<char> = Vec::new();
    let mut it = text.chars();
    loop
        invariant
            it.obeys_prophetic_iter_laws(),
            out@ + it.remaining() == text@,
            it.decrease() is Some,
        ensures
            out@ == text@,
        decreases it.decrease()->0,
    {
        match it.next() {
            Some(c) => {
                out.push(c);
            },
            None => {
                assert(out@ + it.remaining() =~= out@);
                break;
            },
        }
    }
    let n = out.len();
    assert(n == out@.len());
    out
}

/// Whether `c` is of `class`.
pub fn is_in_class(c: char, class: CharClass) -> (r: bool)
    ensures
        r == in_class(c, class),
{
    let alpha = ('a' <= c && c <= 'z') || ('A' <= c && c <= 'Z');
    let digit = '0' <= c && c <= '9';
    let blank = c == ' ' || c == '\t';
    match class {
        CharClass::Alpha => alpha,
        CharClass::Digit => digit,
        CharClass::Blank => blank,
        CharClass::Space => blank || c == '\r' || c == '\n',
        CharClass::NameChar => alpha || digit || blank,
    }
}

/// The end of the longest run of characters of `class` that starts at `i`.
pub fn scan_class(s: &Vec<char>, i: usize, class: CharClass) -> (r: usize)
    requires
        i <= s@.len() <= usize::MAX,
    ensures
        r == scan(s@, i as int, class),
        i <= r <= s@.len(),
        forall|k: int| i <= k < r ==> in_class(s@[k], class),
{
    let mut j = i;
    while j < s.len() && is_in_class(s[j], class)
        invariant
            i <= j <= s@.len(),
            scan(s@, i as int, class) == scan(s@, j as int, class),
            forall|k: int| i <= k < j ==> in_class(s@[k], class),
        decreases s@.len() - j,
    {
        j = j + 1;
    }
    j
}

/// Whether position `i` holds `c`.
pub fn char_at_is(s: &Vec<char>, i: usize, c: char) -> (r: bool)
    ensures
        r == has_char(s@, i as int, c),
{
    i < s.len() && s[i] == c
}

proof fn lemma_digits_grow(s: Seq<char>, i: int, j: int, k: int)
    requires
        i <= j <= k <= s.len(),
        0 <= i,
        forall|m: int| i <= m < k ==> in_class(s[m], CharClass::Digit),
    ensures
        0 <= digits_value(s, i, j) <= digits_value(s, i, k),
    decreases k - i,
{
    if k > i {
        if j < k {
            lemma_digits_grow(s, i, j, k - 1);
        } else {
            lemma_digits_grow(s, i, j - 1, k - 1);
        }
        let v = digits_value(s, i, k - 1);
        assert(v * 10 >= v) by (nonlinear_arith)
            requires v >= 0;
    }
}

/// An unsigned 32-bit number at `i`, and the position after its digits.
pub fn parse_uint(s: &Vec<char>, i: usize) -> (r: Option<(u32, usize)>)
    requires
        i <= s@.len() <= usize::MAX,
    ensures
        same_outcome(r, uint_at(s@, i as int)),
        r matches Some((v, e)) ==> i < e <= s@.len(),
{
    let e = scan_class(s, i, CharClass::Digit);
    if e == i {
        return None;
    }
    let mut j = i;
    let mut v: u64 = 0;
    while j < e
        invariant
            i <= j <= e <= s@.len(),
            e == scan(s@, i as int, CharClass::Digit),
            forall|k: int| i <= k < e ==> in_class(s@[k], CharClass::Digit),
            v == digits_value(s@, i as int, j as int),
            v <= u32::MAX,
        decreases e - j,
    {
        let d = (s[j] as u32 - 48) as u64;
        let next = v * 10 + d;
        if next > u32::MAX as u64 {
            proof {
                lemma_digits_grow(s@, i as int, j + 1, e as int);
            }
            return None;
        }
        v = next;
        j = j + 1;
    }
    Some((v as u32, e))
}

/// A clock time `h:m:s` of any three numbers at `i`, and the position after it.
pub fn parse_clock(s: &Vec<char>, i: usize) -> (r: Option<(u32, u32, u32, usize)>)
    requires
        i <= s@.len() <= usize::MAX,
    ensures
        match r {
            None => clock_at(s@, i as int) is None,
            Some((h, m, sec, e)) => clock_at(s@, i as int) == Some((h, m, sec, e as int)) && i < e
                <= s@.len(),
        },
{
    let (h, a) = match parse_uint(s, i) {
        None => return None,
        Some(p) => p,
    };
    if !char_at_is(s, a, ':') {
        return None;
    }
    let (m, b) = match parse_uint(s, a + 1) {
        None => return None,
        Some(p) => p,
    };
    if !char_at_is(s, b, ':') {
        return None;
    }
    match parse_uint(s, b + 1) {
        None => None,
        Some((sec, c)) => Some((h, m, sec, c)),
    }
}

/// A duration at `i`, in seconds, and the position after it.
pub fn parse_duration(s: &Vec<char>, i: usize) -> (r: Option<(u64, usize)>)
    requires
        i <= s@.len() <= usize::MAX,
    ensures
        same_outcome(r, duration_at(s@, i as int)),
        r matches Some((v, e)) ==> i < e <= s@.len() && v <= crate::shift::MAX_SHIFT_LENGTH,
{
    let (h, a) = match parse_uint(s, i) {
        None => return None,
        Some(p) => p,
    };
    if !char_at_is(s, a, 'h') {
        return None;
    }
    let hours = h as u64 * 3600;
    match parse_uint(s, a + 1) {
        Some((m, b)) => if char_at_is(s, b, 'm') {
            assert(hours + m * 60 <= u64::MAX);
            Some((hours + m as u64 * 60, b + 1))
        } else {
            Some((hours, a + 1))
        },
        None => Some((hours, a + 1)),
    }
}

/// A quoted name at `i`, and the position after the closing quote.
pub fn parse_name(text: &str, s: &Vec<char>, i: usize) -> (r: Option<(String, usize)>)
    requires
        s@ == text@,
        i <= s@.len() <= usize::MAX,
    ensures
        match r {
            None => name_at(s@, i as int) is None,
            Some((n, e)) => name_at(s@, i as int) == Some((n@, e as int)) && i < e <= s@.len(),
        },
{
    if !char_at_is(s, i, '"') {
        return None;
    }
    let e = scan_class(s, i + 1, CharClass::NameChar);
    if e == i + 1 || !char_at_is(s, e, '"') {
        return None;
    }
    let name = String::from_str(text.substring_char(i + 1, e));
    Some((name, e + 1))
}

/// The text `s[i..j]` as a `String`.
pub fn text_between(text: &str, s: &Vec<char>, i: usize, j: usize) -> (r: String)
    requires
        s@ == text@,
        i <= j <= s@.len(),
    ensures
        r@ == s@.subrange(i as int, j as int),
{
    String::from_str(text.substring_char(i, j))
}

} // verus!
