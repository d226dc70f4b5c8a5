use vstd::prelude::*;
use vstd::string::StrSliceExecFns;
use crate::json::Json;

verus! {

/// One stop of a colour gradient, one byte per channel.
#[derive(Clone, Copy, Debug, PartialEq, Eq, Structural)]
pub struct ColorStop {
    pub red: u8,
    pub green: u8,
    pub blue: u8,
}

pub open spec fn is_hex_digit(c: char) -> bool {
    ('0' <= c && c <= '9') || ('a' <= c && c <= 'f') || ('A' <= c && c <= 'F')
}

pub open spec fn hex_value(c: char) -> int {
    if '0' <= c && c <= '9' {
        c as int - '0' as int
    } else if 'a' <= c && c <= 'f' {
        c as int - 'a' as int + 10
    } else {
        c as int - 'A' as int + 10
    }
}

/// Whether `#` and three pairs of hex digits start at position `i` of `s`.
pub open spec fn color_at(s: Seq<char>, i: int) -> bool {
    0 <= i && i + 7 <= s.len() && s[i] == '#' && forall|k: int|
        i + 1 <= k < i + 7 ==> #[trigger] is_hex_digit(s[k])
}

/// The byte written by the two hex digits at positions `i` and `i + 1`.
pub open spec fn byte_at(s: Seq<char>, i: int) -> u8 {
    (16 * hex_value(s[i]) + hex_value(s[i + 1])) as u8
}

pub open spec fn stop_at(s: Seq<char>, i: int) -> ColorStop {
    ColorStop { red: byte_at(s, i + 1), green: byte_at(s, i + 3), blue: byte_at(s, i + 5) }
}

/// The first colour written in `s` at position `i` or later.
pub open spec fn color_from(s: Seq<char>, i: int) -> Option<ColorStop>
    decreases s.len() - i,
{
    if i < 0 || i + 7 > s.len() {
        None
    } else if color_at(s, i) {
        Some(stop_at(s, i))
    } else {
        color_from(s, i + 1)
    }
}

/// The colour that a string writes: its leftmost `#RRGGBB`, if any.
pub open spec fn color_of(s: Seq<char>) -> Option<ColorStop> {
    color_from(s, 0)
}

/// The stop that one gradient entry gives: only strings can give one.
pub open spec fn entry_stop(entry: Json) -> Option<ColorStop> {
    match entry {
        Json::Text(s) => color_of(s@),
        _ => None,
    }
}

/// The stops of a list of gradient entries, in order, those that give none left out.
pub open spec fn stops_of(entries: Seq<Json>) -> Seq<ColorStop>
    decreases entries.len(),
{
    if entries.len() == 0 {
        seq![]
    } else {
        let rest = stops_of(entries.drop_last());
        match entry_stop(entries.last()) {
            Some(c) => rest.push(c),
            None => rest,
        }
    }
}

/// The gradient used where nothing else is configured: black, white, black.
pub open spec fn default_stops() -> Seq<ColorStop> {
    seq![
        ColorStop { red: 0, green: 0, blue: 0 },
        ColorStop { red: 255, green: 255, blue: 255 },
        ColorStop { red: 0, green: 0, blue: 0 },
    ]
}

pub fn default_gradient() -> (r: Vec<ColorStop>)
    ensures
        r@ == default_stops(),
{
    let r = vec![
        ColorStop { red: 0, green: 0, blue: 0 },
        ColorStop { red: 255, green: 255, blue: 255 },
        ColorStop { red: 0, green: 0, blue: 0 },
    ];
    assert(r@ =~= default_stops());
    r
}

/// The value of one hex digit.
pub fn hex_digit(c: char) -> (r: Option<u8>)
    ensures
        r is Some <==> is_hex_digit(c),
        r matches Some(v) ==> v as int == hex_value(c) && v < 16,
{
    if '0' <= c && c <= '9' {
        Some((c as u32 - '0' as u32) as u8)
    } else if 'a' <= c && c <= 'f' {
        Some((c as u32 - 'a' as u32 + 10) as u8)
    } else if 'A' <= c && c <= 'F' {
        Some((c as u32 - 'A' as u32 + 10) as u8)
    } else {
        None
    }
}

/// The colour written at position `i`, if one starts there.
fn color_at_index(s: &str, n: usize, i: usize) -> (r: Option<ColorStop>)
    requires
        n == s@.len(),
        i + 7 <= n,
    ensures
        r is Some <==> color_at(s@, i as int),
        r matches Some(c) ==> c == stop_at(s@, i as int),
{
    if s.get_char(i) != '#' {
        return None;
    }
    let mut bytes: Vec<u8> = Vec::new();
    let mut k: usize = 0;
    while k < 3
        invariant
            k <= 3,
            n == s@.len(),
            i + 7 <= n,
            s@[i as int] == '#',
            bytes@.len() == k,
            forall|j: int| i + 1 <= j < i + 1 + 2 * k ==> #[trigger] is_hex_digit(s@[j]),
            forall|m: int| 0 <= m < k ==> #[trigger] bytes@[m] == byte_at(s@, i + 1 + 2 * m),
        decreases 3 - k,
    {
        let p = i + 1 + 2 * k;
        let high = hex_digit(s.get_char(p));
        let low = hex_digit(s.get_char(p + 1));
        match (high, low) {
            (Some(h), Some(l)) => {
                bytes.push(h * 16 + l);
                assert forall|j: int| i + 1 <= j < i + 1 + 2 * (k + 1) implies #[trigger] is_hex_digit(s@[j]) by {
                    if j >= p {
                        assert(j == p || j == p + 1);
                    }
                }
            },
            _ => {
                assert(!color_at(s@, i as int)) by {
                    if !is_hex_digit(s@[p as int]) {
                        assert(i + 1 <= p < i + 7);
                    } else {
                        assert(i + 1 <= p + 1 < i + 7);
                    }
                }
                return None;
            },
        }
        k = k + 1;
    }
    let c = ColorStop { red: bytes[0], green: bytes[1], blue: bytes[2] };
    assert(bytes@[0] == byte_at(s@, i + 1));
    assert(bytes@[1] == byte_at(s@, i + 3));
    assert(bytes@[2] == byte_at(s@, i + 5));
    Some(c)
}

/// The colour that a string writes: the leftmost `#` followed by three pairs of hex digits.
pub fn parse_color(s: &str) -> (r: Option<ColorStop>)
    ensures
        r == color_of(s@),
{
    let n = s.unicode_len();
    if n < 7 {
        return None;
    }
    let mut i: usize = 0;
    while i <= n - 7
        invariant
            n == s@.len(),
            n >= 7,
            i <= n,
            color_from(s@, 0) == color_from(s@, i as int),
        decreases n - i,
    {
        let found = color_at_index(s, n, i);
        if found.is_some() {
            return found;
        }
        i = i + 1;
    }
    None
}

/// The stop that one gradient entry gives.
pub fn parse_entry(entry: &Json) -> (r: Option<ColorStop>)
    ensures
        r == entry_stop(*entry),
{
    match entry {
        Json::Text(s) => parse_color(s.as_str()),
        _ => None,
    }
}

/// The stops of a list of gradient entries: entries that are no colour are skipped.
pub fn parse_gradient(entries: &Vec<Json>) -> (r: Vec<ColorStop>)
    ensures
        r@ == stops_of(entries@),
{
    let mut r: Vec<ColorStop> = Vec::new();
    let mut i: usize = 0;
    while i < entries.len()
        invariant
            i <= entries@.len(),
            r@ == stops_of(entries@.take(i as int)),
        decreases entries.len() - i,
    {
        assert(entries@.take(i + 1).drop_last() =~= entries@.take(i as int));
        match parse_entry(&entries[i]) {
            Some(c) => r.push(c),
            None => {},
        }
        i = i + 1;
    }
    assert(entries@.take(i as int) =~= entries@);
    r
}


/// A string that is exactly `#` and three pairs of hex digits gives one stop, whose
/// channels are the values of those pairs read in base 16.
pub proof fn lemma_exact_color(s: Seq<char>)
    requires
        s.len() == 7,
        s[0] == '#',
        forall|k: int| 1 <= k < 7 ==> #[trigger] is_hex_digit(s[k]),
    ensures
        color_of(s) == Some(stop_at(s, 0)),
        stop_at(s, 0).red as int == 16 * hex_value(s[1]) + hex_value(s[2]),
        stop_at(s, 0).green as int == 16 * hex_value(s[3]) + hex_value(s[4]),
        stop_at(s, 0).blue as int == 16 * hex_value(s[5]) + hex_value(s[6]),
{
    assert(color_at(s, 0));
    assert(is_hex_digit(s[1]) && is_hex_digit(s[2]) && is_hex_digit(s[3]));
    assert(is_hex_digit(s[4]) && is_hex_digit(s[5]) && is_hex_digit(s[6]));
}

/// The stops of two lists, one after the other, are the stops of each in turn.
pub proof fn lemma_stops_append(a: Seq<Json>, b: Seq<Json>)
    ensures
        stops_of(a + b) == stops_of(a) + stops_of(b),
    decreases b.len(),
{
    if b.len() == 0 {
        assert(a + b =~= a);
        assert(stops_of(a) + stops_of(b) =~= stops_of(a));
    } else {
        assert((a + b).drop_last() =~= a + b.drop_last());
        assert((a + b).last() == b.last());
        lemma_stops_append(a, b.drop_last());
        match entry_stop(b.last()) {
            Some(c) => {
                assert((stops_of(a) + stops_of(b.drop_last())).push(c)
                    =~= stops_of(a) + stops_of(b.drop_last()).push(c));
            },
            None => {},
        }
    }
}

/// An entry that gives no colour is dropped and the others keep their order; one
/// that gives a colour stands where the entry stood.
pub proof fn lemma_entry_in_place(a: Seq<Json>, x: Json, b: Seq<Json>)
    ensures
        entry_stop(x) is None ==> stops_of(a + seq![x] + b) == stops_of(a) + stops_of(b),
        entry_stop(x) matches Some(c) ==> stops_of(a + seq![x] + b) == stops_of(a) + seq![c]
            + stops_of(b),
{
    lemma_stops_append(a + seq![x], b);
    lemma_stops_append(a, seq![x]);
    assert(seq![x].drop_last() =~= Seq::<Json>::empty());
    assert(stops_of(Seq::<Json>::empty()) =~= Seq::<ColorStop>::empty());
    match entry_stop(x) {
        Some(c) => {
            assert(stops_of(seq![x]) =~= seq![c]);
        },
        None => {
            assert(stops_of(seq![x]) =~= Seq::<ColorStop>::empty());
            assert(stops_of(a) + Seq::<ColorStop>::empty() =~= stops_of(a));
        },
    }
}

} // verus!
