//! Internet addresses as the engine writes them: dotted decimal for version
//! four, groups of hexadecimal digits for version six.

use crate::text::{all_digits, chars_of, digit_of, digit_value, digits_value};
use vstd::prelude::*;

verus! {

/// An internet address.
#[derive(Clone, Copy, Debug, PartialEq, Eq)]
pub enum IpAddress {
    /// The four octets of a version four address, the first one first.
    V4([u8; 4]),
    /// The eight segments of a version six address, the first one first.
    V6([u16; 8]),
}

/// An internet address as a mathematical value.
pub enum IpValue {
    V4 { octets: Seq<u8> },
    V6 { segments: Seq<u16> },
}

impl View for IpAddress {
    type V = IpValue;

    open spec fn view(&self) -> IpValue {
        match self {
            IpAddress::V4(octets) => IpValue::V4 { octets: octets@ },
            IpAddress::V6(segments) => IpValue::V6 { segments: segments@ },
        }
    }
}

/// The view of an address that may be absent.
pub open spec fn opt_address(address: Option<IpAddress>) -> Option<IpValue> {
    match address {
        Some(a) => Some(a@),
        None => None,
    }
}

/// The parts of `s` between the occurrences of `separator`: one more part
/// than there are occurrences, and empty parts where two occurrences touch
/// or one stands at an end.
pub open spec fn fields(s: Seq<char>, separator: char) -> Seq<Seq<char>>
    decreases s.len(),
{
    if s.len() == 0 {
        seq![Seq::empty()]
    } else {
        let before = fields(s.drop_last(), separator);
        if s.last() == separator {
            before.push(Seq::empty())
        } else {
            before.drop_last().push(before.last().push(s.last()))
        }
    }
}

/// The hexadecimal digit that `c` writes, in either case, or -1 where `c` is
/// no such digit.
pub open spec fn hex_value(c: char) -> int {
    if digit_value(c) >= 0 {
        digit_value(c)
    } else if c == 'a' || c == 'A' {
        10
    } else if c == 'b' || c == 'B' {
        11
    } else if c == 'c' || c == 'C' {
        12
    } else if c == 'd' || c == 'D' {
        13
    } else if c == 'e' || c == 'E' {
        14
    } else if c == 'f' || c == 'F' {
        15
    } else {
        -1
    }
}

/// Every character of `s` is a hexadecimal digit.
pub open spec fn all_hex(s: Seq<char>) -> bool {
    forall|i: int| 0 <= i < s.len() ==> hex_value(#[trigger] s[i]) >= 0
}

/// The number that the hexadecimal digits of `s` write.
pub open spec fn hex_number(s: Seq<char>) -> nat
    decreases s.len(),
{
    if s.len() == 0 {
        0
    } else {
        (hex_number(s.drop_last()) * 16 + hex_value(s.last())) as nat
    }
}

/// What `field` denotes as an octet of a dotted address: one to three
/// decimal digits, without a leading zero before another digit, of a value
/// up to 255.
pub open spec fn octet_value(field: Seq<char>) -> Option<u8> {
    if 1 <= field.len() <= 3 && all_digits(field) && (field.len() == 1 || field[0] != '0')
        && digits_value(field) <= 255 {
        Some(digits_value(field) as u8)
    } else {
        None
    }
}

/// What `field` denotes as a segment of a version six address: one to four
/// hexadecimal digits.
pub open spec fn segment_value(field: Seq<char>) -> Option<u16> {
    if 1 <= field.len() <= 4 && all_hex(field) {
        Some(hex_number(field) as u16)
    } else {
        None
    }
}

/// Every one of `parts` denotes an octet.
pub open spec fn all_octets(parts: Seq<Seq<char>>) -> bool {
    forall|i: int| 0 <= i < parts.len() ==> octet_value(#[trigger] parts[i]) is Some
}

/// Every one of `parts` denotes a segment.
pub open spec fn all_segments(parts: Seq<Seq<char>>) -> bool {
    forall|i: int| 0 <= i < parts.len() ==> segment_value(#[trigger] parts[i]) is Some
}

/// The octets that `s` denotes as a dotted address: four octets with a dot
/// between each two.
pub open spec fn dotted_octets(s: Seq<char>) -> Option<Seq<u8>> {
    let parts = fields(s, '.');
    if parts.len() == 4 && all_octets(parts) {
        Some(Seq::new(4, |i: int| octet_value(parts[i])->0))
    } else {
        None
    }
}

/// The segments that `parts` denote, each by itself.
pub open spec fn segments_of(parts: Seq<Seq<char>>) -> Seq<u16> {
    Seq::new(parts.len(), |i: int| segment_value(parts[i])->0)
}

/// The two segments that four octets fill.
pub open spec fn octet_pairs(octets: Seq<u8>) -> Seq<u16> {
    seq![(octets[0] * 256 + octets[1]) as u16, (octets[2] * 256 + octets[3]) as u16]
}

/// The segments that `parts` denote: each part is a segment, but that the
/// last part may be a dotted address where `dotted_last` allows it, which
/// then fills two segments.
pub open spec fn group_list(parts: Seq<Seq<char>>, dotted_last: bool) -> Option<Seq<u16>> {
    if parts.len() > 0 && dotted_last && dotted_octets(parts.last()) is Some {
        if all_segments(parts.drop_last()) {
            Some(segments_of(parts.drop_last()) + octet_pairs(dotted_octets(parts.last())->0))
        } else {
            None
        }
    } else if all_segments(parts) {
        Some(segments_of(parts))
    } else {
        None
    }
}

/// The segments that `text` denotes as a list with a colon between each two:
/// none for the empty text.
pub open spec fn text_groups(text: Seq<char>, dotted_last: bool) -> Option<Seq<u16>> {
    if text.len() == 0 {
        Some(Seq::empty())
    } else {
        group_list(fields(text, ':'), dotted_last)
    }
}

/// The place of the first pair of colons in `s` at or after `from`, or the
/// length of `s` where there is none.
pub open spec fn gap_from(s: Seq<char>, from: int) -> int
    decreases s.len() - from,
{
    if from < 0 || from + 1 >= s.len() {
        s.len() as int
    } else if s[from] == ':' && s[from + 1] == ':' {
        from
    } else {
        gap_from(s, from + 1)
    }
}

/// The eight segments that `s` denotes as a version six address. Without a
/// pair of colons, `s` lists all eight. With one, the pair stands for as
/// many zero segments as are missing, at least one: before it stand
/// segments alone, and the last two segments after it may be written as a
/// dotted address. So may the last two of a full list.
pub open spec fn grouped_segments(s: Seq<char>) -> Option<Seq<u16>> {
    let gap = gap_from(s, 0);
    if gap >= s.len() {
        match group_list(fields(s, ':'), true) {
            Some(groups) => if groups.len() == 8 {
                Some(groups)
            } else {
                None
            },
            None => None,
        }
    } else {
        match (text_groups(s.take(gap), false), text_groups(s.skip(gap + 2), true)) {
            (Some(head), Some(tail)) => if head.len() + tail.len() <= 7 {
                Some(head + Seq::new((8 - head.len() - tail.len()) as nat, |i: int| 0u16) + tail)
            } else {
                None
            },
            _ => None,
        }
    }
}

/// The address that `s` denotes, if it denotes one.
pub open spec fn ip_value(s: Seq<char>) -> Option<IpValue> {
    match dotted_octets(s) {
        Some(octets) => Some(IpValue::V4 { octets }),
        None => match grouped_segments(s) {
            Some(segments) => Some(IpValue::V6 { segments }),
            None => None,
        },
    }
}

/// The views of a list of fields.
pub open spec fn field_views(v: Seq<Vec<char>>) -> Seq<Seq<char>> {
    Seq::new(v.len(), |i: int| v[i]@)
}

/// The parts of `chars[from..to]` between the occurrences of `separator`.
fn split(chars: &Vec<char>, from: usize, to: usize, separator: char) -> (parts: Vec<Vec<char>>)
    requires
        from <= to <= chars.len(),
    ensures
        field_views(parts@) == fields(chars@.subrange(from as int, to as int), separator),
{
    let ghost s = chars@.subrange(from as int, to as int);
    let mut parts: Vec<Vec<char>> = Vec::new();
    let mut current: Vec<char> = Vec::new();
    let mut i: usize = from;
    assert(s.take(0) =~= Seq::<char>::empty());
    assert(field_views(parts@).push(current@) =~= seq![Seq::<char>::empty()]);
    while i < to
        invariant
            from <= i <= to <= chars.len(),
            s == chars@.subrange(from as int, to as int),
            fields(s.take(i - from), separator) == field_views(parts@).push(current@),
        decreases to - i,
    {
        let ghost before = s.take(i - from);
        let ghost after = s.take(i - from + 1);
        let ghost done = field_views(parts@);
        let ghost open = current@;
        assert(after.drop_last() =~= before);
        assert(after.last() == chars@[i as int]);
        assert(fields(before, separator).last() == open);
        assert(fields(before, separator).drop_last() =~= done);
        let c = chars[i];
        if c == separator {
            parts.push(current);
            current = Vec::new();
            assert(field_views(parts@) =~= done.push(open));
            assert(field_views(parts@).push(current@) =~= done.push(open).push(Seq::empty()));
        } else {
            current.push(c);
            assert(field_views(parts@).push(current@) =~= done.push(open.push(c)));
        }
        i = i + 1;
    }
    assert(s.take(to - from) =~= s);
    let ghost done = field_views(parts@);
    let ghost open = current@;
    parts.push(current);
    assert(field_views(parts@) =~= done.push(open));
    parts
}

/// The hexadecimal digit that `c` writes, if it is one.
fn hex_of(c: char) -> (d: Option<u32>)
    ensures
        match d {
            Some(v) => v == hex_value(c) && v <= 15,
            None => hex_value(c) == -1,
        },
{
    match digit_of(c) {
        Some(d) => Some(d),
        None => {
            if c == 'a' || c == 'A' {
                Some(10)
            } else if c == 'b' || c == 'B' {
                Some(11)
            } else if c == 'c' || c == 'C' {
                Some(12)
            } else if c == 'd' || c == 'D' {
                Some(13)
            } else if c == 'e' || c == 'E' {
                Some(14)
            } else if c == 'f' || c == 'F' {
                Some(15)
            } else {
                None
            }
        },
    }
}

/// The power of sixteen that numbers of `digits` hexadecimal digits stay
/// under, for up to four digits.
spec fn hex_bound(digits: int) -> int {
    if digits <= 0 {
        1
    } else if digits == 1 {
        16
    } else if digits == 2 {
        256
    } else if digits == 3 {
        4096
    } else {
        65536
    }
}

/// Reads `field` as a segment of a version six address.
fn segment(field: &Vec<char>) -> (value: Option<u16>)
    ensures
        value == segment_value(field@),
{
    if field.len() == 0 || field.len() > 4 {
        return None;
    }
    let mut number: u32 = 0;
    let mut i: usize = 0;
    assert(field@.take(0) =~= Seq::<char>::empty());
    while i < field.len()
        invariant
            i <= field.len() <= 4,
            all_hex(field@.take(i as int)),
            number == hex_number(field@.take(i as int)),
            number < hex_bound(i as int),
        decreases field.len() - i,
    {
        let ghost before = field@.take(i as int);
        let ghost after = field@.take(i + 1);
        assert(after.drop_last() =~= before);
        assert(after.last() == field@[i as int]);
        match hex_of(field[i]) {
            None => {
                assert(hex_value(field@[i as int]) == -1);
                return None;
            },
            Some(d) => {
                assert forall|j: int| 0 <= j < after.len() implies hex_value(#[trigger] after[j])
                    >= 0 by {
                    if j < before.len() {
                        assert(after[j] == before[j]);
                    }
                }
                number = number * 16 + d;
            },
        }
        i = i + 1;
    }
    assert(field@.take(field.len() as int) =~= field@);
    Some(number as u16)
}

/// Reads `field` as an octet of a dotted address.
fn octet(field: &Vec<char>) -> (value: Option<u8>)
    ensures
        value == octet_value(field@),
{
    if field.len() == 0 || field.len() > 3 {
        return None;
    }
    if field.len() > 1 && field[0] == '0' {
        return None;
    }
    let mut number: u32 = 0;
    let mut i: usize = 0;
    assert(field@.take(0) =~= Seq::<char>::empty());
    while i < field.len()
        invariant
            i <= field.len() <= 3,
            all_digits(field@.take(i as int)),
            number == digits_value(field@.take(i as int)),
            number < 1000,
            i <= 2 ==> number < 100,
            i <= 1 ==> number < 10,
            i == 0 ==> number == 0,
        decreases field.len() - i,
    {
        let ghost before = field@.take(i as int);
        let ghost after = field@.take(i + 1);
        assert(after.drop_last() =~= before);
        assert(after.last() == field@[i as int]);
        match digit_of(field[i]) {
            None => {
                assert(digit_value(field@[i as int]) == -1);
                return None;
            },
            Some(d) => {
                assert forall|j: int| 0 <= j < after.len() implies digit_value(
                    #[trigger] after[j],
                ) >= 0 by {
                    if j < before.len() {
                        assert(after[j] == before[j]);
                    }
                }
                number = number * 10 + d;
            },
        }
        i = i + 1;
    }
    assert(field@.take(field.len() as int) =~= field@);
    if number > 255 {
        return None;
    }
    Some(number as u8)
}

/// Reads `field` as a dotted address.
fn dotted(field: &Vec<char>) -> (octets: Option<[u8; 4]>)
    ensures
        match octets {
            Some(o) => dotted_octets(field@) == Some(o@),
            None => dotted_octets(field@) is None,
        },
{
    assert(field@.subrange(0, field.len() as int) =~= field@);
    let parts = split(field, 0, field.len(), '.');
    let ghost views = field_views(parts@);
    if parts.len() != 4 {
        return None;
    }
    let a = octet(&parts[0]);
    let b = octet(&parts[1]);
    let c = octet(&parts[2]);
    let d = octet(&parts[3]);
    assert(views[0] == parts@[0]@ && views[1] == parts@[1]@ && views[2] == parts@[2]@ && views[3]
        == parts@[3]@);
    match (a, b, c, d) {
        (Some(a), Some(b), Some(c), Some(d)) => {
            let octets: [u8; 4] = [a, b, c, d];
            assert(all_octets(views));
            assert(octets@ =~= Seq::new(4, |i: int| octet_value(views[i])->0));
            Some(octets)
        },
        _ => {
            assert(!all_octets(views));
            None
        },
    }
}

/// Reads the first `count` of `parts` as segments.
fn segments(parts: &Vec<Vec<char>>, count: usize) -> (groups: Option<Vec<u16>>)
    requires
        count <= parts.len(),
    ensures
        match groups {
            Some(g) => all_segments(field_views(parts@).take(count as int)) && g@ == segments_of(
                field_views(parts@).take(count as int),
            ),
            None => !all_segments(field_views(parts@).take(count as int)),
        },
{
    let ghost views = field_views(parts@).take(count as int);
    let mut groups: Vec<u16> = Vec::new();
    let mut i: usize = 0;
    while i < count
        invariant
            i <= count <= parts.len(),
            views == field_views(parts@).take(count as int),
            groups.len() == i,
            forall|j: int| 0 <= j < i ==> segment_value(#[trigger] views[j]) == Some(groups@[j]),
        decreases count - i,
    {
        assert(views[i as int] == parts@[i as int]@);
        match segment(&parts[i]) {
            Some(value) => {
                groups.push(value);
            },
            None => {
                assert(segment_value(views[i as int]) is None);
                return None;
            },
        }
        i = i + 1;
    }
    assert(groups@ =~= segments_of(views));
    Some(groups)
}

/// Reads `parts` as a list of segments, the last of which may be a dotted
/// address where `dotted_last` allows it.
fn groups_of(parts: &Vec<Vec<char>>, dotted_last: bool) -> (groups: Option<Vec<u16>>)
    ensures
        match groups {
            Some(g) => group_list(field_views(parts@), dotted_last) == Some(g@),
            None => group_list(field_views(parts@), dotted_last) is None,
        },
{
    let ghost views = field_views(parts@);
    if parts.len() > 0 && dotted_last {
        let last = parts.len() - 1;
        assert(views.last() == parts@[last as int]@);
        match dotted(&parts[last]) {
            Some(octets) => {
                assert(views.take(last as int) =~= views.drop_last());
                return match segments(parts, last) {
                    Some(mut groups) => {
                        let ghost front = groups@;
                        let high: u16 = (octets[0] as u16) * 256 + (octets[1] as u16);
                        let low: u16 = (octets[2] as u16) * 256 + (octets[3] as u16);
                        groups.push(high);
                        groups.push(low);
                        assert(groups@ =~= front + octet_pairs(octets@));
                        Some(groups)
                    },
                    None => None,
                };
            },
            None => {},
        }
    }
    assert(views.take(parts.len() as int) =~= views);
    segments(parts, parts.len())
}

/// Reads `chars[from..to]` as a list of segments; the empty text lists none.
fn text_groups_of(chars: &Vec<char>, from: usize, to: usize, dotted_last: bool) -> (groups: Option<
    Vec<u16>,
>)
    requires
        from <= to <= chars.len(),
    ensures
        match groups {
            Some(g) => text_groups(chars@.subrange(from as int, to as int), dotted_last) == Some(
                g@,
            ),
            None => text_groups(chars@.subrange(from as int, to as int), dotted_last) is None,
        },
{
    if from == to {
        let groups: Vec<u16> = Vec::new();
        assert(groups@ =~= Seq::<u16>::empty());
        return Some(groups);
    }
    let parts = split(chars, from, to, ':');
    groups_of(&parts, dotted_last)
}

/// The place of the first pair of colons in `chars`, or the length of
/// `chars` where there is none.
fn find_gap(chars: &Vec<char>) -> (gap: usize)
    ensures
        gap == gap_from(chars@, 0),
        gap <= chars.len(),
        gap < chars.len() ==> gap + 2 <= chars.len(),
{
    let mut i: usize = 0;
    while i < chars.len() && i + 1 < chars.len()
        invariant
            i <= chars.len(),
            gap_from(chars@, 0) == gap_from(chars@, i as int),
        decreases chars.len() - i,
    {
        if chars[i] == ':' && chars[i + 1] == ':' {
            return i;
        }
        i = i + 1;
    }
    chars.len()
}

/// Reads `chars` as a version six address.
fn grouped(chars: &Vec<char>) -> (segments: Option<[u16; 8]>)
    ensures
        match segments {
            Some(s) => grouped_segments(chars@) == Some(s@),
            None => grouped_segments(chars@) is None,
        },
{
    let gap = find_gap(chars);
    let groups = if gap >= chars.len() {
        assert(chars@.subrange(0, chars.len() as int) =~= chars@);
        let parts = split(chars, 0, chars.len(), ':');
        match groups_of(&parts, true) {
            Some(groups) => {
                if groups.len() != 8 {
                    return None;
                }
                groups
            },
            None => {
                return None;
            },
        }
    } else {
        assert(chars@.subrange(0, gap as int) =~= chars@.take(gap as int));
        assert(chars@.subrange(gap + 2, chars.len() as int) =~= chars@.skip(gap + 2));
        let head = text_groups_of(chars, 0, gap, false);
        let tail = text_groups_of(chars, gap + 2, chars.len(), true);
        match (head, tail) {
            (Some(mut groups), Some(tail)) => {
                if groups.len() > 7 || tail.len() > 7 - groups.len() {
                    return None;
                }
                let ghost front = groups@;
                let zeros: usize = 8 - groups.len() - tail.len();
                let mut z: usize = 0;
                while z < zeros
                    invariant
                        z <= zeros,
                        groups@ == front + Seq::new(z as nat, |i: int| 0u16),
                    decreases zeros - z,
                {
                    groups.push(0);
                    assert(groups@ =~= front + Seq::new((z + 1) as nat, |i: int| 0u16));
                    z = z + 1;
                }
                let ghost middle = groups@;
                let mut t: usize = 0;
                while t < tail.len()
                    invariant
                        t <= tail.len(),
                        groups@ == middle + tail@.take(t as int),
                    decreases tail.len() - t,
                {
                    groups.push(tail[t]);
                    assert(groups@ =~= middle + tail@.take(t + 1));
                    t = t + 1;
                }
                assert(tail@.take(tail.len() as int) =~= tail@);
                groups
            },
            _ => {
                return None;
            },
        }
    };
    let segments: [u16; 8] = [
        groups[0],
        groups[1],
        groups[2],
        groups[3],
        groups[4],
        groups[5],
        groups[6],
        groups[7],
    ];
    assert(segments@ =~= groups@);
    Some(segments)
}

/// Reads `text` as an internet address of either version.
pub fn parse_ip(text: &str) -> (address: Option<IpAddress>)
    ensures
        opt_address(address) == ip_value(text@),
{
    let chars = chars_of(text);
    match dotted(&chars) {
        Some(octets) => Some(IpAddress::V4(octets)),
        None => match grouped(&chars) {
            Some(segments) => Some(IpAddress::V6(segments)),
            None => None,
        },
    }
}

/// `gap_from` finds the first pair of colons: a pair stands at the place
/// that it gives, where it gives one, and no pair stands before it.
pub proof fn lemma_gap_is_first_pair(s: Seq<char>, from: int)
    requires
        0 <= from,
    ensures
        from <= gap_from(s, from) || gap_from(s, from) == s.len(),
        gap_from(s, from) < s.len() ==> gap_from(s, from) + 1 < s.len() && s[gap_from(s, from)]
            == ':' && s[gap_from(s, from) + 1] == ':',
        forall|p: int|
            from <= p < gap_from(s, from) && p + 1 < s.len() ==> !(#[trigger] s[p] == ':' && s[p
                + 1] == ':'),
    decreases s.len() - from,
{
    if from + 1 < s.len() && !(s[from] == ':' && s[from + 1] == ':') {
        lemma_gap_is_first_pair(s, from + 1);
    }
}

} // verus!
