//! Addresses as they are written: dotted decimal for IPv4, colon-separated
//! hexadecimal groups for IPv6.

use vstd::prelude::*;
use crate::address::{
    group_weight, groups_value, ipv4_value, lemma_groups_value_bound, Address, Ipv4, Ipv6,
    Ipv6Prefix,
};
use crate::text::{
    chars_of, find_pair, first_pair, free_of, is_first_pair, joined, law_join_pieces,
    law_pieces_join, lemma_first_pair_is, lemma_joined_free_of, lemma_joined_solid_hold_no_double,
    lemma_pieces_nonempty, pair_at, part, pieces, solid, split, texts,
};

verus! {

/// What a character is worth as a digit of the given radix, 10 or 16.
pub open spec fn spec_digit(c: char, radix: u32) -> Option<u32> {
    if '0' <= c <= '9' {
        Some((c as u32 - '0' as u32) as u32)
    } else if radix == 16 && 'a' <= c <= 'f' {
        Some((c as u32 - 'a' as u32 + 10) as u32)
    } else if radix == 16 && 'A' <= c <= 'F' {
        Some((c as u32 - 'A' as u32 + 10) as u32)
    } else {
        None
    }
}

/// What a character is worth as a digit of the given radix, 10 or 16.
#[verifier::when_used_as_spec(spec_digit)]
pub fn digit(c: char, radix: u32) -> (r: Option<u32>)
    ensures
        r == spec_digit(c, radix),
        r matches Some(d) ==> d < 16,
{
    if '0' <= c && c <= '9' {
        Some(c as u32 - '0' as u32)
    } else if radix == 16 && 'a' <= c && c <= 'f' {
        Some(c as u32 - 'a' as u32 + 10)
    } else if radix == 16 && 'A' <= c && c <= 'F' {
        Some(c as u32 - 'A' as u32 + 10)
    } else {
        None
    }
}

/// Whether a text is made of digits of the radix alone.
pub open spec fn all_digits(s: Seq<char>, radix: u32) -> bool {
    forall|i: int| 0 <= i < s.len() ==> spec_digit(#[trigger] s[i], radix) is Some
}

/// The number that a text of digits stands for, first digit most significant.
pub open spec fn number(s: Seq<char>, radix: u32) -> nat
    decreases s.len(),
{
    if s.len() == 0 {
        0
    } else {
        number(s.drop_last(), radix) * (radix as nat) + (match spec_digit(s.last(), radix) {
            Some(d) => d as nat,
            None => 0,
        })
    }
}

/// The radix to the power `n`.
pub open spec fn radix_power(radix: u32, n: nat) -> nat
    decreases n,
{
    if n == 0 {
        1
    } else {
        radix_power(radix, (n - 1) as nat) * (radix as nat)
    }
}

/// One of the four numbers of a dotted IPv4 address: one to three decimal digits,
/// without a leading zero before another digit, worth 255 at most.
pub open spec fn octet_of(s: Seq<char>) -> Option<u8> {
    if 1 <= s.len() <= 3 && all_digits(s, 10) && (s.len() == 1 || s[0] != '0') && number(s, 10)
        <= 255 {
        Some(number(s, 10) as u8)
    } else {
        None
    }
}

/// One of the groups of an IPv6 address: one to four hexadecimal digits.
pub open spec fn group_of(s: Seq<char>) -> Option<u16> {
    if 1 <= s.len() <= 4 && all_digits(s, 16) {
        Some(number(s, 16) as u16)
    } else {
        None
    }
}

/// Reads a text of one to `most` digits, `most` being 4 at most. The result is
/// the number, or nothing where the text is empty, too long or holds another character.
fn read_number(chars: &Vec<char>, radix: u32, most: usize) -> (r: Option<u32>)
    requires
        radix == 10 || radix == 16,
        most <= 4,
    ensures
        r.is_some() == (1 <= chars.len() <= most && all_digits(chars@, radix)),
        r matches Some(n) ==> n == number(chars@, radix) && n < radix_power(radix, chars@.len()),
{
    if chars.len() == 0 || chars.len() > most {
        return None;
    }
    let mut value: u32 = 0;
    let mut i: usize = 0;
    while i < chars.len()
        invariant
            i <= chars.len() <= 4,
            radix == 10 || radix == 16,
            all_digits(chars@.take(i as int), radix),
            value == number(chars@.take(i as int), radix),
            value < radix_power(radix, i as nat),
        decreases chars.len() - i,
    {
        proof {
            assert(chars@.take(i + 1).drop_last() =~= chars@.take(i as int));
            reveal_with_fuel(radix_power, 5);
        }
        match digit(chars[i], radix) {
            None => {
                assert(spec_digit(chars@[i as int], radix) is None);
                return None;
            },
            Some(d) => {
                assert(d < radix) by {
                    if radix == 10 {
                        assert(d < 10);
                    }
                }
                value = value * radix + d;
                assert forall|k: int| 0 <= k < i + 1 implies spec_digit(
                    #[trigger] chars@.take(i + 1)[k],
                    radix,
                ) is Some by {
                    if k < i {
                        assert(chars@.take(i as int)[k] == chars@[k]);
                    }
                }
            },
        }
        i += 1;
    }
    assert(chars@.take(i as int) =~= chars@);
    Some(value)
}

/// Reads one of the four numbers of a dotted IPv4 address.
pub fn parse_octet(chars: &Vec<char>) -> (r: Option<u8>)
    ensures
        r == octet_of(chars@),
{
    match read_number(chars, 10, 3) {
        None => None,
        Some(n) => {
            if (chars.len() > 1 && chars[0] == '0') || n > 255 {
                None
            } else {
                Some(n as u8)
            }
        },
    }
}

/// Reads one of the groups of an IPv6 address.
pub fn parse_group(chars: &Vec<char>) -> (r: Option<u16>)
    ensures
        r == group_of(chars@),
{
    match read_number(chars, 16, 4) {
        None => None,
        Some(n) => {
            proof {
                reveal_with_fuel(radix_power, 5);
            }
            Some(n as u16)
        },
    }
}

/// The IPv4 address that a text stands for: four numbers with a dot between them.
pub open spec fn ipv4_of(s: Seq<char>) -> Option<Ipv4> {
    let p = pieces(s, '.');
    if p.len() == 4 && octet_of(p[0]) is Some && octet_of(p[1]) is Some && octet_of(p[2]) is Some
        && octet_of(p[3]) is Some {
        Some(
            Ipv4 {
                bits: ipv4_value(
                    octet_of(p[0]).unwrap(),
                    octet_of(p[1]).unwrap(),
                    octet_of(p[2]).unwrap(),
                    octet_of(p[3]).unwrap(),
                ) as u32,
            },
        )
    } else {
        None
    }
}

/// Reads an IPv4 address written as four decimal numbers with dots between them.
pub fn parse_ipv4(chars: &Vec<char>) -> (r: Option<Ipv4>)
    ensures
        r == ipv4_of(chars@),
{
    let parts = split(chars, '.');
    if parts.len() != 4 {
        return None;
    }
    assert(texts(parts@)[0] == parts@[0]@);
    assert(texts(parts@)[1] == parts@[1]@);
    assert(texts(parts@)[2] == parts@[2]@);
    assert(texts(parts@)[3] == parts@[3]@);
    let a = parse_octet(&parts[0]);
    let b = parse_octet(&parts[1]);
    let c = parse_octet(&parts[2]);
    let d = parse_octet(&parts[3]);
    match (a, b, c, d) {
        (Some(a), Some(b), Some(c), Some(d)) => Some(Ipv4::new(a, b, c, d)),
        _ => None,
    }
}

/// The groups that a list of texts stands for, if each of them is a group.
pub open spec fn groups_of(list: Seq<Seq<char>>) -> Option<Seq<u16>>
    decreases list.len(),
{
    if list.len() == 0 {
        Some(Seq::<u16>::empty())
    } else {
        match (groups_of(list.drop_last()), group_of(list.last())) {
            (Some(front), Some(g)) => Some(front.push(g)),
            _ => None,
        }
    }
}

/// The two groups that hold an IPv4 address, upper half first.
pub open spec fn ipv4_groups(a: Ipv4) -> Seq<u16> {
    seq![(a.bits / 0x1_0000) as u16, (a.bits % 0x1_0000) as u16]
}

/// The groups that the last piece of an IPv6 address stands for: one where it is
/// a group; two where it is a dotted IPv4 address and such a one may stand there.
pub open spec fn last_groups(piece: Seq<char>, dotted: bool) -> Option<Seq<u16>> {
    match group_of(piece) {
        Some(g) => Some(seq![g]),
        None => if dotted {
            match ipv4_of(piece) {
                Some(a) => Some(ipv4_groups(a)),
                None => None,
            }
        } else {
            None
        },
    }
}

/// The groups that one side of `::` stands for: none where the side is empty,
/// else what its pieces between single colons stand for.
pub open spec fn side_groups(side: Seq<char>, dotted: bool) -> Option<Seq<u16>> {
    if side.len() == 0 {
        Some(Seq::<u16>::empty())
    } else {
        let p = pieces(side, ':');
        match (groups_of(p.drop_last()), last_groups(p.last(), dotted)) {
            (Some(front), Some(back)) => Some(front + back),
            _ => None,
        }
    }
}

/// `n` groups of zero.
pub open spec fn zero_groups(n: nat) -> Seq<u16> {
    Seq::new(n, |i: int| 0u16)
}

/// The IPv6 address that a text stands for.
///
/// Without `::` the text holds eight groups. With `::` it holds seven at most,
/// and the `::` stands for as many groups of zero as are missing. The last 32 bits
/// may be written as a dotted IPv4 address, after the `::` or where there is none.
pub open spec fn ipv6_of(s: Seq<char>) -> Option<Ipv6> {
    match first_pair(s, ':', ':', 0) {
        None => match side_groups(s, true) {
            Some(g) => if g.len() == 8 {
                Some(Ipv6 { bits: groups_value(g) as u128 })
            } else {
                None
            },
            None => None,
        },
        Some(i) => match (
            side_groups(s.subrange(0, i), false),
            side_groups(s.subrange(i + 2, s.len() as int), true),
        ) {
            (Some(head), Some(tail)) => if head.len() + tail.len() <= 7 {
                Some(
                    Ipv6 {
                        bits: groups_value(
                            head + zero_groups((8 - head.len() - tail.len()) as nat) + tail,
                        ) as u128,
                    },
                )
            } else {
                None
            },
            _ => None,
        },
    }
}

/// The address that a text stands for, of either family.
pub open spec fn address_of(s: Seq<char>) -> Option<Address> {
    match ipv4_of(s) {
        Some(a) => Some(Address::V4(a)),
        None => match ipv6_of(s) {
            Some(a) => Some(Address::V6(a)),
            None => None,
        },
    }
}

/// Reads the groups of one side of `::`.
fn parse_side(side: &Vec<char>, dotted: bool) -> (r: Option<Vec<u16>>)
    ensures
        match r {
            Some(g) => side_groups(side@, dotted) == Some(g@),
            None => side_groups(side@, dotted) is None,
        },
{
    let mut groups: Vec<u16> = Vec::new();
    if side.len() == 0 {
        return Some(groups);
    }
    let parts = split(side, ':');
    proof {
        lemma_pieces_nonempty(side@, ':');
    }
    let ghost p = pieces(side@, ':');
    let last: usize = parts.len() - 1;
    let mut i: usize = 0;
    assert(p.drop_last().take(0) =~= Seq::<Seq<char>>::empty());
    while i < last
        invariant
            i <= last,
            last == parts.len() - 1,
            p == texts(parts@),
            p == pieces(side@, ':'),
            side@.len() > 0,
            groups_of(p.drop_last().take(i as int)) == Some(groups@),
        decreases last - i,
    {
        assert(p[i as int] == parts@[i as int]@);
        proof {
            let upto = p.drop_last().take(i + 1);
            assert(upto.drop_last() =~= p.drop_last().take(i as int));
            assert(upto.last() == p[i as int]);
        }
        match parse_group(&parts[i]) {
            None => {
                proof {
                    let upto = p.drop_last().take(i + 1);
                    assert(group_of(upto.last()) is None);
                    assert(groups_of(upto) is None);
                    lemma_groups_of_prefix(p.drop_last(), i + 1);
                    assert(groups_of(p.drop_last()) is None);
                }
                return None;
            },
            Some(g) => {
                groups.push(g);
            },
        }
        i += 1;
    }
    assert(p.drop_last().take(i as int) =~= p.drop_last());
    assert(p.last() == parts@[last as int]@);
    match parse_group(&parts[last]) {
        Some(g) => {
            let ghost front = groups@;
            groups.push(g);
            assert(groups@ =~= front + seq![g]);
            Some(groups)
        },
        None => {
            if !dotted {
                return None;
            }
            match parse_ipv4(&parts[last]) {
                None => None,
                Some(a) => {
                    let ghost front = groups@;
                    groups.push((a.bits / 0x1_0000) as u16);
                    groups.push((a.bits % 0x1_0000) as u16);
                    assert(groups@ =~= front + ipv4_groups(a));
                    Some(groups)
                },
            }
        },
    }
}

/// Where the first texts of a list are not all groups, the list is not either.
proof fn lemma_groups_of_prefix(list: Seq<Seq<char>>, n: int)
    requires
        0 <= n <= list.len(),
        groups_of(list.take(n)) is None,
    ensures
        groups_of(list) is None,
    decreases list.len(),
{
    if n < list.len() {
        assert(list.drop_last().take(n) =~= list.take(n));
        lemma_groups_of_prefix(list.drop_last(), n);
    } else {
        assert(list.take(n) =~= list);
    }
}

/// The weight of a group in an address never passes that of a whole address.
proof fn lemma_group_weight_small(n: nat)
    requires
        n <= 8,
    ensures
        group_weight(n) <= 0x1_0000_0000_0000_0000_0000_0000_0000_0000,
{
    reveal_with_fuel(group_weight, 9);
}

/// The number that eight groups at most stand for.
fn groups_bits(groups: &Vec<u16>) -> (r: u128)
    requires
        groups.len() <= 8,
    ensures
        r == groups_value(groups@),
{
    let mut bits: u128 = 0;
    let mut i: usize = 0;
    while i < groups.len()
        invariant
            i <= groups.len() <= 8,
            bits == groups_value(groups@.take(i as int)),
        decreases groups.len() - i,
    {
        proof {
            assert(groups@.take(i + 1).drop_last() =~= groups@.take(i as int));
            lemma_groups_value_bound(groups@.take(i as int));
            lemma_group_weight_small((i + 1) as nat);
        }
        bits = bits * 0x1_0000 + groups[i] as u128;
        i += 1;
    }
    assert(groups@.take(i as int) =~= groups@);
    bits
}

/// Reads an IPv6 address.
pub fn parse_ipv6(chars: &Vec<char>) -> (r: Option<Ipv6>)
    ensures
        r == ipv6_of(chars@),
{
    match find_pair(chars, ':', ':', 0) {
        None => {
            match parse_side(chars, true) {
                None => None,
                Some(groups) => {
                    if groups.len() == 8 {
                        Some(Ipv6 { bits: groups_bits(&groups) })
                    } else {
                        None
                    }
                },
            }
        },
        Some(i) => {
            let head_text = part(chars, 0, i);
            let tail_text = part(chars, i + 2, chars.len());
            let head = parse_side(&head_text, false);
            let tail = parse_side(&tail_text, true);
            match (head, tail) {
                (Some(head), Some(tail)) => {
                    if head.len() > 7 || tail.len() > 7 - head.len() {
                        return None;
                    }
                    let missing: usize = 8 - head.len() - tail.len();
                    let mut all: Vec<u16> = head;
                    let ghost front = all@;
                    let mut k: usize = 0;
                    while k < missing
                        invariant
                            k <= missing,
                            front.len() + missing <= 8,
                            all@ == front + zero_groups(k as nat),
                        decreases missing - k,
                    {
                        all.push(0);
                        assert(all@ =~= front + zero_groups((k + 1) as nat));
                        k += 1;
                    }
                    let mut j: usize = 0;
                    while j < tail.len()
                        invariant
                            j <= tail.len(),
                            front.len() + missing + tail.len() == 8,
                            all@ == front + zero_groups(missing as nat) + tail@.take(j as int),
                        decreases tail.len() - j,
                    {
                        all.push(tail[j]);
                        assert(all@ =~= front + zero_groups(missing as nat) + tail@.take(j + 1));
                        j += 1;
                    }
                    assert(tail@.take(j as int) =~= tail@);
                    Some(Ipv6 { bits: groups_bits(&all) })
                },
                _ => None,
            }
        },
    }
}

/// Reads an address of either family from its characters.
pub fn parse_chars(chars: &Vec<char>) -> (r: Option<Address>)
    ensures
        r == address_of(chars@),
{
    match parse_ipv4(chars) {
        Some(a) => Some(Address::V4(a)),
        None => match parse_ipv6(chars) {
            Some(a) => Some(Address::V6(a)),
            None => None,
        },
    }
}

/// Reads an address of either family, as `192.0.2.1` or `2001:db8::1` are written.
pub fn parse_address(text: &str) -> (r: Option<Address>)
    ensures
        r == address_of(text@),
{
    let chars = chars_of(text);
    parse_chars(&chars)
}

/// The range of IPv6 addresses that a text stands for: an address, a stroke and
/// the number of leading bits, 128 at most, in one to three decimal digits.
pub open spec fn prefix_of(s: Seq<char>) -> Option<Ipv6Prefix> {
    let p = pieces(s, '/');
    if p.len() == 2 && ipv6_of(p[0]) is Some && 1 <= p[1].len() <= 3 && all_digits(p[1], 10)
        && number(p[1], 10) <= 128 {
        Some(Ipv6Prefix { network: ipv6_of(p[0]).unwrap(), length: number(p[1], 10) as u8 })
    } else {
        None
    }
}

/// Reads a range of IPv6 addresses, as `2001:db8::/32` is written.
pub fn parse_prefix(text: &str) -> (r: Option<Ipv6Prefix>)
    ensures
        r == prefix_of(text@),
        r matches Some(p) ==> p.wf(),
{
    let chars = chars_of(text);
    let parts = split(&chars, '/');
    if parts.len() != 2 {
        return None;
    }
    assert(texts(parts@)[0] == parts@[0]@);
    assert(texts(parts@)[1] == parts@[1]@);
    match (parse_ipv6(&parts[0]), read_number(&parts[1], 10, 3)) {
        (Some(network), Some(n)) => {
            if n <= 128 {
                Some(Ipv6Prefix { network, length: n as u8 })
            } else {
                None
            }
        },
        _ => None,
    }
}

/// A text of digits holds neither a dot nor a colon.
pub proof fn lemma_digits_hold_no_separator(s: Seq<char>, radix: u32)
    requires
        all_digits(s, radix),
    ensures
        free_of(s, '.'),
        free_of(s, ':'),
{
    assert forall|k: int| 0 <= k < s.len() implies #[trigger] s[k] != '.' && s[k] != ':' by {
        assert(spec_digit(s[k], radix) is Some);
    }
}

/// Four numbers with dots between them are read as the IPv4 address that has them
/// as its octets, from left to right.
pub proof fn law_dotted_quad_is_read(a: Seq<char>, b: Seq<char>, c: Seq<char>, d: Seq<char>)
    requires
        octet_of(a) is Some,
        octet_of(b) is Some,
        octet_of(c) is Some,
        octet_of(d) is Some,
    ensures
        ipv4_of(joined(seq![a, b, c, d], '.')) == Some(
            Ipv4 {
                bits: ipv4_value(
                    octet_of(a).unwrap(),
                    octet_of(b).unwrap(),
                    octet_of(c).unwrap(),
                    octet_of(d).unwrap(),
                ) as u32,
            },
        ),
{
    let list = seq![a, b, c, d];
    lemma_digits_hold_no_separator(a, 10);
    lemma_digits_hold_no_separator(b, 10);
    lemma_digits_hold_no_separator(c, 10);
    lemma_digits_hold_no_separator(d, 10);
    law_join_pieces(list, '.');
}

/// Nothing but four numbers with dots between them is read as an IPv4 address.
pub proof fn law_ipv4_is_dotted_quad(s: Seq<char>)
    requires
        ipv4_of(s) is Some,
    ensures
        pieces(s, '.').len() == 4,
        s == joined(pieces(s, '.'), '.'),
        forall|i: int| 0 <= i < 4 ==> octet_of(#[trigger] pieces(s, '.')[i]) is Some,
{
    law_pieces_join(s, '.');
}

/// Whether every text of a list is a group of an IPv6 address.
pub open spec fn all_groups(list: Seq<Seq<char>>) -> bool {
    forall|i: int| 0 <= i < list.len() ==> group_of(#[trigger] list[i]) is Some
}

/// The numbers that the groups of a list stand for, in the order of the list.
pub open spec fn group_values(list: Seq<Seq<char>>) -> Seq<u16> {
    list.map_values(|g: Seq<char>| group_of(g).unwrap())
}

/// A list of groups is read as their numbers.
pub proof fn lemma_groups_of_all(list: Seq<Seq<char>>)
    requires
        all_groups(list),
    ensures
        groups_of(list) == Some(group_values(list)),
    decreases list.len(),
{
    if list.len() == 0 {
        assert(group_values(list) =~= Seq::<u16>::empty());
    } else {
        let front = list.drop_last();
        assert forall|i: int| 0 <= i < front.len() implies group_of(#[trigger] front[i]) is Some by {
            assert(front[i] == list[i]);
        }
        lemma_groups_of_all(front);
        assert(group_of(list.last()) is Some);
        assert(group_values(list) =~= group_values(front).push(group_of(list.last()).unwrap()));
    }
}

/// A group is not empty and holds no colon.
pub proof fn lemma_groups_are_solid(list: Seq<Seq<char>>)
    requires
        all_groups(list),
    ensures
        forall|i: int| 0 <= i < list.len() ==> solid(#[trigger] list[i], ':'),
{
    assert forall|i: int| 0 <= i < list.len() implies solid(#[trigger] list[i], ':') by {
        assert(group_of(list[i]) is Some);
        lemma_digits_hold_no_separator(list[i], 16);
    }
}

/// Groups with single colons between them are read as their numbers, on either
/// side of `::`.
pub proof fn lemma_side_groups_of_join(list: Seq<Seq<char>>, dotted: bool)
    requires
        all_groups(list),
    ensures
        side_groups(joined(list, ':'), dotted) == Some(group_values(list)),
{
    if list.len() == 0 {
        assert(group_values(list) =~= Seq::<u16>::empty());
    } else {
        lemma_groups_are_solid(list);
        lemma_joined_solid_hold_no_double(list, ':');
        law_join_pieces(list, ':');
        let front = list.drop_last();
        assert forall|i: int| 0 <= i < front.len() implies group_of(#[trigger] front[i]) is Some by {
            assert(front[i] == list[i]);
        }
        lemma_groups_of_all(front);
        assert(group_of(list.last()) is Some);
        assert(group_values(front) + seq![group_of(list.last()).unwrap()] =~= group_values(list));
    }
}

/// Eight groups with single colons between them are read as the IPv6 address
/// that has them as its groups, from left to right.
pub proof fn law_eight_groups_are_read(list: Seq<Seq<char>>)
    requires
        list.len() == 8,
        all_groups(list),
    ensures
        ipv6_of(joined(list, ':')) == Some(
            Ipv6 { bits: groups_value(group_values(list)) as u128 },
        ),
{
    lemma_groups_are_solid(list);
    lemma_joined_solid_hold_no_double(list, ':');
    lemma_side_groups_of_join(list, true);
}

/// Groups before and after `::`, seven in all at most, are read as the IPv6
/// address that has the first ones as its first groups, the last ones as its last
/// groups and zero in every group between them.
pub proof fn law_compressed_groups_are_read(head: Seq<Seq<char>>, tail: Seq<Seq<char>>)
    requires
        all_groups(head),
        all_groups(tail),
        head.len() + tail.len() <= 7,
    ensures
        ipv6_of(joined(head, ':') + seq![':', ':'] + joined(tail, ':')) == Some(
            Ipv6 {
                bits: groups_value(
                    group_values(head) + zero_groups((8 - head.len() - tail.len()) as nat)
                        + group_values(tail),
                ) as u128,
            },
        ),
{
    let before = joined(head, ':');
    let after = joined(tail, ':');
    let text = before + seq![':', ':'] + after;
    let i = before.len() as int;
    assert(text[i] == ':' && text[i + 1] == ':');
    assert forall|j: int| 0 <= j < i implies !pair_at(text, ':', ':', j) by {
        lemma_groups_are_solid(head);
        lemma_joined_solid_hold_no_double(head, ':');
        if j + 1 < i {
            assert(text[j] == before[j] && text[j + 1] == before[j + 1]);
            assert(!pair_at(before, ':', ':', j));
        } else {
            assert(text[j] == before.last());
        }
    }
    assert(is_first_pair(text, ':', ':', 0, i));
    lemma_first_pair_is(text, ':', ':', 0, i);
    assert(text.subrange(0, i) =~= before);
    assert(text.subrange(i + 2, text.len() as int) =~= after);
    lemma_side_groups_of_join(head, false);
    lemma_side_groups_of_join(tail, true);
    assert(group_values(head).len() == head.len());
    assert(group_values(tail).len() == tail.len());
}

/// A dotted IPv4 address is not empty, holds no colon and is no group.
pub proof fn lemma_dotted_quad_is_solid(quad: Seq<char>)
    requires
        ipv4_of(quad) is Some,
    ensures
        solid(quad, ':'),
        group_of(quad) is None,
{
    law_ipv4_is_dotted_quad(quad);
    let p = pieces(quad, '.');
    assert forall|i: int| 0 <= i < p.len() implies free_of(#[trigger] p[i], ':') by {
        assert(octet_of(p[i]) is Some);
        lemma_digits_hold_no_separator(p[i], 10);
    }
    lemma_joined_free_of(p, '.', ':');
    if all_digits(quad, 16) {
        lemma_digits_hold_no_separator(quad, 16);
        let alone = seq![quad];
        assert(joined(alone, '.') == quad);
        law_join_pieces(alone, '.');
    }
}

/// Groups and, after them, a dotted IPv4 address, with single colons between
/// them, are read as the groups' numbers and the two halves of the address.
pub proof fn lemma_side_groups_with_dotted_tail(list: Seq<Seq<char>>, quad: Seq<char>)
    requires
        all_groups(list),
        ipv4_of(quad) is Some,
    ensures
        side_groups(joined(list.push(quad), ':'), true) == Some(
            group_values(list) + ipv4_groups(ipv4_of(quad).unwrap()),
        ),
        forall|k: int| !pair_at(joined(list.push(quad), ':'), ':', ':', k),
{
    let all = list.push(quad);
    lemma_groups_are_solid(list);
    lemma_dotted_quad_is_solid(quad);
    assert forall|i: int| 0 <= i < all.len() implies solid(#[trigger] all[i], ':') by {
        if i < list.len() {
            assert(all[i] == list[i]);
        }
    }
    lemma_joined_solid_hold_no_double(all, ':');
    law_join_pieces(all, ':');
    assert(all.drop_last() =~= list);
    lemma_groups_of_all(list);
}

/// Six groups and a dotted IPv4 address, with single colons between them, are
/// read as the IPv6 address that has the groups as its first six groups and the
/// IPv4 address as its last 32 bits.
pub proof fn law_groups_with_dotted_tail_are_read(list: Seq<Seq<char>>, quad: Seq<char>)
    requires
        list.len() == 6,
        all_groups(list),
        ipv4_of(quad) is Some,
    ensures
        ipv6_of(joined(list.push(quad), ':')) == Some(
            Ipv6 {
                bits: groups_value(group_values(list) + ipv4_groups(ipv4_of(quad).unwrap())) as u128,
            },
        ),
{
    lemma_side_groups_with_dotted_tail(list, quad);
}

/// Groups before `::` and, after it, groups and a dotted IPv4 address, five groups
/// in all at most, are read as the IPv6 address that has the first groups as its
/// first groups, the IPv4 address as its last 32 bits, the other groups before
/// those, and zero in every group between.
pub proof fn law_compressed_groups_with_dotted_tail_are_read(
    head: Seq<Seq<char>>,
    tail: Seq<Seq<char>>,
    quad: Seq<char>,
)
    requires
        all_groups(head),
        all_groups(tail),
        ipv4_of(quad) is Some,
        head.len() + tail.len() <= 5,
    ensures
        ipv6_of(joined(head, ':') + seq![':', ':'] + joined(tail.push(quad), ':')) == Some(
            Ipv6 {
                bits: groups_value(
                    group_values(head) + zero_groups((6 - head.len() - tail.len()) as nat) + (
                    group_values(tail) + ipv4_groups(ipv4_of(quad).unwrap())),
                ) as u128,
            },
        ),
{
    let before = joined(head, ':');
    let after = joined(tail.push(quad), ':');
    let text = before + seq![':', ':'] + after;
    let i = before.len() as int;
    assert(text[i] == ':' && text[i + 1] == ':');
    assert forall|j: int| 0 <= j < i implies !pair_at(text, ':', ':', j) by {
        lemma_groups_are_solid(head);
        lemma_joined_solid_hold_no_double(head, ':');
        if j + 1 < i {
            assert(text[j] == before[j] && text[j + 1] == before[j + 1]);
            assert(!pair_at(before, ':', ':', j));
        } else {
            assert(text[j] == before.last());
        }
    }
    assert(is_first_pair(text, ':', ':', 0, i));
    lemma_first_pair_is(text, ':', ':', 0, i);
    assert(text.subrange(0, i) =~= before);
    assert(text.subrange(i + 2, text.len() as int) =~= after);
    lemma_side_groups_of_join(head, false);
    lemma_side_groups_with_dotted_tail(tail, quad);
    assert(group_values(head).len() == head.len());
    assert(group_values(tail).len() == tail.len());
}

} // verus!
