//! The interface inspector: which addresses the default network interface holds.
//!
//! The caller asks the operating system; this module reads what came back. The
//! IPv6 addresses are read from the text that the platform's interface utility
//! prints, one address to a line.

use vstd::prelude::*;
use crate::address::{any_contains, spec_any_contains, Address, Ipv4, Ipv6, Ipv6Prefix};
use crate::literal::{ipv6_of, parse_ipv6};
use crate::text::{
    chars_of, is_word, joined, law_join_words, part, pieces, same_text, spec_is_space, split,
    split_words, texts, words,
};

verus! {

/// What the engine reads of a network interface.
#[derive(Clone, Debug, PartialEq, Eq)]
pub struct Interface {
    pub name: String,
    pub ipv4: Vec<Ipv4>,
}

/// The value of an [`Interface`].
pub struct InterfaceView {
    pub name: Seq<char>,
    pub ipv4: Seq<Ipv4>,
}

impl View for Interface {
    type V = InterfaceView;

    open spec fn view(&self) -> InterfaceView {
        InterfaceView { name: self.name@, ipv4: self.ipv4@ }
    }
}

/// The value of an interface, where there is one.
pub open spec fn found_view(found: Option<&Interface>) -> Option<InterfaceView> {
    match found {
        Some(i) => Some(i@),
        None => None,
    }
}

/// The text of a report, where there is one.
pub open spec fn report_view(report: Option<&str>) -> Option<Seq<char>> {
    match report {
        Some(output) => Some(output@),
        None => None,
    }
}

/// Why a way of finding addresses found none. Such a failure empties that way's
/// share of the candidates and ends nothing.
#[derive(Clone, Copy, Debug, PartialEq, Eq, Structural)]
pub enum DiscoveryError {
    /// The operating system names no default network interface.
    NoDefaultInterface,
}

/// The name of the default interface, where the operating system has one.
pub fn default_interface(found: Option<Interface>) -> (r: Option<String>)
    ensures
        match found {
            Some(i) => r matches Some(name) && name@ == i@.name,
            None => r is None,
        },
{
    match found {
        Some(i) => Some(i.name),
        None => None,
    }
}

/// The word that stands before an IPv6 address in the utility's output.
pub open spec fn marker() -> Seq<char> {
    "inet6"@
}

/// Whether a word says that the address of its line is secured or of global scope.
pub open spec fn is_scope_flag(word: Seq<char>) -> bool {
    word == "secured"@ || word == "global"@
}

/// Whether one of the words is a scope flag.
pub open spec fn has_scope_flag(ws: Seq<Seq<char>>) -> bool {
    exists|i: int| 0 <= i < ws.len() && is_scope_flag(#[trigger] ws[i])
}

/// Whether `i` is the place of the first marker among the words.
pub open spec fn is_first_marker(ws: Seq<Seq<char>>, i: int) -> bool {
    &&& 0 <= i < ws.len()
    &&& ws[i] == marker()
    &&& forall|j: int| 0 <= j < i ==> #[trigger] ws[j] != marker()
}

/// The word that follows the first marker, if there is a marker and a word after it.
pub open spec fn address_word(ws: Seq<Seq<char>>) -> Option<Seq<char>> {
    if exists|i: int| is_first_marker(ws, i) {
        let i = choose|i: int| is_first_marker(ws, i);
        if i + 1 < ws.len() {
            Some(ws[i + 1])
        } else {
            None
        }
    } else {
        None
    }
}

/// Whether a character begins what the utility hangs on an address: a zone after
/// `%` or a prefix length after `/`.
pub open spec fn spec_is_tail_mark(c: char) -> bool {
    c == '%' || c == '/'
}

/// Whether the address of a word ends before place `k`: `k` is the place of the
/// word's first tail mark, or its length where it has none.
pub open spec fn is_bare_end(word: Seq<char>, k: int) -> bool {
    &&& 0 <= k <= word.len()
    &&& forall|j: int| 0 <= j < k ==> !spec_is_tail_mark(#[trigger] word[j])
    &&& k < word.len() ==> spec_is_tail_mark(word[k])
}

/// An address word without what the utility hangs on it: the word up to its
/// first `%` or `/`.
pub open spec fn bare(word: Seq<char>) -> Seq<char> {
    word.take(choose|k: int| is_bare_end(word, k))
}

/// The address of a word ends at one place only.
pub proof fn lemma_bare_is(word: Seq<char>, k: int)
    requires
        is_bare_end(word, k),
    ensures
        bare(word) == word.take(k),
{
    let c = choose|c: int| is_bare_end(word, c);
    if c < k {
        assert(!spec_is_tail_mark(word[c]));
    } else if k < c {
        assert(!spec_is_tail_mark(word[k]));
    }
}

/// The word that follows the first marker is the address word.
pub proof fn lemma_address_word_is(ws: Seq<Seq<char>>, i: int)
    requires
        is_first_marker(ws, i),
    ensures
        address_word(ws) == if i + 1 < ws.len() {
            Some(ws[i + 1])
        } else {
            None
        },
{
    let c = choose|c: int| is_first_marker(ws, c);
    if c < i {
        assert(ws[c] != marker());
    } else if i < c {
        assert(ws[i] != marker());
    }
}

/// The IPv6 address that a line of the output reports with a scope flag, if it
/// reports one that can be read.
pub open spec fn line_address(line: Seq<char>) -> Option<Ipv6> {
    let ws = words(line);
    if has_scope_flag(ws) {
        match address_word(ws) {
            Some(w) => ipv6_of(bare(w)),
            None => None,
        }
    } else {
        None
    }
}

/// Whether the engine may publish an IPv6 address: it is globally routable and,
/// where a list of prefixes is configured, lies in one of them.
pub open spec fn spec_admitted(address: Ipv6, allowed: Option<Seq<Ipv6Prefix>>) -> bool {
    address.spec_is_global() && match allowed {
        Some(list) => spec_any_contains(list, address),
        None => true,
    }
}

/// The address that a line contributes to the candidates, if any.
pub open spec fn line_candidate(line: Seq<char>, allowed: Option<Seq<Ipv6Prefix>>) -> Option<
    Ipv6,
> {
    match line_address(line) {
        Some(a) => if spec_admitted(a, allowed) {
            Some(a)
        } else {
            None
        },
        None => None,
    }
}

/// The addresses that the lines contribute, in the order of the lines.
pub open spec fn lines_candidates(lines: Seq<Seq<char>>, allowed: Option<Seq<Ipv6Prefix>>) -> Seq<
    Ipv6,
>
    decreases lines.len(),
{
    if lines.len() == 0 {
        Seq::<Ipv6>::empty()
    } else {
        let front = lines_candidates(lines.drop_last(), allowed);
        match line_candidate(lines.last(), allowed) {
            Some(a) => front.push(a),
            None => front,
        }
    }
}

/// The global IPv6 addresses that the output of the interface utility reports.
pub open spec fn spec_global_addresses(output: Seq<char>, allowed: Option<Seq<Ipv6Prefix>>) -> Seq<
    Ipv6,
> {
    lines_candidates(pieces(output, '\n'), allowed)
}

/// The prefixes of an optional list.
pub open spec fn allowed_view(allowed: Option<Vec<Ipv6Prefix>>) -> Option<Seq<Ipv6Prefix>> {
    match allowed {
        Some(list) => Some(list@),
        None => None,
    }
}

/// Whether the engine may publish an IPv6 address.
pub fn admitted(address: Ipv6, allowed: &Option<Vec<Ipv6Prefix>>) -> (r: bool)
    ensures
        r == spec_admitted(address, allowed_view(*allowed)),
{
    if !address.is_global() {
        return false;
    }
    match allowed {
        Some(list) => any_contains(list, address),
        None => true,
    }
}

/// Whether a character begins what the utility hangs on an address.
#[verifier::when_used_as_spec(spec_is_tail_mark)]
pub fn is_tail_mark(c: char) -> (r: bool)
    ensures
        r == spec_is_tail_mark(c),
{
    c == '%' || c == '/'
}

/// Whether one of the words is a scope flag.
fn find_scope_flag(ws: &Vec<Vec<char>>) -> (r: bool)
    ensures
        r == has_scope_flag(texts(ws@)),
{
    let secured = chars_of("secured");
    let global = chars_of("global");
    let mut i: usize = 0;
    while i < ws.len()
        invariant
            i <= ws.len(),
            secured@ == "secured"@,
            global@ == "global"@,
            forall|j: int| 0 <= j < i ==> !is_scope_flag(#[trigger] texts(ws@)[j]),
        decreases ws.len() - i,
    {
        assert(texts(ws@)[i as int] == ws@[i as int]@);
        if same_text(&ws[i], &secured) || same_text(&ws[i], &global) {
            return true;
        }
        i += 1;
    }
    false
}

/// The word that follows the first marker.
fn find_address_word(ws: &Vec<Vec<char>>) -> (r: Option<usize>)
    ensures
        match r {
            Some(k) => k < ws.len() && address_word(texts(ws@)) == Some(ws@[k as int]@),
            None => address_word(texts(ws@)) is None,
        },
{
    let word = chars_of("inet6");
    let ghost t = texts(ws@);
    let mut i: usize = 0;
    while i < ws.len()
        invariant
            i <= ws.len(),
            word@ == marker(),
            t == texts(ws@),
            forall|j: int| 0 <= j < i ==> #[trigger] t[j] != marker(),
        decreases ws.len() - i,
    {
        assert(t[i as int] == ws@[i as int]@);
        if same_text(&ws[i], &word) {
            proof {
                lemma_address_word_is(t, i as int);
            }
            if i + 1 < ws.len() {
                assert(t[i + 1] == ws@[i + 1]@);
                return Some(i + 1);
            } else {
                return None;
            }
        }
        i += 1;
    }
    assert forall|k: int| !is_first_marker(t, k) by {
        if is_first_marker(t, k) {
            assert(t[k] != marker());
        }
    }
    None
}

/// The IPv6 address that a line of the output reports with a scope flag.
pub fn read_line(line: &Vec<char>) -> (r: Option<Ipv6>)
    ensures
        r == line_address(line@),
{
    let ws = split_words(line);
    if !find_scope_flag(&ws) {
        return None;
    }
    match find_address_word(&ws) {
        None => None,
        Some(k) => {
            let word = &ws[k];
            let mut end: usize = 0;
            while end < word.len() && !is_tail_mark(word[end])
                invariant
                    end <= word.len(),
                    forall|j: int| 0 <= j < end ==> !spec_is_tail_mark(#[trigger] word@[j]),
                decreases word.len() - end,
            {
                end += 1;
            }
            proof {
                lemma_bare_is(word@, end as int);
            }
            let address = part(word, 0, end);
            parse_ipv6(&address)
        },
    }
}

/// Reads the global IPv6 addresses of the host from what the interface utility
/// printed.
///
/// A line counts where one of its words is `secured` or `global` and the word
/// after its first `inet6` is an IPv6 address, with or without a zone after `%`
/// or a length after `/`. Lines that do not count, or whose address cannot be
/// read, are passed over. Of the addresses read, those stay that are neither
/// link-local nor unique-local and, where prefixes are configured, lie in one of
/// them. They come in the order of their lines.
pub fn discover_global_addresses(output: &str, allowed: &Option<Vec<Ipv6Prefix>>) -> (r: Vec<Ipv6>)
    ensures
        r@ == spec_global_addresses(output@, allowed_view(*allowed)),
{
    let chars = chars_of(output);
    let lines = split(&chars, '\n');
    let ghost all = pieces(output@, '\n');
    let ghost allowed_seq = allowed_view(*allowed);
    let mut out: Vec<Ipv6> = Vec::new();
    let mut i: usize = 0;
    assert(all.take(0) =~= Seq::<Seq<char>>::empty());
    while i < lines.len()
        invariant
            i <= lines.len(),
            all == texts(lines@),
            allowed_seq == allowed_view(*allowed),
            out@ == lines_candidates(all.take(i as int), allowed_seq),
        decreases lines.len() - i,
    {
        assert(all[i as int] == lines@[i as int]@);
        proof {
            assert(all.take(i + 1).drop_last() =~= all.take(i as int));
            assert(all.take(i + 1).last() == all[i as int]);
        }
        match read_line(&lines[i]) {
            Some(a) => {
                if admitted(a, allowed) {
                    out.push(a);
                }
            },
            None => {},
        }
        i += 1;
    }
    assert(all.take(i as int) =~= all);
    out
}

/// The IPv4 addresses of a list as addresses, in the order of the list.
pub open spec fn as_addresses(list: Seq<Ipv4>) -> Seq<Address> {
    list.map_values(|a: Ipv4| Address::V4(a))
}

/// The IPv6 addresses of a list as addresses, in the order of the list.
pub open spec fn as_global_addresses(list: Seq<Ipv6>) -> Seq<Address> {
    list.map_values(|a: Ipv6| Address::V6(a))
}

/// The addresses that the default interface gives: its IPv4 addresses, then the
/// global IPv6 addresses that the utility's report holds, where there is a report.
pub open spec fn spec_local_addresses(
    found: Option<InterfaceView>,
    report: Option<Seq<char>>,
    allowed: Option<Seq<Ipv6Prefix>>,
) -> Result<Seq<Address>, DiscoveryError> {
    match found {
        None => Err(DiscoveryError::NoDefaultInterface),
        Some(i) => Ok(
            as_addresses(i.ipv4) + match report {
                Some(output) => as_global_addresses(spec_global_addresses(output, allowed)),
                None => Seq::<Address>::empty(),
            },
        ),
    }
}

/// The addresses of a list or the error in their place.
pub open spec fn addresses_view(r: Result<Vec<Address>, DiscoveryError>) -> Result<
    Seq<Address>,
    DiscoveryError,
> {
    match r {
        Ok(list) => Ok(list@),
        Err(e) => Err(e),
    }
}

/// The addresses of the host that the default interface gives.
///
/// `found` is the default interface, where the operating system names one;
/// `report` is what the interface utility printed about it, where the utility
/// could be run. Without a default interface the result is `NoDefaultInterface`.
/// Else it holds every IPv4 address of the interface, then the IPv6 addresses
/// that [`discover_global_addresses`] reads from the report.
pub fn discover_local_addresses(
    found: Option<&Interface>,
    report: Option<&str>,
    allowed: &Option<Vec<Ipv6Prefix>>,
) -> (r: Result<Vec<Address>, DiscoveryError>)
    ensures
        addresses_view(r) == spec_local_addresses(
            found_view(found),
            report_view(report),
            allowed_view(*allowed),
        ),
{
    match found {
        None => Err(DiscoveryError::NoDefaultInterface),
        Some(interface) => {
            let mut out: Vec<Address> = Vec::new();
            let mut i: usize = 0;
            while i < interface.ipv4.len()
                invariant
                    i <= interface.ipv4.len(),
                    out@ == as_addresses(interface.ipv4@.take(i as int)),
                decreases interface.ipv4.len() - i,
            {
                out.push(Address::V4(interface.ipv4[i]));
                assert(out@ =~= as_addresses(interface.ipv4@.take(i + 1)));
                i += 1;
            }
            assert(interface.ipv4@.take(i as int) =~= interface.ipv4@);
            match report {
                None => {
                    assert(out@ =~= as_addresses(interface.ipv4@) + Seq::<Address>::empty());
                },
                Some(output) => {
                    let global = discover_global_addresses(output, allowed);
                    let ghost front = out@;
                    let mut k: usize = 0;
                    while k < global.len()
                        invariant
                            k <= global.len(),
                            out@ == front + as_global_addresses(global@.take(k as int)),
                        decreases global.len() - k,
                    {
                        out.push(Address::V6(global[k]));
                        assert(out@ =~= front + as_global_addresses(global@.take(k + 1)));
                        k += 1;
                    }
                    assert(global@.take(k as int) =~= global@);
                },
            }
            Ok(out)
        },
    }
}

/// Every IPv6 address that is read from a report may be published: none of them
/// is link-local or unique-local, and where prefixes are configured each lies in
/// one of them. Each is the address of a line of the report.
pub proof fn law_global_addresses_are_admitted(
    output: Seq<char>,
    allowed: Option<Seq<Ipv6Prefix>>,
    i: int,
)
    requires
        0 <= i < spec_global_addresses(output, allowed).len(),
    ensures
        spec_admitted(spec_global_addresses(output, allowed)[i], allowed),
        !spec_global_addresses(output, allowed)[i].spec_is_link_local(),
        !spec_global_addresses(output, allowed)[i].spec_is_unique_local(),
        allowed matches Some(list) ==> spec_any_contains(
            list,
            spec_global_addresses(output, allowed)[i],
        ),
        exists|k: int|
            0 <= k < pieces(output, '\n').len() && line_address(
                #[trigger] pieces(output, '\n')[k],
            ) == Some(spec_global_addresses(output, allowed)[i]),
{
    lemma_candidates_come_from_lines(pieces(output, '\n'), allowed, i);
}

/// Every candidate of a list of lines is the admitted address of one of the lines.
pub proof fn lemma_candidates_come_from_lines(
    lines: Seq<Seq<char>>,
    allowed: Option<Seq<Ipv6Prefix>>,
    i: int,
)
    requires
        0 <= i < lines_candidates(lines, allowed).len(),
    ensures
        spec_admitted(lines_candidates(lines, allowed)[i], allowed),
        exists|k: int|
            0 <= k < lines.len() && line_address(#[trigger] lines[k]) == Some(
                lines_candidates(lines, allowed)[i],
            ),
    decreases lines.len(),
{
    let front = lines_candidates(lines.drop_last(), allowed);
    if i < front.len() {
        lemma_candidates_come_from_lines(lines.drop_last(), allowed, i);
        let k = choose|k: int|
            0 <= k < lines.drop_last().len() && line_address(#[trigger] lines.drop_last()[k])
                == Some(front[i]);
        assert(lines[k] == lines.drop_last()[k]);
    } else {
        assert(line_address(lines[lines.len() - 1]) == Some(lines_candidates(lines, allowed)[i]));
    }
}

/// A line whose address may not be published contributes nothing: the addresses
/// read from a report are those read from the report without that line.
pub proof fn law_unadmitted_line_adds_nothing(
    before: Seq<Seq<char>>,
    line: Seq<char>,
    allowed: Option<Seq<Ipv6Prefix>>,
)
    requires
        line_address(line) matches Some(a) ==> !spec_admitted(a, allowed),
    ensures
        lines_candidates(before.push(line), allowed) == lines_candidates(before, allowed),
{
    assert(before.push(line).drop_last() =~= before);
}

/// A line whose address may be published contributes it, after what the lines
/// before it contribute.
pub proof fn law_admitted_line_adds_its_address(
    before: Seq<Seq<char>>,
    line: Seq<char>,
    allowed: Option<Seq<Ipv6Prefix>>,
    a: Ipv6,
)
    requires
        line_address(line) == Some(a),
        spec_admitted(a, allowed),
    ensures
        lines_candidates(before.push(line), allowed) == lines_candidates(before, allowed).push(a),
{
    assert(before.push(line).drop_last() =~= before);
}

/// A line that is made of words with single spaces between them, with `inet6`
/// as one of them, an address word after the first `inet6` and `secured` or
/// `global` somewhere, is read as the address that the address word holds before
/// its first `%` or `/`.
pub proof fn law_flagged_line_is_read(
    front: Seq<Seq<char>>,
    address: Seq<char>,
    back: Seq<Seq<char>>,
)
    requires
        forall|i: int| 0 <= i < front.len() ==> is_word(#[trigger] front[i]) && front[i] != marker(),
        is_word(address),
        forall|i: int| 0 <= i < back.len() ==> is_word(#[trigger] back[i]),
        has_scope_flag(front + seq![marker(), address] + back),
    ensures
        line_address(joined(front + seq![marker(), address] + back, ' ')) == ipv6_of(bare(address)),
{
    let ws = front + seq![marker(), address] + back;
    let n = front.len() as int;
    reveal_strlit("inet6");
    assert(is_word(marker())) by {
        assert(marker().len() == 5);
        assert forall|k: int| 0 <= k < 5 implies !spec_is_space(#[trigger] marker()[k]) by {}
    }
    assert forall|i: int| 0 <= i < ws.len() implies is_word(#[trigger] ws[i]) by {
        if i < n {
            assert(ws[i] == front[i]);
        } else if i >= n + 2 {
            assert(ws[i] == back[i - n - 2]);
        }
    }
    law_join_words(ws);
    assert(ws[n] == marker());
    assert forall|j: int| 0 <= j < n implies #[trigger] ws[j] != marker() by {
        assert(ws[j] == front[j]);
    }
    lemma_address_word_is(ws, n);
    assert(ws[n + 1] == address);
}

/// A line without `secured` and `global` among its words is not read.
pub proof fn law_unflagged_line_is_passed_over(line: Seq<char>)
    requires
        !has_scope_flag(words(line)),
    ensures
        line_address(line) is None,
{
}

} // verus!
