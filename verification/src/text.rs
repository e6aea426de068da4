//! Text as a sequence of characters, and the few ways the engine takes it apart.

use vstd::prelude::*;

verus! {

/// The texts that a list of character vectors holds, in the order of the list.
pub open spec fn texts(list: Seq<Vec<char>>) -> Seq<Seq<char>> {
    list.map_values(|v: Vec<char>| v@)
}

/// Whether a character is white space: one of the code points that Unicode gives
/// the property White_Space.
pub open spec fn spec_is_space(c: char) -> bool {
    let n = c as u32;
    (0x09 <= n <= 0x0d) || n == 0x20 || n == 0x85 || n == 0xa0 || n == 0x1680 || (0x2000 <= n
        <= 0x200a) || n == 0x2028 || n == 0x2029 || n == 0x202f || n == 0x205f || n == 0x3000
}

/// Whether a character is white space.
#[verifier::when_used_as_spec(spec_is_space)]
pub fn is_space(c: char) -> (r: bool)
    ensures
        r == spec_is_space(c),
{
    let n: u32 = c as u32;
    (0x09 <= n && n <= 0x0d) || n == 0x20 || n == 0x85 || n == 0xa0 || n == 0x1680 || (0x2000 <= n
        && n <= 0x200a) || n == 0x2028 || n == 0x2029 || n == 0x202f || n == 0x205f || n == 0x3000
}

/// The pieces that a text falls into when it is cut at every character that `at`
/// holds of. There is one piece more than there are such characters; a piece may
/// be empty.
pub open spec fn cut(s: Seq<char>, at: spec_fn(char) -> bool) -> Seq<Seq<char>>
    decreases s.len(),
{
    if s.len() == 0 {
        seq![Seq::<char>::empty()]
    } else if at(s.last()) {
        cut(s.drop_last(), at).push(Seq::<char>::empty())
    } else {
        let before = cut(s.drop_last(), at);
        before.drop_last().push(before.last().push(s.last()))
    }
}

/// What holds of the character `sep` alone.
pub open spec fn at_char(sep: char) -> spec_fn(char) -> bool {
    |c: char| c == sep
}

/// What holds of white space.
pub open spec fn at_space() -> spec_fn(char) -> bool {
    |c: char| spec_is_space(c)
}

/// What holds of every text but the empty one.
pub open spec fn not_empty() -> spec_fn(Seq<char>) -> bool {
    |w: Seq<char>| w.len() > 0
}

/// The pieces that a text falls into when it is cut at every `sep`.
pub open spec fn pieces(s: Seq<char>, sep: char) -> Seq<Seq<char>> {
    cut(s, at_char(sep))
}

/// The words of a text: what stands between white space, without the empty pieces.
pub open spec fn words(s: Seq<char>) -> Seq<Seq<char>> {
    cut(s, at_space()).filter(not_empty())
}

/// Whether `at` holds of no character of a text.
pub open spec fn none_at(s: Seq<char>, at: spec_fn(char) -> bool) -> bool {
    forall|k: int| 0 <= k < s.len() ==> !at(#[trigger] s[k])
}

/// Whether a text holds no `sep`.
pub open spec fn free_of(s: Seq<char>, sep: char) -> bool {
    forall|k: int| 0 <= k < s.len() ==> #[trigger] s[k] != sep
}

/// A text falls into one piece at least.
pub proof fn lemma_cut_nonempty(s: Seq<char>, at: spec_fn(char) -> bool)
    ensures
        cut(s, at).len() >= 1,
    decreases s.len(),
{
    if s.len() > 0 {
        lemma_cut_nonempty(s.drop_last(), at);
    }
}

/// A text falls into one piece at least.
pub proof fn lemma_pieces_nonempty(s: Seq<char>, sep: char)
    ensures
        pieces(s, sep).len() >= 1,
{
    lemma_cut_nonempty(s, at_char(sep));
}

/// Cuts a text at every `sep`.
pub fn split(chars: &Vec<char>, sep: char) -> (r: Vec<Vec<char>>)
    ensures
        texts(r@) == pieces(chars@, sep),
{
    let mut done: Vec<Vec<char>> = Vec::new();
    let mut current: Vec<char> = Vec::new();
    let mut i: usize = 0;
    assert(texts(done@).push(current@) =~= pieces(chars@.take(0), sep));
    while i < chars.len()
        invariant
            i <= chars.len(),
            texts(done@).push(current@) == pieces(chars@.take(i as int), sep),
        decreases chars.len() - i,
    {
        let c = chars[i];
        let ghost before = pieces(chars@.take(i as int), sep);
        proof {
            assert(chars@.take(i + 1).drop_last() =~= chars@.take(i as int));
            assert(before.drop_last() =~= texts(done@));
            assert(before.last() == current@);
        }
        if c == sep {
            done.push(current);
            current = Vec::new();
            assert(texts(done@).push(current@) =~= before.push(Seq::<char>::empty()));
        } else {
            current.push(c);
            assert(texts(done@).push(current@) =~= before.drop_last().push(
                before.last().push(c),
            ));
        }
        i += 1;
    }
    assert(chars@.take(i as int) =~= chars@);
    let ghost old_done = done@;
    done.push(current);
    assert(texts(done@) =~= texts(old_done).push(current@));
    done
}

/// The words of a text, in order.
pub fn split_words(chars: &Vec<char>) -> (r: Vec<Vec<char>>)
    ensures
        texts(r@) == words(chars@),
{
    let ghost keep = not_empty();
    let ghost at = at_space();
    let mut done: Vec<Vec<char>> = Vec::new();
    let mut current: Vec<char> = Vec::new();
    let mut i: usize = 0;
    assert(cut(chars@.take(0), at).drop_last() =~= Seq::<Seq<char>>::empty());
    assert(texts(done@) =~= Seq::<Seq<char>>::empty());
    while i < chars.len()
        invariant
            i <= chars.len(),
            keep == not_empty(),
            at == at_space(),
            texts(done@) == cut(chars@.take(i as int), at).drop_last().filter(keep),
            current@ == cut(chars@.take(i as int), at).last(),
        decreases chars.len() - i,
    {
        let c = chars[i];
        let ghost before = cut(chars@.take(i as int), at);
        proof {
            assert(chars@.take(i + 1).drop_last() =~= chars@.take(i as int));
            lemma_cut_nonempty(chars@.take(i as int), at);
        }
        if is_space(c) {
            proof {
                let after = before.push(Seq::<char>::empty());
                assert(after.drop_last() =~= before);
                assert(before =~= before.drop_last().push(before.last()));
                assert(before.drop_last().push(before.last()).drop_last() =~= before.drop_last());
                reveal_with_fuel(Seq::filter, 2);
            }
            if current.len() > 0 {
                let ghost old_done = done@;
                done.push(current);
                assert(texts(done@) =~= texts(old_done).push(current@));
                current = Vec::new();
                assert(texts(done@) == before.filter(keep));
            } else {
                assert(texts(done@) == before.filter(keep));
            }
        } else {
            current.push(c);
            proof {
                let after = before.drop_last().push(before.last().push(c));
                assert(after.drop_last() =~= before.drop_last());
            }
        }
        i += 1;
    }
    proof {
        assert(chars@.take(i as int) =~= chars@);
        let all = cut(chars@, at);
        lemma_cut_nonempty(chars@, at);
        assert(all =~= all.drop_last().push(all.last()));
        assert(all.drop_last().push(all.last()).drop_last() =~= all.drop_last());
        reveal_with_fuel(Seq::filter, 2);
    }
    if current.len() > 0 {
        let ghost old_done = done@;
        done.push(current);
        assert(texts(done@) =~= texts(old_done).push(current@));
    }
    done
}

/// The characters of a string, in order.
pub fn chars_of(s: &str) -> (r: Vec<char>)
    ensures
        r@ == s@,
{
    let mut out: Vec<char> = Vec::new();
    for c in it: s.chars()
        invariant
            out@ == it.seq().take(it.index()),
            it.seq() == s@,
    {
        out.push(c);
    }
    out
}

/// The characters of a text from place `from` up to, not including, place `to`.
pub fn part(chars: &Vec<char>, from: usize, to: usize) -> (r: Vec<char>)
    requires
        from <= to <= chars.len(),
    ensures
        r@ == chars@.subrange(from as int, to as int),
{
    let mut out: Vec<char> = Vec::new();
    let mut i: usize = from;
    while i < to
        invariant
            from <= i <= to <= chars.len(),
            out@ == chars@.subrange(from as int, i as int),
        decreases to - i,
    {
        out.push(chars[i]);
        assert(out@ =~= chars@.subrange(from as int, i + 1));
        i += 1;
    }
    out
}

/// Whether the characters `a` and `b` stand at places `k` and `k + 1` of a text.
pub open spec fn pair_at(s: Seq<char>, a: char, b: char, k: int) -> bool {
    0 <= k && k + 1 < s.len() && s[k] == a && s[k + 1] == b
}

/// Whether `k` is the first place at or after `from` where the pair `a`, `b` stands.
pub open spec fn is_first_pair(s: Seq<char>, a: char, b: char, from: int, k: int) -> bool {
    &&& from <= k
    &&& pair_at(s, a, b, k)
    &&& forall|j: int| from <= j < k ==> !pair_at(s, a, b, j)
}

/// The first place at or after `from` where the pair `a`, `b` stands, if there is one.
pub open spec fn first_pair(s: Seq<char>, a: char, b: char, from: int) -> Option<int> {
    if exists|k: int| is_first_pair(s, a, b, from, k) {
        Some(choose|k: int| is_first_pair(s, a, b, from, k))
    } else {
        None
    }
}

/// The first place of a pair is the only one.
pub proof fn lemma_first_pair_is(s: Seq<char>, a: char, b: char, from: int, k: int)
    requires
        is_first_pair(s, a, b, from, k),
    ensures
        first_pair(s, a, b, from) == Some(k),
{
    let c = choose|c: int| is_first_pair(s, a, b, from, c);
    if c < k {
        assert(!pair_at(s, a, b, c));
    } else if k < c {
        assert(!pair_at(s, a, b, k));
    }
}

/// Finds the first place at or after `from` where the pair `a`, `b` stands.
pub fn find_pair(chars: &Vec<char>, a: char, b: char, from: usize) -> (r: Option<usize>)
    ensures
        match r {
            Some(k) => first_pair(chars@, a, b, from as int) == Some(k as int) && from <= k && k
                + 1 < chars.len(),
            None => first_pair(chars@, a, b, from as int) is None,
        },
{
    let mut i: usize = from;
    while i < chars.len() && i + 1 < chars.len()
        invariant
            from <= i,
            forall|j: int| from <= j < i ==> !pair_at(chars@, a, b, j),
        decreases chars.len() - i,
    {
        if chars[i] == a && chars[i + 1] == b {
            proof {
                lemma_first_pair_is(chars@, a, b, from as int, i as int);
            }
            return Some(i);
        }
        i += 1;
    }
    assert forall|k: int| !is_first_pair(chars@, a, b, from as int, k) by {
        if is_first_pair(chars@, a, b, from as int, k) {
            assert(pair_at(chars@, a, b, k));
            assert(k < i);
        }
    }
    None
}

/// Whether the text from `a` up to `b` is what is left of `s` when the white
/// space at both ends is taken off. Of a text of white space alone the empty end
/// is left.
pub open spec fn is_trim(s: Seq<char>, a: int, b: int) -> bool {
    &&& 0 <= a <= b <= s.len()
    &&& forall|k: int| 0 <= k < a ==> spec_is_space(#[trigger] s[k])
    &&& forall|k: int| b <= k < s.len() ==> spec_is_space(#[trigger] s[k])
    &&& a < b ==> !spec_is_space(s[a]) && !spec_is_space(s[b - 1])
    &&& a == b ==> a == s.len()
}

/// A text without the white space at its two ends.
pub open spec fn trimmed(s: Seq<char>) -> Seq<char> {
    let (a, b) = choose|a: int, b: int| is_trim(s, a, b);
    s.subrange(a, b)
}

/// Only one part of a text is the text trimmed.
pub proof fn lemma_trim_is(s: Seq<char>, a: int, b: int)
    requires
        is_trim(s, a, b),
    ensures
        trimmed(s) == s.subrange(a, b),
{
    let (c, d) = choose|c: int, d: int| is_trim(s, c, d);
    assert(is_trim(s, c, d));
    if a < b {
        assert(!spec_is_space(s[a]));
        assert(!spec_is_space(s[b - 1]));
        if c == d {
            assert(spec_is_space(s[a]));
        } else {
            if c < a {
                assert(spec_is_space(s[c]));
            }
            if a < c {
                assert(spec_is_space(s[a]));
            }
            if d < b {
                assert(spec_is_space(s[b - 1]));
            }
            if b < d {
                assert(spec_is_space(s[d - 1]));
            }
        }
    } else {
        if c < d {
            assert(spec_is_space(s[c]));
        }
    }
}

/// The places between which a text without the white space at its ends stands.
pub fn trim_bounds(chars: &Vec<char>) -> (r: (usize, usize))
    ensures
        is_trim(chars@, r.0 as int, r.1 as int),
{
    let mut a: usize = 0;
    while a < chars.len() && is_space(chars[a])
        invariant
            a <= chars.len(),
            forall|k: int| 0 <= k < a ==> spec_is_space(#[trigger] chars@[k]),
        decreases chars.len() - a,
    {
        a += 1;
    }
    if a == chars.len() {
        return (a, a);
    }
    let mut b: usize = chars.len();
    while b > a + 1 && is_space(chars[b - 1])
        invariant
            a < b <= chars.len(),
            !spec_is_space(chars@[a as int]),
            forall|k: int| b <= k < chars.len() ==> spec_is_space(#[trigger] chars@[k]),
        decreases b,
    {
        b -= 1;
    }
    (a, b)
}

/// Whether two texts are the same.
pub fn same_text(a: &Vec<char>, b: &Vec<char>) -> (r: bool)
    ensures
        r == (a@ == b@),
{
    if a.len() != b.len() {
        return false;
    }
    let mut i: usize = 0;
    while i < a.len()
        invariant
            i <= a.len(),
            a.len() == b.len(),
            forall|k: int| 0 <= k < i ==> a@[k] == b@[k],
        decreases a.len() - i,
    {
        if a[i] != b[i] {
            return false;
        }
        i += 1;
    }
    assert(a@ =~= b@);
    true
}

/// The texts of a list put together with `sep` between them.
pub open spec fn joined(list: Seq<Seq<char>>, sep: char) -> Seq<char>
    decreases list.len(),
{
    if list.len() == 0 {
        Seq::<char>::empty()
    } else if list.len() == 1 {
        list[0]
    } else {
        joined(list.drop_last(), sep).push(sep) + list.last()
    }
}

/// Cutting a text loses nothing: its pieces, put together again with the
/// separator between them, are the text.
pub proof fn law_pieces_join(s: Seq<char>, sep: char)
    ensures
        joined(pieces(s, sep), sep) == s,
    decreases s.len(),
{
    if s.len() == 0 {
        assert(joined(pieces(s, sep), sep) =~= s);
    } else {
        let before = pieces(s.drop_last(), sep);
        law_pieces_join(s.drop_last(), sep);
        lemma_pieces_nonempty(s.drop_last(), sep);
        if s.last() == sep {
            let after = before.push(Seq::<char>::empty());
            assert(after.drop_last() =~= before);
            assert(joined(after, sep) =~= s.drop_last().push(sep));
            assert(s.drop_last().push(sep) =~= s);
        } else {
            let after = before.drop_last().push(before.last().push(s.last()));
            assert(after.drop_last() =~= before.drop_last());
            if before.len() == 1 {
                assert(joined(after, sep) =~= s.drop_last().push(s.last()));
            } else {
                assert(joined(after, sep) =~= (joined(before.drop_last(), sep).push(sep)
                    + before.last()).push(s.last()));
            }
            assert(s.drop_last().push(s.last()) =~= s);
        }
    }
}

/// No piece of a text holds a character at which the text was cut.
pub proof fn lemma_cut_holds_none(s: Seq<char>, at: spec_fn(char) -> bool, i: int)
    requires
        0 <= i < cut(s, at).len(),
    ensures
        none_at(cut(s, at)[i], at),
    decreases s.len(),
{
    if s.len() > 0 {
        let before = cut(s.drop_last(), at);
        lemma_cut_nonempty(s.drop_last(), at);
        if at(s.last()) {
            if i < before.len() {
                lemma_cut_holds_none(s.drop_last(), at, i);
            }
        } else {
            if i < before.len() - 1 {
                lemma_cut_holds_none(s.drop_last(), at, i);
            } else {
                lemma_cut_holds_none(s.drop_last(), at, before.len() - 1);
                let piece = cut(s, at)[i];
                assert forall|k: int| 0 <= k < piece.len() implies !at(#[trigger] piece[k]) by {
                    if k < before.last().len() {
                        assert(piece[k] == before.last()[k]);
                    }
                }
            }
        }
    }
}

/// No piece of a text holds the separator.
pub proof fn law_pieces_hold_no_separator(s: Seq<char>, sep: char, i: int)
    requires
        0 <= i < pieces(s, sep).len(),
    ensures
        free_of(pieces(s, sep)[i], sep),
{
    let at = at_char(sep);
    lemma_cut_holds_none(s, at, i);
    let piece = pieces(s, sep)[i];
    assert forall|k: int| 0 <= k < piece.len() implies #[trigger] piece[k] != sep by {
        assert(!at(piece[k]));
    }
}

/// A word is not empty and holds no white space.
pub proof fn law_words_are_solid(s: Seq<char>, i: int)
    requires
        0 <= i < words(s).len(),
    ensures
        words(s)[i].len() > 0,
        forall|k: int| 0 <= k < words(s)[i].len() ==> !spec_is_space(#[trigger] words(s)[i][k]),
{
    let keep = not_empty();
    let at = at_space();
    let all = cut(s, at);
    all.lemma_filter_pred(keep, i);
    let word = words(s)[i];
    assert(all.filter(keep).contains(word));
    all.lemma_filter_contains_rev(keep, word);
    let j = choose|j: int| 0 <= j < all.len() && all[j] == word;
    lemma_cut_holds_none(s, at, j);
    assert forall|k: int| 0 <= k < word.len() implies !spec_is_space(#[trigger] word[k]) by {
        assert(!at(word[k]));
    }
}

/// Cutting undoes joining: texts that hold no character to cut at, put together
/// with such a character between them, are cut into those texts again.
pub proof fn law_join_cut(list: Seq<Seq<char>>, sep: char, at: spec_fn(char) -> bool)
    requires
        list.len() >= 1,
        at(sep),
        forall|i: int| 0 <= i < list.len() ==> none_at(#[trigger] list[i], at),
    ensures
        cut(joined(list, sep), at) == list,
    decreases list.len(), list.last().len(),
{
    let last = list.last();
    if last.len() == 0 {
        if list.len() == 1 {
            assert(joined(list, sep) =~= Seq::<char>::empty());
            assert(cut(joined(list, sep), at) =~= list);
        } else {
            let front = list.drop_last();
            assert forall|i: int| 0 <= i < front.len() implies none_at(#[trigger] front[i], at) by {
                assert(front[i] == list[i]);
            }
            law_join_cut(front, sep, at);
            let text = joined(list, sep);
            assert(text =~= joined(front, sep).push(sep));
            assert(text.drop_last() =~= joined(front, sep));
            assert(text.last() == sep);
            assert(last =~= Seq::<char>::empty());
            assert(list =~= front.push(last));
            assert(cut(text, at) =~= list);
        }
    } else {
        let c = last.last();
        let shorter = list.drop_last().push(last.drop_last());
        assert(none_at(list[list.len() - 1], at));
        assert forall|i: int| 0 <= i < shorter.len() implies none_at(#[trigger] shorter[i], at) by {
            if i < list.len() - 1 {
                assert(shorter[i] == list[i]);
            } else {
                assert forall|k: int| 0 <= k < shorter[i].len() implies !at(
                    #[trigger] shorter[i][k],
                ) by {
                    assert(shorter[i][k] == last[k]);
                }
            }
        }
        assert(shorter.last().len() < last.len());
        law_join_cut(shorter, sep, at);
        let text = joined(list, sep);
        assert(shorter.drop_last() =~= list.drop_last());
        assert(text =~= joined(shorter, sep).push(c)) by {
            assert(last =~= last.drop_last().push(c));
            if list.len() > 1 {
                assert(joined(list.drop_last(), sep).push(sep) + last =~= (joined(
                    list.drop_last(),
                    sep,
                ).push(sep) + last.drop_last()).push(c));
            }
        }
        assert(text.drop_last() =~= joined(shorter, sep));
        assert(!at(last[last.len() - 1]));
        assert(cut(text, at) =~= list) by {
            assert(text.last() == c);
            assert(shorter.last() == last.drop_last());
            assert(last.drop_last().push(c) =~= last);
            assert(list =~= list.drop_last().push(last));
            assert(shorter.drop_last().push(shorter.last().push(c)) =~= list);
        }
    }
}

/// Cutting undoes joining: texts that hold no separator, put together with the
/// separator between them, are cut into those texts again.
pub proof fn law_join_pieces(list: Seq<Seq<char>>, sep: char)
    requires
        list.len() >= 1,
        forall|i: int| 0 <= i < list.len() ==> free_of(#[trigger] list[i], sep),
    ensures
        pieces(joined(list, sep), sep) == list,
{
    let at = at_char(sep);
    assert forall|i: int| 0 <= i < list.len() implies none_at(#[trigger] list[i], at) by {
        assert(free_of(list[i], sep));
    }
    law_join_cut(list, sep, at);
}

/// A filter that every text of a list passes keeps the list as it is.
pub proof fn lemma_filter_keeps_all(list: Seq<Seq<char>>, keep: spec_fn(Seq<char>) -> bool)
    requires
        forall|i: int| 0 <= i < list.len() ==> keep(#[trigger] list[i]),
    ensures
        list.filter(keep) == list,
    decreases list.len(),
{
    reveal(Seq::filter);
    if list.len() > 0 {
        let front = list.drop_last();
        assert forall|i: int| 0 <= i < front.len() implies keep(#[trigger] front[i]) by {
            assert(front[i] == list[i]);
        }
        lemma_filter_keeps_all(front, keep);
        assert(keep(list[list.len() - 1]));
        assert(front.push(list.last()) =~= list);
    }
}

/// Whether a text is a word: it is not empty and holds no white space.
pub open spec fn is_word(w: Seq<char>) -> bool {
    w.len() > 0 && none_at(w, at_space())
}

/// Words with single spaces between them are the words of the text they make.
pub proof fn law_join_words(list: Seq<Seq<char>>)
    requires
        list.len() >= 1,
        forall|i: int| 0 <= i < list.len() ==> is_word(#[trigger] list[i]),
    ensures
        words(joined(list, ' ')) == list,
{
    let at = at_space();
    let keep = not_empty();
    assert forall|i: int| 0 <= i < list.len() implies none_at(#[trigger] list[i], at) && keep(
        list[i],
    ) by {
        assert(is_word(list[i]));
    }
    law_join_cut(list, ' ', at);
    lemma_filter_keeps_all(list, keep);
}

/// Whether a text is not empty and holds no `sep`.
pub open spec fn solid(s: Seq<char>, sep: char) -> bool {
    s.len() > 0 && free_of(s, sep)
}

/// Solid texts with single separators between them hold no two separators in a
/// row and do not end with a separator.
pub proof fn lemma_joined_solid_hold_no_double(list: Seq<Seq<char>>, sep: char)
    requires
        list.len() >= 1,
        forall|i: int| 0 <= i < list.len() ==> solid(#[trigger] list[i], sep),
    ensures
        joined(list, sep).len() > 0,
        joined(list, sep).last() != sep,
        forall|k: int| !pair_at(joined(list, sep), sep, sep, k),
    decreases list.len(),
{
    let last = list.last();
    assert(solid(last, sep));
    let text = joined(list, sep);
    if list.len() == 1 {
        assert forall|k: int| !pair_at(text, sep, sep, k) by {
            if 0 <= k && k + 1 < text.len() {
                assert(text[k] != sep);
            }
        }
    } else {
        let front = list.drop_last();
        assert forall|i: int| 0 <= i < front.len() implies solid(#[trigger] front[i], sep) by {
            assert(front[i] == list[i]);
        }
        lemma_joined_solid_hold_no_double(front, sep);
        let before = joined(front, sep);
        let n = before.len() as int;
        assert(text =~= before.push(sep) + last);
        assert(text.last() == last.last());
        assert forall|k: int| !pair_at(text, sep, sep, k) by {
            if 0 <= k && k + 1 < text.len() {
                if k + 1 < n {
                    assert(text[k] == before[k] && text[k + 1] == before[k + 1]);
                    assert(!pair_at(before, sep, sep, k));
                } else if k + 1 == n {
                    assert(text[k] == before.last());
                } else if k == n {
                    assert(text[k + 1] == last[0]);
                } else {
                    assert(text[k] == last[k - n - 1]);
                }
            }
        }
    }
}

/// Texts that hold no `other`, put together with another character between them,
/// hold no `other`.
pub proof fn lemma_joined_free_of(list: Seq<Seq<char>>, sep: char, other: char)
    requires
        sep != other,
        forall|i: int| 0 <= i < list.len() ==> free_of(#[trigger] list[i], other),
    ensures
        free_of(joined(list, sep), other),
    decreases list.len(),
{
    if list.len() == 1 {
        assert(free_of(list[0], other));
    } else if list.len() > 1 {
        let front = list.drop_last();
        assert forall|i: int| 0 <= i < front.len() implies free_of(#[trigger] front[i], other) by {
            assert(front[i] == list[i]);
        }
        lemma_joined_free_of(front, sep, other);
        let before = joined(front, sep);
        let last = list.last();
        assert(free_of(last, other));
        let text = joined(list, sep);
        assert forall|k: int| 0 <= k < text.len() implies #[trigger] text[k] != other by {
            if k < before.len() {
                assert(text[k] == before[k]);
            } else if k > before.len() {
                assert(text[k] == last[k - before.len() - 1]);
            }
        }
    }
}

/// Every text can be trimmed: some part of it is the text without the white
/// space at its ends.
pub proof fn law_every_text_trims(s: Seq<char>) -> (r: (int, int))
    ensures
        is_trim(s, r.0, r.1),
        trimmed(s) == s.subrange(r.0, r.1),
    decreases s.len(),
{
    let n = s.len() as int;
    let r = if n == 0 {
        (0int, 0int)
    } else {
        let front = s.drop_last();
        let (a, b) = law_every_text_trims(front);
        assert forall|k: int| 0 <= k < n - 1 implies #[trigger] s[k] == front[k] by {}
        let spaced = spec_is_space(s.last());
        let r = if a == b {
            if spaced {
                (n, n)
            } else {
                (n - 1, n)
            }
        } else {
            if spaced {
                (a, b)
            } else {
                (a, n)
            }
        };
        assert(is_trim(s, r.0, r.1)) by {
            if a < b {
                assert(s[a] == front[a]);
                assert(s[b - 1] == front[b - 1]);
            }
        }
        r
    };
    lemma_trim_is(s, r.0, r.1);
    r
}

} // verus!
