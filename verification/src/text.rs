//! Text primitives on Unicode scalar sequences: searching, splitting,
//! trimming, ASCII case mapping and decimal numbers.

use vstd::prelude::*;

verus! {

/// `String::push` appends one scalar at the end of the text.
pub assume_specification[ String::push ](s: &mut String, c: char)
    ensures
        final(s)@ == old(s)@.push(c),
;

/// The scalar sequences of a sequence of strings.
pub open spec fn texts(v: Seq<String>) -> Seq<Seq<char>> {
    Seq::new(v.len(), |i: int| v[i]@)
}

/// The scalar sequence of an optional string.
pub open spec fn opt_text(o: Option<String>) -> Option<Seq<char>> {
    match o {
        Some(s) => Some(s@),
        None => None,
    }
}

/// The scalar sequence of an optional string slice.
pub open spec fn opt_str(o: Option<&str>) -> Option<Seq<char>> {
    match o {
        Some(s) => Some(s@),
        None => None,
    }
}

/// The length of a text in UTF-8.
pub open spec fn byte_length(s: Seq<char>) -> nat {
    vstd::utf8::encode_utf8(s).len()
}

/// The length of a text in UTF-8.
pub fn byte_len(s: &str) -> (r: usize)
    ensures
        r == byte_length(s@),
{
    s.as_bytes().len()
}

/// The scalars of `s`, one by one.
pub fn to_chars(s: &str) -> (r: Vec<char>)
    ensures
        r@ == s@,
{
    let mut r: Vec<char> = Vec::new();
    for c in it: s.chars()
        invariant
            it.seq() == s@,
            r@ == it.seq().take(it.index()),
    {
        r.push(c);
        assert(it.seq().take(it.index() + 1) == it.seq().take(it.index()).push(c));
    }
    assert(s@.take(s@.len() as int) == s@);
    r
}

/// The string made of `cs[from..to]`.
pub fn slice_text(cs: &Vec<char>, from: usize, to: usize) -> (r: String)
    requires
        from <= to <= cs@.len(),
    ensures
        r@ == cs@.subrange(from as int, to as int),
{
    let mut r: String = String::new();
    let mut i: usize = from;
    while i < to
        invariant
            from <= i <= to <= cs@.len(),
            r@ == cs@.subrange(from as int, i as int),
        decreases to - i,
    {
        r.push(cs[i]);
        i = i + 1;
        assert(cs@.subrange(from as int, i as int) == cs@.subrange(from as int, i - 1).push(
            cs@[i - 1],
        ));
    }
    r
}

/// Whether two texts are the same.
pub fn same_text(a: &str, b: &str) -> (r: bool)
    ensures
        r == (a@ == b@),
{
    let x: String = a.to_owned();
    let y: String = b.to_owned();
    x == y
}

/// `p` stands in `s` from index `i` on.
pub open spec fn occurs_at(s: Seq<char>, p: Seq<char>, i: int) -> bool {
    &&& 0 <= i
    &&& i + p.len() <= s.len()
    &&& s.subrange(i, i + p.len()) == p
}

/// The least index, from `from` on, at which `p` stands in `s`.
pub open spec fn first_occurrence(s: Seq<char>, p: Seq<char>, from: int) -> Option<int>
    decreases s.len() - from + 1,
{
    if from < 0 || from + p.len() > s.len() {
        None
    } else if occurs_at(s, p, from) {
        Some(from)
    } else {
        first_occurrence(s, p, from + 1)
    }
}

/// `p` stands somewhere in `s`.
pub open spec fn contains_text(s: Seq<char>, p: Seq<char>) -> bool {
    first_occurrence(s, p, 0) is Some
}

/// `first_occurrence` is the least position at which `p` occurs, and is
/// absent only where there is none.
pub proof fn first_occurrence_is_least(s: Seq<char>, p: Seq<char>, from: int)
    requires
        0 <= from,
    ensures
        match first_occurrence(s, p, from) {
            Some(i) => from <= i && occurs_at(s, p, i) && forall|j: int|
                from <= j < i ==> !#[trigger] occurs_at(s, p, j),
            None => forall|j: int| from <= j ==> !#[trigger] occurs_at(s, p, j),
        },
    decreases s.len() - from + 1,
{
    if from + p.len() <= s.len() && !occurs_at(s, p, from) {
        first_occurrence_is_least(s, p, from + 1);
    }
}

/// `s` begins with `p`.
pub open spec fn has_prefix(s: Seq<char>, p: Seq<char>) -> bool {
    occurs_at(s, p, 0)
}

/// `s` ends with `p`.
pub open spec fn has_suffix(s: Seq<char>, p: Seq<char>) -> bool {
    p.len() <= s.len() && s.skip(s.len() - p.len()) == p
}

/// Whether `p` stands in `s` at index `i`.
pub fn matches_at(s: &Vec<char>, p: &Vec<char>, i: usize) -> (r: bool)
    ensures
        r == occurs_at(s@, p@, i as int),
{
    if s.len() < p.len() || i > s.len() - p.len() {
        return false;
    }
    let n: usize = s.len();
    let mut k: usize = 0;
    while k < p.len()
        invariant
            0 <= k <= p@.len(),
            n == s@.len(),
            i + p@.len() <= n,
            forall|j: int| 0 <= j < k ==> s@[i + j] == p@[j],
        decreases p@.len() - k,
    {
        if s[i + k] != p[k] {
            assert(s@.subrange(i as int, i + p@.len())[k as int] != p@[k as int]);
            return false;
        }
        k = k + 1;
    }
    assert(s@.subrange(i as int, i + p@.len()) =~= p@);
    true
}

/// The first position of `p` in `s` at or after `from`.
pub fn find_from(s: &Vec<char>, p: &Vec<char>, from: usize) -> (r: Option<usize>)
    ensures
        match r {
            Some(i) => first_occurrence(s@, p@, from as int) == Some(i as int),
            None => first_occurrence(s@, p@, from as int) is None,
        },
{
    if s.len() < p.len() {
        return None;
    }
    let last: usize = s.len() - p.len();
    let mut i: usize = from;
    while i <= last
        invariant
            last == s@.len() - p@.len(),
            from <= i,
            first_occurrence(s@, p@, from as int) == first_occurrence(s@, p@, i as int),
        decreases last + 1 - i,
    {
        if matches_at(s, p, i) {
            return Some(i);
        }
        if i == last {
            assert(first_occurrence(s@, p@, i + 1) is None);
            return None;
        }
        i = i + 1;
    }
    None
}

/// Whether `p` stands somewhere in `s`.
pub fn contains(s: &str, p: &str) -> (r: bool)
    ensures
        r == contains_text(s@, p@),
{
    let sc: Vec<char> = to_chars(s);
    let pc: Vec<char> = to_chars(p);
    find_from(&sc, &pc, 0).is_some()
}

/// Whether `s` begins with `p`.
pub fn starts_with(s: &str, p: &str) -> (r: bool)
    ensures
        r == has_prefix(s@, p@),
{
    let sc: Vec<char> = to_chars(s);
    let pc: Vec<char> = to_chars(p);
    matches_at(&sc, &pc, 0)
}

/// Whether `s` ends with `p`.
pub fn ends_with(s: &str, p: &str) -> (r: bool)
    ensures
        r == has_suffix(s@, p@),
{
    let sc: Vec<char> = to_chars(s);
    let pc: Vec<char> = to_chars(p);
    if sc.len() < pc.len() {
        return false;
    }
    let at: usize = sc.len() - pc.len();
    assert(s@.subrange(at as int, at + pc@.len()) =~= s@.skip(s@.len() - p@.len()));
    matches_at(&sc, &pc, at)
}

/// `s` without the prefix `p`, where it has it.
pub open spec fn without_prefix(s: Seq<char>, p: Seq<char>) -> Option<Seq<char>> {
    if has_prefix(s, p) {
        Some(s.skip(p.len() as int))
    } else {
        None
    }
}

/// `s` without the prefix `p`, where it has it.
pub fn strip_prefix(s: &str, p: &str) -> (r: Option<String>)
    ensures
        opt_text(r) == without_prefix(s@, p@),
{
    let sc: Vec<char> = to_chars(s);
    let pc: Vec<char> = to_chars(p);
    if matches_at(&sc, &pc, 0) {
        let rest: String = slice_text(&sc, pc.len(), sc.len());
        assert(rest@ =~= s@.skip(p@.len() as int));
        Some(rest)
    } else {
        None
    }
}

/// The least index, from `from` on, that holds `c`.
pub open spec fn char_index(s: Seq<char>, c: char, from: int) -> Option<int>
    decreases s.len() - from,
{
    if from < 0 || from >= s.len() {
        None
    } else if s[from] == c {
        Some(from)
    } else {
        char_index(s, c, from + 1)
    }
}

/// `char_index` is the least index that holds `c`, and is absent only where
/// no index does.
pub proof fn char_index_is_least(s: Seq<char>, c: char, from: int)
    requires
        0 <= from,
    ensures
        match char_index(s, c, from) {
            Some(i) => from <= i < s.len() && s[i] == c && forall|j: int|
                from <= j < i ==> #[trigger] s[j] != c,
            None => forall|j: int| from <= j < s.len() ==> #[trigger] s[j] != c,
        },
    decreases s.len() - from,
{
    if from < s.len() && s[from] != c {
        char_index_is_least(s, c, from + 1);
    }
}

/// The first index of `c` in `s` at or after `from`.
pub fn find_char(s: &Vec<char>, c: char, from: usize) -> (r: Option<usize>)
    ensures
        match r {
            Some(i) => i < s@.len() && char_index(s@, c, from as int) == Some(i as int),
            None => char_index(s@, c, from as int) is None,
        },
{
    let mut i: usize = from;
    while i < s.len()
        invariant
            from <= i,
            char_index(s@, c, from as int) == char_index(s@, c, i as int),
        decreases s@.len() - i,
    {
        if s[i] == c {
            return Some(i);
        }
        i = i + 1;
    }
    None
}

/// The text before and after the first `c`.
pub open spec fn cut_once(s: Seq<char>, c: char) -> Option<(Seq<char>, Seq<char>)> {
    match char_index(s, c, 0) {
        Some(i) => Some((s.take(i), s.skip(i + 1))),
        None => None,
    }
}

/// A text is cut at its first `c`: what stands before it holds none, and what
/// stands behind it is all the rest. A text without one is not cut.
pub proof fn texts_are_cut_at_the_first(before: Seq<char>, c: char, after: Seq<char>)
    requires
        !before.contains(c),
    ensures
        cut_once(before + seq![c] + after, c) == Some((before, after)),
        cut_once(before, c) is None,
{
    let s: Seq<char> = before + seq![c] + after;
    let n: int = before.len() as int;
    char_index_is_least(s, c, 0);
    char_index_is_least(before, c, 0);
    assert(s[n] == c);
    assert forall|j: int| 0 <= j < n implies s[j] != c by {
        assert(before.contains(before[j]));
        assert(s[j] == before[j]);
    }
    assert(char_index(s, c, 0) == Some(n));
    assert(s.take(n) =~= before);
    assert(s.skip(n + 1) =~= after);
    if char_index(before, c, 0) is Some {
        let i: int = char_index(before, c, 0)->0;
        assert(before.contains(before[i]));
    }
}

/// The scalar sequences of an optional pair of strings.
pub open spec fn opt_pair(o: Option<(String, String)>) -> Option<(Seq<char>, Seq<char>)> {
    match o {
        Some(p) => Some((p.0@, p.1@)),
        None => None,
    }
}

/// The text before and after the first `c`, where `s` holds `c`.
pub fn split_once(s: &str, c: char) -> (r: Option<(String, String)>)
    ensures
        opt_pair(r) == cut_once(s@, c),
{
    let sc: Vec<char> = to_chars(s);
    let n: usize = sc.len();
    match find_char(&sc, c, 0) {
        Some(i) => {
            let a: String = slice_text(&sc, 0, i);
            let b: String = slice_text(&sc, i + 1, n);
            assert(a@ =~= s@.take(i as int));
            assert(b@ =~= s@.skip(i + 1));
            Some((a, b))
        },
        None => None,
    }
}

/// The pieces of `s` between the occurrences of `c`.
pub open spec fn split_at_char(s: Seq<char>, c: char) -> Seq<Seq<char>>
    decreases s.len(),
{
    match char_index(s, c, 0) {
        Some(i) => if 0 <= i < s.len() {
            seq![s.take(i)] + split_at_char(s.skip(i + 1), c)
        } else {
            seq![s]
        },
        None => seq![s],
    }
}

proof fn char_index_shift(s: Seq<char>, c: char, from: int, at: int)
    requires
        0 <= from <= at <= s.len(),
    ensures
        char_index(s, c, at) == (match char_index(s.skip(from), c, at - from) {
            Some(i) => Some(i + from),
            None => None,
        }),
    decreases s.len() - at,
{
    if at < s.len() {
        assert(s.skip(from)[at - from] == s[at]);
        if s[at] != c {
            char_index_shift(s, c, from, at + 1);
        }
    }
}

/// The pieces of `s` between the occurrences of `c`.
pub fn split_char(s: &str, c: char) -> (r: Vec<String>)
    ensures
        texts(r@) == split_at_char(s@, c),
{
    let sc: Vec<char> = to_chars(s);
    let n: usize = sc.len();
    let mut r: Vec<String> = Vec::new();
    let mut at: usize = 0;
    assert(s@.skip(0) =~= s@);
    assert(texts(r@) + split_at_char(s@.skip(0), c) =~= split_at_char(s@, c));
    loop
        invariant
            sc@ == s@,
            n == sc@.len(),
            at <= n,
            texts(r@) + split_at_char(s@.skip(at as int), c) == split_at_char(s@, c),
        decreases sc@.len() - at,
    {
        let ghost before: Seq<Seq<char>> = texts(r@);
        let ghost rest: Seq<char> = s@.skip(at as int);
        proof {
            char_index_shift(s@, c, at as int, at as int);
            char_index_is_least(s@, c, at as int);
        }
        match find_char(&sc, c, at) {
            Some(i) => {
                let piece: String = slice_text(&sc, at, i);
                assert(piece@ =~= rest.take(i - at));
                assert(rest.skip(i - at + 1) =~= s@.skip(i + 1));
                r.push(piece);
                assert(texts(r@) =~= before.push(rest.take(i - at)));
                assert(texts(r@) + split_at_char(s@.skip(i + 1), c) =~= before + (seq![
                    rest.take(i - at),
                ] + split_at_char(s@.skip(i + 1), c)));
                at = i + 1;
            },
            None => {
                let piece: String = slice_text(&sc, at, sc.len());
                assert(piece@ =~= rest);
                r.push(piece);
                assert(texts(r@) =~= before + seq![rest]);
                return r;
            },
        }
    }
}

/// The pieces joined with `sep` between neighbours.
pub open spec fn joined(parts: Seq<Seq<char>>, sep: Seq<char>) -> Seq<char>
    decreases parts.len(),
{
    if parts.len() == 0 {
        Seq::empty()
    } else if parts.len() == 1 {
        parts[0]
    } else {
        joined(parts.drop_last(), sep) + sep + parts.last()
    }
}

/// The first piece stands at the front of the joined text.
pub proof fn joined_from_the_front(parts: Seq<Seq<char>>, sep: Seq<char>)
    requires
        parts.len() >= 2,
    ensures
        joined(parts, sep) == parts[0] + sep + joined(parts.drop_first(), sep),
    decreases parts.len(),
{
    reveal_with_fuel(joined, 2);
    if parts.len() == 2 {
        assert(parts.drop_last() =~= seq![parts[0]]);
        assert(parts.drop_first() =~= seq![parts[1]]);
    } else {
        joined_from_the_front(parts.drop_last(), sep);
        assert(parts.drop_last().drop_first() =~= parts.drop_first().drop_last());
        assert(parts.drop_first().last() == parts.last());
        assert(joined(parts, sep) =~= parts[0] + sep + (joined(
            parts.drop_first().drop_last(),
            sep,
        ) + sep + parts.last()));
    }
}

/// The pieces joined with `sep` between neighbours.
pub fn join(parts: &Vec<String>, sep: &str) -> (r: String)
    ensures
        r@ == joined(texts(parts@), sep@),
{
    let mut r: String = String::new();
    let mut i: usize = 0;
    let ghost all: Seq<Seq<char>> = texts(parts@);
    while i < parts.len()
        invariant
            0 <= i <= parts@.len(),
            all == texts(parts@),
            r@ == joined(all.take(i as int), sep@),
        decreases parts@.len() - i,
    {
        let ghost done: Seq<Seq<char>> = all.take(i + 1);
        assert(done.drop_last() =~= all.take(i as int));
        assert(done.last() == parts@[i as int]@);
        if i > 0 {
            r.append(sep);
        }
        r.append(parts[i].as_str());
        if i == 0 {
            assert(r@ =~= done[0]);
        }
        i = i + 1;
    }
    assert(all.take(all.len() as int) =~= all);
    r
}

/// The lower-case form of an ASCII capital; any other scalar is itself.
pub open spec fn lower_char(c: char) -> char {
    if 'A' <= c && c <= 'Z' {
        ((c as u32 + 32) as u32) as char
    } else {
        c
    }
}

/// The capital of an ASCII lower-case letter; any other scalar is itself.
pub open spec fn upper_char(c: char) -> char {
    if 'a' <= c && c <= 'z' {
        ((c as u32 - 32) as u32) as char
    } else {
        c
    }
}

/// Every ASCII capital of `s` lowered.
pub open spec fn lowered(s: Seq<char>) -> Seq<char> {
    Seq::new(s.len(), |i: int| lower_char(s[i]))
}

/// Every ASCII lower-case letter of `s` raised.
pub open spec fn raised(s: Seq<char>) -> Seq<char> {
    Seq::new(s.len(), |i: int| upper_char(s[i]))
}

/// The lower-case form of one scalar.
pub fn to_lower_char(c: char) -> (r: char)
    ensures
        r == lower_char(c),
{
    if 'A' <= c && c <= 'Z' {
        let b: u8 = c as u8;
        (b + 32) as char
    } else {
        c
    }
}

/// The capital of one scalar.
pub fn to_upper_char(c: char) -> (r: char)
    ensures
        r == upper_char(c),
{
    if 'a' <= c && c <= 'z' {
        let b: u8 = c as u8;
        (b - 32) as char
    } else {
        c
    }
}

/// Every ASCII capital of `s` lowered.
pub fn to_lower(s: &str) -> (r: String)
    ensures
        r@ == lowered(s@),
{
    let sc: Vec<char> = to_chars(s);
    let mut r: String = String::new();
    let mut i: usize = 0;
    while i < sc.len()
        invariant
            sc@ == s@,
            0 <= i <= sc@.len(),
            r@ == lowered(s@).take(i as int),
        decreases sc@.len() - i,
    {
        r.push(to_lower_char(sc[i]));
        i = i + 1;
        assert(lowered(s@).take(i as int) =~= lowered(s@).take(i - 1).push(lowered(s@)[i - 1]));
    }
    assert(lowered(s@).take(i as int) =~= lowered(s@));
    r
}

/// Every ASCII lower-case letter of `s` raised.
pub fn to_upper(s: &str) -> (r: String)
    ensures
        r@ == raised(s@),
{
    let sc: Vec<char> = to_chars(s);
    let mut r: String = String::new();
    let mut i: usize = 0;
    while i < sc.len()
        invariant
            sc@ == s@,
            0 <= i <= sc@.len(),
            r@ == raised(s@).take(i as int),
        decreases sc@.len() - i,
    {
        r.push(to_upper_char(sc[i]));
        i = i + 1;
        assert(raised(s@).take(i as int) =~= raised(s@).take(i - 1).push(raised(s@)[i - 1]));
    }
    assert(raised(s@).take(i as int) =~= raised(s@));
    r
}

/// Whether two texts are the same but for the case of ASCII letters.
pub fn same_ignoring_ascii_case(a: &str, b: &str) -> (r: bool)
    ensures
        r == (lowered(a@) == lowered(b@)),
{
    to_lower(a) == to_lower(b)
}

/// The pieces of `s` between the occurrences of the non-empty text `sep`,
/// found from left to right without overlap.
pub open spec fn split_at_text(s: Seq<char>, sep: Seq<char>) -> Seq<Seq<char>>
    decreases s.len(),
{
    match first_occurrence(s, sep, 0) {
        Some(i) => if 0 <= i && sep.len() > 0 && i + sep.len() <= s.len() {
            seq![s.take(i)] + split_at_text(s.skip(i + sep.len()), sep)
        } else {
            seq![s]
        },
        None => seq![s],
    }
}

/// Searching the rest of a text finds what searching the text from there on
/// finds.
pub proof fn first_occurrence_shift(s: Seq<char>, p: Seq<char>, from: int, at: int)
    requires
        0 <= from <= at,
        from <= s.len(),
    ensures
        first_occurrence(s, p, at) == (match first_occurrence(s.skip(from), p, at - from) {
            Some(i) => Some(i + from),
            None => None,
        }),
    decreases s.len() - at + 1,
{
    if at + p.len() <= s.len() {
        assert(s.skip(from).subrange(at - from, at - from + p.len()) =~= s.subrange(
            at,
            at + p.len(),
        ));
        if !occurs_at(s, p, at) {
            first_occurrence_shift(s, p, from, at + 1);
        }
    }
}

/// The pieces of `s` between the occurrences of `sep`.
pub fn split_text(s: &str, sep: &str) -> (r: Vec<String>)
    requires
        sep@.len() > 0,
    ensures
        texts(r@) == split_at_text(s@, sep@),
{
    let sc: Vec<char> = to_chars(s);
    let pc: Vec<char> = to_chars(sep);
    let n: usize = sc.len();
    let mut r: Vec<String> = Vec::new();
    let mut at: usize = 0;
    assert(s@.skip(0) =~= s@);
    assert(texts(r@) + split_at_text(s@.skip(0), sep@) =~= split_at_text(s@, sep@));
    loop
        invariant
            sc@ == s@,
            pc@ == sep@,
            sep@.len() > 0,
            n == sc@.len(),
            at <= n,
            texts(r@) + split_at_text(s@.skip(at as int), sep@) == split_at_text(s@, sep@),
        decreases n - at,
    {
        let ghost before: Seq<Seq<char>> = texts(r@);
        let ghost rest: Seq<char> = s@.skip(at as int);
        proof {
            first_occurrence_shift(s@, sep@, at as int, at as int);
            first_occurrence_is_least(s@, sep@, at as int);
        }
        match find_from(&sc, &pc, at) {
            Some(i) => {
                let piece: String = slice_text(&sc, at, i);
                assert(piece@ =~= rest.take(i - at));
                assert(rest.skip(i - at + sep@.len()) =~= s@.skip(i + sep@.len()));
                r.push(piece);
                assert(texts(r@) =~= before.push(rest.take(i - at)));
                assert(texts(r@) + split_at_text(s@.skip(i + sep@.len()), sep@) =~= before + (seq![
                    rest.take(i - at),
                ] + split_at_text(s@.skip(i + sep@.len()), sep@)));
                at = i + pc.len();
            },
            None => {
                let piece: String = slice_text(&sc, at, sc.len());
                assert(piece@ =~= rest);
                r.push(piece);
                assert(texts(r@) =~= before + seq![rest]);
                return r;
            },
        }
    }
}

/// Every `c` of `s` replaced by `w`.
pub open spec fn replaced(s: Seq<char>, c: char, w: Seq<char>) -> Seq<char>
    decreases s.len(),
{
    if s.len() == 0 {
        Seq::empty()
    } else {
        replaced(s.drop_last(), c, w) + (if s.last() == c {
            w
        } else {
            seq![s.last()]
        })
    }
}

/// Every `c` of `s` replaced by `w`.
pub fn replace_char(s: &str, c: char, w: &str) -> (r: String)
    ensures
        r@ == replaced(s@, c, w@),
{
    let sc: Vec<char> = to_chars(s);
    let mut r: String = String::new();
    let mut i: usize = 0;
    while i < sc.len()
        invariant
            sc@ == s@,
            0 <= i <= sc@.len(),
            r@ == replaced(s@.take(i as int), c, w@),
        decreases sc@.len() - i,
    {
        assert(s@.take(i + 1).drop_last() =~= s@.take(i as int));
        if sc[i] == c {
            r.append(w);
        } else {
            r.push(sc[i]);
            assert(r@ =~= replaced(s@.take(i as int), c, w@) + seq![s@[i as int]]);
        }
        i = i + 1;
    }
    assert(s@.take(i as int) =~= s@);
    r
}

/// The five ASCII white-space scalars: tab, line feed, form feed, carriage
/// return and space.
pub open spec fn is_ascii_space(c: char) -> bool {
    c == '\t' || c == '\n' || c == '\u{c}' || c == '\r' || c == ' '
}

/// Whether `c` is one of the five ASCII white-space scalars.
pub fn ascii_space(c: char) -> (r: bool)
    ensures
        r == is_ascii_space(c),
{
    c == '\t' || c == '\n' || c == '\u{c}' || c == '\r' || c == ' '
}

/// The index of the first scalar, from `from` on, that is ASCII white space
/// (`space`) or is not (`!space`); the length of `s` where there is none.
pub open spec fn run_end(s: Seq<char>, from: int, space: bool) -> int
    decreases s.len() - from,
{
    if from < 0 || from >= s.len() {
        s.len() as int
    } else if is_ascii_space(s[from]) == space {
        from
    } else {
        run_end(s, from + 1, space)
    }
}

/// Where a run ends, and what stands there.
pub proof fn run_end_bounds(s: Seq<char>, from: int, space: bool)
    requires
        0 <= from <= s.len(),
    ensures
        from <= run_end(s, from, space) <= s.len(),
        run_end(s, from, space) < s.len() ==> is_ascii_space(s[run_end(s, from, space)]) == space,
        from < s.len() && is_ascii_space(s[from]) != space ==> from < run_end(s, from, space),
    decreases s.len() - from,
{
    if from < s.len() && is_ascii_space(s[from]) != space {
        run_end_bounds(s, from + 1, space);
    }
}

/// The maximal runs of `s`, from `from` on, without ASCII white space.
pub open spec fn words_from(s: Seq<char>, from: int) -> Seq<Seq<char>>
    decreases s.len() - from,
{
    if from < 0 || from >= s.len() {
        Seq::empty()
    } else {
        let start: int = run_end(s, from, false);
        let end: int = run_end(s, start, true);
        if start >= s.len() || end <= from || end > s.len() {
            Seq::empty()
        } else {
            seq![s.subrange(start, end)] + words_from(s, end)
        }
    }
}

/// The maximal runs of `s` without ASCII white space.
pub open spec fn words(s: Seq<char>) -> Seq<Seq<char>> {
    words_from(s, 0)
}

fn find_run_end(s: &Vec<char>, from: usize, space: bool) -> (r: usize)
    requires
        from <= s@.len(),
    ensures
        r == run_end(s@, from as int, space),
        from <= r <= s@.len(),
{
    let mut i: usize = from;
    while i < s.len()
        invariant
            from <= i <= s@.len(),
            run_end(s@, from as int, space) == run_end(s@, i as int, space),
        decreases s@.len() - i,
    {
        if ascii_space(s[i]) == space {
            return i;
        }
        i = i + 1;
    }
    i
}

/// The maximal runs of `s` without ASCII white space.
pub fn split_words(s: &str) -> (r: Vec<String>)
    ensures
        texts(r@) == words(s@),
{
    let sc: Vec<char> = to_chars(s);
    let mut r: Vec<String> = Vec::new();
    let mut at: usize = 0;
    assert(texts(r@) + words_from(s@, 0) =~= words(s@));
    while at < sc.len()
        invariant
            sc@ == s@,
            at <= sc@.len(),
            texts(r@) + words_from(s@, at as int) == words(s@),
        decreases sc@.len() - at,
    {
        let ghost before: Seq<Seq<char>> = texts(r@);
        let start: usize = find_run_end(&sc, at, false);
        proof {
            run_end_bounds(s@, at as int, false);
        }
        if start >= sc.len() {
            assert(before + words_from(s@, at as int) =~= before);
            return r;
        }
        let end: usize = find_run_end(&sc, start, true);
        proof {
            run_end_bounds(s@, start as int, true);
        }
        let word: String = slice_text(&sc, start, end);
        r.push(word);
        assert(texts(r@) =~= before.push(s@.subrange(start as int, end as int)));
        assert(texts(r@) + words_from(s@, end as int) =~= before + (seq![
            s@.subrange(start as int, end as int),
        ] + words_from(s@, end as int)));
        at = end;
    }
    assert(texts(r@) + words_from(s@, at as int) =~= texts(r@));
    r
}

/// The Unicode `White_Space` scalars.
pub open spec fn is_white_space(c: char) -> bool {
    let v: u32 = c as u32;
    ||| 0x09 <= v <= 0x0d
    ||| v == 0x20
    ||| v == 0x85
    ||| v == 0xa0
    ||| v == 0x1680
    ||| 0x2000 <= v <= 0x200a
    ||| v == 0x2028
    ||| v == 0x2029
    ||| v == 0x202f
    ||| v == 0x205f
    ||| v == 0x3000
}

/// Whether `c` has the Unicode property `White_Space`.
pub fn white_space(c: char) -> (r: bool)
    ensures
        r == is_white_space(c),
{
    let v: u32 = c as u32;
    (0x09 <= v && v <= 0x0d) || v == 0x20 || v == 0x85 || v == 0xa0 || v == 0x1680 || (0x2000 <= v
        && v <= 0x200a) || v == 0x2028 || v == 0x2029 || v == 0x202f || v == 0x205f || v == 0x3000
}

/// `s` without its leading white space.
pub open spec fn trimmed_start(s: Seq<char>) -> Seq<char>
    decreases s.len(),
{
    if s.len() > 0 && is_white_space(s[0]) {
        trimmed_start(s.skip(1))
    } else {
        s
    }
}

/// `s` without its trailing white space and, where `semi`, without the
/// semicolons among it.
pub open spec fn trimmed_end(s: Seq<char>, semi: bool) -> Seq<char>
    decreases s.len(),
{
    if s.len() > 0 && (is_white_space(s.last()) || (semi && s.last() == ';')) {
        trimmed_end(s.drop_last(), semi)
    } else {
        s
    }
}

/// `s` without white space at either end.
pub open spec fn trimmed(s: Seq<char>) -> Seq<char> {
    trimmed_end(trimmed_start(s), false)
}

/// `s` without white space at the start, and without white space and
/// semicolons at the end.
pub open spec fn trimmed_statement(s: Seq<char>) -> Seq<char> {
    trimmed_end(trimmed(s), true)
}

fn trim_start_index(s: &Vec<char>) -> (r: usize)
    ensures
        r <= s@.len(),
        s@.skip(r as int) == trimmed_start(s@),
{
    let mut i: usize = 0;
    assert(s@.skip(0) =~= s@);
    while i < s.len() && white_space(s[i])
        invariant
            i <= s@.len(),
            trimmed_start(s@.skip(i as int)) == trimmed_start(s@),
        decreases s@.len() - i,
    {
        assert(s@.skip(i as int).skip(1) =~= s@.skip(i + 1));
        assert(s@.skip(i as int)[0] == s@[i as int]);
        i = i + 1;
    }
    if i < s.len() {
        assert(s@.skip(i as int)[0] == s@[i as int]);
    }
    i
}

fn trim_end_index(s: &Vec<char>, from: usize, to: usize, semi: bool) -> (r: usize)
    requires
        from <= to <= s@.len(),
    ensures
        from <= r <= to,
        s@.subrange(from as int, r as int) == trimmed_end(
            s@.subrange(from as int, to as int),
            semi,
        ),
{
    let mut i: usize = to;
    while i > from && (white_space(s[i - 1]) || (semi && s[i - 1] == ';'))
        invariant
            from <= i <= to <= s@.len(),
            trimmed_end(s@.subrange(from as int, i as int), semi) == trimmed_end(
                s@.subrange(from as int, to as int),
                semi,
            ),
        decreases i,
    {
        assert(s@.subrange(from as int, i as int).drop_last() =~= s@.subrange(
            from as int,
            i - 1,
        ));
        i = i - 1;
    }
    if i > from {
        assert(s@.subrange(from as int, i as int).last() == s@[i - 1]);
    }
    i
}

/// `s` without white space at either end.
pub fn trim(s: &str) -> (r: String)
    ensures
        r@ == trimmed(s@),
{
    let sc: Vec<char> = to_chars(s);
    let from: usize = trim_start_index(&sc);
    assert(sc@.subrange(from as int, sc@.len() as int) =~= sc@.skip(from as int));
    let to: usize = trim_end_index(&sc, from, sc.len(), false);
    slice_text(&sc, from, to)
}

/// `s` without white space at the start, and without white space and
/// semicolons at the end.
pub fn trim_statement(s: &str) -> (r: String)
    ensures
        r@ == trimmed_statement(s@),
{
    let sc: Vec<char> = to_chars(s);
    let from: usize = trim_start_index(&sc);
    assert(sc@.subrange(from as int, sc@.len() as int) =~= sc@.skip(from as int));
    let mid: usize = trim_end_index(&sc, from, sc.len(), false);
    let to: usize = trim_end_index(&sc, from, mid, true);
    slice_text(&sc, from, to)
}

/// A text begins and ends with what it is put together from, and holds what
/// stands in its midst.
pub proof fn texts_hold_their_parts(a: Seq<char>, m: Seq<char>, b: Seq<char>)
    ensures
        has_prefix(a + b, a),
        has_suffix(a + b, b),
        without_prefix(a + b, a) == Some(b),
        contains_text(a + m + b, m),
{
    let s: Seq<char> = a + b;
    assert(s.subrange(0, a.len() as int) =~= a);
    assert(s.skip(s.len() - b.len()) =~= b);
    assert(s.skip(a.len() as int) =~= b);
    let t: Seq<char> = a + m + b;
    let n: int = a.len() as int;
    assert(t.subrange(n, n + m.len()) =~= m);
    assert(occurs_at(t, m, n));
    first_occurrence_is_least(t, m, 0);
}

/// What a text is found to begin with, end with or hold is a part of it.
pub proof fn found_parts_make_the_text(s: Seq<char>, p: Seq<char>)
    ensures
        has_prefix(s, p) ==> s == p + s.skip(p.len() as int),
        has_suffix(s, p) ==> s == s.take(s.len() - p.len()) + p,
        contains_text(s, p) ==> exists|a: Seq<char>, b: Seq<char>| #[trigger] (a + p + b) == s,
{
    if has_prefix(s, p) {
        assert(s =~= s.subrange(0, p.len() as int) + s.skip(p.len() as int));
    }
    if has_suffix(s, p) {
        assert(s =~= s.take(s.len() - p.len()) + s.skip(s.len() - p.len()));
    }
    if contains_text(s, p) {
        first_occurrence_is_least(s, p, 0);
        let i: int = first_occurrence(s, p, 0)->0;
        let a: Seq<char> = s.take(i);
        let b: Seq<char> = s.skip(i + p.len());
        assert(s =~= a + s.subrange(i, i + p.len()) + b);
        assert(a + p + b == s);
    }
}

/// Only the twenty-six ASCII letters change with their case, each into the one
/// thirty-two places on or back; every other scalar stays.
pub proof fn only_ascii_letters_change_case(s: Seq<char>, i: int)
    requires
        0 <= i < s.len(),
    ensures
        lowered(s).len() == s.len(),
        raised(s).len() == s.len(),
        'A' <= s[i] && s[i] <= 'Z' ==> lowered(s)[i] as u32 == s[i] as u32 + 32,
        !('A' <= s[i] && s[i] <= 'Z') ==> lowered(s)[i] == s[i],
        'a' <= s[i] && s[i] <= 'z' ==> raised(s)[i] as u32 == s[i] as u32 - 32,
        !('a' <= s[i] && s[i] <= 'z') ==> raised(s)[i] == s[i],
        lowered(lowered(s)) == lowered(s),
{
    assert(lowered(lowered(s)) =~= lowered(s));
}

/// Pieces are put together one behind the other, with the separator between
/// each and the next.
pub proof fn pieces_are_joined_in_order(parts: Seq<Seq<char>>, x: Seq<char>, sep: Seq<char>)
    ensures
        joined(Seq::empty(), sep).len() == 0,
        joined(seq![x], sep) == x,
        parts.len() > 0 ==> joined(parts.push(x), sep) == joined(parts, sep) + sep + x,
{
    assert(parts.push(x).drop_last() =~= parts);
}

/// The pieces between the `c`s of a text hold none, and make the text again
/// where they are put together with `c`.
pub proof fn split_pieces_make_the_text(s: Seq<char>, c: char, i: int)
    ensures
        split_at_char(s, c).len() > 0,
        0 <= i < split_at_char(s, c).len() ==> !split_at_char(s, c)[i].contains(c),
        joined(split_at_char(s, c), seq![c]) == s,
    decreases s.len(),
{
    char_index_is_least(s, c, 0);
    match char_index(s, c, 0) {
        Some(k) => {
            let rest: Seq<Seq<char>> = split_at_char(s.skip(k + 1), c);
            let all: Seq<Seq<char>> = split_at_char(s, c);
            split_pieces_make_the_text(s.skip(k + 1), c, i - 1);
            assert(all == seq![s.take(k)] + rest);
            if s.take(k).contains(c) {
                let j: int = choose|j: int| 0 <= j < s.take(k).len() && s.take(k)[j] == c;
                assert(s[j] == c);
            }
            if 0 < i < all.len() {
                assert(all[i] == rest[i - 1]);
            }
            joined_from_the_front(all, seq![c]);
            assert(all.drop_first() =~= rest);
            assert(all[0] == s.take(k));
            assert(s =~= s.take(k) + seq![c] + s.skip(k + 1));
        },
        None => {
            if s.contains(c) {
                let j: int = choose|j: int| 0 <= j < s.len() && s[j] == c;
                assert(s[j] == c);
            }
        },
    }
}

/// Every `c` gives way to `w`, and nothing else changes.
pub proof fn each_scalar_gives_way(s: Seq<char>, c: char, w: Seq<char>, x: char)
    ensures
        replaced(Seq::empty(), c, w).len() == 0,
        replaced(s.push(c), c, w) == replaced(s, c, w) + w,
        x != c ==> replaced(s.push(x), c, w) == replaced(s, c, w).push(x),
{
    assert(s.push(c).drop_last() =~= s);
    assert(s.push(x).drop_last() =~= s);
    assert(replaced(s, c, w) + seq![x] =~= replaced(s, c, w).push(x));
}

proof fn trimmed_start_cuts(s: Seq<char>) -> (n: int)
    ensures
        0 <= n <= s.len(),
        trimmed_start(s) == s.skip(n),
        forall|i: int| 0 <= i < n ==> is_white_space(#[trigger] s[i]),
        n < s.len() ==> !is_white_space(s[n]),
    decreases s.len(),
{
    if s.len() > 0 && is_white_space(s[0]) {
        let m: int = trimmed_start_cuts(s.skip(1));
        assert(s.skip(1).skip(m) =~= s.skip(m + 1));
        assert forall|i: int| 0 <= i < m + 1 implies is_white_space(#[trigger] s[i]) by {
            if i > 0 {
                assert(s.skip(1)[i - 1] == s[i]);
            }
        }
        if m + 1 < s.len() {
            assert(s.skip(1)[m] == s[m + 1]);
        }
        m + 1
    } else {
        assert(s.skip(0) =~= s);
        0
    }
}

proof fn trimmed_end_cuts(s: Seq<char>, semi: bool) -> (n: int)
    ensures
        0 <= n <= s.len(),
        trimmed_end(s, semi) == s.take(n),
        forall|i: int|
            n <= i < s.len() ==> is_white_space(#[trigger] s[i]) || (semi && s[i] == ';'),
        n > 0 ==> !is_white_space(s[n - 1]) && !(semi && s[n - 1] == ';'),
    decreases s.len(),
{
    if s.len() > 0 && (is_white_space(s.last()) || (semi && s.last() == ';')) {
        let t: Seq<char> = s.drop_last();
        let m: int = trimmed_end_cuts(t, semi);
        assert(t.take(m) =~= s.take(m));
        assert forall|i: int| m <= i < s.len() implies is_white_space(#[trigger] s[i]) || (semi
            && s[i] == ';') by {
            if i < t.len() {
                assert(t[i] == s[i]);
            }
        }
        if m > 0 {
            assert(t[m - 1] == s[m - 1]);
        }
        m
    } else {
        assert(s.take(s.len() as int) =~= s);
        s.len() as int
    }
}

/// Trimming takes white space off both ends of a text and nothing else: what is
/// left is a stretch of it that neither begins nor ends with any.
pub proof fn trimming_takes_white_space_alone(s: Seq<char>)
    ensures
        trimmed(s).len() > 0 ==> !is_white_space(trimmed(s)[0]) && !is_white_space(
            trimmed(s).last(),
        ),
        exists|i: int, j: int|
            0 <= i <= j <= s.len() && trimmed(s) == #[trigger] s.subrange(i, j) && (forall|k: int|
                0 <= k < i || j <= k < s.len() ==> is_white_space(#[trigger] s[k])),
{
    let i: int = trimmed_start_cuts(s);
    let t: Seq<char> = s.skip(i);
    let n: int = trimmed_end_cuts(t, false);
    let j: int = i + n;
    assert(t.take(n) =~= s.subrange(i, j));
    assert forall|k: int| 0 <= k < i || j <= k < s.len() implies is_white_space(
        #[trigger] s[k],
    ) by {
        if k >= j {
            assert(t[k - i] == s[k]);
        }
    }
    if n > 0 {
        assert(t[0] == s[i]);
        assert(t.take(n).last() == t[n - 1]);
    }
}

/// A statement is trimmed of the semicolons behind it too: what is left ends
/// with neither white space nor a semicolon, and begins with no white space.
pub proof fn statements_lose_their_semicolons(s: Seq<char>)
    ensures
        trimmed_statement(s).len() > 0 ==> !is_white_space(trimmed_statement(s)[0])
            && !is_white_space(trimmed_statement(s).last()) && trimmed_statement(s).last() != ';',
        exists|n: int|
            0 <= n <= trimmed(s).len() && trimmed_statement(s) == #[trigger] trimmed(s).take(n) && (
            forall|k: int|
                n <= k < trimmed(s).len() ==> is_white_space(#[trigger] trimmed(s)[k]) || trimmed(
                    s,
                )[k] == ';'),
{
    trimming_takes_white_space_alone(s);
    let t: Seq<char> = trimmed(s);
    let n: int = trimmed_end_cuts(t, true);
    assert(trimmed_statement(s) == t.take(n));
}

/// The five scalars that separate words are tab, line feed, form feed, carriage
/// return and space; no letter, digit or mark is one, and what is trimmed off is
/// the white space of Unicode.
pub proof fn white_space_is_what_it_is(c: char)
    ensures
        is_ascii_space('\t') && is_ascii_space('\n') && is_ascii_space('\u{c}') && is_ascii_space(
            '\r',
        ) && is_ascii_space(' '),
        is_ascii_space(c) ==> c as u32 <= 0x20 && is_white_space(c),
        c as u32 > 0x20 ==> !is_ascii_space(c),
        (c as u32) < 9 || c as u32 == 0xb || (0xd < c as u32 && (c as u32) < 0x20)
            ==> !is_ascii_space(c),
        is_white_space(c) <==> {
            let v: u32 = c as u32;
            v == 0x09 || v == 0x0a || v == 0x0b || v == 0x0c || v == 0x0d || v == 0x20 || v == 0x85
                || v == 0xa0 || v == 0x1680 || (v >= 0x2000 && v < 0x200b) || v == 0x2028 || v
                == 0x2029 || v == 0x202f || v == 0x205f || v == 0x3000
        },
{
}

} // verus!
