//! Header lists and header maps.

use vstd::prelude::*;

use crate::json::{
    json_member, json_member_text, json_object, json_object_text, json_quoted, json_string,
    objects_tell_their_members, tells,
};
use crate::state::Headers;
use crate::text::{lowered, same_text, texts, to_chars, to_lower};

verus! {

/// Header names and values as scalar sequences.
pub type HeaderView = Seq<(Seq<char>, Seq<char>)>;

/// The names and values of a header list as scalar sequences.
pub open spec fn pairs(h: Seq<(String, String)>) -> HeaderView {
    Seq::new(h.len(), |i: int| (h[i].0@, h[i].1@))
}

/// The names and values of an optional header list.
pub open spec fn opt_pairs(h: Option<Headers>) -> Option<HeaderView> {
    match h {
        Some(v) => Some(pairs(v@)),
        None => None,
    }
}

/// `a` comes before `b` in the order of their scalars.
pub open spec fn text_before(a: Seq<char>, b: Seq<char>) -> bool
    decreases a.len(),
{
    if b.len() == 0 {
        false
    } else if a.len() == 0 {
        true
    } else if a[0] != b[0] {
        (a[0] as u32) < (b[0] as u32)
    } else {
        text_before(a.skip(1), b.skip(1))
    }
}

/// Whether `a` comes before `b` in the order of their scalars.
pub fn comes_before(a: &str, b: &str) -> (r: bool)
    ensures
        r == text_before(a@, b@),
{
    let x: Vec<char> = to_chars(a);
    let y: Vec<char> = to_chars(b);
    let mut i: usize = 0;
    assert(a@.skip(0) =~= a@);
    assert(b@.skip(0) =~= b@);
    loop
        invariant
            x@ == a@,
            y@ == b@,
            i <= x@.len(),
            i <= y@.len(),
            text_before(a@, b@) == text_before(a@.skip(i as int), b@.skip(i as int)),
        decreases x@.len() - i,
    {
        if i >= y.len() {
            return false;
        }
        if i >= x.len() {
            return true;
        }
        if x[i] != y[i] {
            return (x[i] as u32) < (y[i] as u32);
        }
        assert(a@.skip(i as int).skip(1) =~= a@.skip(i + 1));
        assert(b@.skip(i as int).skip(1) =~= b@.skip(i + 1));
        i = i + 1;
    }
}

/// The map `m`, which is in the order of its names, with `value` under `name`.
pub open spec fn put(m: HeaderView, name: Seq<char>, value: Seq<char>) -> HeaderView
    decreases m.len(),
{
    if m.len() == 0 {
        seq![(name, value)]
    } else if m[0].0 == name {
        seq![(name, value)] + m.skip(1)
    } else if text_before(name, m[0].0) {
        seq![(name, value)] + m
    } else {
        seq![m[0]] + put(m.skip(1), name, value)
    }
}

/// The value under the first `name`.
pub open spec fn lookup(m: HeaderView, name: Seq<char>) -> Option<Seq<char>>
    decreases m.len(),
{
    if m.len() == 0 {
        None
    } else if m[0].0 == name {
        Some(m[0].1)
    } else {
        lookup(m.skip(1), name)
    }
}

/// The map of a header list: the last value under each name, in the order of
/// the names.
pub open spec fn mapped(h: HeaderView) -> HeaderView
    decreases h.len(),
{
    if h.len() == 0 {
        Seq::empty()
    } else {
        put(mapped(h.drop_last()), h.last().0, h.last().1)
    }
}

/// The value last given to `name` in a header list.
pub open spec fn last_value(h: HeaderView, name: Seq<char>) -> Option<Seq<char>>
    decreases h.len(),
{
    if h.len() == 0 {
        None
    } else if h.last().0 == name {
        Some(h.last().1)
    } else {
        last_value(h.drop_last(), name)
    }
}

/// Puts `value` under `name` into a map that is in the order of its names.
pub fn put_header(m: &mut Headers, name: &str, value: &str)
    ensures
        pairs(final(m)@) == put(pairs(old(m)@), name@, value@),
{
    let ghost before: HeaderView = pairs(m@);
    let mut i: usize = 0;
    assert(before.skip(0) =~= before);
    assert(before.take(0) + put(before, name@, value@) =~= put(before, name@, value@));
    while i < m.len() && !same_text(m[i].0.as_str(), name) && !comes_before(
        name,
        m[i].0.as_str(),
    )
        invariant
            i <= m@.len(),
            *m == *old(m),
            before == pairs(m@),
            before.take(i as int) + put(before.skip(i as int), name@, value@) == put(
                before,
                name@,
                value@,
            ),
        decreases m@.len() - i,
    {
        assert(before.skip(i as int)[0] == before[i as int]);
        assert(before.skip(i as int).skip(1) =~= before.skip(i + 1));
        assert(before.take(i as int) + (seq![before[i as int]] + put(
            before.skip(i + 1),
            name@,
            value@,
        )) =~= before.take(i + 1) + put(before.skip(i + 1), name@, value@));
        i = i + 1;
    }
    let ghost rest: HeaderView = before.skip(i as int);
    if i < m.len() && same_text(m[i].0.as_str(), name) {
        assert(rest[0] == before[i as int]);
        m.remove(i);
        m.insert(i, (name.to_owned(), value.to_owned()));
        assert(pairs(m@) =~= before.take(i as int) + (seq![(name@, value@)] + rest.skip(1)));
    } else {
        if i < m.len() {
            assert(rest[0] == before[i as int]);
        }
        m.insert(i, (name.to_owned(), value.to_owned()));
        assert(pairs(m@) =~= before.take(i as int) + (seq![(name@, value@)] + rest));
        assert(rest.len() == 0 ==> seq![(name@, value@)] + rest =~= seq![(name@, value@)]);
    }
}

/// The map of a header list.
pub fn map_headers(h: &Headers) -> (r: Headers)
    ensures
        pairs(r@) == mapped(pairs(h@)),
{
    let mut r: Headers = Vec::new();
    let mut i: usize = 0;
    assert(pairs(r@) =~= Seq::<(Seq<char>, Seq<char>)>::empty());
    assert(pairs(h@).take(0) =~= Seq::<(Seq<char>, Seq<char>)>::empty());
    while i < h.len()
        invariant
            i <= h@.len(),
            pairs(r@) == mapped(pairs(h@).take(i as int)),
        decreases h@.len() - i,
    {
        assert(pairs(h@).take(i + 1).drop_last() =~= pairs(h@).take(i as int));
        put_header(&mut r, h[i].0.as_str(), h[i].1.as_str());
        i = i + 1;
    }
    assert(pairs(h@).take(i as int) =~= pairs(h@));
    r
}

/// The value under the first `name`.
pub fn get_header(m: &Headers, name: &str) -> (r: Option<String>)
    ensures
        crate::text::opt_text(r) == lookup(pairs(m@), name@),
{
    let ghost all: HeaderView = pairs(m@);
    let mut i: usize = 0;
    assert(all.skip(0) =~= all);
    while i < m.len()
        invariant
            i <= m@.len(),
            all == pairs(m@),
            lookup(all, name@) == lookup(all.skip(i as int), name@),
        decreases m@.len() - i,
    {
        assert(all.skip(i as int)[0] == all[i as int]);
        assert(all.skip(i as int).skip(1) =~= all.skip(i + 1));
        if same_text(m[i].0.as_str(), name) {
            return Some(m[i].1.as_str().to_owned());
        }
        i = i + 1;
    }
    None
}

/// A copy of a header list.
pub fn copy_headers(h: &Headers) -> (r: Headers)
    ensures
        pairs(r@) == pairs(h@),
{
    let mut r: Headers = Vec::new();
    let mut i: usize = 0;
    while i < h.len()
        invariant
            i <= h@.len(),
            r@.len() == i,
            forall|j: int|
                0 <= j < i ==> (#[trigger] r@[j]).0@ == h@[j].0@ && r@[j].1@ == h@[j].1@,
        decreases h@.len() - i,
    {
        r.push((h[i].0.as_str().to_owned(), h[i].1.as_str().to_owned()));
        i = i + 1;
    }
    assert(pairs(r@) =~= pairs(h@));
    r
}

/// What is put under a name is found there, and nothing else changes.
pub proof fn put_then_lookup(m: HeaderView, name: Seq<char>, value: Seq<char>, other: Seq<char>)
    ensures
        lookup(put(m, name, value), name) == Some(value),
        other != name ==> lookup(put(m, name, value), other) == lookup(m, other),
    decreases m.len(),
{
    reveal_with_fuel(lookup, 2);
    let p: HeaderView = put(m, name, value);
    if m.len() == 0 {
        assert(p.skip(1) =~= Seq::<(Seq<char>, Seq<char>)>::empty());
    } else if m[0].0 == name {
        assert(p.skip(1) =~= m.skip(1));
    } else if text_before(name, m[0].0) {
        assert(p.skip(1) =~= m);
    } else {
        put_then_lookup(m.skip(1), name, value, other);
        assert(p.skip(1) =~= put(m.skip(1), name, value));
    }
}

/// A header map gives back, under every name, the value that the list gave it
/// last.
pub proof fn header_map_keeps_the_last_value(h: HeaderView, name: Seq<char>)
    ensures
        lookup(mapped(h), name) == last_value(h, name),
    decreases h.len(),
{
    if h.len() > 0 {
        header_map_keeps_the_last_value(h.drop_last(), name);
        put_then_lookup(mapped(h.drop_last()), h.last().0, h.last().1, name);
    }
}

/// The members of a header map's JSON object.
pub open spec fn header_members(m: HeaderView) -> Seq<Seq<char>> {
    Seq::new(m.len(), |i: int| json_member_text(m[i].0, json_quoted(m[i].1)))
}

/// The JSON object of a header map.
pub open spec fn headers_text(m: HeaderView) -> Seq<char> {
    json_object_text(header_members(m))
}

/// The JSON object of a header map.
pub fn write_headers(m: &Headers) -> (r: String)
    ensures
        r@ == headers_text(pairs(m@)),
{
    let mut items: Vec<String> = Vec::new();
    let mut i: usize = 0;
    while i < m.len()
        invariant
            i <= m@.len(),
            items@.len() == i,
            forall|j: int|
                0 <= j < i ==> (#[trigger] items@[j])@ == json_member_text(
                    m@[j].0@,
                    json_quoted(m@[j].1@),
                ),
        decreases m@.len() - i,
    {
        let value: String = json_string(m[i].1.as_str());
        items.push(json_member(m[i].0.as_str(), value.as_str()));
        i = i + 1;
    }
    assert(texts(items@) =~= header_members(pairs(m@)));
    json_object(&items)
}

/// What `serde_json::from_str` makes of a JSON object of strings, as a map in
/// the order of its names; nothing where the text is no such object.
pub uninterp spec fn string_map(json: Seq<char>) -> Option<Seq<(Seq<char>, Seq<char>)>>;

/// `serde_json::from_str` into a map from strings to strings.
#[verifier::external_body]
fn parse_string_map(json: &str) -> (r: Option<Headers>)
    ensures
        opt_pairs(r) == string_map(json@),
{
    let map: std::collections::BTreeMap<String, String> = serde_json::from_str(json).ok()?;
    Some(map.into_iter().collect())
}

/// The headers that a JSON text gives; none where it is no object of strings.
pub open spec fn parsed_headers(json: Seq<char>) -> HeaderView {
    match string_map(json) {
        Some(h) => h,
        None => Seq::empty(),
    }
}

/// The headers that a JSON text gives.
pub fn parse_headers(json: &str) -> (r: Headers)
    ensures
        pairs(r@) == parsed_headers(json@),
{
    match parse_string_map(json) {
        Some(h) => h,
        None => {
            let none: Headers = Vec::new();
            assert(pairs(none@) =~= Seq::<(Seq<char>, Seq<char>)>::empty());
            none
        },
    }
}

/// The lowercase form that `str::to_lowercase` gives a text.
pub uninterp spec fn unicode_lowered(s: Seq<char>) -> Seq<char>;

/// All scalars of `s` are ASCII.
pub open spec fn is_ascii_text(s: Seq<char>) -> bool {
    forall|i: int| 0 <= i < s.len() ==> (#[trigger] s[i] as u32) < 0x80
}

/// `str::to_lowercase`; on ASCII text it lowers the capitals and nothing else.
#[verifier::external_body]
pub(crate) fn lower_unicode(s: &str) -> (r: String)
    ensures
        r@ == unicode_lowered(s@),
        is_ascii_text(s@) ==> r@ == lowered(s@),
{
    s.to_lowercase()
}

/// A list with every name in lower case, put into a map that starts out with
/// `m`: later values replace earlier ones.
pub open spec fn lowered_into(m: HeaderView, h: HeaderView) -> HeaderView
    decreases h.len(),
{
    if h.len() == 0 {
        m
    } else {
        put(lowered_into(m, h.drop_last()), unicode_lowered(h.last().0), h.last().1)
    }
}

/// Puts a list, every name in lower case, into a map.
pub fn put_lowered(m: &mut Headers, h: &Headers)
    ensures
        pairs(final(m)@) == lowered_into(pairs(old(m)@), pairs(h@)),
{
    let mut i: usize = 0;
    assert(pairs(h@).take(0) =~= Seq::<(Seq<char>, Seq<char>)>::empty());
    while i < h.len()
        invariant
            i <= h@.len(),
            pairs(m@) == lowered_into(pairs(old(m)@), pairs(h@).take(i as int)),
        decreases h@.len() - i,
    {
        assert(pairs(h@).take(i + 1).drop_last() =~= pairs(h@).take(i as int));
        let name: String = lower_unicode(h[i].0.as_str());
        put_header(m, name.as_str(), h[i].1.as_str());
        i = i + 1;
    }
    assert(pairs(h@).take(i as int) =~= pairs(h@));
}

/// The names of a header list.
pub open spec fn names_of(h: HeaderView) -> Seq<Seq<char>> {
    Seq::new(h.len(), |i: int| h[i].0)
}

/// The names of a header list.
pub fn header_names(h: &Headers) -> (r: Vec<String>)
    ensures
        texts(r@) == names_of(pairs(h@)),
{
    let mut r: Vec<String> = Vec::new();
    let mut i: usize = 0;
    while i < h.len()
        invariant
            i <= h@.len(),
            r@.len() == i,
            forall|j: int| 0 <= j < i ==> (#[trigger] r@[j])@ == h@[j].0@,
        decreases h@.len() - i,
    {
        r.push(h[i].0.as_str().to_owned());
        i = i + 1;
    }
    assert(texts(r@) =~= names_of(pairs(h@)));
    r
}

/// One of the headers has this name, whatever the case of its ASCII letters.
pub open spec fn names_header(h: HeaderView, name: Seq<char>) -> bool {
    exists|i: int| 0 <= i < h.len() && lowered((#[trigger] h[i]).0) == lowered(name)
}

/// Whether one of the headers has this name, whatever the case of its ASCII
/// letters.
pub fn has_header(h: &Headers, name: &str) -> (r: bool)
    ensures
        r == names_header(pairs(h@), name@),
{
    let wanted: String = to_lower(name);
    let mut i: usize = 0;
    while i < h.len()
        invariant
            i <= h@.len(),
            wanted@ == lowered(name@),
            forall|j: int| 0 <= j < i ==> lowered((#[trigger] pairs(h@)[j]).0) != lowered(name@),
        decreases h@.len() - i,
    {
        let given: String = to_lower(h[i].0.as_str());
        assert(pairs(h@)[i as int].0 == h@[i as int].0@);
        if same_text(given.as_str(), wanted.as_str()) {
            return true;
        }
        i = i + 1;
    }
    false
}

/// The object of a header map tells the value of each name, and nothing else.
pub proof fn header_maps_tell_each_header(m: HeaderView, i: int)
    requires
        0 <= i < m.len(),
    ensures
        tells(headers_text(m), m[i].0, json_quoted(m[i].1)),
        header_members(m).len() == m.len(),
{
    objects_tell_their_members(header_members(m), i, m[i].0, json_quoted(m[i].1));
}

/// The headers of a JSON text are those that it holds; a text that holds none
/// gives none.
pub proof fn given_headers_are_read(json: Seq<char>, h: HeaderView)
    ensures
        string_map(json) == Some(h) ==> parsed_headers(json) == h,
        string_map(json) is None ==> parsed_headers(json).len() == 0,
{
}

} // verus!
