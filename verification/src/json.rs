//! JSON text: quoted strings, numbers, arrays and objects.

use vstd::prelude::*;

use crate::number::{signed_decimal, write_signed};
use crate::text::{join, joined, texts};

verus! {

/// One lowercase hexadecimal digit.
pub open spec fn hex_digit(d: int) -> char {
    if d < 10 {
        (48 + d) as u32 as char
    } else {
        (87 + d) as u32 as char
    }
}

/// What stands for the scalar `c` between the quotes of a JSON string: the
/// two-character escapes, `\u00XX` for the other controls, and every other
/// scalar as it is.
pub open spec fn json_scalar(c: char) -> Seq<char> {
    if c == '"' {
        seq!['\\', '"']
    } else if c == '\\' {
        seq!['\\', '\\']
    } else if c == '\u{8}' {
        seq!['\\', 'b']
    } else if c == '\t' {
        seq!['\\', 't']
    } else if c == '\n' {
        seq!['\\', 'n']
    } else if c == '\u{c}' {
        seq!['\\', 'f']
    } else if c == '\r' {
        seq!['\\', 'r']
    } else if (c as u32) < 0x20 {
        seq!['\\', 'u', '0', '0', hex_digit(c as int / 16), hex_digit(c as int % 16)]
    } else {
        seq![c]
    }
}

/// The scalars of `s`, each as it stands between the quotes of a JSON string.
pub open spec fn json_scalars(s: Seq<char>) -> Seq<char>
    decreases s.len(),
{
    if s.len() == 0 {
        Seq::empty()
    } else {
        json_scalars(s.drop_last()) + json_scalar(s.last())
    }
}

/// `s` as a JSON string, quotes included.
pub open spec fn json_quoted(s: Seq<char>) -> Seq<char> {
    seq!['"'] + json_scalars(s) + seq!['"']
}

proof fn json_scalars_from_the_front(s: Seq<char>)
    requires
        s.len() > 0,
    ensures
        json_scalars(s) == json_scalar(s[0]) + json_scalars(s.skip(1)),
    decreases s.len(),
{
    if s.len() == 1 {
        assert(s.drop_last() =~= Seq::<char>::empty());
        assert(s.skip(1) =~= Seq::<char>::empty());
        assert(json_scalars(s.drop_last()) =~= Seq::<char>::empty());
        assert(json_scalars(s.skip(1)) =~= Seq::<char>::empty());
        assert(json_scalars(s) =~= json_scalar(s[0]));
        assert(json_scalar(s[0]) + Seq::<char>::empty() =~= json_scalar(s[0]));
    } else {
        json_scalars_from_the_front(s.drop_last());
        assert(s.drop_last().skip(1) =~= s.skip(1).drop_last());
        assert(s.skip(1).last() == s.last());
        assert(json_scalar(s[0]) + json_scalars(s.skip(1).drop_last()) + json_scalar(s.last())
            =~= json_scalar(s[0]) + (json_scalars(s.skip(1).drop_last()) + json_scalar(s.last())));
    }
}

proof fn same_escape_same_scalar(a: char, b: char, s: Seq<char>, t: Seq<char>)
    requires
        json_scalar(a) + s == json_scalar(b) + t,
    ensures
        a == b,
        s == t,
{
    let x: Seq<char> = json_scalar(a) + s;
    let y: Seq<char> = json_scalar(b) + t;
    assert(x[0] == json_scalar(a)[0] && y[0] == json_scalar(b)[0]);
    if json_scalar(a).len() > 1 {
        assert(x[1] == json_scalar(a)[1]);
        assert(json_scalar(b).len() > 1);
        assert(y[1] == json_scalar(b)[1]);
        if json_scalar(a).len() > 2 {
            assert(json_scalar(b).len() > 2);
            assert(x[4] == json_scalar(a)[4] && y[4] == json_scalar(b)[4]);
            assert(x[5] == json_scalar(a)[5] && y[5] == json_scalar(b)[5]);
            assert(a as int / 16 < 2 && b as int / 16 < 2);
            assert(hex_digit(a as int / 16) == hex_digit(b as int / 16));
            assert(hex_digit(a as int % 16) == hex_digit(b as int % 16));
        }
    }
    assert(a == b);
    let n: int = json_scalar(a).len() as int;
    assert(s =~= x.skip(n));
    assert(t =~= y.skip(n));
}

proof fn json_scalars_keep_the_text(a: Seq<char>, b: Seq<char>)
    requires
        json_scalars(a) == json_scalars(b),
    ensures
        a == b,
    decreases a.len(),
{
    if a.len() > 0 {
        json_scalars_from_the_front(a);
    }
    if b.len() > 0 {
        json_scalars_from_the_front(b);
    }
    if a.len() > 0 && b.len() > 0 {
        same_escape_same_scalar(a[0], b[0], json_scalars(a.skip(1)), json_scalars(b.skip(1)));
        json_scalars_keep_the_text(a.skip(1), b.skip(1));
        assert(a =~= seq![a[0]] + a.skip(1));
        assert(b =~= seq![b[0]] + b.skip(1));
    } else {
        assert(json_scalars(a).len() == 0);
        assert(a =~= b);
    }
}

/// The JSON form keeps the whole text: two texts with one form are the same.
pub proof fn json_keeps_the_text(a: Seq<char>, b: Seq<char>)
    requires
        json_quoted(a) == json_quoted(b),
    ensures
        a == b,
{
    let n: int = json_quoted(a).len() as int;
    assert(json_scalars(a) =~= json_quoted(a).subrange(1, n - 1));
    assert(json_scalars(b) =~= json_quoted(b).subrange(1, n - 1));
    json_scalars_keep_the_text(a, b);
}

/// `serde_json::to_string` on a string: the string as JSON text. It escapes
/// the quote, the backslash and the controls below U+0020, and nothing else.
#[verifier::external_body]
pub(crate) fn quote(s: &str) -> (r: String)
    ensures
        r@ == json_quoted(s@),
{
    serde_json::to_string(s).unwrap_or_default()
}

/// `s` as a JSON string, quotes included.
pub fn json_string(s: &str) -> (r: String)
    ensures
        r@ == json_quoted(s@),
{
    quote(s)
}

/// A JSON string, or `null` where there is none.
pub open spec fn json_opt_text(s: Option<Seq<char>>) -> Seq<char> {
    match s {
        Some(t) => json_quoted(t),
        None => "null"@,
    }
}

/// A JSON string, or `null` where there is none.
pub fn json_opt(s: &Option<String>) -> (r: String)
    ensures
        r@ == json_opt_text(crate::text::opt_text(*s)),
{
    match s {
        Some(t) => json_string(t.as_str()),
        None => "null".to_owned(),
    }
}

/// The JSON array of values already written as JSON.
pub open spec fn json_array_text(items: Seq<Seq<char>>) -> Seq<char> {
    "["@ + joined(items, ","@) + "]"@
}

/// The JSON array of values already written as JSON.
pub fn json_array(items: &Vec<String>) -> (r: String)
    ensures
        r@ == json_array_text(texts(items@)),
{
    let mut r: String = "[".to_owned();
    let inner: String = join(items, ",");
    r.append(inner.as_str());
    r.append("]");
    r
}

/// The JSON array of the strings `names`.
pub open spec fn json_strings_text(names: Seq<Seq<char>>) -> Seq<char> {
    json_array_text(Seq::new(names.len(), |i: int| json_quoted(names[i])))
}

/// The JSON array of the strings `names`.
pub fn json_strings(names: &Vec<String>) -> (r: String)
    ensures
        r@ == json_strings_text(texts(names@)),
{
    let mut items: Vec<String> = Vec::new();
    let mut i: usize = 0;
    while i < names.len()
        invariant
            i <= names@.len(),
            items@.len() == i,
            forall|j: int| 0 <= j < i ==> (#[trigger] items@[j])@ == json_quoted(names@[j]@),
        decreases names@.len() - i,
    {
        items.push(json_string(names[i].as_str()));
        i = i + 1;
    }
    assert(texts(items@) =~= Seq::new(
        texts(names@).len(),
        |j: int| json_quoted(texts(names@)[j]),
    ));
    json_array(&items)
}

/// The JSON array of the integers `ids`.
pub open spec fn json_ints_text(ids: Seq<int>) -> Seq<char> {
    json_array_text(Seq::new(ids.len(), |i: int| signed_decimal(ids[i])))
}

/// The mathematical integers of a sequence of machine integers.
pub open spec fn ints(v: Seq<i32>) -> Seq<int> {
    Seq::new(v.len(), |i: int| v[i] as int)
}

/// The JSON array of the integers `ids`.
pub fn json_ints(ids: &Vec<i32>) -> (r: String)
    ensures
        r@ == json_ints_text(ints(ids@)),
{
    let mut items: Vec<String> = Vec::new();
    let mut i: usize = 0;
    while i < ids.len()
        invariant
            i <= ids@.len(),
            items@.len() == i,
            forall|j: int| 0 <= j < i ==> (#[trigger] items@[j])@ == signed_decimal(ids@[j] as int),
        decreases ids@.len() - i,
    {
        items.push(write_signed(ids[i] as i64));
        i = i + 1;
    }
    assert(texts(items@) =~= Seq::new(
        ints(ids@).len(),
        |j: int| signed_decimal(ints(ids@)[j]),
    ));
    json_array(&items)
}

/// One member of a JSON object: the quoted key, a colon, and a value already
/// written as JSON.
pub open spec fn json_member_text(key: Seq<char>, value: Seq<char>) -> Seq<char> {
    json_quoted(key) + ":"@ + value
}

/// One member of a JSON object.
pub fn json_member(key: &str, value: &str) -> (r: String)
    ensures
        r@ == json_member_text(key@, value@),
{
    let mut r: String = json_string(key);
    r.append(":");
    r.append(value);
    r
}

/// The JSON object with members already written.
pub open spec fn json_object_text(members: Seq<Seq<char>>) -> Seq<char> {
    "{"@ + joined(members, ","@) + "}"@
}

/// The JSON object with members already written.
pub fn json_object(members: &Vec<String>) -> (r: String)
    ensures
        r@ == json_object_text(texts(members@)),
{
    let mut r: String = "{".to_owned();
    let inner: String = join(members, ",");
    r.append(inner.as_str());
    r.append("}");
    r
}

/// `true` or `false`.
pub open spec fn bool_text(b: bool) -> Seq<char> {
    if b {
        "true"@
    } else {
        "false"@
    }
}

/// `true` or `false`.
pub fn write_bool(b: bool) -> (r: String)
    ensures
        r@ == bool_text(b),
{
    if b {
        "true".to_owned()
    } else {
        "false".to_owned()
    }
}

/// A string stands between quotes, scalar by scalar: quotes, backslashes and
/// the controls are escaped, and every other scalar stands for itself.
pub proof fn strings_are_quoted_scalar_by_scalar(s: Seq<char>, c: char)
    ensures
        json_quoted(Seq::empty()) == seq!['"', '"'],
        json_scalars(s.push(c)) == json_scalars(s) + json_scalar(c),
        c == '"' ==> json_scalar(c) == seq!['\\', '"'],
        c == '\\' ==> json_scalar(c) == seq!['\\', '\\'],
        c == '\n' ==> json_scalar(c) == seq!['\\', 'n'],
        c == '\r' ==> json_scalar(c) == seq!['\\', 'r'],
        c == '\t' ==> json_scalar(c) == seq!['\\', 't'],
        c == '\u{8}' ==> json_scalar(c) == seq!['\\', 'b'],
        c == '\u{c}' ==> json_scalar(c) == seq!['\\', 'f'],
        c == '\0' ==> json_scalar(c) == seq!['\\', 'u', '0', '0', '0', '0'],
        c == '\u{1f}' ==> json_scalar(c) == seq!['\\', 'u', '0', '0', '1', 'f'],
        c as u32 >= 0x20 && c != '"' && c != '\\' ==> json_scalar(c) == seq![c],
        (c as u32) < 0x20 ==> json_scalar(c)[0] == '\\',
{
    assert(s.push(c).drop_last() =~= s);
    assert(json_quoted(Seq::empty()) =~= seq!['"', '"']);
}

/// Arrays and objects hold their items in order, set apart by commas, between
/// brackets and braces; a member is its name as a string, a colon and its
/// value.
pub proof fn items_stand_in_order(items: Seq<Seq<char>>, x: Seq<char>, key: Seq<char>)
    ensures
        json_array_text(seq![x]) == "["@ + x + "]"@,
        json_object_text(seq![x]) == "{"@ + x + "}"@,
        items.len() > 0 ==> json_array_text(items.push(x)) == "["@ + joined(items, ","@) + ","@ + x
            + "]"@,
        items.len() > 0 ==> json_object_text(items.push(x)) == "{"@ + joined(items, ","@) + ","@ + x
            + "}"@,
        json_member_text(key, x) == json_quoted(key) + ":"@ + x,
        bool_text(true) == "true"@,
        bool_text(false) == "false"@,
        json_opt_text(None) == "null"@,
        json_opt_text(Some(x)) == json_quoted(x),
{
    assert(items.push(x).drop_last() =~= items);
    assert("["@ + (joined(items, ","@) + ","@ + x) + "]"@ =~= "["@ + joined(items, ","@) + ","@ + x
        + "]"@);
    assert("{"@ + (joined(items, ","@) + ","@ + x) + "}"@ =~= "{"@ + joined(items, ","@) + ","@ + x
        + "}"@);
}

/// Integers and strings stand in an array one by one, each as it is written
/// alone.
pub proof fn arrays_hold_each_item(ids: Seq<int>, n: int, names: Seq<Seq<char>>, t: Seq<char>)
    ensures
        json_ints_text(seq![n]) == "["@ + signed_decimal(n) + "]"@,
        json_strings_text(seq![t]) == "["@ + json_quoted(t) + "]"@,
        json_ints_text(Seq::empty()) == "["@ + "]"@,
        ids.len() > 0 ==> json_ints_text(ids.push(n)) == json_ints_text(ids).drop_last()
            + ","@ + signed_decimal(n) + "]"@,
        names.len() > 0 ==> json_strings_text(names.push(t)) == json_strings_text(names).drop_last()
            + ","@ + json_quoted(t) + "]"@,
{
    reveal_strlit("]");
    let one: Seq<Seq<char>> = Seq::new(1, |i: int| signed_decimal(seq![n][i]));
    assert(one =~= seq![signed_decimal(n)]);
    let text: Seq<Seq<char>> = Seq::new(1, |i: int| json_quoted(seq![t][i]));
    assert(text =~= seq![json_quoted(t)]);
    assert(json_ints_text(seq![n]) =~= "["@ + signed_decimal(n) + "]"@);
    assert(json_strings_text(seq![t]) =~= "["@ + json_quoted(t) + "]"@);
    let none: Seq<Seq<char>> = Seq::new(0, |i: int| signed_decimal(Seq::<int>::empty()[i]));
    assert(none =~= Seq::<Seq<char>>::empty());
    assert(json_ints_text(Seq::empty()) =~= "["@ + "]"@);
    let a: Seq<Seq<char>> = Seq::new(ids.len(), |i: int| signed_decimal(ids[i]));
    let b: Seq<Seq<char>> = Seq::new(ids.push(n).len(), |i: int| signed_decimal(ids.push(n)[i]));
    assert(b =~= a.push(signed_decimal(n)));
    assert(b.drop_last() =~= a);
    if ids.len() > 0 {
        assert(json_ints_text(ids.push(n)) =~= json_ints_text(ids).drop_last() + ","@
            + signed_decimal(n) + "]"@);
    }
    let c: Seq<Seq<char>> = Seq::new(names.len(), |i: int| json_quoted(names[i]));
    let d: Seq<Seq<char>> = Seq::new(names.push(t).len(), |i: int| json_quoted(names.push(t)[i]));
    assert(d =~= c.push(json_quoted(t)));
    assert(d.drop_last() =~= c);
    if names.len() > 0 {
        assert(json_strings_text(names.push(t)) =~= json_strings_text(names).drop_last() + ","@
            + json_quoted(t) + "]"@);
    }
}

/// The text shows a member: its name as a string, a colon and its value.
pub open spec fn tells(text: Seq<char>, key: Seq<char>, value: Seq<char>) -> bool {
    exists|a: Seq<char>, b: Seq<char>| #[trigger]
        (a + (json_quoted(key) + ":"@ + value) + b) == text
}

proof fn joined_items_are_shown(items: Seq<Seq<char>>, i: int)
    requires
        0 <= i < items.len(),
    ensures
        exists|a: Seq<char>, b: Seq<char>| #[trigger] (a + items[i] + b) == joined(items, ","@),
    decreases items.len(),
{
    let none: Seq<char> = Seq::empty();
    if items.len() == 1 {
        assert(none + items[i] + none =~= joined(items, ","@));
    } else {
        let front: Seq<Seq<char>> = items.drop_last();
        if i < front.len() {
            joined_items_are_shown(front, i);
            let (a, b): (Seq<char>, Seq<char>) = choose|a: Seq<char>, b: Seq<char>| #[trigger]
                (a + front[i] + b) == joined(front, ","@);
            assert(a + items[i] + (b + ","@ + items.last()) =~= joined(items, ","@));
        } else {
            assert((joined(front, ","@) + ","@) + items[i] + none =~= joined(items, ","@));
        }
    }
}

/// An object shows each of its members.
pub proof fn objects_tell_their_members(
    items: Seq<Seq<char>>,
    i: int,
    key: Seq<char>,
    value: Seq<char>,
)
    requires
        0 <= i < items.len(),
        items[i] == json_member_text(key, value),
    ensures
        tells(json_object_text(items), key, value),
{
    joined_items_are_shown(items, i);
    let (a, b): (Seq<char>, Seq<char>) = choose|a: Seq<char>, b: Seq<char>| #[trigger]
        (a + items[i] + b) == joined(items, ","@);
    assert(("{"@ + a) + (json_quoted(key) + ":"@ + value) + (b + "}"@) =~= json_object_text(items));
}

} // verus!
