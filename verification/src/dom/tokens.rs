//! The class list of an element, and its style text.

use vstd::prelude::*;

use crate::text::{
    is_ascii_space, join, joined, joined_from_the_front, opt_str, opt_text, run_end, run_end_bounds,
    same_text, split_words, texts, words, words_from,
};

verus! {

/// The tokens of a class attribute.
pub open spec fn tokens_of(class: Option<Seq<char>>) -> Seq<Seq<char>> {
    match class {
        Some(s) => words(s),
        None => Seq::empty(),
    }
}

/// The class attribute of a list of tokens.
pub open spec fn class_of(tokens: Seq<Seq<char>>) -> Seq<char> {
    joined(tokens, " "@)
}

/// The tokens but for those that are `token`.
pub open spec fn tokens_without(tokens: Seq<Seq<char>>, token: Seq<char>) -> Seq<Seq<char>>
    decreases tokens.len(),
{
    if tokens.len() == 0 {
        Seq::empty()
    } else if tokens.last() == token {
        tokens_without(tokens.drop_last(), token)
    } else {
        tokens_without(tokens.drop_last(), token).push(tokens.last())
    }
}

/// Where `token` stands first among the tokens.
pub open spec fn token_at(tokens: Seq<Seq<char>>, token: Seq<char>, i: int) -> Option<int>
    decreases tokens.len() - i,
{
    if i < 0 || i >= tokens.len() {
        None
    } else if tokens[i] == token {
        Some(i)
    } else {
        token_at(tokens, token, i + 1)
    }
}

/// The tokens of a class attribute.
fn tokens(class: Option<&str>) -> (r: Vec<String>)
    ensures
        texts(r@) == tokens_of(opt_str(class)),
{
    match class {
        Some(s) => split_words(s),
        None => {
            let none: Vec<String> = Vec::new();
            assert(texts(none@) =~= Seq::<Seq<char>>::empty());
            none
        },
    }
}

fn position(tokens: &Vec<String>, token: &str) -> (r: Option<usize>)
    ensures
        match r {
            Some(i) => i < tokens@.len() && token_at(texts(tokens@), token@, 0) == Some(i as int),
            None => token_at(texts(tokens@), token@, 0) is None,
        },
{
    let ghost all = texts(tokens@);
    let mut i: usize = 0;
    while i < tokens.len()
        invariant
            i <= tokens@.len(),
            all == texts(tokens@),
            token_at(all, token@, 0) == token_at(all, token@, i as int),
        decreases tokens@.len() - i,
    {
        if same_text(tokens[i].as_str(), token) {
            return Some(i);
        }
        i = i + 1;
    }
    None
}

proof fn token_at_is_first(tokens: Seq<Seq<char>>, token: Seq<char>, from: int)
    requires
        0 <= from,
    ensures
        match token_at(tokens, token, from) {
            Some(i) => from <= i < tokens.len() && tokens[i] == token && forall|j: int|
                from <= j < i ==> #[trigger] tokens[j] != token,
            None => forall|j: int| from <= j < tokens.len() ==> #[trigger] tokens[j] != token,
        },
    decreases tokens.len() - from,
{
    if from < tokens.len() && tokens[from] != token {
        token_at_is_first(tokens, token, from + 1);
    }
}

/// Whether a class attribute holds a token.
fn has_token(class: Option<&str>, token: &str) -> (r: bool)
    ensures
        r == tokens_of(opt_str(class)).contains(token@),
{
    let list: Vec<String> = tokens(class);
    proof {
        token_at_is_first(texts(list@), token@, 0);
    }
    match position(&list, token) {
        Some(i) => {
            assert(texts(list@)[i as int] == token@);
            true
        },
        None => false,
    }
}

/// The class attribute after a token is added; nothing is written where the
/// token is there already.
pub open spec fn class_with(class: Option<Seq<char>>, token: Seq<char>) -> Option<Seq<char>> {
    if tokens_of(class).contains(token) {
        None
    } else {
        Some(class_of(tokens_of(class).push(token)))
    }
}

/// Adds a token; the class attribute to write, where there is one.
fn add_token(class: Option<&str>, token: String) -> (r: Option<String>)
    ensures
        opt_text(r) == class_with(opt_str(class), token@),
{
    if has_token(class, token.as_str()) {
        return None;
    }
    let mut list: Vec<String> = tokens(class);
    let ghost before = texts(list@);
    list.push(token);
    assert(texts(list@) =~= before.push(token@));
    Some(join(&list, " "))
}

/// Removes a token, as often as it is there; the class attribute to write.
fn remove_token(class: Option<&str>, token: &str) -> (r: String)
    ensures
        r@ == class_of(tokens_without(tokens_of(opt_str(class)), token@)),
{
    let list: Vec<String> = tokens(class);
    let ghost all = texts(list@);
    let mut rest: Vec<String> = Vec::new();
    let mut i: usize = 0;
    assert(all.take(0) =~= Seq::<Seq<char>>::empty());
    assert(texts(rest@) =~= Seq::<Seq<char>>::empty());
    while i < list.len()
        invariant
            i <= list@.len(),
            all == texts(list@),
            texts(rest@) == tokens_without(all.take(i as int), token@),
        decreases list@.len() - i,
    {
        assert(all.take(i + 1).drop_last() =~= all.take(i as int));
        assert(all.take(i + 1).last() == all[i as int]);
        if !same_text(list[i].as_str(), token) {
            let ghost before = texts(rest@);
            rest.push(list[i].as_str().to_owned());
            assert(texts(rest@) =~= before.push(all[i as int]));
        }
        i = i + 1;
    }
    assert(all.take(all.len() as int) =~= all);
    join(&rest, " ")
}

/// The tokens after one is switched: it leaves its first place, or comes to
/// the end.
pub open spec fn toggled(tokens: Seq<Seq<char>>, token: Seq<char>) -> Seq<Seq<char>> {
    match token_at(tokens, token, 0) {
        Some(i) => tokens.remove(i),
        None => tokens.push(token),
    }
}

/// Switches a token; the class attribute to write, and whether the token came.
fn toggle_token(class: Option<&str>, token: String) -> (r: (String, bool))
    ensures
        r.0@ == class_of(toggled(tokens_of(opt_str(class)), token@)),
        r.1 == !tokens_of(opt_str(class)).contains(token@),
{
    let mut list: Vec<String> = tokens(class);
    let ghost before = texts(list@);
    proof {
        token_at_is_first(before, token@, 0);
    }
    match position(&list, token.as_str()) {
        Some(i) => {
            let _ = list.remove(i);
            assert(texts(list@) =~= before.remove(i as int));
            assert(before[i as int] == token@);
            (join(&list, " "), false)
        },
        None => {
            list.push(token);
            assert(texts(list@) =~= before.push(token@));
            (join(&list, " "), true)
        },
    }
}

/// A text that is one token: not empty, and without white space.
pub open spec fn is_token(t: Seq<char>) -> bool {
    t.len() > 0 && forall|i: int| 0 <= i < t.len() ==> !is_ascii_space(#[trigger] t[i])
}

proof fn run_end_shift(s: Seq<char>, k: int, from: int, space: bool)
    requires
        0 <= k,
        0 <= from,
        k + from <= s.len(),
    ensures
        run_end(s, k + from, space) == k + run_end(s.skip(k), from, space),
    decreases s.len() - from,
{
    if k + from < s.len() {
        assert(s.skip(k)[from] == s[k + from]);
        if is_ascii_space(s[k + from]) != space {
            run_end_shift(s, k, from + 1, space);
        }
    }
}

proof fn words_shift(s: Seq<char>, k: int, from: int)
    requires
        0 <= k,
        0 <= from,
        k + from <= s.len(),
    ensures
        words_from(s, k + from) == words_from(s.skip(k), from),
    decreases s.len() - from,
{
    if k + from < s.len() {
        let t: Seq<char> = s.skip(k);
        run_end_shift(s, k, from, false);
        run_end_bounds(t, from, false);
        let start: int = run_end(t, from, false);
        run_end_shift(s, k, start, true);
        run_end_bounds(t, start, true);
        let end: int = run_end(t, start, true);
        if start < t.len() {
            assert(s.subrange(k + start, k + end) =~= t.subrange(start, end));
            words_shift(s, k, end);
        }
    }
}

proof fn run_of_a_token(t: Seq<char>, s: Seq<char>, i: int)
    requires
        is_token(t),
        s.len() > t.len(),
        s.take(t.len() as int) == t,
        is_ascii_space(s[t.len() as int]),
        0 <= i <= t.len(),
    ensures
        run_end(s, i, true) == t.len(),
    decreases t.len() - i,
{
    if i < t.len() {
        assert(s[i] == s.take(t.len() as int)[i]);
        run_of_a_token(t, s, i + 1);
    }
}

proof fn run_of_the_last_token(t: Seq<char>, i: int)
    requires
        is_token(t),
        0 <= i <= t.len(),
    ensures
        run_end(t, i, true) == t.len(),
    decreases t.len() - i,
{
    if i < t.len() {
        run_of_the_last_token(t, i + 1);
    }
}

proof fn joined_is_not_empty(tokens: Seq<Seq<char>>)
    requires
        tokens.len() > 0,
        forall|i: int| 0 <= i < tokens.len() ==> is_token(#[trigger] tokens[i]),
    ensures
        class_of(tokens).len() > 0,
        !is_ascii_space(class_of(tokens)[0]),
{
    assert(is_token(tokens[0]));
    if tokens.len() > 1 {
        joined_from_the_front(tokens, " "@);
    }
}

proof fn class_reads_back(tokens: Seq<Seq<char>>)
    requires
        forall|i: int| 0 <= i < tokens.len() ==> is_token(#[trigger] tokens[i]),
    ensures
        words(class_of(tokens)) == tokens,
    decreases tokens.len(),
{
    reveal_strlit(" ");
    if tokens.len() == 0 {
        assert(words(class_of(tokens)) =~= tokens);
    } else if tokens.len() == 1 {
        let t: Seq<char> = tokens[0];
        assert(is_token(t));
        assert(class_of(tokens) == t);
        run_of_the_last_token(t, 0);
        assert(run_end(t, 0, false) == 0);
        assert(t.subrange(0, t.len() as int) =~= t);
        assert(words_from(t, t.len() as int) =~= Seq::<Seq<char>>::empty());
        assert(words(t) == seq![t] + words_from(t, t.len() as int));
        assert(words(t) =~= tokens);
    } else {
        let t: Seq<char> = tokens[0];
        let rest: Seq<Seq<char>> = tokens.drop_first();
        let n: int = t.len() as int;
        assert(is_token(t));
        joined_from_the_front(tokens, " "@);
        let s: Seq<char> = class_of(tokens);
        assert(s == t + " "@ + class_of(rest));
        assert forall|i: int| 0 <= i < rest.len() implies is_token(#[trigger] rest[i]) by {
            assert(rest[i] == tokens[i + 1]);
        }
        class_reads_back(rest);
        joined_is_not_empty(rest);
        assert(s.take(n) =~= t);
        assert(s[n] == ' ');
        run_of_a_token(t, s, 0);
        assert(s[0] == t[0]);
        assert(run_end(s, 0, false) == 0);
        assert(s.subrange(0, n) =~= t);
        assert(words(s) == seq![t] + words_from(s, n));
        // the space in between belongs to no word
        assert(run_end(s, n, false) == run_end(s, n + 1, false));
        run_end_bounds(s, n + 1, false);
        run_end_bounds(s, run_end(s, n + 1, false), true);
        assert(words_from(s, n) == words_from(s, n + 1));
        words_shift(s, n + 1, 0);
        assert(s.skip(n + 1) =~= class_of(rest));
        assert(words(s) =~= tokens);
    }
}

proof fn words_are_tokens(s: Seq<char>, from: int)
    requires
        0 <= from,
    ensures
        forall|i: int| 0 <= i < words_from(s, from).len() ==> is_token(
            #[trigger] words_from(s, from)[i],
        ),
    decreases s.len() - from,
{
    if from < s.len() {
        run_end_bounds(s, from, false);
        let start: int = run_end(s, from, false);
        if start < s.len() {
            run_end_bounds(s, start, true);
            let end: int = run_end(s, start, true);
            run_is_one_word(s, start);
            words_are_tokens(s, end);
            let all: Seq<Seq<char>> = words_from(s, from);
            assert(all == seq![s.subrange(start, end)] + words_from(s, end));
            assert forall|i: int| 0 <= i < all.len() implies is_token(#[trigger] all[i]) by {
                if i == 0 {
                    assert(is_token(s.subrange(start, end)));
                } else {
                    assert(all[i] == words_from(s, end)[i - 1]);
                }
            }
        }
    }
}

proof fn run_is_one_word(s: Seq<char>, start: int)
    requires
        0 <= start < s.len(),
        !is_ascii_space(s[start]),
    ensures
        start < run_end(s, start, true) <= s.len(),
        is_token(s.subrange(start, run_end(s, start, true))),
    decreases s.len() - start,
{
    run_end_bounds(s, start, true);
    let end: int = run_end(s, start, true);
    let w: Seq<char> = s.subrange(start, end);
    assert forall|i: int| 0 <= i < w.len() implies !is_ascii_space(#[trigger] w[i]) by {
        no_space_before_run_end(s, start, start + i);
    }
}

proof fn no_space_before_run_end(s: Seq<char>, from: int, i: int)
    requires
        0 <= from <= i < run_end(s, from, true),
        i < s.len(),
    ensures
        !is_ascii_space(s[i]),
    decreases i - from,
{
    if from < i {
        no_space_before_run_end(s, from + 1, i);
    }
}

/// What is written into a class attribute is read back from it: the tokens
/// after an added one are those before with the new one behind, and the new
/// one is found.
pub proof fn added_tokens_are_found(class: Option<Seq<char>>, token: Seq<char>)
    requires
        is_token(token),
        !tokens_of(class).contains(token),
    ensures
        tokens_of(class_with(class, token)) == tokens_of(class).push(token),
        tokens_of(class_with(class, token)).contains(token),
{
    let before: Seq<Seq<char>> = tokens_of(class);
    match class {
        Some(s) => {
            words_are_tokens(s, 0);
        },
        None => {},
    }
    let after: Seq<Seq<char>> = before.push(token);
    assert forall|i: int| 0 <= i < after.len() implies is_token(#[trigger] after[i]) by {
        if i < before.len() {
            assert(after[i] == before[i]);
        }
    }
    class_reads_back(after);
    assert(after[before.len() as int] == token);
}

proof fn tokens_without_has_none(tokens: Seq<Seq<char>>, token: Seq<char>, other: Seq<char>)
    ensures
        !tokens_without(tokens, token).contains(token),
        other != token ==> (tokens_without(tokens, token).contains(other) <==> tokens.contains(
            other,
        )),
        forall|i: int|
            0 <= i < tokens_without(tokens, token).len() ==> tokens.contains(
                #[trigger] tokens_without(tokens, token)[i],
            ),
    decreases tokens.len(),
{
    if tokens.len() > 0 {
        let front: Seq<Seq<char>> = tokens.drop_last();
        let kept: Seq<Seq<char>> = tokens_without(front, token);
        let all: Seq<Seq<char>> = tokens_without(tokens, token);
        tokens_without_has_none(front, token, other);
        assert(tokens =~= front.push(tokens.last()));
        assert(tokens[front.len() as int] == tokens.last());
        assert forall|x: Seq<char>| front.contains(x) implies tokens.contains(x) by {
            let i: int = choose|i: int| 0 <= i < front.len() && front[i] == x;
            assert(tokens[i] == x);
        }
        assert forall|x: Seq<char>| tokens.contains(x) implies front.contains(x) || x
            == tokens.last() by {
            let i: int = choose|i: int| 0 <= i < tokens.len() && tokens[i] == x;
            if i < front.len() {
                assert(front[i] == x);
            }
        }
        if tokens.last() != token {
            assert(all == kept.push(tokens.last()));
            assert(all[kept.len() as int] == tokens.last());
            assert forall|x: Seq<char>| #[trigger] all.contains(x) <==> kept.contains(x) || x
                == tokens.last() by {
                if all.contains(x) {
                    let i: int = choose|i: int| 0 <= i < all.len() && all[i] == x;
                    if i < kept.len() {
                        assert(kept[i] == x);
                    }
                }
                if kept.contains(x) {
                    let i: int = choose|i: int| 0 <= i < kept.len() && kept[i] == x;
                    assert(all[i] == x);
                }
            }
            assert forall|i: int| 0 <= i < all.len() implies tokens.contains(#[trigger] all[i]) by {
                if i < kept.len() {
                    assert(front.contains(kept[i]));
                }
            }
        }
    }
}

/// A removed token is found no more, and the others are.
pub proof fn removed_tokens_are_gone(class: Option<Seq<char>>, token: Seq<char>, other: Seq<char>)
    ensures
        ({
            let after: Seq<char> = class_of(tokens_without(tokens_of(class), token));
            &&& !words(after).contains(token)
            &&& other != token ==> (words(after).contains(other) <==> tokens_of(class).contains(
                other,
            ))
        }),
{
    let before: Seq<Seq<char>> = tokens_of(class);
    let after: Seq<Seq<char>> = tokens_without(before, token);
    match class {
        Some(s) => {
            words_are_tokens(s, 0);
        },
        None => {},
    }
    tokens_without_has_none(before, token, other);
    assert forall|i: int| 0 <= i < after.len() implies is_token(#[trigger] after[i]) by {
        let j: int = choose|j: int| 0 <= j < before.len() && before[j] == after[i];
        assert(is_token(before[j]));
    }
    class_reads_back(after);
}

/// The class list of an element, over its class attribute.
pub struct JsDOMTokenList {
    pub class: Option<String>,
}

fn opt_as_str(s: &Option<String>) -> (r: Option<&str>)
    ensures
        opt_str(r) == opt_text(*s),
{
    match s {
        Some(t) => Some(t.as_str()),
        None => None,
    }
}

impl JsDOMTokenList {
    /// The class attribute over a scalar sequence.
    pub open spec fn view(self) -> Option<Seq<char>> {
        opt_text(self.class)
    }

    /// The tokens.
    pub fn tokens(&self) -> (r: Vec<String>)
        ensures
            texts(r@) == tokens_of(self@),
    {
        tokens(opt_as_str(&self.class))
    }

    /// Adds a token; whether the attribute is written, which it is not where
    /// the token is there already.
    pub fn add(&mut self, token: String) -> (r: bool)
        ensures
            r == (class_with(old(self)@, token@) is Some),
            final(self)@ == (match class_with(old(self)@, token@) {
                Some(class) => Some(class),
                None => old(self)@,
            }),
    {
        match add_token(opt_as_str(&self.class), token) {
            Some(class) => {
                self.class = Some(class);
                true
            },
            None => false,
        }
    }

    /// Removes a token, as often as it is there.
    pub fn remove(&mut self, token: &str)
        ensures
            final(self)@ == Some(class_of(tokens_without(tokens_of(old(self)@), token@))),
    {
        let class: String = remove_token(opt_as_str(&self.class), token);
        self.class = Some(class);
    }

    /// Whether a token is there.
    pub fn contains(&self, token: &str) -> (r: bool)
        ensures
            r == tokens_of(self@).contains(token@),
    {
        has_token(opt_as_str(&self.class), token)
    }

    /// Switches a token; whether it came.
    pub fn toggle(&mut self, token: String) -> (r: bool)
        ensures
            r == !tokens_of(old(self)@).contains(token@),
            final(self)@ == Some(class_of(toggled(tokens_of(old(self)@), token@))),
    {
        let (class, came) = toggle_token(opt_as_str(&self.class), token);
        self.class = Some(class);
        came
    }
}

/// The style of an element, over its style attribute.
pub struct JsCSSStyleDeclaration {
    pub style: Option<String>,
}

impl JsCSSStyleDeclaration {
    /// The text of the style; empty where there is none.
    pub fn css_text(&self) -> (r: String)
        ensures
            r@ == (match opt_text(self.style) {
                Some(s) => s,
                None => Seq::empty(),
            }),
    {
        match &self.style {
            Some(s) => s.as_str().to_owned(),
            None => String::new(),
        }
    }

    /// Sets the text of the style.
    pub fn set_css_text(&mut self, value: String)
        ensures
            opt_text(final(self).style) == Some(value@),
    {
        self.style = Some(value);
    }
}

/// A token that is switched comes to the end of the list where it was not
/// there, and leaves its first place where it was; the other tokens stay as
/// they are.
pub proof fn switched_tokens_come_and_go(class: Option<Seq<char>>, token: Seq<char>)
    requires
        is_token(token),
    ensures
        ({
            let before: Seq<Seq<char>> = tokens_of(class);
            let after: Seq<Seq<char>> = tokens_of(Some(class_of(toggled(before, token))));
            &&& !before.contains(token) ==> after == before.push(token)
            &&& before.contains(token) ==> exists|i: int|
                {
                    &&& 0 <= i < before.len()
                    &&& before[i] == token
                    &&& forall|j: int| 0 <= j < i ==> before[j] != token
                    &&& after == #[trigger] before.remove(i)
                }
        }),
{
    let before: Seq<Seq<char>> = tokens_of(class);
    let after: Seq<Seq<char>> = toggled(before, token);
    match class {
        Some(s) => {
            words_are_tokens(s, 0);
        },
        None => {},
    }
    token_at_is_first(before, token, 0);
    match token_at(before, token, 0) {
        Some(i) => {
            assert(before[i] == token);
            assert forall|j: int| 0 <= j < after.len() implies is_token(#[trigger] after[j]) by {
                if j < i {
                    assert(after[j] == before[j]);
                } else {
                    assert(after[j] == before[j + 1]);
                }
            }
            class_reads_back(after);
            assert(before.contains(token));
            assert(tokens_of(Some(class_of(after))) == before.remove(i));
        },
        None => {
            assert forall|j: int| 0 <= j < after.len() implies is_token(#[trigger] after[j]) by {
                if j < before.len() {
                    assert(after[j] == before[j]);
                }
            }
            class_reads_back(after);
            assert(!before.contains(token));
            assert(tokens_of(Some(class_of(after))) == before.push(token));
        },
    }
}

} // verus!
