use crate::capture::card_index::{CardIndex, search_hits};
use crate::error::DraftError;
use crate::text::{
    char_is_alphanumeric, char_is_whitespace, contains_text, join, joined,
    lemma_lex_less_asymmetric, lemma_lex_less_total, lemma_lex_less_transitive, lex_less,
    split_whitespace, text_less, to_chars, words,
};
use vstd::prelude::*;
use vstd::string::*;

verus! {

/// A character that may stand in a card's name: a letter, a number, white
/// space, a comma or an apostrophe.
pub open spec fn is_name_char(c: char) -> bool {
    char_is_alphanumeric(c) || char_is_whitespace(c) || c == ',' || c == '\''
}

/// `s` without the characters that cannot stand in a card's name.
pub open spec fn name_chars(s: Seq<char>) -> Seq<char>
    decreases s.len(),
{
    if s.len() == 0 {
        Seq::empty()
    } else if is_name_char(s.last()) {
        name_chars(s.drop_last()).push(s.last())
    } else {
        name_chars(s.drop_last())
    }
}

/// Recognised text with everything removed that cannot stand in a card's
/// name.
pub fn preprocess_text(text: &str) -> (r: String)
    ensures
        r@ == name_chars(text@),
{
    let chars = to_chars(text);
    let mut r = String::new();
    let mut i: usize = 0;
    while i < chars.len()
        invariant
            i <= chars.len(),
            chars@ == text@,
            r@ == name_chars(chars@.take(i as int)),
        decreases chars.len() - i,
    {
        let c = chars[i];
        proof {
            assert(chars@.take(i + 1).drop_last() =~= chars@.take(i as int));
            assert(chars@.take(i + 1).last() == c);
        }
        if c.is_alphanumeric() || c.is_whitespace() || c == ',' || c == '\'' {
            r.push(c);
        }
        i += 1;
    }
    assert(chars@.take(i as int) =~= chars@);
    r
}

/// The smallest of three numbers.
pub open spec fn least_of(a: nat, b: nat, c: nat) -> nat {
    if a <= b && a <= c {
        a
    } else if b <= c {
        b
    } else {
        c
    }
}

/// The least number of single-character insertions, deletions and
/// substitutions that turn `a` into `b`.
pub open spec fn edit_distance(a: Seq<char>, b: Seq<char>) -> nat
    decreases a.len() + b.len(),
{
    if a.len() == 0 {
        b.len()
    } else if b.len() == 0 {
        a.len()
    } else {
        least_of(
            edit_distance(a.drop_last(), b.drop_last()) + if a.last() == b.last() {
                0nat
            } else {
                1nat
            },
            edit_distance(a.drop_last(), b) + 1,
            edit_distance(a, b.drop_last()) + 1,
        )
    }
}

/// `strsim::levenshtein` gives the edit distance of its two arguments,
/// counted in characters.
pub assume_specification[ strsim::levenshtein ](a: &str, b: &str) -> (r: usize)
    ensures
        r == edit_distance(a@, b@),
;

/// `a` is a better replacement for `word` than `b`: it is nearer to it, or
/// as near and earlier in dictionary order.
pub open spec fn closer(word: Seq<char>, a: Seq<char>, b: Seq<char>) -> bool {
    edit_distance(word, a) < edit_distance(word, b) || (edit_distance(word, a) == edit_distance(
        word,
        b,
    ) && lex_less(a, b))
}

/// `token` is the best replacement for `word` that `dictionary` holds.
pub open spec fn is_nearest(dictionary: Seq<Seq<char>>, word: Seq<char>, token: Seq<char>) -> bool {
    &&& dictionary.contains(token)
    &&& forall|i: int| 0 <= i < dictionary.len() ==> !closer(word, #[trigger] dictionary[i], token)
}

/// The best replacement for `word` in `dictionary`; the empty text where
/// the dictionary is empty.
pub open spec fn nearest(dictionary: Seq<Seq<char>>, word: Seq<char>) -> Seq<char>
    decreases dictionary.len(),
{
    if dictionary.len() == 0 {
        Seq::empty()
    } else if dictionary.len() == 1 {
        dictionary[0]
    } else {
        let best = nearest(dictionary.drop_last(), word);
        if closer(word, dictionary.last(), best) {
            dictionary.last()
        } else {
            best
        }
    }
}

/// What a word becomes: itself where the dictionary knows it, and else the
/// dictionary's best replacement.
pub open spec fn corrected_word(word: Seq<char>, dictionary: Seq<Seq<char>>) -> Seq<char> {
    if dictionary.contains(word) {
        word
    } else {
        nearest(dictionary, word)
    }
}

/// What a text becomes: its words, each corrected, with one space between
/// neighbours.
pub open spec fn corrected_text(text: Seq<char>, dictionary: Seq<Seq<char>>) -> Seq<char> {
    joined(words(text).map_values(|w: Seq<char>| corrected_word(w, dictionary)), seq![' '])
}

/// Being a better replacement carries over: better than something better.
pub proof fn lemma_closer_transitive(word: Seq<char>, a: Seq<char>, b: Seq<char>, c: Seq<char>)
    requires
        closer(word, a, b),
        closer(word, b, c),
    ensures
        closer(word, a, c),
{
    if edit_distance(word, a) == edit_distance(word, b) && edit_distance(word, b) == edit_distance(
        word,
        c,
    ) {
        lemma_lex_less_transitive(a, b, c);
    }
}

/// Of two different tokens one is the better replacement.
pub proof fn lemma_closer_total(word: Seq<char>, a: Seq<char>, b: Seq<char>)
    ensures
        a == b || closer(word, a, b) || closer(word, b, a),
        !(closer(word, a, b) && closer(word, b, a)),
{
    lemma_lex_less_total(a, b);
    lemma_lex_less_asymmetric(a, b);
}

/// The best replacement that `nearest` names is the best one.
pub proof fn lemma_nearest_is_nearest(dictionary: Seq<Seq<char>>, word: Seq<char>)
    requires
        dictionary.len() > 0,
    ensures
        is_nearest(dictionary, word, nearest(dictionary, word)),
    decreases dictionary.len(),
{
    let best = nearest(dictionary, word);
    if dictionary.len() == 1 {
        assert(dictionary[0] == best);
        lemma_closer_total(word, best, best);
    } else {
        let rest = dictionary.drop_last();
        let last = dictionary.last();
        let before = nearest(rest, word);
        lemma_nearest_is_nearest(rest, word);
        let k = choose|k: int| 0 <= k < rest.len() && rest[k] == before;
        assert(dictionary[k] == before);
        assert(dictionary[dictionary.len() - 1] == last);
        assert forall|i: int| 0 <= i < dictionary.len() implies !closer(
            word,
            #[trigger] dictionary[i],
            best,
        ) by {
            if i < rest.len() {
                assert(dictionary[i] == rest[i]);
                assert(!closer(word, rest[i], before));
                if closer(word, last, before) {
                    if closer(word, dictionary[i], last) {
                        lemma_closer_transitive(word, dictionary[i], last, before);
                    }
                }
            } else {
                lemma_closer_total(word, last, last);
                lemma_closer_total(word, last, before);
            }
        }
    }
}

/// A dictionary has one best replacement for a word, not two.
pub proof fn lemma_nearest_unique(
    dictionary: Seq<Seq<char>>,
    word: Seq<char>,
    a: Seq<char>,
    b: Seq<char>,
)
    requires
        is_nearest(dictionary, word, a),
        is_nearest(dictionary, word, b),
    ensures
        a == b,
{
    let i = choose|i: int| 0 <= i < dictionary.len() && dictionary[i] == a;
    let j = choose|j: int| 0 <= j < dictionary.len() && dictionary[j] == b;
    assert(!closer(word, dictionary[i], b));
    assert(!closer(word, dictionary[j], a));
    lemma_closer_total(word, a, b);
}

/// What a word is corrected to depends on which tokens the dictionary
/// holds, not on their order or on how often each occurs: equal input gives
/// equal output, however the dictionary was put together.
pub proof fn lemma_correction_is_repeatable(
    word: Seq<char>,
    first: Seq<Seq<char>>,
    second: Seq<Seq<char>>,
)
    requires
        forall|t: Seq<char>| first.contains(t) <==> second.contains(t),
    ensures
        corrected_word(word, first) == corrected_word(word, second),
{
    if !first.contains(word) {
        if first.len() == 0 {
            if second.len() > 0 {
                assert(second.contains(second[0]));
            }
        } else {
            assert(first.contains(first[0]));
            assert(second.len() > 0);
            lemma_nearest_is_nearest(first, word);
            lemma_nearest_is_nearest(second, word);
            let a = nearest(first, word);
            let b = nearest(second, word);
            assert forall|i: int| 0 <= i < second.len() implies !closer(
                word,
                #[trigger] second[i],
                a,
            ) by {
                assert(second.contains(second[i]));
                let k = choose|k: int| 0 <= k < first.len() && first[k] == second[i];
                assert(!closer(word, first[k], a));
            }
            lemma_nearest_unique(second, word, a, b);
        }
    }
}

/// The word itself where the dictionary knows it, and else the token of the
/// dictionary that is nearest to it by edit distance, of several as near the
/// earliest in dictionary order; the empty text for an empty dictionary.
pub fn correct_word(word: &str, dictionary: &Vec<String>) -> (r: String)
    ensures
        r@ == corrected_word(word@, dictionary.deep_view()),
        dictionary.deep_view().contains(word@) ==> r@ == word@,
        !dictionary.deep_view().contains(word@) && dictionary.len() > 0 ==> is_nearest(
            dictionary.deep_view(),
            word@,
            r@,
        ),
{
    let ghost dict = dictionary.deep_view();
    if contains_text(dictionary, word) {
        return String::from_str(word);
    }
    if dictionary.len() == 0 {
        return String::new();
    }
    let mut best: usize = 0;
    let mut best_distance: usize = strsim::levenshtein(word, dictionary[0].as_str());
    let mut i: usize = 1;
    assert(dict.take(1) =~= seq![dict[0]]);
    while i < dictionary.len()
        invariant
            1 <= i <= dictionary.len(),
            dict == dictionary.deep_view(),
            best < i,
            best_distance == edit_distance(word@, dict[best as int]),
            dict[best as int] == nearest(dict.take(i as int), word@),
        decreases dictionary.len() - i,
    {
        proof {
            assert(dict.take(i + 1).drop_last() =~= dict.take(i as int));
            assert(dict.take(i + 1).last() == dict[i as int]);
            assert(dict[i as int] == dictionary[i as int]@);
            assert(dict[best as int] == dictionary[best as int]@);
        }
        let distance = strsim::levenshtein(word, dictionary[i].as_str());
        if distance < best_distance || (distance == best_distance && text_less(
            dictionary[i].as_str(),
            dictionary[best].as_str(),
        )) {
            best = i;
            best_distance = distance;
        }
        i += 1;
    }
    proof {
        assert(dict.take(i as int) =~= dict);
        lemma_nearest_is_nearest(dict, word@);
        assert(dict[best as int] == dictionary[best as int]@);
    }
    dictionary[best].clone()
}

/// `text` with each of its words corrected against `dictionary`, and one
/// space between neighbours.
pub fn correct_text(text: &str, dictionary: &Vec<String>) -> (r: String)
    ensures
        r@ == corrected_text(text@, dictionary.deep_view()),
{
    let tokens = split_whitespace(text);
    let ghost dict = dictionary.deep_view();
    let mut fixed: Vec<String> = Vec::new();
    let mut i: usize = 0;
    while i < tokens.len()
        invariant
            i <= tokens.len(),
            dict == dictionary.deep_view(),
            fixed.len() == i,
            forall|k: int| 0 <= k < i ==> fixed[k]@ == corrected_word(tokens[k]@, dict),
        decreases tokens.len() - i,
    {
        fixed.push(correct_word(tokens[i].as_str(), dictionary));
        i += 1;
    }
    proof {
        assert(fixed.deep_view() =~= words(text@).map_values(
            |w: Seq<char>| corrected_word(w, dict),
        )) by {
            assert forall|k: int| 0 <= k < fixed.len() implies fixed.deep_view()[k] == words(
                text@,
            ).map_values(|w: Seq<char>| corrected_word(w, dict))[k] by {
                assert(tokens.deep_view()[k] == tokens[k]@);
            }
        }
        reveal_strlit(" ");
        assert(" "@ =~= seq![' ']);
    }
    join(&fixed, " ")
}

/// What a list of search results stands for: the one name where there is
/// exactly one, `NoMatch` where there is none, and `AmbiguousMatch` where
/// there are several. No name is picked from among several.
pub open spec fn single_hit(hits: Seq<Seq<char>>) -> Result<Seq<char>, DraftError> {
    if hits.len() == 1 {
        Ok(hits[0])
    } else if hits.len() == 0 {
        Err(DraftError::NoMatch)
    } else {
        Err(DraftError::AmbiguousMatch)
    }
}

/// Several hits name no card, whichever they are: nothing is guessed.
pub proof fn lemma_several_hits_name_no_card(hits: Seq<Seq<char>>)
    requires
        hits.len() > 1,
    ensures
        single_hit(hits) == Err::<Seq<char>, DraftError>(DraftError::AmbiguousMatch),
{
}

/// The text of a name, or the error in its place.
pub open spec fn name_view(r: Result<String, DraftError>) -> Result<Seq<char>, DraftError> {
    match r {
        Ok(name) => Ok(name@),
        Err(e) => Err(e),
    }
}

/// The one name among `hits`, or why there is none.
pub fn pick_single(hits: Vec<String>) -> (r: Result<String, DraftError>)
    ensures
        name_view(r) == single_hit(hits.deep_view()),
{
    let mut hits = hits;
    if hits.len() == 1 {
        let ghost first = hits[0]@;
        match hits.pop() {
            Some(name) => Ok(name),
            None => Err(DraftError::NoMatch),
        }
    } else if hits.len() == 0 {
        Err(DraftError::NoMatch)
    } else {
        Err(DraftError::AmbiguousMatch)
    }
}

/// The card that a search for `text` finds in `card_index`, where it finds
/// exactly one.
pub fn find_card(text: &str, card_index: &CardIndex) -> (r: Option<String>)
    ensures
        r matches Some(name) ==> card_index.names().contains(name@),
        card_index.exact() ==> match single_hit(search_hits(card_index.names(), text@)) {
            Ok(name) => r is Some && r->Some_0@ == name,
            Err(_) => r is None,
        },
{
    let hits = card_index.search(text);
    assert(hits.len() == 1 ==> hits.deep_view()[0] == hits[0]@);
    match pick_single(hits) {
        Ok(name) => Some(name),
        Err(_) => None,
    }
}

/// The card that `fragment` names among `names`: the one hit of a search
/// for its name characters, and where that search has no hit or several,
/// the one hit of a search for the corrected text. With no single hit
/// there either, the fragment names no card.
pub open spec fn resolved(names: Set<Seq<char>>, dictionary: Seq<Seq<char>>, fragment: Seq<char>)
    -> Result<Seq<char>, DraftError> {
    let text = name_chars(fragment);
    let direct = search_hits(names, text);
    if direct.len() == 1 {
        Ok(direct[0])
    } else {
        single_hit(search_hits(names, corrected_text(text, dictionary)))
    }
}

/// A fragment whose searches both fail to give a single hit names no card,
/// and a fragment that names a card names one of the hits of its searches.
pub proof fn lemma_resolved_is_a_single_hit(
    names: Set<Seq<char>>,
    dictionary: Seq<Seq<char>>,
    fragment: Seq<char>,
)
    ensures
        ({
            let direct = search_hits(names, name_chars(fragment));
            let second = search_hits(
                names,
                corrected_text(name_chars(fragment), dictionary),
            );
            &&& direct.len() != 1 && second.len() != 1 ==> resolved(names, dictionary, fragment) is Err
            &&& direct.len() != 1 && second.len() > 1 ==> resolved(names, dictionary, fragment)
                == Err::<Seq<char>, DraftError>(DraftError::AmbiguousMatch)
            &&& direct.len() != 1 && second.len() == 0 ==> resolved(names, dictionary, fragment)
                == Err::<Seq<char>, DraftError>(DraftError::NoMatch)
            &&& resolved(names, dictionary, fragment) matches Ok(name) ==> (direct.len() == 1
                && name == direct[0]) || (second.len() == 1 && name == second[0])
        }),
{
}

/// The card of the catalogue that the recognised text `fragment` names.
pub fn resolve(fragment: &str, catalog: &CardIndex, dictionary: &Vec<String>) -> (r: Result<
    String,
    DraftError,
>)
    ensures
        r matches Ok(name) ==> catalog.names().contains(name@),
        r matches Err(e) ==> e == DraftError::NoMatch || e == DraftError::AmbiguousMatch,
        catalog.exact() ==> name_view(r) == resolved(
            catalog.names(),
            dictionary.deep_view(),
            fragment@,
        ),
{
    let text = preprocess_text(fragment);
    match find_card(text.as_str(), catalog) {
        Some(name) => Ok(name),
        None => {
            let corrected = correct_text(text.as_str(), dictionary);
            let hits = catalog.search(corrected.as_str());
            assert(hits.len() == 1 ==> hits.deep_view()[0] == hits[0]@);
            pick_single(hits)
        },
    }
}

/// The cards that `fragments` name, in the order of the fragments; a
/// fragment that names none leaves no trace.
pub open spec fn resolved_all(
    names: Set<Seq<char>>,
    dictionary: Seq<Seq<char>>,
    fragments: Seq<Seq<char>>,
) -> Seq<Seq<char>>
    decreases fragments.len(),
{
    if fragments.len() == 0 {
        Seq::empty()
    } else {
        let before = resolved_all(names, dictionary, fragments.drop_last());
        match resolved(names, dictionary, fragments.last()) {
            Ok(name) => before.push(name),
            Err(_) => before,
        }
    }
}

/// The cards of the catalogue that the recognised texts name, in the order
/// of the texts. A text that names no card, or no single card, is left out.
pub fn find_card_name_matches(
    card_index: &CardIndex,
    card_name_tokens: &Vec<String>,
    texts: &[&str],
) -> (r: Vec<String>)
    ensures
        r.len() <= texts.len(),
        forall|k: int| 0 <= k < r.len() ==> card_index.names().contains(#[trigger] r[k]@),
        card_index.exact() ==> r.deep_view() == resolved_all(
            card_index.names(),
            card_name_tokens.deep_view(),
            texts@.map_values(|s: &str| s@),
        ),
{
    let ghost fragments = texts@.map_values(|s: &str| s@);
    let ghost dict = card_name_tokens.deep_view();
    let mut r: Vec<String> = Vec::new();
    let mut i: usize = 0;
    assert(r.deep_view() =~= Seq::<Seq<char>>::empty());
    while i < texts.len()
        invariant
            i <= texts.len(),
            r.len() <= i,
            fragments == texts@.map_values(|s: &str| s@),
            dict == card_name_tokens.deep_view(),
            forall|k: int| 0 <= k < r.len() ==> card_index.names().contains(#[trigger] r[k]@),
            card_index.exact() ==> r.deep_view() == resolved_all(
                card_index.names(),
                dict,
                fragments.take(i as int),
            ),
        decreases texts.len() - i,
    {
        proof {
            assert(fragments.take(i + 1).drop_last() =~= fragments.take(i as int));
            assert(fragments.take(i + 1).last() == texts@[i as int]@);
        }
        match resolve(texts[i], card_index, card_name_tokens) {
            Ok(name) => {
                let ghost before = r.deep_view();
                r.push(name);
                assert(r.deep_view() =~= before.push(name@));
            },
            Err(_) => {},
        }
        i += 1;
    }
    assert(fragments.take(i as int) =~= fragments);
    r
}

/// Resolving a list of fragments is resolving its front part and its back
/// part, one after the other: each fragment is resolved by itself, and
/// what is resolved stands in the order of the fragments.
pub proof fn lemma_resolved_all_keeps_order(
    names: Set<Seq<char>>,
    dictionary: Seq<Seq<char>>,
    front: Seq<Seq<char>>,
    back: Seq<Seq<char>>,
)
    ensures
        resolved_all(names, dictionary, front + back) == resolved_all(names, dictionary, front)
            + resolved_all(names, dictionary, back),
    decreases back.len(),
{
    if back.len() == 0 {
        assert(front + back =~= front);
        assert(resolved_all(names, dictionary, front) + Seq::<Seq<char>>::empty()
            =~= resolved_all(names, dictionary, front));
    } else {
        lemma_resolved_all_keeps_order(names, dictionary, front, back.drop_last());
        assert((front + back).drop_last() =~= front + back.drop_last());
        assert((front + back).last() == back.last());
        let a = resolved_all(names, dictionary, front);
        let b = resolved_all(names, dictionary, back.drop_last());
        match resolved(names, dictionary, back.last()) {
            Ok(name) => {
                assert((a + b).push(name) =~= a + b.push(name));
            },
            Err(_) => {},
        }
    }
}

/// No more names come out than fragments went in, and a fragment that
/// resolves contributes its one name.
pub proof fn lemma_resolved_all_len(
    names: Set<Seq<char>>,
    dictionary: Seq<Seq<char>>,
    fragments: Seq<Seq<char>>,
)
    ensures
        resolved_all(names, dictionary, fragments).len() <= fragments.len(),
        fragments.len() == 1 ==> resolved_all(names, dictionary, fragments) == match resolved(
            names,
            dictionary,
            fragments[0],
        ) {
            Ok(name) => seq![name],
            Err(_) => Seq::<Seq<char>>::empty(),
        },
    decreases fragments.len(),
{
    if fragments.len() > 0 {
        lemma_resolved_all_len(names, dictionary, fragments.drop_last());
        if fragments.len() == 1 {
            assert(fragments.drop_last().len() == 0);
            match resolved(names, dictionary, fragments[0]) {
                Ok(name) => {
                    assert(Seq::<Seq<char>>::empty().push(name) =~= seq![name]);
                },
                Err(_) => {},
            }
        }
    }
}

} // verus!
