use crate::text::{char_is_alphanumeric, char_is_whitespace, to_chars};
use vstd::prelude::*;
use vstd::string::*;

verus! {

/// `s` with its letters, numbers and white space kept and everything else
/// dropped, and with a space in place of each white-space character.
pub open spec fn scan_chars(s: Seq<char>) -> Seq<char>
    decreases s.len(),
{
    if s.len() == 0 {
        Seq::empty()
    } else if char_is_whitespace(s.last()) {
        scan_chars(s.drop_last()).push(' ')
    } else if char_is_alphanumeric(s.last()) {
        scan_chars(s.drop_last()).push(s.last())
    } else {
        scan_chars(s.drop_last())
    }
}

/// The characters of `text` that count when it is scanned.
fn scan_text(text: &str) -> (r: Vec<char>)
    ensures
        r@ == scan_chars(text@),
{
    let chars = to_chars(text);
    let mut r: Vec<char> = Vec::new();
    let mut i: usize = 0;
    while i < chars.len()
        invariant
            i <= chars.len(),
            chars@ == text@,
            r@ == scan_chars(chars@.take(i as int)),
        decreases chars.len() - i,
    {
        let c = chars[i];
        proof {
            assert(chars@.take(i + 1).drop_last() =~= chars@.take(i as int));
            assert(chars@.take(i + 1).last() == c);
        }
        if c.is_whitespace() {
            r.push(' ');
        } else if c.is_alphanumeric() {
            r.push(c);
        }
        i += 1;
    }
    assert(chars@.take(i as int) =~= chars@);
    r
}

/// Text as it is compared when a longer text is scanned for names: only its
/// letters, numbers and white space, each white-space character as a space.
pub fn preprocess_text(text: &str) -> (r: String)
    ensures
        r@ == scan_chars(text@),
{
    let chars = scan_text(text);
    crate::text::from_chars(&chars)
}

/// One name to look for: the written name and the form in which it is
/// compared.
pub struct LookupEntry {
    pub key: Vec<char>,
    pub token: String,
}

/// What a `LookupEntry` stands for: the compared form, then the written
/// name.
pub open spec fn entry_views(entries: Seq<LookupEntry>) -> Seq<(Seq<char>, Seq<char>)> {
    entries.map_values(|e: LookupEntry| (e.key@, e.token@))
}

/// The names to look for, each under the form in which it is compared. Of
/// several names with one compared form the last one written stands, at
/// the place of the first.
pub open spec fn inverse_lookup(tokens: Seq<Seq<char>>) -> Seq<(Seq<char>, Seq<char>)>
    decreases tokens.len(),
{
    if tokens.len() == 0 {
        Seq::empty()
    } else {
        crate::text_map::upserted(
            inverse_lookup(tokens.drop_last()),
            scan_chars(tokens.last()),
            tokens.last(),
        )
    }
}

/// Whether two lists hold the same characters.
fn same_chars(a: &Vec<char>, b: &Vec<char>) -> (r: bool)
    ensures
        r == (a@ == b@),
{
    if a.len() != b.len() {
        return false;
    }
    let mut i: usize = 0;
    while i < a.len()
        invariant
            i <= a.len(),
            a.len() == b.len(),
            forall|k: int| 0 <= k < i ==> a[k] == b[k],
        decreases a.len() - i,
    {
        if a[i] != b[i] {
            return false;
        }
        i += 1;
    }
    assert(a@ =~= b@);
    true
}

/// The names to look for, each under the form in which it is compared.
pub fn build_inverse_lookup(tokens: &[&str]) -> (r: Vec<LookupEntry>)
    ensures
        entry_views(r@) == inverse_lookup(tokens@.map_values(|s: &str| s@)),
{
    let ghost all = tokens@.map_values(|s: &str| s@);
    let mut r: Vec<LookupEntry> = Vec::new();
    let mut i: usize = 0;
    assert(entry_views(r@) =~= Seq::<(Seq<char>, Seq<char>)>::empty());
    while i < tokens.len()
        invariant
            i <= tokens.len(),
            all == tokens@.map_values(|s: &str| s@),
            entry_views(r@) == inverse_lookup(all.take(i as int)),
        decreases tokens.len() - i,
    {
        proof {
            assert(all.take(i + 1).drop_last() =~= all.take(i as int));
            assert(all.take(i + 1).last() == tokens@[i as int]@);
        }
        let key = scan_text(tokens[i]);
        let ghost before = entry_views(r@);
        let mut j: usize = 0;
        while j < r.len() && !same_chars(&r[j].key, &key)
            invariant
                j <= r.len(),
                before == entry_views(r@),
                forall|k: int| 0 <= k < j ==> (#[trigger] before[k]).0 != key@,
            decreases r.len() - j,
        {
            assert(before[j as int].0 == r[j as int].key@);
            j += 1;
        }
        proof {
            if j < r.len() {
                assert(before[j as int].0 == r[j as int].key@);
            }
            crate::text_map::lemma_key_index_is(before, key@, j as int);
        }
        let entry = LookupEntry { key, token: String::from_str(tokens[i]) };
        if j < r.len() {
            r.set(j, entry);
        } else {
            r.push(entry);
        }
        assert(entry_views(r@) =~= crate::text_map::upserted(
            before,
            scan_chars(tokens@[i as int]@),
            tokens@[i as int]@,
        ));
        i += 1;
    }
    assert(all.take(i as int) =~= all);
    r
}

/// `key` stands in `text` at place `pos`.
pub open spec fn occurs_at(text: Seq<char>, pos: int, key: Seq<char>) -> bool {
    pos + key.len() <= text.len() && text.subrange(pos, pos + key.len()) == key
}

/// The entry at place `i` of `lookup` is found at place `pos` of `text`: its
/// compared form stands there, and its written name is not empty.
pub open spec fn hit_at(lookup: Seq<(Seq<char>, Seq<char>)>, text: Seq<char>, pos: int, i: int)
    -> bool {
    occurs_at(text, pos, lookup[i].0) && lookup[i].1.len() > 0
}

/// The place in `lookup` of the first entry, from place `from` on, that is
/// found at place `pos` of `text`; the length of `lookup` where none is.
pub open spec fn first_hit(
    lookup: Seq<(Seq<char>, Seq<char>)>,
    text: Seq<char>,
    pos: int,
    from: int,
) -> int
    decreases lookup.len() - from,
{
    if from >= lookup.len() {
        lookup.len() as int
    } else if hit_at(lookup, text, pos, from) {
        from
    } else {
        first_hit(lookup, text, pos, from + 1)
    }
}

/// The written names that are found in `text` from place `pos` on. At each
/// place the first entry of `lookup` that is found there counts; the scan
/// then goes on behind as many characters as its written name has. Where
/// nothing is found the scan moves on by one character.
pub open spec fn matches_from(lookup: Seq<(Seq<char>, Seq<char>)>, text: Seq<char>, pos: int)
    -> Seq<Seq<char>>
    decreases text.len() - pos,
{
    if pos < 0 || pos >= text.len() {
        Seq::empty()
    } else {
        let i = first_hit(lookup, text, pos, 0);
        if 0 <= i < lookup.len() && lookup[i].1.len() > 0 {
            if pos + lookup[i].1.len() >= text.len() {
                seq![lookup[i].1]
            } else {
                seq![lookup[i].1] + matches_from(lookup, text, pos + lookup[i].1.len())
            }
        } else {
            matches_from(lookup, text, pos + 1)
        }
    }
}

/// The names among `tokens` that are found in `text`, in the order in which
/// they stand there.
pub open spec fn found_matches(text: Seq<char>, tokens: Seq<Seq<char>>) -> Seq<Seq<char>> {
    matches_from(inverse_lookup(tokens), scan_chars(text), 0)
}

/// Whether `key` stands in `text` at place `pos`.
fn key_occurs_at(text: &Vec<char>, pos: usize, key: &Vec<char>) -> (r: bool)
    requires
        pos <= text.len(),
    ensures
        r == occurs_at(text@, pos as int, key@),
{
    if key.len() > text.len() - pos {
        return false;
    }
    let mut k: usize = 0;
    while k < key.len()
        invariant
            k <= key.len(),
            pos + key.len() <= text.len(),
            forall|j: int| 0 <= j < k ==> text[pos + j] == key[j],
        decreases key.len() - k,
    {
        if text[pos + k] != key[k] {
            assert(text@.subrange(pos as int, pos + key.len())[k as int] != key@[k as int]);
            return false;
        }
        k += 1;
    }
    assert(text@.subrange(pos as int, pos + key.len()) =~= key@);
    true
}

/// The place in `lookup` of the first entry that is found at place `pos` of
/// `text`.
fn find_hit(lookup: &Vec<LookupEntry>, text: &Vec<char>, pos: usize) -> (r: usize)
    requires
        pos <= text.len(),
    ensures
        r == first_hit(entry_views(lookup@), text@, pos as int, 0),
        r <= lookup.len(),
        r < lookup.len() ==> lookup[r as int].token@.len() > 0,
{
    let ghost table = entry_views(lookup@);
    let mut i: usize = lookup.len();
    let mut found: usize = lookup.len();
    while i > 0
        invariant
            i <= lookup.len(),
            table == entry_views(lookup@),
            pos <= text.len(),
            found == first_hit(table, text@, pos as int, i as int),
            found <= lookup.len(),
            found < lookup.len() ==> lookup[found as int].token@.len() > 0,
        decreases i,
    {
        i -= 1;
        assert(table[i as int] == (lookup[i as int].key@, lookup[i as int].token@));
        if lookup[i].token.as_str().unicode_len() > 0 && key_occurs_at(text, pos, &lookup[i].key) {
            found = i;
        }
    }
    found
}

/// The names among `tokens` that stand in `text`, in the order in which
/// they stand there. Names and text are compared by their letters, numbers
/// and white space alone. Where several names stand at one place, the one
/// that comes first among `tokens` counts.
pub fn find_matches(text: &str, tokens: &[&str]) -> (r: Vec<String>)
    ensures
        r.deep_view() == found_matches(text@, tokens@.map_values(|s: &str| s@)),
{
    let lookup = build_inverse_lookup(tokens);
    let scanned = scan_text(text);
    let ghost table = entry_views(lookup@);
    let ghost all = matches_from(table, scanned@, 0);
    let mut r: Vec<String> = Vec::new();
    let mut pos: usize = 0;
    assert(r.deep_view() + all =~= all);
    while pos < scanned.len()
        invariant
            pos <= scanned.len(),
            table == entry_views(lookup@),
            all == r.deep_view() + matches_from(table, scanned@, pos as int),
        decreases scanned.len() - pos,
    {
        let i = find_hit(&lookup, &scanned, pos);
        let ghost before = r.deep_view();
        let ghost rest = matches_from(table, scanned@, pos as int);
        if i < lookup.len() {
            assert(table[i as int] == (lookup[i as int].key@, lookup[i as int].token@));
            let step = lookup[i].token.as_str().unicode_len();
            r.push(lookup[i].token.clone());
            assert(r.deep_view() =~= before.push(lookup[i as int].token@));
            if step >= scanned.len() - pos {
                assert(rest =~= seq![lookup[i as int].token@]);
                pos = scanned.len();
                assert(matches_from(table, scanned@, pos as int) =~= Seq::<Seq<char>>::empty());
                assert(before + rest =~= r.deep_view() + Seq::<Seq<char>>::empty());
            } else {
                assert(rest == seq![lookup[i as int].token@] + matches_from(
                    table,
                    scanned@,
                    pos + step,
                ));
                assert(before + rest =~= r.deep_view() + matches_from(table, scanned@, pos + step));
                pos += step;
            }
        } else {
            pos += 1;
        }
    }
    assert(matches_from(table, scanned@, pos as int) =~= Seq::<Seq<char>>::empty());
    assert(r.deep_view() + Seq::<Seq<char>>::empty() =~= r.deep_view());
    r
}

} // verus!
