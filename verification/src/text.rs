use vstd::prelude::*;
use vstd::string::*;

verus! {

/// Whether `c` counts as a letter or a number; the value that
/// `char::is_alphanumeric` gives for it.
pub uninterp spec fn char_is_alphanumeric(c: char) -> bool;

/// Whether `c` is white space; the value that `char::is_whitespace` gives
/// for it.
pub uninterp spec fn char_is_whitespace(c: char) -> bool;

/// `char::is_alphanumeric` depends on the character alone.
pub assume_specification[ char::is_alphanumeric ](c: char) -> (r: bool)
    ensures
        r == char_is_alphanumeric(c),
;

/// `char::is_whitespace` depends on the character alone.
pub assume_specification[ char::is_whitespace ](c: char) -> (r: bool)
    ensures
        r == char_is_whitespace(c),
;

/// `String::push` appends one character and changes nothing else.
pub assume_specification[ String::push ](s: &mut String, ch: char)
    ensures
        final(s)@ == old(s)@.push(ch),
;

/// The characters of `s`, in order.
pub fn to_chars(s: &str) -> (v: Vec<char>)
    ensures
        v@ == s@,
{
    let mut v: Vec<char> = Vec::new();
    for c in it: s.chars()
        invariant
            v@ == it.seq().take(it.index()),
            it.seq() == s@,
    {
        v.push(c);
    }
    v
}

/// The string made of the characters of `v`, in order.
pub fn from_chars(v: &Vec<char>) -> (s: String)
    ensures
        s@ == v@,
{
    let mut s = String::new();
    let mut i: usize = 0;
    while i < v.len()
        invariant
            i <= v.len(),
            s@ == v@.take(i as int),
        decreases v.len() - i,
    {
        s.push(v[i]);
        i += 1;
    }
    s
}

/// The decimal digit that stands for `d`, for `d` below ten.
pub open spec fn digit_char(d: nat) -> char {
    ((48 + d) as u8) as char
}

/// The decimal numeral of `n`: no sign, no leading zero, `"0"` for zero.
pub open spec fn decimal(n: nat) -> Seq<char>
    decreases n,
{
    if n < 10 {
        seq![digit_char(n)]
    } else {
        decimal(n / 10).push(digit_char(n % 10))
    }
}

/// The decimal numeral of a signed number: a minus sign before the numeral of
/// its magnitude where it is negative.
pub open spec fn signed_decimal(n: int) -> Seq<char> {
    if n < 0 {
        seq!['-'] + decimal((-n) as nat)
    } else {
        decimal(n as nat)
    }
}

/// `v` with its elements in the opposite order.
fn reversed(v: &Vec<char>) -> (r: Vec<char>)
    ensures
        r@ == v@.reverse(),
{
    let mut r: Vec<char> = Vec::new();
    let mut i: usize = v.len();
    while i > 0
        invariant
            i <= v.len(),
            r@.len() == v.len() - i,
            forall|k: int| 0 <= k < r@.len() ==> r@[k] == v@[v.len() - 1 - k],
        decreases i,
    {
        i -= 1;
        r.push(v[i]);
    }
    assert(r@ =~= v@.reverse());
    r
}

/// The digits of `n`, most significant first.
fn decimal_chars(n: u64) -> (r: Vec<char>)
    ensures
        r@ == decimal(n as nat),
{
    let mut low_first: Vec<char> = Vec::new();
    let mut m: u64 = n;
    while m >= 10
        invariant
            decimal(n as nat) == decimal(m as nat) + low_first@.reverse(),
        decreases m,
    {
        let d: u8 = (m % 10) as u8;
        let ghost before = low_first@;
        low_first.push((48u8 + d) as char);
        proof {
            let c = digit_char((m % 10) as nat);
            assert(low_first@.reverse() =~= seq![c] + before.reverse());
            assert(decimal(m as nat) == decimal((m / 10) as nat).push(c));
            assert(decimal((m / 10) as nat).push(c) + before.reverse() =~= decimal((m / 10) as nat)
                + (seq![c] + before.reverse()));
        }
        m = m / 10;
    }
    let d: u8 = m as u8;
    let ghost before = low_first@;
    low_first.push((48u8 + d) as char);
    proof {
        let c = digit_char(m as nat);
        assert(low_first@.reverse() =~= seq![c] + before.reverse());
        assert(decimal(m as nat) =~= seq![c]);
    }
    reversed(&low_first)
}

/// The decimal numeral of `n` as a string.
pub fn format_u64(n: u64) -> (s: String)
    ensures
        s@ == decimal(n as nat),
{
    let v = decimal_chars(n);
    from_chars(&v)
}

/// The decimal numeral of `n` as a string, with a minus sign where `n` is
/// negative.
pub fn format_i64(n: i64) -> (s: String)
    ensures
        s@ == signed_decimal(n as int),
{
    if n < 0 {
        let magnitude: u64 = if n == i64::MIN {
            9223372036854775808u64
        } else {
            (-n) as u64
        };
        let v = decimal_chars(magnitude);
        let mut s = String::new();
        s.push('-');
        let mut i: usize = 0;
        while i < v.len()
            invariant
                i <= v.len(),
                s@ == seq!['-'] + v@.take(i as int),
            decreases v.len() - i,
        {
            s.push(v[i]);
            assert(v@.take(i as int).push(v@[i as int]) =~= v@.take(i + 1));
            assert((seq!['-'] + v@.take(i as int)).push(v@[i as int]) =~= seq!['-'] + v@.take(i + 1));
            i += 1;
        }
        assert(v@.take(v.len() as int) =~= v@);
        s
    } else {
        format_u64(n as u64)
    }
}

/// `n` spaces.
pub open spec fn spaces(n: nat) -> Seq<char> {
    Seq::new(n, |i: int| ' ')
}

/// `s` followed by as many spaces as bring it to `width` characters; `s`
/// itself where it is that long already.
pub open spec fn padded_right(s: Seq<char>, width: nat) -> Seq<char> {
    if s.len() >= width {
        s
    } else {
        s + spaces((width - s.len()) as nat)
    }
}

/// `s` behind as many spaces as bring it to `width` characters; `s` itself
/// where it is that long already.
pub open spec fn padded_left(s: Seq<char>, width: nat) -> Seq<char> {
    if s.len() >= width {
        s
    } else {
        spaces((width - s.len()) as nat) + s
    }
}

/// Appends `n` spaces to `out`.
fn push_spaces(out: &mut String, n: usize)
    ensures
        final(out)@ == old(out)@ + spaces(n as nat),
{
    let mut i: usize = 0;
    assert(out@ + spaces(0) =~= out@);
    while i < n
        invariant
            i <= n,
            out@ == old(out)@ + spaces(i as nat),
        decreases n - i,
    {
        out.push(' ');
        assert((old(out)@ + spaces(i as nat)).push(' ') =~= old(out)@ + spaces((i + 1) as nat));
        i += 1;
    }
}

/// `s` left-aligned in a field of `width` characters.
pub fn pad_right(s: &str, width: usize) -> (r: String)
    ensures
        r@ == padded_right(s@, width as nat),
{
    let n = s.unicode_len();
    let mut r = String::new();
    r.append(s);
    assert(r@ =~= s@);
    if n < width {
        push_spaces(&mut r, width - n);
    }
    r
}

/// `s` right-aligned in a field of `width` characters.
pub fn pad_left(s: &str, width: usize) -> (r: String)
    ensures
        r@ == padded_left(s@, width as nat),
{
    let n = s.unicode_len();
    let mut r = String::new();
    if n < width {
        push_spaces(&mut r, width - n);
    }
    let ghost before = r@;
    r.append(s);
    assert(n >= width ==> r@ =~= s@);
    assert(n < width ==> before =~= spaces((width - n) as nat));
    r
}

/// The longest run of characters at the end of `s` that holds no white
/// space: the word that is still open when `s` has been read.
pub open spec fn open_word(s: Seq<char>) -> Seq<char>
    decreases s.len(),
{
    if s.len() == 0 || char_is_whitespace(s.last()) {
        Seq::empty()
    } else {
        open_word(s.drop_last()).push(s.last())
    }
}

/// The words of `s` that a white-space character ends, in order.
pub open spec fn closed_words(s: Seq<char>) -> Seq<Seq<char>>
    decreases s.len(),
{
    if s.len() == 0 {
        Seq::empty()
    } else if char_is_whitespace(s.last()) && open_word(s.drop_last()).len() > 0 {
        closed_words(s.drop_last()).push(open_word(s.drop_last()))
    } else {
        closed_words(s.drop_last())
    }
}

/// The words of `s`: its maximal runs of characters that are not white
/// space, in order.
pub open spec fn words(s: Seq<char>) -> Seq<Seq<char>> {
    if open_word(s).len() > 0 {
        closed_words(s).push(open_word(s))
    } else {
        closed_words(s)
    }
}

/// `w` is not empty and none of its characters is white space.
pub open spec fn is_word(w: Seq<char>) -> bool {
    w.len() > 0 && forall|i: int| 0 <= i < w.len() ==> !char_is_whitespace(#[trigger] w[i])
}

/// The open word of any text holds no white space.
pub proof fn lemma_open_word_clean(s: Seq<char>)
    ensures
        forall|i: int| 0 <= i < open_word(s).len() ==> !char_is_whitespace(#[trigger] open_word(s)[i]),
    decreases s.len(),
{
    if s.len() == 0 || char_is_whitespace(s.last()) {
    } else {
        let p = s.drop_last();
        lemma_open_word_clean(p);
        assert forall|i: int| 0 <= i < open_word(s).len() implies !char_is_whitespace(
            #[trigger] open_word(s)[i],
        ) by {
            if i < open_word(p).len() {
                assert(open_word(s)[i] == open_word(p)[i]);
            }
        }
    }
}

/// Every word of a text is a word: not empty and free of white space.
pub proof fn lemma_words_are_words(s: Seq<char>)
    ensures
        forall|k: int| 0 <= k < words(s).len() ==> is_word(#[trigger] words(s)[k]),
        forall|k: int| 0 <= k < closed_words(s).len() ==> is_word(#[trigger] closed_words(s)[k]),
    decreases s.len(),
{
    lemma_open_word_clean(s);
    if s.len() > 0 {
        let p = s.drop_last();
        lemma_words_are_words(p);
        lemma_open_word_clean(p);
        assert forall|k: int| 0 <= k < closed_words(s).len() implies is_word(
            #[trigger] closed_words(s)[k],
        ) by {
            if k < closed_words(p).len() {
                assert(closed_words(s)[k] == closed_words(p)[k]);
            }
        }
    }
    assert forall|k: int| 0 <= k < words(s).len() implies is_word(#[trigger] words(s)[k]) by {
        if k < closed_words(s).len() {
            assert(words(s)[k] == closed_words(s)[k]);
        }
    }
}

/// The words of `text`, split at white space.
pub fn split_whitespace(text: &str) -> (r: Vec<String>)
    ensures
        r.deep_view() == words(text@),
        forall|k: int| 0 <= k < r.len() ==> is_word(#[trigger] r[k]@),
{
    let chars = to_chars(text);
    let mut r: Vec<String> = Vec::new();
    let mut cur = String::new();
    let mut cur_len: usize = 0;
    let mut i: usize = 0;
    assert(r.deep_view() =~= Seq::<Seq<char>>::empty());
    while i < chars.len()
        invariant
            i <= chars.len(),
            chars@ == text@,
            r.deep_view() == closed_words(chars@.take(i as int)),
            cur@ == open_word(chars@.take(i as int)),
            cur_len == cur@.len(),
            cur_len <= i,
        decreases chars.len() - i,
    {
        let c = chars[i];
        proof {
            assert(chars@.take(i + 1).drop_last() =~= chars@.take(i as int));
            assert(chars@.take(i + 1).last() == c);
        }
        if c.is_whitespace() {
            if cur_len > 0 {
                let ghost before = r.deep_view();
                r.push(cur);
                assert(r.deep_view() =~= before.push(cur@));
                cur = String::new();
                cur_len = 0;
            }
        } else {
            cur.push(c);
            cur_len += 1;
        }
        i += 1;
    }
    assert(chars@.take(i as int) =~= chars@);
    if cur_len > 0 {
        let ghost before = r.deep_view();
        r.push(cur);
        assert(r.deep_view() =~= before.push(cur@));
    }
    proof {
        lemma_words_are_words(text@);
        assert forall|k: int| 0 <= k < r.len() implies is_word(#[trigger] r[k]@) by {
            assert(r[k]@ == r.deep_view()[k]);
            assert(is_word(words(text@)[k]));
        }
    }
    r
}

/// The parts of `parts` in order, with `sep` between each two neighbours.
pub open spec fn joined(parts: Seq<Seq<char>>, sep: Seq<char>) -> Seq<char>
    decreases parts.len(),
{
    if parts.len() == 0 {
        Seq::empty()
    } else if parts.len() == 1 {
        parts[0]
    } else {
        joined(parts.drop_last(), sep) + sep + parts.last()
    }
}

/// `parts` in order as one string, with `sep` between each two neighbours.
pub fn join(parts: &Vec<String>, sep: &str) -> (r: String)
    ensures
        r@ == joined(parts.deep_view(), sep@),
{
    let mut r = String::new();
    let mut i: usize = 0;
    while i < parts.len()
        invariant
            i <= parts.len(),
            r@ == joined(parts.deep_view().take(i as int), sep@),
        decreases parts.len() - i,
    {
        proof {
            let p = parts.deep_view();
            assert(p.take(i + 1).drop_last() =~= p.take(i as int));
            assert(p.take(i + 1).last() == parts[i as int]@);
            if i == 0 {
                assert(p.take(1)[0] == parts[0]@);
            }
        }
        if i > 0 {
            r.append(sep);
        }
        let ghost before = r@;
        r.append(parts[i].as_str());
        assert(i == 0 ==> r@ =~= parts[0]@);
        i += 1;
    }
    assert(parts.deep_view().take(i as int) =~= parts.deep_view());
    r
}

/// `c` is one of the ten decimal digits.
pub open spec fn is_digit(c: char) -> bool {
    '0' <= c && c <= '9'
}

/// Whether `c` is one of the ten decimal digits.
pub fn char_is_digit(c: char) -> (r: bool)
    ensures
        r == is_digit(c),
{
    '0' <= c && c <= '9'
}

/// Every character of `s` is a decimal digit.
pub open spec fn all_digits(s: Seq<char>) -> bool {
    forall|i: int| 0 <= i < s.len() ==> is_digit(#[trigger] s[i])
}

/// The number that the decimal digits `s` write, most significant first.
pub open spec fn digits_value(s: Seq<char>) -> nat
    decreases s.len(),
{
    if s.len() == 0 {
        0
    } else {
        (digits_value(s.drop_last()) * 10 + (s.last() as nat - 48)) as nat
    }
}

/// What a numeral of at most 255 stands for: an optional `+`, then one or
/// more decimal digits and nothing else. `None` for every other text.
pub open spec fn parsed_u8(s: Seq<char>) -> Option<u8> {
    let body = if s.len() > 0 && s[0] == '+' {
        s.drop_first()
    } else {
        s
    };
    if body.len() > 0 && all_digits(body) && digits_value(body) <= 255 {
        Some(digits_value(body) as u8)
    } else {
        None
    }
}

/// A numeral is worth at least as much as any numeral it starts with.
proof fn lemma_digits_value_grows(s: Seq<char>, k: int)
    requires
        0 <= k <= s.len(),
        all_digits(s),
    ensures
        digits_value(s.take(k)) <= digits_value(s),
    decreases s.len() - k,
{
    if k < s.len() {
        lemma_digits_value_grows(s, k + 1);
        assert(s.take(k + 1).drop_last() =~= s.take(k));
        assert(is_digit(s[k]));
    } else {
        assert(s.take(k) =~= s);
    }
}

/// Reads a numeral of at most 255.
pub fn parse_u8(text: &str) -> (r: Option<u8>)
    ensures
        r == parsed_u8(text@),
{
    let chars = to_chars(text);
    let start: usize = if chars.len() > 0 && chars[0] == '+' {
        1
    } else {
        0
    };
    let ghost body = if start == 1 {
        chars@.drop_first()
    } else {
        chars@
    };
    assert(body =~= chars@.skip(start as int));
    if chars.len() == start {
        return None;
    }
    let mut value: u32 = 0;
    let mut i: usize = start;
    while i < chars.len()
        invariant
            start <= i <= chars.len(),
            chars@ == text@,
            start == 0 || start == 1,
            start == 1 <==> (chars@.len() > 0 && chars@[0] == '+'),
            body == chars@.skip(start as int),
            all_digits(body.take(i - start)),
            value == digits_value(body.take(i - start)),
            value <= 255,
        decreases chars.len() - i,
    {
        let c = chars[i];
        proof {
            assert(body.take(i + 1 - start).drop_last() =~= body.take(i - start));
            assert(body.take(i + 1 - start).last() == c);
            assert(body[i - start] == c);
        }
        if !char_is_digit(c) {
            assert(!is_digit(body[i - start]));
            return None;
        }
        let d: u32 = (c as u32) - 48;
        let next: u32 = value * 10 + d;
        proof {
            assert forall|k: int| 0 <= k < body.take(i + 1 - start).len() implies is_digit(
                #[trigger] body.take(i + 1 - start)[k],
            ) by {
                if k < i - start {
                    assert(body.take(i + 1 - start)[k] == body.take(i - start)[k]);
                }
            }
            assert(next == digits_value(body.take(i + 1 - start)));
        }
        if next > 255 {
            proof {
                if all_digits(body) {
                    lemma_digits_value_grows(body, i + 1 - start);
                    assert(digits_value(body) > 255);
                }
                assert(body == if text@.len() > 0 && text@[0] == '+' {
                    text@.drop_first()
                } else {
                    text@
                });
            }
            return None;
        }
        value = next;
        i += 1;
    }
    assert(body.take(i - start) =~= body);
    Some(value as u8)
}

/// `a` comes before `b` in dictionary order, character by character; a text
/// comes after every text that it starts with.
pub open spec fn lex_less(a: Seq<char>, b: Seq<char>) -> bool
    decreases a.len(),
{
    if b.len() == 0 {
        false
    } else if a.len() == 0 {
        true
    } else if a[0] != b[0] {
        a[0] < b[0]
    } else {
        lex_less(a.drop_first(), b.drop_first())
    }
}

/// No text comes before itself.
pub proof fn lemma_lex_less_irreflexive(a: Seq<char>)
    ensures
        !lex_less(a, a),
    decreases a.len(),
{
    if a.len() > 0 {
        lemma_lex_less_irreflexive(a.drop_first());
    }
}

/// Of two different texts, one comes before the other.
pub proof fn lemma_lex_less_total(a: Seq<char>, b: Seq<char>)
    ensures
        a == b || lex_less(a, b) || lex_less(b, a),
    decreases a.len(),
{
    if a.len() == 0 || b.len() == 0 {
        if a.len() == 0 && b.len() == 0 {
            assert(a =~= b);
        }
    } else if a[0] == b[0] {
        lemma_lex_less_total(a.drop_first(), b.drop_first());
        if a.drop_first() == b.drop_first() {
            assert(a =~= seq![a[0]] + a.drop_first());
            assert(b =~= seq![b[0]] + b.drop_first());
        }
    }
}

/// Two texts do not come before each other.
pub proof fn lemma_lex_less_asymmetric(a: Seq<char>, b: Seq<char>)
    ensures
        !(lex_less(a, b) && lex_less(b, a)),
    decreases a.len(),
{
    if a.len() > 0 && b.len() > 0 && a[0] == b[0] {
        lemma_lex_less_asymmetric(a.drop_first(), b.drop_first());
    }
}

/// What comes before a text comes before everything after that text.
pub proof fn lemma_lex_less_transitive(a: Seq<char>, b: Seq<char>, c: Seq<char>)
    requires
        lex_less(a, b),
        lex_less(b, c),
    ensures
        lex_less(a, c),
    decreases a.len(),
{
    if a.len() > 0 && b.len() > 0 && c.len() > 0 && a[0] == b[0] && b[0] == c[0] {
        lemma_lex_less_transitive(a.drop_first(), b.drop_first(), c.drop_first());
    }
}

/// Whether `a` comes before `b` in dictionary order.
pub fn text_less(a: &str, b: &str) -> (r: bool)
    ensures
        r == lex_less(a@, b@),
{
    let x = to_chars(a);
    let y = to_chars(b);
    let mut i: usize = 0;
    assert(x@.skip(0) =~= x@ && y@.skip(0) =~= y@);
    while i < x.len() && i < y.len()
        invariant
            i <= x.len(),
            i <= y.len(),
            x@ == a@,
            y@ == b@,
            lex_less(a@, b@) == lex_less(x@.skip(i as int), y@.skip(i as int)),
        decreases x.len() - i,
    {
        proof {
            assert(x@.skip(i as int)[0] == x@[i as int]);
            assert(y@.skip(i as int)[0] == y@[i as int]);
            assert(x@.skip(i as int).drop_first() =~= x@.skip(i + 1));
            assert(y@.skip(i as int).drop_first() =~= y@.skip(i + 1));
        }
        if x[i] != y[i] {
            assert(x@.skip(i as int).len() > 0 && y@.skip(i as int).len() > 0);
            assert(lex_less(x@.skip(i as int), y@.skip(i as int)) == (x@[i as int] < y@[i as int]));
            return x[i] < y[i];
        }
        i += 1;
    }
    i < y.len()
}

/// Whether two lists of strings hold the same texts in the same order.
pub fn same_texts(a: &Vec<String>, b: &Vec<String>) -> (r: bool)
    ensures
        r == (a.deep_view() == b.deep_view()),
{
    if a.len() != b.len() {
        assert(a.deep_view().len() != b.deep_view().len());
        return false;
    }
    let mut i: usize = 0;
    while i < a.len()
        invariant
            i <= a.len(),
            a.len() == b.len(),
            forall|k: int| 0 <= k < i ==> a[k]@ == b[k]@,
        decreases a.len() - i,
    {
        if a[i] != b[i] {
            assert(a.deep_view()[i as int] != b.deep_view()[i as int]);
            return false;
        }
        i += 1;
    }
    assert(a.deep_view() =~= b.deep_view());
    true
}

/// A copy of `v` that holds the same texts in the same order.
pub fn clone_texts(v: &Vec<String>) -> (r: Vec<String>)
    ensures
        r.deep_view() == v.deep_view(),
{
    let mut r: Vec<String> = Vec::new();
    let mut i: usize = 0;
    while i < v.len()
        invariant
            i <= v.len(),
            r.len() == i,
            forall|k: int| 0 <= k < i ==> r[k]@ == v[k]@,
        decreases v.len() - i,
    {
        r.push(v[i].clone());
        i += 1;
    }
    assert(r.deep_view() =~= v.deep_view());
    r
}

/// Whether some entry of `list` holds the text `item`.
pub fn contains_text(list: &Vec<String>, item: &str) -> (r: bool)
    ensures
        r == list.deep_view().contains(item@),
{
    let mut i: usize = 0;
    while i < list.len()
        invariant
            i <= list.len(),
            forall|k: int| 0 <= k < i ==> list[k]@ != item@,
        decreases list.len() - i,
    {
        if same_text(list[i].as_str(), item) {
            assert(list.deep_view()[i as int] == item@);
            return true;
        }
        i += 1;
    }
    assert forall|k: int| 0 <= k < list.deep_view().len() implies list.deep_view()[k] != item@ by {
        assert(list.deep_view()[k] == list[k]@);
    }
    false
}

/// Whether `a` and `b` hold the same text.
pub fn same_text(a: &str, b: &str) -> (r: bool)
    ensures
        r == (a@ == b@),
{
    let x = to_chars(a);
    let y = to_chars(b);
    if x.len() != y.len() {
        return false;
    }
    let mut i: usize = 0;
    while i < x.len()
        invariant
            i <= x.len(),
            x.len() == y.len(),
            x@ == a@,
            y@ == b@,
            forall|k: int| 0 <= k < i ==> x[k] == y[k],
        decreases x.len() - i,
    {
        if x[i] != y[i] {
            assert(a@[i as int] != b@[i as int]);
            return false;
        }
        i += 1;
    }
    assert(x@ =~= y@);
    true
}

/// The characters of `s` behind its last `sep`; all of `s` where it holds
/// none.
pub open spec fn last_field(s: Seq<char>, sep: char) -> Seq<char>
    decreases s.len(),
{
    if s.len() == 0 || s.last() == sep {
        Seq::empty()
    } else {
        last_field(s.drop_last(), sep).push(s.last())
    }
}

/// The fields of `s` that a `sep` ends, in order.
pub open spec fn closed_fields(s: Seq<char>, sep: char) -> Seq<Seq<char>>
    decreases s.len(),
{
    if s.len() == 0 {
        Seq::empty()
    } else if s.last() == sep {
        closed_fields(s.drop_last(), sep).push(last_field(s.drop_last(), sep))
    } else {
        closed_fields(s.drop_last(), sep)
    }
}

/// The pieces into which the occurrences of `sep` cut `s`: one more than
/// there are occurrences, empty pieces included.
pub open spec fn fields(s: Seq<char>, sep: char) -> Seq<Seq<char>> {
    closed_fields(s, sep).push(last_field(s, sep))
}

/// The pieces of `text` between the occurrences of `sep`.
pub fn split_char(text: &str, sep: char) -> (r: Vec<String>)
    ensures
        r.deep_view() == fields(text@, sep),
        r.len() >= 1,
{
    let chars = to_chars(text);
    let mut r: Vec<String> = Vec::new();
    let mut cur = String::new();
    let mut i: usize = 0;
    assert(r.deep_view() =~= Seq::<Seq<char>>::empty());
    while i < chars.len()
        invariant
            i <= chars.len(),
            chars@ == text@,
            r.deep_view() == closed_fields(chars@.take(i as int), sep),
            cur@ == last_field(chars@.take(i as int), sep),
        decreases chars.len() - i,
    {
        let c = chars[i];
        proof {
            assert(chars@.take(i + 1).drop_last() =~= chars@.take(i as int));
            assert(chars@.take(i + 1).last() == c);
        }
        if c == sep {
            let ghost before = r.deep_view();
            r.push(cur);
            assert(r.deep_view() =~= before.push(cur@));
            cur = String::new();
        } else {
            cur.push(c);
        }
        i += 1;
    }
    assert(chars@.take(i as int) =~= chars@);
    let ghost before = r.deep_view();
    r.push(cur);
    assert(r.deep_view() =~= before.push(cur@));
    r
}

/// A list with one more entry at its end holds what it held before, and
/// that entry.
pub proof fn lemma_contains_push<A>(s: Seq<A>, x: A, y: A)
    ensures
        s.push(x).contains(y) <==> (s.contains(y) || x == y),
{
    if s.push(x).contains(y) {
        let k = choose|k: int| 0 <= k < s.push(x).len() && #[trigger] s.push(x)[k] == y;
        if k < s.len() {
            assert(s[k] == y);
        }
    }
    if s.contains(y) {
        let k = choose|k: int| 0 <= k < s.len() && #[trigger] s[k] == y;
        assert(s.push(x)[k] == y);
    }
    if x == y {
        assert(s.push(x)[s.len() as int] == y);
    }
}

/// The number of characters at the start of `s` that are not white space.
pub open spec fn head_len(s: Seq<char>) -> int
    decreases s.len(),
{
    if s.len() == 0 || char_is_whitespace(s[0]) {
        0
    } else {
        1 + head_len(s.drop_first())
    }
}

/// `head_len` is the one place before which no character is white space and
/// at which, unless it is the end, one is.
pub proof fn lemma_head_len(s: Seq<char>)
    ensures
        0 <= head_len(s) <= s.len(),
        forall|j: int| 0 <= j < head_len(s) ==> !char_is_whitespace(#[trigger] s[j]),
        head_len(s) < s.len() ==> char_is_whitespace(s[head_len(s)]),
    decreases s.len(),
{
    if s.len() == 0 || char_is_whitespace(s[0]) {
    } else {
        let rest = s.drop_first();
        lemma_head_len(rest);
        assert forall|j: int| 0 <= j < head_len(s) implies !char_is_whitespace(#[trigger] s[j]) by {
            if j > 0 {
                assert(s[j] == rest[j - 1]);
            }
        }
        if head_len(s) < s.len() {
            assert(s[head_len(s)] == rest[head_len(rest)]);
        }
    }
}

/// A place before which no character is white space, and which is the end
/// or holds a white-space character, is the length of the head.
pub proof fn lemma_head_len_is(s: Seq<char>, i: int)
    requires
        0 <= i <= s.len(),
        forall|j: int| 0 <= j < i ==> !char_is_whitespace(#[trigger] s[j]),
        i < s.len() ==> char_is_whitespace(s[i]),
    ensures
        head_len(s) == i,
{
    lemma_head_len(s);
    let k = head_len(s);
    if k < i {
        assert(!char_is_whitespace(s[k]));
    }
    if i < k {
        assert(!char_is_whitespace(s[i]));
    }
}

/// The part of `s` before its first white-space character; all of `s` where
/// it holds none.
pub open spec fn head_of(s: Seq<char>) -> Seq<char> {
    s.take(head_len(s))
}

/// The part of `s` behind its first white-space character; nothing where it
/// holds none.
pub open spec fn tail_of(s: Seq<char>) -> Seq<char> {
    if head_len(s) < s.len() {
        s.skip(head_len(s) + 1)
    } else {
        Seq::empty()
    }
}

/// Cuts `text` at its first white-space character: what stands before it,
/// and what stands behind it.
pub fn split_head(text: &str) -> (r: (String, String))
    ensures
        r.0@ == head_of(text@),
        r.1@ == tail_of(text@),
{
    let chars = to_chars(text);
    let mut head = String::new();
    let mut i: usize = 0;
    while i < chars.len() && !chars[i].is_whitespace()
        invariant
            i <= chars.len(),
            chars@ == text@,
            head@ == chars@.take(i as int),
            forall|j: int| 0 <= j < i ==> !char_is_whitespace(#[trigger] chars@[j]),
        decreases chars.len() - i,
    {
        head.push(chars[i]);
        assert(chars@.take(i as int).push(chars@[i as int]) =~= chars@.take(i + 1));
        i += 1;
    }
    proof {
        lemma_head_len_is(chars@, i as int);
    }
    let mut tail = String::new();
    if i < chars.len() {
        let start = i + 1;
        let mut k: usize = start;
        assert(chars@.skip(start as int).take(0) =~= Seq::<char>::empty());
        while k < chars.len()
            invariant
                start <= k <= chars.len(),
                tail@ == chars@.skip(start as int).take(k - start),
            decreases chars.len() - k,
        {
            tail.push(chars[k]);
            assert(chars@.skip(start as int).take(k - start).push(chars@[k as int]) =~= chars@.skip(
                start as int,
            ).take(k + 1 - start));
            k += 1;
        }
        assert(chars@.skip(start as int).take(k - start) =~= chars@.skip(start as int));
    }
    (head, tail)
}

/// `s` starts with `prefix`.
pub open spec fn has_prefix(s: Seq<char>, prefix: Seq<char>) -> bool {
    prefix.len() <= s.len() && s.take(prefix.len() as int) == prefix
}

/// Whether `text` starts with `prefix`.
pub fn starts_with(text: &str, prefix: &str) -> (r: bool)
    ensures
        r == has_prefix(text@, prefix@),
{
    let s = to_chars(text);
    let p = to_chars(prefix);
    if p.len() > s.len() {
        return false;
    }
    let mut i: usize = 0;
    while i < p.len()
        invariant
            i <= p.len(),
            p.len() <= s.len(),
            s@ == text@,
            p@ == prefix@,
            forall|k: int| 0 <= k < i ==> s[k] == p[k],
        decreases p.len() - i,
    {
        if s[i] != p[i] {
            assert(s@.take(p.len() as int)[i as int] != p@[i as int]);
            return false;
        }
        i += 1;
    }
    assert(s@.take(p.len() as int) =~= p@);
    true
}

/// The number of white-space characters at the end of `s`.
pub open spec fn trailing_space(s: Seq<char>) -> int
    decreases s.len(),
{
    if s.len() == 0 || !char_is_whitespace(s.last()) {
        0
    } else {
        1 + trailing_space(s.drop_last())
    }
}

/// The number of white-space characters at the start of `s`.
pub open spec fn leading_space(s: Seq<char>) -> int
    decreases s.len(),
{
    if s.len() == 0 || !char_is_whitespace(s[0]) {
        0
    } else {
        1 + leading_space(s.drop_first())
    }
}

/// `s` without the white space at its start and at its end.
pub open spec fn trimmed(s: Seq<char>) -> Seq<char> {
    if leading_space(s) >= s.len() {
        Seq::empty()
    } else {
        s.subrange(leading_space(s), s.len() - trailing_space(s))
    }
}

/// Where a character of a text is not white space, the white space at the
/// end of the text ends behind it.
pub proof fn lemma_trailing_space(s: Seq<char>, i: int)
    requires
        0 <= i < s.len(),
        !char_is_whitespace(s[i]),
    ensures
        0 <= trailing_space(s) < s.len() - i,
    decreases s.len(),
{
    if !char_is_whitespace(s.last()) {
    } else {
        assert(i < s.len() - 1);
        assert(s.drop_last()[i] == s[i]);
        lemma_trailing_space(s.drop_last(), i);
    }
}

/// `text` without the white space at its start and at its end.
pub fn trim(text: &str) -> (r: String)
    ensures
        r@ == trimmed(text@),
{
    let chars = to_chars(text);
    let mut start: usize = 0;
    assert(chars@.skip(0) =~= chars@);
    while start < chars.len() && chars[start].is_whitespace()
        invariant
            start <= chars.len(),
            leading_space(chars@) == start + leading_space(chars@.skip(start as int)),
        decreases chars.len() - start,
    {
        assert(chars@.skip(start as int)[0] == chars@[start as int]);
        assert(chars@.skip(start as int).drop_first() =~= chars@.skip(start + 1));
        start += 1;
    }
    proof {
        if start < chars.len() {
            assert(chars@.skip(start as int)[0] == chars@[start as int]);
        }
        assert(leading_space(chars@) == start);
    }
    if start == chars.len() {
        return String::new();
    }
    let mut end: usize = chars.len();
    assert(chars@.take(end as int) =~= chars@);
    proof {
        lemma_trailing_space(chars@, start as int);
    }
    while end > start + 1 && chars[end - 1].is_whitespace()
        invariant
            start < end <= chars.len(),
            !char_is_whitespace(chars@[start as int]),
            trailing_space(chars@) == chars.len() - end + trailing_space(chars@.take(end as int)),
        decreases end,
    {
        assert(chars@.take(end as int).last() == chars@[end - 1]);
        assert(chars@.take(end as int).drop_last() =~= chars@.take(end - 1));
        end -= 1;
    }
    proof {
        assert(chars@.take(end as int).last() == chars@[end - 1]);
        assert(trailing_space(chars@.take(end as int)) == 0);
    }
    let mut r = String::new();
    let mut k: usize = start;
    assert(chars@.subrange(start as int, start as int) =~= Seq::<char>::empty());
    while k < end
        invariant
            start <= k <= end,
            end <= chars.len(),
            r@ == chars@.subrange(start as int, k as int),
        decreases end - k,
    {
        r.push(chars[k]);
        assert(chars@.subrange(start as int, k as int).push(chars@[k as int]) =~= chars@.subrange(
            start as int,
            k + 1,
        ));
        k += 1;
    }
    r
}

/// A numeral reads back as the number it was written for: it is made of
/// digits only, and their value is the number.
pub proof fn lemma_decimal_reads_back(n: nat)
    ensures
        decimal(n).len() > 0,
        all_digits(decimal(n)),
        digits_value(decimal(n)) == n,
        n <= 255 ==> parsed_u8(decimal(n)) == Some(n as u8),
    decreases n,
{
    if n < 10 {
        assert(decimal(n) =~= seq![digit_char(n)]);
        assert(decimal(n).drop_last() =~= Seq::<char>::empty());
        assert(digits_value(decimal(n).drop_last()) == 0);
        assert(decimal(n).last() == digit_char(n));
    } else {
        lemma_decimal_reads_back(n / 10);
        let front = decimal(n / 10);
        let last = digit_char(n % 10);
        assert(decimal(n) == front.push(last));
        assert(decimal(n).drop_last() =~= front);
        assert(decimal(n).last() == last);
        assert forall|i: int| 0 <= i < decimal(n).len() implies is_digit(
            #[trigger] decimal(n)[i],
        ) by {
            if i < front.len() {
                assert(decimal(n)[i] == front[i]);
            }
        }
    }
    assert(is_digit(decimal(n)[0]));
}

/// A text that holds no `sep` adds no field: behind whatever stands before
/// it, it only lengthens the last one.
pub proof fn lemma_fields_of_plain_text(front: Seq<char>, plain: Seq<char>, sep: char)
    requires
        forall|i: int| 0 <= i < plain.len() ==> #[trigger] plain[i] != sep,
    ensures
        last_field(front + plain, sep) == last_field(front, sep) + plain,
        closed_fields(front + plain, sep) == closed_fields(front, sep),
    decreases plain.len(),
{
    if plain.len() == 0 {
        assert(front + plain =~= front);
        assert(last_field(front, sep) + plain =~= last_field(front, sep));
    } else {
        let shorter = plain.drop_last();
        lemma_fields_of_plain_text(front, shorter, sep);
        assert((front + plain).drop_last() =~= front + shorter);
        assert((front + plain).last() == plain.last());
        assert(plain[plain.len() - 1] != sep);
        assert((last_field(front, sep) + shorter).push(plain.last()) =~= last_field(front, sep)
            + plain);
    }
}

/// A `sep` ends the field that was open and opens an empty one.
pub proof fn lemma_fields_of_separator(front: Seq<char>, sep: char)
    ensures
        last_field(front.push(sep), sep) == Seq::<char>::empty(),
        closed_fields(front.push(sep), sep) == closed_fields(front, sep).push(
            last_field(front, sep),
        ),
{
    assert(front.push(sep).drop_last() =~= front);
}

/// `s` in the middle of a field of `width` characters: of the spaces that
/// fill it up, half stand before it, and where their number is odd, the
/// one more stands behind it. `s` itself where it is that long already.
pub open spec fn padded_center(s: Seq<char>, width: nat) -> Seq<char> {
    if s.len() >= width {
        s
    } else {
        spaces(((width - s.len()) / 2) as nat) + s + spaces(
            ((width - s.len()) - (width - s.len()) / 2) as nat,
        )
    }
}

/// `s` centred in a field of `width` characters.
pub fn pad_center(s: &str, width: usize) -> (r: String)
    ensures
        r@ == padded_center(s@, width as nat),
{
    let n = s.unicode_len();
    let mut r = String::new();
    if n < width {
        let before = (width - n) / 2;
        push_spaces(&mut r, before);
        let ghost front = r@;
        r.append(s);
        push_spaces(&mut r, width - n - before);
        assert(front =~= spaces(before as nat));
    } else {
        r.append(s);
        assert(r@ =~= s@);
    }
    r
}

} // verus!
