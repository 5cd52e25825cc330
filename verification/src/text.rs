//! Character-sequence utilities: decimal formatting and parsing, whitespace, trimming,
//! splitting into words, and conversions between `str`, `String` and `Vec<char>`.

use vstd::prelude::*;

verus! {

/// The ASCII character for a decimal digit `d < 10`.
pub open spec fn digit_char(d: nat) -> char {
    if d == 0 { '0' }
    else if d == 1 { '1' }
    else if d == 2 { '2' }
    else if d == 3 { '3' }
    else if d == 4 { '4' }
    else if d == 5 { '5' }
    else if d == 6 { '6' }
    else if d == 7 { '7' }
    else if d == 8 { '8' }
    else { '9' }
}

/// The decimal representation of `n`, without sign or leading zeros ("0" for zero).
pub open spec fn decimal(n: nat) -> Seq<char>
    decreases n,
{
    if n < 10 {
        seq![digit_char(n)]
    } else {
        decimal(n / 10).push(digit_char(n % 10))
    }
}

fn digit_to_char(d: u128) -> (c: char)
    requires
        d < 10,
    ensures
        c == digit_char(d as nat),
{
    if d == 0 { '0' }
    else if d == 1 { '1' }
    else if d == 2 { '2' }
    else if d == 3 { '3' }
    else if d == 4 { '4' }
    else if d == 5 { '5' }
    else if d == 6 { '6' }
    else if d == 7 { '7' }
    else if d == 8 { '8' }
    else { '9' }
}

/// Appends the decimal digits of `n` to `out`.
pub fn push_decimal(out: &mut Vec<char>, n: u128)
    ensures
        final(out)@ == old(out)@ + decimal(n as nat),
    decreases n,
{
    if n >= 10 {
        push_decimal(out, n / 10);
    }
    out.push(digit_to_char(n % 10));
    proof {
        if n < 10 {
            assert(decimal(n as nat) =~= seq![digit_char(n as nat)]);
        }
    }
}

} // verus!

verus! {

/// The characters of `s`, in order.
pub fn chars_of(s: &str) -> (r: Vec<char>)
    ensures
        r@ == s@,
{
    let n = s.unicode_len();
    let mut r: Vec<char> = Vec::new();
    let mut i: usize = 0;
    while i < n
        invariant
            n == s@.len(),
            i <= n,
            r@ == s@.take(i as int),
        decreases n - i,
    {
        let c = s.get_char(i);
        r.push(c);
        i = i + 1;
        assert(r@ =~= s@.take(i as int));
    }
    assert(r@ =~= s@);
    r
}

/// `String::from_iter` over a slice of characters: the string holding exactly those characters.
#[verifier::external_body]
pub(crate) fn string_of(v: &Vec<char>) -> (r: String)
    ensures
        r@ == v@,
{
    v.iter().collect::<String>()
}

/// `str::to_lowercase`: the Unicode lowercase mapping of a string.
pub uninterp spec fn lowercase(s: Seq<char>) -> Seq<char>;

/// An ASCII character other than an uppercase letter: its lowercase mapping is itself.
pub open spec fn lower_fixed(c: char) -> bool {
    c <= '\u{7f}' && !('A' <= c && c <= 'Z')
}

/// `str::to_lowercase`. The contract names the result: it is the Unicode lowercase
/// mapping of the argument, which depends on nothing else. It also states what the Unicode
/// tables give for ASCII: a string of ASCII characters other than uppercase letters is its own
/// lowercase mapping.
#[verifier::external_body]
pub(crate) fn to_lowercase(s: &str) -> (r: String)
    ensures
        r@ == lowercase(s@),
        (forall|i: int| 0 <= i < s@.len() ==> lower_fixed(#[trigger] s@[i])) ==> r@ == s@,
{
    s.to_lowercase()
}

/// The lowercase mapping of a character sequence, as characters.
pub fn lowercase_chars(v: &Vec<char>) -> (r: Vec<char>)
    ensures
        r@ == lowercase(v@),
        (forall|i: int| 0 <= i < v@.len() ==> lower_fixed(#[trigger] v@[i])) ==> r@ == v@,
{
    let s = string_of(v);
    let l = to_lowercase(s.as_str());
    chars_of(l.as_str())
}

/// Whether two character sequences are equal.
pub fn chars_eq(a: &Vec<char>, b: &Vec<char>) -> (r: bool)
    ensures
        r == (a@ == b@),
{
    if a.len() != b.len() {
        return false;
    }
    let mut i: usize = 0;
    while i < a.len()
        invariant
            a.len() == b.len(),
            i <= a.len(),
            forall|j: int| 0 <= j < i ==> a@[j] == b@[j],
        decreases a.len() - i,
    {
        if a[i] != b[i] {
            return false;
        }
        i = i + 1;
    }
    assert(a@ =~= b@);
    true
}

/// Whether a character sequence spells the string `s`.
pub fn chars_eq_str(a: &Vec<char>, s: &str) -> (r: bool)
    ensures
        r == (a@ == s@),
{
    let b = chars_of(s);
    chars_eq(a, &b)
}

/// `t` occurs in `s` at position `i`.
pub open spec fn occurs_at(s: Seq<char>, t: Seq<char>, i: int) -> bool {
    0 <= i && i + t.len() <= s.len() && s.subrange(i, i + t.len()) == t
}

/// `t` is a prefix of `s`.
pub open spec fn has_prefix(s: Seq<char>, t: Seq<char>) -> bool {
    occurs_at(s, t, 0)
}

/// `t` occurs somewhere in `s` (the empty sequence occurs in every sequence).
pub open spec fn has_infix(s: Seq<char>, t: Seq<char>) -> bool {
    exists|i: int| occurs_at(s, t, i)
}

/// Whether `t` occurs in `s` at position `i`.
pub fn matches_at(s: &Vec<char>, t: &Vec<char>, i: usize) -> (r: bool)
    ensures
        r == occurs_at(s@, t@, i as int),
{
    if i > s.len() || t.len() > s.len() - i {
        return false;
    }
    let mut k: usize = 0;
    while k < t.len()
        invariant
            i + t.len() <= s.len(),
            k <= t.len(),
            forall|j: int| 0 <= j < k ==> s@[i + j] == t@[j],
        decreases t.len() - k,
    {
        if s[i + k] != t[k] {
            assert(s@.subrange(i as int, i + t.len())[k as int] != t@[k as int]);
            return false;
        }
        k = k + 1;
    }
    assert(s@.subrange(i as int, i + t.len()) =~= t@);
    true
}

/// Whether `t` is a prefix of `s`.
pub fn starts_with(s: &Vec<char>, t: &Vec<char>) -> (r: bool)
    ensures
        r == has_prefix(s@, t@),
{
    matches_at(s, t, 0)
}

/// Whether `t` occurs anywhere in `s`.
pub fn contains(s: &Vec<char>, t: &Vec<char>) -> (r: bool)
    ensures
        r == has_infix(s@, t@),
{
    if t.len() > s.len() {
        assert forall|i: int| !occurs_at(s@, t@, i) by {}
        return false;
    }
    let last = s.len() - t.len();
    let mut i: usize = 0;
    loop
        invariant
            last == s.len() - t.len(),
            t.len() <= s.len(),
            i <= last,
            forall|j: int| 0 <= j < i ==> !occurs_at(s@, t@, j),
        ensures
            forall|j: int| 0 <= j <= last ==> !occurs_at(s@, t@, j),
        decreases last - i,
    {
        if matches_at(s, t, i) {
            return true;
        }
        if i == last {
            break;
        }
        i = i + 1;
    }
    assert forall|j: int| !occurs_at(s@, t@, j) by {
        if 0 <= j <= last {
        }
    }
    false
}

} // verus!

verus! {

/// `char::is_whitespace`: the characters with the Unicode `White_Space` property.
pub open spec fn is_ws(c: char) -> bool {
    ||| ('\u{9}' <= c && c <= '\u{d}')
    ||| c == ' '
    ||| c == '\u{85}'
    ||| c == '\u{a0}'
    ||| c == '\u{1680}'
    ||| ('\u{2000}' <= c && c <= '\u{200a}')
    ||| c == '\u{2028}'
    ||| c == '\u{2029}'
    ||| c == '\u{202f}'
    ||| c == '\u{205f}'
    ||| c == '\u{3000}'
}

/// Whether `c` is Unicode whitespace.
pub fn is_whitespace(c: char) -> (r: bool)
    ensures
        r == is_ws(c),
{
    ('\u{9}' <= c && c <= '\u{d}') || c == ' ' || c == '\u{85}' || c == '\u{a0}' || c == '\u{1680}'
        || ('\u{2000}' <= c && c <= '\u{200a}') || c == '\u{2028}' || c == '\u{2029}'
        || c == '\u{202f}' || c == '\u{205f}' || c == '\u{3000}'
}

/// Characters stripped from both ends of a cleaned title: whitespace and `( ) [ ] - _`.
pub open spec fn is_title_edge(c: char) -> bool {
    is_ws(c) || c == '(' || c == ')' || c == '[' || c == ']' || c == '-' || c == '_'
}

/// The predicate a trim uses: the title-edge set when `edge`, whitespace otherwise.
pub open spec fn trim_pred(edge: bool, c: char) -> bool {
    if edge { is_title_edge(c) } else { is_ws(c) }
}

fn trim_pred_exec(edge: bool, c: char) -> (r: bool)
    ensures
        r == trim_pred(edge, c),
{
    if edge {
        is_whitespace(c) || c == '(' || c == ')' || c == '[' || c == ']' || c == '-' || c == '_'
    } else {
        is_whitespace(c)
    }
}

/// `s` without its leading characters that satisfy the trim predicate.
pub open spec fn trim_start(s: Seq<char>, edge: bool) -> Seq<char>
    decreases s.len(),
{
    if s.len() > 0 && trim_pred(edge, s[0]) {
        trim_start(s.drop_first(), edge)
    } else {
        s
    }
}

/// `s` without its trailing characters that satisfy the trim predicate.
pub open spec fn trim_end(s: Seq<char>, edge: bool) -> Seq<char>
    decreases s.len(),
{
    if s.len() > 0 && trim_pred(edge, s.last()) {
        trim_end(s.drop_last(), edge)
    } else {
        s
    }
}

/// `s` without leading and trailing characters that satisfy the trim predicate
/// (`str::trim` when `edge` is false, `str::trim_matches` with the title-edge set otherwise).
pub open spec fn trimmed(s: Seq<char>, edge: bool) -> Seq<char> {
    trim_end(trim_start(s, edge), edge)
}

/// `str::trim`.
pub open spec fn trim_ws(s: Seq<char>) -> Seq<char> {
    trimmed(s, false)
}

/// Removes from both ends the characters that satisfy the trim predicate.
pub fn trim_by(s: &Vec<char>, edge: bool) -> (r: Vec<char>)
    ensures
        r@ == trimmed(s@, edge),
{
    let n = s.len();
    let mut i: usize = 0;
    assert(s@.subrange(0, n as int) =~= s@);
    while i < n && trim_pred_exec(edge, s[i])
        invariant
            n == s.len(),
            i <= n,
            trim_start(s@, edge) == trim_start(s@.subrange(i as int, n as int), edge),
        decreases n - i,
    {
        assert(s@.subrange(i as int, n as int).drop_first() =~= s@.subrange(i + 1, n as int));
        i = i + 1;
    }
    let mut j: usize = n;
    let ghost start = s@.subrange(i as int, n as int);
    assert(trim_start(s@, edge) == start);
    while j > i && trim_pred_exec(edge, s[j - 1])
        invariant
            n == s.len(),
            i <= j <= n,
            start == s@.subrange(i as int, n as int),
            trim_end(start, edge) == trim_end(s@.subrange(i as int, j as int), edge),
        decreases j - i,
    {
        assert(s@.subrange(i as int, j as int).drop_last() =~= s@.subrange(i as int, j - 1));
        j = j - 1;
    }
    let mut r: Vec<char> = Vec::new();
    let mut k: usize = i;
    while k < j
        invariant
            i <= k <= j <= n,
            n == s.len(),
            r@ == s@.subrange(i as int, k as int),
        decreases j - k,
    {
        r.push(s[k]);
        k = k + 1;
        assert(r@ =~= s@.subrange(i as int, k as int));
    }
    r
}

/// `str::trim` on a character sequence.
pub fn trim(s: &Vec<char>) -> (r: Vec<char>)
    ensures
        r@ == trim_ws(s@),
{
    trim_by(s, false)
}

/// `str::split_whitespace`: the maximal runs of non-whitespace characters, in order.
pub open spec fn words(s: Seq<char>) -> Seq<Seq<char>>
    decreases s.len(),
{
    if s.len() == 0 {
        seq![]
    } else {
        let w = words(s.drop_last());
        let c = s.last();
        if is_ws(c) {
            w
        } else if s.len() == 1 || is_ws(s[s.len() - 2]) {
            w.push(seq![c])
        } else {
            w.update(w.len() - 1, w.last().push(c))
        }
    }
}

proof fn lemma_words_nonempty_after_word(s: Seq<char>)
    requires
        s.len() > 0,
        !is_ws(s.last()),
    ensures
        words(s).len() > 0,
    decreases s.len(),
{
    if s.len() == 1 || is_ws(s[s.len() - 2]) {
    } else {
        let p = s.drop_last();
        assert(p.last() == s[s.len() - 2]);
        lemma_words_nonempty_after_word(p);
    }
}

/// The character sequences held by a sequence of character vectors.
pub open spec fn views(v: Seq<Vec<char>>) -> Seq<Seq<char>> {
    v.map_values(|w: Vec<char>| w@)
}

/// Splits on Unicode whitespace, dropping empty pieces.
pub fn split_whitespace(s: &Vec<char>) -> (r: Vec<Vec<char>>)
    ensures
        views(r@) == words(s@),
{
    let mut r: Vec<Vec<char>> = Vec::new();
    let mut i: usize = 0;
    while i < s.len()
        invariant
            i <= s.len(),
            views(r@) == words(s@.take(i as int)),
        decreases s.len() - i,
    {
        let c = s[i];
        let ghost pre = s@.take(i as int);
        let ghost cur = s@.take(i + 1);
        assert(cur.drop_last() =~= pre);
        assert(cur.last() == c);
        if is_whitespace(c) {
        } else if i == 0 || is_whitespace(s[i - 1]) {
            if i > 0 {
                assert(cur[cur.len() - 2] == s@[i - 1]);
            }
            let mut w: Vec<char> = Vec::new();
            w.push(c);
            assert(w@ =~= seq![c]);
            r.push(w);
            assert(views(r@) =~= words(pre).push(seq![c]));
        } else {
            assert(cur[cur.len() - 2] == s@[i - 1]);
            assert(pre.last() == s@[i - 1]);
            proof { lemma_words_nonempty_after_word(pre); }
            let ghost old_r = views(r@);
            let mut w = r.pop().unwrap();
            assert(w@ == old_r.last());
            w.push(c);
            r.push(w);
            assert(views(r@) =~= old_r.update(old_r.len() - 1, old_r.last().push(c)));
        }
        i = i + 1;
    }
    assert(s@.take(s.len() as int) =~= s@);
    r
}

/// Joins words with single spaces between them.
pub open spec fn join_spaces(ws: Seq<Seq<char>>) -> Seq<char>
    decreases ws.len(),
{
    if ws.len() == 0 {
        seq![]
    } else if ws.len() == 1 {
        ws[0]
    } else {
        join_spaces(ws.drop_last()) + seq![' '] + ws.last()
    }
}

/// `[..].join(" ")`.
pub fn join_with_spaces(ws: &Vec<Vec<char>>) -> (r: Vec<char>)
    ensures
        r@ == join_spaces(views(ws@)),
{
    let mut r: Vec<char> = Vec::new();
    let mut i: usize = 0;
    while i < ws.len()
        invariant
            i <= ws.len(),
            r@ == join_spaces(views(ws@).take(i as int)),
        decreases ws.len() - i,
    {
        let ghost pre = views(ws@).take(i as int);
        let ghost cur = views(ws@).take(i + 1);
        assert(cur.drop_last() =~= pre);
        if i > 0 {
            r.push(' ');
        }
        let w = &ws[i];
        let mut k: usize = 0;
        let ghost base = r@;
        while k < w.len()
            invariant
                k <= w.len(),
                r@ == base + w@.take(k as int),
            decreases w.len() - k,
        {
            r.push(w[k]);
            k = k + 1;
            assert(r@ =~= base + w@.take(k as int));
        }
        assert(w@.take(w.len() as int) =~= w@);
        assert(cur.last() == w@);
        if i == 0 {
            assert(r@ =~= join_spaces(cur));
        } else {
            assert(r@ =~= join_spaces(cur));
        }
        i = i + 1;
    }
    assert(views(ws@).take(ws.len() as int) =~= views(ws@));
    r
}

} // verus!

verus! {

/// An ASCII decimal digit.
pub open spec fn is_digit(c: char) -> bool {
    '0' <= c && c <= '9'
}

/// The value of an ASCII decimal digit.
pub open spec fn digit_value(c: char) -> nat {
    (c as int - '0' as int) as nat
}

/// The value of a sequence of decimal digits read in base ten (0 for the empty sequence).
pub open spec fn digits_value(s: Seq<char>) -> nat
    decreases s.len(),
{
    if s.len() == 0 {
        0
    } else {
        digits_value(s.drop_last()) * 10 + digit_value(s.last())
    }
}

/// Every character of `s` is an ASCII decimal digit.
pub open spec fn all_digits(s: Seq<char>) -> bool {
    forall|i: int| 0 <= i < s.len() ==> is_digit(#[trigger] s[i])
}

/// The digits of an unsigned number: an optional leading `+` is skipped.
pub open spec fn unsigned_digits(s: Seq<char>) -> Seq<char> {
    if s.len() > 0 && s[0] == '+' { s.drop_first() } else { s }
}

/// `str::parse` for an unsigned integer type whose largest value is `max`: at least one ASCII
/// digit after an optional `+`, nothing else, and a value that fits.
pub open spec fn parse_unsigned_spec(s: Seq<char>, max: nat) -> Option<nat> {
    let d = unsigned_digits(s);
    if d.len() > 0 && all_digits(d) && digits_value(d) <= max {
        Some(digits_value(d))
    } else {
        None
    }
}

proof fn lemma_digits_value_prefix(s: Seq<char>, m: int)
    requires
        0 <= m <= s.len(),
    ensures
        digits_value(s.take(m)) <= digits_value(s),
    decreases s.len(),
{
    if m < s.len() {
        let p = s.drop_last();
        assert(p.take(m) =~= s.take(m));
        lemma_digits_value_prefix(p, m);
    } else {
        assert(s.take(m) =~= s);
    }
}

fn digit_of(c: char) -> (d: u128)
    requires
        is_digit(c),
    ensures
        d == digit_value(c),
        d < 10,
{
    if c == '0' { 0 }
    else if c == '1' { 1 }
    else if c == '2' { 2 }
    else if c == '3' { 3 }
    else if c == '4' { 4 }
    else if c == '5' { 5 }
    else if c == '6' { 6 }
    else if c == '7' { 7 }
    else if c == '8' { 8 }
    else { 9 }
}

/// A decimal representation reads back as the number it represents.
pub proof fn lemma_decimal_parses(n: nat)
    ensures
        decimal(n).len() > 0,
        all_digits(decimal(n)),
        digits_value(decimal(n)) == n,
        unsigned_digits(decimal(n)) == decimal(n),
    decreases n,
{
    if n < 10 {
        let d = decimal(n);
        assert(d.drop_last() =~= Seq::<char>::empty());
        assert(digit_value(digit_char(n)) == n);
        assert(d.last() == digit_char(n));
        assert(digits_value(d.drop_last()) == 0);
        assert(digits_value(d) == digits_value(d.drop_last()) * 10 + digit_value(d.last()));
    } else {
        lemma_decimal_parses(n / 10);
        let d = decimal(n);
        assert(d.drop_last() =~= decimal(n / 10));
        assert(digit_value(digit_char(n % 10)) == n % 10);
        assert(d.last() == digit_char(n % 10));
        assert(digits_value(d) == digits_value(d.drop_last()) * 10 + digit_value(d.last()));
        assert((n / 10) * 10 + n % 10 == n);
        assert(is_digit(digit_char(n % 10)));
        assert forall|i: int| 0 <= i < d.len() implies is_digit(#[trigger] d[i]) by {
            if i < d.len() - 1 {
                assert(d[i] == decimal(n / 10)[i]);
            }
        }
    }
    assert(is_digit(decimal(n)[0]));
}

/// Parses an unsigned decimal number no larger than `max`, as `str::parse` does.
pub fn parse_unsigned(s: &Vec<char>, max: u64) -> (r: Option<u64>)
    ensures
        match parse_unsigned_spec(s@, max as nat) {
            Some(v) => r == Some(v as u64),
            None => r is None,
        },
{
    let start: usize = if s.len() > 0 && s[0] == '+' { 1 } else { 0 };
    let ghost d = unsigned_digits(s@);
    assert(d =~= s@.subrange(start as int, s.len() as int));
    if start >= s.len() {
        return None;
    }
    let mut acc: u128 = 0;
    let mut k: usize = start;
    while k < s.len()
        invariant
            start <= k <= s.len(),
            d == unsigned_digits(s@),
            d == s@.subrange(start as int, s.len() as int),
            acc == digits_value(d.take(k - start)),
            all_digits(d.take(k - start)),
            acc <= max,
        decreases s.len() - k,
    {
        let c = s[k];
        let ghost pre = d.take(k - start);
        let ghost cur = d.take(k + 1 - start);
        assert(cur.drop_last() =~= pre);
        assert(cur.last() == c);
        if !('0' <= c && c <= '9') {
            assert(d[k - start] == c);
            assert(!all_digits(d));
            return None;
        }
        acc = acc * 10 + digit_of(c);
        assert(all_digits(cur));
        assert(acc == digits_value(cur));
        if acc > max as u128 {
            proof {
                lemma_digits_value_prefix(d, k + 1 - start);
                assert(digits_value(d) > max);
            }
            return None;
        }
        k = k + 1;
    }
    assert(d.take(s.len() - start) =~= d);
    Some(acc as u64)
}

} // verus!

verus! {

/// `format!("{:02}", n)`: at least two digits, zero-padded.
pub open spec fn pad2(n: nat) -> Seq<char> {
    if n < 10 { seq!['0'] + decimal(n) } else { decimal(n) }
}

proof fn lemma_decimal_len(n: nat)
    ensures
        n < 10 ==> decimal(n).len() == 1,
        10 <= n < 100 ==> decimal(n).len() == 2,
        n >= 10 ==> decimal(n).len() >= 2,
    decreases n,
{
    if n >= 10 {
        lemma_decimal_len(n / 10);
        lemma_decimal_parses(n / 10);
    }
}

/// Zero-padding to two digits spells the number in decimal digits: exactly two of them below a
/// hundred (a leading `0` only below ten), the plain decimal form from a hundred on.
pub proof fn law_pad2_spells_number(n: nat)
    ensures
        all_digits(pad2(n)),
        digits_value(pad2(n)) == n,
        n < 100 ==> pad2(n).len() == 2,
        n < 10 ==> pad2(n)[0] == '0',
        n >= 10 ==> pad2(n) == decimal(n),
{
    lemma_decimal_parses(n);
    lemma_decimal_len(n);
    if n < 10 {
        let p = pad2(n);
        assert(p =~= seq!['0', digit_char(n)]);
        assert(p.drop_last() =~= seq!['0']);
        assert(seq!['0'].drop_last() =~= Seq::<char>::empty());
        assert(digits_value(seq!['0']) == digits_value(seq!['0'].drop_last()) * 10 + digit_value('0'));
        assert(digits_value(p) == digits_value(p.drop_last()) * 10 + digit_value(p.last()));
        assert(decimal(n) =~= seq![digit_char(n)]);
        assert(digit_value(digit_char(n)) == n);
        assert(is_digit(p[0]) && is_digit(p[1]));
        assert forall|i: int| 0 <= i < p.len() implies is_digit(#[trigger] p[i]) by {
        }
    }
}

/// Appends `n` zero-padded to two digits.
pub fn push_pad2(out: &mut Vec<char>, n: u128)
    ensures
        final(out)@ == old(out)@ + pad2(n as nat),
{
    if n < 10 {
        out.push('0');
    }
    push_decimal(out, n);
    proof {
        if n < 10 {
            assert(final(out)@ =~= old(out)@ + pad2(n as nat));
        }
    }
}

/// Appends the characters of `v`.
pub fn push_chars(out: &mut Vec<char>, v: &Vec<char>)
    ensures
        final(out)@ == old(out)@ + v@,
{
    let ghost base = out@;
    let mut k: usize = 0;
    while k < v.len()
        invariant
            k <= v.len(),
            out@ == base + v@.take(k as int),
        decreases v.len() - k,
    {
        out.push(v[k]);
        k = k + 1;
        assert(out@ =~= base + v@.take(k as int));
    }
    assert(v@.take(v.len() as int) =~= v@);
}

/// Appends the characters of `s`.
pub fn push_str(out: &mut Vec<char>, s: &str)
    ensures
        final(out)@ == old(out)@ + s@,
{
    let v = chars_of(s);
    push_chars(out, &v);
}

/// The decimal representation of `n` as a string.
pub fn decimal_string(n: u128) -> (r: String)
    ensures
        r@ == decimal(n as nat),
{
    let mut v: Vec<char> = Vec::new();
    push_decimal(&mut v, n);
    assert(v@ =~= decimal(n as nat));
    string_of(&v)
}

} // verus!
