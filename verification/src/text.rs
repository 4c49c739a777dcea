//! Operations on text, stated over sequences of characters.

use vstd::prelude::*;
use vstd::utf8::*;

verus! {

/// `String::push` of std: the character goes to the end of the string.
pub assume_specification[ String::push ](s: &mut String, c: char)
    ensures
        final(s)@ == old(s)@.push(c),
;

/// The characters with Unicode's `White_Space` property.
pub open spec fn is_whitespace(c: char) -> bool {
    let n = c as u32;
    ||| 0x9 <= n <= 0xd
    ||| n == 0x20
    ||| n == 0x85
    ||| n == 0xa0
    ||| n == 0x1680
    ||| 0x2000 <= n <= 0x200a
    ||| n == 0x2028
    ||| n == 0x2029
    ||| n == 0x202f
    ||| n == 0x205f
    ||| n == 0x3000
}

/// Whether `c` is white space.
pub fn check_whitespace(c: char) -> (res: bool)
    ensures
        res == is_whitespace(c),
{
    let n: u32 = c as u32;
    (0x9 <= n && n <= 0xd) || n == 0x20 || n == 0x85 || n == 0xa0 || n == 0x1680 || (0x2000 <= n
        && n <= 0x200a) || n == 0x2028 || n == 0x2029 || n == 0x202f || n == 0x205f || n == 0x3000
}

/// `s` without the longest prefix of white space.
pub open spec fn without_leading_space(s: Seq<char>) -> Seq<char>
    decreases s.len(),
{
    if s.len() > 0 && is_whitespace(s[0]) {
        without_leading_space(s.drop_first())
    } else {
        s
    }
}

/// `s` without the longest suffix of white space.
pub open spec fn without_trailing_space(s: Seq<char>) -> Seq<char>
    decreases s.len(),
{
    if s.len() > 0 && is_whitespace(s.last()) {
        without_trailing_space(s.drop_last())
    } else {
        s
    }
}

/// `s` without white space at either end.
pub open spec fn trimmed(s: Seq<char>) -> Seq<char> {
    without_trailing_space(without_leading_space(s))
}

/// `s` without the longest suffix made of `c` alone.
pub open spec fn without_trailing_char(s: Seq<char>, c: char) -> Seq<char>
    decreases s.len(),
{
    if s.len() > 0 && s.last() == c {
        without_trailing_char(s.drop_last(), c)
    } else {
        s
    }
}

/// The part of `s` before the first `c`, or all of `s` where `c` does not occur.
pub open spec fn before_char(s: Seq<char>, c: char) -> Seq<char>
    decreases s.len(),
{
    if s.len() == 0 || s[0] == c {
        Seq::empty()
    } else {
        seq![s[0]] + before_char(s.drop_first(), c)
    }
}

/// Whether `pattern` occurs in `s` at position `i`.
pub open spec fn occurs_at(s: Seq<char>, pattern: Seq<char>, i: int) -> bool {
    &&& 0 <= i
    &&& i + pattern.len() <= s.len()
    &&& s.subrange(i, i + pattern.len()) == pattern
}

/// Whether `pattern` occurs in `s`.
pub open spec fn occurs(s: Seq<char>, pattern: Seq<char>) -> bool {
    exists|i: int| occurs_at(s, pattern, i)
}

/// Whether `i` is the first position from `from` on at which `pattern` occurs in `s`.
pub open spec fn first_occurrence(s: Seq<char>, pattern: Seq<char>, from: int, i: int) -> bool {
    &&& from <= i
    &&& occurs_at(s, pattern, i)
    &&& forall|j: int| from <= j < i ==> !#[trigger] occurs_at(s, pattern, j)
}

/// The characters of a string.
pub fn chars_of(s: &str) -> (res: Vec<char>)
    ensures
        res@ == s@,
{
    let mut res: Vec<char> = Vec::new();
    for c in it: s.chars()
        invariant
            it.seq() == s@,
            res@ == s@.take(it.index()),
    {
        assert(s@.take(it.index() + 1) == s@.take(it.index()).push(c));
        res.push(c);
    }
    assert(s@.take(s@.len() as int) == s@);
    res
}

/// The string of the characters from `from` up to, not including, `to`.
pub fn string_of(chars: &Vec<char>, from: usize, to: usize) -> (res: String)
    requires
        from <= to <= chars@.len(),
    ensures
        res@ == chars@.subrange(from as int, to as int),
{
    let mut res = String::new();
    let mut i: usize = from;
    while i < to
        invariant
            from <= i <= to <= chars@.len(),
            res@ == chars@.subrange(from as int, i as int),
        decreases to - i,
    {
        res.push(chars[i]);
        i = i + 1;
        assert(chars@.subrange(from as int, i as int) == chars@.subrange(
            from as int,
            i - 1,
        ).push(chars@[i - 1]));
    }
    res
}

/// An owned copy of a string.
pub fn copy_of(s: &str) -> (res: String)
    ensures
        res@ == s@,
{
    s.to_owned()
}

/// Whether two strings hold the same characters.
pub fn same_text(a: &str, b: &str) -> (res: bool)
    ensures
        res == (a@ == b@),
{
    let left = chars_of(a);
    let right = chars_of(b);
    if left.len() != right.len() {
        return false;
    }
    let mut i: usize = 0;
    while i < left.len()
        invariant
            left@ == a@,
            right@ == b@,
            left@.len() == right@.len(),
            0 <= i <= left@.len(),
            forall|j: int| 0 <= j < i ==> left@[j] == right@[j],
        decreases left@.len() - i,
    {
        if left[i] != right[i] {
            return false;
        }
        i = i + 1;
    }
    assert(a@ =~= b@);
    true
}

proof fn lemma_without_leading_space(s: Seq<char>, n: int)
    requires
        0 <= n <= s.len(),
        forall|i: int| 0 <= i < n ==> is_whitespace(#[trigger] s[i]),
        n < s.len() ==> !is_whitespace(s[n]),
    ensures
        without_leading_space(s) == s.subrange(n, s.len() as int),
    decreases n,
{
    if n > 0 {
        lemma_without_leading_space(s.drop_first(), n - 1);
        assert(s.drop_first().subrange(n - 1, s.len() - 1) == s.subrange(n, s.len() as int));
    } else {
        assert(s.subrange(0, s.len() as int) == s);
    }
}

proof fn lemma_without_trailing_space(s: Seq<char>, n: int)
    requires
        0 <= n <= s.len(),
        forall|i: int| n <= i < s.len() ==> is_whitespace(#[trigger] s[i]),
        n > 0 ==> !is_whitespace(s[n - 1]),
    ensures
        without_trailing_space(s) == s.subrange(0, n),
    decreases s.len() - n,
{
    if n < s.len() {
        lemma_without_trailing_space(s.drop_last(), n);
        assert(s.drop_last().subrange(0, n) == s.subrange(0, n));
    } else {
        assert(s.subrange(0, s.len() as int) == s);
    }
}

/// The bounds between which the characters of `chars` stand once white space at both ends is
/// left out.
fn trim_bounds(chars: &Vec<char>) -> (res: (usize, usize))
    ensures
        res.0 <= res.1 <= chars@.len(),
        chars@.subrange(res.0 as int, res.1 as int) == trimmed(chars@),
{
    let n: usize = chars.len();
    let mut from: usize = 0;
    while from < n && check_whitespace(chars[from])
        invariant
            n == chars@.len(),
            0 <= from <= n,
            forall|i: int| 0 <= i < from ==> is_whitespace(#[trigger] chars@[i]),
        decreases n - from,
    {
        from = from + 1;
    }
    let ghost rest = chars@.subrange(from as int, n as int);
    proof {
        lemma_without_leading_space(chars@, from as int);
    }
    let mut to: usize = n;
    while to > from && check_whitespace(chars[to - 1])
        invariant
            n == chars@.len(),
            from <= to <= n,
            forall|i: int| to <= i < n ==> is_whitespace(#[trigger] chars@[i]),
        decreases to,
    {
        to = to - 1;
    }
    proof {
        lemma_without_trailing_space(rest, to - from);
        assert(rest.subrange(0, to - from) == chars@.subrange(from as int, to as int));
    }
    (from, to)
}

/// `s` without white space at either end.
pub fn trim(s: &str) -> (res: String)
    ensures
        res@ == trimmed(s@),
{
    let chars = chars_of(s);
    let bounds = trim_bounds(&chars);
    string_of(&chars, bounds.0, bounds.1)
}

/// `s` without the occurrences of `c` at its end.
pub fn trim_end_char(s: &str, c: char) -> (res: String)
    ensures
        res@ == without_trailing_char(s@, c),
{
    let chars = chars_of(s);
    let mut to: usize = chars.len();
    proof {
        assert(s@.take(to as int) == s@);
    }
    while to > 0 && chars[to - 1] == c
        invariant
            chars@ == s@,
            to <= s@.len(),
            without_trailing_char(s@, c) == without_trailing_char(s@.take(to as int), c),
        decreases to,
    {
        to = to - 1;
        assert(s@.take(to + 1).drop_last() == s@.take(to as int));
    }
    proof {
        assert(without_trailing_char(s@.take(to as int), c) == s@.take(to as int));
        assert(s@.take(to as int) == s@.subrange(0, to as int));
    }
    string_of(&chars, 0, to)
}

proof fn lemma_before_char(s: Seq<char>, c: char, n: int)
    requires
        0 <= n <= s.len(),
        forall|i: int| 0 <= i < n ==> s[i] != c,
        n < s.len() ==> s[n] == c,
    ensures
        before_char(s, c) == s.subrange(0, n),
    decreases n,
{
    if n > 0 {
        assert forall|i: int| 0 <= i < n - 1 implies s.drop_first()[i] != c by {
            assert(s[i + 1] != c);
        }
        lemma_before_char(s.drop_first(), c, n - 1);
        assert(seq![s[0]] + s.drop_first().subrange(0, n - 1) == s.subrange(0, n));
    } else {
        assert(s.subrange(0, 0) == Seq::<char>::empty());
    }
}

/// The position of the first `c` from `from` on.
pub fn find_char(chars: &Vec<char>, c: char, from: usize) -> (res: Option<usize>)
    requires
        from <= chars@.len(),
    ensures
        match res {
            Some(i) => from <= i < chars@.len() && chars@[i as int] == c && forall|j: int|
                from <= j < i ==> chars@[j] != c,
            None => forall|j: int| from <= j < chars@.len() ==> chars@[j] != c,
        },
{
    let mut i: usize = from;
    while i < chars.len()
        invariant
            from <= i <= chars@.len(),
            forall|j: int| from <= j < i ==> chars@[j] != c,
        decreases chars@.len() - i,
    {
        if chars[i] == c {
            return Some(i);
        }
        i = i + 1;
    }
    None
}

/// The part of `s` before the first `c`, or all of `s`.
pub fn take_before_char(s: &str, c: char) -> (res: String)
    ensures
        res@ == before_char(s@, c),
{
    let chars = chars_of(s);
    let to: usize = match find_char(&chars, c, 0) {
        Some(i) => i,
        None => chars.len(),
    };
    proof {
        lemma_before_char(s@, c, to as int);
    }
    string_of(&chars, 0, to)
}

/// Whether `pattern` stands in `chars` at position `i`.
pub fn matches_at(chars: &Vec<char>, pattern: &Vec<char>, i: usize) -> (res: bool)
    requires
        i <= chars@.len(),
    ensures
        res == occurs_at(chars@, pattern@, i as int),
{
    let n: usize = chars.len();
    if pattern.len() > n - i {
        return false;
    }
    let mut k: usize = 0;
    while k < pattern.len()
        invariant
            n == chars@.len(),
            i + pattern@.len() <= n,
            0 <= k <= pattern@.len(),
            forall|j: int| 0 <= j < k ==> chars@[i + j] == pattern@[j],
        decreases pattern@.len() - k,
    {
        if chars[i + k] != pattern[k] {
            assert(chars@.subrange(i as int, i + pattern@.len())[k as int] != pattern@[k as int]);
            return false;
        }
        k = k + 1;
    }
    assert(chars@.subrange(i as int, i + pattern@.len()) =~= pattern@);
    true
}

/// The first position from `from` on at which `pattern` stands in `chars`.
pub fn find_text(chars: &Vec<char>, pattern: &Vec<char>, from: usize) -> (res: Option<usize>)
    requires
        from <= chars@.len(),
    ensures
        match res {
            Some(i) => first_occurrence(chars@, pattern@, from as int, i as int),
            None => forall|j: int| from <= j ==> !#[trigger] occurs_at(chars@, pattern@, j),
        },
{
    let mut i: usize = from;
    while i < chars.len()
        invariant
            from <= i <= chars@.len(),
            forall|j: int| from <= j < i ==> !#[trigger] occurs_at(chars@, pattern@, j),
        decreases chars@.len() - i,
    {
        if matches_at(chars, pattern, i) {
            return Some(i);
        }
        i = i + 1;
    }
    if matches_at(chars, pattern, i) {
        Some(i)
    } else {
        None
    }
}

/// Whether `pattern` occurs in `s`.
pub fn contains_text(s: &str, pattern: &str) -> (res: bool)
    ensures
        res == occurs(s@, pattern@),
{
    let chars = chars_of(s);
    let wanted = chars_of(pattern);
    match find_text(&chars, &wanted, 0) {
        Some(i) => {
            assert(occurs_at(s@, pattern@, i as int));
            true
        },
        None => {
            assert forall|i: int| !occurs_at(s@, pattern@, i) by {
                if i >= 0 {
                    assert(!occurs_at(chars@, wanted@, i));
                }
            }
            false
        },
    }
}

/// Whether `s` begins with `prefix`.
pub fn begins_with(s: &str, prefix: &str) -> (res: bool)
    ensures
        res == occurs_at(s@, prefix@, 0),
{
    matches_at(&chars_of(s), &chars_of(prefix), 0)
}

/// Whether `s` ends with `suffix`.
pub fn finishes_with(s: &str, suffix: &str) -> (res: bool)
    ensures
        res == occurs_at(s@, suffix@, s@.len() - suffix@.len()),
{
    let chars = chars_of(s);
    let wanted = chars_of(suffix);
    if wanted.len() > chars.len() {
        return false;
    }
    matches_at(&chars, &wanted, chars.len() - wanted.len())
}

/// Whether `a` comes before `b` in the order of the code points of their characters, which is
/// that of their bytes.
pub open spec fn text_less(a: Seq<char>, b: Seq<char>) -> bool
    decreases a.len(),
{
    if b.len() == 0 {
        false
    } else if a.len() == 0 {
        true
    } else if a[0] == b[0] {
        text_less(a.drop_first(), b.drop_first())
    } else {
        a[0] < b[0]
    }
}

/// Whether the texts stand in order, and none twice.
pub open spec fn in_order(keys: Seq<Seq<char>>) -> bool {
    forall|i: int, j: int|
        0 <= i < j < keys.len() ==> text_less(#[trigger] keys[i], #[trigger] keys[j])
}

/// The characters of each string.
pub open spec fn texts(s: Seq<String>) -> Seq<Seq<char>> {
    s.map_values(|t: String| t@)
}

/// The characters of a string that may be missing.
pub open spec fn optional_text(s: Option<String>) -> Option<Seq<char>> {
    match s {
        Some(t) => Some(t@),
        None => None,
    }
}

/// Of two texts, one comes first or they are the same.
pub proof fn lemma_text_less_total(a: Seq<char>, b: Seq<char>)
    ensures
        a == b || text_less(a, b) || text_less(b, a),
    decreases a.len(),
{
    if a.len() > 0 && b.len() > 0 && a[0] == b[0] {
        lemma_text_less_total(a.drop_first(), b.drop_first());
        if a.drop_first() == b.drop_first() {
            assert(a == seq![a[0]] + a.drop_first());
            assert(b == seq![b[0]] + b.drop_first());
        }
    } else if a.len() == 0 && b.len() == 0 {
        assert(a =~= b);
    }
}

/// The order is transitive.
pub proof fn lemma_text_less_transitive(a: Seq<char>, b: Seq<char>, c: Seq<char>)
    requires
        text_less(a, b),
        text_less(b, c),
    ensures
        text_less(a, c),
    decreases a.len(),
{
    if a.len() > 0 && a[0] == b[0] && b[0] == c[0] {
        lemma_text_less_transitive(a.drop_first(), b.drop_first(), c.drop_first());
    }
}

/// Whether `a` comes before `b`.
pub fn comes_before(a: &str, b: &str) -> (res: bool)
    ensures
        res == text_less(a@, b@),
{
    let left = chars_of(a);
    let right = chars_of(b);
    let mut i: usize = 0;
    proof {
        assert(a@.skip(0) == a@);
        assert(b@.skip(0) == b@);
    }
    while i < left.len() && i < right.len()
        invariant
            left@ == a@,
            right@ == b@,
            i <= a@.len(),
            i <= b@.len(),
            text_less(a@, b@) == text_less(a@.skip(i as int), b@.skip(i as int)),
        decreases left@.len() - i,
    {
        if left[i] != right[i] {
            return left[i] < right[i];
        }
        proof {
            assert(a@.skip(i as int).drop_first() == a@.skip(i + 1));
            assert(b@.skip(i as int).drop_first() == b@.skip(i + 1));
        }
        i = i + 1;
    }
    left.len() == i && right.len() > i
}

/// Puts a text among texts in order, where it does not stand among them.
pub fn insert_in_order(keys: &mut Vec<String>, key: String)
    requires
        in_order(texts(old(keys)@)),
        !texts(old(keys)@).contains(key@),
    ensures
        in_order(texts(final(keys)@)),
        forall|k: Seq<char>| #[trigger]
            texts(final(keys)@).contains(k) <==> k == key@ || texts(old(keys)@).contains(k),
{
    let ghost before = texts(keys@);
    let mut p: usize = 0;
    while p < keys.len() && comes_before(keys[p].as_str(), key.as_str())
        invariant
            before == texts(keys@),
            p <= keys@.len(),
            forall|i: int| 0 <= i < p ==> text_less(#[trigger] before[i], key@),
        decreases keys@.len() - p,
    {
        proof {
            assert(before[p as int] == keys@[p as int]@);
        }
        p = p + 1;
    }
    proof {
        if p < before.len() {
            assert(before[p as int] == keys@[p as int]@);
            assert(before.contains(before[p as int]));
            lemma_text_less_total(before[p as int], key@);
            assert forall|j: int| p <= j < before.len() implies text_less(
                key@,
                #[trigger] before[j],
            ) by {
                if j > p {
                    lemma_text_less_transitive(key@, before[p as int], before[j]);
                }
            }
        }
    }
    let ghost name = key@;
    keys.insert(p, key);
    proof {
        let after = texts(keys@);
        assert(after =~= before.insert(p as int, name));
        assert forall|i: int, j: int| 0 <= i < j < after.len() implies text_less(
            #[trigger] after[i],
            #[trigger] after[j],
        ) by {
            if i < p && j == p {
                assert(after[i] == before[i]);
            } else if i == p {
                assert(after[j] == before[j - 1]);
            } else if i < p && j < p {
                assert(after[i] == before[i] && after[j] == before[j]);
            } else if i < p {
                assert(after[i] == before[i] && after[j] == before[j - 1]);
            } else {
                assert(after[i] == before[i - 1] && after[j] == before[j - 1]);
            }
        }
        assert forall|k: Seq<char>| #[trigger] after.contains(k) <==> k == name || before.contains(
            k,
        ) by {
            if after.contains(k) {
                let i = choose|i: int| 0 <= i < after.len() && after[i] == k;
                if i < p {
                    assert(before[i] == k);
                } else if i > p {
                    assert(before[i - 1] == k);
                }
            }
            if k == name {
                assert(after[p as int] == k);
            }
            if before.contains(k) {
                let i = choose|i: int| 0 <= i < before.len() && before[i] == k;
                if i < p {
                    assert(after[i] == k);
                } else {
                    assert(after[i + 1] == k);
                }
            }
        }
    }
}

/// The decimal digit of `d`, for `d` below ten.
pub open spec fn digit(d: nat) -> char {
    (48 + d) as u8 as char
}

/// `n` in decimal, without leading zeros.
pub open spec fn decimal(n: nat) -> Seq<char>
    decreases n,
{
    if n < 10 {
        seq![digit(n)]
    } else {
        decimal(n / 10).push(digit(n % 10))
    }
}

/// `n` in decimal, with a minus sign where it is negative.
pub open spec fn signed_decimal(n: int) -> Seq<char> {
    if n < 0 {
        seq!['-'] + decimal((-n) as nat)
    } else {
        decimal(n as nat)
    }
}

/// `s` with zeros in front of it, up to a length of `width`.
pub open spec fn zero_padded(s: Seq<char>, width: nat) -> Seq<char> {
    if s.len() >= width {
        s
    } else {
        Seq::new((width - s.len()) as nat, |i: int| '0') + s
    }
}

/// `n` in decimal.
pub fn decimal_string(n: u64) -> (res: String)
    ensures
        res@ == decimal(n as nat),
    decreases n,
{
    let d: u8 = (n % 10) as u8;
    let c: char = (48 + d) as char;
    let mut res = if n < 10 {
        String::new()
    } else {
        decimal_string(n / 10)
    };
    res.push(c);
    res
}

/// `n` in decimal, with its sign.
pub fn signed_decimal_string(n: i64) -> (res: String)
    ensures
        res@ == signed_decimal(n as int),
{
    if n < 0 {
        let magnitude: u64 = (-(n + 1)) as u64 + 1;
        let mut res = String::new();
        res.push('-');
        res.append(decimal_string(magnitude).as_str());
        res
    } else {
        decimal_string(n as u64)
    }
}

/// `n` in decimal, with zeros in front of it up to `width` digits.
pub fn zero_padded_string(n: u64, width: usize) -> (res: String)
    ensures
        res@ == zero_padded(decimal(n as nat), width as nat),
{
    let digits = decimal_string(n);
    let count: usize = chars_of(digits.as_str()).len();
    let mut res = String::new();
    let mut i: usize = count;
    while i < width
        invariant
            count <= i,
            if count < width {
                i <= width
            } else {
                i == count
            },
            res@ == Seq::new((i - count) as nat, |k: int| '0'),
        decreases width - i,
    {
        res.push('0');
        i = i + 1;
        assert(res@ =~= Seq::new((i - count) as nat, |k: int| '0'));
    }
    res.append(digits.as_str());
    proof {
        if count >= width {
            assert(res@ =~= digits@);
        }
    }
    res
}

/// What is wrong with a text that is no number of the type asked for.
#[derive(Debug, Clone, Copy, PartialEq, Eq, Structural)]
pub enum NumberError {
    Empty,
    InvalidDigit,
    TooLarge,
}

impl NumberError {
    /// The text that reports the error.
    pub open spec fn text(self) -> Seq<char> {
        match self {
            NumberError::Empty => "cannot parse integer from empty string"@,
            NumberError::InvalidDigit => "invalid digit found in string"@,
            NumberError::TooLarge => "number too large to fit in target type"@,
        }
    }

    /// The text that reports the error.
    pub fn message(&self) -> (res: String)
        ensures
            res@ == self.text(),
    {
        match self {
            NumberError::Empty => "cannot parse integer from empty string".to_owned(),
            NumberError::InvalidDigit => "invalid digit found in string".to_owned(),
            NumberError::TooLarge => "number too large to fit in target type".to_owned(),
        }
    }
}

/// Whether `c` is one of the ten ASCII digits.
pub open spec fn is_digit(c: char) -> bool {
    '0' <= c && c <= '9'
}

/// The value of an ASCII digit.
pub open spec fn digit_value(c: char) -> nat {
    (c as u32 - 48) as nat
}

/// What reading digits from the left meets first: a character that is no digit, or a number
/// above `max`.
pub open spec fn digits_value(s: Seq<char>, max: nat) -> Result<nat, NumberError>
    decreases s.len(),
{
    if s.len() == 0 {
        Ok(0)
    } else {
        match digits_value(s.drop_last(), max) {
            Err(e) => Err(e),
            Ok(n) => if !is_digit(s.last()) {
                Err(NumberError::InvalidDigit)
            } else if n * 10 + digit_value(s.last()) > max {
                Err(NumberError::TooLarge)
            } else {
                Ok(n * 10 + digit_value(s.last()))
            },
        }
    }
}

/// The unsigned number up to `max` that a text denotes: a plus sign, or none, and at least one
/// decimal digit.
pub open spec fn parsed_unsigned(s: Seq<char>, max: nat) -> Result<nat, NumberError> {
    if s.len() == 0 {
        Err(NumberError::Empty)
    } else if s.len() == 1 && s[0] == '+' {
        Err(NumberError::InvalidDigit)
    } else if s[0] == '+' {
        digits_value(s.drop_first(), max)
    } else {
        digits_value(s, max)
    }
}

/// The number up to `max` that a text denotes.
pub fn parse_unsigned(s: &str, max: u64) -> (res: Result<u64, NumberError>)
    ensures
        match res {
            Ok(n) => parsed_unsigned(s@, max as nat) == Ok::<nat, NumberError>(n as nat),
            Err(e) => parsed_unsigned(s@, max as nat) == Err::<nat, NumberError>(e),
        },
        res matches Ok(n) ==> n <= max,
{
    let chars = chars_of(s);
    let n: usize = chars.len();
    if n == 0 {
        return Err(NumberError::Empty);
    }
    if n == 1 && chars[0] == '+' {
        return Err(NumberError::InvalidDigit);
    }
    let from: usize = if chars[0] == '+' {
        1
    } else {
        0
    };
    let ghost digits = chars@.subrange(from as int, n as int);
    proof {
        assert(chars@.subrange(0, n as int) == chars@);
        assert(digits.take(0) == Seq::<char>::empty());
    }
    let mut value: u64 = 0;
    let mut i: usize = from;
    while i < n
        invariant
            n == chars@.len(),
            from <= i <= n,
            value <= max,
            digits == chars@.subrange(from as int, n as int),
            digits_value(digits.take(i - from), max as nat) == Ok::<nat, NumberError>(
                value as nat,
            ),
            parsed_unsigned(s@, max as nat) == digits_value(digits, max as nat),
        decreases n - i,
    {
        let c: char = chars[i];
        let ghost seen = digits.take(i - from + 1);
        proof {
            assert(seen.drop_last() == digits.take(i - from));
            assert(seen.last() == c);
        }
        let step: Result<u64, NumberError> = if c < '0' || c > '9' {
            Err(NumberError::InvalidDigit)
        } else {
            let d: u64 = (c as u32 - 48) as u64;
            match value.checked_mul(10) {
                None => Err(NumberError::TooLarge),
                Some(tens) => match tens.checked_add(d) {
                    None => Err(NumberError::TooLarge),
                    Some(sum) => if sum > max {
                        Err(NumberError::TooLarge)
                    } else {
                        Ok(sum)
                    },
                },
            }
        };
        match step {
            Err(e) => {
                proof {
                    lemma_digits_error(digits, i - from + 1, max as nat, e);
                }
                return Err(e);
            },
            Ok(sum) => {
                value = sum;
            },
        }
        i = i + 1;
    }
    proof {
        assert(digits.take(n - from) == digits);
    }
    Ok(value)
}

/// The number that a text denotes, where it fits `usize`.
pub fn parse_usize(s: &str) -> (res: Result<usize, NumberError>)
    ensures
        match res {
            Ok(n) => parsed_unsigned(s@, usize::MAX as nat) == Ok::<nat, NumberError>(n as nat),
            Err(e) => parsed_unsigned(s@, usize::MAX as nat) == Err::<nat, NumberError>(e),
        },
{
    match parse_unsigned(s, usize::MAX as u64) {
        Ok(n) => Ok(n as usize),
        Err(e) => Err(e),
    }
}

/// An error met in a prefix is the error of the whole.
proof fn lemma_digits_error(s: Seq<char>, n: int, max: nat, e: NumberError)
    requires
        0 <= n <= s.len(),
        digits_value(s.take(n), max) == Err::<nat, NumberError>(e),
    ensures
        digits_value(s, max) == Err::<nat, NumberError>(e),
    decreases s.len() - n,
{
    if n < s.len() {
        assert(s.take(n + 1).drop_last() == s.take(n));
        lemma_digits_error(s, n + 1, max, e);
    } else {
        assert(s.take(n) == s);
    }
}

/// Decimal digits are digits, the first of them is no sign, and reading them gives the number
/// back.
pub proof fn lemma_decimal(n: nat, max: nat)
    requires
        n <= max,
    ensures
        decimal(n).len() > 0,
        forall|i: int| 0 <= i < decimal(n).len() ==> is_digit(#[trigger] decimal(n)[i]),
        digits_value(decimal(n), max) == Ok::<nat, NumberError>(n),
    decreases n,
{
    let s = decimal(n);
    assert(is_digit(digit(n % 10)) && digit_value(digit(n % 10)) == n % 10);
    if n >= 10 {
        lemma_decimal(n / 10, max);
        assert(s.drop_last() == decimal(n / 10));
    } else {
        assert(s.drop_last() == Seq::<char>::empty());
        assert(s.last() == digit(n));
        assert(digits_value(s.drop_last(), max) == Ok::<nat, NumberError>(0));
    }
}

/// Reading back the decimal form of a number that fits gives the number.
pub proof fn law_decimal_round_trip(n: nat, max: nat)
    requires
        n <= max,
    ensures
        parsed_unsigned(decimal(n), max) == Ok::<nat, NumberError>(n),
{
    lemma_decimal(n, max);
    assert(is_digit(decimal(n)[0]));
}

proof fn lemma_text_less_irreflexive(a: Seq<char>)
    ensures
        !text_less(a, a),
    decreases a.len(),
{
    if a.len() > 0 {
        lemma_text_less_irreflexive(a.drop_first());
    }
}

/// Texts stand in order in one way only.
pub proof fn lemma_order_unique(a: Seq<Seq<char>>, b: Seq<Seq<char>>)
    requires
        in_order(a),
        in_order(b),
        forall|k: Seq<char>| #[trigger] a.contains(k) <==> b.contains(k),
    ensures
        a == b,
    decreases a.len(),
{
    if a.len() == 0 {
        if b.len() > 0 {
            assert(b.contains(b[0]));
            assert(a.contains(b[0]));
        }
        assert(a =~= b);
    } else {
        assert(a.contains(a[0]));
        assert(b.contains(a[0]));
        let j = choose|j: int| 0 <= j < b.len() && b[j] == a[0];
        assert(b.contains(b[0]));
        assert(a.contains(b[0]));
        let i = choose|i: int| 0 <= i < a.len() && a[i] == b[0];
        if j > 0 {
            assert(text_less(b[0], b[j]));
            if i > 0 {
                assert(text_less(a[0], a[i]));
                lemma_text_less_transitive(a[0], b[0], a[0]);
            }
            lemma_text_less_irreflexive(a[0]);
        }
        assert(a[0] == b[0]);
        let ra = a.drop_first();
        let rb = b.drop_first();
        lemma_text_less_irreflexive(a[0]);
        assert forall|k: Seq<char>| #[trigger] ra.contains(k) <==> rb.contains(k) by {
            if ra.contains(k) {
                let x = choose|x: int| 0 <= x < ra.len() && ra[x] == k;
                assert(a[x + 1] == k);
                assert(text_less(a[0], a[x + 1]));
                assert(a.contains(k));
                let y = choose|y: int| 0 <= y < b.len() && b[y] == k;
                assert(y > 0);
                assert(rb[y - 1] == k);
            }
            if rb.contains(k) {
                let x = choose|x: int| 0 <= x < rb.len() && rb[x] == k;
                assert(b[x + 1] == k);
                assert(text_less(b[0], b[x + 1]));
                assert(b.contains(k));
                assert(a.contains(k));
                let y = choose|y: int| 0 <= y < a.len() && a[y] == k;
                assert(y > 0);
                assert(ra[y - 1] == k);
            }
        }
        lemma_order_unique(ra, rb);
        assert(a == seq![a[0]] + ra);
        assert(b == seq![b[0]] + rb);
    }
}

/// Texts one behind the other, with `separator` between them.
pub open spec fn joined_with(parts: Seq<Seq<char>>, separator: Seq<char>) -> Seq<char>
    decreases parts.len(),
{
    if parts.len() == 0 {
        Seq::empty()
    } else if parts.len() == 1 {
        parts[0]
    } else {
        joined_with(parts.drop_last(), separator) + separator + parts.last()
    }
}

/// Texts one behind the other, with `separator` between them.
pub fn join_texts(parts: &Vec<String>, separator: &str) -> (res: String)
    ensures
        res@ == joined_with(texts(parts@), separator@),
{
    let ghost all = texts(parts@);
    let mut res = String::new();
    let n: usize = parts.len();
    let mut i: usize = 0;
    assert(res@ =~= joined_with(all.take(0), separator@));
    while i < n
        invariant
            n == parts@.len(),
            all == texts(parts@),
            i <= n,
            res@ == joined_with(all.take(i as int), separator@),
        decreases n - i,
    {
        proof {
            assert(all.take(i + 1).drop_last() == all.take(i as int));
            assert(all.take(i + 1).last() == parts@[i as int]@);
            if i == 0 {
                assert(res@ =~= Seq::<char>::empty());
                assert(Seq::<char>::empty() + parts@[0]@ =~= parts@[0]@);
            }
        }
        if i > 0 {
            res.append(separator);
        }
        res.append(parts[i].as_str());
        i = i + 1;
    }
    assert(all.take(n as int) == all);
    res
}

/// The number of bytes of a text in UTF-8.
pub open spec fn byte_len(s: Seq<char>) -> nat {
    encode_utf8(s).len()
}

/// Whether a character of `s` begins, or `s` ends, at the byte position `i`.
pub open spec fn is_boundary(s: Seq<char>, i: int) -> bool {
    is_char_boundary(encode_utf8(s), i)
}

/// Whether `part` is what stands in `s` from the byte `start` up to the byte `end`.
pub open spec fn is_byte_slice(s: Seq<char>, start: int, end: int, part: Seq<char>) -> bool {
    encode_utf8(part) == encode_utf8(s).subrange(start, end)
}

/// The number of bytes of a text.
pub fn byte_length(s: &str) -> (res: usize)
    ensures
        res == byte_len(s@),
{
    s.as_bytes().len()
}

/// What stands in `s` from the byte `start` up to the byte `end`.
pub fn byte_slice(s: &str, start: usize, end: usize) -> (res: String)
    requires
        start <= end <= byte_len(s@),
        is_boundary(s@, start as int),
        is_boundary(s@, end as int),
    ensures
        is_byte_slice(s@, start as int, end as int, res@),
{
    let ghost bytes = encode_utf8(s@);
    let front = s.split_at(end).0;
    proof {
        encode_utf8_valid_utf8(s@);
        valid_utf8_split(bytes, end as int);
        let head = bytes.subrange(0, end as int);
        assert(is_char_boundary(head, start as int)) by {
            if start < end {
                is_char_boundary_iff_not_is_continuation_byte(bytes, start as int);
                is_char_boundary_iff_not_is_continuation_byte(head, start as int);
                assert(head[start as int] == bytes[start as int]);
            } else {
                is_char_boundary_start_end_of_seq(head);
            }
        }
    }
    let back = front.split_at(start).1;
    proof {
        assert(bytes.subrange(0, end as int).subrange(start as int, end as int) == bytes.subrange(
            start as int,
            end as int,
        ));
    }
    back.to_owned()
}

/// Between two positions stands one text.
pub proof fn lemma_slice_unique(s: Seq<char>, start: int, end: int, a: Seq<char>, b: Seq<char>)
    requires
        is_byte_slice(s, start, end, a),
        is_byte_slice(s, start, end, b),
    ensures
        a == b,
{
    encode_utf8_decode_utf8(a);
    encode_utf8_decode_utf8(b);
}

/// What stands before the first `c` of a text: of a text without `c` that nothing follows, or that
/// a `c` follows, it is that text.
pub proof fn law_before_char(text: Seq<char>, c: char, rest: Seq<char>)
    requires
        !text.contains(c),
        rest.len() == 0 || rest[0] == c,
    ensures
        before_char(text + rest, c) == text,
{
    let whole = text + rest;
    assert forall|i: int| 0 <= i < text.len() implies whole[i] != c by {
        assert(text.contains(text[i]));
    }
    lemma_before_char(whole, c, text.len() as int);
    assert(whole.subrange(0, text.len() as int) =~= text);
}

/// Trimming takes white space from both ends and nothing else: what is left neither begins nor ends
/// with white space.
pub proof fn law_trimmed(s: Seq<char>)
    ensures
        exists|a: int, b: int|
            0 <= a <= b <= s.len() && #[trigger] s.subrange(a, b) == trimmed(s) && (forall|i: int|
                0 <= i < a || b <= i < s.len() ==> is_whitespace(#[trigger] s[i])),
        trimmed(s).len() > 0 ==> !is_whitespace(trimmed(s)[0]) && !is_whitespace(trimmed(s).last()),
{
    let a = leading_space(s);
    lemma_leading_space(s);
    lemma_without_leading_space(s, a);
    let t = s.subrange(a, s.len() as int);
    let n = text_end(t);
    lemma_text_end(t);
    lemma_without_trailing_space(t, n);
    assert(trimmed(s) =~= s.subrange(a, a + n));
    assert forall|i: int| 0 <= i < a || a + n <= i < s.len() implies is_whitespace(
        #[trigger] s[i],
    ) by {
        if i >= a {
            assert(t[i - a] == s[i]);
        }
    }
    if n > 0 {
        assert(t[n - 1] == s[a + n - 1]);
        assert(t[0] == s[a]);
    }
}

spec fn leading_space(s: Seq<char>) -> int
    decreases s.len(),
{
    if s.len() > 0 && is_whitespace(s[0]) {
        1 + leading_space(s.drop_first())
    } else {
        0
    }
}

proof fn lemma_leading_space(s: Seq<char>)
    ensures
        0 <= leading_space(s) <= s.len(),
        forall|i: int| 0 <= i < leading_space(s) ==> is_whitespace(#[trigger] s[i]),
        leading_space(s) < s.len() ==> !is_whitespace(s[leading_space(s)]),
    decreases s.len(),
{
    if s.len() > 0 && is_whitespace(s[0]) {
        let rest = s.drop_first();
        lemma_leading_space(rest);
        assert forall|i: int| 0 <= i < leading_space(s) implies is_whitespace(#[trigger] s[i]) by {
            if i > 0 {
                assert(rest[i - 1] == s[i]);
            }
        }
    }
}

spec fn text_end(s: Seq<char>) -> int
    decreases s.len(),
{
    if s.len() > 0 && is_whitespace(s.last()) {
        text_end(s.drop_last())
    } else {
        s.len() as int
    }
}

proof fn lemma_text_end(s: Seq<char>)
    ensures
        0 <= text_end(s) <= s.len(),
        forall|i: int| text_end(s) <= i < s.len() ==> is_whitespace(#[trigger] s[i]),
        text_end(s) > 0 ==> !is_whitespace(s[text_end(s) - 1]),
    decreases s.len(),
{
    if s.len() > 0 && is_whitespace(s.last()) {
        let front = s.drop_last();
        lemma_text_end(front);
        assert forall|i: int| text_end(s) <= i < s.len() implies is_whitespace(#[trigger] s[i]) by {
            if i < front.len() {
                assert(front[i] == s[i]);
            }
        }
    }
}

/// The bytes of two texts, one behind the other, are those of both.
pub proof fn law_bytes_of_both(a: Seq<char>, b: Seq<char>)
    ensures
        encode_utf8(a + b) == encode_utf8(a) + encode_utf8(b),
    decreases a.len(),
{
    if a.len() == 0 {
        assert(a + b =~= b);
        assert(encode_utf8(a) + encode_utf8(b) =~= encode_utf8(b));
    } else {
        law_bytes_of_both(a.drop_first(), b);
        assert((a + b).drop_first() =~= a.drop_first() + b);
        assert((a + b)[0] == a[0]);
        assert(encode_utf8(a + b) =~= encode_utf8(a) + encode_utf8(b));
    }
}

/// What stands between the bytes of what precedes and follows a part of a text is that part.
pub proof fn law_part_of_text(a: Seq<char>, part: Seq<char>, b: Seq<char>, x: Seq<char>)
    requires
        is_byte_slice(
            a + part + b,
            byte_len(a) as int,
            (byte_len(a) + byte_len(part)) as int,
            x,
        ),
    ensures
        x == part,
{
    law_bytes_of_both(a + part, b);
    law_bytes_of_both(a, part);
    let whole = a + part + b;
    let start = byte_len(a) as int;
    let end = (byte_len(a) + byte_len(part)) as int;
    assert(encode_utf8(whole).subrange(start, end) =~= encode_utf8(part));
    lemma_slice_unique(whole, start, end, x, part);
}

/// Padding puts zeros in front of a text, and as many as the width asks for.
pub proof fn law_zero_padded(s: Seq<char>, width: nat)
    ensures
        zero_padded(s, width).len() == if s.len() < width {
            width
        } else {
            s.len()
        },
        zero_padded(s, width).skip(zero_padded(s, width).len() - s.len()) == s,
        forall|i: int|
            0 <= i < zero_padded(s, width).len() - s.len() ==> #[trigger] zero_padded(s, width)[i]
                == '0',
{
    let padded = zero_padded(s, width);
    assert(padded.skip(padded.len() - s.len()) =~= s);
}

/// A text is joined from parts in their order, with the separator between each two.
pub proof fn law_joined(parts: Seq<Seq<char>>, last: Seq<char>, separator: Seq<char>)
    ensures
        joined_with(Seq::empty(), separator) == Seq::<char>::empty(),
        joined_with(seq![last], separator) == last,
        parts.len() > 0 ==> joined_with(parts.push(last), separator) == joined_with(
            parts,
            separator,
        ) + separator + last,
{
    assert(parts.push(last).drop_last() =~= parts);
}

/// Trimming takes away the white space before and behind a text that neither begins nor ends with
/// any.
pub proof fn law_trim_call(s: &str, a: Seq<char>, text: Seq<char>, b: Seq<char>, res: String)
    requires
        call_ensures(trim, (s,), res),
        s@ == a + text + b,
        forall|i: int| 0 <= i < a.len() ==> is_whitespace(#[trigger] a[i]),
        forall|i: int| 0 <= i < b.len() ==> is_whitespace(#[trigger] b[i]),
        text.len() > 0,
        !is_whitespace(text[0]),
        !is_whitespace(text.last()),
    ensures
        res@ == text,
{
    law_trimmed(s@);
    let (from, to) = choose|from: int, to: int|
        0 <= from <= to <= s@.len() && #[trigger] s@.subrange(from, to) == trimmed(s@) && (forall|
            i: int,
        |
            0 <= i < from || to <= i < s@.len() ==> is_whitespace(#[trigger] s@[i]));
    let first = a.len() as int;
    let last = first + text.len() - 1;
    assert(s@[first] == text[0]);
    assert(s@[last] == text.last());
    assert(from <= first && last < to);
    if from < first {
        assert(s@[from] == a[from]);
        assert(trimmed(s@)[0] == s@[from]);
    }
    if to > last + 1 {
        assert(s@[to - 1] == b[to - 1 - last - 1]);
        assert(trimmed(s@).last() == s@[to - 1]);
    }
    assert(s@.subrange(from, to) =~= text);
}

/// The text of a number ends with its last digit, behind the text of the rest.
pub proof fn law_decimal_grows(n: nat, d: nat)
    requires
        d < 10,
    ensures
        d == 0 ==> decimal(d) == seq!['0'],
        d == 1 ==> decimal(d) == seq!['1'],
        d == 9 ==> decimal(d) == seq!['9'],
        n > 0 ==> decimal(10 * n + d) == decimal(n) + decimal(d),
        decimal(d).len() == 1,
        decimal(d)[0] as u32 == '0' as u32 + d,
{
    assert((10 * n + d) / 10 == n && (10 * n + d) % 10 == d) by (nonlinear_arith)
        requires
            d < 10,
    ;
    assert(decimal(n).push(digit(d)) =~= decimal(n) + seq![digit(d)]);
    assert(digit(0) == '0');
    assert(digit(1) == '1');
    assert(digit(9) == '9');
}

/// A number is read from its digits, from the first to the last. One that is too large is refused.
pub proof fn law_digits_are_read(s: Seq<char>, n: nat, d: nat, max: nat)
    requires
        digits_value(s, max) == Ok::<nat, NumberError>(n),
        d < 10,
    ensures
        digits_value(s + decimal(d), max) == if 10 * n + d <= max {
            Ok::<nat, NumberError>(10 * n + d)
        } else {
            Err(NumberError::TooLarge)
        },
{
    law_decimal_grows(0, d);
    assert((s + decimal(d)).drop_last() =~= s);
    assert((s + decimal(d)).last() == decimal(d)[0]);
}

/// What is read as a number: nothing of an empty text, what a sign stands before, and no text with
/// another character.
pub proof fn law_what_is_a_number(text: &str, n: u64, max: u64, res: Result<u64, NumberError>)
    requires
        call_ensures(parse_unsigned, (text, max), res),
        n <= max,
    ensures
        text@.len() == 0 ==> res == Err::<u64, NumberError>(NumberError::Empty),
        text@ == seq!['+'] ==> res == Err::<u64, NumberError>(NumberError::InvalidDigit),
        text@ == decimal(n as nat) ==> res == Ok::<u64, NumberError>(n),
        text@ == seq!['+'] + decimal(n as nat) ==> res == Ok::<u64, NumberError>(n),
        (exists|i: int|
            1 <= i < text@.len() && !('0' as u32 <= (#[trigger] text@[i]) as u32 <= '9' as u32))
            ==> res is Err,
{
    law_decimal_round_trip(n as nat, max as nat);
    lemma_decimal(n as nat, max as nat);
    let signed = seq!['+'] + decimal(n as nat);
    assert(signed.drop_first() =~= decimal(n as nat));
    if exists|i: int|
        1 <= i < text@.len() && !('0' as u32 <= (#[trigger] text@[i]) as u32 <= '9' as u32) {
        let i = choose|i: int|
            1 <= i < text@.len() && !('0' as u32 <= (#[trigger] text@[i]) as u32 <= '9' as u32);
        lemma_other_character(text@, i, max as nat);
        assert(text@.drop_first()[i - 1] == text@[i]);
        lemma_other_character(text@.drop_first(), i - 1, max as nat);
    }
}

proof fn lemma_other_character(s: Seq<char>, i: int, max: nat)
    requires
        0 <= i < s.len(),
        !('0' as u32 <= s[i] as u32 <= '9' as u32),
    ensures
        digits_value(s, max) is Err,
    decreases s.len(),
{
    if i < s.len() - 1 {
        lemma_other_character(s.drop_last(), i, max);
    }
}

/// Texts are ordered by the first character in which they differ, and a text comes after those with
/// which it begins.
pub proof fn law_text_order(p: Seq<char>, c: char, a: Seq<char>, d: char, b: Seq<char>)
    ensures
        c < d ==> text_less(p + seq![c] + a, p + seq![d] + b),
        c > d ==> !text_less(p + seq![c] + a, p + seq![d] + b),
        text_less(p, p + seq![c] + a),
        !text_less(p + seq![c] + a, p),
    decreases p.len(),
{
    let x = p + seq![c] + a;
    let y = p + seq![d] + b;
    if p.len() > 0 {
        let rest = p.drop_first();
        law_text_order(rest, c, a, d, b);
        assert(x.drop_first() =~= rest + seq![c] + a);
        assert(y.drop_first() =~= rest + seq![d] + b);
        assert(x[0] == p[0] && y[0] == p[0]);
    } else {
        assert(x[0] == c && y[0] == d);
    }
}

/// A text ends with another exactly where that other one is what its last characters are, and it
/// begins with it where its first are.
pub proof fn law_begins_and_ends(a: &str, b: &str, whole: &str, begins: bool, ends: bool)
    requires
        call_ensures(begins_with, (whole, a), begins),
        call_ensures(finishes_with, (whole, b), ends),
    ensures
        begins <==> exists|rest: Seq<char>| whole@ == #[trigger] (a@ + rest),
        ends <==> exists|front: Seq<char>| whole@ == #[trigger] (front + b@),
{
    if begins {
        let rest = whole@.skip(a@.len() as int);
        assert(whole@ =~= a@ + rest);
    }
    if ends {
        let front = whole@.take(whole@.len() - b@.len());
        assert(whole@ =~= front + b@);
    }
    if exists|rest: Seq<char>| whole@ == #[trigger] (a@ + rest) {
        let rest = choose|rest: Seq<char>| whole@ == #[trigger] (a@ + rest);
        assert(whole@.subrange(0, a@.len() as int) =~= a@);
    }
    if exists|front: Seq<char>| whole@ == #[trigger] (front + b@) {
        let front = choose|front: Seq<char>| whole@ == #[trigger] (front + b@);
        assert(whole@.subrange(front.len() as int, whole@.len() as int) =~= b@);
        assert(front.len() == whole@.len() - b@.len());
    }
}

/// The white space among the first 128 characters is the space, the tab, the line and page breaks
/// and the carriage return. The rest of it is what Unicode has as white space.
pub proof fn law_white_space(c: char)
    ensures
        (c as u32) < 128 ==> (is_whitespace(c) <==> c == ' ' || c == '\t' || c == '\n' || c == '\r'
            || c as u32 == 11 || c as u32 == 12),
        (c as u32) >= 128 ==> (is_whitespace(c) <==> c as u32 == 0x85 || c as u32 == 0xa0 || c as u32
            == 0x1680 || 0x2000 <= c as u32 <= 0x200a || c as u32 == 0x2028 || c as u32 == 0x2029
            || c as u32 == 0x202f || c as u32 == 0x205f || c as u32 == 0x3000),
        is_digit(c) ==> !is_whitespace(c),
        is_digit(c) <==> '0' <= c <= '9',
{
}

/// The texts of what can be wrong with a number.
pub proof fn law_number_error_texts(empty: String, digit: String, large: String)
    requires
        call_ensures(NumberError::message, (&NumberError::Empty,), empty),
        call_ensures(NumberError::message, (&NumberError::InvalidDigit,), digit),
        call_ensures(NumberError::message, (&NumberError::TooLarge,), large),
    ensures
        empty@ == "cannot parse integer from empty string"@,
        digit@ == "invalid digit found in string"@,
        large@ == "number too large to fit in target type"@,
{
}

} // verus!
