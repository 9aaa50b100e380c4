//! Text primitives: the string operations of std that the library relies on,
//! each with the behaviour its documentation gives, and a few verified
//! helpers built on them.
use vstd::prelude::*;

verus! {

/// `c` lowered when it is an ASCII capital letter, unchanged otherwise.
pub open spec fn ascii_lower(c: char) -> char {
    if 'A' <= c && c <= 'Z' {
        ((c as u32) + 32) as char
    } else {
        c
    }
}

/// `c` raised when it is an ASCII small letter, unchanged otherwise.
pub open spec fn ascii_upper(c: char) -> char {
    if 'a' <= c && c <= 'z' {
        ((c as u32) - 32) as char
    } else {
        c
    }
}

/// Every character raised by `ascii_upper`.
pub open spec fn ascii_upper_seq(s: Seq<char>) -> Seq<char> {
    Seq::new(s.len(), |i: int| ascii_upper(s[i]))
}

/// Every character lowered by `ascii_lower`.
pub open spec fn ascii_lower_seq(s: Seq<char>) -> Seq<char> {
    Seq::new(s.len(), |i: int| ascii_lower(s[i]))
}

/// Equality of two texts when ASCII letters are compared without case.
pub open spec fn eq_ignore_ascii_case_spec(a: Seq<char>, b: Seq<char>) -> bool {
    ascii_lower_seq(a) == ascii_lower_seq(b)
}

/// Whether `c` has the Unicode `White_Space` property (the code points
/// that the Unicode Character Database lists for it).
pub open spec fn is_unicode_whitespace(c: char) -> bool {
    let u = c as u32;
    ||| 0x9 <= u <= 0xD
    ||| u == 0x20
    ||| u == 0x85
    ||| u == 0xA0
    ||| u == 0x1680
    ||| 0x2000 <= u <= 0x200A
    ||| u == 0x2028
    ||| u == 0x2029
    ||| u == 0x202F
    ||| u == 0x205F
    ||| u == 0x3000
}

/// Whether every character of the text is ASCII.
pub open spec fn is_ascii_text(s: Seq<char>) -> bool {
    forall|i: int| 0 <= i < s.len() ==> (#[trigger] s[i]) as u32 <= 0x7F
}

/// What `str::to_lowercase` returns for a text that is not all ASCII.
pub uninterp spec fn non_ascii_lowercase(s: Seq<char>) -> Seq<char>;

/// What `str::to_lowercase` returns for a text: an ASCII text with its
/// capitals lowered, any other its Unicode lowercase mapping.
pub open spec fn unicode_lowercase(s: Seq<char>) -> Seq<char> {
    if is_ascii_text(s) {
        ascii_lower_seq(s)
    } else {
        non_ascii_lowercase(s)
    }
}

/// `s` without its leading whitespace.
pub open spec fn trim_start_spec(s: Seq<char>) -> Seq<char>
    decreases s.len(),
{
    if s.len() > 0 && is_unicode_whitespace(s[0]) {
        trim_start_spec(s.drop_first())
    } else {
        s
    }
}

/// `s` without its trailing whitespace.
pub open spec fn trim_end_spec(s: Seq<char>) -> Seq<char>
    decreases s.len(),
{
    if s.len() > 0 && is_unicode_whitespace(s.last()) {
        trim_end_spec(s.drop_last())
    } else {
        s
    }
}

/// `s` without leading and trailing whitespace.
pub open spec fn trim_spec(s: Seq<char>) -> Seq<char> {
    trim_end_spec(trim_start_spec(s))
}

/// Strict lexicographic order of texts, character by character (the order in
/// which Rust compares `str`: UTF-8 byte order agrees with code point order).
pub open spec fn text_lt(a: Seq<char>, b: Seq<char>) -> bool
    decreases a.len(),
{
    if a.len() == 0 {
        b.len() > 0
    } else if b.len() == 0 {
        false
    } else if a[0] != b[0] {
        a[0] < b[0]
    } else {
        text_lt(a.drop_first(), b.drop_first())
    }
}

/// The decimal digits of a natural number, most significant first.
pub open spec fn decimal_spec(n: nat) -> Seq<char>
    decreases n,
{
    if n < 10 {
        seq![digit_char(n)]
    } else {
        decimal_spec(n / 10).push(digit_char(n % 10))
    }
}

/// The ASCII digit for `d < 10`.
pub open spec fn digit_char(d: nat) -> char {
    ((d + 48) as u32) as char
}

/// Whether `needle` occurs in `hay` as a contiguous part.
pub open spec fn contains_spec(hay: Seq<char>, needle: Seq<char>) -> bool {
    exists|i: int|
        0 <= i && i + needle.len() <= hay.len() && #[trigger] hay.subrange(i, i + needle.len())
            == needle
}

/// Whether every character is an ASCII digit.
pub open spec fn all_digits(s: Seq<char>) -> bool {
    forall|i: int| 0 <= i < s.len() ==> '0' <= #[trigger] s[i] && s[i] <= '9'
}

/// The number the decimal digits of `s` spell.
pub open spec fn digits_value(s: Seq<char>) -> int
    decreases s.len(),
{
    if s.len() == 0 {
        0
    } else {
        digits_value(s.drop_last()) * 10 + (s.last() as int - '0' as int)
    }
}

/// What `str::parse` gives for an integer type with the bounds `min` and
/// `max`: an optional sign (`-` only where the type is signed) and at least
/// one digit, nothing else, and a value within the bounds.
pub open spec fn parse_int_spec(s: Seq<char>, signed: bool, min: int, max: int) -> Option<int> {
    let neg = s.len() > 0 && s[0] == '-';
    let plus = s.len() > 0 && s[0] == '+';
    let body = if neg || plus {
        s.drop_first()
    } else {
        s
    };
    if body.len() == 0 || !all_digits(body) || (neg && !signed) {
        None
    } else {
        let v = if neg {
            -digits_value(body)
        } else {
            digits_value(body)
        };
        if min <= v && v <= max {
            Some(v)
        } else {
            None
        }
    }
}

/// Calls `str::parse::<i32>`.
#[verifier::external_body]
pub(crate) fn parse_i32(s: &str) -> (r: Option<i32>)
    ensures
        match r {
            Some(v) => parse_int_spec(s@, true, i32::MIN as int, i32::MAX as int) == Some(v as int),
            None => parse_int_spec(s@, true, i32::MIN as int, i32::MAX as int) is None,
        },
{
    s.parse::<i32>().ok()
}

/// Calls `str::parse::<u32>`.
#[verifier::external_body]
pub(crate) fn parse_u32(s: &str) -> (r: Option<u32>)
    ensures
        match r {
            Some(v) => parse_int_spec(s@, false, 0, u32::MAX as int) == Some(v as int),
            None => parse_int_spec(s@, false, 0, u32::MAX as int) is None,
        },
{
    s.parse::<u32>().ok()
}

/// Calls `str::parse::<u16>`.
#[verifier::external_body]
pub(crate) fn parse_u16(s: &str) -> (r: Option<u16>)
    ensures
        match r {
            Some(v) => parse_int_spec(s@, false, 0, u16::MAX as int) == Some(v as int),
            None => parse_int_spec(s@, false, 0, u16::MAX as int) is None,
        },
{
    s.parse::<u16>().ok()
}

/// Calls `str::parse::<u8>`.
#[verifier::external_body]
pub(crate) fn parse_u8(s: &str) -> (r: Option<u8>)
    ensures
        match r {
            Some(v) => parse_int_spec(s@, false, 0, u8::MAX as int) == Some(v as int),
            None => parse_int_spec(s@, false, 0, u8::MAX as int) is None,
        },
{
    s.parse::<u8>().ok()
}

/// The index of the first `c` in `s`, if any.
pub open spec fn find_char(s: Seq<char>, c: char) -> Option<int>
    decreases s.len(),
{
    if s.len() == 0 {
        None
    } else if s[0] == c {
        Some(0)
    } else {
        match find_char(s.drop_first(), c) {
            Some(i) => Some(i + 1),
            None => None,
        }
    }
}

/// A found index lies in `s`, holds `c`, and no earlier index does.
pub proof fn lemma_find_char(s: Seq<char>, c: char)
    ensures
        match find_char(s, c) {
            Some(i) => 0 <= i < s.len() && s[i] == c && forall|j: int| 0 <= j < i ==> s[j] != c,
            None => forall|j: int| 0 <= j < s.len() ==> s[j] != c,
        },
    decreases s.len(),
{
    if s.len() > 0 && s[0] != c {
        lemma_find_char(s.drop_first(), c);
        match find_char(s.drop_first(), c) {
            Some(i) => {
                assert forall|j: int| 0 <= j < i + 1 implies s[j] != c by {
                    if j > 0 {
                        assert(s[j] == s.drop_first()[j - 1]);
                    }
                }
            },
            None => {
                assert forall|j: int| 0 <= j < s.len() implies s[j] != c by {
                    if j > 0 {
                        assert(s[j] == s.drop_first()[j - 1]);
                    }
                }
            },
        }
    }
}

/// The pieces of `s` between occurrences of `c`, as `str::split` yields them.
pub open spec fn split_spec(s: Seq<char>, c: char) -> Seq<Seq<char>>
    decreases s.len(),
{
    match find_char(s, c) {
        Some(i) => {
            proof {
                lemma_find_char(s, c);
            }
            seq![s.take(i)] + split_spec(s.skip(i + 1), c)
        },
        None => seq![s],
    }
}

/// Where `c` first occurs in `s`, if it does.
pub fn find_char_index(s: &str, c: char) -> (r: Option<usize>)
    ensures
        match r {
            Some(i) => find_char(s@, c) == Some(i as int),
            None => find_char(s@, c) is None,
        },
{
    let n = s.unicode_len();
    let mut i: usize = 0;
    assert(s@.skip(0) =~= s@);
    while i < n
        invariant
            n == s@.len(),
            0 <= i <= n,
            find_char(s@, c) == match find_char(s@.skip(i as int), c) {
                Some(j) => Some(j + i),
                None => None,
            },
        decreases n - i,
    {
        proof {
            assert(s@.skip(i as int).drop_first() =~= s@.skip(i + 1));
        }
        if s.get_char(i) == c {
            return Some(i);
        }
        i = i + 1;
    }
    proof {
        assert(s@.skip(n as int) =~= Seq::<char>::empty());
    }
    None
}

/// The first two pieces of `s` split at `c`, when it has at least two.
pub fn first_two_pieces(s: &str, c: char) -> (r: Option<(&str, &str)>)
    ensures
        match r {
            Some((a, b)) => split_spec(s@, c).len() >= 2 && a@ == split_spec(s@, c)[0] && b@
                == split_spec(s@, c)[1],
            None => split_spec(s@, c).len() < 2,
        },
{
    let n = s.unicode_len();
    match find_char_index(s, c) {
        None => {
            None
        },
        Some(i) => {
            proof {
                lemma_find_char(s@, c);
            }
            let first = s.substring_char(0, i);
            let rest = s.substring_char(i + 1, n);
            proof {
                assert(rest@ =~= s@.skip(i + 1));
                assert(first@ =~= s@.take(i as int));
            }
            let m = rest.unicode_len();
            proof {
                lemma_find_char(rest@, c);
            }
            let second = match find_char_index(rest, c) {
                Some(j) => rest.substring_char(0, j),
                None => rest,
            };
            proof {
                let tail = split_spec(rest@, c);
                assert(tail.len() >= 1);
                match find_char(rest@, c) {
                    Some(j) => assert(second@ =~= rest@.take(j)),
                    None => {},
                }
                assert(split_spec(s@, c) =~= seq![s@.take(i as int)] + tail);
            }
            Some((first, second))
        },
    }
}

/// The pieces of `s` split at `c`, as `str::split` yields them.
pub fn split_pieces(s: &str, c: char) -> (r: Vec<&str>)
    ensures
        r@.map_values(|p: &str| p@) == split_spec(s@, c),
{
    let mut pieces: Vec<&str> = Vec::new();
    let mut rest: &str = s;
    assert(pieces@.map_values(|p: &str| p@) + split_spec(rest@, c) =~= split_spec(s@, c));
    loop
        invariant
            pieces@.map_values(|p: &str| p@) + split_spec(rest@, c) == split_spec(s@, c),
        decreases rest@.len(),
    {
        let ghost before = pieces@.map_values(|p: &str| p@);
        match find_char_index(rest, c) {
            None => {
                pieces.push(rest);
                assert(pieces@.map_values(|p: &str| p@) =~= before + split_spec(rest@, c));
                return pieces;
            },
            Some(i) => {
                proof {
                    lemma_find_char(rest@, c);
                }
                let n = rest.unicode_len();
                let first = rest.substring_char(0, i);
                let tail = rest.substring_char(i + 1, n);
                proof {
                    assert(first@ =~= rest@.take(i as int));
                    assert(tail@ =~= rest@.skip(i + 1));
                    assert(split_spec(rest@, c) == seq![first@] + split_spec(tail@, c));
                }
                pieces.push(first);
                assert(pieces@.map_values(|p: &str| p@) =~= before.push(first@));
                assert(before.push(first@) + split_spec(tail@, c) =~= before + (seq![first@] + split_spec(
                    tail@,
                    c,
                )));
                rest = tail;
            },
        }
    }
}

/// The first piece of `s` split at `c`: the text before the first `c`.
pub fn first_piece(s: &str, c: char) -> (r: &str)
    ensures
        r@ == split_spec(s@, c)[0],
{
    match find_char_index(s, c) {
        None => s,
        Some(i) => {
            proof {
                lemma_find_char(s@, c);
            }
            let first = s.substring_char(0, i);
            proof {
                assert(first@ =~= s@.take(i as int));
            }
            first
        },
    }
}

/// Whether `c` is a visible ASCII character (`!` to `~`); none of them is
/// Unicode whitespace.
pub open spec fn ascii_graphic(c: char) -> bool {
    '!' <= c && c <= '~'
}

/// A text that begins and ends with a visible ASCII character is its own
/// trim.
pub proof fn lemma_trim_plain(s: Seq<char>)
    requires
        s.len() > 0,
        ascii_graphic(s[0]),
        ascii_graphic(s.last()),
    ensures
        trim_spec(s) == s,
{
    assert(!is_unicode_whitespace(s[0]));
    assert(trim_start_spec(s) == s);
    assert(!is_unicode_whitespace(s.last()));
}

/// Calls `str::trim`: the text without leading and trailing Unicode
/// whitespace.
#[verifier::external_body]
pub(crate) fn trim(s: &str) -> (r: &str)
    ensures
        r@ == trim_spec(s@),
        r@.len() > 0 ==> !is_unicode_whitespace(r@[0]) && !is_unicode_whitespace(r@.last()),
{
    s.trim()
}

/// Calls `str::to_lowercase`: the Unicode lowercase mapping of the text,
/// which on ASCII text lowers the capitals and keeps all else.
#[verifier::external_body]
pub(crate) fn to_lowercase(s: &str) -> (r: String)
    ensures
        r@ == unicode_lowercase(s@),
        !is_ascii_text(s@) ==> r@ == non_ascii_lowercase(s@),
{
    s.to_lowercase()
}

/// The text with ASCII capitals lowered and all else kept.
pub(crate) fn to_ascii_lowercase(s: &str) -> (r: String)
    ensures
        r@ == ascii_lower_seq(s@),
{
    let n = s.unicode_len();
    let mut r = String::new();
    let mut i: usize = 0;
    while i < n
        invariant
            n == s@.len(),
            i <= n,
            r@ == ascii_lower_seq(s@).take(i as int),
        decreases n - i,
    {
        push_char(&mut r, ascii_lower_char(s.get_char(i)));
        assert(ascii_lower_seq(s@).take(i + 1) =~= ascii_lower_seq(s@).take(i as int).push(ascii_lower(s@[i as int])));
        i = i + 1;
    }
    assert(ascii_lower_seq(s@).take(n as int) =~= ascii_lower_seq(s@));
    r
}

/// The text with ASCII small letters raised and all else kept.
pub(crate) fn to_ascii_uppercase(s: &str) -> (r: String)
    ensures
        r@ == ascii_upper_seq(s@),
{
    let n = s.unicode_len();
    let mut r = String::new();
    let mut i: usize = 0;
    while i < n
        invariant
            n == s@.len(),
            i <= n,
            r@ == ascii_upper_seq(s@).take(i as int),
        decreases n - i,
    {
        push_char(&mut r, ascii_upper_char(s.get_char(i)));
        assert(ascii_upper_seq(s@).take(i + 1) =~= ascii_upper_seq(s@).take(i as int).push(ascii_upper(s@[i as int])));
        i = i + 1;
    }
    assert(ascii_upper_seq(s@).take(n as int) =~= ascii_upper_seq(s@));
    r
}

/// `c` lowered when it is an ASCII capital letter.
fn ascii_lower_char(c: char) -> (r: char)
    ensures
        r == ascii_lower(c),
{
    if 'A' <= c && c <= 'Z' {
        ((c as u8) + 32) as char
    } else {
        c
    }
}

/// `c` raised when it is an ASCII small letter.
fn ascii_upper_char(c: char) -> (r: char)
    ensures
        r == ascii_upper(c),
{
    if 'a' <= c && c <= 'z' {
        ((c as u8) - 32) as char
    } else {
        c
    }
}

/// Equality of two texts when ASCII letters are compared without case.
pub(crate) fn eq_ignore_ascii_case(a: &str, b: &str) -> (r: bool)
    ensures
        r == eq_ignore_ascii_case_spec(a@, b@),
{
    let n = a.unicode_len();
    if n != b.unicode_len() {
        proof {
            assert(ascii_lower_seq(a@).len() != ascii_lower_seq(b@).len());
        }
        return false;
    }
    let mut i: usize = 0;
    while i < n
        invariant
            n == a@.len(),
            n == b@.len(),
            i <= n,
            forall|j: int| 0 <= j < i ==> ascii_lower(a@[j]) == ascii_lower(b@[j]),
        decreases n - i,
    {
        if ascii_lower_char(a.get_char(i)) != ascii_lower_char(b.get_char(i)) {
            proof {
                assert(ascii_lower_seq(a@)[i as int] != ascii_lower_seq(b@)[i as int]);
            }
            return false;
        }
        i = i + 1;
    }
    assert(ascii_lower_seq(a@) =~= ascii_lower_seq(b@));
    true
}

/// Whether two texts hold the same characters.
pub(crate) fn str_eq(a: &str, b: &str) -> (r: bool)
    ensures
        r == (a@ == b@),
{
    let n = a.unicode_len();
    if n != b.unicode_len() {
        return false;
    }
    let mut i: usize = 0;
    while i < n
        invariant
            n == a@.len(),
            n == b@.len(),
            i <= n,
            forall|j: int| 0 <= j < i ==> a@[j] == b@[j],
        decreases n - i,
    {
        if a.get_char(i) != b.get_char(i) {
            return false;
        }
        i = i + 1;
    }
    assert(a@ =~= b@);
    true
}

/// Lexicographic order of two texts, character by character.
pub(crate) fn str_lt(a: &str, b: &str) -> (r: bool)
    ensures
        r == text_lt(a@, b@),
{
    let na = a.unicode_len();
    let nb = b.unicode_len();
    let mut i: usize = 0;
    assert(a@.skip(0) =~= a@ && b@.skip(0) =~= b@);
    while i < na && i < nb
        invariant
            na == a@.len(),
            nb == b@.len(),
            i <= na,
            i <= nb,
            text_lt(a@, b@) == text_lt(a@.skip(i as int), b@.skip(i as int)),
        decreases na - i,
    {
        let ca = a.get_char(i);
        let cb = b.get_char(i);
        assert(a@.skip(i as int)[0] == ca && b@.skip(i as int)[0] == cb);
        if ca != cb {
            return ca < cb;
        }
        assert(a@.skip(i as int).drop_first() =~= a@.skip(i + 1));
        assert(b@.skip(i as int).drop_first() =~= b@.skip(i + 1));
        i = i + 1;
    }
    assert(a@.skip(i as int).len() == na - i && b@.skip(i as int).len() == nb - i);
    i == na && i < nb
}

/// Whether `needle` occurs in `hay` as a contiguous part.
pub(crate) fn str_contains(hay: &str, needle: &str) -> (r: bool)
    ensures
        r == contains_spec(hay@, needle@),
{
    let n = hay.unicode_len();
    let m = needle.unicode_len();
    if m > n {
        return false;
    }
    let last = n - m;
    let mut i: usize = 0;
    loop
        invariant
            n == hay@.len(),
            m == needle@.len(),
            last == n - m,
            i <= last,
            forall|k: int| 0 <= k < i ==> #[trigger] hay@.subrange(k, k + m) != needle@,
        decreases last - i,
    {
        if str_eq(hay.substring_char(i, i + m), needle) {
            assert(hay@.subrange(i as int, i + m) == needle@);
            return true;
        }
        if i == last {
            assert(hay@.subrange(i as int, i + m) != needle@);
            return false;
        }
        i = i + 1;
    }
}

/// Calls `str::to_owned`: a `String` with the same characters.
#[verifier::external_body]
pub(crate) fn owned(s: &str) -> (r: String)
    ensures
        r@ == s@,
{
    s.to_owned()
}

/// Calls `String::push`: the character is added at the end.
#[verifier::external_body]
pub(crate) fn push_char(s: &mut String, c: char)
    ensures
        final(s)@ == old(s)@.push(c),
{
    s.push(c)
}

/// Calls `String::push_str`: the text is added at the end.
#[verifier::external_body]
pub(crate) fn push_str(s: &mut String, t: &str)
    ensures
        final(s)@ == old(s)@ + t@,
{
    s.push_str(t)
}

/// The ASCII digit for `d < 10`.
fn digit_exec(d: u64) -> (c: char)
    requires
        d < 10,
    ensures
        c == digit_char(d as nat),
{
    ((d as u8) + 48) as char
}

/// The decimal digits of the number, as `u64`'s `Display` writes them.
pub(crate) fn u64_decimal(n: u64) -> (r: String)
    ensures
        r@ == decimal_spec(n as nat),
    decreases n,
{
    if n < 10 {
        let mut s = String::new();
        push_char(&mut s, digit_exec(n));
        assert(s@ =~= seq![digit_char(n as nat)]);
        s
    } else {
        let mut s = u64_decimal(n / 10);
        push_char(&mut s, digit_exec(n % 10));
        s
    }
}

/// A fresh text holding `a` followed by `b`.
pub fn concat(a: &str, b: &str) -> (r: String)
    ensures
        r@ == a@ + b@,
{
    let mut r = owned(a);
    push_str(&mut r, b);
    r
}

/// A fresh text holding `a`, `b` and `c` in turn.
pub fn concat3(a: &str, b: &str, c: &str) -> (r: String)
    ensures
        r@ == a@ + b@ + c@,
{
    let mut r = owned(a);
    push_str(&mut r, b);
    push_str(&mut r, c);
    r
}

/// The decimal digits of `n` padded on the left with `'0'` to at least
/// `width` characters.
pub open spec fn zero_pad_spec(n: nat, width: nat) -> Seq<char> {
    Seq::new(
        if decimal_spec(n).len() < width {
            (width - decimal_spec(n).len()) as nat
        } else {
            0
        },
        |i: int| '0',
    ) + decimal_spec(n)
}

/// The decimal digits of `n` padded on the left with `'0'` to at least
/// `width` characters, as `format!("{n:0width$}")` writes them.
pub fn zero_padded(n: u64, width: usize) -> (r: String)
    ensures
        r@ == zero_pad_spec(n as nat, width as nat),
{
    let digits = u64_decimal(n);
    let ghost d = digits@;
    let len = digits.as_str().unicode_len();
    let mut r = String::new();
    let mut k: usize = len;
    while k < width
        invariant
            len == d.len(),
            len <= k <= width || (k == len && len >= width),
            r@ == Seq::new((k - len) as nat, |i: int| '0'),
        decreases width - k,
    {
        push_char(&mut r, '0');
        k = k + 1;
        assert(r@ =~= Seq::new((k - len) as nat, |i: int| '0'));
    }
    push_str(&mut r, digits.as_str());
    assert(r@ =~= Seq::new(
        if d.len() < width { (width - d.len()) as nat } else { 0 },
        |i: int| '0',
    ) + d);
    r
}

} // verus!
