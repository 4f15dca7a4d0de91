//! Character-level string helpers shared by the formatting modules.
//!
//! Strings are specified through their view, a `Seq<char>`.
use vstd::prelude::*;

verus! {

/// Appends one character to a string (`String::push`).
#[verifier::external_body]
pub(crate) fn push_char(s: &mut String, c: char)
    ensures
        final(s)@ == old(s)@.push(c),
{
    s.push(c);
}

/// The characters of `s`, in order.
pub fn chars_of(s: &str) -> (v: Vec<char>)
    ensures
        v@ == s@,
{
    let n = s.unicode_len();
    let mut v: Vec<char> = Vec::new();
    let mut i: usize = 0;
    while i < n
        invariant
            n == s@.len(),
            i <= n,
            v@ == s@.subrange(0, i as int),
        decreases n - i,
    {
        let c = s.get_char(i);
        v.push(c);
        i = i + 1;
    }
    v
}

/// Builds a string from a sequence of characters.
pub fn string_from_chars(v: &Vec<char>) -> (s: String)
    ensures
        s@ == v@,
{
    let mut s = String::new();
    let mut i: usize = 0;
    while i < v.len()
        invariant
            i <= v.len(),
            s@ == v@.subrange(0, i as int),
        decreases v.len() - i,
    {
        push_char(&mut s, v[i]);
        i = i + 1;
    }
    s
}

/// Owned copy of a string slice.
pub fn owned(s: &str) -> (r: String)
    ensures
        r@ == s@,
{
    String::from_str(s)
}

/// Concatenation of two strings.
pub fn concat2(a: &str, b: &str) -> (r: String)
    ensures
        r@ == a@ + b@,
{
    let mut r = String::from_str(a);
    r.append(b);
    r
}

/// Concatenation of three strings.
pub fn concat3(a: &str, b: &str, c: &str) -> (r: String)
    ensures
        r@ == a@ + b@ + c@,
{
    let mut r = String::from_str(a);
    r.append(b);
    r.append(c);
    r
}

/// Character-wise equality of two strings.
pub fn str_eq(a: &str, b: &str) -> (r: bool)
    ensures
        r == (a@ == b@),
{
    let va = chars_of(a);
    let vb = chars_of(b);
    if va.len() != vb.len() {
        return false;
    }
    let mut i: usize = 0;
    while i < va.len()
        invariant
            va@ == a@,
            vb@ == b@,
            va.len() == vb.len(),
            i <= va.len(),
            forall|j: int| 0 <= j < i ==> va@[j] == vb@[j],
        decreases va.len() - i,
    {
        if va[i] != vb[i] {
            return false;
        }
        i = i + 1;
    }
    assert(a@ =~= b@);
    true
}

/// Whether `c` occurs in `s`.
pub fn contains_char(s: &str, c: char) -> (r: bool)
    ensures
        r == s@.contains(c),
{
    let v = chars_of(s);
    let mut i: usize = 0;
    while i < v.len()
        invariant
            v@ == s@,
            i <= v.len(),
            forall|j: int| 0 <= j < i ==> v@[j] != c,
        decreases v.len() - i,
    {
        if v[i] == c {
            assert(s@[i as int] == c);
            return true;
        }
        i = i + 1;
    }
    false
}

/// The Unicode `White_Space` characters, as `char::is_whitespace` recognises them.
pub open spec fn is_space(c: char) -> bool {
    ||| ('\u{9}' <= c && c <= '\u{d}')
    ||| c == ' '
    ||| c == '\u{85}'
    ||| c == '\u{a0}'
    ||| c == '\u{1680}'
    ||| ('\u{2000}' <= c && c <= '\u{200a}')
    ||| c == '\u{2028}'
    ||| c == '\u{2029}'
    ||| c == '\u{202f}'
    ||| c == '\u{205f}'
    ||| c == '\u{3000}'
}

pub fn is_space_char(c: char) -> (r: bool)
    ensures
        r == is_space(c),
{
    ('\u{9}' <= c && c <= '\u{d}') || c == ' ' || c == '\u{85}' || c == '\u{a0}' || c
        == '\u{1680}' || ('\u{2000}' <= c && c <= '\u{200a}') || c == '\u{2028}' || c == '\u{2029}'
        || c == '\u{202f}' || c == '\u{205f}' || c == '\u{3000}'
}

/// Index of the first character that is not white space (or the length).
pub open spec fn trim_start_index(s: Seq<char>) -> int
    decreases s.len(),
{
    if s.len() == 0 {
        0
    } else if is_space(s[0]) {
        1 + trim_start_index(s.drop_first())
    } else {
        0
    }
}

/// Index just past the last character that is not white space (or 0).
pub open spec fn trim_end_index(s: Seq<char>) -> int
    decreases s.len(),
{
    if s.len() == 0 {
        0
    } else if is_space(s.last()) {
        trim_end_index(s.drop_last())
    } else {
        s.len() as int
    }
}

/// `s` without leading and trailing white space.
pub open spec fn trimmed(s: Seq<char>) -> Seq<char> {
    let b = trim_start_index(s);
    let e = trim_end_index(s);
    if b < e {
        s.subrange(b, e)
    } else {
        Seq::empty()
    }
}

proof fn lemma_trim_start_bounds(s: Seq<char>)
    ensures
        0 <= trim_start_index(s) <= s.len(),
        forall|j: int| 0 <= j < trim_start_index(s) ==> is_space(#[trigger] s[j]),
        trim_start_index(s) < s.len() ==> !is_space(s[trim_start_index(s)]),
    decreases s.len(),
{
    if s.len() > 0 && is_space(s[0]) {
        lemma_trim_start_bounds(s.drop_first());
        assert forall|j: int| 0 <= j < trim_start_index(s) implies is_space(#[trigger] s[j]) by {
            if j > 0 {
                assert(s[j] == s.drop_first()[j - 1]);
            }
        }
    }
}

proof fn lemma_trim_end_bounds(s: Seq<char>)
    ensures
        0 <= trim_end_index(s) <= s.len(),
        forall|j: int| trim_end_index(s) <= j < s.len() ==> is_space(#[trigger] s[j]),
        trim_end_index(s) > 0 ==> !is_space(s[trim_end_index(s) - 1]),
    decreases s.len(),
{
    if s.len() > 0 && is_space(s.last()) {
        lemma_trim_end_bounds(s.drop_last());
        assert forall|j: int| trim_end_index(s) <= j < s.len() implies is_space(#[trigger] s[j]) by {
            if j < s.len() - 1 {
                assert(s[j] == s.drop_last()[j]);
            }
        }
    }
}

proof fn lemma_trim_start_is_first(s: Seq<char>, k: int)
    requires
        0 <= k <= s.len(),
        forall|j: int| 0 <= j < k ==> is_space(#[trigger] s[j]),
        k < s.len() ==> !is_space(s[k]),
    ensures
        trim_start_index(s) == k,
    decreases s.len(),
{
    if k > 0 {
        assert(is_space(s[0]));
        assert forall|j: int| 0 <= j < k - 1 implies is_space(#[trigger] s.drop_first()[j]) by {
            assert(s.drop_first()[j] == s[j + 1]);
        }
        if k - 1 < s.drop_first().len() {
            assert(s.drop_first()[k - 1] == s[k]);
        }
        lemma_trim_start_is_first(s.drop_first(), k - 1);
    }
}

proof fn lemma_trim_end_is_last(s: Seq<char>, k: int)
    requires
        0 <= k <= s.len(),
        forall|j: int| k <= j < s.len() ==> is_space(#[trigger] s[j]),
        k > 0 ==> !is_space(s[k - 1]),
    ensures
        trim_end_index(s) == k,
    decreases s.len(),
{
    if k < s.len() {
        assert(is_space(s[s.len() - 1]));
        assert forall|j: int| k <= j < s.drop_last().len() implies is_space(
            #[trigger] s.drop_last()[j],
        ) by {
            assert(s.drop_last()[j] == s[j]);
        }
        if k > 0 {
            assert(s.drop_last()[k - 1] == s[k - 1]);
        }
        lemma_trim_end_is_last(s.drop_last(), k);
    }
}

/// `str::trim`: removes leading and trailing white space.
pub fn trim(s: &str) -> (r: Vec<char>)
    ensures
        r@ == trimmed(s@),
{
    let v = chars_of(s);
    let n = v.len();
    let mut b: usize = 0;
    while b < n && is_space_char(v[b])
        invariant
            v@ == s@,
            n == v.len(),
            b <= n,
            forall|j: int| 0 <= j < b ==> is_space(#[trigger] v@[j]),
        decreases n - b,
    {
        b = b + 1;
    }
    proof {
        lemma_trim_start_is_first(s@, b as int);
    }
    let mut e: usize = n;
    while e > 0 && is_space_char(v[e - 1])
        invariant
            v@ == s@,
            n == v.len(),
            e <= n,
            forall|j: int| e <= j < n ==> is_space(#[trigger] v@[j]),
        decreases e,
    {
        e = e - 1;
    }
    proof {
        lemma_trim_end_is_last(s@, e as int);
    }
    let mut r: Vec<char> = Vec::new();
    if b < e {
        let mut i = b;
        while i < e
            invariant
                v@ == s@,
                b <= i <= e,
                e <= v.len(),
                r@ == v@.subrange(b as int, i as int),
            decreases e - i,
        {
            r.push(v[i]);
            i = i + 1;
        }
    }
    assert(r@ =~= trimmed(s@));
    r
}

/// `char::to_ascii_lowercase`.
pub open spec fn ascii_lower(c: char) -> char {
    if 'A' <= c && c <= 'Z' {
        ((c as u32) + 32) as char
    } else {
        c
    }
}

/// `char::to_ascii_uppercase`.
pub open spec fn ascii_upper(c: char) -> char {
    if 'a' <= c && c <= 'z' {
        ((c as u32) - 32) as char
    } else {
        c
    }
}

pub fn ascii_lower_char(c: char) -> (r: char)
    ensures
        r == ascii_lower(c),
{
    if 'A' <= c && c <= 'Z' {
        lower_of_upper(c)
    } else {
        c
    }
}

pub fn ascii_upper_char(c: char) -> (r: char)
    ensures
        r == ascii_upper(c),
{
    if 'a' <= c && c <= 'z' {
        upper_of_lower(c)
    } else {
        c
    }
}

fn lower_of_upper(c: char) -> (r: char)
    requires
        'A' <= c && c <= 'Z',
    ensures
        r == ((c as u32) + 32) as char,
{
    match c {
        'A' => 'a',
        'B' => 'b',
        'C' => 'c',
        'D' => 'd',
        'E' => 'e',
        'F' => 'f',
        'G' => 'g',
        'H' => 'h',
        'I' => 'i',
        'J' => 'j',
        'K' => 'k',
        'L' => 'l',
        'M' => 'm',
        'N' => 'n',
        'O' => 'o',
        'P' => 'p',
        'Q' => 'q',
        'R' => 'r',
        'S' => 's',
        'T' => 't',
        'U' => 'u',
        'V' => 'v',
        'W' => 'w',
        'X' => 'x',
        'Y' => 'y',
        _ => 'z',
    }
}

fn upper_of_lower(c: char) -> (r: char)
    requires
        'a' <= c && c <= 'z',
    ensures
        r == ((c as u32) - 32) as char,
{
    match c {
        'a' => 'A',
        'b' => 'B',
        'c' => 'C',
        'd' => 'D',
        'e' => 'E',
        'f' => 'F',
        'g' => 'G',
        'h' => 'H',
        'i' => 'I',
        'j' => 'J',
        'k' => 'K',
        'l' => 'L',
        'm' => 'M',
        'n' => 'N',
        'o' => 'O',
        'p' => 'P',
        'q' => 'Q',
        'r' => 'R',
        's' => 'S',
        't' => 'T',
        'u' => 'U',
        'v' => 'V',
        'w' => 'W',
        'x' => 'X',
        'y' => 'Y',
        _ => 'Z',
    }
}

/// `str::to_ascii_lowercase`, character by character.
/// Trimming a text that neither starts nor ends with white space keeps it.
pub proof fn lemma_trimmed_unchanged(s: Seq<char>)
    requires
        s.len() > 0 ==> !is_space(s[0]) && !is_space(s.last()),
    ensures
        trimmed(s) == s,
{
    if s.len() > 0 {
        lemma_trim_start_is_first(s, 0);
        lemma_trim_end_is_last(s, s.len() as int);
        assert(s.subrange(0, s.len() as int) =~= s);
    } else {
        assert(trimmed(s) =~= s);
    }
}

/// A trimmed text neither starts nor ends with white space.
pub proof fn lemma_trimmed_ends(s: Seq<char>)
    ensures
        trimmed(s).len() > 0 ==> !is_space(trimmed(s)[0]) && !is_space(trimmed(s).last()),
{
    lemma_trim_start_bounds(s);
    lemma_trim_end_bounds(s);
}

pub open spec fn lower_seq(s: Seq<char>) -> Seq<char> {
    s.map_values(|c: char| ascii_lower(c))
}

pub open spec fn upper_seq(s: Seq<char>) -> Seq<char> {
    s.map_values(|c: char| ascii_upper(c))
}

pub fn to_ascii_lowercase(v: &Vec<char>) -> (r: Vec<char>)
    ensures
        r@ == lower_seq(v@),
{
    let mut r: Vec<char> = Vec::new();
    let mut i: usize = 0;
    while i < v.len()
        invariant
            i <= v.len(),
            r@ == lower_seq(v@.subrange(0, i as int)),
        decreases v.len() - i,
    {
        let c = ascii_lower_char(v[i]);
        r.push(c);
        i = i + 1;
        assert(lower_seq(v@.subrange(0, i as int)) =~= lower_seq(
            v@.subrange(0, i - 1 as int),
        ).push(c));
    }
    assert(v@.subrange(0, v.len() as int) =~= v@);
    r
}

pub fn to_ascii_uppercase(v: &Vec<char>) -> (r: Vec<char>)
    ensures
        r@ == upper_seq(v@),
{
    let mut r: Vec<char> = Vec::new();
    let mut i: usize = 0;
    while i < v.len()
        invariant
            i <= v.len(),
            r@ == upper_seq(v@.subrange(0, i as int)),
        decreases v.len() - i,
    {
        let c = ascii_upper_char(v[i]);
        r.push(c);
        i = i + 1;
        assert(upper_seq(v@.subrange(0, i as int)) =~= upper_seq(
            v@.subrange(0, i - 1 as int),
        ).push(c));
    }
    assert(v@.subrange(0, v.len() as int) =~= v@);
    r
}

/// Decimal digit character for `d < 10`.
pub open spec fn digit_char(d: nat) -> char {
    if d == 0 {
        '0'
    } else if d == 1 {
        '1'
    } else if d == 2 {
        '2'
    } else if d == 3 {
        '3'
    } else if d == 4 {
        '4'
    } else if d == 5 {
        '5'
    } else if d == 6 {
        '6'
    } else if d == 7 {
        '7'
    } else if d == 8 {
        '8'
    } else {
        '9'
    }
}

fn digit(d: u64) -> (c: char)
    requires
        d < 10,
    ensures
        c == digit_char(d as nat),
{
    if d == 0 {
        '0'
    } else if d == 1 {
        '1'
    } else if d == 2 {
        '2'
    } else if d == 3 {
        '3'
    } else if d == 4 {
        '4'
    } else if d == 5 {
        '5'
    } else if d == 6 {
        '6'
    } else if d == 7 {
        '7'
    } else if d == 8 {
        '8'
    } else {
        '9'
    }
}

/// Decimal representation of a natural number, without leading zeros.
pub open spec fn decimal(n: nat) -> Seq<char>
    decreases n,
{
    if n < 10 {
        seq![digit_char(n)]
    } else {
        decimal(n / 10).push(digit_char(n % 10))
    }
}

/// Decimal representation of an integer, with `-` for negative values (`Display`).
pub open spec fn int_decimal(n: int) -> Seq<char> {
    if n < 0 {
        seq!['-'] + decimal((-n) as nat)
    } else {
        decimal(n as nat)
    }
}

/// Zero-padded decimal representation (`{:0w}` for non-negative values).
pub open spec fn padded_decimal(n: nat, width: nat) -> Seq<char> {
    let d = decimal(n);
    if d.len() < width {
        Seq::new((width - d.len()) as nat, |i: int| '0') + d
    } else {
        d
    }
}

pub proof fn lemma_decimal_len(n: nat)
    ensures
        decimal(n).len() >= 1,
        n < 10 ==> decimal(n).len() == 1,
        10 <= n < 100 ==> decimal(n).len() == 2,
        100 <= n < 1000 ==> decimal(n).len() == 3,
        1000 <= n < 10000 ==> decimal(n).len() == 4,
    decreases n,
{
    if n >= 10 {
        lemma_decimal_len(n / 10);
    }
}

/// Digits of `n`, most significant first.
pub fn decimal_chars(n: u64) -> (v: Vec<char>)
    ensures
        v@ == decimal(n as nat),
    decreases n,
{
    if n < 10 {
        let mut v: Vec<char> = Vec::new();
        v.push(digit(n));
        v
    } else {
        let mut v = decimal_chars(n / 10);
        v.push(digit(n % 10));
        v
    }
}

/// `n.to_string()` for a natural number.
pub fn u64_to_string(n: u64) -> (s: String)
    ensures
        s@ == decimal(n as nat),
{
    let v = decimal_chars(n);
    string_from_chars(&v)
}

/// `n.to_string()` for a signed number.
pub fn i64_to_string(n: i64) -> (s: String)
    requires
        n > i64::MIN,
    ensures
        s@ == int_decimal(n as int),
{
    if n < 0 {
        let m: i64 = -n;
        let mut s = String::from_str("-");
        let d = u64_to_string(m as u64);
        proof {
            reveal_strlit("-");
        }
        s.append(d.as_str());
        assert(s@ =~= int_decimal(n as int));
        s
    } else {
        u64_to_string(n as u64)
    }
}

/// `format!("{:0w}", n)` for a natural number.
pub fn padded_to_string(n: u64, width: usize) -> (s: String)
    ensures
        s@ == padded_decimal(n as nat, width as nat),
{
    let d = decimal_chars(n);
    let mut v: Vec<char> = Vec::new();
    if d.len() < width {
        let pad = width - d.len();
        let mut i: usize = 0;
        while i < pad
            invariant
                i <= pad,
                v@ == Seq::new(i as nat, |k: int| '0'),
            decreases pad - i,
        {
            v.push('0');
            i = i + 1;
            assert(v@ =~= Seq::new(i as nat, |k: int| '0'));
        }
    }
    let mut j: usize = 0;
    let ghost prefix = v@;
    while j < d.len()
        invariant
            j <= d.len(),
            v@ == prefix + d@.subrange(0, j as int),
        decreases d.len() - j,
    {
        v.push(d[j]);
        j = j + 1;
        assert(v@ =~= prefix + d@.subrange(0, j as int));
    }
    assert(d@.subrange(0, d.len() as int) =~= d@);
    assert(v@ =~= padded_decimal(n as nat, width as nat));
    string_from_chars(&v)
}

/// Joining strings with a separator.
pub open spec fn join_seq(parts: Seq<Seq<char>>, sep: Seq<char>) -> Seq<char>
    decreases parts.len(),
{
    if parts.len() == 0 {
        Seq::empty()
    } else if parts.len() == 1 {
        parts[0]
    } else {
        join_seq(parts.drop_last(), sep) + sep + parts.last()
    }
}

pub open spec fn views(v: Seq<String>) -> Seq<Seq<char>> {
    v.map_values(|s: String| s@)
}

/// `parts.join(sep)`.
pub fn join(parts: &Vec<String>, sep: &str) -> (r: String)
    ensures
        r@ == join_seq(views(parts@), sep@),
{
    let mut r = String::new();
    let mut i: usize = 0;
    while i < parts.len()
        invariant
            i <= parts.len(),
            r@ == join_seq(views(parts@.subrange(0, i as int)), sep@),
        decreases parts.len() - i,
    {
        let ghost before = views(parts@.subrange(0, i as int));
        if i > 0 {
            r.append(sep);
        }
        r.append(parts[i].as_str());
        i = i + 1;
        proof {
            let now = views(parts@.subrange(0, i as int));
            assert(now.drop_last() =~= before);
            assert(now.last() == parts@[i - 1]@);
            if i == 1 {
                assert(r@ =~= now[0]);
            }
        }
    }
    assert(parts@.subrange(0, parts.len() as int) =~= parts@);
    r
}

/// Whether `needle` occurs in `hay` as a contiguous run.
pub open spec fn contains_seq(hay: Seq<char>, needle: Seq<char>) -> bool {
    exists|i: int|
        0 <= i <= hay.len() - needle.len() && #[trigger] hay.subrange(i, i + needle.len())
            == needle
}

} // verus!
