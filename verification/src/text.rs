//! Character-level helpers: whitespace trimming, ASCII case folding, email
//! shape, hexadecimal and decimal renderings.

use vstd::prelude::*;
use vstd::string::*;

verus! {

/// Appending one character to a `String` extends its content by that character.
pub assume_specification[ String::push ](s: &mut String, ch: char)
    ensures
        final(s)@ == old(s)@.push(ch),
;

/// The Unicode `White_Space` property (what `char::is_whitespace` tests).
pub open spec fn is_ws(c: char) -> bool {
    let u = c as u32;
    ||| 0x09 <= u <= 0x0D
    ||| u == 0x20
    ||| u == 0x85
    ||| u == 0xA0
    ||| u == 0x1680
    ||| 0x2000 <= u <= 0x200A
    ||| u == 0x2028
    ||| u == 0x2029
    ||| u == 0x202F
    ||| u == 0x205F
    ||| u == 0x3000
}

pub fn is_whitespace_char(c: char) -> (b: bool)
    ensures
        b == is_ws(c),
{
    let u = c as u32;
    (0x09 <= u && u <= 0x0D) || u == 0x20 || u == 0x85 || u == 0xA0 || u == 0x1680 || (0x2000
        <= u && u <= 0x200A) || u == 0x2028 || u == 0x2029 || u == 0x202F || u == 0x205F || u
        == 0x3000
}

/// The characters of `s`, in order.
pub fn chars_of(s: &str) -> (v: Vec<char>)
    ensures
        v@ == s@,
{
    let n = s.unicode_len();
    let mut v: Vec<char> = Vec::new();
    let mut i: usize = 0;
    while i < n
        invariant
            n == s@.len(),
            i <= n,
            v@ == s@.take(i as int),
        decreases n - i,
    {
        let c = s.get_char(i);
        v.push(c);
        proof {
            assert(s@.take(i as int).push(c) =~= s@.take(i + 1));
        }
        i = i + 1;
    }
    proof {
        assert(s@.take(n as int) =~= s@);
    }
    v
}

/// The characters `v[from..to]` as a `String`.
pub fn string_of(v: &Vec<char>, from: usize, to: usize) -> (s: String)
    requires
        from <= to <= v@.len(),
    ensures
        s@ == v@.subrange(from as int, to as int),
{
    let mut s = String::new();
    let mut i = from;
    while i < to
        invariant
            from <= i <= to <= v@.len(),
            s@ == v@.subrange(from as int, i as int),
        decreases to - i,
    {
        s.push(v[i]);
        proof {
            assert(v@.subrange(from as int, i as int).push(v@[i as int]) =~= v@.subrange(
                from as int,
                i + 1,
            ));
        }
        i = i + 1;
    }
    s
}

/// `s` without its leading whitespace.
pub open spec fn trim_start(s: Seq<char>) -> Seq<char>
    decreases s.len(),
{
    if s.len() > 0 && is_ws(s[0]) {
        trim_start(s.drop_first())
    } else {
        s
    }
}

/// `s` without its trailing whitespace.
pub open spec fn trim_end(s: Seq<char>) -> Seq<char>
    decreases s.len(),
{
    if s.len() > 0 && is_ws(s.last()) {
        trim_end(s.drop_last())
    } else {
        s
    }
}

/// `s` without leading and trailing whitespace (what `str::trim` returns).
pub open spec fn trimmed(s: Seq<char>) -> Seq<char> {
    trim_end(trim_start(s))
}

/// Index of the first non-whitespace character of `v` (or its length).
fn skip_ws(v: &Vec<char>) -> (a: usize)
    ensures
        a <= v@.len(),
        trim_start(v@) == v@.skip(a as int),
        forall|j: int| 0 <= j < a ==> is_ws(#[trigger] v@[j]),
{
    let mut a: usize = 0;
    proof {
        assert(v@.skip(0) =~= v@);
    }
    while a < v.len() && is_whitespace_char(v[a])
        invariant
            a <= v@.len(),
            trim_start(v@) == trim_start(v@.skip(a as int)),
            forall|j: int| 0 <= j < a ==> is_ws(#[trigger] v@[j]),
        decreases v@.len() - a,
    {
        proof {
            assert(v@.skip(a as int).drop_first() =~= v@.skip(a + 1));
        }
        a = a + 1;
    }
    proof {
        if a < v@.len() {
            assert(v@.skip(a as int)[0] == v@[a as int]);
        }
    }
    a
}

/// `v` without leading and trailing whitespace, as a `String`.
pub fn trim_chars(v: &Vec<char>) -> (s: String)
    ensures
        s@ == trimmed(v@),
{
    let a = skip_ws(v);
    let mut b = v.len();
    proof {
        assert(v@.skip(a as int) =~= v@.subrange(a as int, b as int));
    }
    while b > a && is_whitespace_char(v[b - 1])
        invariant
            a <= b <= v@.len(),
            trim_end(v@.skip(a as int)) == trim_end(v@.subrange(a as int, b as int)),
        decreases b,
    {
        proof {
            assert(v@.subrange(a as int, b as int).drop_last() =~= v@.subrange(a as int, b - 1));
        }
        b = b - 1;
    }
    string_of(v, a, b)
}

/// `s` without leading and trailing whitespace.
pub fn trim(s: &str) -> (r: String)
    ensures
        r@ == trimmed(s@),
{
    let v = chars_of(s);
    trim_chars(&v)
}

/// ASCII upper-case letters map to lower case; every other character is kept.
pub open spec fn lower_char(c: char) -> char {
    if 'A' <= c <= 'Z' {
        ((c as u32) + 32) as char
    } else {
        c
    }
}

pub open spec fn lower_ascii(s: Seq<char>) -> Seq<char> {
    s.map_values(|c: char| lower_char(c))
}

pub fn to_lower_char(c: char) -> (r: char)
    ensures
        r == lower_char(c),
{
    if 'A' <= c && c <= 'Z' {
        ((c as u8) + 32) as char
    } else {
        c
    }
}

/// The ASCII lower-case form of `s`.
pub fn to_ascii_lowercase(s: &String) -> (r: String)
    ensures
        r@ == lower_ascii(s@),
{
    let v = chars_of(s.as_str());
    let mut r = String::new();
    let mut i: usize = 0;
    while i < v.len()
        invariant
            v@ == s@,
            i <= v@.len(),
            r@ == lower_ascii(v@.take(i as int)),
        decreases v@.len() - i,
    {
        r.push(to_lower_char(v[i]));
        proof {
            assert(lower_ascii(v@.take(i as int)).push(lower_char(v@[i as int])) =~= lower_ascii(
                v@.take(i + 1),
            ));
        }
        i = i + 1;
    }
    proof {
        assert(v@.take(v@.len() as int) =~= v@);
    }
    r
}

/// The form an email address is stored and looked up in: trimmed, then
/// ASCII-lower-cased.
pub open spec fn normalized_email(s: Seq<char>) -> Seq<char> {
    lower_ascii(trimmed(s))
}

pub fn normalize_email(s: &str) -> (r: String)
    ensures
        r@ == normalized_email(s@),
{
    let t = trim(s);
    to_ascii_lowercase(&t)
}

proof fn lemma_trim_start_head(s: Seq<char>)
    ensures
        trim_start(s).len() > 0 ==> !is_ws(trim_start(s)[0]),
    decreases s.len(),
{
    if s.len() > 0 && is_ws(s[0]) {
        lemma_trim_start_head(s.drop_first());
    }
}

proof fn lemma_trim_end_prefix(s: Seq<char>)
    ensures
        trim_end(s).len() <= s.len(),
        trim_end(s) =~= s.take(trim_end(s).len() as int),
        trim_end(s).len() > 0 ==> !is_ws(trim_end(s).last()),
    decreases s.len(),
{
    if s.len() > 0 && is_ws(s.last()) {
        lemma_trim_end_prefix(s.drop_last());
    }
}

/// A normalized address is its own normal form.
pub proof fn lemma_normalized_email_idempotent(raw: Seq<char>)
    ensures
        normalized_email(normalized_email(raw)) == normalized_email(raw),
{
    let a = trim_start(raw);
    let t = trim_end(a);
    lemma_trim_start_head(raw);
    lemma_trim_end_prefix(a);
    let l = lower_ascii(t);
    assert(l.len() == t.len());
    if l.len() > 0 {
        assert(t[0] == a[0]);
        assert(!is_ws(l[0]));
        assert(!is_ws(l.last()));
        assert(l.drop_first().len() + 1 == l.len());
    }
    assert(trim_start(l) == l);
    assert(trim_end(l) == l);
    assert(lower_ascii(l) =~= l);
}

/// `name@domain.tld` shape: the part before the first `@` is non-empty and
/// the part after it contains a `.`.
pub open spec fn email_shape_ok(s: Seq<char>) -> bool {
    exists|p: int|
        #![trigger s[p]]
        0 < p < s.len() && s[p] == '@' && (forall|q: int| 0 <= q < p ==> s[q] != '@') && (exists|
            q: int,
        |
            #![trigger s[q]]
            p < q < s.len() && s[q] == '.')
}

pub fn email_has_valid_shape(s: &str) -> (b: bool)
    ensures
        b == email_shape_ok(s@),
{
    let v = chars_of(s);
    let mut p: usize = 0;
    while p < v.len() && v[p] != '@'
        invariant
            v@ == s@,
            p <= v@.len(),
            forall|q: int| 0 <= q < p ==> v@[q] != '@',
        decreases v@.len() - p,
    {
        p = p + 1;
    }
    if p == v.len() || p == 0 {
        proof {
            if email_shape_ok(s@) {
                let w = choose|w: int|
                    #![trigger s@[w]]
                    0 < w < s@.len() && s@[w] == '@' && (forall|q: int| 0 <= q < w ==> s@[q] != '@')
                        && (exists|q: int| #![trigger s@[q]] w < q < s@.len() && s@[q] == '.');
                if p == 0 {
                    assert(s@[0] == '@');
                } else {
                    assert(s@[w] != '@');
                }
            }
        }
        return false;
    }
    let mut q = p + 1;
    while q < v.len() && v[q] != '.'
        invariant
            v@ == s@,
            0 < p < v@.len(),
            v@[p as int] == '@',
            forall|j: int| 0 <= j < p ==> v@[j] != '@',
            p < q <= v@.len(),
            forall|j: int| p < j < q ==> v@[j] != '.',
        decreases v@.len() - q,
    {
        q = q + 1;
    }
    proof {
        if q < v.len() {
            assert(s@[q as int] == '.');
            assert(s@[p as int] == '@');
        } else if email_shape_ok(s@) {
            let w = choose|w: int|
                #![trigger s@[w]]
                0 < w < s@.len() && s@[w] == '@' && (forall|j: int| 0 <= j < w ==> s@[j] != '@') && (
                exists|j: int| #![trigger s@[j]] w < j < s@.len() && s@[j] == '.');
            if w < p {
                assert(v@[w] != '@');
            } else if w > p {
                assert(s@[p as int] != '@');
            }
        }
    }
    q < v.len()
}

/// The first whitespace-separated word of `s`, or `s` itself where it has
/// none (`s.split_whitespace().next().unwrap_or(s)`).
pub open spec fn leading_word(s: Seq<char>) -> Seq<char>
    decreases s.len(),
{
    if s.len() > 0 && !is_ws(s[0]) {
        seq![s[0]] + leading_word(s.drop_first())
    } else {
        Seq::empty()
    }
}

pub open spec fn first_word_or_all(s: Seq<char>) -> Seq<char> {
    let w = leading_word(trim_start(s));
    if w.len() > 0 {
        w
    } else {
        s
    }
}

proof fn lemma_leading_word_step(v: Seq<char>, a: int, b: int)
    requires
        0 <= a <= b < v.len(),
        forall|j: int| a <= j <= b ==> !is_ws(#[trigger] v[j]),
        leading_word(v.skip(a)) == v.subrange(a, b) + leading_word(v.skip(b)),
    ensures
        leading_word(v.skip(a)) == v.subrange(a, b + 1) + leading_word(v.skip(b + 1)),
{
    assert(v.skip(b).drop_first() =~= v.skip(b + 1));
    assert(leading_word(v.skip(b)) == seq![v[b]] + leading_word(v.skip(b + 1)));
    assert(v.subrange(a, b) + (seq![v[b]] + leading_word(v.skip(b + 1))) =~= v.subrange(a, b + 1)
        + leading_word(v.skip(b + 1)));
}

pub fn first_word_or_all_of(s: &str) -> (r: String)
    ensures
        r@ == first_word_or_all(s@),
{
    let v = chars_of(s);
    let a = skip_ws(&v);
    let mut b = a;
    proof {
        assert(v@.subrange(a as int, a as int) =~= Seq::<char>::empty());
        assert(leading_word(v@.skip(a as int)) =~= v@.subrange(a as int, a as int) + leading_word(
            v@.skip(a as int),
        ));
    }
    while b < v.len() && !is_whitespace_char(v[b])
        invariant
            v@ == s@,
            a <= b <= v@.len(),
            forall|j: int| a <= j < b ==> !is_ws(#[trigger] v@[j]),
            leading_word(v@.skip(a as int)) == v@.subrange(a as int, b as int) + leading_word(
                v@.skip(b as int),
            ),
        decreases v@.len() - b,
    {
        proof {
            lemma_leading_word_step(v@, a as int, b as int);
        }
        b = b + 1;
    }
    proof {
        assert(leading_word(v@.skip(b as int)) =~= Seq::<char>::empty());
        assert(v@.subrange(a as int, b as int) + Seq::<char>::empty() =~= v@.subrange(
            a as int,
            b as int,
        ));
    }
    if b > a {
        string_of(&v, a, b)
    } else {
        proof {
            assert(v@.subrange(0, v@.len() as int) =~= s@);
        }
        string_of(&v, 0, v.len())
    }
}

/// Appends the characters of `t`.
pub fn push_all(s: &mut String, t: &str)
    ensures
        final(s)@ == old(s)@ + t@,
{
    let ghost start = s@;
    let v = chars_of(t);
    let mut i: usize = 0;
    while i < v.len()
        invariant
            i <= v@.len(),
            v@ == t@,
            s@ == start + t@.take(i as int),
        decreases v@.len() - i,
    {
        s.push(v[i]);
        proof {
            assert((start + t@.take(i as int)).push(v@[i as int]) =~= start + t@.take(i + 1));
        }
        i = i + 1;
    }
    proof {
        assert(t@.take(v@.len() as int) =~= t@);
    }
}

/// Whether two strings hold the same characters.
pub fn str_eq(a: &str, b: &str) -> (r: bool)
    ensures
        r == (a@ == b@),
{
    let x = a.to_owned();
    let y = b.to_owned();
    x == y
}

/// The lower-case hexadecimal digit for `n < 16`.
pub open spec fn hex_char(n: nat) -> char {
    if n < 10 {
        (('0' as u32) + n) as char
    } else {
        (('a' as u32) + n - 10) as char
    }
}

/// The low `n` hexadecimal digits of `v`, most significant first, zero-padded.
pub open spec fn hex_fixed(v: nat, n: nat) -> Seq<char>
    decreases n,
{
    if n == 0 {
        Seq::empty()
    } else {
        hex_fixed(v / 16, (n - 1) as nat).push(hex_char(v % 16))
    }
}

/// A lower-case hexadecimal digit: `0`-`9` or `a`-`f`.
pub open spec fn is_lower_hex(c: char) -> bool {
    (48 <= (c as u32) <= 57) || (97 <= (c as u32) <= 102)
}

/// The shape of a session token: 64 lower-case hexadecimal digits.
pub open spec fn is_token_text(t: Seq<char>) -> bool {
    &&& t.len() == 64
    &&& forall|i: int| 0 <= i < 64 ==> is_lower_hex(#[trigger] t[i])
}

/// `hex_fixed(v, n)` has `n` characters, each a lower-case hexadecimal digit.
pub proof fn lemma_hex_fixed_shape(v: nat, n: nat)
    ensures
        hex_fixed(v, n).len() == n,
        forall|i: int| 0 <= i < n ==> is_lower_hex(#[trigger] hex_fixed(v, n)[i]),
    decreases n,
{
    if n > 0 {
        lemma_hex_fixed_shape(v / 16, (n - 1) as nat);
        let d = v % 16;
        assert(is_lower_hex(hex_char(d)));
    }
}

/// The text of `b` has two lower-case hexadecimal digits per byte.
pub proof fn lemma_hex_bytes_shape(b: Seq<u8>)
    ensures
        hex_bytes(b).len() == 2 * b.len(),
        forall|i: int| 0 <= i < hex_bytes(b).len() ==> is_lower_hex(#[trigger] hex_bytes(b)[i]),
    decreases b.len(),
{
    if b.len() > 0 {
        lemma_hex_bytes_shape(b.drop_last());
        lemma_hex_fixed_shape(b.last() as nat, 2);
        let front = hex_bytes(b.drop_last());
        let back = hex_fixed(b.last() as nat, 2);
        assert forall|i: int| 0 <= i < hex_bytes(b).len() implies is_lower_hex(#[trigger] hex_bytes(b)[i]) by {
            if i < front.len() {
                assert(hex_bytes(b)[i] == front[i]);
            } else {
                assert(hex_bytes(b)[i] == back[i - front.len()]);
            }
        }
    }
}

/// Two lower-case hexadecimal digits per byte.
pub open spec fn hex_bytes(b: Seq<u8>) -> Seq<char>
    decreases b.len(),
{
    if b.len() == 0 {
        Seq::empty()
    } else {
        hex_bytes(b.drop_last()) + hex_fixed(b.last() as nat, 2)
    }
}

fn hex_digit(n: u8) -> (c: char)
    requires
        n < 16,
    ensures
        c == hex_char(n as nat),
{
    if n < 10 {
        (n + 48) as char
    } else {
        (n + 87) as char
    }
}

/// Appends the low `n` hexadecimal digits of `v`.
pub fn push_hex_fixed(s: &mut String, v: u128, n: usize)
    ensures
        final(s)@ == old(s)@ + hex_fixed(v as nat, n as nat),
    decreases n,
{
    if n > 0 {
        push_hex_fixed(s, v / 16, n - 1);
        s.push(hex_digit((v % 16) as u8));
        proof {
            assert(hex_fixed(v as nat, n as nat) == hex_fixed((v / 16) as nat, (n - 1) as nat).push(
                hex_char((v % 16) as nat),
            ));
        }
    } else {
        proof {
            assert(old(s)@ + Seq::<char>::empty() =~= old(s)@);
        }
    }
}

/// The bytes as lower-case hexadecimal text.
pub fn hex_lower(b: &[u8]) -> (s: String)
    ensures
        s@ == hex_bytes(b@),
{
    let mut s = String::new();
    let mut i: usize = 0;
    while i < b.len()
        invariant
            i <= b@.len(),
            s@ == hex_bytes(b@.take(i as int)),
        decreases b@.len() - i,
    {
        push_hex_fixed(&mut s, b[i] as u128, 2);
        proof {
            assert(b@.take(i + 1).drop_last() =~= b@.take(i as int));
        }
        i = i + 1;
    }
    proof {
        assert(b@.take(b@.len() as int) =~= b@);
    }
    s
}

/// The decimal digit for `n < 10`.
pub open spec fn dec_char(n: nat) -> char {
    (('0' as u32) + n) as char
}

/// The decimal rendering of `n` (what `to_string` gives for an unsigned integer).
pub open spec fn dec_text(n: nat) -> Seq<char>
    decreases n,
{
    if n < 10 {
        seq![dec_char(n)]
    } else {
        dec_text(n / 10).push(dec_char(n % 10))
    }
}

/// The value of a non-empty run of decimal digits.
pub open spec fn digits_value(s: Seq<char>) -> Option<nat>
    decreases s.len(),
{
    if s.len() == 0 {
        None
    } else {
        let c = s.last();
        if '0' <= c <= '9' {
            let d = (c as u32 - '0' as u32) as nat;
            if s.len() == 1 {
                Some(d)
            } else {
                match digits_value(s.drop_last()) {
                    Some(v) => Some(v * 10 + d),
                    None => None,
                }
            }
        } else {
            None
        }
    }
}

/// Decimal text reads back as the number it renders.
pub proof fn lemma_dec_text_reads_back(n: nat)
    ensures
        dec_text(n).len() > 0,
        '0' <= dec_text(n)[0] <= '9',
        digits_value(dec_text(n)) == Some(n),
    decreases n,
{
    if n >= 10 {
        lemma_dec_text_reads_back(n / 10);
        let s = dec_text(n);
        assert(s.drop_last() =~= dec_text(n / 10));
        assert(s[0] == dec_text(n / 10)[0]);
    }
}

/// What `str::parse::<usize>` accepts: an optional `+` and a non-empty run of
/// decimal digits whose value fits in `usize`.
pub open spec fn parse_usize_spec(s: Seq<char>) -> Option<usize> {
    let digits = if s.len() > 0 && s[0] == '+' {
        s.drop_first()
    } else {
        s
    };
    match digits_value(digits) {
        Some(v) => if v <= usize::MAX {
            Some(v as usize)
        } else {
            None
        },
        None => None,
    }
}

fn push_decimal(s: &mut String, n: usize)
    ensures
        final(s)@ == old(s)@ + dec_text(n as nat),
    decreases n,
{
    if n < 10 {
        s.push(((n as u8) + 48) as char);
        proof {
            assert(old(s)@.push(dec_char(n as nat)) =~= old(s)@ + seq![dec_char(n as nat)]);
        }
    } else {
        push_decimal(s, n / 10);
        s.push((((n % 10) as u8) + 48) as char);
        proof {
            assert(old(s)@ + dec_text((n / 10) as nat) + seq![dec_char((n % 10) as nat)]
                =~= old(s)@ + dec_text(n as nat));
        }
    }
}

/// The decimal rendering of `n`.
pub fn usize_to_string(n: usize) -> (s: String)
    ensures
        s@ == dec_text(n as nat),
{
    let mut s = String::new();
    push_decimal(&mut s, n);
    proof {
        assert(Seq::<char>::empty() + dec_text(n as nat) =~= dec_text(n as nat));
    }
    s
}

/// Parses an unsigned decimal number as `str::parse::<usize>` does.
pub fn parse_usize(s: &str) -> (r: Option<usize>)
    ensures
        r == parse_usize_spec(s@),
{
    let v = chars_of(s);
    let start: usize = if v.len() > 0 && v[0] == '+' {
        1
    } else {
        0
    };
    let ghost digits = if s@.len() > 0 && s@[0] == '+' {
        s@.drop_first()
    } else {
        s@
    };
    proof {
        assert(digits =~= v@.skip(start as int));
    }
    if start == v.len() {
        return None;
    }
    let mut acc: usize = 0;
    let mut i = start;
    while i < v.len()
        invariant
            v@ == s@,
            start < v@.len(),
            start <= i <= v@.len(),
            digits =~= v@.skip(start as int),
            digits == (if s@.len() > 0 && s@[0] == '+' {
                s@.drop_first()
            } else {
                s@
            }),
            i > start ==> digits_value(v@.subrange(start as int, i as int)) == Some(acc as nat),
        decreases v@.len() - i,
    {
        let c = v[i];
        proof {
            assert(v@.subrange(start as int, i + 1).drop_last() =~= v@.subrange(start as int, i as int));
            assert(v@.subrange(start as int, i + 1).last() == c);
        }
        proof {
            assert(digits[(i - start) as int] == c);
            assert(digits.take((i - start) as int) =~= v@.subrange(start as int, i as int));
        }
        if c < '0' || c > '9' {
            proof {
                lemma_digits_prefix_none(digits, (i - start) as int);
            }
            return None;
        }
        let d = (c as u32 - 48) as usize;
        if i == start {
            acc = d;
        } else {
            if acc > (usize::MAX - d) / 10 {
                proof {
                    assert(acc * 10 + d > usize::MAX) by (nonlinear_arith)
                        requires
                            acc > (usize::MAX - d) / 10,
                            d < 10,
                    ;
                    lemma_digits_prefix_bound(digits, (i - start) as int, acc as nat);
                }
                return None;
            }
            proof {
                assert(acc * 10 + d <= usize::MAX) by (nonlinear_arith)
                    requires
                        acc <= (usize::MAX - d) / 10,
                        d < 10,
                ;
            }
            acc = acc * 10 + d;
        }
        i = i + 1;
    }
    proof {
        assert(v@.subrange(start as int, v@.len() as int) =~= digits);
    }
    Some(acc)
}

/// A non-digit anywhere makes the whole run invalid.
proof fn lemma_digits_prefix_none(s: Seq<char>, k: int)
    requires
        0 <= k < s.len(),
        !('0' <= s[k] <= '9'),
    ensures
        digits_value(s) is None,
    decreases s.len(),
{
    if k < s.len() - 1 {
        assert(s.drop_last()[k] == s[k]);
        lemma_digits_prefix_none(s.drop_last(), k);
    }
}

/// Once a prefix exceeds the bound, the whole run does too.
proof fn lemma_digits_prefix_bound(s: Seq<char>, k: int, acc: nat)
    requires
        0 < k < s.len(),
        digits_value(s.take(k)) == Some(acc),
        '0' <= s[k] <= '9',
        acc * 10 + (s[k] as u32 - '0' as u32) > usize::MAX,
    ensures
        match digits_value(s) {
            Some(v) => v > usize::MAX,
            None => true,
        },
{
    let t = s.take(k + 1);
    assert(t.drop_last() =~= s.take(k));
    assert(t.last() == s[k]);
    assert(digits_value(t) == Some(acc * 10 + (s[k] as u32 - '0' as u32) as nat));
    if let Some(v) = digits_value(s) {
        lemma_digits_prefix_le(s, k + 1, v);
    }
}

/// Every non-empty prefix of a valid digit run is valid and no larger.
proof fn lemma_digits_prefix_le(s: Seq<char>, m: int, v: nat)
    requires
        0 < m <= s.len(),
        digits_value(s) == Some(v),
    ensures
        match digits_value(s.take(m)) {
            Some(w) => w <= v,
            None => false,
        },
    decreases s.len(),
{
    if m == s.len() {
        assert(s.take(m) =~= s);
    } else {
        let p = s.drop_last();
        let v2 = digits_value(p)->0;
        assert(s.take(m) =~= p.take(m));
        lemma_digits_prefix_le(p, m, v2);
    }
}

} // verus!
