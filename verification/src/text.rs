//! Character-level text handling shared by the line protocol, the state
//! file and the status/telemetry renderers: whitespace tokenising, unsigned
//! decimal and hexadecimal parsing with the exact acceptance rules of
//! `str::parse`/`from_str_radix`, and decimal/hex rendering.

use vstd::prelude::*;
use vstd::string::*;

verus! {

/// `char::is_whitespace`: the Unicode `White_Space` property.
pub open spec fn is_ws(c: char) -> bool {
    let n: u32 = c as u32;
    ||| 0x09 <= n && n <= 0x0d
    ||| n == 0x20
    ||| n == 0x85
    ||| n == 0xa0
    ||| n == 0x1680
    ||| 0x2000 <= n && n <= 0x200a
    ||| n == 0x2028
    ||| n == 0x2029
    ||| n == 0x202f
    ||| n == 0x205f
    ||| n == 0x3000
}

pub fn is_whitespace(c: char) -> (r: bool)
    ensures
        r == is_ws(c),
{
    let n: u32 = c as u32;
    (0x09 <= n && n <= 0x0d) || n == 0x20 || n == 0x85 || n == 0xa0 || n == 0x1680 || (0x2000
        <= n && n <= 0x200a) || n == 0x2028 || n == 0x2029 || n == 0x202f || n == 0x205f || n
        == 0x3000
}

/// `String::push`.  Trusted: the string's characters afterwards are the
/// ones before followed by `c`, as the standard library documents.
#[verifier::external_body]
pub(crate) fn push_char(s: &mut String, c: char)
    ensures
        final(s)@ == old(s)@.push(c),
{
    s.push(c);
}

/// The characters of `s`, in order.
pub fn chars_of(s: &str) -> (v: Vec<char>)
    ensures
        v@ == s@,
{
    let n: usize = s.unicode_len();
    let mut v: Vec<char> = Vec::new();
    let mut i: usize = 0;
    while i < n
        invariant
            n == s@.len(),
            i <= n,
            v@ == s@.subrange(0, i as int),
        decreases n - i,
    {
        let c = s.get_char(i);
        v.push(c);
        i = i + 1;
        assert(v@ =~= s@.subrange(0, i as int));
    }
    assert(v@ =~= s@);
    v
}

/// A string holding exactly the characters of `v`.
pub fn string_of(v: &[char]) -> (s: String)
    ensures
        s@ == v@,
{
    let mut s = String::new();
    let mut i: usize = 0;
    while i < v.len()
        invariant
            i <= v@.len(),
            s@ == v@.subrange(0, i as int),
        decreases v@.len() - i,
    {
        push_char(&mut s, v[i]);
        i = i + 1;
        assert(s@ =~= v@.subrange(0, i as int));
    }
    assert(s@ =~= v@);
    s
}


/// True when `a` holds exactly the characters of `b`.
pub fn chars_eq(a: &[char], b: &str) -> (r: bool)
    ensures
        r == (a@ == b@),
{
    let n: usize = b.unicode_len();
    if a.len() != n {
        return false;
    }
    let mut i: usize = 0;
    while i < n
        invariant
            n == b@.len(),
            a@.len() == n,
            i <= n,
            forall|j: int| 0 <= j < i ==> a@[j] == b@[j],
        decreases n - i,
    {
        if a[i] != b.get_char(i) {
            return false;
        }
        i = i + 1;
    }
    assert(a@ =~= b@);
    true
}

// ----------------------------------------------------------------------
// Whitespace tokenising (`str::split_whitespace`).
// ----------------------------------------------------------------------

/// Left-to-right scan state: the finished words and the word in progress.
pub open spec fn ws_scan(s: Seq<char>) -> (Seq<Seq<char>>, Seq<char>)
    decreases s.len(),
{
    if s.len() == 0 {
        (Seq::empty(), Seq::empty())
    } else {
        let (done, cur) = ws_scan(s.drop_last());
        let c = s.last();
        if is_ws(c) {
            if cur.len() > 0 {
                (done.push(cur), Seq::empty())
            } else {
                (done, cur)
            }
        } else {
            (done, cur.push(c))
        }
    }
}

/// The maximal runs of non-whitespace characters of `s`, in order.
pub open spec fn words(s: Seq<char>) -> Seq<Seq<char>> {
    let (done, cur) = ws_scan(s);
    if cur.len() > 0 {
        done.push(cur)
    } else {
        done
    }
}

pub open spec fn views(v: Seq<Vec<char>>) -> Seq<Seq<char>> {
    Seq::new(v.len(), |i: int| v[i]@)
}

/// `s.split_whitespace()`, each word as its characters.
pub fn split_words(s: &[char]) -> (r: Vec<Vec<char>>)
    ensures
        views(r@) == words(s@),
{
    let mut done: Vec<Vec<char>> = Vec::new();
    let mut cur: Vec<char> = Vec::new();
    let mut i: usize = 0;
    while i < s.len()
        invariant
            i <= s@.len(),
            (views(done@), cur@) == ws_scan(s@.subrange(0, i as int)),
        decreases s@.len() - i,
    {
        let ghost prefix = s@.subrange(0, i as int);
        let c = s[i];
        assert(s@.subrange(0, i + 1).drop_last() =~= prefix);
        if is_whitespace(c) {
            if cur.len() > 0 {
                let ghost before = views(done@);
                let word = cur;
                done.push(word);
                cur = Vec::new();
                assert(views(done@) =~= before.push(word@));
            }
        } else {
            cur.push(c);
        }
        i = i + 1;
    }
    assert(s@.subrange(0, s@.len() as int) =~= s@);
    if cur.len() > 0 {
        let ghost before = views(done@);
        let word = cur;
        done.push(word);
        assert(views(done@) =~= before.push(word@));
    }
    done
}

// ----------------------------------------------------------------------
// Unsigned decimal parsing (`str::parse::<u8>()`, `::<u16>()`, ...).
// ----------------------------------------------------------------------

pub open spec fn is_digit(c: char) -> bool {
    0x30 <= c as u32 && c as u32 <= 0x39
}

pub open spec fn digit_value(c: char) -> nat {
    (c as u32 - 0x30) as nat
}

pub open spec fn all_digits(s: Seq<char>) -> bool {
    forall|i: int| 0 <= i < s.len() ==> is_digit(#[trigger] s[i])
}

/// The number that a string of decimal digits denotes.
pub open spec fn digits_value(s: Seq<char>) -> nat
    decreases s.len(),
{
    if s.len() == 0 {
        0
    } else {
        digits_value(s.drop_last()) * 10 + digit_value(s.last())
    }
}

/// The digits after an optional leading `+`.
pub open spec fn unsigned_body(s: Seq<char>) -> Seq<char> {
    if s.len() > 0 && s[0] == '+' {
        s.drop_first()
    } else {
        s
    }
}

/// What `str::parse` gives for an unsigned type whose largest value is
/// `max`: an optional `+`, then at least one ASCII digit and nothing else,
/// with the value in range.
pub open spec fn parse_unsigned(s: Seq<char>, max: nat) -> Option<nat> {
    let body = unsigned_body(s);
    if body.len() > 0 && all_digits(body) && digits_value(body) <= max {
        Some(digits_value(body))
    } else {
        None
    }
}

pub fn parse_bounded(s: &[char], max: u64) -> (r: Option<u64>)
    ensures
        r matches Some(v) ==> parse_unsigned(s@, max as nat) == Some(v as nat),
        r is None ==> parse_unsigned(s@, max as nat) is None,
{
    let ghost body = unsigned_body(s@);
    let start: usize = if s.len() > 0 && s[0] == '+' {
        1
    } else {
        0
    };
    assert(body =~= s@.subrange(start as int, s@.len() as int));
    if start >= s.len() {
        return None;
    }
    let mut acc: u128 = 0;
    let mut i: usize = start;
    while i < s.len()
        invariant
            start <= i <= s@.len(),
            body == s@.subrange(start as int, s@.len() as int),
            body == unsigned_body(s@),
            all_digits(s@.subrange(start as int, i as int)),
            acc == if digits_value(s@.subrange(start as int, i as int)) <= max {
                digits_value(s@.subrange(start as int, i as int))
            } else {
                max as nat + 1
            },
        decreases s@.len() - i,
    {
        let c = s[i];
        let cn: u32 = c as u32;
        if !(0x30 <= cn && cn <= 0x39) {
            assert(body[i - start] == c);
            assert(!is_digit(body[i - start]));
            return None;
        }
        let ghost before = s@.subrange(start as int, i as int);
        let ghost after = s@.subrange(start as int, i + 1);
        assert(after.drop_last() =~= before);
        assert(after.last() == c);
        let d: u64 = (cn - 0x30) as u64;
        if acc > max as u128 {
            acc = max as u128 + 1;
        } else {
            let next: u128 = acc * 10 + d as u128;
            if next > max as u128 {
                acc = max as u128 + 1;
            } else {
                acc = next;
            }
        }
        i = i + 1;
        assert(all_digits(after)) by {
            assert forall|j: int| 0 <= j < after.len() implies is_digit(#[trigger] after[j]) by {
                if j < before.len() {
                    assert(after[j] == before[j]);
                }
            }
        }
    }
    assert(s@.subrange(start as int, i as int) == body);
    if acc > max as u128 {
        None
    } else {
        Some(acc as u64)
    }
}

pub fn parse_u8(s: &[char]) -> (r: Option<u8>)
    ensures
        r matches Some(v) ==> parse_unsigned(s@, 255) == Some(v as nat),
        r is None ==> parse_unsigned(s@, 255) is None,
{
    match parse_bounded(s, 255) {
        Some(v) => Some(v as u8),
        None => None,
    }
}

pub fn parse_u16(s: &[char]) -> (r: Option<u16>)
    ensures
        r matches Some(v) ==> parse_unsigned(s@, 65535) == Some(v as nat),
        r is None ==> parse_unsigned(s@, 65535) is None,
{
    match parse_bounded(s, 65535) {
        Some(v) => Some(v as u16),
        None => None,
    }
}

// ----------------------------------------------------------------------
// Hexadecimal.
// ----------------------------------------------------------------------

pub open spec fn hex_digit(c: char) -> Option<nat> {
    let n: u32 = c as u32;
    if 0x30 <= n && n <= 0x39 {
        Some((n - 0x30) as nat)
    } else if 0x61 <= n && n <= 0x66 {
        Some((n - 0x61 + 10) as nat)
    } else if 0x41 <= n && n <= 0x46 {
        Some((n - 0x41 + 10) as nat)
    } else {
        None
    }
}

/// The value of two ASCII hex digits, most significant first; `None`
/// unless both are hex digits.
pub open spec fn hex_pair(a: char, b: char) -> Option<nat> {
    match (hex_digit(a), hex_digit(b)) {
        (Some(x), Some(y)) => Some(x * 16 + y),
        _ => None,
    }
}

pub fn hex_digit_value(c: char) -> (r: Option<u8>)
    ensures
        r matches Some(v) ==> hex_digit(c) == Some(v as nat),
        r is None ==> hex_digit(c) is None,
{
    let n: u32 = c as u32;
    if 0x30 <= n && n <= 0x39 {
        Some((n - 0x30) as u8)
    } else if 0x61 <= n && n <= 0x66 {
        Some((n - 0x61 + 10) as u8)
    } else if 0x41 <= n && n <= 0x46 {
        Some((n - 0x41 + 10) as u8)
    } else {
        None
    }
}

pub fn parse_hex_pair(a: char, b: char) -> (r: Option<u8>)
    ensures
        r matches Some(v) ==> hex_pair(a, b) == Some(v as nat),
        r is None ==> hex_pair(a, b) is None,
{
    match (hex_digit_value(a), hex_digit_value(b)) {
        (Some(x), Some(y)) => Some(x * 16 + y),
        _ => None,
    }
}

// ----------------------------------------------------------------------
// Rendering.
// ----------------------------------------------------------------------

pub open spec fn digit_char(d: nat) -> char {
    ((d % 10) + 0x30) as char
}

/// `n.to_string()` for an unsigned `n`.
pub open spec fn dec(n: nat) -> Seq<char>
    decreases n,
{
    if n < 10 {
        seq![digit_char(n)]
    } else {
        dec(n / 10).push(digit_char(n % 10))
    }
}

pub fn digit_to_char(d: u64) -> (c: char)
    requires
        d < 10,
    ensures
        c == digit_char(d as nat),
{
    let r = match d {
        0 => '0',
        1 => '1',
        2 => '2',
        3 => '3',
        4 => '4',
        5 => '5',
        6 => '6',
        7 => '7',
        8 => '8',
        _ => '9',
    };
    assert(r as u32 == d + 0x30);
    r
}

/// Appends the decimal digits of `n`.
pub fn push_dec(s: &mut String, n: u64)
    ensures
        final(s)@ == old(s)@ + dec(n as nat),
    decreases n,
{
    if n >= 10 {
        push_dec(s, n / 10);
        let c = digit_to_char(n % 10);
        push_char(s, c);
        assert(final(s)@ =~= old(s)@ + dec(n as nat));
    } else {
        let c = digit_to_char(n);
        push_char(s, c);
        assert(final(s)@ =~= old(s)@ + dec(n as nat));
    }
}


pub open spec fn hex_char(d: nat) -> char {
    if d < 10 {
        (d + 0x30) as char
    } else {
        (d - 10 + 0x61) as char
    }
}

/// `format!("{:0w$x}", n)` for a value below `16^w`: exactly `w` lowercase
/// hex digits, most significant first.
pub open spec fn hex_fixed(n: nat, w: nat) -> Seq<char>
    decreases w,
{
    if w == 0 {
        Seq::empty()
    } else {
        hex_fixed(n / 16, (w - 1) as nat).push(hex_char(n % 16))
    }
}

pub fn hex_to_char(d: u64) -> (c: char)
    requires
        d < 16,
    ensures
        c == hex_char(d as nat),
{
    let r = match d {
        0 => '0',
        1 => '1',
        2 => '2',
        3 => '3',
        4 => '4',
        5 => '5',
        6 => '6',
        7 => '7',
        8 => '8',
        9 => '9',
        10 => 'a',
        11 => 'b',
        12 => 'c',
        13 => 'd',
        14 => 'e',
        _ => 'f',
    };
    assert(d < 10 ==> r as u32 == d + 0x30);
    assert(d >= 10 ==> r as u32 == d - 10 + 0x61);
    r
}

/// Appends `n` as exactly `w` lowercase hex digits.
pub fn push_hex(s: &mut String, n: u64, w: u64)
    ensures
        final(s)@ == old(s)@ + hex_fixed(n as nat, w as nat),
    decreases w,
{
    if w > 0 {
        push_hex(s, n / 16, w - 1);
        let c = hex_to_char(n % 16);
        push_char(s, c);
        assert(final(s)@ =~= old(s)@ + hex_fixed(n as nat, w as nat));
    } else {
        assert(final(s)@ =~= old(s)@ + hex_fixed(n as nat, w as nat));
    }
}


// ----------------------------------------------------------------------
// Debug quoting.
// ----------------------------------------------------------------------

/// What `format!("{:?}", s)` produces for a string: the text in double
/// quotes with `char::escape_debug` applied, whose printable-character
/// tables are Unicode's.
pub uninterp spec fn str_debug(s: Seq<char>) -> Seq<char>;

/// No line break.
pub open spec fn one_line(s: Seq<char>) -> bool {
    forall|i: int| 0 <= i < s.len() ==> s[i] != '\n'
}

pub proof fn lemma_one_line_concat(a: Seq<char>, b: Seq<char>)
    requires
        one_line(a),
        one_line(b),
    ensures
        one_line(a + b),
{
    assert forall|i: int| 0 <= i < (a + b).len() implies (a + b)[i] != '\n' by {
        if i < a.len() {
            assert((a + b)[i] == a[i]);
        } else {
            assert((a + b)[i] == b[i - a.len()]);
        }
    }
}

/// `format!("{:?}", t)`, the `Debug` text of a string.  Trusted: the result
/// is `str_debug` of the characters, a function of them alone, and holds no
/// raw line break (`char::escape_debug` writes one as `\\n`); the rest of
/// what that text is (quotes, the other escapes) is left unstated.
#[verifier::external_body]
pub(crate) fn debug_text(t: &str) -> (r: String)
    ensures
        r@ == str_debug(t@),
        one_line(r@),
{
    format!("{t:?}")
}

/// Words joined by single spaces, as `[&str]::join(" ")`.
pub open spec fn join_words(t: Seq<Seq<char>>) -> Seq<char>
    decreases t.len(),
{
    if t.len() == 0 {
        Seq::empty()
    } else if t.len() == 1 {
        t[0]
    } else {
        join_words(t.drop_last()) + seq![' '] + t.last()
    }
}

pub fn join_with_spaces(t: &[Vec<char>]) -> (r: Vec<char>)
    ensures
        r@ == join_words(views(t@)),
{
    let mut out: Vec<char> = Vec::new();
    let mut i: usize = 0;
    while i < t.len()
        invariant
            i <= t@.len(),
            out@ == join_words(views(t@.subrange(0, i as int))),
        decreases t@.len() - i,
    {
        let ghost before = views(t@.subrange(0, i as int));
        let ghost after = views(t@.subrange(0, i + 1));
        assert(after.drop_last() =~= before);
        assert(after.last() == t@[i as int]@);
        if i > 0 {
            out.push(' ');
        }
        let mut j: usize = 0;
        let ghost base = out@;
        while j < t[i].len()
            invariant
                i < t@.len(),
                j <= t@[i as int]@.len(),
                out@ == base + t@[i as int]@.subrange(0, j as int),
            decreases t@[i as int]@.len() - j,
        {
            out.push(t[i][j]);
            j = j + 1;
            assert(out@ =~= base + t@[i as int]@.subrange(0, j as int));
        }
        assert(t@[i as int]@.subrange(0, j as int) =~= t@[i as int]@);
        if i == 0 {
            assert(out@ =~= join_words(after));
        } else {
            assert(out@ =~= join_words(after));
        }
        i = i + 1;
    }
    assert(t@.subrange(0, t@.len() as int) =~= t@);
    out
}

/// `s.strip_prefix(p)`.
pub open spec fn strip_prefix(s: Seq<char>, p: Seq<char>) -> Option<Seq<char>> {
    if p.len() <= s.len() && s.subrange(0, p.len() as int) == p {
        Some(s.subrange(p.len() as int, s.len() as int))
    } else {
        None
    }
}

pub fn strip_prefix_chars(s: &[char], p: &str) -> (r: Option<Vec<char>>)
    ensures
        r matches Some(v) ==> strip_prefix(s@, p@) == Some(v@),
        r is None ==> strip_prefix(s@, p@) is None,
{
    let pc = chars_of(p);
    if pc.len() > s.len() {
        return None;
    }
    let mut i: usize = 0;
    while i < pc.len()
        invariant
            pc@ == p@,
            pc@.len() <= s@.len(),
            i <= pc@.len(),
            forall|j: int| 0 <= j < i ==> s@[j] == pc@[j],
        decreases pc@.len() - i,
    {
        if s[i] != pc[i] {
            assert(s@.subrange(0, p@.len() as int)[i as int] != p@[i as int]);
            return None;
        }
        i = i + 1;
    }
    assert(s@.subrange(0, p@.len() as int) =~= p@);
    let mut rest: Vec<char> = Vec::new();
    let mut k: usize = pc.len();
    while k < s.len()
        invariant
            pc@.len() <= k <= s@.len(),
            rest@ == s@.subrange(pc@.len() as int, k as int),
        decreases s@.len() - k,
    {
        rest.push(s[k]);
        k = k + 1;
        assert(rest@ =~= s@.subrange(pc@.len() as int, k as int));
    }
    Some(rest)
}

/// Whether `pat` occurs in `s` at position `i`.
pub open spec fn occurs_at(s: Seq<char>, pat: Seq<char>, i: int) -> bool {
    0 <= i && i + pat.len() <= s.len() && s.subrange(i, i + pat.len()) == pat
}

/// The first position at or after `i` where `pat` occurs.
pub open spec fn find_from(s: Seq<char>, pat: Seq<char>, i: int) -> Option<int>
    decreases s.len() + 1 - i,
{
    if i < 0 || i + pat.len() > s.len() {
        None
    } else if occurs_at(s, pat, i) {
        Some(i)
    } else {
        find_from(s, pat, i + 1)
    }
}

/// `s.split_once(pat)`: the text before and after the first occurrence.
pub open spec fn split_once(s: Seq<char>, pat: Seq<char>) -> Option<(Seq<char>, Seq<char>)> {
    match find_from(s, pat, 0) {
        Some(i) => Some((s.subrange(0, i), s.subrange(i + pat.len(), s.len() as int))),
        None => None,
    }
}

fn occurs_at_exec(s: &[char], pat: &[char], i: usize) -> (r: bool)
    requires
        i + pat@.len() <= s@.len(),
    ensures
        r == occurs_at(s@, pat@, i as int),
{
    let n: usize = s.len();
    let mut j: usize = 0;
    while j < pat.len()
        invariant
            n == s@.len(),
            i + pat@.len() <= s@.len(),
            j <= pat@.len(),
            forall|k: int| 0 <= k < j ==> s@[i + k] == pat@[k],
        decreases pat@.len() - j,
    {
        if s[i + j] != pat[j] {
            assert(s@.subrange(i as int, i + pat@.len())[j as int] != pat@[j as int]);
            return false;
        }
        j = j + 1;
    }
    assert(s@.subrange(i as int, i + pat@.len()) =~= pat@);
    true
}

fn sub_chars(s: &[char], lo: usize, hi: usize) -> (r: Vec<char>)
    requires
        lo <= hi <= s@.len(),
    ensures
        r@ == s@.subrange(lo as int, hi as int),
{
    let mut out: Vec<char> = Vec::new();
    let mut k: usize = lo;
    while k < hi
        invariant
            lo <= k <= hi <= s@.len(),
            out@ == s@.subrange(lo as int, k as int),
        decreases hi - k,
    {
        out.push(s[k]);
        k = k + 1;
        assert(out@ =~= s@.subrange(lo as int, k as int));
    }
    out
}

pub fn split_once_chars(s: &[char], pat: &str) -> (r: Option<(Vec<char>, Vec<char>)>)
    ensures
        r matches Some((a, b)) ==> split_once(s@, pat@) == Some((a@, b@)),
        r is None ==> split_once(s@, pat@) is None,
{
    let pc = chars_of(pat);
    if pc.len() > s.len() {
        assert(find_from(s@, pat@, 0) is None);
        return None;
    }
    if pc.len() == 0 {
        assert(s@.subrange(0, 0) =~= pat@);
        assert(occurs_at(s@, pat@, 0));
        let a: Vec<char> = Vec::new();
        let b = sub_chars(s, 0, s.len());
        assert(a@ =~= s@.subrange(0, 0));
        return Some((a, b));
    }
    let n: usize = s.len();
    let last: usize = n - pc.len();
    let mut i: usize = 0;
    while i <= last
        invariant
            n == s@.len(),
            pc@ == pat@,
            pc@.len() > 0,
            last + pc@.len() == s@.len(),
            i <= last + 1,
            find_from(s@, pat@, 0) == find_from(s@, pat@, i as int),
        decreases last + 1 - i,
    {
        if occurs_at_exec(s, pc.as_slice(), i) {
            let a = sub_chars(s, 0, i);
            let b = sub_chars(s, i + pc.len(), s.len());
            return Some((a, b));
        }
        i = i + 1;
    }
    assert(find_from(s@, pat@, i as int) is None);
    None
}


// ----------------------------------------------------------------------
// Facts about the renderers.
// ----------------------------------------------------------------------

/// Printable ASCII other than space: no whitespace and no line breaks.
pub open spec fn visible(s: Seq<char>) -> bool {
    forall|i: int| 0 <= i < s.len() ==> 0x21 <= (#[trigger] s[i]) as u32 <= 0x7e
}

pub proof fn lemma_visible_concat(a: Seq<char>, b: Seq<char>)
    requires
        visible(a),
        visible(b),
    ensures
        visible(a + b),
{
    assert forall|i: int| 0 <= i < (a + b).len() implies 0x21 <= (#[trigger] (a + b)[i]) as u32
        <= 0x7e by {
        if i < a.len() {
            assert((a + b)[i] == a[i]);
        } else {
            assert((a + b)[i] == b[i - a.len()]);
        }
    }
}


/// `dec(n)` is a non-empty run of digits denoting `n`.
pub proof fn lemma_dec_digits(n: nat)
    ensures
        dec(n).len() > 0,
        all_digits(dec(n)),
        visible(dec(n)),
        digits_value(dec(n)) == n,
    decreases n,
{
    let c = digit_char(n % 10);
    assert(((n % 10) + 0x30) as char as u32 == (n % 10) + 0x30);
    if n >= 10 {
        lemma_dec_digits(n / 10);
        let d = dec(n / 10);
        assert(dec(n) == d.push(c));
        assert(dec(n).drop_last() =~= d);
        assert(digit_value(c) == n % 10);
        assert(digits_value(dec(n)) == digits_value(d) * 10 + digit_value(c));
        assert((n / 10) * 10 + n % 10 == n);
        assert forall|i: int| 0 <= i < dec(n).len() implies is_digit(#[trigger] dec(n)[i]) && 0x21
            <= dec(n)[i] as u32 <= 0x7e by {
            if i < d.len() {
                assert(dec(n)[i] == d[i]);
            }
        }
    } else {
        assert(dec(n) == seq![c]);
        assert(dec(n).drop_last() =~= Seq::<char>::empty());
        assert(digit_value(c) == n % 10);
        assert(digits_value(dec(n)) == digits_value(dec(n).drop_last()) * 10 + digit_value(c));
    }
}

/// Decimal rendering parses back: `n.to_string().parse()` is `n`.
pub proof fn lemma_parse_dec(n: nat, max: nat)
    requires
        n <= max,
    ensures
        parse_unsigned(dec(n), max) == Some(n),
{
    lemma_dec_digits(n);
    assert(is_digit(dec(n)[0]));
    assert(unsigned_body(dec(n)) == dec(n));
}


pub proof fn lemma_hex_char(d: nat)
    requires
        d < 16,
    ensures
        hex_digit(hex_char(d)) == Some(d),
        hex_char(d) != '+',
        0x21 <= hex_char(d) as u32 <= 0x7e,
{
    if d < 10 {
        assert((d + 0x30) as char as u32 == d + 0x30);
    } else {
        assert((d - 10 + 0x61) as char as u32 == d - 10 + 0x61);
    }
}

/// Two lowercase hex digits parse back to the byte they render.
pub proof fn lemma_hex_pair_round_trip(n: nat)
    requires
        n < 256,
    ensures
        hex_fixed(n, 2).len() == 2,
        visible(hex_fixed(n, 2)),
        hex_pair(hex_fixed(n, 2)[0], hex_fixed(n, 2)[1]) == Some(n),
{
    let hi = (n / 16) % 16;
    let lo = n % 16;
    assert(hex_fixed(n / 16 / 16, 0) == Seq::<char>::empty());
    assert(hex_fixed(n / 16, 1) == Seq::<char>::empty().push(hex_char(hi)));
    assert(hex_fixed(n, 2) =~= seq![hex_char(hi), hex_char(lo)]);
    lemma_hex_char(hi);
    lemma_hex_char(lo);
    assert(hi * 16 + lo == n);
}


/// `find_from` returns the first occurrence: none before `m`, one at `m`.
pub proof fn lemma_find_from_first(s: Seq<char>, pat: Seq<char>, i: int, m: int)
    requires
        0 <= i <= m,
        forall|k: int| i <= k < m ==> !occurs_at(s, pat, k),
        occurs_at(s, pat, m),
    ensures
        find_from(s, pat, i) == Some(m),
    decreases m - i,
{
    if i < m {
        assert(!occurs_at(s, pat, i));
        lemma_find_from_first(s, pat, i + 1, m);
    }
}

} // verus!
