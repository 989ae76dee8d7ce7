use vstd::prelude::*;

verus! {

/// The value of an ASCII hexadecimal digit, or -1 for any other character.
pub open spec fn hex_digit_value(c: char) -> int {
    if '0' <= c && c <= '9' {
        c as int - '0' as int
    } else if 'a' <= c && c <= 'f' {
        c as int - 'a' as int + 10
    } else if 'A' <= c && c <= 'F' {
        c as int - 'A' as int + 10
    } else {
        -1
    }
}

/// How many hexadecimal digits follow from `start` on, at most `limit`.
pub open spec fn hex_run(s: Seq<char>, start: int, limit: nat) -> nat
    decreases limit,
{
    if limit == 0 || start < 0 || start >= s.len() || hex_digit_value(s[start]) < 0 {
        0
    } else {
        1 + hex_run(s, start + 1, (limit - 1) as nat)
    }
}

/// The number written by the `n` hexadecimal digits from `start` on.
pub open spec fn hex_value(s: Seq<char>, start: int, n: nat) -> int
    decreases n,
{
    if n == 0 {
        0
    } else {
        hex_value(s, start, (n - 1) as nat) * 16 + hex_digit_value(s[start + n - 1])
    }
}

pub open spec fn pow16(n: nat) -> int
    decreases n,
{
    if n == 0 {
        1
    } else {
        16 * pow16((n - 1) as nat)
    }
}

/// A character that opens or closes a string of the script language.
pub open spec fn is_quote(c: char) -> bool {
    c == '"' || c == '\'' || c == '`'
}

/// At `i` stands a `\u` escape whose up to four hexadecimal digits name a
/// value of 0x80 or more, which does not fit in a single UTF-8 byte, with a
/// string quote somewhere before it and somewhere after it (the parser only
/// decodes escapes inside strings).
pub open spec fn wide_escape_at(s: Seq<char>, i: int) -> bool {
    &&& 0 <= i && i + 1 < s.len()
    &&& s[i] == '\\'
    &&& s[i + 1] == 'u'
    &&& hex_value(s, i + 2, hex_run(s, i + 2, 4)) >= 128
    &&& exists|a: int| 0 <= a < i && #[trigger] is_quote(s[a])
    &&& exists|b: int| i + 1 < b < s.len() && #[trigger] is_quote(s[b])
}

/// The text holds a `\u` escape with a value of 0x80 or more.
pub open spec fn has_wide_escape(s: Seq<char>) -> bool {
    exists|i: int| #[trigger] wide_escape_at(s, i)
}

/// The word `fadeout` starts at `i`.
pub open spec fn fadeout_at(s: Seq<char>, i: int) -> bool {
    &&& 0 <= i && i + 7 <= s.len()
    &&& s[i] == 'f' && s[i + 1] == 'a' && s[i + 2] == 'd' && s[i + 3] == 'e'
    &&& s[i + 4] == 'o' && s[i + 5] == 'u' && s[i + 6] == 't'
}

/// A character that can stand in a fade-out length as the parser's
/// pattern reads it: a dot, an ASCII digit, or anything outside ASCII (where
/// the digits of other scripts lie).
pub open spec fn is_length_char(c: char) -> bool {
    c == '.' || ('0' <= c && c <= '9') || c as u32 >= 128
}

/// A line of the text ends at `j`: a line feed, a carriage return before a
/// line feed, or the end of the text.
pub open spec fn line_end_at(s: Seq<char>, j: int) -> bool {
    j == s.len() || (0 <= j < s.len() && (s[j] == '\n' || (s[j] == '\r' && j + 1 < s.len() && s[j + 1] == '\n')))
}

/// From `i` on stands `fadeout`, one space, and then, up to a line end at
/// `j`, a run of length characters that holds a dot and a character outside
/// ASCII.
pub open spec fn wide_fade_at(s: Seq<char>, i: int, j: int) -> bool {
    &&& fadeout_at(s, i)
    &&& i + 8 <= j <= s.len()
    &&& s[i + 7] == ' '
    &&& line_end_at(s, j)
    &&& forall|k: int| i + 8 <= k < j ==> #[trigger] is_length_char(s[k])
    &&& exists|k: int| i + 8 <= k < j && #[trigger] s[k] == '.'
    &&& exists|k: int| i + 8 <= k < j && #[trigger] s[k] as u32 >= 128
}

/// A fade-out length from `i` on that the parser would read with digits
/// outside ASCII.
pub open spec fn wide_fade_from(s: Seq<char>, i: int) -> bool {
    exists|j: int| #[trigger] wide_fade_at(s, i, j)
}

/// Somewhere a line ends in `fadeout` and a length with a character outside
/// ASCII.
pub open spec fn has_wide_fade_length(s: Seq<char>) -> bool {
    exists|i: int| #[trigger] wide_fade_from(s, i)
}

/// The characters of `content`, one by one.
pub fn chars_of(content: &str) -> (r: Vec<char>)
    ensures
        r@ == content@,
{
    let n = content.unicode_len();
    let mut out: Vec<char> = Vec::new();
    let mut i: usize = 0;
    while i < n
        invariant
            i <= n,
            n == content@.len(),
            out@ == content@.subrange(0, i as int),
        decreases n - i,
    {
        out.push(content.get_char(i));
        i = i + 1;
        assert(out@ =~= content@.subrange(0, i as int));
    }
    assert(content@.subrange(0, n as int) =~= content@);
    out
}

fn hex_digit(c: char) -> (r: Option<u32>)
    ensures
        match r {
            Some(d) => d as int == hex_digit_value(c) && d < 16,
            None => hex_digit_value(c) < 0,
        },
{
    if '0' <= c && c <= '9' {
        Some(c as u32 - '0' as u32)
    } else if 'a' <= c && c <= 'f' {
        Some(c as u32 - 'a' as u32 + 10)
    } else if 'A' <= c && c <= 'F' {
        Some(c as u32 - 'A' as u32 + 10)
    } else {
        None
    }
}

/// The value of the up to four hexadecimal digits from `start` on.
fn escape_value(s: &Vec<char>, start: usize) -> (r: u32)
    requires
        start <= s.len(),
    ensures
        r as int == hex_value(s@, start as int, hex_run(s@, start as int, 4)),
{
    assert(pow16(1) == 16 && pow16(2) == 256 && pow16(3) == 4096 && pow16(4) == 65536) by {
        reveal_with_fuel(pow16, 5);
    }
    let mut value: u32 = 0;
    let mut j: usize = 0;
    while j < 4 && j < s.len() - start
        invariant_except_break
            hex_run(s@, start as int, 4) == j + hex_run(s@, start + j, (4 - j) as nat),
        invariant
            j <= 4,
            start <= s.len(),
            value as int == hex_value(s@, start as int, j as nat),
            0 <= value < pow16(j as nat),
            pow16(1) == 16 && pow16(2) == 256 && pow16(3) == 4096 && pow16(4) == 65536,
        ensures
            hex_run(s@, start as int, 4) == j,
            value as int == hex_value(s@, start as int, j as nat),
        decreases 4 - j,
    {
        match hex_digit(s[start + j]) {
            Some(d) => {
                proof {
                    let p = pow16(j as nat);
                    assert(p <= 4096) by {
                        if j == 0 {
                        } else if j == 1 {
                        } else if j == 2 {
                        } else {
                        }
                    }
                    assert(value * 16 + d < p * 16) by (nonlinear_arith)
                        requires
                            value < p,
                            d < 16,
                    ;
                }
                value = value * 16 + d;
                j = j + 1;
            },
            None => {
                assert(hex_run(s@, start + j, (4 - j) as nat) == 0);
                break;
            },
        }
    }
    value
}

fn quote(c: char) -> (r: bool)
    ensures
        r == is_quote(c),
{
    c == '"' || c == '\'' || c == '`'
}

/// Whether the text holds a `\u` escape with a value of 0x80 or more
/// between two string quotes.
pub fn find_wide_escape(s: &Vec<char>) -> (r: bool)
    ensures
        r == has_wide_escape(s@),
{
    // the first and the last quote of the text
    let mut first: usize = s.len();
    let mut a: usize = 0;
    while a < s.len()
        invariant
            a <= s.len(),
            first == s.len() ==> forall|m: int| 0 <= m < a ==> !#[trigger] is_quote(s@[m]),
            first <= s.len(),
            first < s.len() ==> is_quote(s@[first as int]) && forall|m: int| 0 <= m < first ==> !#[trigger] is_quote(s@[m]),
        decreases s.len() - a,
    {
        if first == s.len() && quote(s[a]) {
            first = a;
        }
        a = a + 1;
    }
    let mut last: usize = 0;
    let mut found_last = false;
    let mut b: usize = 0;
    while b < s.len()
        invariant
            b <= s.len(),
            found_last ==> last < b && is_quote(s@[last as int]) && forall|m: int| last < m < b ==> !#[trigger] is_quote(s@[m]),
            !found_last ==> forall|m: int| 0 <= m < b ==> !#[trigger] is_quote(s@[m]),
            first == s.len() ==> forall|m: int| 0 <= m < s.len() ==> !#[trigger] is_quote(s@[m]),
            first < s.len() ==> is_quote(s@[first as int]) && forall|m: int| 0 <= m < first ==> !#[trigger] is_quote(s@[m]),
            first <= s.len(),
        decreases s.len() - b,
    {
        if quote(s[b]) {
            last = b;
            found_last = true;
        }
        b = b + 1;
    }
    let mut i: usize = 0;
    while i < s.len() && i + 1 < s.len()
        invariant
            i <= s.len(),
            first == s.len() ==> forall|m: int| 0 <= m < s.len() ==> !#[trigger] is_quote(s@[m]),
            first < s.len() ==> is_quote(s@[first as int]) && forall|m: int| 0 <= m < first ==> !#[trigger] is_quote(s@[m]),
            first <= s.len(),
            found_last ==> last < s.len() && is_quote(s@[last as int]) && forall|m: int| last < m < s.len() ==> !#[trigger] is_quote(s@[m]),
            !found_last ==> forall|m: int| 0 <= m < s.len() ==> !#[trigger] is_quote(s@[m]),
            forall|k: int| 0 <= k < i ==> !#[trigger] wide_escape_at(s@, k),
        decreases s.len() - i,
    {
        let quoted = first < i && found_last && last > i + 1;
        if s[i] == '\\' && s[i + 1] == 'u' && quoted && escape_value(s, i + 2) >= 128 {
            assert(is_quote(s@[first as int]));
            assert(is_quote(s@[last as int]));
            assert(wide_escape_at(s@, i as int));
            return true;
        }
        proof {
            let ii = i as int;
            let sq = s@;
            if wide_escape_at(sq, ii) {
                assert(exists|a: int| 0 <= a < ii && #[trigger] is_quote(sq[a]));
                assert(exists|b: int| ii + 1 < b < sq.len() && #[trigger] is_quote(sq[b]));
                let x = choose|a: int| 0 <= a < ii && #[trigger] is_quote(sq[a]);
                let y = choose|b: int| ii + 1 < b < sq.len() && #[trigger] is_quote(sq[b]);
                assert(is_quote(s@[x]));
                assert(is_quote(s@[y]));
                if first == s.len() {
                    assert(!is_quote(s@[x]));
                } else if x < first {
                    assert(!is_quote(s@[x]));
                }
                assert(first <= x);
                assert(found_last);
                assert(y <= last);
                assert(quoted);
                assert(false);
            }
        }
        i = i + 1;
    }
    assert forall|k: int| !#[trigger] wide_escape_at(s@, k) by {
        if 0 <= k < i {
        }
    }
    false
}

fn length_char(c: char) -> (r: bool)
    ensures
        r == is_length_char(c),
{
    c == '.' || ('0' <= c && c <= '9') || c as u32 >= 128
}

/// Whether a fade-out length read with digits outside ASCII starts at `i`.
fn wide_fade_starts(s: &Vec<char>, i: usize) -> (r: bool)
    ensures
        r == wide_fade_from(s@, i as int),
{
    if !(i < s.len() && s.len() - i >= 8 && s[i] == 'f' && s[i + 1] == 'a' && s[i + 2] == 'd'
        && s[i + 3] == 'e' && s[i + 4] == 'o' && s[i + 5] == 'u' && s[i + 6] == 't' && s[i + 7] == ' ') {
        assert forall|j: int| !#[trigger] wide_fade_at(s@, i as int, j) by {}
        return false;
    }
    let mut k: usize = i + 8;
    let mut dot = false;
    let mut wide = false;
    let ghost mut dot_at: int = 0;
    let ghost mut wide_at: int = 0;
    while k < s.len() && length_char(s[k])
        invariant
            i + 8 <= k <= s.len(),
            forall|m: int| i + 8 <= m < k ==> #[trigger] is_length_char(s@[m]),
            dot ==> i + 8 <= dot_at < k && s@[dot_at] == '.',
            !dot ==> forall|m: int| i + 8 <= m < k ==> s@[m] != '.',
            wide ==> i + 8 <= wide_at < k && s@[wide_at] as u32 >= 128,
            !wide ==> forall|m: int| i + 8 <= m < k ==> (s@[m] as u32) < 128,
        decreases s.len() - k,
    {
        if s[k] == '.' {
            dot = true;
            proof {
                dot_at = k as int;
            }
        }
        if s[k] as u32 >= 128 {
            wide = true;
            proof {
                wide_at = k as int;
            }
        }
        k = k + 1;
    }
    let ends = k == s.len() || s[k] == '\n' || (s[k] == '\r' && k + 1 < s.len() && s[k + 1] == '\n');
    let r = ends && dot && wide;
    proof {
        let ii = i as int;
        let kk = k as int;
        if r {
            assert(s@[dot_at] == '.');
            assert(s@[wide_at] as u32 >= 128);
            assert(wide_fade_at(s@, ii, kk));
        } else {
            assert forall|j: int| !#[trigger] wide_fade_at(s@, ii, j) by {
                if wide_fade_at(s@, ii, j) {
                    if j < kk {
                        assert(is_length_char(s@[j]));
                    } else if j > kk {
                        assert(is_length_char(s@[kk]));
                    } else {
                        let d = choose|m: int| ii + 8 <= m < j && #[trigger] s@[m] == '.';
                        let w = choose|m: int| ii + 8 <= m < j && #[trigger] s@[m] as u32 >= 128;
                        assert(s@[d] == '.');
                        assert(s@[w] as u32 >= 128);
                    }
                }
            }
        }
    }
    r
}

/// Whether somewhere a line ends in `fadeout` and a length with a character
/// outside ASCII, which the parser would fail to read as a number.
pub fn find_wide_fade_length(s: &Vec<char>) -> (r: bool)
    ensures
        r == has_wide_fade_length(s@),
{
    let mut i: usize = 0;
    while i < s.len()
        invariant
            i <= s.len(),
            forall|m: int| 0 <= m < i ==> !#[trigger] wide_fade_from(s@, m),
        decreases s.len() - i,
    {
        if wide_fade_starts(s, i) {
            return true;
        }
        i = i + 1;
    }
    assert forall|m: int| !#[trigger] wide_fade_from(s@, m) by {
        if 0 <= m < i {
        } else if wide_fade_from(s@, m) {
            let j = choose|j: int| #[trigger] wide_fade_at(s@, m, j);
            assert(fadeout_at(s@, m));
        }
    }
    false
}

} // verus!
