use vstd::prelude::*;

verus! {

/// Length of the whitespace character (ASCII or a Unicode `White_Space`
/// character in UTF-8) that starts at `i` and ends by `end`; 0 if none does.
pub open spec fn ws_len(s: Seq<u8>, i: int, end: int) -> int {
    let b0 = s[i];
    if i >= end {
        0
    } else if b0 == 9 || b0 == 10 || b0 == 11 || b0 == 12 || b0 == 13 || b0 == 32 {
        1
    } else if i + 1 < end && b0 == 0xc2 && (s[i + 1] == 0x85 || s[i + 1] == 0xa0) {
        2
    } else if i + 2 < end && ((b0 == 0xe1 && s[i + 1] == 0x9a && s[i + 2] == 0x80) || (b0 == 0xe2
        && s[i + 1] == 0x80 && ((0x80 <= s[i + 2] <= 0x8a) || s[i + 2] == 0xa8 || s[i + 2] == 0xa9
        || s[i + 2] == 0xaf)) || (b0 == 0xe2 && s[i + 1] == 0x81 && s[i + 2] == 0x9f) || (b0 == 0xe3
        && s[i + 1] == 0x80 && s[i + 2] == 0x80)) {
        3
    } else {
        0
    }
}

/// First position at or after `p` (before `end`) that does not start a
/// whitespace character.
pub open spec fn skip_ws(s: Seq<u8>, p: int, end: int) -> int
    decreases end - p,
{
    if p < end && ws_len(s, p, end) > 0 {
        skip_ws(s, p + ws_len(s, p, end), end)
    } else {
        p
    }
}

/// End of the token that starts at `p`: the first whitespace character or
/// `end`.
pub open spec fn token_end(s: Seq<u8>, p: int, end: int) -> int
    decreases end - p,
{
    if p < end && ws_len(s, p, end) == 0 {
        token_end(s, p + 1, end)
    } else {
        p
    }
}

/// Position of the first line feed at or after `p`, or the length.
pub open spec fn line_end(s: Seq<u8>, p: int) -> int
    decreases s.len() - p,
{
    if p >= s.len() || s[p] == 10 {
        p
    } else {
        line_end(s, p + 1)
    }
}

/// The line prefix that announces the peak.
pub open spec fn key() -> Seq<u8> {
    seq![72u8, 69, 65, 80, 95, 80, 69, 65, 75, 58, 32]
}

/// The line `[start, end)` begins with the key.
pub open spec fn has_key(s: Seq<u8>, start: int, end: int) -> bool {
    end - start >= 11 && s.subrange(start, start + 11) == key()
}

/// Bounds of the first token that follows the key on a line starting at
/// `start` or later; `None` when no line has one.
pub open spec fn find_token(s: Seq<u8>, start: int) -> Option<(int, int)>
    decreases s.len() - start,
{
    if start >= s.len() {
        None
    } else {
        let end = line_end(s, start);
        let t = skip_ws(s, start + 11, end);
        if has_key(s, start, end) && t < end {
            Some((t, token_end(s, t, end)))
        } else if end < s.len() {
            proof {
                lemma_line_end_ge(s, start);
            }
            find_token(s, end + 1)
        } else {
            None
        }
    }
}

/// A line ends at or after its start.
pub proof fn lemma_line_end_ge(s: Seq<u8>, p: int)
    ensures
        line_end(s, p) >= p,
    decreases s.len() - p,
{
    if !(p >= s.len() || s[p] == 10) {
        lemma_line_end_ge(s, p + 1);
    }
}

pub open spec fn is_digit(b: u8) -> bool {
    48 <= b <= 57
}

/// Decimal value of the digits `s[a..b)`.
pub open spec fn digits_value(s: Seq<u8>, a: int, b: int) -> int
    decreases b - a,
{
    if b <= a {
        0
    } else {
        digits_value(s, a, b - 1) * 10 + (s[b - 1] - 48)
    }
}

/// An unsigned 64-bit decimal `s[a..b)`, with an optional leading `+`.
pub open spec fn parse_u64(s: Seq<u8>, a: int, b: int) -> Option<u64> {
    let d = if a < b && s[a] == 43 {
        a + 1
    } else {
        a
    };
    if d < b && (forall|i: int| d <= i < b ==> #[trigger] is_digit(s[i])) && digits_value(s, d, b)
        <= u64::MAX {
        Some(digits_value(s, d, b) as u64)
    } else {
        None
    }
}

/// The peak the heap meter reports in its output `s`: the first token after
/// `HEAP_PEAK: ` on the first line that has one, read as a number.
pub open spec fn spec_heap_peak(s: Seq<u8>) -> Option<u64> {
    match find_token(s, 0) {
        Some((a, b)) => parse_u64(s, a, b),
        None => None,
    }
}

fn ws_len_exec(s: &Vec<u8>, i: usize, end: usize) -> (r: usize)
    requires
        end <= s@.len(),
    ensures
        r as int == ws_len(s@, i as int, end as int),
        r <= 3,
{
    if i >= end {
        return 0;
    }
    let b0 = s[i];
    if b0 == 9 || b0 == 10 || b0 == 11 || b0 == 12 || b0 == 13 || b0 == 32 {
        1
    } else if end - i > 1 && b0 == 0xc2 && (s[i + 1] == 0x85 || s[i + 1] == 0xa0) {
        2
    } else if end - i > 2 && ((b0 == 0xe1 && s[i + 1] == 0x9a && s[i + 2] == 0x80) || (b0 == 0xe2
        && s[i + 1] == 0x80 && ((0x80 <= s[i + 2] && s[i + 2] <= 0x8a) || s[i + 2] == 0xa8 || s[i
        + 2] == 0xa9 || s[i + 2] == 0xaf)) || (b0 == 0xe2 && s[i + 1] == 0x81 && s[i + 2] == 0x9f)
        || (b0 == 0xe3 && s[i + 1] == 0x80 && s[i + 2] == 0x80)) {
        3
    } else {
        0
    }
}

fn has_key_exec(s: &Vec<u8>, start: usize, end: usize) -> (r: bool)
    requires
        start <= end <= s@.len(),
    ensures
        r == has_key(s@, start as int, end as int),
{
    if end - start < 11 {
        return false;
    }
    let k: [u8; 11] = [72, 69, 65, 80, 95, 80, 69, 65, 75, 58, 32];
    let mut i: usize = 0;
    while i < 11
        invariant
            i <= 11,
            start + 11 <= end <= s@.len(),
            k@ == key(),
            forall|j: int| 0 <= j < i ==> s@[start + j] == key()[j],
        decreases 11 - i,
    {
        if s[start + i] != k[i] {
            assert(s@.subrange(start as int, start + 11)[i as int] != key()[i as int]);
            return false;
        }
        i += 1;
    }
    assert(s@.subrange(start as int, start + 11) =~= key());
    true
}

proof fn lemma_digits_grow(s: Seq<u8>, a: int, b: int, c: int)
    requires
        a <= b <= c,
        forall|i: int| a <= i < c ==> #[trigger] is_digit(s[i]),
    ensures
        0 <= digits_value(s, a, b) <= digits_value(s, a, c),
    decreases c - b,
{
    if b < c {
        lemma_digits_grow(s, a, b, c - 1);
        lemma_digits_nonneg(s, a, c - 1);
        assert(is_digit(s[c - 1]));
    } else {
        lemma_digits_nonneg(s, a, b);
    }
}

proof fn lemma_digits_nonneg(s: Seq<u8>, a: int, b: int)
    requires
        forall|i: int| a <= i < b ==> #[trigger] is_digit(s[i]),
    ensures
        0 <= digits_value(s, a, b),
    decreases b - a,
{
    if a < b {
        lemma_digits_nonneg(s, a, b - 1);
        assert(is_digit(s[b - 1]));
    }
}

fn parse_u64_exec(s: &Vec<u8>, a: usize, b: usize) -> (r: Option<u64>)
    requires
        a <= b <= s@.len(),
    ensures
        r == parse_u64(s@, a as int, b as int),
{
    let d = if a < b && s[a] == 43 {
        a + 1
    } else {
        a
    };
    if d >= b {
        return None;
    }
    let mut v: u64 = 0;
    let mut i: usize = d;
    while i < b
        invariant
            d <= i <= b <= s@.len(),
            d < b,
            d == (if a < b && s@[a as int] == 43 {
                a + 1
            } else {
                a as int
            }),
            forall|j: int| d <= j < i ==> #[trigger] is_digit(s@[j]),
            v as int == digits_value(s@, d as int, i as int),
        decreases b - i,
    {
        let c = s[i];
        if c < 48 || c > 57 {
            assert(!is_digit(s@[i as int]));
            return None;
        }
        let dv = (c - 48) as u64;
        if v > (u64::MAX - dv) / 10 {
            proof {
                assert(v * 10 + dv > u64::MAX) by (nonlinear_arith)
                    requires
                        v > (u64::MAX - dv) / 10,
                        dv <= 9,
                ;
                assert(digits_value(s@, d as int, i + 1) == v * 10 + dv);
                if forall|j: int| d <= j < b ==> #[trigger] is_digit(s@[j]) {
                    lemma_digits_grow(s@, d as int, i + 1, b as int);
                }
            }
            return None;
        }
        assert(v * 10 + dv <= u64::MAX) by (nonlinear_arith)
            requires
                v <= (u64::MAX - dv) / 10,
                dv <= 9,
        ;
        v = v * 10 + dv;
        i += 1;
    }
    Some(v)
}

/// Reads the peak from the heap meter's output.
pub fn parse_heap_peak(s: &Vec<u8>) -> (r: Option<u64>)
    ensures
        r == spec_heap_peak(s@),
{
    let n = s.len();
    let mut start: usize = 0;
    while start < n
        invariant
            start <= n,
            n == s@.len(),
            find_token(s@, 0) == find_token(s@, start as int),
        decreases n - start,
    {
        let mut end = start;
        while end < n && s[end] != 10
            invariant
                start <= end <= n,
                n == s@.len(),
                line_end(s@, start as int) == line_end(s@, end as int),
            decreases n - end,
        {
            end += 1;
        }
        if has_key_exec(s, start, end) {
            let mut t = start + 11;
            while t < end && ws_len_exec(s, t, end) > 0
                invariant
                    start + 11 <= t <= end <= n,
                    n == s@.len(),
                    skip_ws(s@, start + 11, end as int) == skip_ws(s@, t as int, end as int),
                decreases end - t,
            {
                t = t + ws_len_exec(s, t, end);
            }
            if t < end {
                let mut e = t;
                while e < end && ws_len_exec(s, e, end) == 0
                    invariant
                        t <= e <= end <= n,
                        n == s@.len(),
                        token_end(s@, t as int, end as int) == token_end(s@, e as int, end as int),
                    decreases end - e,
                {
                    e += 1;
                }
                return parse_u64_exec(s, t, e);
            }
        }
        if end >= n {
            return None;
        }
        start = end + 1;
    }
    None
}

} // verus!
