//! Byte-level text handling for the test-data formats: lines, whitespace
//! tokens, trimming, and hexadecimal and decimal numbers.

use vstd::prelude::*;

verus! {

/// ASCII whitespace: space, tab, line feed, vertical tab, form feed, carriage return.
pub open spec fn is_space(b: u8) -> bool {
    b == 0x20 || (0x09 <= b && b <= 0x0D)
}

pub fn space(b: u8) -> (r: bool)
    ensures
        r == is_space(b),
{
    b == 0x20 || (0x09 <= b && b <= 0x0D)
}

/// The lines of `text` and the unterminated tail after scanning its first
/// `n` bytes: a line ends at `\n`, and one `\r` before it is dropped.
pub open spec fn scan_lines(text: Seq<u8>, n: nat) -> (Seq<Seq<u8>>, Seq<u8>)
    decreases n,
{
    if n == 0 {
        (seq![], seq![])
    } else {
        let (done, cur) = scan_lines(text, (n - 1) as nat);
        if text[n - 1] == 0x0A {
            (done.push(strip_cr(cur)), seq![])
        } else {
            (done, cur.push(text[n - 1]))
        }
    }
}

/// `line` without one trailing carriage return.
pub open spec fn strip_cr(line: Seq<u8>) -> Seq<u8> {
    if line.len() > 0 && line.last() == 0x0D {
        line.drop_last()
    } else {
        line
    }
}

/// The lines of `text`: split at `\n`, a `\r` before the `\n` dropped, and
/// a last line without a terminator kept when it is not empty.
pub open spec fn lines(text: Seq<u8>) -> Seq<Seq<u8>> {
    let (done, cur) = scan_lines(text, text.len());
    if cur.len() > 0 {
        done.push(cur)
    } else {
        done
    }
}

pub fn split_lines(text: &[u8]) -> (out: Vec<Vec<u8>>)
    ensures
        out.deep_view() == lines(text@),
{
    let mut done: Vec<Vec<u8>> = Vec::new();
    let mut cur: Vec<u8> = Vec::new();
    let mut i: usize = 0;
    while i < text.len()
        invariant
            i <= text.len(),
            (done.deep_view(), cur@) == scan_lines(text@, i as nat),
        decreases text.len() - i,
    {
        let b = text[i];
        if b == 0x0A {
            let ghost c0 = cur@;
            if cur.len() > 0 && cur[cur.len() - 1] == 0x0D {
                cur.pop();
            }
            assert(cur@ =~= strip_cr(c0));
            assert(cur.deep_view() =~= cur@);
            let ghost before = done.deep_view();
            done.push(cur);
            assert(done.deep_view() =~= before.push(strip_cr(c0)));
            cur = Vec::new();
        } else {
            cur.push(b);
        }
        i = i + 1;
    }
    if cur.len() > 0 {
        assert(cur.deep_view() =~= cur@);
        let ghost before = done.deep_view();
        let ghost c0 = cur@;
        done.push(cur);
        assert(done.deep_view() =~= before.push(c0));
    }
    done
}

/// The words of `line` after scanning its first `n` bytes, and the word in
/// progress.
pub open spec fn scan_words(line: Seq<u8>, n: nat) -> (Seq<Seq<u8>>, Seq<u8>)
    decreases n,
{
    if n == 0 {
        (seq![], seq![])
    } else {
        let (done, cur) = scan_words(line, (n - 1) as nat);
        if is_space(line[n - 1]) {
            if cur.len() > 0 {
                (done.push(cur), seq![])
            } else {
                (done, cur)
            }
        } else {
            (done, cur.push(line[n - 1]))
        }
    }
}

/// The maximal runs of non-whitespace bytes in `line`, in order.
pub open spec fn words(line: Seq<u8>) -> Seq<Seq<u8>> {
    let (done, cur) = scan_words(line, line.len());
    if cur.len() > 0 {
        done.push(cur)
    } else {
        done
    }
}

pub fn split_whitespace(line: &[u8]) -> (out: Vec<Vec<u8>>)
    ensures
        out.deep_view() == words(line@),
{
    let mut done: Vec<Vec<u8>> = Vec::new();
    let mut cur: Vec<u8> = Vec::new();
    let mut i: usize = 0;
    while i < line.len()
        invariant
            i <= line.len(),
            (done.deep_view(), cur@) == scan_words(line@, i as nat),
        decreases line.len() - i,
    {
        let b = line[i];
        if space(b) {
            if cur.len() > 0 {
                assert(cur.deep_view() =~= cur@);
                let ghost before = done.deep_view();
                let ghost c0 = cur@;
                done.push(cur);
                assert(done.deep_view() =~= before.push(c0));
                cur = Vec::new();
            }
        } else {
            cur.push(b);
        }
        i = i + 1;
    }
    if cur.len() > 0 {
        assert(cur.deep_view() =~= cur@);
        let ghost before = done.deep_view();
        let ghost c0 = cur@;
        done.push(cur);
        assert(done.deep_view() =~= before.push(c0));
    }
    done
}

proof fn lemma_scan_words_nonempty(line: Seq<u8>, n: nat, j: int)
    requires
        n <= line.len(),
        0 <= j < n,
        !is_space(line[j]),
    ensures
        scan_words(line, n).0.len() > 0 || scan_words(line, n).1.len() > 0,
    decreases n,
{
    if j < n - 1 {
        lemma_scan_words_nonempty(line, (n - 1) as nat, j);
    }
}

/// A line with no words is blank.
pub proof fn lemma_no_words_blank(line: Seq<u8>)
    requires
        words(line).len() == 0,
    ensures
        blank(line),
{
    assert forall|j: int| 0 <= j < line.len() implies is_space(#[trigger] line[j]) by {
        if !is_space(line[j]) {
            lemma_scan_words_nonempty(line, line.len(), j);
        }
    }
}

/// Whether `line` holds nothing but whitespace.
pub open spec fn blank(line: Seq<u8>) -> bool {
    forall|i: int| 0 <= i < line.len() ==> is_space(#[trigger] line[i])
}

pub fn is_blank(line: &[u8]) -> (r: bool)
    ensures
        r == blank(line@),
{
    let mut i: usize = 0;
    while i < line.len()
        invariant
            i <= line.len(),
            forall|j: int| 0 <= j < i ==> is_space(#[trigger] line@[j]),
        decreases line.len() - i,
    {
        if !space(line[i]) {
            return false;
        }
        i = i + 1;
    }
    true
}

/// `s` without leading whitespace.
pub open spec fn trim_start(s: Seq<u8>) -> Seq<u8>
    decreases s.len(),
{
    if s.len() > 0 && is_space(s[0]) {
        trim_start(s.drop_first())
    } else {
        s
    }
}

/// `s` without trailing whitespace.
pub open spec fn trim_end(s: Seq<u8>) -> Seq<u8>
    decreases s.len(),
{
    if s.len() > 0 && is_space(s.last()) {
        trim_end(s.drop_last())
    } else {
        s
    }
}

/// `s` without leading or trailing whitespace.
pub open spec fn trim(s: Seq<u8>) -> Seq<u8> {
    trim_end(trim_start(s))
}

/// Copy of `s` without leading or trailing whitespace.
pub fn trimmed(s: &[u8]) -> (r: Vec<u8>)
    ensures
        r@ == trim(s@),
{
    let mut i: usize = 0;
    assert(s@.skip(0) =~= s@);
    while i < s.len() && space(s[i])
        invariant
            i <= s.len(),
            trim_start(s@) == trim_start(s@.skip(i as int)),
        decreases s.len() - i,
    {
        assert(s@.skip(i as int).drop_first() =~= s@.skip(i as int + 1));
        i = i + 1;
    }
    assert(trim_start(s@.skip(i as int)) == s@.skip(i as int));
    let mut j: usize = s.len();
    assert(s@.skip(i as int) =~= s@.subrange(i as int, j as int));
    while j > i && space(s[j - 1])
        invariant
            i <= j <= s.len(),
            trim_start(s@) == s@.skip(i as int),
            trim_end(s@.skip(i as int)) == trim_end(s@.subrange(i as int, j as int)),
        decreases j,
    {
        assert(s@.subrange(i as int, j as int).drop_last() =~= s@.subrange(i as int, j as int - 1));
        j = j - 1;
    }
    let mut out: Vec<u8> = Vec::new();
    let mut k: usize = i;
    while k < j
        invariant
            i <= k <= j,
            j <= s.len(),
            out@ =~= s@.subrange(i as int, k as int),
        decreases j - k,
    {
        out.push(s[k]);
        k = k + 1;
    }
    assert(trim_end(s@.subrange(i as int, j as int)) == s@.subrange(i as int, j as int));
    out
}

/// The value of hexadecimal digit `b`, or 16 when it is none.
pub open spec fn hex_digit_value(b: u8) -> nat {
    if 0x30 <= b && b <= 0x39 {
        (b - 0x30) as nat
    } else if 0x61 <= b && b <= 0x66 {
        (b - 0x61 + 10) as nat
    } else if 0x41 <= b && b <= 0x46 {
        (b - 0x41 + 10) as nat
    } else {
        16
    }
}

/// The value of decimal digit `b`, or 10 when it is none.
pub open spec fn dec_digit_value(b: u8) -> nat {
    if 0x30 <= b && b <= 0x39 {
        (b - 0x30) as nat
    } else {
        10
    }
}

/// The digit value of `b` in `base` (16 or 10); `base` itself when none.
pub open spec fn digit_value(b: u8, base: nat) -> nat {
    if base == 16 {
        hex_digit_value(b)
    } else {
        dec_digit_value(b)
    }
}

/// The value of the digit string `d` in `base`.
pub open spec fn digits_value(d: Seq<u8>, base: nat) -> nat
    decreases d.len(),
{
    if d.len() == 0 {
        0
    } else {
        digits_value(d.drop_last(), base) * base + digit_value(d.last(), base)
    }
}

/// The digits of a number token: one leading `+` is allowed.
pub open spec fn unsigned_digits(token: Seq<u8>) -> Seq<u8> {
    if token.len() > 0 && token[0] == 0x2B {
        token.drop_first()
    } else {
        token
    }
}

/// Whether `token` is an unsigned number in `base`: an optional `+` and at
/// least one digit.
pub open spec fn well_formed_number(token: Seq<u8>, base: nat) -> bool {
    let d = unsigned_digits(token);
    d.len() > 0 && forall|i: int| 0 <= i < d.len() ==> digit_value(#[trigger] d[i], base) < base
}

/// The value of a number token in `base`.
pub open spec fn number_value(token: Seq<u8>, base: nat) -> nat {
    digits_value(unsigned_digits(token), base)
}

proof fn lemma_digits_grow(d: Seq<u8>, base: nat, i: int)
    requires
        0 <= i <= d.len(),
        base == 10 || base == 16,
    ensures
        digits_value(d.take(i), base) <= digits_value(d, base),
    decreases d.len() - i,
{
    if i < d.len() {
        lemma_digits_grow(d, base, i + 1);
        assert(d.take(i + 1).drop_last() =~= d.take(i));
        assert(digits_value(d.take(i), base) <= digits_value(d.take(i), base) * base) by (nonlinear_arith)
            requires
                base >= 1,
        ;
    } else {
        assert(d.take(i) =~= d);
    }
}

fn digit_of(b: u8, base: u8) -> (v: u8)
    requires
        base == 10 || base == 16,
    ensures
        v as nat == digit_value(b, base as nat),
{
    if 0x30 <= b && b <= 0x39 {
        b - 0x30
    } else if base == 16 && 0x61 <= b && b <= 0x66 {
        b - 0x61 + 10
    } else if base == 16 && 0x41 <= b && b <= 0x46 {
        b - 0x41 + 10
    } else {
        base
    }
}

/// Parse an unsigned number in `base` (16 or 10) no larger than `max`: an
/// optional `+` and one or more digits. `None` when the token is malformed
/// or its value exceeds `max`.
pub fn parse_unsigned(token: &[u8], base: u8, max: u64) -> (r: Option<u64>)
    requires
        base == 10 || base == 16,
    ensures
        r == (if well_formed_number(token@, base as nat) && number_value(token@, base as nat)
            <= max {
            Some(number_value(token@, base as nat) as u64)
        } else {
            None::<u64>
        }),
{
    let start: usize = if token.len() > 0 && token[0] == 0x2B {
        1
    } else {
        0
    };
    let ghost d = unsigned_digits(token@);
    assert(d =~= token@.skip(start as int));
    if start >= token.len() {
        return None;
    }
    let mut acc: u64 = 0;
    let mut i: usize = start;
    let mut ok = true;
    while i < token.len()
        invariant
            start <= i <= token.len(),
            d =~= token@.skip(start as int),
            d == unsigned_digits(token@),
            base == 10 || base == 16,
            ok ==> acc as nat == digits_value(d.take(i - start), base as nat),
            ok ==> acc <= max,
            ok ==> forall|j: int| 0 <= j < i - start ==> digit_value(#[trigger] d[j], base as nat)
                < base,
            !ok ==> (!well_formed_number(token@, base as nat) || digits_value(d, base as nat) > max),
        decreases token.len() - i,
    {
        let v = digit_of(token[i], base);
        if ok {
            if v >= base {
                ok = false;
                proof {
                    let k = (i - start) as int;
                    assert(d[k] == token@[i as int]);
                    assert(digit_value(d[k], base as nat) >= base);
                    assert(unsigned_digits(token@) == d);
                    assert(!well_formed_number(token@, base as nat));
                }
            } else {
                proof {
                    let k = (i - start) as int;
                    assert(d.take(k + 1).drop_last() =~= d.take(k));
                    assert(d.take(k + 1).last() == d[k]);
                    lemma_digits_grow(d, base as nat, k + 1);
                }
                let next = (acc as u128) * (base as u128) + (v as u128);
                proof {
                    let k = (i - start) as int;
                    assert(d[k] == token@[i as int]);
                    assert(digits_value(d.take(k + 1), base as nat) == digits_value(d.take(k), base as nat) * base + digit_value(d[k], base as nat));
                    assert(next == digits_value(d.take(k + 1), base as nat));
                }
                if next > max as u128 {
                    ok = false;
                } else {
                    acc = next as u64;
                }
            }
        }
        i = i + 1;
    }
    if ok {
        assert(d.take(token.len() - start) =~= d);
        Some(acc)
    } else {
        None
    }
}

/// Parse a 16-bit hexadecimal word.
pub fn parse_hex16(token: &[u8]) -> (r: Option<u16>)
    ensures
        r == (if well_formed_number(token@, 16) && number_value(token@, 16) <= 0xFFFF {
            Some(number_value(token@, 16) as u16)
        } else {
            None::<u16>
        }),
{
    match parse_unsigned(token, 16, 0xFFFF) {
        Some(v) => Some(v as u16),
        None => None,
    }
}

/// Parse a decimal `u64`.
pub fn parse_u64(token: &[u8]) -> (r: Option<u64>)
    ensures
        r == (if well_formed_number(token@, 10) && number_value(token@, 10) <= u64::MAX {
            Some(number_value(token@, 10) as u64)
        } else {
            None::<u64>
        }),
{
    parse_unsigned(token, 10, u64::MAX)
}

} // verus!
