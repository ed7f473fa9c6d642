//! Character-level text handling: padding removal, separators, and the
//! fixed-width hexadecimal and decimal renderings used in diagnostics.
use vstd::prelude::*;
use vstd::utf8::*;
use vstd::string::*;

verus! {

broadcast use vstd::utf8::group_utf8_lib;

/// Characters removed by the two trimming passes applied to card text.
#[derive(Clone, Copy, Debug, PartialEq, Eq, Structural)]
pub enum Padding {
    /// The NUL character used to pad fixed-size card fields.
    Nul,
    /// Unicode `White_Space` characters, as `str::trim` removes them.
    Whitespace,
}

/// The Unicode `White_Space` property, which `char::is_whitespace` implements.
pub open spec fn is_unicode_whitespace(c: char) -> bool {
    let u = c as u32;
    ||| 0x09 <= u <= 0x0D
    ||| u == 0x20
    ||| u == 0x85
    ||| u == 0xA0
    ||| u == 0x1680
    ||| 0x2000 <= u <= 0x200A
    ||| u == 0x2028
    ||| u == 0x2029
    ||| u == 0x202F
    ||| u == 0x205F
    ||| u == 0x3000
}

/// `c` is a padding character of kind `p`.
pub open spec fn is_padding(p: Padding, c: char) -> bool {
    match p {
        Padding::Nul => c == '\0',
        Padding::Whitespace => is_unicode_whitespace(c),
    }
}

/// `s` without its leading padding characters.
pub open spec fn trim_front(s: Seq<char>, p: Padding) -> Seq<char>
    decreases s.len(),
{
    if s.len() > 0 && is_padding(p, s[0]) {
        trim_front(s.drop_first(), p)
    } else {
        s
    }
}

/// `s` without its trailing padding characters.
pub open spec fn trim_back(s: Seq<char>, p: Padding) -> Seq<char>
    decreases s.len(),
{
    if s.len() > 0 && is_padding(p, s.last()) {
        trim_back(s.drop_last(), p)
    } else {
        s
    }
}

/// `s` without padding at either end, as `str::trim_matches` / `str::trim` give it.
pub open spec fn trim(s: Seq<char>, p: Padding) -> Seq<char> {
    trim_back(trim_front(s, p), p)
}

/// The pieces of `s` between occurrences of `sep`, as `str::split` yields them:
/// always at least one piece, and empty pieces are kept.
pub open spec fn split_on(s: Seq<char>, sep: char) -> Seq<Seq<char>>
    decreases s.len(),
{
    if s.len() == 0 {
        seq![Seq::<char>::empty()]
    } else {
        let prev = split_on(s.drop_last(), sep);
        if s.last() == sep {
            prev.push(Seq::<char>::empty())
        } else {
            prev.update(prev.len() - 1, prev.last().push(s.last()))
        }
    }
}

/// The non-empty pieces of `parts`, in order, separated by single spaces.
pub open spec fn join_nonempty(parts: Seq<Seq<char>>) -> Seq<char>
    decreases parts.len(),
{
    if parts.len() == 0 {
        Seq::<char>::empty()
    } else {
        let acc = join_nonempty(parts.drop_last());
        let p = parts.last();
        if p.len() == 0 {
            acc
        } else if acc.len() == 0 {
            p
        } else {
            acc + seq![' '] + p
        }
    }
}

/// `c` is one of `0` to `9`.
pub open spec fn is_ascii_digit(c: char) -> bool {
    '0' <= c <= '9'
}

/// Every character of `s` is an ASCII digit.
pub open spec fn all_ascii_digits(s: Seq<char>) -> bool {
    forall|i: int| 0 <= i < s.len() ==> is_ascii_digit(#[trigger] s[i])
}

/// Uppercase hexadecimal digit for `d < 16`.
pub open spec fn hex_digit(d: int) -> char {
    if d < 10 {
        ('0' as int + d) as char
    } else {
        ('A' as int + d - 10) as char
    }
}

/// Decimal digit for `d < 10`.
pub open spec fn dec_digit(d: int) -> char {
    ('0' as int + d) as char
}

/// `v` as four uppercase hexadecimal digits, as `{:04X}` renders a `u16`.
pub open spec fn hex4(v: u16) -> Seq<char> {
    seq![
        hex_digit((v / 4096) as int),
        hex_digit((v / 256 % 16) as int),
        hex_digit((v / 16 % 16) as int),
        hex_digit((v % 16) as int),
    ]
}

/// `v` as eight uppercase hexadecimal digits, as `{:08X}` renders a `u32`.
pub open spec fn hex8(v: u32) -> Seq<char> {
    hex4((v / 65536) as u16) + hex4((v % 65536) as u16)
}

/// `n` in decimal without leading zeroes, as `{}` renders an unsigned integer.
pub open spec fn decimal(n: nat) -> Seq<char>
    decreases n,
{
    if n < 10 {
        seq![dec_digit(n as int)]
    } else {
        decimal(n / 10).push(dec_digit((n % 10) as int))
    }
}

/// Splitting always yields at least one piece.
pub proof fn lemma_split_on_nonempty(s: Seq<char>, sep: char)
    ensures
        split_on(s, sep).len() >= 1,
    decreases s.len(),
{
    if s.len() > 0 {
        lemma_split_on_nonempty(s.drop_last(), sep);
    }
}

/// Leading padding can be skipped before trimming the front.
pub proof fn lemma_trim_front_skip(s: Seq<char>, p: Padding, i: int)
    requires
        0 <= i <= s.len(),
        forall|j: int| 0 <= j < i ==> is_padding(p, #[trigger] s[j]),
    ensures
        trim_front(s, p) == trim_front(s.subrange(i, s.len() as int), p),
    decreases i,
{
    if i > 0 {
        assert(s.drop_first() =~= s.subrange(1, s.len() as int));
        let t = s.drop_first();
        assert forall|j: int| 0 <= j < i - 1 implies is_padding(p, #[trigger] t[j]) by {
            assert(t[j] == s[j + 1]);
        }
        lemma_trim_front_skip(t, p, i - 1);
        assert(t.subrange(i - 1, t.len() as int) =~= s.subrange(i, s.len() as int));
    } else {
        assert(s.subrange(0, s.len() as int) =~= s);
    }
}

/// Trailing padding can be dropped before trimming the back.
pub proof fn lemma_trim_back_skip(s: Seq<char>, p: Padding, k: int)
    requires
        0 <= k <= s.len(),
        forall|j: int| k <= j < s.len() ==> is_padding(p, #[trigger] s[j]),
    ensures
        trim_back(s, p) == trim_back(s.subrange(0, k), p),
    decreases s.len() - k,
{
    if k < s.len() {
        let t = s.drop_last();
        assert forall|j: int| k <= j < t.len() implies is_padding(p, #[trigger] t[j]) by {
            assert(t[j] == s[j]);
        }
        assert(is_padding(p, s[s.len() - 1]));
        lemma_trim_back_skip(t, p, k);
        assert(t.subrange(0, k) =~= s.subrange(0, k));
    } else {
        assert(s.subrange(0, k) =~= s);
    }
}

/// `c` is a padding character of kind `p`.
pub fn is_padding_char(p: Padding, c: char) -> (b: bool)
    ensures
        b == is_padding(p, c),
{
    match p {
        Padding::Nul => c == '\0',
        Padding::Whitespace => {
            let u = c as u32;
            (0x09 <= u && u <= 0x0D) || u == 0x20 || u == 0x85 || u == 0xA0 || u == 0x1680 || (
            0x2000 <= u && u <= 0x200A) || u == 0x2028 || u == 0x2029 || u == 0x202F || u
                == 0x205F || u == 0x3000
        },
    }
}

/// Removes the padding characters `p` from both ends of `s`.
pub fn trim_chars(s: &[char], p: Padding) -> (r: Vec<char>)
    ensures
        r@ == trim(s@, p),
{
    let n = s.len();
    let mut start: usize = 0;
    while start < n && is_padding_char(p, s[start])
        invariant
            n == s@.len(),
            start <= n,
            forall|j: int| 0 <= j < start ==> is_padding(p, #[trigger] s@[j]),
        decreases n - start,
    {
        start = start + 1;
    }
    proof {
        lemma_trim_front_skip(s@, p, start as int);
        let rest = s@.subrange(start as int, n as int);
        if rest.len() > 0 {
            assert(rest[0] == s@[start as int]);
        }
        assert(trim_front(rest, p) == rest);
    }
    let ghost front = s@.subrange(start as int, n as int);
    let mut end: usize = n;
    while end > start && is_padding_char(p, s[end - 1])
        invariant
            n == s@.len(),
            start <= end <= n,
            front == s@.subrange(start as int, n as int),
            forall|j: int| end - start <= j < front.len() ==> is_padding(p, #[trigger] front[j]),
        decreases end - start,
    {
        assert(front[end - 1 - start] == s@[end - 1]);
        end = end - 1;
    }
    proof {
        lemma_trim_back_skip(front, p, end - start);
        let core = front.subrange(0, end - start);
        if core.len() > 0 {
            assert(core.last() == s@[end - 1]);
        }
        assert(trim_back(core, p) == core);
        assert(core =~= s@.subrange(start as int, end as int));
    }
    let mut out: Vec<char> = Vec::new();
    let mut i = start;
    while i < end
        invariant
            n == s@.len(),
            start <= i <= end <= n,
            out@ == s@.subrange(start as int, i as int),
        decreases end - i,
    {
        out.push(s[i]);
        i = i + 1;
        assert(out@ =~= s@.subrange(start as int, i as int));
    }
    out
}

/// The pieces of `s` between commas, each with surrounding whitespace removed.
pub fn split_trimmed(s: &[char], sep: char) -> (r: Vec<Vec<char>>)
    ensures
        r@.len() == split_on(s@, sep).len(),
        forall|i: int|
            0 <= i < r@.len() ==> #[trigger] r@[i]@ == trim(split_on(s@, sep)[i], Padding::Whitespace),
{
    let mut done: Vec<Vec<char>> = Vec::new();
    let mut cur: Vec<char> = Vec::new();
    let mut i: usize = 0;
    while i < s.len()
        invariant
            i <= s@.len(),
            done@.len() + 1 == split_on(s@.take(i as int), sep).len(),
            forall|k: int|
                0 <= k < done@.len() ==> #[trigger] done@[k]@ == trim(
                    split_on(s@.take(i as int), sep)[k],
                    Padding::Whitespace,
                ),
            cur@ == split_on(s@.take(i as int), sep).last(),
        decreases s@.len() - i,
    {
        let ghost before = s@.take(i as int);
        let ghost prev = split_on(before, sep);
        assert(s@.take(i + 1).drop_last() =~= before);
        proof {
            lemma_split_on_nonempty(before, sep);
        }
        let c = s[i];
        if c == sep {
            let piece = trim_chars(cur.as_slice(), Padding::Whitespace);
            done.push(piece);
            cur = Vec::new();
            proof {
                let next = split_on(s@.take(i + 1), sep);
                assert(next == prev.push(Seq::<char>::empty()));
                assert forall|k: int| 0 <= k < done@.len() implies #[trigger] done@[k]@ == trim(
                    next[k],
                    Padding::Whitespace,
                ) by {
                    assert(next[k] == prev[k]);
                }
            }
        } else {
            cur.push(c);
            proof {
                let next = split_on(s@.take(i + 1), sep);
                assert(next == prev.update(prev.len() - 1, prev.last().push(c)));
                assert forall|k: int| 0 <= k < done@.len() implies #[trigger] done@[k]@ == trim(
                    next[k],
                    Padding::Whitespace,
                ) by {
                    assert(next[k] == prev[k]);
                }
            }
        }
        i = i + 1;
    }
    assert(s@.take(s@.len() as int) =~= s@);
    let piece = trim_chars(cur.as_slice(), Padding::Whitespace);
    done.push(piece);
    done
}

/// Joins the non-empty `parts` with single spaces.
pub fn join_nonempty_chars(parts: &Vec<Vec<char>>) -> (r: Vec<char>)
    ensures
        r@ == join_nonempty(parts.deep_view()),
{
    let mut out: Vec<char> = Vec::new();
    let mut i: usize = 0;
    while i < parts.len()
        invariant
            i <= parts@.len(),
            out@ == join_nonempty(parts.deep_view().take(i as int)),
        decreases parts@.len() - i,
    {
        let ghost dv = parts.deep_view();
        assert(dv.take(i + 1).drop_last() =~= dv.take(i as int));
        assert(dv.take(i + 1).last() == parts@[i as int]@);
        let part = &parts[i];
        if part.len() > 0 {
            if out.len() > 0 {
                out.push(' ');
            }
            let mut j: usize = 0;
            let ghost base = out@;
            while j < part.len()
                invariant
                    j <= part@.len(),
                    out@ == base + part@.take(j as int),
                decreases part@.len() - j,
            {
                out.push(part[j]);
                j = j + 1;
                assert(out@ =~= base + part@.take(j as int));
            }
            assert(part@.take(part@.len() as int) =~= part@);
        }
        i = i + 1;
    }
    assert(parts.deep_view().take(parts@.len() as int) =~= parts.deep_view());
    out
}

/// `s` consists of exactly `n` ASCII digits.
pub fn is_ascii_digits_of_len(s: &[char], n: usize) -> (b: bool)
    ensures
        b == (s@.len() == n && all_ascii_digits(s@)),
{
    if s.len() != n {
        return false;
    }
    let mut i: usize = 0;
    while i < s.len()
        invariant
            i <= s@.len(),
            forall|j: int| 0 <= j < i ==> is_ascii_digit(#[trigger] s@[j]),
        decreases s@.len() - i,
    {
        if !('0' <= s[i] && s[i] <= '9') {
            return false;
        }
        i = i + 1;
    }
    true
}

/// The uppercase hexadecimal digit for `d`.
pub fn hex_digit_char(d: u8) -> (c: char)
    requires
        d < 16,
    ensures
        c == hex_digit(d as int),
{
    if d < 10 {
        (48u8 + d) as char
    } else {
        (55u8 + d) as char
    }
}

/// Appends `v` as four uppercase hexadecimal digits.
pub fn push_hex4(out: &mut Vec<char>, v: u16)
    ensures
        final(out)@ == old(out)@ + hex4(v),
{
    out.push(hex_digit_char((v / 4096) as u8));
    out.push(hex_digit_char((v / 256 % 16) as u8));
    out.push(hex_digit_char((v / 16 % 16) as u8));
    out.push(hex_digit_char((v % 16) as u8));
    assert(out@ =~= old(out)@ + hex4(v));
}

/// Appends `v` as eight uppercase hexadecimal digits.
pub fn push_hex8(out: &mut Vec<char>, v: u32)
    ensures
        final(out)@ == old(out)@ + hex8(v),
{
    push_hex4(out, (v / 65536) as u16);
    push_hex4(out, (v % 65536) as u16);
    assert(out@ =~= old(out)@ + hex8(v));
}

/// Appends `n` in decimal.
pub fn push_decimal(out: &mut Vec<char>, n: u64)
    ensures
        final(out)@ == old(out)@ + decimal(n as nat),
    decreases n,
{
    if n >= 10 {
        push_decimal(out, n / 10);
    }
    let d = (n % 10) as u8;
    out.push((48u8 + d) as char);
    assert(out@ =~= old(out)@ + decimal(n as nat));
}

/// Appends the characters of `s` to `out`.
pub fn push_str(out: &mut Vec<char>, s: &str)
    ensures
        final(out)@ == old(out)@ + s@,
{
    for c in it: s.chars()
        invariant
            out@ == old(out)@ + it.seq().take(it.index() as int),
    {
        out.push(c);
    }
}

/// The characters of `s`.
pub fn chars_of(s: &str) -> (r: Vec<char>)
    ensures
        r@ == s@,
{
    let mut out: Vec<char> = Vec::new();
    push_str(&mut out, s);
    assert(out@ =~= s@);
    out
}

/// `String` holding exactly the characters `chars`.
///
/// Trusted: collects through std's `FromIterator<char> for String`, which
/// appends each character in order; nothing else is claimed.
#[verifier::external_body]
pub(crate) fn string_from_chars(chars: &[char]) -> (s: String)
    ensures
        s@ == chars@,
{
    chars.iter().collect()
}

/// The text that `bytes` encode, when they are valid UTF-8.
///
/// Trusted: calls `std::str::from_utf8`, which succeeds exactly on valid UTF-8
/// and then borrows the same bytes as a `str`.
#[verifier::external_body]
pub(crate) fn utf8_text(bytes: &[u8]) -> (r: Option<&str>)
    ensures
        r is Some <==> valid_utf8(bytes@),
        r matches Some(s) ==> s.spec_bytes() == bytes@,
{
    std::str::from_utf8(bytes).ok()
}

/// Characters decoded from UTF-8 `bytes`, or `None` when they are not valid UTF-8.
pub fn decode_utf8_chars(bytes: &[u8]) -> (r: Option<Vec<char>>)
    ensures
        r is Some <==> valid_utf8(bytes@),
        r matches Some(cs) ==> cs@ == decode_utf8(bytes@),
{
    match utf8_text(bytes) {
        Some(s) => {
            let cs = chars_of(s);
            proof {
                encode_utf8_decode_utf8(s@);
            }
            Some(cs)
        },
        None => None,
    }
}

/// Each byte as two uppercase hexadecimal digits, separated by single spaces.
pub open spec fn spaced_hex(bytes: Seq<u8>) -> Seq<char>
    decreases bytes.len(),
{
    if bytes.len() == 0 {
        Seq::empty()
    } else if bytes.len() == 1 {
        hex4(bytes[0] as u16).subrange(2, 4)
    } else {
        spaced_hex(bytes.drop_last()) + seq![' '] + hex4(bytes.last() as u16).subrange(2, 4)
    }
}

/// `bytes` as uppercase, space-separated hexadecimal pairs, such as `3B 6A 00`.
pub fn spaced_hex_string(bytes: &[u8]) -> (r: String)
    ensures
        r@ == spaced_hex(bytes@),
{
    let mut out: Vec<char> = Vec::new();
    let mut i: usize = 0;
    while i < bytes.len()
        invariant
            i <= bytes@.len(),
            out@ == spaced_hex(bytes@.take(i as int)),
        decreases bytes@.len() - i,
    {
        let b = bytes[i];
        assert(bytes@.take(i + 1).drop_last() =~= bytes@.take(i as int));
        if i > 0 {
            out.push(' ');
        }
        let ghost before = out@;
        out.push(hex_digit_char(b / 16));
        out.push(hex_digit_char(b % 16));
        assert(hex4(b as u16).subrange(2, 4) =~= seq![hex_digit((b / 16) as int), hex_digit((b % 16) as int)]);
        i = i + 1;
        assert(out@ =~= spaced_hex(bytes@.take(i as int)));
    }
    assert(bytes@.take(bytes@.len() as int) =~= bytes@);
    string_from_chars(out.as_slice())
}

/// A piece of text without `sep` that, unless empty, neither starts nor ends
/// with whitespace.
pub open spec fn is_clean_piece(s: Seq<char>, sep: char) -> bool {
    &&& !s.contains(sep)
    &&& s.len() > 0 ==> !is_unicode_whitespace(s[0]) && !is_unicode_whitespace(s.last())
}

/// No piece of `split_on(s, sep)` holds `sep`, and text without `sep` is a
/// single piece.
pub proof fn lemma_split_on_pieces(s: Seq<char>, sep: char)
    ensures
        forall|k: int| 0 <= k < split_on(s, sep).len() ==> !(#[trigger] split_on(s, sep)[k]).contains(sep),
        !s.contains(sep) ==> split_on(s, sep) == seq![s],
    decreases s.len(),
{
    lemma_split_on_nonempty(s, sep);
    if s.len() > 0 {
        let prev = split_on(s.drop_last(), sep);
        lemma_split_on_pieces(s.drop_last(), sep);
        lemma_split_on_nonempty(s.drop_last(), sep);
        if s.last() != sep {
            let piece = prev.last().push(s.last());
            assert(!prev.last().contains(sep));
            assert(!piece.contains(sep)) by {
                if piece.contains(sep) {
                    let j = choose|j: int| 0 <= j < piece.len() && piece[j] == sep;
                    if j < prev.last().len() {
                        assert(prev.last()[j] == sep);
                    }
                }
            }
            let r = prev.update(prev.len() - 1, piece);
            assert forall|k: int| 0 <= k < r.len() implies !(#[trigger] r[k]).contains(sep) by {
                if k < prev.len() - 1 {
                    assert(r[k] == prev[k]);
                }
            }
        } else {
            let r = prev.push(Seq::<char>::empty());
            assert forall|k: int| 0 <= k < r.len() implies !(#[trigger] r[k]).contains(sep) by {
                if k < prev.len() {
                    assert(r[k] == prev[k]);
                }
            }
        }
        if !s.contains(sep) {
            assert(!s.drop_last().contains(sep)) by {
                if s.drop_last().contains(sep) {
                    let j = choose|j: int| 0 <= j < s.drop_last().len() && s.drop_last()[j] == sep;
                    assert(s[j] == sep);
                }
            }
            assert(s.drop_last().push(s.last()) =~= s);
            assert(split_on(s, sep) =~= seq![s]);
        }
    } else {
        assert(s =~= Seq::<char>::empty());
    }
}

/// Trimming the front keeps a suffix of `s` that is empty or starts with a
/// character other than padding.
pub proof fn lemma_trim_front_suffix(s: Seq<char>, p: Padding)
    ensures
        trim_front(s, p).len() <= s.len(),
        trim_front(s, p) == s.subrange(s.len() - trim_front(s, p).len(), s.len() as int),
        trim_front(s, p).len() > 0 ==> !is_padding(p, trim_front(s, p)[0]),
    decreases s.len(),
{
    if s.len() > 0 && is_padding(p, s[0]) {
        lemma_trim_front_suffix(s.drop_first(), p);
        let t = trim_front(s.drop_first(), p);
        assert(s.drop_first().subrange(s.drop_first().len() - t.len(), s.drop_first().len() as int)
            =~= s.subrange(s.len() - t.len(), s.len() as int));
    } else {
        assert(s.subrange(0, s.len() as int) =~= s);
    }
}

/// Trimming the back keeps a prefix of `s` that is empty or ends with a
/// character other than padding.
pub proof fn lemma_trim_back_prefix(s: Seq<char>, p: Padding)
    ensures
        trim_back(s, p).len() <= s.len(),
        trim_back(s, p) == s.subrange(0, trim_back(s, p).len() as int),
        trim_back(s, p).len() > 0 ==> !is_padding(p, trim_back(s, p).last()),
    decreases s.len(),
{
    if s.len() > 0 && is_padding(p, s.last()) {
        lemma_trim_back_prefix(s.drop_last(), p);
        let t = trim_back(s.drop_last(), p);
        assert(s.drop_last().subrange(0, t.len() as int) =~= s.subrange(0, t.len() as int));
    } else {
        assert(s.subrange(0, s.len() as int) =~= s);
    }
}

/// Trimming whitespace from text without `sep` gives a clean piece.
pub proof fn lemma_trim_clean(s: Seq<char>, sep: char)
    requires
        !s.contains(sep),
    ensures
        is_clean_piece(trim(s, Padding::Whitespace), sep),
{
    let p = Padding::Whitespace;
    lemma_trim_front_suffix(s, p);
    let t = trim_front(s, p);
    lemma_trim_back_prefix(t, p);
    let r = trim_back(t, p);
    let a = s.len() - t.len();
    assert forall|k: int| 0 <= k < r.len() implies #[trigger] r[k] == s[a + k] by {
        assert(r[k] == t[k]);
        assert(t[k] == s[a + k]);
    }
    if r.contains(sep) {
        let j = choose|j: int| 0 <= j < r.len() && r[j] == sep;
        assert(s[a + j] == sep);
    }
    if r.len() > 0 {
        assert(r[0] == t[0]);
    }
}

/// Joining clean pieces with single spaces gives a clean piece.
pub proof fn lemma_join_clean(parts: Seq<Seq<char>>, sep: char)
    requires
        sep != ' ',
        forall|k: int| 0 <= k < parts.len() ==> is_clean_piece(#[trigger] parts[k], sep),
    ensures
        is_clean_piece(join_nonempty(parts), sep),
    decreases parts.len(),
{
    if parts.len() > 0 {
        let rest = parts.drop_last();
        assert forall|k: int| 0 <= k < rest.len() implies is_clean_piece(#[trigger] rest[k], sep) by {
            assert(rest[k] == parts[k]);
        }
        lemma_join_clean(rest, sep);
        let acc = join_nonempty(rest);
        let p = parts.last();
        assert(is_clean_piece(p, sep));
        if p.len() > 0 && acc.len() > 0 {
            let r = acc + seq![' '] + p;
            if r.contains(sep) {
                let j = choose|j: int| 0 <= j < r.len() && r[j] == sep;
                if j < acc.len() {
                    assert(acc[j] == sep);
                } else if j > acc.len() {
                    assert(p[j - acc.len() - 1] == sep);
                }
            }
            assert(r[0] == acc[0]);
            assert(r.last() == p.last());
        }
    }
}

/// Trimming the front removes only padding characters.
pub proof fn lemma_trim_front_removes_padding(s: Seq<char>, p: Padding)
    ensures
        forall|i: int| 0 <= i < s.len() - trim_front(s, p).len() ==> is_padding(p, #[trigger] s[i]),
    decreases s.len(),
{
    if s.len() > 0 && is_padding(p, s[0]) {
        let t = s.drop_first();
        lemma_trim_front_removes_padding(t, p);
        assert forall|i: int| 0 <= i < s.len() - trim_front(s, p).len() implies is_padding(
            p,
            #[trigger] s[i],
        ) by {
            if i > 0 {
                assert(s[i] == t[i - 1]);
            }
        }
    }
}

/// Trimming the back removes only padding characters.
pub proof fn lemma_trim_back_removes_padding(s: Seq<char>, p: Padding)
    ensures
        forall|i: int| trim_back(s, p).len() <= i < s.len() ==> is_padding(p, #[trigger] s[i]),
    decreases s.len(),
{
    lemma_trim_back_prefix(s, p);
    if s.len() > 0 && is_padding(p, s.last()) {
        let t = s.drop_last();
        lemma_trim_back_removes_padding(t, p);
        assert forall|i: int| trim_back(s, p).len() <= i < s.len() implies is_padding(
            p,
            #[trigger] s[i],
        ) by {
            if i < s.len() - 1 {
                assert(s[i] == t[i]);
            }
        }
    }
}

/// `trim(s, p)` is the piece of `s` between padding characters: it starts at
/// some position `a`, and every character before `a` or after the piece is
/// padding.
pub proof fn lemma_trim_piece(s: Seq<char>, p: Padding) -> (a: int)
    ensures
        0 <= a && a + trim(s, p).len() <= s.len(),
        s.subrange(a, a + trim(s, p).len()) == trim(s, p),
        forall|i: int| 0 <= i < a ==> is_padding(p, #[trigger] s[i]),
        forall|i: int| a + trim(s, p).len() <= i < s.len() ==> is_padding(p, #[trigger] s[i]),
{
    let f = trim_front(s, p);
    lemma_trim_front_suffix(s, p);
    lemma_trim_front_removes_padding(s, p);
    lemma_trim_back_prefix(f, p);
    lemma_trim_back_removes_padding(f, p);
    let a = s.len() - f.len();
    let t = trim_back(f, p);
    assert forall|i: int| a + t.len() <= i < s.len() implies is_padding(p, #[trigger] s[i]) by {
        assert(s[i] == f[i - a]);
    }
    assert(s.subrange(a, a + t.len()) =~= t) by {
        assert forall|k: int| 0 <= k < t.len() implies s.subrange(a, a + t.len())[k] == t[k] by {
            assert(t[k] == f[k]);
            assert(f[k] == s[a + k]);
        }
    }
    a
}

} // verus!
