//! File names for a sequence of pages: each page's number, zero-padded to
//! a width, stands in for every `{}` of a file-name pattern.

use vstd::prelude::*;

verus! {

/// The pages of a canvas, in order, with the engine that renders them.
pub struct PageSequence<P, E> {
    pub pages: Vec<P>,
    pub engine: E,
}

impl<P, E> PageSequence<P, E> {
    /// A sequence of the given pages.
    pub fn from(pages: Vec<P>, engine: E) -> (r: Self)
        ensures
            r.pages@ == pages@,
            r.engine == engine,
    {
        PageSequence { pages, engine }
    }

    /// The first page.
    pub fn first(&self) -> (r: &P)
        requires
            self.pages.len() > 0,
        ensures
            *r == self.pages@[0],
    {
        &self.pages[0]
    }

    /// The number of pages.
    pub fn len(&self) -> (n: usize)
        ensures
            n == self.pages.len(),
    {
        self.pages.len()
    }
}

/// The character of a decimal digit.
pub open spec fn digit_char(d: nat) -> char {
    (48 + d) as char
}

/// The decimal representation of a number, without leading zeros.
pub open spec fn decimal(n: nat) -> Seq<char>
    decreases n,
{
    if n < 10 {
        seq![digit_char(n)]
    } else {
        decimal(n / 10).push(digit_char(n % 10))
    }
}

/// A run of `k` zero characters.
pub open spec fn zeros(k: nat) -> Seq<char> {
    Seq::new(k, |i: int| '0')
}

/// `s` with zeros in front of it up to `width` characters.
pub open spec fn zero_padded(s: Seq<char>, width: nat) -> Seq<char> {
    if s.len() >= width {
        s
    } else {
        zeros((width - s.len()) as nat) + s
    }
}

/// The page number as it appears in a file name.
pub open spec fn folio_text(number: nat, width: nat) -> Seq<char> {
    zero_padded(decimal(number), width)
}

/// Whether a `{}` placeholder starts at position `i` of a pattern.
pub open spec fn placeholder_at(pattern: Seq<char>, i: int) -> bool {
    0 <= i && i + 1 < pattern.len() && pattern[i] == '{' && pattern[i + 1] == '}'
}

/// Whether a pattern holds a `{}` placeholder anywhere.
pub open spec fn has_placeholder(pattern: Seq<char>) -> bool {
    exists|i: int| placeholder_at(pattern, i)
}

/// The pattern with every `{}`, taken from left to right without overlap,
/// replaced by `text`.
pub open spec fn filled(pattern: Seq<char>, text: Seq<char>) -> Seq<char>
    decreases pattern.len(),
{
    if pattern.len() < 2 {
        pattern
    } else if pattern[0] == '{' && pattern[1] == '}' {
        text + filled(pattern.skip(2), text)
    } else {
        seq![pattern[0]] + filled(pattern.skip(1), text)
    }
}

/// The file name of the page at `index` (counting from 0).
pub open spec fn page_file_name(pattern: Seq<char>, index: nat, width: nat) -> Seq<char> {
    filled(pattern, folio_text(index + 1, width))
}

fn digit_text(d: usize) -> (s: &'static str)
    requires
        d < 10,
    ensures
        s@ == seq![digit_char(d as nat)],
{
    proof {
        reveal_strlit("0");
        reveal_strlit("1");
        reveal_strlit("2");
        reveal_strlit("3");
        reveal_strlit("4");
        reveal_strlit("5");
        reveal_strlit("6");
        reveal_strlit("7");
        reveal_strlit("8");
        reveal_strlit("9");
    }
    if d == 0 {
        "0"
    } else if d == 1 {
        "1"
    } else if d == 2 {
        "2"
    } else if d == 3 {
        "3"
    } else if d == 4 {
        "4"
    } else if d == 5 {
        "5"
    } else if d == 6 {
        "6"
    } else if d == 7 {
        "7"
    } else if d == 8 {
        "8"
    } else {
        "9"
    }
}

fn push_decimal(out: &mut String, n: usize)
    ensures
        final(out)@ == old(out)@ + decimal(n as nat),
    decreases n,
{
    if n >= 10 {
        push_decimal(out, n / 10);
    }
    out.append(digit_text(n % 10));
    assert(out@ =~= old(out)@ + decimal(n as nat));
}


/// The page number written in decimal with zeros in front of it up to
/// `width` characters, as `format!("{:0width$}", number)` writes it.
pub fn folio(number: usize, width: usize) -> (s: String)
    ensures
        s@ == folio_text(number as nat, width as nat),
{
    let mut digits = String::new();
    push_decimal(&mut digits, number);
    assert(digits@ =~= decimal(number as nat));
    let len = digits.as_str().unicode_len();
    let mut out = String::new();
    if len < width {
        let mut k: usize = 0;
        while k < width - len
            invariant
                len < width,
                k <= width - len,
                out@ == zeros(k as nat),
            decreases width - len - k,
        {
            out.append(digit_text(0));
            k = k + 1;
            assert(out@ =~= zeros(k as nat));
        }
    } else {
        assert(out@ =~= zeros(0));
    }
    out.append(digits.as_str());
    assert(out@ =~= folio_text(number as nat, width as nat));
    out
}

proof fn lemma_filled_step(pattern: Seq<char>, i: int, text: Seq<char>)
    requires
        0 <= i < pattern.len(),
        !placeholder_at(pattern, i),
    ensures
        filled(pattern.skip(i), text) == seq![pattern[i]] + filled(pattern.skip(i + 1), text),
{
    let rest = pattern.skip(i);
    assert(rest.skip(1) =~= pattern.skip(i + 1));
    if rest.len() < 2 {
        assert(pattern.skip(i + 1) =~= Seq::<char>::empty());
        assert(rest =~= seq![pattern[i]]);
        assert(filled(pattern.skip(i + 1), text) == pattern.skip(i + 1));
        assert(seq![pattern[i]] + Seq::<char>::empty() =~= seq![pattern[i]]);
    } else {
        assert(rest[0] == pattern[i]);
        assert(rest[1] == pattern[i + 1]);
    }
}

proof fn lemma_filled_placeholder(pattern: Seq<char>, i: int, text: Seq<char>)
    requires
        placeholder_at(pattern, i),
    ensures
        filled(pattern.skip(i), text) == text + filled(pattern.skip(i + 2), text),
{
    let rest = pattern.skip(i);
    assert(rest.skip(2) =~= pattern.skip(i + 2));
    assert(rest[0] == pattern[i]);
    assert(rest[1] == pattern[i + 1]);
}

/// The pattern with every `{}` replaced by `text`, as `str::replace` does.
pub fn fill_placeholders(pattern: &str, text: &str) -> (r: String)
    ensures
        r@ == filled(pattern@, text@),
{
    let n = pattern.unicode_len();
    let mut out = String::new();
    let mut start: usize = 0;
    let mut i: usize = 0;
    assert(pattern@.skip(0) =~= pattern@);
    while i < n
        invariant
            n == pattern@.len(),
            start <= i <= n,
            out@ + pattern@.subrange(start as int, i as int) + filled(pattern@.skip(i as int), text@)
                == filled(pattern@, text@),
        decreases n - i,
    {
        let c = pattern.get_char(i);
        if c == '{' && i + 1 < n && pattern.get_char(i + 1) == '}' {
            proof {
                lemma_filled_placeholder(pattern@, i as int, text@);
            }
            let ghost before = out@;
            out.append(pattern.substring_char(start, i));
            out.append(text);
            assert(out@ + pattern@.subrange(i + 2, i + 2) + filled(pattern@.skip(i + 2), text@)
                =~= before + pattern@.subrange(start as int, i as int) + filled(pattern@.skip(i as int), text@));
            i = i + 2;
            start = i;
        } else {
            proof {
                lemma_filled_step(pattern@, i as int, text@);
            }
            assert(pattern@.subrange(start as int, i as int) + seq![pattern@[i as int]]
                =~= pattern@.subrange(start as int, i + 1));
            i = i + 1;
        }
    }
    out.append(pattern.substring_char(start, n));
    assert(pattern@.skip(n as int) =~= Seq::<char>::empty());
    assert(out@ =~= filled(pattern@, text@));
    out
}

/// The file name of the page at `index` (counting from 0): the pattern with
/// each `{}` replaced by the page number `index + 1`, zero-padded to `width`.
pub fn page_file_name_for(pattern: &str, index: usize, width: usize) -> (r: String)
    requires
        index < usize::MAX,
    ensures
        r@ == page_file_name(pattern@, index as nat, width as nat),
{
    let number = folio(index + 1, width);
    fill_placeholders(pattern, number.as_str())
}

/// The folio width that a padding option asks for: `-1` asks for the width
/// computed from the number of pages (`auto_width`), anything else for
/// itself, converted as `as usize` converts it.
pub fn folio_width(padding: i32, auto_width: usize) -> (w: usize)
    ensures
        w == (if padding == -1 { auto_width } else { padding as usize }),
{
    if padding == -1 {
        auto_width
    } else {
        padding as usize
    }
}


/// The number that a string of decimal digits denotes.
pub open spec fn digits_value(s: Seq<char>) -> int
    decreases s.len(),
{
    if s.len() == 0 {
        0
    } else {
        digits_value(s.drop_last()) * 10 + (s.last() as int - 48)
    }
}

/// How many placeholders `filled` replaces in a pattern.
pub open spec fn placeholder_count(pattern: Seq<char>) -> nat
    decreases pattern.len(),
{
    if pattern.len() < 2 {
        0
    } else if pattern[0] == '{' && pattern[1] == '}' {
        1 + placeholder_count(pattern.skip(2))
    } else {
        placeholder_count(pattern.skip(1))
    }
}

proof fn lemma_decimal_value(n: nat)
    ensures
        digits_value(decimal(n)) == n,
        decimal(n).len() >= 1,
        forall|i: int| 0 <= i < decimal(n).len() ==> '0' <= #[trigger] decimal(n)[i] <= '9',
    decreases n,
{
    assert((48 + n % 10) as char as int == 48 + n % 10);
    if n < 10 {
        assert(decimal(n).drop_last() =~= Seq::<char>::empty());
        assert(digits_value(Seq::<char>::empty()) == 0);
    } else {
        lemma_decimal_value(n / 10);
        let d = decimal(n);
        assert(d.drop_last() =~= decimal(n / 10));
        assert(d.last() == digit_char(n % 10));
        assert(digits_value(d) == digits_value(decimal(n / 10)) * 10 + (n % 10));
        assert((n / 10) * 10 + n % 10 == n);
        assert forall|i: int| 0 <= i < d.len() implies '0' <= #[trigger] d[i] <= '9' by {
            if i < d.len() - 1 {
                assert(d[i] == decimal(n / 10)[i]);
            }
        }
    }
}

proof fn lemma_zeros_value(k: nat, s: Seq<char>)
    ensures
        digits_value(zeros(k) + s) == digits_value(s),
    decreases s.len() + k,
{
    if s.len() == 0 {
        assert(zeros(k) + s =~= zeros(k));
        if k > 0 {
            assert(zeros(k).drop_last() =~= zeros((k - 1) as nat) + s);
            lemma_zeros_value((k - 1) as nat, s);
        }
    } else {
        assert((zeros(k) + s).drop_last() =~= zeros(k) + s.drop_last());
        lemma_zeros_value(k, s.drop_last());
    }
}

/// A folio is made of decimal digits, is at least `width` long, and reads
/// back as the page number.
pub proof fn law_folio_reads_back(number: nat, width: nat)
    ensures
        digits_value(folio_text(number, width)) == number,
        folio_text(number, width).len() == if decimal(number).len() >= width {
            decimal(number).len()
        } else {
            width
        },
        forall|i: int|
            0 <= i < folio_text(number, width).len() ==> '0' <= #[trigger] folio_text(number, width)[i]
                <= '9',
{
    lemma_decimal_value(number);
    let d = decimal(number);
    if d.len() < width {
        lemma_zeros_value((width - d.len()) as nat, d);
        let f = folio_text(number, width);
        assert forall|i: int| 0 <= i < f.len() implies '0' <= #[trigger] f[i] <= '9' by {
            if i >= width - d.len() {
                assert(f[i] == d[i - (width - d.len())]);
            }
        }
    }
}

proof fn lemma_decimal_leading_digit(n: nat)
    ensures
        n >= 1 ==> decimal(n)[0] != '0',
        n < 10 ==> decimal(n).len() == 1,
        n >= 10 ==> decimal(n).len() >= 2,
    decreases n,
{
    assert((48 + n % 10) as char as int == 48 + n % 10);
    if n >= 10 {
        lemma_decimal_leading_digit(n / 10);
        assert(decimal(n)[0] == decimal(n / 10)[0]);
    } else {
        assert((48 + n) as char as int == 48 + n);
    }
}

/// A page number as written: only decimal digits, reading back as the
/// number, at least one character and at least `width` characters, and
/// with no leading zero whenever it is longer than both (so it is exactly
/// `width` long when the number has fewer digits than `width`, and has
/// exactly the number's digits otherwise).
pub open spec fn is_padded_number(t: Seq<char>, number: nat, width: nat) -> bool {
    &&& forall|i: int| 0 <= i < t.len() ==> '0' <= #[trigger] t[i] <= '9'
    &&& digits_value(t) == number
    &&& t.len() >= 1
    &&& t.len() >= width
    &&& (t.len() > width && t.len() > 1 ==> t[0] != '0')
}

/// The folio of a number is the number zero-padded to `width`: digits only,
/// reading back as the number, never shorter than `width`, and without a
/// leading zero when it is longer than `width`.
pub proof fn law_folio_is_padded_number(number: nat, width: nat)
    ensures
        is_padded_number(folio_text(number, width), number, width),
{
    law_folio_reads_back(number, width);
    lemma_decimal_leading_digit(number);
    lemma_decimal_value(number);
}

/// A number has one zero-padded form for a given width: two padded forms of
/// the same width are equal exactly when they denote the same number.
pub proof fn law_padded_number_unique(s: Seq<char>, t: Seq<char>, number: nat, width: nat)
    requires
        is_padded_number(s, number, width),
        is_padded_number(t, number, width),
    ensures
        s == t,
{
    law_folio_is_padded_number(number, width);
    lemma_padded_is_folio(s, number, width);
    lemma_padded_is_folio(t, number, width);
}

proof fn lemma_digits_value_bound(s: Seq<char>)
    requires
        forall|i: int| 0 <= i < s.len() ==> '0' <= #[trigger] s[i] <= '9',
    ensures
        0 <= digits_value(s),
        s.len() >= 1 && s[0] != '0' ==> digits_value(s) >= pow10((s.len() - 1) as nat),
        digits_value(s) < pow10(s.len()),
    decreases s.len(),
{
    if s.len() > 0 {
        let r = s.drop_last();
        assert forall|i: int| 0 <= i < r.len() implies '0' <= #[trigger] r[i] <= '9' by {
            assert(r[i] == s[i]);
        }
        lemma_digits_value_bound(r);
        assert(s.last() == s[s.len() - 1]);
        if s.len() >= 2 && s[0] != '0' {
            assert(r[0] == s[0]);
        }
        if s.len() == 1 {
            assert(digits_value(r) == 0);
        }
    }
}

/// Ten to the power `k`.
pub open spec fn pow10(k: nat) -> int
    decreases k,
{
    if k == 0 {
        1
    } else {
        10 * pow10((k - 1) as nat)
    }
}

proof fn lemma_pow10_grows(a: nat, b: nat)
    requires
        a <= b,
    ensures
        1 <= pow10(a) <= pow10(b),
    decreases b,
{
    if b == 0 {
        assert(pow10(0) == 1);
    } else if a == b {
        lemma_pow10_grows((b - 1) as nat, (b - 1) as nat);
    } else {
        lemma_pow10_grows(a, (b - 1) as nat);
    }
}

proof fn lemma_digit_value_eq(a: Seq<char>, b: Seq<char>)
    requires
        a.len() == b.len(),
        forall|i: int| 0 <= i < a.len() ==> '0' <= #[trigger] a[i] <= '9',
        forall|i: int| 0 <= i < b.len() ==> '0' <= #[trigger] b[i] <= '9',
        digits_value(a) == digits_value(b),
    ensures
        a == b,
    decreases a.len(),
{
    if a.len() > 0 {
        let ra = a.drop_last();
        let rb = b.drop_last();
        assert forall|i: int| 0 <= i < ra.len() implies '0' <= #[trigger] ra[i] <= '9' by {
            assert(ra[i] == a[i]);
        }
        assert forall|i: int| 0 <= i < rb.len() implies '0' <= #[trigger] rb[i] <= '9' by {
            assert(rb[i] == b[i]);
        }
        lemma_digits_value_bound(ra);
        lemma_digits_value_bound(rb);
        let la = a.last() as int - 48;
        let lb = b.last() as int - 48;
        assert(a.last() == a[a.len() - 1]);
        assert(b.last() == b[b.len() - 1]);
        assert(0 <= la <= 9 && 0 <= lb <= 9);
        assert(digits_value(ra) * 10 + la == digits_value(rb) * 10 + lb);
        assert(la == lb && digits_value(ra) == digits_value(rb)) by (nonlinear_arith)
            requires
                digits_value(ra) * 10 + la == digits_value(rb) * 10 + lb,
                0 <= la <= 9,
                0 <= lb <= 9,
                0 <= digits_value(ra),
                0 <= digits_value(rb),
        ;
        lemma_digit_value_eq(ra, rb);
        assert(a.last() == b.last());
        assert(a =~= ra.push(a.last()));
        assert(b =~= rb.push(b.last()));
    }
}

proof fn lemma_padded_is_folio(t: Seq<char>, number: nat, width: nat)
    requires
        is_padded_number(t, number, width),
    ensures
        t == folio_text(number, width),
{
    law_folio_is_padded_number(number, width);
    let f = folio_text(number, width);
    lemma_digits_value_bound(t);
    lemma_digits_value_bound(f);
    // both read back as `number`; compare their lengths
    if t.len() != f.len() {
        if t.len() < f.len() {
            // f is longer than width and longer than 1, so it starts with a non-zero digit
            assert(f.len() > width && f.len() > 1);
            lemma_pow10_grows(t.len(), (f.len() - 1) as nat);
        } else {
            assert(t.len() > width && t.len() > 1);
            lemma_pow10_grows(f.len(), (t.len() - 1) as nat);
        }
    }
    lemma_digit_value_eq(t, f);
}

/// The file name of a page is the pattern with every `{}` replaced by the
/// page number `index + 1` zero-padded to `width`, the only such text; a
/// pattern that is just `{}` gives that text alone.
pub proof fn law_page_file_name_is_padded_page_number(pattern: Seq<char>, index: nat, width: nat)
    ensures
        page_file_name(pattern, index, width) == filled(pattern, folio_text(index + 1, width)),
        is_padded_number(folio_text(index + 1, width), index + 1, width),
        page_file_name(seq!['{', '}'], index, width) == folio_text(index + 1, width),
{
    law_folio_is_padded_number(index + 1, width);
    let t = folio_text(index + 1, width);
    let p = seq!['{', '}'];
    assert(p.skip(2) =~= Seq::<char>::empty());
    assert(filled(p.skip(2), t) == p.skip(2));
    assert(t + Seq::<char>::empty() =~= t);
}

/// A pattern without a `{}` is used as it is.
pub proof fn law_no_placeholder_keeps_pattern(pattern: Seq<char>, text: Seq<char>)
    requires
        !has_placeholder(pattern),
    ensures
        filled(pattern, text) == pattern,
    decreases pattern.len(),
{
    if pattern.len() >= 2 {
        assert(!placeholder_at(pattern, 0));
        let rest = pattern.skip(1);
        assert forall|i: int| !placeholder_at(rest, i) by {
            if placeholder_at(rest, i) {
                assert(placeholder_at(pattern, i + 1));
            }
        }
        law_no_placeholder_keeps_pattern(rest, text);
        assert(seq![pattern[0]] + rest =~= pattern);
    }
}

proof fn lemma_filled_len(pattern: Seq<char>, text: Seq<char>)
    ensures
        filled(pattern, text).len() == pattern.len() - 2 * placeholder_count(pattern)
            + placeholder_count(pattern) * text.len(),
    decreases pattern.len(),
{
    if pattern.len() >= 2 {
        if pattern[0] == '{' && pattern[1] == '}' {
            lemma_filled_len(pattern.skip(2), text);
            let c = placeholder_count(pattern.skip(2));
            assert(placeholder_count(pattern) == c + 1);
            assert(filled(pattern, text) == text + filled(pattern.skip(2), text));
            assert((c + 1) * text.len() == c * text.len() + text.len()) by (nonlinear_arith);
        } else {
            lemma_filled_len(pattern.skip(1), text);
            assert(placeholder_count(pattern) == placeholder_count(pattern.skip(1)));
            assert(filled(pattern, text) == seq![pattern[0]] + filled(pattern.skip(1), text));
        }
    } else {
        assert(placeholder_count(pattern) == 0);
        assert(0 * text.len() == 0);
    }
}

proof fn lemma_placeholder_counted(pattern: Seq<char>, i: int)
    requires
        placeholder_at(pattern, i),
    ensures
        placeholder_count(pattern) >= 1,
    decreases pattern.len(),
{
    if !(pattern[0] == '{' && pattern[1] == '}') {
        assert(placeholder_at(pattern.skip(1), i - 1));
        lemma_placeholder_counted(pattern.skip(1), i - 1);
    }
}

proof fn lemma_filled_same_len_injective(pattern: Seq<char>, i: int, a: Seq<char>, b: Seq<char>)
    requires
        placeholder_at(pattern, i),
        a.len() == b.len(),
        a != b,
    ensures
        filled(pattern, a) != filled(pattern, b),
    decreases pattern.len(),
{
    if pattern[0] == '{' && pattern[1] == '}' {
        let fa = filled(pattern, a);
        let fb = filled(pattern, b);
        assert(fa.subrange(0, a.len() as int) =~= a);
        assert(fb.subrange(0, b.len() as int) =~= b);
    } else {
        assert(placeholder_at(pattern.skip(1), i - 1));
        lemma_filled_same_len_injective(pattern.skip(1), i - 1, a, b);
        let fa = filled(pattern, a);
        let fb = filled(pattern, b);
        assert(fa.skip(1) =~= filled(pattern.skip(1), a));
        assert(fb.skip(1) =~= filled(pattern.skip(1), b));
    }
}

/// Filling a pattern that holds a `{}` with two different texts gives two
/// different results.
pub proof fn law_filled_injective(pattern: Seq<char>, a: Seq<char>, b: Seq<char>)
    requires
        has_placeholder(pattern),
        a != b,
    ensures
        filled(pattern, a) != filled(pattern, b),
{
    let i = choose|i: int| placeholder_at(pattern, i);
    if a.len() == b.len() {
        lemma_filled_same_len_injective(pattern, i, a, b);
    } else {
        lemma_placeholder_counted(pattern, i);
        lemma_filled_len(pattern, a);
        lemma_filled_len(pattern, b);
        let c = placeholder_count(pattern);
        assert(c >= 1 && a.len() != b.len() ==> c * a.len() != c * b.len()) by (nonlinear_arith);
    }
}

/// When the pattern holds a `{}`, two different pages of a sequence never
/// get the same file name.
pub proof fn law_distinct_pages_distinct_names(pattern: Seq<char>, a: nat, b: nat, width: nat)
    requires
        has_placeholder(pattern),
        a != b,
    ensures
        page_file_name(pattern, a, width) != page_file_name(pattern, b, width),
{
    law_folio_reads_back(a + 1, width);
    law_folio_reads_back(b + 1, width);
    law_filled_injective(pattern, folio_text(a + 1, width), folio_text(b + 1, width));
}

/// When the pattern holds no `{}`, every page of a sequence gets the
/// pattern itself as its file name.
pub proof fn law_without_placeholder_pages_share_the_name(pattern: Seq<char>, index: nat, width: nat)
    requires
        !has_placeholder(pattern),
    ensures
        page_file_name(pattern, index, width) == pattern,
{
    law_no_placeholder_keeps_pattern(pattern, folio_text(index + 1, width));
}

} // verus!
