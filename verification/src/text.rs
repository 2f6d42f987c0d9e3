//! Text building: digits, fixed strings, and the escaping and templating of
//! the HTML report.

use vstd::prelude::*;

verus! {

/// Calls `String::push`: the character is appended.
#[verifier::external_body]
pub(crate) fn push_char(text: &mut String, c: char)
    ensures
        final(text)@ == old(text)@.push(c),
{
    text.push(c);
}

/// The lowercase hexadecimal digit for `d` (and the decimal digit when
/// `d < 10`).
pub open spec fn digit_char(d: nat) -> char {
    if d == 0 { '0' }
    else if d == 1 { '1' }
    else if d == 2 { '2' }
    else if d == 3 { '3' }
    else if d == 4 { '4' }
    else if d == 5 { '5' }
    else if d == 6 { '6' }
    else if d == 7 { '7' }
    else if d == 8 { '8' }
    else if d == 9 { '9' }
    else if d == 10 { 'a' }
    else if d == 11 { 'b' }
    else if d == 12 { 'c' }
    else if d == 13 { 'd' }
    else if d == 14 { 'e' }
    else { 'f' }
}

fn digit(d: u64) -> (c: char)
    requires
        d < 16,
    ensures
        c == digit_char(d as nat),
{
    if d == 0 { '0' }
    else if d == 1 { '1' }
    else if d == 2 { '2' }
    else if d == 3 { '3' }
    else if d == 4 { '4' }
    else if d == 5 { '5' }
    else if d == 6 { '6' }
    else if d == 7 { '7' }
    else if d == 8 { '8' }
    else if d == 9 { '9' }
    else if d == 10 { 'a' }
    else if d == 11 { 'b' }
    else if d == 12 { 'c' }
    else if d == 13 { 'd' }
    else if d == 14 { 'e' }
    else { 'f' }
}

/// The decimal notation of `n`, without leading zeros.
pub open spec fn decimal_chars(n: nat) -> Seq<char>
    decreases n,
{
    if n < 10 {
        seq![digit_char(n)]
    } else {
        decimal_chars(n / 10).push(digit_char(n % 10))
    }
}

/// The last `width` lowercase hexadecimal digits of `n`, zero-padded (for
/// a `u64` and width 16, the whole number).
pub open spec fn hex_chars(n: nat, width: nat) -> Seq<char>
    decreases width,
{
    if width == 0 {
        Seq::empty()
    } else {
        hex_chars(n / 16, (width - 1) as nat).push(digit_char(n % 16))
    }
}

/// Appends the decimal notation of `n`.
pub fn push_decimal(text: &mut String, n: u64)
    ensures
        final(text)@ == old(text)@ + decimal_chars(n as nat),
    decreases n,
{
    if n >= 10 {
        push_decimal(text, n / 10);
    }
    push_char(text, digit(n % 10));
    assert(old(text)@ + decimal_chars(n as nat) =~= if n >= 10 {
        (old(text)@ + decimal_chars((n / 10) as nat)).push(digit_char((n % 10) as nat))
    } else {
        old(text)@.push(digit_char((n % 10) as nat))
    });
}

/// Appends the last `width` hexadecimal digits of `n`, zero-padded.
pub fn push_hex(text: &mut String, n: u64, width: u32)
    ensures
        final(text)@ == old(text)@ + hex_chars(n as nat, width as nat),
    decreases width,
{
    if width == 0 {
        assert(old(text)@ + hex_chars(n as nat, 0) =~= old(text)@);
        return;
    }
    push_hex(text, n / 16, width - 1);
    push_char(text, digit(n % 16));
    assert(old(text)@ + hex_chars(n as nat, width as nat) =~= (old(text)@ + hex_chars(
        (n / 16) as nat,
        (width - 1) as nat,
    )).push(digit_char((n % 16) as nat)));
}

/// The decimal notation of `n` as a new string.
pub fn decimal_string(n: u64) -> (text: String)
    ensures
        text@ == decimal_chars(n as nat),
{
    let mut text = String::new();
    push_decimal(&mut text, n);
    assert(Seq::<char>::empty() + decimal_chars(n as nat) =~= decimal_chars(n as nat));
    text
}


/// The characters of a string, one by one.
pub fn chars_of(text: &str) -> (chars: Vec<char>)
    ensures
        chars@ == text@,
{
    let mut chars: Vec<char> = Vec::new();
    for c in it: text.chars()
        invariant
            it.seq() == text@,
            chars@ == text@.take(it.index() as int),
    {
        chars.push(c);
        assert(text@.take(it.index() + 1) == text@.take(it.index() as int).push(c));
    }
    assert(text@.take(text@.len() as int) == text@);
    chars
}

/// Appends characters to a string.
pub fn push_chars(text: &mut String, chars: &[char])
    ensures
        final(text)@ == old(text)@ + chars@,
{
    let mut i: usize = 0;
    while i < chars.len()
        invariant
            0 <= i <= chars@.len(),
            text@ == old(text)@ + chars@.take(i as int),
        decreases chars@.len() - i,
    {
        push_char(text, chars[i]);
        assert(chars@.take(i + 1) == chars@.take(i as int).push(chars@[i as int]));
        i = i + 1;
    }
    assert(chars@.take(chars@.len() as int) == chars@);
}

/// How one character of the report data is written inside the page's
/// `<script>` element: `<`, `>`, `&` and the line and paragraph separators
/// as JSON `\u` escapes, everything else as is.
pub open spec fn escaped_char(c: char) -> Seq<char> {
    if c == '<' {
        "\\u003c"@
    } else if c == '>' {
        "\\u003e"@
    } else if c == '&' {
        "\\u0026"@
    } else if c == '\u{2028}' {
        "\\u2028"@
    } else if c == '\u{2029}' {
        "\\u2029"@
    } else {
        seq![c]
    }
}

/// The report data with every character escaped (see `escaped_char`).
pub open spec fn escaped_report(text: Seq<char>) -> Seq<char>
    decreases text.len(),
{
    if text.len() == 0 {
        Seq::empty()
    } else {
        escaped_report(text.drop_last()) + escaped_char(text.last())
    }
}

/// Makes the JSON text of a report safe to embed in the page: the five
/// characters that could end the `<script>` element or break the script
/// become `\u` escapes, which JSON reads back as the same characters.
pub fn encode_report_data(report_json: &str) -> (encoded: String)
    ensures
        encoded@ == escaped_report(report_json@),
{
    let mut encoded = String::new();
    for c in it: report_json.chars()
        invariant
            it.seq() == report_json@,
            encoded@ == escaped_report(report_json@.take(it.index() as int)),
    {
        if c == '<' {
            encoded.append("\\u003c");
        } else if c == '>' {
            encoded.append("\\u003e");
        } else if c == '&' {
            encoded.append("\\u0026");
        } else if c == '\u{2028}' {
            encoded.append("\\u2028");
        } else if c == '\u{2029}' {
            encoded.append("\\u2029");
        } else {
            push_char(&mut encoded, c);
        }
        assert(report_json@.take(it.index() + 1).drop_last() == report_json@.take(it.index() as int));
        assert(report_json@.take(it.index() + 1).last() == c);
    }
    assert(report_json@.take(report_json@.len() as int) == report_json@);
    encoded
}

/// `text` with every occurrence of `pattern`, found left to right without
/// overlap, replaced by `replacement` (as `str::replace` does for a
/// non-empty pattern).
pub open spec fn replace_all(text: Seq<char>, pattern: Seq<char>, replacement: Seq<char>) -> Seq<char>
    decreases text.len(),
{
    if pattern.len() == 0 || text.len() < pattern.len() {
        text
    } else if text.take(pattern.len() as int) == pattern {
        replacement + replace_all(text.skip(pattern.len() as int), pattern, replacement)
    } else {
        seq![text[0]] + replace_all(text.skip(1), pattern, replacement)
    }
}

/// Whether `pattern` occurs in `text` at `at`.
fn matches_at(text: &[char], at: usize, pattern: &[char]) -> (found: bool)
    requires
        at + pattern@.len() <= text@.len(),
    ensures
        found == (text@.subrange(at as int, at + pattern@.len()) == pattern@),
{
    let len = text.len();
    let mut j: usize = 0;
    while j < pattern.len()
        invariant
            0 <= j <= pattern@.len(),
            len == text@.len(),
            at + pattern@.len() <= text@.len(),
            forall|k: int| 0 <= k < j ==> text@[at + k] == pattern@[k],
        decreases pattern@.len() - j,
    {
        if text[at + j] != pattern[j] {
            assert(text@.subrange(at as int, at + pattern@.len())[j as int] != pattern@[j as int]);
            return false;
        }
        j = j + 1;
    }
    assert(text@.subrange(at as int, at + pattern@.len()) =~= pattern@);
    true
}

/// Replaces every occurrence of a non-empty pattern (see `replace_all`).
pub fn replace_all_chars(text: &[char], pattern: &[char], replacement: &[char]) -> (replaced: String)
    requires
        pattern@.len() > 0,
    ensures
        replaced@ == replace_all(text@, pattern@, replacement@),
{
    let n = text.len();
    let m = pattern.len();
    let mut replaced = String::new();
    let mut i: usize = 0;
    assert(text@.skip(0) == text@);
    while i < n
        invariant
            n == text@.len(),
            m == pattern@.len(),
            m > 0,
            0 <= i <= n,
            replaced@ + replace_all(text@.skip(i as int), pattern@, replacement@) == replace_all(text@, pattern@, replacement@),
        decreases n - i,
    {
        let ghost rest = text@.skip(i as int);
        let ghost before = replaced@;
        if n - i < m {
            let mut j: usize = i;
            while j < n
                invariant
                    i <= j <= n,
                    n == text@.len(),
                    replaced@ == before + text@.subrange(i as int, j as int),
                decreases n - j,
            {
                push_char(&mut replaced, text[j]);
                assert(text@.subrange(i as int, j + 1) == text@.subrange(i as int, j as int).push(text@[j as int]));
                j = j + 1;
            }
            assert(text@.subrange(i as int, n as int) =~= rest);
            assert(text@.skip(n as int) =~= Seq::<char>::empty());
            i = n;
        } else if matches_at(text, i, pattern) {
            assert(rest.take(m as int) =~= text@.subrange(i as int, i + m));
            assert(rest.skip(m as int) =~= text@.skip(i + m));
            push_chars(&mut replaced, replacement);
            i = i + m;
        } else {
            assert(rest.take(m as int) =~= text@.subrange(i as int, i + m));
            assert(rest.skip(1) =~= text@.skip(i + 1));
            push_char(&mut replaced, text[i]);
            assert(replaced@ =~= before + seq![rest[0]]);
            i = i + 1;
        }
    }
    assert(text@.skip(n as int) =~= Seq::<char>::empty());
    replaced
}

/// The placeholder in the page template where the report data goes.
pub const REPORT_PLACEHOLDER: &'static str = "__REPORT_JSON__";

/// The page: the template with the escaped report data in place of every
/// placeholder.
pub fn render_html_report(template: &str, report_json: &str) -> (page: String)
    ensures
        page@ == replace_all(template@, REPORT_PLACEHOLDER@, escaped_report(report_json@)),
{
    let data = encode_report_data(report_json);
    let template_chars = chars_of(template);
    let pattern = chars_of(REPORT_PLACEHOLDER);
    let data_chars = chars_of(data.as_str());
    proof {
        reveal_strlit("__REPORT_JSON__");
    }
    replace_all_chars(template_chars.as_slice(), pattern.as_slice(), data_chars.as_slice())
}


/// Escaped report data holds no `<`, `>` or `&`, so it cannot end the
/// `<script>` element that carries it.
pub proof fn lemma_escaped_report_has_no_markup(text: Seq<char>)
    ensures
        forall|i: int|
            0 <= i < escaped_report(text).len() ==> #[trigger] escaped_report(text)[i] != '<'
                && escaped_report(text)[i] != '>' && escaped_report(text)[i] != '&',
    decreases text.len(),
{
    if text.len() > 0 {
        lemma_escaped_report_has_no_markup(text.drop_last());
        reveal_strlit("\\u003c");
        reveal_strlit("\\u003e");
        reveal_strlit("\\u0026");
        reveal_strlit("\\u2028");
        reveal_strlit("\\u2029");
        let front = escaped_report(text.drop_last());
        let tail = escaped_char(text.last());
        assert forall|i: int| 0 <= i < tail.len() implies tail[i] != '<' && tail[i] != '>' && tail[i] != '&' by {
        }
        let all = escaped_report(text);
        assert(all == front + tail);
        assert forall|i: int| 0 <= i < all.len() implies #[trigger] all[i] != '<' && all[i] != '>' && all[i] != '&' by {
            if i < front.len() {
                assert(all[i] == front[i]);
            } else {
                assert(all[i] == tail[i - front.len()]);
            }
        }
    }
}

} // verus!
