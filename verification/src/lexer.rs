//! Character-level pieces of the script language: whitespace, names, quoted strings, numbers.
use vstd::prelude::*;
use crate::text::{chars_of, push_all, slice_chars};

verus! {

/// Unicode white space, as `char::is_whitespace` defines it.
pub open spec fn is_ws(c: char) -> bool {
    c == ' ' || c == '\t' || c == '\n' || c == '\x0B' || c == '\x0C' || c == '\r' || c == '\u{85}'
        || c == '\u{A0}' || c == '\u{1680}' || ('\u{2000}' <= c && c <= '\u{200A}') || c == '\u{2028}'
        || c == '\u{2029}' || c == '\u{202F}' || c == '\u{205F}' || c == '\u{3000}'
}

/// Whether a character is white space.
pub fn is_whitespace(c: char) -> (r: bool)
    ensures
        r == is_ws(c),
{
    c == ' ' || c == '\t' || c == '\n' || c == '\x0B' || c == '\x0C' || c == '\r' || c == '\u{85}'
        || c == '\u{A0}' || c == '\u{1680}' || ('\u{2000}' <= c && c <= '\u{200A}') || c == '\u{2028}'
        || c == '\u{2029}' || c == '\u{202F}' || c == '\u{205F}' || c == '\u{3000}'
}

/// Number of leading white space characters.
pub open spec fn ws_prefix_len(s: Seq<char>) -> nat
    decreases s.len(),
{
    if s.len() > 0 && is_ws(s[0]) { 1 + ws_prefix_len(s.drop_first()) } else { 0 }
}

/// Number of trailing white space characters.
pub open spec fn ws_suffix_len(s: Seq<char>) -> nat
    decreases s.len(),
{
    if s.len() > 0 && is_ws(s.last()) { 1 + ws_suffix_len(s.drop_last()) } else { 0 }
}

/// `s` without leading white space.
pub open spec fn trim_start(s: Seq<char>) -> Seq<char> {
    s.skip(ws_prefix_len(s) as int)
}

/// `s` without trailing white space.
pub open spec fn trim_end(s: Seq<char>) -> Seq<char> {
    s.take(s.len() - ws_suffix_len(s))
}

/// `s` without leading and trailing white space.
pub open spec fn trim(s: Seq<char>) -> Seq<char> {
    trim_end(trim_start(s))
}

proof fn lemma_ws_prefix(s: Seq<char>)
    ensures
        ws_prefix_len(s) <= s.len(),
        forall|i: int| 0 <= i < ws_prefix_len(s) ==> is_ws(#[trigger] s[i]),
        ws_prefix_len(s) < s.len() ==> !is_ws(s[ws_prefix_len(s) as int]),
    decreases s.len(),
{
    if s.len() > 0 && is_ws(s[0]) {
        lemma_ws_prefix(s.drop_first());
        assert forall|i: int| 0 <= i < ws_prefix_len(s) implies is_ws(#[trigger] s[i]) by {
            if i > 0 {
                assert(s[i] == s.drop_first()[i - 1]);
            }
        }
    }
}

proof fn lemma_ws_suffix(s: Seq<char>)
    ensures
        ws_suffix_len(s) <= s.len(),
        forall|i: int| s.len() - ws_suffix_len(s) <= i < s.len() ==> is_ws(#[trigger] s[i]),
        ws_suffix_len(s) < s.len() ==> !is_ws(s[s.len() - ws_suffix_len(s) - 1]),
    decreases s.len(),
{
    if s.len() > 0 && is_ws(s.last()) {
        lemma_ws_suffix(s.drop_last());
        assert forall|i: int| s.len() - ws_suffix_len(s) <= i < s.len() implies is_ws(#[trigger] s[i]) by {
            if i < s.len() - 1 {
                assert(s[i] == s.drop_last()[i]);
            }
        }
    }
}

/// Index of the first character that is not white space (the length when there is none).
pub fn first_non_ws(s: &[char]) -> (r: usize)
    ensures
        r == ws_prefix_len(s@),
{
    let mut i: usize = 0;
    assert(s@.skip(0) =~= s@);
    while i < s.len() && is_whitespace(s[i])
        invariant
            i <= s@.len(),
            ws_prefix_len(s@) == i + ws_prefix_len(s@.skip(i as int)),
        decreases s@.len() - i,
    {
        assert(s@.skip(i as int).drop_first() =~= s@.skip(i + 1));
        i = i + 1;
    }
    proof {
        if i < s@.len() {
            assert(s@.skip(i as int)[0] == s@[i as int]);
        }
    }
    i
}

/// One past the last character that is not white space (0 when there is none).
pub fn end_non_ws(s: &[char]) -> (r: usize)
    ensures
        r == s@.len() - ws_suffix_len(s@),
{
    proof {
        lemma_ws_suffix(s@);
    }
    let mut j: usize = s.len();
    assert(s@.take(j as int) =~= s@);
    while j > 0 && is_whitespace(s[j - 1])
        invariant
            j <= s@.len(),
            ws_suffix_len(s@) == (s@.len() - j) + ws_suffix_len(s@.take(j as int)),
        decreases j,
    {
        assert(s@.take(j as int).drop_last() =~= s@.take(j - 1));
        j = j - 1;
    }
    j
}

/// Trims white space on both ends.
pub fn trim_chars(s: &[char]) -> (r: Vec<char>)
    ensures
        r@ == trim(s@),
{
    proof {
        lemma_ws_prefix(s@);
    }
    let a = first_non_ws(s);
    let rest = slice_chars(s, a, s.len());
    assert(rest@ =~= trim_start(s@));
    let b = end_non_ws(rest.as_slice());
    let r = slice_chars(rest.as_slice(), 0, b);
    assert(r@ =~= trim(s@));
    r
}

/// Trims trailing white space.
pub fn trim_end_chars(s: &[char]) -> (r: Vec<char>)
    ensures
        r@ == trim_end(s@),
{
    proof {
        lemma_ws_suffix(s@);
    }
    let b = end_non_ws(s);
    let r = slice_chars(s, 0, b);
    assert(r@ =~= trim_end(s@));
    r
}

/// Trims leading white space.
pub fn trim_start_chars(s: &[char]) -> (r: Vec<char>)
    ensures
        r@ == trim_start(s@),
{
    proof {
        lemma_ws_prefix(s@);
    }
    let a = first_non_ws(s);
    let r = slice_chars(s, a, s.len());
    assert(r@ =~= trim_start(s@));
    r
}

// ---------------------------------------------------------------------------
// Searching.
// ---------------------------------------------------------------------------

/// Whether `pat` occurs in `s` at index `i`.
pub open spec fn occurs_at(s: Seq<char>, pat: Seq<char>, i: int) -> bool {
    0 <= i && i + pat.len() <= s.len() && s.subrange(i, i + pat.len()) == pat
}

/// Index of the first occurrence of `pat` in `s` at `i` or after.
pub open spec fn find_first_from(s: Seq<char>, pat: Seq<char>, i: int) -> Option<int>
    decreases s.len() + 1 - i,
{
    if i < 0 || i > s.len() {
        None
    } else if occurs_at(s, pat, i) {
        Some(i)
    } else {
        find_first_from(s, pat, i + 1)
    }
}

/// Index of the first occurrence of `pat` in `s`.
pub open spec fn find_first(s: Seq<char>, pat: Seq<char>) -> Option<int> {
    find_first_from(s, pat, 0)
}

/// Index of the last occurrence of `pat` in `s` at `i` or before.
pub open spec fn find_last_upto(s: Seq<char>, pat: Seq<char>, i: int) -> Option<int>
    decreases i + 1,
{
    if i < 0 {
        None
    } else if occurs_at(s, pat, i) {
        Some(i)
    } else {
        find_last_upto(s, pat, i - 1)
    }
}

/// Index of the last occurrence of `pat` in `s`.
pub open spec fn find_last(s: Seq<char>, pat: Seq<char>) -> Option<int> {
    find_last_upto(s, pat, s.len() as int)
}

fn occurs_at_exec(s: &[char], pat: &[char], i: usize) -> (r: bool)
    ensures
        r == occurs_at(s@, pat@, i as int),
{
    let n = s.len();
    if pat.len() > n || i > n - pat.len() {
        return false;
    }
    let mut k: usize = 0;
    while k < pat.len()
        invariant
            n == s@.len(),
            k <= pat@.len(),
            i + pat@.len() <= s@.len(),
            forall|j: int| 0 <= j < k ==> s@[i + j] == pat@[j],
        decreases pat@.len() - k,
    {
        if s[i + k] != pat[k] {
            assert(s@.subrange(i as int, i + pat@.len())[k as int] != pat@[k as int]);
            return false;
        }
        k = k + 1;
    }
    assert(s@.subrange(i as int, i + pat@.len()) =~= pat@);
    true
}

/// First occurrence of a pattern.
pub fn find_first_exec(s: &[char], pat: &[char]) -> (r: Option<usize>)
    ensures
        match r {
            Some(i) => find_first(s@, pat@) == Some(i as int) && occurs_at(s@, pat@, i as int),
            None => find_first(s@, pat@) is None,
        },
{
    let n = s.len();
    let mut i: usize = 0;
    while i < n
        invariant
            n == s@.len(),
            i <= n,
            find_first(s@, pat@) == find_first_from(s@, pat@, i as int),
        decreases n - i,
    {
        if occurs_at_exec(s, pat, i) {
            return Some(i);
        }
        i = i + 1;
    }
    if occurs_at_exec(s, pat, n) {
        return Some(n);
    }
    assert(find_first_from(s@, pat@, n + 1) is None);
    None
}

/// Last occurrence of a pattern.
pub fn find_last_exec(s: &[char], pat: &[char]) -> (r: Option<usize>)
    ensures
        match r {
            Some(i) => find_last(s@, pat@) == Some(i as int) && occurs_at(s@, pat@, i as int),
            None => find_last(s@, pat@) is None,
        },
{
    let n = s.len();
    let mut i: usize = n;
    while i > 0
        invariant
            n == s@.len(),
            i <= n,
            find_last(s@, pat@) == find_last_upto(s@, pat@, i as int),
        decreases i,
    {
        if occurs_at_exec(s, pat, i) {
            return Some(i);
        }
        i = i - 1;
    }
    if occurs_at_exec(s, pat, 0) {
        return Some(0);
    }
    assert(find_last_upto(s@, pat@, -1) is None);
    None
}

// ---------------------------------------------------------------------------
// Blank text, equality, names.
// ---------------------------------------------------------------------------

/// Whether `s` holds nothing but white space.
pub open spec fn blank(s: Seq<char>) -> bool {
    forall|i: int| 0 <= i < s.len() ==> is_ws(#[trigger] s[i])
}

proof fn lemma_blank_prefix(s: Seq<char>)
    ensures
        blank(s) <==> ws_prefix_len(s) == s.len(),
        blank(s) <==> trim(s).len() == 0,
{
    lemma_ws_prefix(s);
    let t = trim_start(s);
    lemma_ws_suffix(t);
    if ws_prefix_len(s) < s.len() {
        assert(!is_ws(s[ws_prefix_len(s) as int]));
        assert(t[0] == s[ws_prefix_len(s) as int]);
        assert(trim(s).len() > 0) by {
            if ws_suffix_len(t) == t.len() {
                assert(is_ws(t[0]));
            }
        }
    }
}

/// Whether a list of characters is blank.
pub fn is_blank(s: &[char]) -> (r: bool)
    ensures
        r == blank(s@),
        r == (trim(s@).len() == 0),
{
    proof {
        lemma_blank_prefix(s@);
    }
    first_non_ws(s) == s.len()
}

/// Whether two lists of characters are equal.
pub fn same_chars(a: &[char], b: &[char]) -> (r: bool)
    ensures
        r == (a@ == b@),
{
    if a.len() != b.len() {
        return false;
    }
    let mut i: usize = 0;
    while i < a.len()
        invariant
            a@.len() == b@.len(),
            i <= a@.len(),
            forall|j: int| 0 <= j < i ==> a@[j] == b@[j],
        decreases a@.len() - i,
    {
        if a[i] != b[i] {
            return false;
        }
        i = i + 1;
    }
    assert(a@ =~= b@);
    true
}

/// Whether `text` equals the string literal `lit`.
pub fn is_word(text: &[char], lit: &str) -> (r: bool)
    ensures
        r == (text@ == lit@),
{
    let w = crate::text::chars_of(lit);
    same_chars(text, w.as_slice())
}

/// Characters that may open a name.
pub open spec fn is_name_start(c: char) -> bool {
    c == '_' || ('a' <= c && c <= 'z') || ('A' <= c && c <= 'Z')
}

/// Characters that may continue a name.
pub open spec fn is_name_char(c: char) -> bool {
    is_name_start(c) || ('0' <= c && c <= '9')
}

/// A name is a letter or `_`, followed by letters, digits and `_`.
/// The error is the message the script author sees.
pub open spec fn name_check(s: Seq<char>) -> Result<Seq<char>, Seq<char>> {
    if s.len() == 0 {
        Err("expected name"@)
    } else if !is_name_start(s[0]) {
        Err("name must start with a letter or '_'"@)
    } else if exists|i: int| 1 <= i < s.len() && !is_name_char(#[trigger] s[i]) {
        Err("name contains invalid characters"@)
    } else {
        Ok(s)
    }
}

/// Checks a name; the error is a message.
pub fn check_name(s: &[char]) -> (r: Result<Vec<char>, &'static str>)
    ensures
        match r {
            Ok(v) => name_check(s@) == Ok::<Seq<char>, Seq<char>>(v@),
            Err(m) => name_check(s@) == Err::<Seq<char>, Seq<char>>(m@),
        },
{
    if s.len() == 0 {
        return Err("expected name");
    }
    let c = s[0];
    if !(c == '_' || ('a' <= c && c <= 'z') || ('A' <= c && c <= 'Z')) {
        return Err("name must start with a letter or '_'");
    }
    let mut i: usize = 1;
    while i < s.len()
        invariant
            1 <= i <= s@.len(),
            is_name_start(s@[0]),
            forall|j: int| 1 <= j < i ==> is_name_char(#[trigger] s@[j]),
        decreases s@.len() - i,
    {
        let d = s[i];
        if !(d == '_' || ('a' <= d && d <= 'z') || ('A' <= d && d <= 'Z') || ('0' <= d && d <= '9')) {
            assert(!is_name_char(s@[i as int]));
            return Err("name contains invalid characters");
        }
        i = i + 1;
    }
    let v = slice_chars(s, 0, s.len());
    assert(v@ =~= s@);
    Ok(v)
}

// ---------------------------------------------------------------------------
// Quoted strings.
// ---------------------------------------------------------------------------

/// The character an escape `\c` stands for.
pub open spec fn unescape(c: char) -> char {
    if c == 'n' { '\n' } else { c }
}

/// Reads a quoted string from index `i` on; `out` holds what was read so far.
pub open spec fn quoted_from(s: Seq<char>, i: int, escaped: bool, out: Seq<char>) -> Result<Seq<char>, Seq<char>>
    decreases s.len() - i,
{
    if i < 0 || i >= s.len() {
        Err("unterminated string"@)
    } else if escaped {
        quoted_from(s, i + 1, false, out.push(unescape(s[i])))
    } else if s[i] == '\\' {
        quoted_from(s, i + 1, true, out)
    } else if s[i] == '"' {
        if blank(s.skip(i + 1)) {
            Ok(out)
        } else {
            Err("unexpected text after string"@)
        }
    } else {
        quoted_from(s, i + 1, false, out.push(s[i]))
    }
}

/// A double-quoted string with the escapes `\n`, `\"` and `\\` (a backslash before any
/// other character stands for that character), followed by nothing but white space.
pub open spec fn quoted(s: Seq<char>) -> Result<Seq<char>, Seq<char>> {
    if s.len() == 0 || s[0] != '"' {
        Err("expected quoted string"@)
    } else {
        quoted_from(s, 1, false, Seq::empty())
    }
}

/// Reads a quoted string.
pub fn parse_quoted(s: &[char]) -> (r: Result<Vec<char>, &'static str>)
    ensures
        match r {
            Ok(v) => quoted(s@) == Ok::<Seq<char>, Seq<char>>(v@),
            Err(m) => quoted(s@) == Err::<Seq<char>, Seq<char>>(m@),
        },
{
    if s.len() == 0 || s[0] != '"' {
        return Err("expected quoted string");
    }
    let mut out: Vec<char> = Vec::new();
    let mut escaped = false;
    let mut i: usize = 1;
    while i < s.len()
        invariant
            1 <= i <= s@.len(),
            quoted(s@) == quoted_from(s@, i as int, escaped, out@),
        decreases s@.len() - i,
    {
        let c = s[i];
        if escaped {
            let u = if c == 'n' { '\n' } else { c };
            out.push(u);
            escaped = false;
        } else if c == '\\' {
            escaped = true;
        } else if c == '"' {
            let rest = slice_chars(s, i + 1, s.len());
            assert(rest@ =~= s@.skip(i + 1));
            if is_blank(rest.as_slice()) {
                return Ok(out);
            } else {
                return Err("unexpected text after string");
            }
        } else {
            out.push(c);
        }
        i = i + 1;
    }
    Err("unterminated string")
}

// ---------------------------------------------------------------------------
// Comments, indentation, words.
// ---------------------------------------------------------------------------

/// Where a `#` comment starts in `s`, scanning from `i`: a `#` outside double quotes, where a
/// backslash inside quotes escapes the next character. `s.len()` when there is none.
pub open spec fn comment_cut(s: Seq<char>, i: int, in_string: bool, escaped: bool) -> int
    decreases s.len() - i,
{
    if i < 0 || i >= s.len() {
        s.len() as int
    } else if escaped {
        comment_cut(s, i + 1, in_string, false)
    } else if s[i] == '\\' && in_string {
        comment_cut(s, i + 1, in_string, true)
    } else if s[i] == '"' {
        comment_cut(s, i + 1, !in_string, false)
    } else if s[i] == '#' && !in_string {
        i
    } else {
        comment_cut(s, i + 1, in_string, false)
    }
}

proof fn lemma_comment_cut(s: Seq<char>, i: int, in_string: bool, escaped: bool)
    requires
        0 <= i <= s.len(),
    ensures
        i <= comment_cut(s, i, in_string, escaped) <= s.len(),
    decreases s.len() - i,
{
    if i < s.len() {
        lemma_comment_cut(s, i + 1, in_string, false);
        lemma_comment_cut(s, i + 1, in_string, true);
        lemma_comment_cut(s, i + 1, !in_string, false);
    }
}

/// A line without its comment.
pub open spec fn without_comment(s: Seq<char>) -> Seq<char> {
    s.take(comment_cut(s, 0, false, false))
}

/// Removes a trailing `#` comment from a line.
pub fn strip_comment(s: &[char]) -> (r: Vec<char>)
    ensures
        r@ == without_comment(s@),
        r@.len() <= s@.len(),
{
    proof {
        lemma_comment_cut(s@, 0, false, false);
    }
    let mut in_string = false;
    let mut escaped = false;
    let mut i: usize = 0;
    while i < s.len()
        invariant
            i <= s@.len(),
            comment_cut(s@, 0, false, false) == comment_cut(s@, i as int, in_string, escaped),
        decreases s@.len() - i,
    {
        let c = s[i];
        if escaped {
            escaped = false;
        } else if c == '\\' && in_string {
            escaped = true;
        } else if c == '"' {
            in_string = !in_string;
        } else if c == '#' && !in_string {
            return slice_chars(s, 0, i);
        }
        i = i + 1;
    }
    let r = slice_chars(s, 0, s.len());
    assert(r@ =~= s@.take(s@.len() as int));
    r
}

/// Number of leading spaces (only `' '` counts).
pub open spec fn space_prefix_len(s: Seq<char>) -> nat
    decreases s.len(),
{
    if s.len() > 0 && s[0] == ' ' { 1 + space_prefix_len(s.drop_first()) } else { 0 }
}

proof fn lemma_space_prefix(s: Seq<char>)
    ensures
        space_prefix_len(s) <= s.len(),
    decreases s.len(),
{
    if s.len() > 0 && s[0] == ' ' {
        lemma_space_prefix(s.drop_first());
    }
}

/// Counts leading spaces.
pub fn count_spaces(s: &[char]) -> (r: usize)
    ensures
        r == space_prefix_len(s@),
        r <= s@.len(),
{
    let mut i: usize = 0;
    assert(s@.skip(0) =~= s@);
    while i < s.len() && s[i] == ' '
        invariant
            i <= s@.len(),
            space_prefix_len(s@) == i + space_prefix_len(s@.skip(i as int)),
        decreases s@.len() - i,
    {
        assert(s@.skip(i as int).drop_first() =~= s@.skip(i + 1));
        i = i + 1;
    }
    proof {
        if i < s@.len() {
            assert(s@.skip(i as int)[0] == s@[i as int]);
        }
    }
    i
}

/// The words of `s` from `i` on, where `cur` is the word being read: maximal runs of
/// characters that are not white space.
pub open spec fn words_from(s: Seq<char>, i: int, cur: Seq<char>) -> Seq<Seq<char>>
    decreases s.len() - i,
{
    if i < 0 || i >= s.len() {
        if cur.len() > 0 { seq![cur] } else { Seq::empty() }
    } else if is_ws(s[i]) {
        if cur.len() > 0 {
            seq![cur] + words_from(s, i + 1, Seq::empty())
        } else {
            words_from(s, i + 1, Seq::empty())
        }
    } else {
        words_from(s, i + 1, cur.push(s[i]))
    }
}

/// The words of `s`, as `str::split_whitespace` gives them.
pub open spec fn words(s: Seq<char>) -> Seq<Seq<char>> {
    words_from(s, 0, Seq::empty())
}

/// Splits at white space, dropping empty pieces.
pub fn split_words(s: &[char]) -> (r: Vec<Vec<char>>)
    ensures
        crate::text::seq_view(r@) == words(s@),
{
    let mut out: Vec<Vec<char>> = Vec::new();
    let mut cur: Vec<char> = Vec::new();
    let mut i: usize = 0;
    while i < s.len()
        invariant
            i <= s@.len(),
            words(s@) == crate::text::seq_view(out@) + words_from(s@, i as int, cur@),
        decreases s@.len() - i,
    {
        let ghost before = crate::text::seq_view(out@);
        let ghost cur0 = cur@;
        let c = s[i];
        if is_whitespace(c) {
            if cur.len() > 0 {
                assert(words_from(s@, i as int, cur0) == seq![cur0] + words_from(s@, i + 1, Seq::empty()));
                let w = cur;
                cur = Vec::new();
                out.push(w);
                assert(crate::text::seq_view(out@) =~= before.push(w@));
                assert(before + (seq![w@] + words_from(s@, i + 1, Seq::empty())) =~= before.push(w@)
                    + words_from(s@, i + 1, Seq::empty()));
            } else {
                assert(words_from(s@, i as int, cur0) == words_from(s@, i + 1, Seq::empty()));
                assert(cur@ =~= Seq::<char>::empty());
            }
        } else {
            cur.push(c);
            assert(words_from(s@, i as int, cur0) == words_from(s@, i + 1, cur@));
        }
        i = i + 1;
    }
    if cur.len() > 0 {
        let ghost before = crate::text::seq_view(out@);
        out.push(cur);
        assert(crate::text::seq_view(out@) =~= before + seq![cur@]);
    } else {
        assert(crate::text::seq_view(out@) + Seq::<Seq<char>>::empty() =~= crate::text::seq_view(out@));
    }
    out
}

// ---------------------------------------------------------------------------
// Numbers.
// ---------------------------------------------------------------------------

/// ASCII decimal digits.
pub open spec fn is_digit(c: char) -> bool {
    '0' <= c && c <= '9'
}

/// The value of a decimal digit.
pub open spec fn digit_value(c: char) -> int {
    (c as int) - ('0' as int)
}

/// Whether every character is a decimal digit.
pub open spec fn all_digits(s: Seq<char>) -> bool {
    forall|i: int| 0 <= i < s.len() ==> is_digit(#[trigger] s[i])
}

/// The value of a run of decimal digits.
pub open spec fn digits_value(s: Seq<char>) -> int
    decreases s.len(),
{
    if s.len() == 0 {
        0
    } else {
        digits_value(s.drop_last()) * 10 + digit_value(s.last())
    }
}

/// `v`, or `c` when `v` is not below it.
pub open spec fn capped(v: int, c: int) -> int {
    if v < c { v } else { c }
}

proof fn lemma_digits_nonneg(s: Seq<char>)
    requires
        all_digits(s),
    ensures
        digits_value(s) >= 0,
    decreases s.len(),
{
    if s.len() > 0 {
        assert(all_digits(s.drop_last())) by {
            assert forall|i: int| 0 <= i < s.drop_last().len() implies is_digit(#[trigger] s.drop_last()[i]) by {
                assert(s.drop_last()[i] == s[i]);
            }
        }
        lemma_digits_nonneg(s.drop_last());
        assert(is_digit(s[s.len() - 1]));
    }
}

/// Reads a run of decimal digits, stopping the count at `cap`: the result is the value,
/// or `cap` when the value is not below it.
pub fn read_digits(s: &[char], cap: u64) -> (r: u64)
    requires
        all_digits(s@),
    ensures
        r == capped(digits_value(s@), cap as int),
{
    let mut acc: u128 = 0;
    let mut i: usize = 0;
    assert(s@.take(0) =~= Seq::<char>::empty());
    while i < s.len()
        invariant
            i <= s@.len(),
            all_digits(s@),
            acc <= cap,
            acc == capped(digits_value(s@.take(i as int)), cap as int),
        decreases s@.len() - i,
    {
        let c = s[i];
        assert(is_digit(s@[i as int]));
        let d = (c as u32 - '0' as u32) as u128;
        assert(s@.take(i + 1).drop_last() =~= s@.take(i as int));
        proof {
            assert(all_digits(s@.take(i as int))) by {
                assert forall|j: int| 0 <= j < s@.take(i as int).len() implies is_digit(#[trigger] s@.take(i as int)[j]) by {
                    assert(s@.take(i as int)[j] == s@[j]);
                }
            }
            lemma_digits_nonneg(s@.take(i as int));
        }
        let next = acc * 10 + d;
        acc = if next < cap as u128 { next } else { cap as u128 };
        i = i + 1;
    }
    assert(s@.take(s@.len() as int) =~= s@);
    acc as u64
}

/// Exponents at least this large make any duration with a nonzero digit too long for
/// `u32` milliseconds, and any negative one round to zero.
pub const EXPONENT_CAP: u128 = 0x40_0000_0000_0000_0000;

/// Reads the digits of an exponent, stopping the count at `EXPONENT_CAP`.
fn read_exponent(s: &[char]) -> (r: u128)
    requires
        all_digits(s@),
    ensures
        r == capped(digits_value(s@), EXPONENT_CAP as int),
{
    let cap = EXPONENT_CAP;
    let mut acc: u128 = 0;
    let mut i: usize = 0;
    assert(s@.take(0) =~= Seq::<char>::empty());
    while i < s.len()
        invariant
            i <= s@.len(),
            all_digits(s@),
            cap == EXPONENT_CAP,
            acc <= cap,
            acc == capped(digits_value(s@.take(i as int)), cap as int),
        decreases s@.len() - i,
    {
        let c = s[i];
        assert(is_digit(s@[i as int]));
        let d = (c as u32 - '0' as u32) as u128;
        assert(s@.take(i + 1).drop_last() =~= s@.take(i as int));
        proof {
            assert(all_digits(s@.take(i as int))) by {
                assert forall|j: int| 0 <= j < s@.take(i as int).len() implies is_digit(#[trigger] s@.take(i as int)[j]) by {
                    assert(s@.take(i as int)[j] == s@[j]);
                }
            }
            lemma_digits_nonneg(s@.take(i as int));
        }
        let next = acc * 10 + d;
        acc = if next < cap { next } else { cap };
        i = i + 1;
    }
    assert(s@.take(s@.len() as int) =~= s@);
    acc
}

/// Whether a list of characters is all decimal digits.
pub fn only_digits(s: &[char]) -> (r: bool)
    ensures
        r == all_digits(s@),
{
    let mut i: usize = 0;
    while i < s.len()
        invariant
            i <= s@.len(),
            forall|j: int| 0 <= j < i ==> is_digit(#[trigger] s@[j]),
        decreases s@.len() - i,
    {
        if !('0' <= s[i] && s[i] <= '9') {
            assert(!is_digit(s@[i as int]));
            return false;
        }
        i = i + 1;
    }
    true
}

/// An optional leading sign: whether it is `-`, and the rest.
pub open spec fn sign_split(s: Seq<char>) -> (bool, Seq<char>) {
    if s.len() > 0 && s[0] == '-' {
        (true, s.drop_first())
    } else if s.len() > 0 && s[0] == '+' {
        (false, s.drop_first())
    } else {
        (false, s)
    }
}

/// A signed 64-bit integer literal, as `str::parse::<i64>` reads it: an optional sign and
/// at least one decimal digit, within range.
pub open spec fn int_literal(s: Seq<char>) -> Option<i64> {
    let (neg, d) = sign_split(s);
    if d.len() == 0 || !all_digits(d) {
        None
    } else {
        let v = if neg { -digits_value(d) } else { digits_value(d) };
        if i64::MIN <= v && v <= i64::MAX { Some(v as i64) } else { None }
    }
}

/// An unsigned 16-bit integer literal, as `str::parse::<u16>` reads it: an optional `+`
/// and at least one decimal digit, within range.
pub open spec fn u16_literal(s: Seq<char>) -> Option<u16> {
    let d = if s.len() > 0 && s[0] == '+' { s.drop_first() } else { s };
    if d.len() == 0 || !all_digits(d) {
        None
    } else if digits_value(d) <= u16::MAX {
        Some(digits_value(d) as u16)
    } else {
        None
    }
}

/// Reads a signed 64-bit integer.
pub fn parse_int(s: &[char]) -> (r: Option<i64>)
    ensures
        r == int_literal(s@),
{
    let n = s.len();
    let mut start: usize = 0;
    let mut neg = false;
    if n > 0 && s[0] == '-' {
        neg = true;
        start = 1;
    } else if n > 0 && s[0] == '+' {
        start = 1;
    }
    let d = slice_chars(s, start, n);
    assert(d@ =~= sign_split(s@).1);
    if d.len() == 0 || !only_digits(d.as_slice()) {
        return None;
    }
    let cap: u64 = 0x8000_0000_0000_0001;
    let m = read_digits(d.as_slice(), cap);
    proof {
        lemma_digits_nonneg(d@);
    }
    if neg {
        if m <= 0x8000_0000_0000_0000 {
            if m == 0x8000_0000_0000_0000 {
                Some(i64::MIN)
            } else {
                let v = m as i64;
                Some(-v)
            }
        } else {
            None
        }
    } else {
        if m <= 0x7fff_ffff_ffff_ffff {
            Some(m as i64)
        } else {
            None
        }
    }
}

/// Reads an unsigned 16-bit integer.
pub fn parse_u16(s: &[char]) -> (r: Option<u16>)
    ensures
        r == u16_literal(s@),
{
    let n = s.len();
    let start: usize = if n > 0 && s[0] == '+' { 1 } else { 0 };
    let d = slice_chars(s, start, n);
    assert(d@ =~= (if s@.len() > 0 && s@[0] == '+' { s@.drop_first() } else { s@ }));
    if d.len() == 0 || !only_digits(d.as_slice()) {
        return None;
    }
    let m = read_digits(d.as_slice(), 65536);
    proof {
        lemma_digits_nonneg(d@);
    }
    if m <= 65535 {
        Some(m as u16)
    } else {
        None
    }
}

/// Index of the first `c` in `s`, or its length.
pub open spec fn index_of_or_len(s: Seq<char>, c: char) -> int {
    if exists|i: int| 0 <= i < s.len() && s[i] == c {
        choose|i: int| 0 <= i < s.len() && s[i] == c && forall|j: int| 0 <= j < i ==> s[j] != c
    } else {
        s.len() as int
    }
}

/// The first `count` digits of `m` with the decimal point after them, `m` padded with
/// zeros where it is shorter: the whole part of `m` shifted to `count` digits.
pub open spec fn padded_digits(m: Seq<char>, count: int) -> Seq<char> {
    Seq::new(if count > 0 { count as nat } else { 0 }, |i: int| if i < m.len() { m[i] } else { '0' })
}

/// One where the digit of `m` right after the first `count` is 5 or more: rounding half up.
pub open spec fn half_up(m: Seq<char>, count: int) -> int {
    if 0 <= count < m.len() && digit_value(m[count]) >= 5 { 1 } else { 0 }
}

/// Milliseconds in the number whose digits are `m` with the decimal point after `q - 3` of
/// them (so that the first `q` digits are whole milliseconds), rounded half up and limited to
/// `u32::MAX`.
pub open spec fn shifted_ms(m: Seq<char>, q: int) -> u32 {
    let v = digits_value(padded_digits(m, q)) + half_up(m, q);
    if v > u32::MAX { u32::MAX } else { v as u32 }
}

/// Whether `b` spells the word written `lo` in lower case and `up` in upper case, each letter
/// in either case.
pub open spec fn word_any_case(b: Seq<char>, lo: Seq<char>, up: Seq<char>) -> bool {
    b.len() == lo.len() && lo.len() == up.len() && forall|i: int| 0 <= i < b.len() ==> (#[trigger] b[i] == lo[i] || b[i] == up[i])
}

/// The first index at or after `i` of an exponent mark, `e` or `E`, or the length.
pub open spec fn exp_mark_from(s: Seq<char>, i: int) -> int
    decreases s.len() - i,
{
    if i < 0 || i >= s.len() {
        s.len() as int
    } else if s[i] == 'e' || s[i] == 'E' {
        i
    } else {
        exp_mark_from(s, i + 1)
    }
}

/// A duration in seconds, as `str::parse::<f32>` reads a number, in milliseconds: an optional
/// sign, then `inf` or `infinity` (in any case), `nan` (in any case), or a decimal number
/// (digits, an optional `.` and fraction digits, at least one digit in all) with an optional
/// exponent (`e` or `E`, an optional sign and digits). Rounded half away from zero; infinity
/// and values past `u32::MAX` give `u32::MAX`; negative values and NaN give 0.
pub open spec fn duration_literal(s: Seq<char>) -> Option<u32> {
    let (neg, body) = sign_split(s);
    if word_any_case(body, "inf"@, "INF"@) || word_any_case(body, "infinity"@, "INFINITY"@) {
        Some(if neg { 0 } else { u32::MAX })
    } else if word_any_case(body, "nan"@, "NAN"@) {
        Some(0)
    } else {
        let k = exp_mark_from(body, 0);
        let mant = body.take(k);
        let (eneg, ed) = if k < body.len() { sign_split(body.skip(k + 1)) } else { (false, Seq::empty()) };
        let d = index_of_or_len(mant, '.');
        let ip = mant.take(d);
        let fp = if d < mant.len() { mant.skip(d + 1) } else { Seq::empty() };
        if !all_digits(ip) || !all_digits(fp) || ip.len() + fp.len() == 0
            || (k < body.len() && (ed.len() == 0 || !all_digits(ed))) {
            None
        } else if neg {
            Some(0)
        } else {
            let e = if eneg { -digits_value(ed) } else { digits_value(ed) };
            Some(shifted_ms(ip + fp, ip.len() + e + 3))
        }
    }
}

/// Index of the first occurrence of a character, or the length.
pub fn find_char(s: &[char], c: char) -> (r: usize)
    ensures
        r == index_of_or_len(s@, c),
        r <= s@.len(),
        r < s@.len() ==> s@[r as int] == c,
        forall|j: int| 0 <= j < r ==> s@[j] != c,
{
    let mut i: usize = 0;
    while i < s.len()
        invariant
            i <= s@.len(),
            forall|j: int| 0 <= j < i ==> s@[j] != c,
        decreases s@.len() - i,
    {
        if s[i] == c {
            let ghost w = choose|w: int| 0 <= w < s@.len() && s@[w] == c && forall|j: int| 0 <= j < w ==> s@[j] != c;
            assert(w == i as int) by {
                if w < i {
                } else if w > i {
                }
            }
            return i;
        }
        i = i + 1;
    }
    i
}

fn word_any_case_exec(b: &[char], lo: &str, up: &str) -> (r: bool)
    ensures
        r == word_any_case(b@, lo@, up@),
{
    let l = chars_of(lo);
    let u = chars_of(up);
    if b.len() != l.len() || l.len() != u.len() {
        return false;
    }
    let mut i: usize = 0;
    while i < b.len()
        invariant
            b@.len() == l@.len() == u@.len(),
            l@ == lo@,
            u@ == up@,
            i <= b@.len(),
            forall|j: int| 0 <= j < i ==> (#[trigger] b@[j] == l@[j] || b@[j] == u@[j]),
        decreases b@.len() - i,
    {
        if b[i] != l[i] && b[i] != u[i] {
            return false;
        }
        i = i + 1;
    }
    true
}

fn exp_mark(s: &[char]) -> (r: usize)
    ensures
        r == exp_mark_from(s@, 0),
        r <= s@.len(),
{
    let mut i: usize = 0;
    while i < s.len()
        invariant
            i <= s@.len(),
            exp_mark_from(s@, 0) == exp_mark_from(s@, i as int),
        decreases s@.len() - i,
    {
        if s[i] == 'e' || s[i] == 'E' {
            return i;
        }
        i = i + 1;
    }
    i
}

/// Ten to a power.
pub open spec fn pow10(n: nat) -> nat
    decreases n,
{
    if n == 0 { 1 } else { 10 * pow10((n - 1) as nat) }
}

proof fn lemma_pow10_large(n: nat)
    requires
        n >= 10,
    ensures
        pow10(n) >= 10_000_000_000,
    decreases n,
{
    if n == 10 {
        reveal_with_fuel(pow10, 11);
    } else {
        lemma_pow10_large((n - 1) as nat);
    }
}

proof fn lemma_all_digits_prefix(s: Seq<char>)
    requires
        all_digits(s),
        s.len() > 0,
    ensures
        all_digits(s.drop_last()),
{
    assert forall|i: int| 0 <= i < s.drop_last().len() implies is_digit(#[trigger] s.drop_last()[i]) by {
        assert(s.drop_last()[i] == s[i]);
    }
}

/// A nonzero digit with `n` digits after it makes a number of at least ten to the `n`.
proof fn lemma_digits_at_least(s: Seq<char>, j: int)
    requires
        all_digits(s),
        0 <= j < s.len(),
        s[j] != '0',
    ensures
        digits_value(s) >= pow10((s.len() - 1 - j) as nat),
    decreases s.len(),
{
    lemma_all_digits_prefix(s);
    lemma_digits_nonneg(s.drop_last());
    assert(is_digit(s.last()));
    if j == s.len() - 1 {
        assert(is_digit(s[j]));
    } else {
        assert(s.drop_last()[j] == s[j]);
        lemma_digits_at_least(s.drop_last(), j);
    }
}

/// Zeros make zero.
proof fn lemma_zero_digits(s: Seq<char>)
    requires
        forall|i: int| 0 <= i < s.len() ==> #[trigger] s[i] == '0',
    ensures
        digits_value(s) == 0,
    decreases s.len(),
{
    if s.len() > 0 {
        assert forall|i: int| 0 <= i < s.drop_last().len() implies #[trigger] s.drop_last()[i] == '0' by {
            assert(s.drop_last()[i] == s[i]);
        }
        lemma_zero_digits(s.drop_last());
    }
}

/// The milliseconds of digits `m`, whose first `il` digits are whole seconds, times ten to
/// the exponent `-ed` (if `eneg`) or `ed`.
fn shifted_ms_exec(m: &[char], il: usize, eneg: bool, ed: &[char]) -> (r: u32)
    requires
        all_digits(m@),
        all_digits(ed@),
        il <= m@.len(),
    ensures
        r == shifted_ms(m@, il + (if eneg { -digits_value(ed@) } else { digits_value(ed@) }) + 3),
{
    let ghost e: int = if eneg { -digits_value(ed@) } else { digits_value(ed@) };
    let ghost q: int = il + e + 3;
    let n = m.len();
    proof {
        lemma_digits_nonneg(ed@);
    }
    let mut j: usize = 0;
    while j < n && m[j] == '0'
        invariant
            n == m@.len(),
            j <= n,
            forall|i: int| 0 <= i < j ==> #[trigger] m@[i] == '0',
        decreases n - j,
    {
        j = j + 1;
    }
    if j == n {
        proof {
            let p = padded_digits(m@, q);
            assert forall|i: int| 0 <= i < p.len() implies #[trigger] p[i] == '0' by {
                if i < m@.len() {
                    assert(m@[i] == '0');
                }
            }
            lemma_zero_digits(p);
            if 0 <= q < m@.len() {
                assert(m@[q] == '0');
            }
        }
        return 0;
    }
    let cap = EXPONENT_CAP;
    let ev = read_exponent(ed);
    let ghost p = padded_digits(m@, q);
    if ev == cap && !eneg {
        proof {
            assert(q >= j + 11);
            assert(p[j as int] == m@[j as int]);
            assert(all_digits(p)) by {
                assert forall|i: int| 0 <= i < p.len() implies is_digit(#[trigger] p[i]) by {
                    if i < m@.len() {
                        assert(is_digit(m@[i]));
                    }
                }
            }
            lemma_digits_at_least(p, j as int);
            lemma_pow10_large((p.len() - 1 - j) as nat);
            if 0 <= q < m@.len() {
                assert(is_digit(m@[q]));
            }
        }
        return u32::MAX;
    }
    if ev == cap && eneg {
        proof {
            assert(q < 0);
            assert(p.len() == 0);
            assert(digits_value(p) == 0);
        }
        return 0;
    }
    let qx: i128 = if eneg { il as i128 - ev as i128 + 3 } else { il as i128 + ev as i128 + 3 };
    assert(qx == q);
    if qx >= n as i128 + 11 {
        proof {
            assert(p[j as int] == m@[j as int]);
            assert(all_digits(p)) by {
                assert forall|i: int| 0 <= i < p.len() implies is_digit(#[trigger] p[i]) by {
                    if i < m@.len() {
                        assert(is_digit(m@[i]));
                    }
                }
            }
            lemma_digits_at_least(p, j as int);
            lemma_pow10_large((p.len() - 1 - j) as nat);
            if 0 <= q < m@.len() {
                assert(is_digit(m@[q]));
            }
        }
        return u32::MAX;
    }
    if qx < 0 {
        proof {
            assert(p.len() == 0);
            assert(digits_value(p) == 0);
        }
        return 0;
    }
    let mut buf: Vec<char> = Vec::new();
    let mut i: i128 = 0;
    assert(buf@ =~= padded_digits(m@, 0));
    while i < qx
        invariant
            0 <= i <= qx,
            qx <= n + 10,
            n == m@.len(),
            buf@ == padded_digits(m@, i as int),
            all_digits(m@),
        decreases qx - i,
    {
        let c = if i < n as i128 { m[i as usize] } else { '0' };
        buf.push(c);
        i = i + 1;
        assert(buf@ =~= padded_digits(m@, i as int));
    }
    assert(buf@ == p);
    assert(all_digits(buf@)) by {
        assert forall|k: int| 0 <= k < buf@.len() implies is_digit(#[trigger] buf@[k]) by {
            if k < m@.len() {
                assert(is_digit(m@[k]));
            }
        }
    }
    proof {
        lemma_digits_nonneg(buf@);
    }
    let v = read_digits(buf.as_slice(), 0x1_0000_0000);
    let round: u64 = if qx < n as i128 {
        let c = m[qx as usize];
        assert(is_digit(m@[q]));
        if c as u32 - '0' as u32 >= 5 { 1 } else { 0 }
    } else {
        0
    };
    let total = v + round;
    if total > 0xffff_ffff {
        u32::MAX
    } else {
        total as u32
    }
}

/// Reads a duration in seconds, as `str::parse::<f32>` reads a number, as milliseconds.
pub fn parse_duration_ms(s: &[char]) -> (r: Option<u32>)
    ensures
        r == duration_literal(s@),
{
    let n = s.len();
    let mut start: usize = 0;
    let mut neg = false;
    if n > 0 && s[0] == '-' {
        neg = true;
        start = 1;
    } else if n > 0 && s[0] == '+' {
        start = 1;
    }
    let body = slice_chars(s, start, n);
    assert(body@ =~= sign_split(s@).1);
    if word_any_case_exec(body.as_slice(), "inf", "INF") || word_any_case_exec(body.as_slice(), "infinity", "INFINITY") {
        return Some(if neg { 0 } else { u32::MAX });
    }
    if word_any_case_exec(body.as_slice(), "nan", "NAN") {
        return Some(0);
    }
    let bl = body.len();
    let k = exp_mark(body.as_slice());
    let mant = slice_chars(body.as_slice(), 0, k);
    assert(mant@ =~= body@.take(k as int));
    let mut eneg = false;
    let mut ed: Vec<char> = Vec::new();
    if k < bl {
        let rest = slice_chars(body.as_slice(), k + 1, bl);
        assert(rest@ =~= body@.skip(k + 1));
        let rl = rest.len();
        let mut es: usize = 0;
        if rl > 0 && rest[0] == '-' {
            eneg = true;
            es = 1;
        } else if rl > 0 && rest[0] == '+' {
            es = 1;
        }
        ed = slice_chars(rest.as_slice(), es, rl);
        assert(ed@ =~= sign_split(rest@).1);
        if ed.len() == 0 || !only_digits(ed.as_slice()) {
            return None;
        }
    }
    assert((eneg, ed@) == (if k < body@.len() { sign_split(body@.skip(k + 1)) } else { (false, Seq::<char>::empty()) }));
    let d = find_char(mant.as_slice(), '.');
    let ip = slice_chars(mant.as_slice(), 0, d);
    let fp = if d < mant.len() { slice_chars(mant.as_slice(), d + 1, mant.len()) } else { Vec::new() };
    assert(ip@ =~= mant@.take(d as int));
    assert(fp@ =~= (if d < mant@.len() { mant@.skip(d + 1) } else { Seq::<char>::empty() }));
    if !only_digits(ip.as_slice()) || !only_digits(fp.as_slice()) || ip.len() + fp.len() == 0 {
        return None;
    }
    if neg {
        return Some(0);
    }
    assert(all_digits(ed@)) by {
        if k >= bl {
            assert(ed@.len() == 0);
        }
    }
    let mut m = ip.clone();
    assert(m@ == ip@);
    push_all(&mut m, fp.as_slice());
    assert(all_digits(m@)) by {
        assert forall|i: int| 0 <= i < m@.len() implies is_digit(#[trigger] m@[i]) by {
            if i < ip@.len() {
                assert(m@[i] == ip@[i]);
            } else {
                assert(m@[i] == fp@[i - ip@.len()]);
            }
        }
    }
    Some(shifted_ms_exec(m.as_slice(), ip.len(), eneg, ed.as_slice()))
}

} // verus!
