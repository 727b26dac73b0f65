//! Character-level text operations shared by the snapshot, auth and browser modules.
use vstd::prelude::*;

verus! {

/// The characters of `s`, in order.
pub fn chars_of(s: &str) -> (out: Vec<char>)
    ensures
        out@ == s@,
{
    let mut out: Vec<char> = Vec::new();
    for c in it: s.chars()
        invariant
            out@ == it.seq().take(it.index() as int),
    {
        out.push(c);
    }
    out
}

/// `parts` joined with `sep` between consecutive parts.
pub open spec fn join(parts: Seq<Seq<char>>, sep: Seq<char>) -> Seq<char>
    decreases parts.len(),
{
    if parts.len() == 0 {
        Seq::empty()
    } else if parts.len() == 1 {
        parts[0]
    } else {
        join(parts.drop_last(), sep) + sep + parts.last()
    }
}

/// The views of a vector of strings.
pub open spec fn views(v: Seq<String>) -> Seq<Seq<char>> {
    v.map_values(|s: String| s@)
}

/// Joins `parts` with `sep`, as `[String]::join` does.
pub fn join_strings(parts: &Vec<String>, sep: &str) -> (res: String)
    ensures
        res@ == join(views(parts@), sep@),
{
    let mut res = String::new();
    let ghost vs = views(parts@);
    let mut i: usize = 0;
    while i < parts.len()
        invariant
            i <= parts.len(),
            vs == views(parts@),
            res@ == join(vs.take(i as int), sep@),
        decreases parts.len() - i,
    {
        if i != 0 {
            res.append(sep);
        }
        res.append(parts[i].as_str());
        assert(vs.take(i + 1).drop_last() =~= vs.take(i as int));
        i = i + 1;
    }
    assert(vs.take(parts.len() as int) =~= vs);
    res
}

/// Whether `needle` occurs in `hay` at position `i`.
pub open spec fn occurs_at(hay: Seq<char>, needle: Seq<char>, i: int) -> bool {
    0 <= i && i + needle.len() <= hay.len() && hay.subrange(i, i + needle.len()) == needle
}

/// Whether `needle` occurs anywhere in `hay` (the empty needle occurs in every text).
pub open spec fn contains(hay: Seq<char>, needle: Seq<char>) -> bool {
    exists|i: int| occurs_at(hay, needle, i)
}

fn occurs_at_exec(hay: &Vec<char>, needle: &Vec<char>, i: usize) -> (res: bool)
    requires
        i + needle.len() <= hay.len(),
    ensures
        res == occurs_at(hay@, needle@, i as int),
{
    let mut j: usize = 0;
    while j < needle.len()
        invariant
            i + needle.len() <= hay.len(),
            j <= needle.len(),
            forall|k: int| 0 <= k < j ==> hay@[i + k] == needle@[k],
        decreases needle.len() - j,
    {
        if hay[i + j] != needle[j] {
            assert(hay@.subrange(i as int, i + needle.len())[j as int] != needle@[j as int]);
            return false;
        }
        j = j + 1;
    }
    assert(hay@.subrange(i as int, i + needle.len()) =~= needle@);
    true
}

/// Whether `needle` is a substring of `hay`, as `str::contains` with a string pattern.
pub fn str_contains(hay: &str, needle: &str) -> (res: bool)
    ensures
        res == contains(hay@, needle@),
{
    let h = chars_of(hay);
    let n = chars_of(needle);
    if n.len() == 0 {
        assert(hay@.subrange(0, 0) =~= needle@);
        assert(occurs_at(hay@, needle@, 0));
        return true;
    }
    if n.len() > h.len() {
        assert forall|i: int| !occurs_at(hay@, needle@, i) by {}
        return false;
    }
    let last = h.len() - n.len();
    let mut i: usize = 0;
    while i <= last
        invariant
            h@ == hay@,
            n@ == needle@,
            last == h.len() - n.len(),
            1 <= n.len() <= h.len(),
            i <= last + 1,
            forall|k: int| 0 <= k < i ==> !occurs_at(hay@, needle@, k),
        decreases last + 1 - i,
    {
        if occurs_at_exec(&h, &n, i) {
            return true;
        }
        i = i + 1;
    }
    assert forall|k: int| !occurs_at(hay@, needle@, k) by {
        if 0 <= k < i {
        }
    }
    false
}

/// Whether two strings hold the same characters.
pub fn str_eq(a: &str, b: &str) -> (res: bool)
    ensures
        res == (a@ == b@),
{
    let x = chars_of(a);
    let y = chars_of(b);
    if x.len() != y.len() {
        return false;
    }
    let mut i: usize = 0;
    while i < x.len()
        invariant
            x@ == a@,
            y@ == b@,
            x.len() == y.len(),
            i <= x.len(),
            forall|k: int| 0 <= k < i ==> x@[k] == y@[k],
        decreases x.len() - i,
    {
        if x[i] != y[i] {
            return false;
        }
        i = i + 1;
    }
    assert(x@ =~= y@);
    true
}

/// A copy of `s`.
pub fn to_string(s: &str) -> (res: String)
    ensures
        res@ == s@,
{
    let mut r = String::new();
    r.append(s);
    r
}

} // verus!

verus! {

/// Appends one character (`String::push`).
#[verifier::external_body]
pub(crate) fn push_char(s: &mut String, c: char)
    ensures
        final(s)@ == old(s)@.push(c),
{
    s.push(c);
}

/// What `str::to_lowercase` returns for a text: the Unicode lowercase mapping of each
/// character, whose tables are std's own.
pub uninterp spec fn spec_to_lowercase(s: Seq<char>) -> Seq<char>;

/// `str::to_lowercase`.
#[verifier::external_body]
pub(crate) fn to_lowercase(s: &str) -> (res: String)
    ensures
        res@ == spec_to_lowercase(s@),
{
    s.to_lowercase()
}

/// The decimal digit for `d` (0 to 9).
pub open spec fn digit_char(d: nat) -> char {
    if d == 0 { '0' } else if d == 1 { '1' } else if d == 2 { '2' } else if d == 3 { '3' }
    else if d == 4 { '4' } else if d == 5 { '5' } else if d == 6 { '6' } else if d == 7 { '7' }
    else if d == 8 { '8' } else { '9' }
}

/// The decimal notation of `n`, without leading zeros ("0" for zero).
pub open spec fn decimal(n: nat) -> Seq<char>
    decreases n,
{
    if n < 10 {
        seq![digit_char(n)]
    } else {
        decimal(n / 10) + seq![digit_char(n % 10)]
    }
}

fn digit_of(d: u64) -> (c: char)
    requires
        d < 10,
    ensures
        c == digit_char(d as nat),
{
    if d == 0 { '0' } else if d == 1 { '1' } else if d == 2 { '2' } else if d == 3 { '3' }
    else if d == 4 { '4' } else if d == 5 { '5' } else if d == 6 { '6' } else if d == 7 { '7' }
    else if d == 8 { '8' } else { '9' }
}

fn decimal_digits(n: u64) -> (digits: Vec<char>)
    ensures
        digits@ == decimal(n as nat),
    decreases n,
{
    if n < 10 {
        let mut v: Vec<char> = Vec::new();
        v.push(digit_of(n));
        assert(v@ =~= decimal(n as nat));
        v
    } else {
        let mut v = decimal_digits(n / 10);
        v.push(digit_of(n % 10));
        assert(v@ =~= decimal(n as nat));
        v
    }
}

/// Appends the decimal notation of `n`, as `write!(s, "{}", n)` does.
pub fn append_decimal(s: &mut String, n: u64)
    ensures
        final(s)@ == old(s)@ + decimal(n as nat),
{
    let digits = decimal_digits(n);
    let ghost start = s@;
    let mut i: usize = 0;
    while i < digits.len()
        invariant
            i <= digits.len(),
            digits@ == decimal(n as nat),
            s@ == start + digits@.take(i as int),
        decreases digits.len() - i,
    {
        push_char(s, digits[i]);
        assert(digits@.take(i + 1) =~= digits@.take(i as int).push(digits@[i as int]));
        i = i + 1;
    }
    assert(digits@.take(digits.len() as int) =~= digits@);
}

/// The decimal notation of `n` as a new string.
pub fn decimal_string(n: u64) -> (res: String)
    ensures
        res@ == decimal(n as nat),
{
    let mut s = String::new();
    append_decimal(&mut s, n);
    s
}

} // verus!

verus! {

/// `s` with every occurrence of `from` replaced by `to`, scanning from the left and
/// resuming after each replaced occurrence, as `str::replace` does for a non-empty pattern.
pub open spec fn replace_all(s: Seq<char>, from: Seq<char>, to: Seq<char>) -> Seq<char>
    decreases s.len(),
{
    if from.len() == 0 || s.len() < from.len() {
        s
    } else if s.take(from.len() as int) == from {
        to + replace_all(s.skip(from.len() as int), from, to)
    } else {
        seq![s[0]] + replace_all(s.skip(1), from, to)
    }
}

/// Replaces every occurrence of the non-empty pattern `from` in `s` by `to` (`str::replace`).
pub fn replace_str(s: &str, from: &str, to: &str) -> (res: String)
    requires
        from@.len() > 0,
    ensures
        res@ == replace_all(s@, from@, to@),
{
    let h = chars_of(s);
    let f = chars_of(from);
    let mut res = String::new();
    let mut i: usize = 0;
    assert(h@.skip(0) =~= h@);
    while i < h.len()
        invariant
            h@ == s@,
            f@ == from@,
            f.len() > 0,
            i <= h.len(),
            res@ + replace_all(h@.skip(i as int), f@, to@) == replace_all(h@, f@, to@),
        decreases h.len() - i,
    {
        let ghost rest = h@.skip(i as int);
        if f.len() <= h.len() - i && occurs_at_exec(&h, &f, i) {
            assert(rest.take(f.len() as int) =~= h@.subrange(i as int, i + f.len()));
            assert(rest.skip(f.len() as int) =~= h@.skip(i + f.len()));
            res.append(to);
            i = i + f.len();
        } else {
            if f.len() <= h.len() - i {
                assert(rest.take(f.len() as int) =~= h@.subrange(i as int, i + f.len()));
            }
            assert(rest.skip(1) =~= h@.skip(i + 1));
            push_char(&mut res, h[i]);
            i = i + 1;
        }
    }
    assert(h@.skip(i as int) =~= Seq::<char>::empty());
    res
}

/// `s` with each character replaced by its image under `f`.
pub open spec fn map_chars(s: Seq<char>, f: spec_fn(char) -> Seq<char>) -> Seq<char>
    decreases s.len(),
{
    if s.len() == 0 {
        Seq::empty()
    } else {
        map_chars(s.drop_last(), f) + f(s.last())
    }
}

/// Escaping for text placed inside a single-quoted JavaScript string: a backslash
/// becomes two and a single quote gets a backslash before it.
pub open spec fn js_quote_char(c: char) -> Seq<char> {
    if c == '\\' {
        seq!['\\', '\\']
    } else if c == '\'' {
        seq!['\\', '\'']
    } else {
        seq![c]
    }
}

/// As [`js_quote_char`], and a newline becomes a backslash and `n`.
pub open spec fn js_text_char(c: char) -> Seq<char> {
    if c == '\n' {
        seq!['\\', 'n']
    } else {
        js_quote_char(c)
    }
}

/// Escaping for text placed inside a double-quoted AppleScript string: a backslash
/// becomes two and a double quote gets a backslash before it.
pub open spec fn applescript_char(c: char) -> Seq<char> {
    if c == '\\' {
        seq!['\\', '\\']
    } else if c == '"' {
        seq!['\\', '"']
    } else {
        seq![c]
    }
}

/// Which escaping to apply.
pub enum Escaping {
    JsQuote,
    JsText,
    AppleScript,
}

/// The escaping function of an [`Escaping`].
pub open spec fn escaping_fn(e: Escaping) -> spec_fn(char) -> Seq<char> {
    match e {
        Escaping::JsQuote => |c: char| js_quote_char(c),
        Escaping::JsText => |c: char| js_text_char(c),
        Escaping::AppleScript => |c: char| applescript_char(c),
    }
}

/// Escapes `s` as `e` says.
pub fn escape(s: &str, e: Escaping) -> (res: String)
    ensures
        res@ == map_chars(s@, escaping_fn(e)),
{
    let h = chars_of(s);
    let ghost f = escaping_fn(e);
    let mut res = String::new();
    let mut i: usize = 0;
    while i < h.len()
        invariant
            h@ == s@,
            f == escaping_fn(e),
            i <= h.len(),
            res@ == map_chars(h@.take(i as int), f),
        decreases h.len() - i,
    {
        let c = h[i];
        let ghost t = h@.take(i + 1);
        assert(t.drop_last() =~= h@.take(i as int));
        let is_backslash = c == '\\';
        let quoted = match e {
            Escaping::JsQuote => is_backslash || c == '\'',
            Escaping::JsText => is_backslash || c == '\'',
            Escaping::AppleScript => is_backslash || c == '"',
        };
        let newline = match e {
            Escaping::JsText => c == '\n',
            _ => false,
        };
        if newline {
            push_char(&mut res, '\\');
            push_char(&mut res, 'n');
        } else if quoted {
            push_char(&mut res, '\\');
            push_char(&mut res, c);
        } else {
            push_char(&mut res, c);
        }
        assert(res@ =~= map_chars(t, f));
        i = i + 1;
    }
    assert(h@.take(h.len() as int) =~= h@);
    res
}

} // verus!

verus! {

/// The number of bytes of the UTF-8 encoding of `s` (what `str::len` returns).
pub open spec fn byte_len(s: Seq<char>) -> nat {
    vstd::utf8::encode_utf8(s).len()
}

/// Whether cutting `s` after its first `limit` bytes keeps whole characters: `limit` is at
/// or past the end, or it falls on a character boundary.
pub open spec fn cut_ok(s: Seq<char>, limit: int) -> bool {
    byte_len(s) <= limit || vstd::utf8::is_char_boundary(vstd::utf8::encode_utf8(s), limit)
}

/// The first `limit` bytes of `s`, which must end on a character boundary
/// (`String::truncate`, `&s[..limit]`).
pub fn truncate_bytes(s: &str, limit: usize) -> (res: String)
    requires
        limit <= byte_len(s@),
        vstd::utf8::is_char_boundary(vstd::utf8::encode_utf8(s@), limit as int),
    ensures
        vstd::utf8::encode_utf8(res@) == vstd::utf8::encode_utf8(s@).subrange(0, limit as int),
{
    let (head, _tail) = s.split_at(limit);
    to_string(head)
}

/// The number of bytes of `s` (`str::len`).
pub fn byte_length(s: &str) -> (n: usize)
    requires
        byte_len(s@) <= usize::MAX,
    ensures
        n == byte_len(s@),
{
    s.len()
}

} // verus!

verus! {

/// The encoding of two texts one after the other is the one encoding after the other.
pub proof fn lemma_encode_concat(a: Seq<char>, b: Seq<char>)
    ensures
        vstd::utf8::encode_utf8(a + b) == vstd::utf8::encode_utf8(a) + vstd::utf8::encode_utf8(b),
    decreases a.len(),
{
    if a.len() == 0 {
        assert(a + b =~= b);
        assert(vstd::utf8::encode_utf8(a) =~= Seq::<u8>::empty());
        assert(vstd::utf8::encode_utf8(a + b) =~= vstd::utf8::encode_utf8(a) + vstd::utf8::encode_utf8(b));
    } else {
        assert((a + b).drop_first() =~= a.drop_first() + b);
        assert((a + b)[0] == a[0]);
        lemma_encode_concat(a.drop_first(), b);
        assert(vstd::utf8::encode_utf8(a + b) =~= vstd::utf8::encode_utf8(a) + vstd::utf8::encode_utf8(b));
    }
}

} // verus!

verus! {

/// The decimal notation of a signed number: a minus sign before a negative one.
pub open spec fn signed_decimal(n: int) -> Seq<char> {
    if n < 0 {
        seq!['-'] + decimal((-n) as nat)
    } else {
        decimal(n as nat)
    }
}

/// Appends the decimal notation of the signed `n`, as `write!(s, "{}", n)` does.
pub fn append_signed_decimal(s: &mut String, n: i64)
    ensures
        final(s)@ == old(s)@ + signed_decimal(n as int),
{
    if n < 0 {
        push_char(s, '-');
        let magnitude: u64 = if n == i64::MIN { 9223372036854775808u64 } else { (-n) as u64 };
        append_decimal(s, magnitude);
        assert(s@ =~= old(s)@ + signed_decimal(n as int));
    } else {
        append_decimal(s, n as u64);
    }
}

} // verus!

verus! {

/// Whether `c` has the Unicode `White_Space` property, by which `str::trim` cuts.
pub open spec fn is_white_space(c: char) -> bool {
    ||| '\u{9}' <= c <= '\u{d}'
    ||| c == ' ' || c == '\u{85}' || c == '\u{a0}' || c == '\u{1680}'
    ||| '\u{2000}' <= c <= '\u{200a}'
    ||| c == '\u{2028}' || c == '\u{2029}' || c == '\u{202f}' || c == '\u{205f}' || c == '\u{3000}'
}

/// `s` without its leading white space.
pub open spec fn trim_start(s: Seq<char>) -> Seq<char>
    decreases s.len(),
{
    if s.len() > 0 && is_white_space(s[0]) {
        trim_start(s.drop_first())
    } else {
        s
    }
}

/// `s` without its trailing white space.
pub open spec fn trim_end(s: Seq<char>) -> Seq<char>
    decreases s.len(),
{
    if s.len() > 0 && is_white_space(s.last()) {
        trim_end(s.drop_last())
    } else {
        s
    }
}

/// `s` without its leading and trailing white space, as `str::trim` gives it.
pub open spec fn trimmed(s: Seq<char>) -> Seq<char> {
    trim_end(trim_start(s))
}

fn white_space(c: char) -> (res: bool)
    ensures
        res == is_white_space(c),
{
    ('\u{9}' <= c && c <= '\u{d}') || c == ' ' || c == '\u{85}' || c == '\u{a0}' || c == '\u{1680}'
        || ('\u{2000}' <= c && c <= '\u{200a}') || c == '\u{2028}' || c == '\u{2029}' || c == '\u{202f}'
        || c == '\u{205f}' || c == '\u{3000}'
}

/// `s` without its leading and trailing white space, as an owned string.
pub fn trim(s: &str) -> (res: String)
    ensures
        res@ == trimmed(s@),
{
    let h = chars_of(s);
    let n = h.len();
    let mut a: usize = 0;
    assert(h@.subrange(0, n as int) =~= h@);
    while a < n && white_space(h[a])
        invariant
            h@ == s@,
            n == h@.len(),
            a <= n,
            trim_start(h@) == trim_start(h@.subrange(a as int, n as int)),
        decreases n - a,
    {
        assert(h@.subrange(a as int, n as int).drop_first() =~= h@.subrange(a + 1, n as int));
        a = a + 1;
    }
    let mut b: usize = n;
    assert(trim_start(h@.subrange(a as int, n as int)) == h@.subrange(a as int, n as int));
    while b > a && white_space(h[b - 1])
        invariant
            h@ == s@,
            n == h@.len(),
            a <= b <= n,
            trimmed(s@) == trim_end(h@.subrange(a as int, b as int)),
        decreases b - a,
    {
        assert(h@.subrange(a as int, b as int).drop_last() =~= h@.subrange(a as int, b - 1));
        b = b - 1;
    }
    assert(trim_end(h@.subrange(a as int, b as int)) == h@.subrange(a as int, b as int));
    let mut out = String::new();
    let mut k: usize = a;
    while k < b
        invariant
            a <= k <= b <= n,
            n == h@.len(),
            out@ == h@.subrange(a as int, k as int),
        decreases b - k,
    {
        push_char(&mut out, h[k]);
        assert(out@ =~= h@.subrange(a as int, k + 1));
        k = k + 1;
    }
    out
}

/// `s` split at every `sep`, as `str::split` with a character pattern does: one more piece
/// than there are separators, pieces possibly empty.
pub open spec fn split_at_char(s: Seq<char>, sep: char) -> Seq<Seq<char>>
    decreases s.len(),
{
    if s.len() == 0 {
        seq![Seq::empty()]
    } else {
        let init = split_at_char(s.drop_last(), sep);
        if s.last() == sep {
            init.push(Seq::empty())
        } else {
            init.update(init.len() - 1, init.last().push(s.last()))
        }
    }
}

proof fn lemma_split_nonempty(s: Seq<char>, sep: char)
    ensures
        split_at_char(s, sep).len() >= 1,
    decreases s.len(),
{
    if s.len() > 0 {
        lemma_split_nonempty(s.drop_last(), sep);
    }
}

/// Splits `s` at every `sep` (`str::split`).
pub fn split_char(s: &str, sep: char) -> (pieces: Vec<String>)
    ensures
        views(pieces@) == split_at_char(s@, sep),
{
    let h = chars_of(s);
    let mut pieces: Vec<String> = Vec::new();
    let mut cur = String::new();
    let mut i: usize = 0;
    while i < h.len()
        invariant
            h@ == s@,
            i <= h.len(),
            views(pieces@).push(cur@) == split_at_char(h@.take(i as int), sep),
        decreases h.len() - i,
    {
        let ghost t = h@.take(i + 1);
        assert(t.drop_last() =~= h@.take(i as int));
        proof {
            lemma_split_nonempty(h@.take(i as int), sep);
        }
        if h[i] == sep {
            let mut done = String::new();
            std::mem::swap(&mut cur, &mut done);
            pieces.push(done);
            assert(views(pieces@).push(cur@) =~= split_at_char(t, sep));
        } else {
            push_char(&mut cur, h[i]);
            assert(views(pieces@).push(cur@) =~= split_at_char(t, sep));
        }
        i = i + 1;
    }
    assert(h@.take(h.len() as int) =~= h@);
    pieces.push(cur);
    pieces
}

} // verus!
