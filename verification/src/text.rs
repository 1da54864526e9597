//! Character-level text handling: whitespace, trimming, word splitting,
//! substring search, escaping and decimal numbers, all over `Seq<char>`.
use vstd::prelude::*;

verus! {

// ---------------------------------------------------------------------------
// Conversions between strings and character vectors
// ---------------------------------------------------------------------------

/// Appends one character to a string.
///
/// Trusted: calls `String::push`, which std documents as appending the given
/// char to the end of the string.
#[verifier::external_body]
pub(crate) fn push_char(s: &mut String, c: char)
    ensures
        final(s)@ == old(s)@.push(c),
{
    s.push(c);
}

/// Removes the last character of a string, if there is one.
///
/// Trusted: calls `String::pop`, which std documents as removing the last
/// char and returning it, or returning `None` on an empty string.
#[verifier::external_body]
pub(crate) fn pop_char(s: &mut String) -> (r: Option<char>)
    ensures
        old(s)@.len() == 0 ==> r is None && final(s)@ == old(s)@,
        old(s)@.len() > 0 ==> r == Some(old(s)@.last()) && final(s)@ == old(s)@.drop_last(),
{
    s.pop()
}

/// The characters of `s`, in order.
pub fn chars_of(s: &str) -> (v: Vec<char>)
    ensures
        v@ == s@,
{
    let mut v: Vec<char> = Vec::new();
    for c in it: s.chars()
        invariant
            v@ == it.seq().take(it.index() as int),
    {
        v.push(c);
    }
    v
}

/// Appends `lit` to `out`.
pub fn push_str(out: &mut String, lit: &str)
    ensures
        final(out)@ == old(out)@ + lit@,
{
    let v = chars_of(lit);
    let n = v.len();
    let ghost start = out@;
    for i in 0..n
        invariant
            n == v@.len(),
            v@ == lit@,
            out@ == start + v@.take(i as int),
    {
        push_char(out, v[i]);
        assert(v@.take(i + 1) == v@.take(i as int).push(v@[i as int]));
    }
    assert(v@.take(n as int) == v@);
}

/// A string with the contents of `s`.
pub fn owned(s: &str) -> (r: String)
    ensures
        r@ == s@,
{
    let mut r = String::new();
    push_str(&mut r, s);
    r
}

/// The string made of `v[from..to]`.
pub fn string_of_range(v: &Vec<char>, from: usize, to: usize) -> (s: String)
    requires
        from <= to <= v@.len(),
    ensures
        s@ == v@.subrange(from as int, to as int),
{
    let mut s = String::new();
    let mut i = from;
    while i < to
        invariant
            from <= i <= to <= v@.len(),
            s@ == v@.subrange(from as int, i as int),
        decreases to - i,
    {
        push_char(&mut s, v[i]);
        assert(v@.subrange(from as int, i + 1) == v@.subrange(from as int, i as int).push(v@[i as int]));
        i += 1;
    }
    s
}

/// The string made of all of `v`.
pub fn string_of(v: &Vec<char>) -> (s: String)
    ensures
        s@ == v@,
{
    let s = string_of_range(v, 0, v.len());
    assert(v@.subrange(0, v@.len() as int) == v@);
    s
}

/// A copy of `s`.
pub fn copy_string(s: &String) -> (r: String)
    ensures
        r@ == s@,
{
    s.clone()
}

// ---------------------------------------------------------------------------
// Whitespace and trimming
// ---------------------------------------------------------------------------

/// The Unicode `White_Space` property, which is what `char::is_whitespace`
/// tests and what `str::trim` and `str::split_whitespace` split on.
pub open spec fn is_white(c: char) -> bool {
    let u = c as u32;
    ||| 0x09 <= u <= 0x0d
    ||| u == 0x20
    ||| u == 0x85
    ||| u == 0xa0
    ||| u == 0x1680
    ||| 0x2000 <= u <= 0x200a
    ||| u == 0x2028
    ||| u == 0x2029
    ||| u == 0x202f
    ||| u == 0x205f
    ||| u == 0x3000
}

/// Whether `c` is a whitespace character.
pub fn is_whitespace(c: char) -> (b: bool)
    ensures
        b == is_white(c),
{
    let u = c as u32;
    (0x09 <= u && u <= 0x0d) || u == 0x20 || u == 0x85 || u == 0xa0 || u == 0x1680 || (0x2000
        <= u && u <= 0x200a) || u == 0x2028 || u == 0x2029 || u == 0x202f || u == 0x205f || u
        == 0x3000
}

/// `s` without its leading whitespace.
pub open spec fn trim_start(s: Seq<char>) -> Seq<char>
    decreases s.len(),
{
    if s.len() > 0 && is_white(s[0]) {
        trim_start(s.drop_first())
    } else {
        s
    }
}

/// `s` without its trailing whitespace.
pub open spec fn trim_end(s: Seq<char>) -> Seq<char>
    decreases s.len(),
{
    if s.len() > 0 && is_white(s.last()) {
        trim_end(s.drop_last())
    } else {
        s
    }
}

/// `s` without leading and trailing whitespace (what `str::trim` gives).
pub open spec fn trimmed(s: Seq<char>) -> Seq<char> {
    trim_end(trim_start(s))
}

/// `s` with leading and trailing whitespace removed.
pub fn trim(s: &str) -> (r: String)
    ensures
        r@ == trimmed(s@),
{
    let v = chars_of(s);
    let len = v.len();
    let mut i: usize = 0;
    assert(v@.skip(0) == v@);
    while i < len && is_whitespace(v[i])
        invariant
            i <= len == v@.len(),
            trim_start(v@) == trim_start(v@.skip(i as int)),
        decreases len - i,
    {
        assert(v@.skip(i as int).drop_first() == v@.skip(i + 1));
        i += 1;
    }
    assert(trim_start(v@.skip(i as int)) == v@.skip(i as int));
    assert(v@.skip(i as int) == v@.subrange(i as int, len as int));
    let mut j: usize = len;
    while j > i && is_whitespace(v[j - 1])
        invariant
            i <= j <= len == v@.len(),
            trimmed(v@) == trim_end(v@.subrange(i as int, j as int)),
        decreases j,
    {
        assert(v@.subrange(i as int, j as int).drop_last() == v@.subrange(i as int, j - 1));
        j -= 1;
    }
    string_of_range(&v, i, j)
}

/// Whether `s` has nothing but whitespace.
pub open spec fn blank(s: Seq<char>) -> bool {
    trimmed(s).len() == 0
}

// ---------------------------------------------------------------------------
// Words and tags
// ---------------------------------------------------------------------------

/// Reading `s` left to right: the words finished so far and the word being
/// read. A word is a maximal run of non-whitespace characters.
pub open spec fn word_scan(s: Seq<char>) -> (Seq<Seq<char>>, Seq<char>)
    decreases s.len(),
{
    if s.len() == 0 {
        (seq![], seq![])
    } else {
        let (done, cur) = word_scan(s.drop_last());
        if is_white(s.last()) {
            if cur.len() > 0 {
                (done.push(cur), seq![])
            } else {
                (done, cur)
            }
        } else {
            (done, cur.push(s.last()))
        }
    }
}

/// The whitespace-separated words of `s`, in order (what
/// `str::split_whitespace` yields).
pub open spec fn words(s: Seq<char>) -> Seq<Seq<char>> {
    let (done, cur) = word_scan(s);
    if cur.len() > 0 {
        done.push(cur)
    } else {
        done
    }
}

/// `w` without its leading `#` characters.
pub open spec fn strip_hashes(w: Seq<char>) -> Seq<char>
    decreases w.len(),
{
    if w.len() > 0 && w[0] == '#' {
        strip_hashes(w.drop_first())
    } else {
        w
    }
}

/// Each word stripped of its leading `#`s, the ones left empty dropped.
pub open spec fn clean_tags(ws: Seq<Seq<char>>) -> Seq<Seq<char>>
    decreases ws.len(),
{
    if ws.len() == 0 {
        seq![]
    } else {
        let rest = clean_tags(ws.drop_last());
        let t = strip_hashes(ws.last());
        if t.len() > 0 {
            rest.push(t)
        } else {
            rest
        }
    }
}

/// The tags written in `s`: its words, with an optional leading `#` removed.
pub open spec fn tags_of(s: Seq<char>) -> Seq<Seq<char>> {
    clean_tags(words(s))
}

/// The views of a sequence of strings.
pub open spec fn views(v: Seq<String>) -> Seq<Seq<char>> {
    v.map_values(|x: String| x@)
}

/// The views of a sequence of character vectors.
pub open spec fn char_views(v: Seq<Vec<char>>) -> Seq<Seq<char>> {
    v.map_values(|x: Vec<char>| x@)
}

/// The words of `s`, each as a character vector.
fn split_words(s: &str) -> (r: Vec<Vec<char>>)
    ensures
        char_views(r@) == words(s@),
{
    let v = chars_of(s);
    let mut done: Vec<Vec<char>> = Vec::new();
    let mut cur: Vec<char> = Vec::new();
    let len = v.len();
    for i in 0..len
        invariant
            len == v@.len(),
            (char_views(done@), cur@) == word_scan(v@.take(i as int)),
    {
        let c = v[i];
        assert(v@.take(i + 1).drop_last() == v@.take(i as int));
        let ghost prev = done@;
        if is_whitespace(c) {
            if cur.len() > 0 {
                let w = cur;
                done.push(w);
                cur = Vec::new();
                assert(char_views(done@) == char_views(prev).push(w@));
            }
        } else {
            cur.push(c);
        }
    }
    assert(v@.take(len as int) == v@);
    if cur.len() > 0 {
        let ghost prev = done@;
        let w = cur;
        done.push(w);
        assert(char_views(done@) == char_views(prev).push(w@));
    }
    done
}

/// The number of leading `#` characters of `w`.
fn hash_prefix_len(w: &Vec<char>) -> (n: usize)
    ensures
        n <= w@.len(),
        strip_hashes(w@) == w@.skip(n as int),
{
    let mut n: usize = 0;
    assert(w@.skip(0) == w@);
    while n < w.len() && w[n] == '#'
        invariant
            n <= w@.len(),
            strip_hashes(w@) == strip_hashes(w@.skip(n as int)),
        decreases w@.len() - n,
    {
        assert(w@.skip(n as int).drop_first() == w@.skip(n + 1));
        n += 1;
    }
    n
}

/// Splits a whitespace-separated tag string into tags: a leading `#` is
/// optional and is removed, and entries left empty are dropped.
pub fn parse_tags(input: &str) -> (r: Vec<String>)
    ensures
        views(r@) == tags_of(input@),
{
    let ws = split_words(input);
    let mut r: Vec<String> = Vec::new();
    let n = ws.len();
    for i in 0..n
        invariant
            n == ws@.len(),
            char_views(ws@) == words(input@),
            views(r@) == clean_tags(char_views(ws@).take(i as int)),
    {
        let w = &ws[i];
        let k = hash_prefix_len(w);
        assert(char_views(ws@).take(i + 1).drop_last() == char_views(ws@).take(i as int));
        assert(char_views(ws@).take(i + 1).last() == w@);
        if k < w.len() {
            let ghost prev = r@;
            let t = string_of_range(w, k, w.len());
            assert(w@.skip(k as int) == w@.subrange(k as int, w@.len() as int));
            r.push(t);
            assert(views(r@) == views(prev).push(t@));
        }
    }
    assert(char_views(ws@).take(n as int) == char_views(ws@));
    r
}

/// The parts joined, with `sep` between each two.
pub open spec fn join(parts: Seq<Seq<char>>, sep: Seq<char>) -> Seq<char>
    decreases parts.len(),
{
    if parts.len() == 0 {
        seq![]
    } else if parts.len() == 1 {
        parts[0]
    } else {
        join(parts.drop_last(), sep) + sep + parts.last()
    }
}

/// The strings joined with single spaces.
pub fn join_with_spaces(parts: &Vec<String>) -> (r: String)
    ensures
        r@ == join(views(parts@), seq![' ']),
{
    let mut r = String::new();
    let n = parts.len();
    for i in 0..n
        invariant
            n == parts@.len(),
            r@ == join(views(parts@).take(i as int), seq![' ']),
    {
        assert(views(parts@).take(i + 1).drop_last() == views(parts@).take(i as int));
        if i > 0 {
            push_char(&mut r, ' ');
        }
        let p = &parts[i];
        let pv = chars_of(p.as_str());
        let m = pv.len();
        let ghost before = r@;
        for k in 0..m
            invariant
                m == pv@.len(),
                r@ == before + pv@.take(k as int),
        {
            push_char(&mut r, pv[k]);
            assert(pv@.take(k + 1) == pv@.take(k as int).push(pv@[k as int]));
        }
        assert(pv@.take(m as int) == pv@);
        if i == 0 {
            assert(views(parts@).take(1) == seq![p@]);
        }
    }
    assert(views(parts@).take(n as int) == views(parts@));
    r
}


// ---------------------------------------------------------------------------
// Case folding and substring search
// ---------------------------------------------------------------------------

/// What `str::to_lowercase` gives for `s`: the Unicode lowercase mapping.
pub uninterp spec fn lowercase(s: Seq<char>) -> Seq<char>;

/// `s` in lower case.
///
/// Trusted: calls `str::to_lowercase`, which std documents as returning the
/// lowercase equivalent of the string as a new `String`, character by
/// character per Unicode (the empty string maps to the empty string). The
/// mapping itself takes Unicode's tables to state, so the result is named
/// `lowercase` and not spelled out.
#[verifier::external_body]
fn to_lowercase(s: &str) -> (r: String)
    ensures
        r@ == lowercase(s@),
        s@.len() == 0 ==> r@.len() == 0,
{
    s.to_lowercase()
}

/// `s` in lower case, as characters.
pub fn lowercase_chars(s: &str) -> (r: Vec<char>)
    ensures
        r@ == lowercase(s@),
        s@.len() == 0 ==> r@.len() == 0,
{
    let l = to_lowercase(s);
    chars_of(l.as_str())
}

/// `needle` occurs in `hay` starting at position `i`.
pub open spec fn occurs_at(hay: Seq<char>, needle: Seq<char>, i: int) -> bool {
    &&& 0 <= i
    &&& i + needle.len() <= hay.len()
    &&& hay.subrange(i, i + needle.len()) == needle
}

/// `needle` occurs somewhere in `hay` (what `str::contains` with a string
/// pattern tests).
pub open spec fn contains_seq(hay: Seq<char>, needle: Seq<char>) -> bool {
    exists|i: int| #[trigger] occurs_at(hay, needle, i)
}

/// Whether `needle` occurs in `hay`.
pub fn contains(hay: &Vec<char>, needle: &Vec<char>) -> (b: bool)
    ensures
        b == contains_seq(hay@, needle@),
{
    let n = needle.len();
    let h = hay.len();
    if n > h {
        assert forall|i: int| !occurs_at(hay@, needle@, i) by {}
        return false;
    }
    let last = h - n;
    let mut i: usize = 0;
    while i <= last
        invariant
            n == needle@.len(),
            h == hay@.len(),
            last == h - n,
            i <= last + 1,
            forall|k: int| 0 <= k < i ==> !#[trigger] occurs_at(hay@, needle@, k),
        decreases last + 1 - i,
    {
        let mut j: usize = 0;
        while j < n && hay[i + j] == needle[j]
            invariant
                n == needle@.len(),
                h == hay@.len(),
                i <= last == h - n,
                j <= n,
                forall|k: int| 0 <= k < j ==> hay@[i + k] == needle@[k],
            decreases n - j,
        {
            j += 1;
        }
        if j == n {
            assert(hay@.subrange(i as int, i + n) == needle@);
            assert(occurs_at(hay@, needle@, i as int));
            return true;
        }
        assert(hay@.subrange(i as int, i + n)[j as int] != needle@[j as int]);
        i += 1;
    }
    assert forall|k: int| !occurs_at(hay@, needle@, k) by {
        if 0 <= k < i {
        }
    }
    false
}

// ---------------------------------------------------------------------------
// Escaping for TOML basic strings
// ---------------------------------------------------------------------------

/// How one character is written inside a TOML basic string: a backslash or
/// a double quote gets a backslash in front, anything else stands as is.
pub open spec fn escape_char(c: char) -> Seq<char> {
    if c == '\\' {
        seq!['\\', '\\']
    } else if c == '"' {
        seq!['\\', '"']
    } else {
        seq![c]
    }
}

/// `s` with every backslash and double quote escaped.
pub open spec fn escaped(s: Seq<char>) -> Seq<char>
    decreases s.len(),
{
    if s.len() == 0 {
        seq![]
    } else {
        escaped(s.drop_last()) + escape_char(s.last())
    }
}

/// Reads escapes back: a backslash stands for the character after it.
pub open spec fn unescaped(s: Seq<char>) -> Seq<char>
    decreases s.len(),
{
    if s.len() == 0 {
        seq![]
    } else if s[0] == '\\' && s.len() >= 2 {
        seq![s[1]] + unescaped(s.skip(2))
    } else {
        seq![s[0]] + unescaped(s.drop_first())
    }
}

/// Appends `s`, escaped, to `out`.
pub fn push_escaped(out: &mut String, s: &str)
    ensures
        final(out)@ == old(out)@ + escaped(s@),
{
    let v = chars_of(s);
    let n = v.len();
    let ghost start = out@;
    for i in 0..n
        invariant
            n == v@.len(),
            v@ == s@,
            out@ == start + escaped(v@.take(i as int)),
    {
        let c = v[i];
        assert(v@.take(i + 1).drop_last() == v@.take(i as int));
        if c == '\\' {
            push_char(out, '\\');
            push_char(out, '\\');
        } else if c == '"' {
            push_char(out, '\\');
            push_char(out, '"');
        } else {
            push_char(out, c);
        }
        assert(out@ == start + escaped(v@.take(i + 1)));
    }
    assert(v@.take(n as int) == v@);
}

/// Escapes a string for a TOML basic (`"..."`) string: backslash and quote.
pub fn toml_escape(s: &str) -> (r: String)
    ensures
        r@ == escaped(s@),
{
    let mut r = String::new();
    push_escaped(&mut r, s);
    r
}

// ---------------------------------------------------------------------------
// Decimal numbers
// ---------------------------------------------------------------------------

/// The digit character for `d < 10`.
pub open spec fn digit_char(d: nat) -> char {
    if d == 0 { '0' }
    else if d == 1 { '1' }
    else if d == 2 { '2' }
    else if d == 3 { '3' }
    else if d == 4 { '4' }
    else if d == 5 { '5' }
    else if d == 6 { '6' }
    else if d == 7 { '7' }
    else if d == 8 { '8' }
    else { '9' }
}

/// Whether `c` is an ASCII decimal digit.
pub open spec fn is_digit(c: char) -> bool {
    '0' <= c <= '9'
}

/// The value of the digit character `c`.
pub open spec fn digit_value(c: char) -> nat {
    (c as u32 - '0' as u32) as nat
}

/// `n` written in decimal, without sign or leading zeros (what
/// `u32::to_string` gives).
pub open spec fn decimal(n: nat) -> Seq<char>
    decreases n,
{
    if n < 10 {
        seq![digit_char(n)]
    } else {
        decimal(n / 10).push(digit_char(n % 10))
    }
}

/// Every character of `s` is a decimal digit.
pub open spec fn all_digits(s: Seq<char>) -> bool {
    forall|i: int| 0 <= i < s.len() ==> #[trigger] is_digit(s[i])
}

/// The value of a string of decimal digits.
pub open spec fn digits_value(s: Seq<char>) -> nat
    decreases s.len(),
{
    if s.len() == 0 {
        0
    } else {
        digits_value(s.drop_last()) * 10 + digit_value(s.last())
    }
}

/// `s` without one leading `+`, if it has one.
pub open spec fn unsigned_body(s: Seq<char>) -> Seq<char> {
    if s.len() > 0 && s[0] == '+' {
        s.drop_first()
    } else {
        s
    }
}

/// What `str::parse::<u32>` accepts: an optional `+`, then one or more
/// decimal digits whose value fits in a `u32`.
pub open spec fn parse_u32_spec(s: Seq<char>) -> Option<u32> {
    let body = unsigned_body(s);
    if body.len() > 0 && all_digits(body) && digits_value(body) <= u32::MAX {
        Some(digits_value(body) as u32)
    } else {
        None
    }
}

/// The digit character for `d`.
fn digit(d: u32) -> (c: char)
    requires
        d < 10,
    ensures
        c == digit_char(d as nat),
{
    if d == 0 { '0' }
    else if d == 1 { '1' }
    else if d == 2 { '2' }
    else if d == 3 { '3' }
    else if d == 4 { '4' }
    else if d == 5 { '5' }
    else if d == 6 { '6' }
    else if d == 7 { '7' }
    else if d == 8 { '8' }
    else { '9' }
}

/// Appends `n` in decimal to `out`.
pub fn push_decimal(out: &mut String, n: u32)
    ensures
        final(out)@ == old(out)@ + decimal(n as nat),
    decreases n,
{
    if n >= 10 {
        push_decimal(out, n / 10);
    }
    push_char(out, digit(n % 10));
}

/// `n` in decimal.
pub fn decimal_string(n: u32) -> (r: String)
    ensures
        r@ == decimal(n as nat),
{
    let mut r = String::new();
    push_decimal(&mut r, n);
    r
}

/// Whether `c` is an ASCII decimal digit.
pub fn is_ascii_digit(c: char) -> (b: bool)
    ensures
        b == is_digit(c),
{
    '0' <= c && c <= '9'
}

/// Parses a `u32` the way `str::parse::<u32>` does: an optional `+`, then
/// decimal digits; `None` when empty, on any other character, or on overflow.
pub fn parse_u32(s: &str) -> (r: Option<u32>)
    ensures
        r == parse_u32_spec(s@),
{
    let v = chars_of(s);
    let n = v.len();
    let start: usize = if n > 0 && v[0] == '+' { 1 } else { 0 };
    let ghost body = unsigned_body(s@);
    assert(body == v@.skip(start as int));
    if start >= n {
        return None;
    }
    // The value read so far, capped just above `u32::MAX`.
    let cap: u64 = 0x1_0000_0000;
    let mut acc: u64 = 0;
    let mut i: usize = start;
    while i < n
        invariant
            start <= i <= n == v@.len(),
            body == v@.skip(start as int),
            body == unsigned_body(s@),
            cap == 0x1_0000_0000,
            all_digits(v@.subrange(start as int, i as int)),
            acc == if digits_value(v@.subrange(start as int, i as int)) < cap {
                digits_value(v@.subrange(start as int, i as int))
            } else {
                cap as nat
            },
        decreases n - i,
    {
        let c = v[i];
        if !is_ascii_digit(c) {
            assert(body[i - start] == v@[i as int]);
            assert(!is_digit(body[i - start]));
            assert(!all_digits(body));
            return None;
        }
        let d = (c as u32 - '0' as u32) as u64;
        let ghost pre = v@.subrange(start as int, i as int);
        let ghost post = v@.subrange(start as int, i + 1);
        assert(post.drop_last() == pre);
        assert(digits_value(post) == digits_value(pre) * 10 + d);
        if acc >= cap {
            assert(digits_value(post) >= cap) by (nonlinear_arith)
                requires digits_value(pre) >= cap, digits_value(post) == digits_value(pre) * 10 + d;
            acc = cap;
        } else {
            let next = acc * 10 + d;
            if next >= cap {
                acc = cap;
            } else {
                acc = next;
            }
        }
        assert forall|k: int| 0 <= k < post.len() implies #[trigger] is_digit(post[k]) by {
            if k < pre.len() {
                assert(post[k] == pre[k]);
            }
        }
        i += 1;
    }
    assert(v@.subrange(start as int, n as int) == body);
    if acc >= cap {
        None
    } else {
        Some(acc as u32)
    }
}


// ---------------------------------------------------------------------------
// Laws
// ---------------------------------------------------------------------------

/// Escaping distributes over concatenation.
proof fn lemma_escaped_concat(a: Seq<char>, b: Seq<char>)
    ensures
        escaped(a + b) == escaped(a) + escaped(b),
    decreases b.len(),
{
    if b.len() == 0 {
        assert(a + b == a);
        assert(escaped(a) + escaped(b) == escaped(a));
    } else {
        lemma_escaped_concat(a, b.drop_last());
        assert((a + b).drop_last() == a + b.drop_last());
        assert((a + b).last() == b.last());
    }
}

/// Escaping can be undone: reading the escapes back gives the same
/// text, so a sentence written into the file reads back unchanged.
pub proof fn lemma_unescape_escaped(s: Seq<char>)
    ensures
        unescaped(escaped(s)) == s,
    decreases s.len(),
{
    if s.len() > 0 {
        let c = s[0];
        let rest = s.drop_first();
        assert(s == seq![c] + rest);
        lemma_escaped_concat(seq![c], rest);
        assert(seq![c].drop_last() == Seq::<char>::empty());
        assert(escaped(Seq::<char>::empty()) == Seq::<char>::empty());
        assert(escaped(seq![c]) =~= escape_char(c));
        lemma_unescape_escaped(rest);
        let e = escaped(s);
        assert(e == escape_char(c) + escaped(rest));
        if c == '\\' || c == '"' {
            assert(e.skip(2) == escaped(rest));
            assert(unescaped(e) == seq![c] + unescaped(escaped(rest)));
        } else {
            assert(e.drop_first() == escaped(rest));
            assert(unescaped(e) == seq![c] + unescaped(escaped(rest)));
        }
    }
}

/// `s` holds no whitespace.
pub open spec fn no_white(s: Seq<char>) -> bool {
    forall|i: int| 0 <= i < s.len() ==> !#[trigger] is_white(s[i])
}

/// While reading words, the finished words are non-empty and hold no
/// whitespace, nor does the word being read.
proof fn lemma_word_scan_clean(s: Seq<char>)
    ensures
        forall|k: int|
            0 <= k < word_scan(s).0.len() ==> (#[trigger] word_scan(s).0[k]).len() > 0
                && no_white(word_scan(s).0[k]),
        no_white(word_scan(s).1),
    decreases s.len(),
{
    if s.len() > 0 {
        lemma_word_scan_clean(s.drop_last());
    }
}

/// Stripping leading `#`s leaves no `#` in front and adds no whitespace.
proof fn lemma_strip_hashes_clean(w: Seq<char>)
    ensures
        strip_hashes(w).len() > 0 ==> strip_hashes(w)[0] != '#',
        no_white(w) ==> no_white(strip_hashes(w)),
    decreases w.len(),
{
    if w.len() > 0 && w[0] == '#' {
        lemma_strip_hashes_clean(w.drop_first());
    }
}

/// Every tag is a non-empty word without whitespace that does not start
/// with `#`.
pub proof fn lemma_tags_clean(s: Seq<char>)
    ensures
        forall|k: int|
            0 <= k < tags_of(s).len() ==> {
                let t = #[trigger] tags_of(s)[k];
                &&& t.len() > 0
                &&& t[0] != '#'
                &&& no_white(t)
            },
{
    lemma_word_scan_clean(s);
    let ws = words(s);
    assert forall|k: int| 0 <= k < ws.len() implies no_white(#[trigger] ws[k]) by {
        if k < word_scan(s).0.len() {
            assert(ws[k] == word_scan(s).0[k]);
        }
    }
    lemma_clean_tags_clean(ws);
}

/// Cleaning words whose characters are not whitespace gives non-empty tags
/// without whitespace that do not start with `#`.
proof fn lemma_clean_tags_clean(ws: Seq<Seq<char>>)
    requires
        forall|k: int| 0 <= k < ws.len() ==> no_white(#[trigger] ws[k]),
    ensures
        forall|k: int|
            0 <= k < clean_tags(ws).len() ==> {
                let t = #[trigger] clean_tags(ws)[k];
                &&& t.len() > 0
                &&& t[0] != '#'
                &&& no_white(t)
            },
    decreases ws.len(),
{
    if ws.len() > 0 {
        let init = ws.drop_last();
        assert forall|k: int| 0 <= k < init.len() implies no_white(#[trigger] init[k]) by {
            assert(init[k] == ws[k]);
        }
        lemma_clean_tags_clean(init);
        assert(no_white(ws[ws.len() - 1]));
        lemma_strip_hashes_clean(ws.last());
        let rest = clean_tags(init);
        let t = strip_hashes(ws.last());
        if t.len() > 0 {
            let all = rest.push(t);
            assert(clean_tags(ws) == all);
            assert forall|k: int| 0 <= k < all.len() implies {
                let u = #[trigger] all[k];
                &&& u.len() > 0
                &&& u[0] != '#'
                &&& no_white(u)
            } by {
                if k < rest.len() {
                    assert(all[k] == rest[k]);
                }
            }
        }
    }
}

/// A digit's value is the digit.
proof fn lemma_digit_value(d: nat)
    requires
        d < 10,
    ensures
        is_digit(digit_char(d)),
        digit_value(digit_char(d)) == d,
        !is_white(digit_char(d)),
        digit_char(d) != '+',
{
}

/// Writing a number in decimal and reading it back gives the number.
pub proof fn lemma_decimal_value(n: nat)
    ensures
        decimal(n).len() > 0,
        all_digits(decimal(n)),
        no_white(decimal(n)),
        digits_value(decimal(n)) == n,
    decreases n,
{
    if n < 10 {
        lemma_digit_value(n);
        assert(decimal(n).drop_last() == Seq::<char>::empty());
        assert(digits_value(Seq::<char>::empty()) == 0);
    } else {
        lemma_decimal_value(n / 10);
        lemma_digit_value(n % 10);
        let d = decimal(n);
        assert(d.drop_last() == decimal(n / 10));
        assert(d.last() == digit_char(n % 10));
        assert(digits_value(d) == digits_value(decimal(n / 10)) * 10 + digit_value(d.last()));
        assert((n / 10) * 10 + n % 10 == n);
        assert forall|i: int| 0 <= i < d.len() implies #[trigger] is_digit(d[i]) && !is_white(d[i]) by {
            if i < d.len() - 1 {
                assert(d[i] == decimal(n / 10)[i]);
            }
        }
    }
}

/// A string without whitespace is its own trim.
proof fn lemma_trimmed_no_white(s: Seq<char>)
    requires
        no_white(s),
    ensures
        trimmed(s) == s,
{
    if s.len() > 0 {
        assert(!is_white(s[0]));
        assert(!is_white(s[s.len() - 1]));
    }
}

/// A number written in decimal parses back to itself, also after
/// trimming: what the Settings screen shows for a rate reads back as it.
pub proof fn lemma_decimal_roundtrip(n: u32)
    ensures
        parse_u32_spec(trimmed(decimal(n as nat))) == Some(n),
{
    let d = decimal(n as nat);
    lemma_decimal_value(n as nat);
    lemma_trimmed_no_white(d);
    assert(is_digit(d[0]));
    assert(d[0] != '+');
    assert(unsigned_body(d) == d);
}


/// Reading a run of non-whitespace after a finished word extends the word
/// being read by that run.
proof fn lemma_scan_word(p: Seq<char>, w: Seq<char>)
    requires
        word_scan(p).1.len() == 0,
        no_white(w),
    ensures
        word_scan(p + w) == (word_scan(p).0, w),
    decreases w.len(),
{
    if w.len() == 0 {
        assert(p + w == p);
        assert(word_scan(p).1 == w);
    } else {
        let init = w.drop_last();
        assert(no_white(init)) by {
            assert forall|i: int| 0 <= i < init.len() implies !#[trigger] is_white(init[i]) by {
                assert(init[i] == w[i]);
            }
        }
        lemma_scan_word(p, init);
        assert((p + w).drop_last() == p + init);
        assert((p + w).last() == w.last());
        assert(!is_white(w[w.len() - 1]));
        assert(init.push(w.last()) == w);
    }
}

/// Joining words that are non-empty and free of whitespace with single
/// spaces and reading them back leaves all but the last finished and the
/// last being read.
proof fn lemma_scan_joined(ts: Seq<Seq<char>>)
    requires
        ts.len() > 0,
        forall|k: int| 0 <= k < ts.len() ==> (#[trigger] ts[k]).len() > 0 && no_white(ts[k]),
    ensures
        word_scan(join(ts, seq![' '])) == (ts.drop_last(), ts.last()),
    decreases ts.len(),
{
    if ts.len() == 1 {
        assert(word_scan(Seq::<char>::empty()) == (Seq::<Seq<char>>::empty(), Seq::<char>::empty()));
        lemma_scan_word(Seq::<char>::empty(), ts[0]);
        assert(Seq::<char>::empty() + ts[0] == ts[0]);
        assert(ts.drop_last() == Seq::<Seq<char>>::empty());
    } else {
        let init = ts.drop_last();
        assert forall|k: int| 0 <= k < init.len() implies (#[trigger] init[k]).len() > 0
            && no_white(init[k]) by {
            assert(init[k] == ts[k]);
        }
        lemma_scan_joined(init);
        let p = join(init, seq![' ']);
        let q = p + seq![' '];
        assert(q.drop_last() == p);
        assert(q.last() == ' ');
        assert(is_white(' '));
        assert(init.last().len() > 0);
        assert(init.drop_last().push(init.last()) == init);
        assert(word_scan(q) == (init, Seq::<char>::empty()));
        assert(no_white(ts.last()));
        lemma_scan_word(q, ts.last());
        assert(join(ts, seq![' ']) == q + ts.last());
    }
}

/// Joining clean tags with spaces and reading tags back gives the same
/// tags, so editing a sentence without touching its tags keeps them.
pub proof fn lemma_tags_of_joined(ts: Seq<Seq<char>>)
    requires
        forall|k: int|
            0 <= k < ts.len() ==> (#[trigger] ts[k]).len() > 0 && no_white(ts[k]) && ts[k][0]
                != '#',
    ensures
        tags_of(join(ts, seq![' '])) == ts,
{
    if ts.len() == 0 {
        assert(word_scan(Seq::<char>::empty()).1.len() == 0);
        assert(words(Seq::<char>::empty()) == Seq::<Seq<char>>::empty());
    } else {
        lemma_scan_joined(ts);
        assert(ts.last().len() > 0);
        assert(words(join(ts, seq![' '])) == ts.drop_last().push(ts.last()));
        assert(ts.drop_last().push(ts.last()) == ts);
    }
    lemma_clean_tags_identity(ts);
}

/// Tags that are already clean stay as they are.
proof fn lemma_clean_tags_identity(ts: Seq<Seq<char>>)
    requires
        forall|k: int| 0 <= k < ts.len() ==> (#[trigger] ts[k]).len() > 0 && ts[k][0] != '#',
    ensures
        clean_tags(ts) == ts,
    decreases ts.len(),
{
    if ts.len() > 0 {
        let init = ts.drop_last();
        assert forall|k: int| 0 <= k < init.len() implies (#[trigger] init[k]).len() > 0
            && init[k][0] != '#' by {
            assert(init[k] == ts[k]);
        }
        lemma_clean_tags_identity(init);
        assert(ts[ts.len() - 1][0] != '#');
        assert(strip_hashes(ts.last()) == ts.last());
        assert(init.push(ts.last()) == ts);
    }
}


/// `q` can stand between the quotes of a TOML basic string: every
/// backslash escapes the character after it, and no double quote stands
/// unescaped (one would end the string early).
pub open spec fn basic_string_body(q: Seq<char>) -> bool
    decreases q.len(),
{
    if q.len() == 0 {
        true
    } else if q[0] == '\\' {
        q.len() >= 2 && basic_string_body(q.skip(2))
    } else if q[0] == '"' {
        false
    } else {
        basic_string_body(q.drop_first())
    }
}

/// Any text, once escaped, can stand inside a TOML basic string and reads
/// back as the text.
pub proof fn lemma_escaped_reads_back(s: Seq<char>)
    ensures
        basic_string_body(escaped(s)),
        unescaped(escaped(s)) == s,
    decreases s.len(),
{
    lemma_unescape_escaped(s);
    if s.len() > 0 {
        let c = s[0];
        let rest = s.drop_first();
        assert(s == seq![c] + rest);
        lemma_escaped_concat(seq![c], rest);
        assert(seq![c].drop_last() == Seq::<char>::empty());
        assert(escaped(Seq::<char>::empty()) == Seq::<char>::empty());
        assert(escaped(seq![c]) =~= escape_char(c));
        lemma_escaped_reads_back(rest);
        let e = escaped(s);
        assert(e == escape_char(c) + escaped(rest));
        if c == '\\' || c == '"' {
            assert(e.skip(2) == escaped(rest));
        } else {
            assert(e.drop_first() == escaped(rest));
        }
    }
}

} // verus!
