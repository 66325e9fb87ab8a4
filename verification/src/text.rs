//! Character and string helpers: trimming, searching, line ends, decimal numbers.

use vstd::prelude::*;

verus! {

/// Appends one character to a string.
pub assume_specification[ String::push ](s: &mut String, c: char)
    ensures
        final(s)@ == old(s)@.push(c),
;

/// The characters with Unicode's `White_Space` property.
pub open spec fn white_space(c: char) -> bool {
    let u = c as int;
    ||| 0x09 <= u <= 0x0d
    ||| u == 0x20
    ||| u == 0x85
    ||| u == 0xa0
    ||| u == 0x1680
    ||| 0x2000 <= u <= 0x200a
    ||| u == 0x2028
    ||| u == 0x2029
    ||| u == 0x202f
    ||| u == 0x205f
    ||| u == 0x3000
}

/// `s` without the whitespace at its end.
pub open spec fn trim_end(s: Seq<char>) -> Seq<char>
    decreases s.len(),
{
    if s.len() > 0 && white_space(s.last()) {
        trim_end(s.drop_last())
    } else {
        s
    }
}

/// Whether `c` has the `White_Space` property.
pub fn is_whitespace(c: char) -> (r: bool)
    ensures
        r == white_space(c),
{
    let u: u32 = c as u32;
    (0x09 <= u && u <= 0x0d) || u == 0x20 || u == 0x85 || u == 0xa0 || u == 0x1680 || (0x2000 <= u
        && u <= 0x200a) || u == 0x2028 || u == 0x2029 || u == 0x202f || u == 0x205f || u == 0x3000
}

/// Length of `s` without the whitespace at its end.
pub fn trimmed_len(s: &Vec<char>) -> (n: usize)
    ensures
        n <= s@.len(),
        s@.take(n as int) == trim_end(s@),
{
    let mut n: usize = s.len();
    proof {
        assert(s@.take(n as int) =~= s@);
    }
    while n > 0 && is_whitespace(s[n - 1])
        invariant
            n <= s@.len(),
            trim_end(s@.take(n as int)) == trim_end(s@),
        decreases n,
    {
        proof {
            let t = s@.take(n as int);
            assert(t.last() == s@[n - 1]);
            assert(t.drop_last() =~= s@.take(n - 1));
        }
        n = n - 1;
    }
    n
}

/// Append `chars` to `s`.
pub fn push_chars(s: &mut String, chars: &Vec<char>)
    ensures
        final(s)@ == old(s)@ + chars@,
{
    let ghost s0 = s@;
    let mut i: usize = 0;
    proof {
        assert(s@ =~= s0 + chars@.take(0));
    }
    while i < chars.len()
        invariant
            i <= chars@.len(),
            s@ == s0 + chars@.take(i as int),
        decreases chars@.len() - i,
    {
        s.push(chars[i]);
        proof {
            assert(s@ =~= s0 + chars@.take(i + 1));
        }
        i = i + 1;
    }
    proof {
        assert(chars@.take(i as int) =~= chars@);
    }
}

/// The decimal digits of `n`, in ASCII.
pub open spec fn decimal(n: nat) -> Seq<u8>
    decreases n,
{
    if n < 10 {
        seq![(0x30 + n) as u8]
    } else {
        decimal(n / 10).push((0x30 + n % 10) as u8)
    }
}

/// Append the decimal digits of `n`.
pub fn push_decimal(out: &mut Vec<u8>, n: usize)
    ensures
        final(out)@ == old(out)@ + decimal(n as nat),
    decreases n,
{
    if n < 10 {
        out.push(0x30 + n as u8);
        proof {
            assert(out@ =~= old(out)@ + decimal(n as nat));
        }
    } else {
        push_decimal(out, n / 10);
        out.push(0x30 + (n % 10) as u8);
        proof {
            assert(out@ =~= old(out)@ + decimal(n as nat));
        }
    }
}

/// Append `bytes` to `out`.
pub fn push_all(out: &mut Vec<u8>, bytes: &[u8])
    ensures
        final(out)@ == old(out)@ + bytes@,
{
    let ghost o0 = out@;
    let mut i: usize = 0;
    proof {
        assert(out@ =~= o0 + bytes@.take(0));
    }
    while i < bytes.len()
        invariant
            i <= bytes@.len(),
            out@ == o0 + bytes@.take(i as int),
        decreases bytes@.len() - i,
    {
        out.push(bytes[i]);
        proof {
            assert(out@ =~= o0 + bytes@.take(i + 1));
        }
        i = i + 1;
    }
    proof {
        assert(bytes@.take(i as int) =~= bytes@);
    }
}

/// `s` without the whitespace at its start.
pub open spec fn trim_start(s: Seq<char>) -> Seq<char>
    decreases s.len(),
{
    if s.len() > 0 && white_space(s[0]) {
        trim_start(s.skip(1))
    } else {
        s
    }
}

/// `s` without the whitespace at either end.
pub open spec fn trim(s: Seq<char>) -> Seq<char> {
    trim_end(trim_start(s))
}

/// All of `s` is whitespace.
pub open spec fn blank(s: Seq<char>) -> bool {
    forall|i: int| 0 <= i < s.len() ==> white_space(#[trigger] s[i])
}

/// `pat` stands at position `i` of `s`.
pub open spec fn occurs_at<A>(s: Seq<A>, pat: Seq<A>, i: int) -> bool {
    0 <= i && i + pat.len() <= s.len() && s.subrange(i, i + pat.len()) == pat
}

/// `pat` stands somewhere in `s`.
pub open spec fn occurs<A>(s: Seq<A>, pat: Seq<A>) -> bool {
    exists|i: int| occurs_at(s, pat, i)
}

/// `s` ends in `pat`.
pub open spec fn has_suffix<A>(s: Seq<A>, pat: Seq<A>) -> bool {
    occurs_at(s, pat, s.len() - pat.len())
}

/// The characters of `s`.
pub fn chars_of(s: &str) -> (v: Vec<char>)
    ensures
        v@ == s@,
{
    let mut v: Vec<char> = Vec::new();
    for c in it: s.chars()
        invariant
            v@ == it.seq().take(it.index() as int),
            it.seq() == s@,
    {
        v.push(c);
        proof {
            assert(v@ =~= it.seq().take(it.index() + 1));
        }
    }
    proof {
        assert(v@ =~= s@);
    }
    v
}

/// The string of `chars`.
pub fn string_of(chars: &Vec<char>) -> (s: String)
    ensures
        s@ == chars@,
{
    let mut s: String = String::new();
    push_chars(&mut s, chars);
    proof {
        assert(s@ =~= chars@);
    }
    s
}

/// Whether `pat` stands at position `i` of `s`.
pub fn matches_at(s: &Vec<char>, pat: &Vec<char>, i: usize) -> (r: bool)
    requires
        i + pat@.len() <= s@.len(),
    ensures
        r == occurs_at(s@, pat@, i as int),
{
    let mut j: usize = 0;
    let len: usize = pat.len();
    let end: usize = s.len();
    while j < len
        invariant
            len == pat@.len(),
            end == s@.len(),
            j <= len,
            i + len <= end,
            forall|k: int| 0 <= k < j ==> s@[i + k] == #[trigger] pat@[k],
        decreases len - j,
    {
        if s[i + j] != pat[j] {
            proof {
                assert(s@.subrange(i as int, i + len)[j as int] == s@[i + j]);
            }
            return false;
        }
        j = j + 1;
    }
    proof {
        assert(s@.subrange(i as int, i + len) =~= pat@);
    }
    true
}

/// Whether `pat` stands somewhere in `s`.
pub fn contains(s: &str, pat: &str) -> (r: bool)
    ensures
        r == occurs(s@, pat@),
{
    let text: Vec<char> = chars_of(s);
    let word: Vec<char> = chars_of(pat);
    if word.len() > text.len() {
        return false;
    }
    let count: usize = text.len() - word.len();
    let mut i: usize = 0;
    while i < count
        invariant
            text@ == s@,
            word@ == pat@,
            count == text@.len() - word@.len(),
            i <= count,
            forall|k: int| 0 <= k < i ==> !occurs_at(s@, pat@, k),
        decreases count - i,
    {
        if matches_at(&text, &word, i) {
            return true;
        }
        i = i + 1;
    }
    matches_at(&text, &word, i)
}

/// Whether `s` ends in `pat`.
pub fn ends_with(s: &str, pat: &str) -> (r: bool)
    ensures
        r == has_suffix(s@, pat@),
{
    let s: Vec<char> = chars_of(s);
    let pat: Vec<char> = chars_of(pat);
    if pat.len() > s.len() {
        return false;
    }
    matches_at(&s, &pat, s.len() - pat.len())
}

/// Whether two strings are the same.
pub fn same(a: &str, b: &str) -> (r: bool)
    ensures
        r == (a@ == b@),
{
    let a: Vec<char> = chars_of(a);
    let b: Vec<char> = chars_of(b);
    if a.len() != b.len() {
        return false;
    }
    proof {
        assert(a@.subrange(0, a@.len() as int) =~= a@);
    }
    matches_at(&a, &b, 0)
}

/// Whether all of `s` is whitespace.
pub fn is_blank(s: &str) -> (r: bool)
    ensures
        r == blank(s@),
{
    let v: Vec<char> = chars_of(s);
    let mut i: usize = 0;
    while i < v.len()
        invariant
            v@ == s@,
            i <= v@.len(),
            forall|k: int| 0 <= k < i ==> white_space(#[trigger] v@[k]),
        decreases v@.len() - i,
    {
        if !is_whitespace(v[i]) {
            return false;
        }
        i = i + 1;
    }
    true
}

/// `s` without the whitespace at either end.
pub fn trimmed(s: &str) -> (t: String)
    ensures
        t@ == trim(s@),
{
    let v: Vec<char> = chars_of(s);
    let mut start: usize = 0;
    proof {
        assert(v@.skip(0) =~= v@);
    }
    while start < v.len() && is_whitespace(v[start])
        invariant
            start <= v@.len(),
            trim_start(v@.skip(start as int)) == trim_start(v@),
        decreases v@.len() - start,
    {
        proof {
            assert(v@.skip(start as int).skip(1) =~= v@.skip(start + 1));
        }
        start = start + 1;
    }
    let mut rest: Vec<char> = Vec::new();
    let mut i: usize = start;
    while i < v.len()
        invariant
            start <= i <= v@.len(),
            rest@ == v@.subrange(start as int, i as int),
        decreases v@.len() - i,
    {
        rest.push(v[i]);
        proof {
            assert(rest@ =~= v@.subrange(start as int, i + 1));
        }
        i = i + 1;
    }
    proof {
        assert(rest@ =~= v@.skip(start as int));
    }
    let n: usize = trimmed_len(&rest);
    rest.truncate(n);
    string_of(&rest)
}

/// What is left of a blank string once its ends are trimmed, and of no other: nothing.
pub proof fn law_blank_trims_to_nothing(s: Seq<char>)
    ensures
        blank(s) <==> trim(s).len() == 0,
    decreases s.len(),
{
    if s.len() > 0 && white_space(s[0]) {
        law_blank_trims_to_nothing(s.skip(1));
        assert(forall|i: int| 1 <= i < s.len() ==> s[i] == s.skip(1)[i - 1]);
        assert(forall|i: int| 0 <= i < s.len() - 1 ==> s.skip(1)[i] == s[i + 1]);
    } else if s.len() > 0 {
        lemma_trim_end_keeps(s, 0);
    }
}

/// Trimming the end stops at any character that is no whitespace.
proof fn lemma_trim_end_keeps(s: Seq<char>, i: int)
    requires
        0 <= i < s.len(),
        !white_space(s[i]),
    ensures
        trim_end(s).len() > i,
        trim_end(s)[i] == s[i],
    decreases s.len(),
{
    if white_space(s.last()) {
        lemma_trim_end_keeps(s.drop_last(), i);
    }
}

/// Blanks, tabs and line ends are whitespace, and no visible ASCII character is.
pub proof fn law_white_space(c: char)
    ensures
        c == ' ' || c == '\t' || c == '\n' || c == '\r' ==> white_space(c),
        '!' <= c <= '~' ==> !white_space(c),
{
}

/// Trimming the end keeps the start: what is left is the text up to its last character that is no
/// whitespace.
pub proof fn law_trim_end_keeps_start(s: Seq<char>)
    ensures
        ({
            let t = trim_end(s);
            &&& t.len() <= s.len()
            &&& forall|i: int| 0 <= i < t.len() ==> #[trigger] t[i] == s[i]
            &&& t.len() > 0 ==> !white_space(t[t.len() - 1])
            &&& forall|i: int| t.len() <= i < s.len() ==> white_space(#[trigger] s[i])
        }),
    decreases s.len(),
{
    if s.len() > 0 && white_space(s.last()) {
        let init = s.drop_last();
        law_trim_end_keeps_start(init);
        assert forall|i: int| 0 <= i < trim_end(s).len() implies #[trigger] trim_end(s)[i]
            == s[i] by {
            assert(init[i] == s[i]);
        }
        assert forall|i: int| trim_end(s).len() <= i < s.len() implies white_space(
            #[trigger] s[i],
        ) by {
            if i < init.len() {
                assert(white_space(init[i]));
            }
        }
    }
}

proof fn lemma_trim_start_keeps_end(s: Seq<char>) -> (start: int)
    ensures
        0 <= start <= s.len(),
        trim_start(s) == s.skip(start),
        start < s.len() ==> !white_space(s[start]),
        forall|i: int| 0 <= i < start ==> white_space(#[trigger] s[i]),
    decreases s.len(),
{
    if s.len() > 0 && white_space(s[0]) {
        let rest = s.skip(1);
        let k = lemma_trim_start_keeps_end(rest);
        assert(rest.skip(k) =~= s.skip(k + 1));
        assert forall|i: int| 0 <= i < k + 1 implies white_space(#[trigger] s[i]) by {
            if i > 0 {
                assert(white_space(rest[i - 1]));
            }
        }
        if k < rest.len() {
            assert(s[k + 1] == rest[k]);
        }
        k + 1
    } else {
        assert(s.skip(0) =~= s);
        0
    }
}

/// Trimming both ends keeps what lies between the first and the last character that is no
/// whitespace: the text from `start` on, whole.
pub proof fn law_trim_keeps_middle(s: Seq<char>) -> (start: int)
    ensures
        ({
            let t = trim(s);
            &&& 0 <= start && start + t.len() <= s.len()
            &&& t == s.subrange(start, start + t.len())
            &&& t.len() > 0 ==> !white_space(t[0]) && !white_space(t[t.len() - 1])
            &&& forall|i: int|
                0 <= i < s.len() && !(start <= i < start + t.len()) ==> white_space(#[trigger] s[i])
        }),
{
    let start = lemma_trim_start_keeps_end(s);
    let rest = trim_start(s);
    let t = trim(s);
    law_trim_end_keeps_start(rest);
    assert(t =~= s.subrange(start, start + t.len()));
    assert forall|i: int|
        0 <= i < s.len() && !(start <= i < start + t.len()) implies white_space(#[trigger] s[i]) by {
        if i >= start {
            assert(rest[i - start] == s[i]);
        }
    }
    start
}

/// The number that decimal digits stand for.
pub open spec fn decimal_value(digits: Seq<u8>) -> int
    decreases digits.len(),
{
    if digits.len() == 0 {
        0
    } else {
        decimal_value(digits.drop_last()) * 10 + (digits.last() - 0x30)
    }
}

/// The decimal digits of a number are digits, the first of several is not 0, and they stand for
/// that number.
pub proof fn law_decimal_reads_back(n: nat)
    ensures
        ({
            let d = decimal(n);
            &&& d.len() > 0
            &&& decimal_value(d) == n
            &&& forall|i: int| 0 <= i < d.len() ==> 0x30 <= #[trigger] d[i] <= 0x39
            &&& d.len() > 1 ==> d[0] != 0x30
        }),
    decreases n,
{
    let d = decimal(n);
    if n < 10 {
        assert(d.drop_last() =~= Seq::<u8>::empty());
        assert(decimal_value(d.drop_last()) == 0);
    } else {
        law_decimal_reads_back(n / 10);
        assert(d.drop_last() =~= decimal(n / 10));
        if decimal(n / 10).len() == 1 {
            assert(n / 10 < 10) by {
                if n / 10 >= 10 {
                    law_decimal_reads_back(n / 10 / 10);
                }
            }
            assert(decimal(n / 10)[0] == 0x30 + n / 10);
        }
    }
}

/// `s` with every line end, `\r\n` or `\n`, written as a single `\r`.
pub open spec fn carriage_returns(s: Seq<char>) -> Seq<char>
    decreases s.len(),
{
    if s.len() == 0 {
        s
    } else if s.last() != '\n' {
        carriage_returns(s.drop_last()).push(s.last())
    } else if s.len() > 1 && s[s.len() - 2] == '\r' {
        carriage_returns(s.drop_last())
    } else {
        carriage_returns(s.drop_last()).push('\r')
    }
}

/// `s` with every line end written as a single `\r`.
pub fn with_carriage_returns(s: &str) -> (t: String)
    ensures
        t@ == carriage_returns(s@),
{
    let v: Vec<char> = chars_of(s);
    let mut t: String = String::new();
    let mut i: usize = 0;
    proof {
        assert(v@.take(0) =~= Seq::<char>::empty());
    }
    while i < v.len()
        invariant
            i <= v@.len(),
            t@ == carriage_returns(v@.take(i as int)),
        decreases v@.len() - i,
    {
        let c: char = v[i];
        proof {
            let next = v@.take(i + 1);
            assert(next.last() == c);
            assert(next.drop_last() =~= v@.take(i as int));
            assert(i > 0 ==> next[next.len() - 2] == v@[i - 1]);
        }
        if c != '\n' {
            t.push(c);
        } else if i == 0 || v[i - 1] != '\r' {
            t.push('\r');
        }
        i = i + 1;
    }
    proof {
        assert(v@.take(i as int) =~= v@);
    }
    t
}

/// No line feed is left, and text without one is kept as it is.
pub proof fn law_carriage_returns_leave_no_line_feed(s: Seq<char>)
    ensures
        !carriage_returns(s).contains('\n'),
        !s.contains('\n') ==> carriage_returns(s) == s,
    decreases s.len(),
{
    if s.len() > 0 {
        let init = s.drop_last();
        law_carriage_returns_leave_no_line_feed(init);
        assert(carriage_returns(s) == carriage_returns(init).push(s.last()) || carriage_returns(s)
            == carriage_returns(init) || carriage_returns(s) == carriage_returns(init).push('\r'));
        assert forall|i: int| 0 <= i < carriage_returns(s).len() implies carriage_returns(s)[i]
            != '\n' by {
            if i < carriage_returns(init).len() {
                assert(carriage_returns(init).contains(carriage_returns(init)[i]));
            }
        }
        if !s.contains('\n') {
            assert(s.contains(s.last()));
            assert(!init.contains('\n')) by {
                assert forall|i: int| 0 <= i < init.len() implies init[i] != '\n' by {
                    assert(s.contains(s[i]));
                }
            }
            assert(init.push(s.last()) =~= s);
        }
    }
}

/// Line ends are rewritten one by one: text is cut anywhere but within a `\r\n`, and its parts
/// rewritten on their own.
pub proof fn law_carriage_returns_piecewise(a: Seq<char>, b: Seq<char>)
    requires
        !(a.len() > 0 && b.len() > 0 && a.last() == '\r' && b[0] == '\n'),
    ensures
        carriage_returns(a + b) == carriage_returns(a) + carriage_returns(b),
    decreases b.len(),
{
    if b.len() == 0 {
        assert(a + b =~= a);
        assert(carriage_returns(a) + carriage_returns(b) =~= carriage_returns(a));
    } else {
        let ab = a + b;
        let init = b.drop_last();
        law_carriage_returns_piecewise(a, init);
        assert(ab.drop_last() =~= a + init);
        assert(ab.last() == b.last());
        if b.len() > 1 {
            assert(ab[ab.len() - 2] == b[b.len() - 2]);
        } else if a.len() > 0 {
            assert(ab[ab.len() - 2] == a.last());
        }
        assert(carriage_returns(ab) =~= carriage_returns(a) + carriage_returns(b));
    }
}

/// Each line end, `\r\n` or `\n`, becomes one `\r`, and every other character stays itself.
pub proof fn law_line_end_becomes_return(c: char)
    ensures
        carriage_returns(seq!['\r', '\n']) == seq!['\r'],
        carriage_returns(seq!['\n']) == seq!['\r'],
        c != '\n' ==> carriage_returns(seq![c]) == seq![c],
        carriage_returns(seq![]) == Seq::<char>::empty(),
{
    reveal_with_fuel(carriage_returns, 3);
    let empty = Seq::<char>::empty();
    assert(seq!['\n'].drop_last() =~= empty);
    assert(seq![c].drop_last() =~= empty);
    assert(seq!['\r'].drop_last() =~= empty);
    assert(seq!['\r', '\n'].drop_last() =~= seq!['\r']);
    assert(carriage_returns(seq!['\r']) =~= seq!['\r']);
    assert(carriage_returns(seq!['\n']) =~= seq!['\r']);
    assert(carriage_returns(seq![c]) =~= if c != '\n' { seq![c] } else { seq!['\r'] });
}

/// What `str::to_lowercase` makes of `s`.
pub uninterp spec fn lowercase(s: Seq<char>) -> Seq<char>;

/// The lower case of an ASCII character.
pub open spec fn ascii_lower(c: char) -> char {
    if 'A' <= c <= 'Z' {
        (c as u32 + 0x20) as char
    } else {
        c
    }
}

/// `str::to_lowercase`: an ASCII string is lowered letter by letter. What becomes of other
/// characters is left to the name.
#[verifier::external_body]
pub(crate) fn to_lowercase(s: &str) -> (t: String)
    ensures
        t@ == lowercase(s@),
        vstd::utf8::is_ascii_chars(s@) ==> t@ == s@.map_values(|c: char| ascii_lower(c)),
{
    s.to_lowercase()
}

/// What `String::from_utf8_lossy` makes of `bytes`.
pub uninterp spec fn utf8_lossy(bytes: Seq<u8>) -> Seq<char>;

/// `String::from_utf8_lossy`: valid UTF-8 is decoded as it is. How invalid bytes
/// are grouped into replacement characters is left to the name.
#[verifier::external_body]
pub(crate) fn from_utf8_lossy(bytes: &[u8]) -> (s: String)
    ensures
        s@ == utf8_lossy(bytes@),
        vstd::utf8::valid_utf8(bytes@) ==> s@ == vstd::utf8::decode_utf8(bytes@),
{
    String::from_utf8_lossy(bytes).into_owned()
}

/// A text contains a word exactly where it is some text, the word, and some text after it.
pub proof fn law_occurs_where_it_stands(s: Seq<char>, pat: Seq<char>, a: Seq<char>, b: Seq<char>)
    ensures
        occurs(a + pat + b, pat),
        occurs_at(a + pat + b, pat, a.len() as int),
        has_suffix(a + pat, pat),
        occurs(s, pat) ==> exists|i: int|
            0 <= i && i + pat.len() <= s.len() && s == #[trigger] s.take(i) + pat + s.skip(
                i + pat.len(),
            ),
{
    let all = a + pat + b;
    let n = a.len() as int;
    assert(all.subrange(n, n + pat.len()) =~= pat);
    assert(occurs_at(all, pat, n));
    assert((a + pat).subrange(n, n + pat.len()) =~= pat);
    if occurs(s, pat) {
        let i = choose|i: int| occurs_at(s, pat, i);
        let at = s.subrange(i, i + pat.len());
        assert(s =~= s.take(i) + at + s.skip(i + pat.len()));
    }
}

} // verus!
