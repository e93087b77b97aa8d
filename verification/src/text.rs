//! Text as character sequences: building strings, ASCII case, white space
//! and the few `std` string functions the library calls.

use vstd::prelude::*;

verus! {

/// What `str::to_lowercase` returns for a string: the Unicode lowercase mapping,
/// which takes tables to state.
pub uninterp spec fn unicode_lowercase(s: Seq<char>) -> Seq<char>;

/// Calls `str::to_lowercase`. The result is named `unicode_lowercase` of the input;
/// nothing else is claimed of it.
#[verifier::external_body]
pub(crate) fn to_lowercase(s: &str) -> (lower: String)
    ensures
        lower@ == unicode_lowercase(s@),
{
    s.to_lowercase()
}

/// What `String::from_utf8_lossy` returns for bytes: their UTF-8 decoding,
/// with each invalid sequence replaced by U+FFFD.
pub uninterp spec fn utf8_lossy(bytes: Seq<u8>) -> Seq<char>;

/// Calls `String::from_utf8_lossy`. The result is named `utf8_lossy` of the bytes.
#[verifier::external_body]
pub(crate) fn from_utf8_lossy(bytes: &[u8]) -> (text: String)
    ensures
        text@ == utf8_lossy(bytes@),
{
    String::from_utf8_lossy(bytes).into_owned()
}

/// Calls `String::push`, which appends one character at the end.
#[verifier::external_body]
pub(crate) fn push_char(s: &mut String, c: char)
    ensures
        final(s)@ == old(s)@.push(c),
{
    s.push(c)
}

/// Appends a string slice at the end.
pub fn push_str(s: &mut String, t: &str)
    ensures
        final(s)@ == old(s)@ + t@,
{
    s.append(t)
}

/// The views of a sequence of strings.
pub open spec fn strings_view(v: Seq<String>) -> Seq<Seq<char>> {
    v.map_values(|s: String| s@)
}

/// Appends one argument to an argument list.
pub fn push_arg(arguments: &mut Vec<String>, argument: &str)
    ensures
        strings_view(final(arguments)@) == strings_view(old(arguments)@).push(argument@),
{
    arguments.push(argument.to_owned());
    assert(strings_view(arguments@) =~= strings_view(old(arguments)@).push(argument@));
}

/// The characters of a string, in order.
pub fn chars_of(s: &str) -> (v: Vec<char>)
    ensures
        v@ == s@,
{
    let mut v: Vec<char> = Vec::new();
    for c in it: s.chars()
        invariant
            v@ == it.seq().take(it.index() as int),
    {
        v.push(c);
    }
    v
}

/// A string holding the given characters.
pub fn string_of(chars: &Vec<char>) -> (s: String)
    ensures
        s@ == chars@,
{
    let mut s = String::new();
    let mut i: usize = 0;
    while i < chars.len()
        invariant
            i <= chars.len(),
            s@ == chars@.take(i as int),
        decreases chars.len() - i,
    {
        push_char(&mut s, chars[i]);
        assert(chars@.take(i + 1) == chars@.take(i as int).push(chars@[i as int]));
        i = i + 1;
    }
    assert(chars@.take(chars.len() as int) == chars@);
    s
}

/// The code of a character after ASCII case folding: `A`..=`Z` map to `a`..=`z`,
/// every other character keeps its code.
pub open spec fn ascii_folded(c: char) -> u32 {
    if 'A' <= c && c <= 'Z' {
        (c as u32 + 32) as u32
    } else {
        c as u32
    }
}

/// Two character sequences that are equal up to ASCII case.
pub open spec fn eq_ignore_ascii_case_spec(a: Seq<char>, b: Seq<char>) -> bool {
    &&& a.len() == b.len()
    &&& forall|i: int| 0 <= i < a.len() ==> ascii_folded(#[trigger] a[i]) == ascii_folded(b[i])
}

/// Case-insensitive ASCII comparison of two characters.
pub fn char_eq_ignore_ascii_case(a: char, b: char) -> (r: bool)
    ensures
        r == (ascii_folded(a) == ascii_folded(b)),
{
    let x: u32 = a as u32;
    let y: u32 = b as u32;
    let fx: u32 = if 'A' <= a && a <= 'Z' { x + 32 } else { x };
    let fy: u32 = if 'A' <= b && b <= 'Z' { y + 32 } else { y };
    fx == fy
}

/// `str::eq_ignore_ascii_case`: equal lengths and equal characters up to ASCII case.
pub fn eq_ignore_ascii_case(a: &str, b: &str) -> (r: bool)
    ensures
        r == eq_ignore_ascii_case_spec(a@, b@),
{
    let x = chars_of(a);
    let y = chars_of(b);
    if x.len() != y.len() {
        return false;
    }
    let mut i: usize = 0;
    while i < x.len()
        invariant
            x@ == a@,
            y@ == b@,
            x.len() == y.len(),
            i <= x.len(),
            forall|j: int| 0 <= j < i ==> ascii_folded(#[trigger] x@[j]) == ascii_folded(y@[j]),
        decreases x.len() - i,
    {
        if !char_eq_ignore_ascii_case(x[i], y[i]) {
            return false;
        }
        i = i + 1;
    }
    true
}

/// The first `n` characters.
pub fn take_chars(v: &Vec<char>, n: usize) -> (r: Vec<char>)
    requires
        n <= v.len(),
    ensures
        r@ == v@.take(n as int),
{
    let mut r: Vec<char> = Vec::new();
    let mut k: usize = 0;
    while k < n
        invariant
            n <= v.len(),
            k <= n,
            r@ == v@.take(k as int),
        decreases n - k,
    {
        r.push(v[k]);
        assert(v@.take(k + 1) =~= v@.take(k as int).push(v@[k as int]));
        k = k + 1;
    }
    r
}

/// All characters from position `n` on.
pub fn skip_chars(v: &Vec<char>, n: usize) -> (r: Vec<char>)
    requires
        n <= v.len(),
    ensures
        r@ == v@.skip(n as int),
{
    let mut r: Vec<char> = Vec::new();
    let mut k: usize = n;
    while k < v.len()
        invariant
            n <= k <= v.len(),
            r@ == v@.subrange(n as int, k as int),
        decreases v.len() - k,
    {
        r.push(v[k]);
        assert(v@.subrange(n as int, k + 1) =~= v@.subrange(n as int, k as int).push(v@[k as int]));
        k = k + 1;
    }
    assert(v@.subrange(n as int, v.len() as int) =~= v@.skip(n as int));
    r
}

/// `char::is_whitespace`: the Unicode `White_Space` property.
pub open spec fn spec_is_whitespace(c: char) -> bool {
    let x = c as u32;
    ||| 0x09 <= x <= 0x0D
    ||| x == 0x20
    ||| x == 0x85
    ||| x == 0xA0
    ||| x == 0x1680
    ||| 0x2000 <= x <= 0x200A
    ||| x == 0x2028
    ||| x == 0x2029
    ||| x == 0x202F
    ||| x == 0x205F
    ||| x == 0x3000
}

/// Whether a character is Unicode white space.
pub fn is_whitespace(c: char) -> (r: bool)
    ensures
        r == spec_is_whitespace(c),
{
    let x: u32 = c as u32;
    (0x09 <= x && x <= 0x0D) || x == 0x20 || x == 0x85 || x == 0xA0 || x == 0x1680 || (0x2000 <= x
        && x <= 0x200A) || x == 0x2028 || x == 0x2029 || x == 0x202F || x == 0x205F || x == 0x3000
}

/// Number of white-space characters at the start.
pub open spec fn leading_whitespace(s: Seq<char>) -> nat
    decreases s.len(),
{
    if s.len() > 0 && spec_is_whitespace(s[0]) {
        1 + leading_whitespace(s.drop_first())
    } else {
        0
    }
}

/// Number of white-space characters at the end.
pub open spec fn trailing_whitespace(s: Seq<char>) -> nat
    decreases s.len(),
{
    if s.len() > 0 && spec_is_whitespace(s.last()) {
        1 + trailing_whitespace(s.drop_last())
    } else {
        0
    }
}

/// Number of non-white-space characters at the start.
pub open spec fn leading_token(s: Seq<char>) -> nat
    decreases s.len(),
{
    if s.len() > 0 && !spec_is_whitespace(s[0]) {
        1 + leading_token(s.drop_first())
    } else {
        0
    }
}

/// `str::trim`: the string without leading and trailing white space.
pub open spec fn spec_trim(s: Seq<char>) -> Seq<char> {
    let t = s.skip(leading_whitespace(s) as int);
    t.take(t.len() - trailing_whitespace(t))
}

proof fn lemma_leading_whitespace(s: Seq<char>, k: int)
    requires
        0 <= k <= s.len(),
        forall|j: int| 0 <= j < k ==> spec_is_whitespace(#[trigger] s[j]),
        k == s.len() || !spec_is_whitespace(s[k]),
    ensures
        leading_whitespace(s) == k,
    decreases k,
{
    if k > 0 {
        lemma_leading_whitespace(s.drop_first(), k - 1);
    }
}

proof fn lemma_leading_token(s: Seq<char>, k: int)
    requires
        0 <= k <= s.len(),
        forall|j: int| 0 <= j < k ==> !spec_is_whitespace(#[trigger] s[j]),
        k == s.len() || spec_is_whitespace(s[k]),
    ensures
        leading_token(s) == k,
    decreases k,
{
    if k > 0 {
        lemma_leading_token(s.drop_first(), k - 1);
    }
}

proof fn lemma_trailing_whitespace(s: Seq<char>, k: int)
    requires
        0 <= k <= s.len(),
        forall|j: int| s.len() - k <= j < s.len() ==> spec_is_whitespace(#[trigger] s[j]),
        k == s.len() || !spec_is_whitespace(s[s.len() - k - 1]),
    ensures
        trailing_whitespace(s) == k,
    decreases k,
{
    if k > 0 {
        lemma_trailing_whitespace(s.drop_last(), k - 1);
    }
}

/// Count of white space at the start of `v[from..]`.
pub fn count_leading_whitespace(v: &Vec<char>, from: usize) -> (n: usize)
    requires
        from <= v.len(),
    ensures
        n == leading_whitespace(v@.skip(from as int)),
        from + n <= v.len(),
{
    let mut k: usize = from;
    while k < v.len() && is_whitespace(v[k])
        invariant
            from <= k <= v.len(),
            forall|j: int| from <= j < k ==> spec_is_whitespace(#[trigger] v@[j]),
        decreases v.len() - k,
    {
        k = k + 1;
    }
    proof {
        let t = v@.skip(from as int);
        assert forall|j: int| 0 <= j < k - from implies spec_is_whitespace(#[trigger] t[j]) by {
            assert(t[j] == v@[from + j]);
        }
        lemma_leading_whitespace(t, k - from);
    }
    k - from
}

/// Count of non-white-space characters at the start of `v[from..]`.
pub fn count_leading_token(v: &Vec<char>, from: usize) -> (n: usize)
    requires
        from <= v.len(),
    ensures
        n == leading_token(v@.skip(from as int)),
        from + n <= v.len(),
{
    let mut k: usize = from;
    while k < v.len() && !is_whitespace(v[k])
        invariant
            from <= k <= v.len(),
            forall|j: int| from <= j < k ==> !spec_is_whitespace(#[trigger] v@[j]),
        decreases v.len() - k,
    {
        k = k + 1;
    }
    proof {
        let t = v@.skip(from as int);
        assert forall|j: int| 0 <= j < k - from implies !spec_is_whitespace(#[trigger] t[j]) by {
            assert(t[j] == v@[from + j]);
        }
        lemma_leading_token(t, k - from);
    }
    k - from
}

/// The characters of `v[from..to]`.
pub fn slice_chars(v: &Vec<char>, from: usize, to: usize) -> (r: Vec<char>)
    requires
        from <= to <= v.len(),
    ensures
        r@ == v@.subrange(from as int, to as int),
{
    let mut r: Vec<char> = Vec::new();
    let mut k: usize = from;
    while k < to
        invariant
            from <= k <= to <= v.len(),
            r@ == v@.subrange(from as int, k as int),
        decreases to - k,
    {
        r.push(v[k]);
        assert(v@.subrange(from as int, k + 1) =~= v@.subrange(from as int, k as int).push(v@[k as int]));
        k = k + 1;
    }
    r
}

/// `str::trim`.
pub fn trim(s: &str) -> (r: String)
    ensures
        r@ == spec_trim(s@),
{
    let v = chars_of(s);
    let lead = count_leading_whitespace(&v, 0);
    assert(v@.skip(0) =~= v@);
    let ghost t = v@.skip(lead as int);
    let mut end: usize = v.len();
    while end > lead && is_whitespace(v[end - 1])
        invariant
            lead <= end <= v.len(),
            forall|j: int| end <= j < v.len() ==> spec_is_whitespace(#[trigger] v@[j]),
        decreases end,
    {
        end = end - 1;
    }
    proof {
        let k = v.len() - end;
        assert forall|j: int| t.len() - k <= j < t.len() implies spec_is_whitespace(#[trigger] t[j]) by {
            assert(t[j] == v@[lead + j]);
        }
        if end > lead {
            assert(t[t.len() - k - 1] == v@[end - 1]);
        }
        lemma_trailing_whitespace(t, k);
        assert(t.take(t.len() - k) =~= v@.subrange(lead as int, end as int));
    }
    string_of(&slice_chars(&v, lead, end))
}

/// Index of the first `c` in `s`, or -1.
pub open spec fn index_of(s: Seq<char>, c: char) -> int
    decreases s.len(),
{
    if s.len() == 0 {
        -1
    } else if s[0] == c {
        0
    } else {
        let r = index_of(s.drop_first(), c);
        if r < 0 {
            -1
        } else {
            r + 1
        }
    }
}

pub proof fn lemma_index_of(s: Seq<char>, c: char, k: int)
    requires
        0 <= k <= s.len(),
        forall|j: int| 0 <= j < k ==> #[trigger] s[j] != c,
        k < s.len() ==> s[k] == c,
    ensures
        index_of(s, c) == if k < s.len() { k } else { -1 },
    decreases k,
{
    if k > 0 {
        lemma_index_of(s.drop_first(), c, k - 1);
    }
}

pub proof fn lemma_index_of_bound(s: Seq<char>, c: char)
    ensures
        -1 <= index_of(s, c) < s.len(),
    decreases s.len(),
{
    if s.len() > 0 && s[0] != c {
        lemma_index_of_bound(s.drop_first(), c);
    }
}

/// Appends a list of arguments.
pub fn append_args(arguments: &mut Vec<String>, more: &Vec<String>)
    ensures
        strings_view(final(arguments)@) == strings_view(old(arguments)@) + strings_view(more@),
{
    let ghost start = strings_view(arguments@);
    let mut i: usize = 0;
    while i < more.len()
        invariant
            i <= more.len(),
            strings_view(arguments@) == start + strings_view(more@.take(i as int)),
        decreases more.len() - i,
    {
        push_arg(arguments, more[i].as_str());
        assert(strings_view(more@.take(i + 1)) =~= strings_view(more@.take(i as int)).push(more@[i as int]@));
        i = i + 1;
    }
    assert(more@.take(more.len() as int) =~= more@);
}

/// Whether two texts are equal.
pub fn same_text(a: &str, b: &str) -> (r: bool)
    ensures
        r == (a@ == b@),
{
    a.to_owned() == b.to_owned()
}

/// Every character is white space.
pub open spec fn all_whitespace(s: Seq<char>) -> bool {
    forall|i: int| 0 <= i < s.len() ==> spec_is_whitespace(#[trigger] s[i])
}

proof fn lemma_leading_bound(s: Seq<char>)
    ensures
        leading_whitespace(s) <= s.len(),
        leading_whitespace(s) == s.len() <==> all_whitespace(s),
    decreases s.len(),
{
    if s.len() > 0 {
        lemma_leading_bound(s.drop_first());
        if spec_is_whitespace(s[0]) {
            if all_whitespace(s.drop_first()) {
                assert forall|i: int| 0 <= i < s.len() implies spec_is_whitespace(#[trigger] s[i]) by {
                    if i > 0 {
                        assert(s[i] == s.drop_first()[i - 1]);
                    }
                }
            } else {
                let j = choose|j: int| 0 <= j < s.drop_first().len() && !spec_is_whitespace(#[trigger] s.drop_first()[j]);
                assert(s[j + 1] == s.drop_first()[j]);
            }
        } else {
            assert(!spec_is_whitespace(s[0]));
        }
    } else {
        assert(all_whitespace(s));
    }
}

proof fn lemma_trailing_bound(s: Seq<char>)
    ensures
        trailing_whitespace(s) <= s.len(),
    decreases s.len(),
{
    if s.len() > 0 {
        lemma_trailing_bound(s.drop_last());
    }
}

proof fn lemma_leading_concat(x: Seq<char>, y: Seq<char>)
    ensures
        leading_whitespace(x + y) == if leading_whitespace(x) < x.len() {
            leading_whitespace(x)
        } else {
            x.len() + leading_whitespace(y)
        },
    decreases x.len(),
{
    if x.len() == 0 {
        assert(x + y =~= y);
    } else {
        assert((x + y)[0] == x[0]);
        if spec_is_whitespace(x[0]) {
            assert((x + y).drop_first() =~= x.drop_first() + y);
            lemma_leading_concat(x.drop_first(), y);
        }
    }
}

proof fn lemma_trailing_concat(x: Seq<char>, w: Seq<char>)
    requires
        all_whitespace(w),
    ensures
        trailing_whitespace(x + w) == trailing_whitespace(x) + w.len(),
    decreases w.len(),
{
    if w.len() == 0 {
        assert(x + w =~= x);
    } else {
        assert((x + w).last() == w.last());
        assert(spec_is_whitespace(w[w.len() - 1]));
        assert((x + w).drop_last() =~= x + w.drop_last());
        assert(all_whitespace(w.drop_last())) by {
            assert forall|i: int| 0 <= i < w.drop_last().len() implies spec_is_whitespace(#[trigger] w.drop_last()[i]) by {
                assert(w.drop_last()[i] == w[i]);
            }
        }
        lemma_trailing_concat(x, w.drop_last());
    }
}

/// Trimming ignores white space around the text: adding white space before or
/// after it does not change the result.
pub proof fn law_trim_ignores_surrounding_whitespace(before: Seq<char>, s: Seq<char>, after: Seq<char>)
    requires
        all_whitespace(before),
        all_whitespace(after),
    ensures
        spec_trim(before + s + after) == spec_trim(s),
{
    let whole = before + s + after;
    lemma_leading_bound(before);
    lemma_leading_bound(s);
    lemma_leading_bound(after);
    lemma_leading_concat(before, s + after);
    assert(whole =~= before + (s + after));
    lemma_leading_concat(s, after);
    let u = s.skip(leading_whitespace(s) as int);
    lemma_trailing_bound(u);
    if leading_whitespace(s) < s.len() {
        assert(whole.skip(leading_whitespace(whole) as int) =~= u + after);
        lemma_trailing_concat(u, after);
        assert((u + after).take((u + after).len() - trailing_whitespace(u + after)) =~= u.take(u.len() - trailing_whitespace(u)));
    } else {
        assert(leading_whitespace(whole) == whole.len());
        assert(whole.skip(whole.len() as int) =~= Seq::<char>::empty());
        assert(u =~= Seq::<char>::empty());
        assert(trailing_whitespace(Seq::<char>::empty()) == 0);
        assert(spec_trim(s) =~= Seq::<char>::empty());
        assert(spec_trim(whole) =~= Seq::<char>::empty());
    }
}

} // verus!
