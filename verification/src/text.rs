//! Character-level text operations that the catalogue logic is built from.

use vstd::prelude::*;

verus! {

// ---------------------------------------------------------------------------
// Specifications
// ---------------------------------------------------------------------------

/// What `str::to_lowercase` gives for a string: Unicode lower-casing,
/// including its context rules, which take pages to write down.
pub uninterp spec fn lowercase(s: Seq<char>) -> Seq<char>;

/// The character is ASCII.
pub open spec fn is_ascii_char(c: char) -> bool {
    (c as u32) < 128
}

/// Every character of the string is ASCII.
pub open spec fn all_ascii(s: Seq<char>) -> bool {
    forall|i: int| 0 <= i < s.len() ==> is_ascii_char(#[trigger] s[i])
}

/// The lower-case form of an ASCII character: `A` to `Z` become `a` to `z`,
/// every other character stays.
pub open spec fn ascii_lower_char(c: char) -> char {
    if 65 <= (c as u32) <= 90 {
        ((c as u32) + 32) as char
    } else {
        c
    }
}

/// The string with its ASCII capitals lower-cased, character by character.
pub open spec fn ascii_lower(s: Seq<char>) -> Seq<char> {
    s.map_values(|c: char| ascii_lower_char(c))
}

/// Unicode `White_Space`, the set that `char::is_whitespace` tests for.
pub open spec fn is_whitespace(c: char) -> bool {
    let u = c as u32;
    ||| 0x09 <= u <= 0x0d
    ||| u == 0x20
    ||| u == 0x85
    ||| u == 0xa0
    ||| u == 0x1680
    ||| 0x2000 <= u <= 0x200a
    ||| u == 0x2028
    ||| u == 0x2029
    ||| u == 0x202f
    ||| u == 0x205f
    ||| u == 0x3000
}

/// `needle` occurs in `hay` starting at position `i`.
pub open spec fn occurs_at(hay: Seq<char>, needle: Seq<char>, i: int) -> bool {
    &&& 0 <= i
    &&& i + needle.len() <= hay.len()
    &&& hay.subrange(i, i + needle.len()) == needle
}

/// `needle` occurs somewhere in `hay` (the empty string occurs everywhere).
pub open spec fn contains(hay: Seq<char>, needle: Seq<char>) -> bool {
    exists|i: int| occurs_at(hay, needle, i)
}

/// `hay` begins with `prefix`.
pub open spec fn starts_with(hay: Seq<char>, prefix: Seq<char>) -> bool {
    occurs_at(hay, prefix, 0)
}

/// A character with ASCII upper-case letters folded to lower case, as a code.
pub open spec fn ascii_fold(c: char) -> u32 {
    if 65 <= c as u32 && c as u32 <= 90 {
        (c as u32 + 32) as u32
    } else {
        c as u32
    }
}

/// The two strings are equal once ASCII letters are compared without case.
pub open spec fn eq_ignore_ascii_case(a: Seq<char>, b: Seq<char>) -> bool {
    &&& a.len() == b.len()
    &&& forall|i: int| 0 <= i < a.len() ==> #[trigger] ascii_fold(a[i]) == ascii_fold(b[i])
}

/// The state after reading `s` from left to right: the words completed so
/// far and the word being read.
pub open spec fn split_state(s: Seq<char>) -> (Seq<Seq<char>>, Seq<char>)
    decreases s.len(),
{
    if s.len() == 0 {
        (Seq::empty(), Seq::empty())
    } else {
        let (done, cur) = split_state(s.drop_last());
        let c = s.last();
        if is_whitespace(c) {
            if cur.len() > 0 {
                (done.push(cur), Seq::empty())
            } else {
                (done, cur)
            }
        } else {
            (done, cur.push(c))
        }
    }
}

/// The maximal runs of non-whitespace characters of `s`, in order: what
/// `str::split_whitespace` yields.
pub open spec fn words(s: Seq<char>) -> Seq<Seq<char>> {
    let (done, cur) = split_state(s);
    if cur.len() > 0 {
        done.push(cur)
    } else {
        done
    }
}

/// `sep`-separated concatenation of `parts`.
pub open spec fn join(parts: Seq<Seq<char>>, sep: Seq<char>) -> Seq<char>
    decreases parts.len(),
{
    if parts.len() == 0 {
        Seq::empty()
    } else if parts.len() == 1 {
        parts[0]
    } else {
        join(parts.drop_last(), sep) + sep + parts.last()
    }
}

/// `s` with every space replaced by a plus sign.
pub open spec fn spaces_to_plus(s: Seq<char>) -> Seq<char> {
    Seq::new(s.len(), |i: int| if s[i] == ' ' { '+' } else { s[i] })
}

/// The decimal digit character for `d < 10`.
pub open spec fn digit_char(d: nat) -> char {
    ((48 + d) as u8) as char
}

/// The decimal representation of `n`, without leading zeros.
pub open spec fn decimal(n: nat) -> Seq<char>
    decreases n,
{
    if n < 10 {
        seq![digit_char(n)]
    } else {
        decimal(n / 10).push(digit_char(n % 10))
    }
}

// ---------------------------------------------------------------------------
// Facts about the specifications
// ---------------------------------------------------------------------------

/// Every word is non-empty and holds no whitespace.
pub proof fn lemma_words_wf(s: Seq<char>)
    ensures
        forall|k: int| 0 <= k < words(s).len() ==> #[trigger] words(s)[k].len() > 0,
        forall|k: int, j: int|
            0 <= k < words(s).len() && 0 <= j < words(s)[k].len() ==> !is_whitespace(
                #[trigger] words(s)[k][j],
            ),
{
    lemma_split_state_wf(s);
}

proof fn lemma_split_state_wf(s: Seq<char>)
    ensures
        forall|k: int|
            0 <= k < split_state(s).0.len() ==> #[trigger] split_state(s).0[k].len() > 0,
        forall|k: int, j: int|
            0 <= k < split_state(s).0.len() && 0 <= j < split_state(s).0[k].len()
                ==> !is_whitespace(#[trigger] split_state(s).0[k][j]),
        forall|j: int|
            0 <= j < split_state(s).1.len() ==> !is_whitespace(#[trigger] split_state(s).1[j]),
    decreases s.len(),
{
    if s.len() > 0 {
        let p = s.drop_last();
        lemma_split_state_wf(p);
        let (done, cur) = split_state(p);
        let c = s.last();
        if is_whitespace(c) {
            if cur.len() > 0 {
                assert(split_state(s).0 == done.push(cur));
                assert forall|k: int| 0 <= k < done.push(cur).len() implies #[trigger] done.push(
                    cur,
                )[k].len() > 0 by {
                    if k < done.len() {
                        assert(done.push(cur)[k] == done[k]);
                    }
                }
                assert forall|k: int, j: int|
                    0 <= k < done.push(cur).len() && 0 <= j < done.push(cur)[k].len()
                        implies !is_whitespace(#[trigger] done.push(cur)[k][j]) by {
                    if k < done.len() {
                        assert(done.push(cur)[k] == done[k]);
                    }
                }
            }
        } else {
            assert(split_state(s).1 == cur.push(c));
            assert forall|j: int| 0 <= j < cur.push(c).len() implies !is_whitespace(
                #[trigger] cur.push(c)[j],
            ) by {
                if j < cur.len() {
                    assert(cur.push(c)[j] == cur[j]);
                }
            }
        }
    }
}

/// Every character of `w` is whitespace.
pub open spec fn all_whitespace(w: Seq<char>) -> bool {
    forall|i: int| 0 <= i < w.len() ==> is_whitespace(#[trigger] w[i])
}

proof fn lemma_split_state_after_space(s: Seq<char>, w: Seq<char>)
    requires
        w.len() > 0,
        all_whitespace(w),
    ensures
        split_state(s + w) == (words(s), Seq::<char>::empty()),
    decreases w.len(),
{
    let w0 = w.drop_last();
    assert((s + w).drop_last() =~= s + w0);
    assert((s + w).last() == w[w.len() - 1]);
    if w0.len() == 0 {
        assert(s + w0 =~= s);
        let (done, cur) = split_state(s);
        if cur.len() == 0 {
            assert(cur =~= Seq::<char>::empty());
        }
    } else {
        assert(all_whitespace(w0)) by {
            assert forall|i: int| 0 <= i < w0.len() implies is_whitespace(#[trigger] w0[i]) by {
                assert(w0[i] == w[i]);
            }
        }
        lemma_split_state_after_space(s, w0);
    }
}

proof fn lemma_split_state_append(p: Seq<char>, y: Seq<char>)
    requires
        split_state(p).1.len() == 0,
    ensures
        split_state(p + y) == (split_state(p).0 + split_state(y).0, split_state(y).1),
    decreases y.len(),
{
    if y.len() == 0 {
        assert(p + y =~= p);
        assert(split_state(p).0 + split_state(y).0 =~= split_state(p).0);
        assert(split_state(p).1 =~= split_state(y).1);
    } else {
        let y0 = y.drop_last();
        lemma_split_state_append(p, y0);
        assert((p + y).drop_last() =~= p + y0);
        assert((p + y).last() == y.last());
        let big = split_state(p).0;
        let d0 = split_state(y0).0;
        let c0 = split_state(y0).1;
        if is_whitespace(y.last()) && c0.len() > 0 {
            assert((big + d0).push(c0) =~= big + d0.push(c0));
        }
    }
}

/// The words of two strings joined by a non-empty run of whitespace are the
/// words of the first followed by those of the second.
pub proof fn lemma_words_join(x: Seq<char>, w: Seq<char>, y: Seq<char>)
    requires
        w.len() > 0,
        all_whitespace(w),
    ensures
        words(x + w + y) == words(x) + words(y),
{
    lemma_split_state_after_space(x, w);
    lemma_split_state_append(x + w, y);
    let sy = split_state(y);
    if sy.1.len() > 0 {
        assert((words(x) + sy.0).push(sy.1) =~= words(x) + sy.0.push(sy.1));
    } else {
        assert(words(x) + sy.0 =~= words(x) + words(y));
    }
}

/// Lower-casing ASCII capitals works part by part and leaves whitespace as it
/// is.
pub proof fn lemma_ascii_lower_join(x: Seq<char>, w: Seq<char>, y: Seq<char>)
    requires
        all_whitespace(w),
    ensures
        ascii_lower(x + w + y) == ascii_lower(x) + w + ascii_lower(y),
        all_whitespace(w),
{
    assert forall|i: int| 0 <= i < w.len() implies ascii_lower_char(#[trigger] w[i]) == w[i] by {
        assert(is_whitespace(w[i]));
    }
    assert(ascii_lower(x + w + y) =~= ascii_lower(x) + w + ascii_lower(y));
}

// ---------------------------------------------------------------------------
// Trusted items: std functions that vstd gives no specification
// ---------------------------------------------------------------------------

/// `str::to_lowercase`: the result is the Unicode lower-case form of the
/// argument, a function of its characters alone (named `lowercase`).  Unicode
/// maps the ASCII capitals `A` to `Z` to `a` to `z` and leaves every other
/// ASCII character as it is, with no context rule for them, so an ASCII
/// string is lower-cased character by character (the empty string giving the
/// empty string).
#[verifier::external_body]
pub(crate) fn to_lowercase(s: &str) -> (res: String)
    ensures
        res@ == lowercase(s@),
        all_ascii(s@) ==> res@ == ascii_lower(s@),
{
    s.to_lowercase()
}

/// `String::push`: appends one character at the end.
#[verifier::external_body]
fn push_char(s: &mut String, c: char)
    ensures
        final(s)@ == old(s)@.push(c),
{
    s.push(c)
}

// ---------------------------------------------------------------------------
// Verified operations
// ---------------------------------------------------------------------------

/// The characters of `s`, in order.
pub fn chars_of(s: &str) -> (res: Vec<char>)
    ensures
        res@ == s@,
{
    let mut res: Vec<char> = Vec::new();
    for c in it: s.chars()
        invariant
            res@ == it.seq().take(it.index() as int),
            it.seq() == s@,
    {
        res.push(c);
    }
    res
}

/// A `String` holding exactly `s`.
pub fn to_owned(s: &str) -> (res: String)
    ensures
        res@ == s@,
{
    s.to_owned()
}

/// A `String` holding the characters of `cs`.
pub fn string_of(cs: &[char]) -> (res: String)
    ensures
        res@ == cs@,
{
    let mut res = String::new();
    for i in 0..cs.len()
        invariant
            res@ == cs@.take(i as int),
    {
        push_char(&mut res, cs[i]);
        assert(cs@.take(i + 1) =~= cs@.take(i as int).push(cs@[i as int]));
    }
    assert(cs@.take(cs.len() as int) =~= cs@);
    res
}

/// The characters of the lower-case form of `s`.
pub fn lowercase_chars(s: &str) -> (res: Vec<char>)
    ensures
        res@ == lowercase(s@),
        all_ascii(s@) ==> res@ == ascii_lower(s@),
{
    let low = to_lowercase(s);
    chars_of(low.as_str())
}

/// Whether `c` is Unicode whitespace.
pub fn char_is_whitespace(c: char) -> (res: bool)
    ensures
        res == is_whitespace(c),
{
    let u = c as u32;
    (0x09 <= u && u <= 0x0d) || u == 0x20 || u == 0x85 || u == 0xa0 || u == 0x1680 || (0x2000
        <= u && u <= 0x200a) || u == 0x2028 || u == 0x2029 || u == 0x202f || u == 0x205f || u
        == 0x3000
}

/// Whether `needle` occurs in `hay` at position `i`.
fn matches_at(hay: &[char], needle: &[char], i: usize) -> (res: bool)
    requires
        i + needle@.len() <= hay@.len(),
    ensures
        res == occurs_at(hay@, needle@, i as int),
{
    let mut j: usize = 0;
    let n = hay.len();
    while j < needle.len()
        invariant
            n == hay@.len(),
            i + needle@.len() <= hay@.len(),
            j <= needle@.len(),
            forall|k: int| 0 <= k < j ==> hay@[i + k] == needle@[k],
        decreases needle@.len() - j,
    {
        if hay[i + j] != needle[j] {
            assert(hay@.subrange(i as int, i + needle@.len())[j as int] != needle@[j as int]);
            return false;
        }
        j += 1;
    }
    assert(hay@.subrange(i as int, i + needle@.len()) =~= needle@);
    true
}

/// Whether `needle` occurs in `hay`.
pub fn contains_chars(hay: &[char], needle: &[char]) -> (res: bool)
    ensures
        res == contains(hay@, needle@),
{
    if needle.len() > hay.len() {
        return false;
    }
    let last = hay.len() - needle.len();
    let mut i: usize = 0;
    loop
        invariant
            last + needle@.len() == hay@.len(),
            i <= last,
            forall|k: int| 0 <= k < i ==> !occurs_at(hay@, needle@, k),
        decreases last - i,
    {
        if matches_at(hay, needle, i) {
            return true;
        }
        if i == last {
            assert forall|k: int| !occurs_at(hay@, needle@, k) by {
                if 0 <= k <= last {
                    assert(k < i || k == i);
                }
            }
            return false;
        }
        i += 1;
    }
}

/// Whether `hay` begins with `prefix`.
pub fn starts_with_chars(hay: &[char], prefix: &[char]) -> (res: bool)
    ensures
        res == starts_with(hay@, prefix@),
{
    if prefix.len() > hay.len() {
        return false;
    }
    matches_at(hay, prefix, 0)
}

/// The fold of `c` used by ASCII case-insensitive comparison.
fn fold_char(c: char) -> (res: u32)
    ensures
        res == ascii_fold(c),
{
    let u = c as u32;
    if 65 <= u && u <= 90 {
        u + 32
    } else {
        u
    }
}

/// `a` and `b` are equal up to the case of ASCII letters.
pub fn chars_eq_ignore_ascii_case(a: &[char], b: &[char]) -> (res: bool)
    ensures
        res == eq_ignore_ascii_case(a@, b@),
{
    if a.len() != b.len() {
        return false;
    }
    let mut i: usize = 0;
    while i < a.len()
        invariant
            a@.len() == b@.len(),
            i <= a@.len(),
            forall|k: int| 0 <= k < i ==> #[trigger] ascii_fold(a@[k]) == ascii_fold(b@[k]),
        decreases a@.len() - i,
    {
        if fold_char(a[i]) != fold_char(b[i]) {
            return false;
        }
        i += 1;
    }
    true
}

/// Whether the two character sequences are equal.
pub fn chars_eq(a: &[char], b: &[char]) -> (res: bool)
    ensures
        res == (a@ == b@),
{
    if a.len() != b.len() {
        return false;
    }
    let mut i: usize = 0;
    while i < a.len()
        invariant
            a@.len() == b@.len(),
            i <= a@.len(),
            forall|k: int| 0 <= k < i ==> a@[k] == b@[k],
        decreases a@.len() - i,
    {
        if a[i] != b[i] {
            return false;
        }
        i += 1;
    }
    assert(a@ =~= b@);
    true
}

/// Whether the two strings hold the same characters.
pub fn str_eq(a: &str, b: &str) -> (res: bool)
    ensures
        res == (a@ == b@),
{
    let ca = chars_of(a);
    let cb = chars_of(b);
    chars_eq(ca.as_slice(), cb.as_slice())
}

/// The whitespace-separated words of `s`, as `str::split_whitespace` gives them.
pub fn split_whitespace(s: &[char]) -> (res: Vec<Vec<char>>)
    ensures
        res@.len() == words(s@).len(),
        forall|k: int| 0 <= k < res@.len() ==> #[trigger] res@[k]@ == words(s@)[k],
{
    let mut done: Vec<Vec<char>> = Vec::new();
    let mut cur: Vec<char> = Vec::new();
    let mut i: usize = 0;
    while i < s.len()
        invariant
            i <= s@.len(),
            done@.len() == split_state(s@.take(i as int)).0.len(),
            forall|k: int|
                0 <= k < done@.len() ==> #[trigger] done@[k]@ == split_state(
                    s@.take(i as int),
                ).0[k],
            cur@ == split_state(s@.take(i as int)).1,
        decreases s@.len() - i,
    {
        assert(s@.take(i + 1).drop_last() =~= s@.take(i as int));
        let c = s[i];
        if char_is_whitespace(c) {
            if cur.len() > 0 {
                let w = cur;
                done.push(w);
                cur = Vec::new();
            }
        } else {
            cur.push(c);
        }
        i += 1;
    }
    assert(s@.take(s@.len() as int) =~= s@);
    if cur.len() > 0 {
        done.push(cur);
    }
    done
}

/// Appends the decimal representation of `n`.
fn push_decimal(s: &mut String, n: u64)
    ensures
        final(s)@ == old(s)@ + decimal(n as nat),
    decreases n,
{
    if n >= 10 {
        push_decimal(s, n / 10);
    }
    let d = (n % 10) as u8;
    push_char(s, (48 + d) as char);
    assert(s@ =~= old(s)@ + decimal(n as nat));
}

/// The decimal representation of `n`, without leading zeros.
pub fn decimal_string(n: u64) -> (res: String)
    ensures
        res@ == decimal(n as nat),
{
    let mut s = String::new();
    push_decimal(&mut s, n);
    assert(s@ =~= decimal(n as nat));
    s
}

/// The parts separated by `sep`.
pub fn join_strings(parts: &Vec<String>, sep: &str) -> (res: String)
    ensures
        res@ == join(parts@.map_values(|p: String| p@), sep@),
{
    let ghost views = parts@.map_values(|p: String| p@);
    let mut res = String::new();
    let mut i: usize = 0;
    while i < parts.len()
        invariant
            i <= parts@.len(),
            views == parts@.map_values(|p: String| p@),
            res@ == join(views.take(i as int), sep@),
        decreases parts@.len() - i,
    {
        assert(views.take(i + 1).drop_last() =~= views.take(i as int));
        if i > 0 {
            res.append(sep);
        }
        res.append(parts[i].as_str());
        proof {
            if i == 0 {
                assert(res@ =~= views.take(1)[0]);
            } else {
                assert(res@ =~= join(views.take(i as int), sep@) + sep@ + views.take(i + 1).last());
            }
        }
        i += 1;
    }
    assert(views.take(i as int) =~= views);
    res
}

/// `s` with every space replaced by `+`.
pub fn replace_spaces_with_plus(s: &str) -> (res: String)
    ensures
        res@ == spaces_to_plus(s@),
{
    let cs = chars_of(s);
    let mut out: Vec<char> = Vec::new();
    for i in 0..cs.len()
        invariant
            cs@ == s@,
            out@ == spaces_to_plus(s@).take(i as int),
    {
        let c = cs[i];
        if c == ' ' {
            out.push('+');
        } else {
            out.push(c);
        }
        assert(out@ =~= spaces_to_plus(s@).take(i + 1));
    }
    assert(out@ =~= spaces_to_plus(s@));
    string_of(out.as_slice())
}

} // verus!
