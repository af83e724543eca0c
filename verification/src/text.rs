//! Character-level helpers on text: whitespace, equality, leading slashes.
use vstd::prelude::*;

verus! {

/// Appends one character to a string, as `String::push` does.
#[verifier::external_body]
pub fn push_char(s: &mut String, c: char)
    ensures
        final(s)@ == old(s)@.push(c),
{
    s.push(c)
}

/// The characters with the Unicode `White_Space` property, which is what
/// `char::is_whitespace` tests.
pub open spec fn is_ws(c: char) -> bool {
    ||| c == ' '
    ||| ('\t' <= c && c <= '\r')
    ||| c == '\u{85}'
    ||| c == '\u{a0}'
    ||| c == '\u{1680}'
    ||| ('\u{2000}' <= c && c <= '\u{200a}')
    ||| c == '\u{2028}'
    ||| c == '\u{2029}'
    ||| c == '\u{202f}'
    ||| c == '\u{205f}'
    ||| c == '\u{3000}'
}

/// Tests whether `c` is whitespace in the sense of `char::is_whitespace`.
pub fn is_whitespace(c: char) -> (r: bool)
    ensures
        r == is_ws(c),
{
    c == ' ' || ('\t' <= c && c <= '\r') || c == '\u{85}' || c == '\u{a0}' || c == '\u{1680}'
        || ('\u{2000}' <= c && c <= '\u{200a}') || c == '\u{2028}' || c == '\u{2029}' || c
        == '\u{202f}' || c == '\u{205f}' || c == '\u{3000}'
}

/// `s` with every whitespace character taken out, the others kept in order.
pub open spec fn without_ws(s: Seq<char>) -> Seq<char>
    decreases s.len(),
{
    if s.len() == 0 {
        s
    } else if is_ws(s.last()) {
        without_ws(s.drop_last())
    } else {
        without_ws(s.drop_last()).push(s.last())
    }
}

/// Copies `s` without its whitespace characters.
pub fn strip_whitespace(s: &str) -> (r: String)
    ensures
        r@ == without_ws(s@),
{
    let len = s.unicode_len();
    let mut out = String::new();
    let mut i: usize = 0;
    while i < len
        invariant
            i <= len,
            len == s@.len(),
            out@ == without_ws(s@.subrange(0, i as int)),
        decreases len - i,
    {
        let c = s.get_char(i);
        let ghost next = s@.subrange(0, i + 1);
        assert(next.drop_last() =~= s@.subrange(0, i as int));
        if !is_whitespace(c) {
            push_char(&mut out, c);
        }
        i = i + 1;
    }
    assert(s@.subrange(0, len as int) =~= s@);
    out
}

/// Tests two strings for equality, character by character.
pub fn str_eq(a: &str, b: &str) -> (r: bool)
    ensures
        r == (a@ == b@),
{
    let n = a.unicode_len();
    if n != b.unicode_len() {
        return false;
    }
    let mut i: usize = 0;
    while i < n
        invariant
            i <= n,
            n == a@.len(),
            n == b@.len(),
            forall|j: int| 0 <= j < i ==> a@[j] == b@[j],
        decreases n - i,
    {
        if a.get_char(i) != b.get_char(i) {
            return false;
        }
        i = i + 1;
    }
    assert(a@ =~= b@);
    true
}

/// `s` with every leading `c` taken off.
pub open spec fn trim_start(s: Seq<char>, c: char) -> Seq<char>
    decreases s.len(),
{
    if s.len() > 0 && s[0] == c {
        trim_start(s.drop_first(), c)
    } else {
        s
    }
}

proof fn lemma_trim_start_skip(s: Seq<char>, c: char, i: int)
    requires
        0 <= i <= s.len(),
        forall|j: int| 0 <= j < i ==> s[j] == c,
    ensures
        trim_start(s, c) == trim_start(s.skip(i), c),
    decreases i,
{
    if i > 0 {
        assert(s.drop_first().skip(i - 1) =~= s.skip(i));
        lemma_trim_start_skip(s.drop_first(), c, i - 1);
    } else {
        assert(s.skip(0) =~= s);
    }
}

/// Copies `s` without its leading `/` characters, as
/// `trim_start_matches("/")` does.
pub fn trim_leading_slashes(s: &str) -> (r: String)
    ensures
        r@ == trim_start(s@, '/'),
{
    let len = s.unicode_len();
    let mut i: usize = 0;
    while i < len && s.get_char(i) == '/'
        invariant
            i <= len,
            len == s@.len(),
            forall|j: int| 0 <= j < i ==> s@[j] == '/',
        decreases len - i,
    {
        i = i + 1;
    }
    proof {
        lemma_trim_start_skip(s@, '/', i as int);
        assert(s@.skip(i as int) =~= s@.subrange(i as int, len as int));
    }
    s.substring_char(i, len).to_owned()
}

/// `pat` occurs in `s` at position `i`.
pub open spec fn occurs_at(s: Seq<char>, pat: Seq<char>, i: int) -> bool {
    0 <= i && i + pat.len() <= s.len() && s.subrange(i, i + pat.len()) == pat
}

/// `s` with every occurrence of `pat` replaced by `rep`, occurrences taken
/// from the left without overlapping, as `str::replace` does for a non-empty
/// pattern.
pub open spec fn replace_all(s: Seq<char>, pat: Seq<char>, rep: Seq<char>) -> Seq<char>
    recommends
        pat.len() > 0,
    decreases s.len(),
{
    if s.len() == 0 || pat.len() == 0 {
        s
    } else if occurs_at(s, pat, 0) {
        rep + replace_all(s.skip(pat.len() as int), pat, rep)
    } else {
        seq![s[0]] + replace_all(s.drop_first(), pat, rep)
    }
}

/// Tests whether `pat` occurs in `s` at character position `i`.
fn matches_at(s: &str, len: usize, pat: &str, plen: usize, i: usize) -> (r: bool)
    requires
        len == s@.len(),
        plen == pat@.len(),
        i <= len,
    ensures
        r == occurs_at(s@, pat@, i as int),
{
    if plen > len - i {
        return false;
    }
    let mut j: usize = 0;
    while j < plen
        invariant
            j <= plen,
            i + plen <= len,
            len == s@.len(),
            plen == pat@.len(),
            forall|k: int| 0 <= k < j ==> s@[i + k] == pat@[k],
        decreases plen - j,
    {
        if s.get_char(i + j) != pat.get_char(j) {
            assert(s@.subrange(i as int, i + plen)[j as int] != pat@[j as int]);
            return false;
        }
        j = j + 1;
    }
    assert(s@.subrange(i as int, i + plen) =~= pat@);
    true
}

/// Replaces every occurrence of the non-empty `pat` in `s` by `rep`, as
/// `str::replace` does.
pub fn replace_str(s: &str, pat: &str, rep: &str) -> (r: String)
    requires
        pat@.len() > 0,
    ensures
        r@ == replace_all(s@, pat@, rep@),
{
    let len = s.unicode_len();
    let plen = pat.unicode_len();
    let mut out = String::new();
    let mut i: usize = 0;
    assert(s@.skip(0) =~= s@);
    while i < len
        invariant
            i <= len,
            len == s@.len(),
            plen == pat@.len(),
            plen > 0,
            replace_all(s@, pat@, rep@) == out@ + replace_all(s@.skip(i as int), pat@, rep@),
        decreases len - i,
    {
        let ghost tail = s@.skip(i as int);
        let found = matches_at(s, len, pat, plen, i);
        if found {
            assert(tail.subrange(0, plen as int) =~= s@.subrange(i as int, i + plen));
            assert(occurs_at(tail, pat@, 0));
            assert(tail.skip(plen as int) =~= s@.skip(i + plen));
            out.append(rep);
            assert(replace_all(tail, pat@, rep@) == rep@ + replace_all(
                s@.skip(i + plen),
                pat@,
                rep@,
            ));
            i = i + plen;
        } else {
            let c = s.get_char(i);
            if plen <= len - i {
                assert(tail.subrange(0, plen as int) =~= s@.subrange(i as int, i + plen));
            }
            assert(!occurs_at(tail, pat@, 0));
            assert(tail.drop_first() =~= s@.skip(i + 1));
            push_char(&mut out, c);
            assert(replace_all(tail, pat@, rep@) == seq![c] + replace_all(
                s@.skip(i + 1),
                pat@,
                rep@,
            ));
            i = i + 1;
        }
    }
    assert(s@.skip(len as int) =~= Seq::<char>::empty());
    assert(out@ + Seq::<char>::empty() =~= out@);
    out
}

/// `s` ends with `suffix`.
pub open spec fn ends_with(s: Seq<char>, suffix: Seq<char>) -> bool {
    suffix.len() <= s.len() && s.skip(s.len() - suffix.len()) == suffix
}

/// Tests whether `s` ends with `suffix`.
pub fn str_ends_with(s: &str, suffix: &str) -> (r: bool)
    ensures
        r == ends_with(s@, suffix@),
{
    let len = s.unicode_len();
    let slen = suffix.unicode_len();
    if slen > len {
        return false;
    }
    let r = matches_at(s, len, suffix, slen, len - slen);
    assert(s@.subrange((len - slen) as int, len as int) =~= s@.skip(len - slen));
    r
}

} // verus!
