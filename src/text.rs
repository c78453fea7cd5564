//! Character-level text operations used by OCR cleanup and catalog matching.

use vstd::prelude::*;

verus! {

/// Copies the characters of `s` into a vector, in order.
pub fn chars_of(s: &str) -> (r: Vec<char>)
    ensures
        r@ == s@,
{
    let n = s.unicode_len();
    let mut r: Vec<char> = Vec::new();
    let mut i: usize = 0;
    while i < n
        invariant
            n == s@.len(),
            i <= n,
            r@ == s@.take(i as int),
        decreases n - i,
    {
        let c = s.get_char(i);
        r.push(c);
        i = i + 1;
        assert(r@ =~= s@.take(i as int));
    }
    assert(r@ =~= s@);
    r
}

/// Relies on `FromIterator<&char>` for `String` (through `Iterator::collect`):
/// the string holds exactly the given characters, in order.
#[verifier::external_body]
pub(crate) fn string_from_chars(v: &Vec<char>) -> (r: String)
    ensures
        r@ == v@,
{
    v.iter().collect()
}

/// Whether two strings hold the same characters.
pub fn same_text(a: &str, b: &str) -> (r: bool)
    ensures
        r == (a@ == b@),
{
    let x = chars_of(a);
    let y = chars_of(b);
    if x.len() != y.len() {
        return false;
    }
    let mut i: usize = 0;
    while i < x.len()
        invariant
            x@ == a@,
            y@ == b@,
            x@.len() == y@.len(),
            i <= x@.len(),
            forall|j: int| 0 <= j < i ==> x@[j] == y@[j],
        decreases x@.len() - i,
    {
        if x[i] != y[i] {
            return false;
        }
        i = i + 1;
    }
    assert(x@ =~= y@);
    true
}

/// Unicode white space, as `char::is_whitespace` and the `\s` class of
/// regular expressions define it.
pub open spec fn is_space(c: char) -> bool {
    let u = c as u32;
    u == 0x20 || (0x09 <= u && u <= 0x0d) || u == 0x85 || u == 0xa0 || u == 0x1680 || (0x2000
        <= u && u <= 0x200a) || u == 0x2028 || u == 0x2029 || u == 0x202f || u == 0x205f || u
        == 0x3000
}

/// An ASCII capital letter.
pub open spec fn is_capital(c: char) -> bool {
    let u = c as u32;
    0x41 <= u && u <= 0x5a
}

/// Whether `c` is white space.
pub fn space_char(c: char) -> (r: bool)
    ensures
        r == is_space(c),
{
    let u = c as u32;
    u == 0x20 || (0x09 <= u && u <= 0x0d) || u == 0x85 || u == 0xa0 || u == 0x1680 || (0x2000
        <= u && u <= 0x200a) || u == 0x2028 || u == 0x2029 || u == 0x202f || u == 0x205f || u
        == 0x3000
}

/// `s` without its leading white space.
pub open spec fn trim_start(s: Seq<char>) -> Seq<char>
    decreases s.len(),
{
    if s.len() > 0 && is_space(s[0]) {
        trim_start(s.drop_first())
    } else {
        s
    }
}

/// `s` without its trailing white space.
pub open spec fn trim_end(s: Seq<char>) -> Seq<char>
    decreases s.len(),
{
    if s.len() > 0 && is_space(s.last()) {
        trim_end(s.drop_last())
    } else {
        s
    }
}

/// `s` without leading and trailing white space.
pub open spec fn trim(s: Seq<char>) -> Seq<char> {
    trim_end(trim_start(s))
}

/// Removes leading and trailing white space.
pub fn trim_chars(s: &Vec<char>) -> (r: Vec<char>)
    ensures
        r@ == trim(s@),
{
    let n = s.len();
    let mut a: usize = 0;
    assert(s@.skip(0) =~= s@);
    while a < n && space_char(s[a])
        invariant
            n == s@.len(),
            a <= n,
            trim_start(s@) == trim_start(s@.skip(a as int)),
        decreases n - a,
    {
        assert(s@.skip(a as int).drop_first() =~= s@.skip(a + 1));
        a = a + 1;
    }
    let ghost t = s@.skip(a as int);
    let mut b: usize = n;
    while b > a && space_char(s[b - 1])
        invariant
            a <= b <= n,
            n == s@.len(),
            t == s@.skip(a as int),
            trim_end(t) == trim_end(s@.subrange(a as int, b as int)),
        decreases b - a,
    {
        assert(s@.subrange(a as int, b as int).drop_last() =~= s@.subrange(a as int, b - 1));
        b = b - 1;
    }
    assert(t =~= s@.subrange(a as int, n as int));
    let mut r: Vec<char> = Vec::new();
    let mut k: usize = a;
    while k < b
        invariant
            a <= k <= b <= n,
            n == s@.len(),
            r@ == s@.subrange(a as int, k as int),
        decreases b - k,
    {
        r.push(s[k]);
        k = k + 1;
        assert(r@ =~= s@.subrange(a as int, k as int));
    }
    r
}

/// `needle` occurs in `hay` at index `i`.
pub open spec fn occurs_at(hay: Seq<char>, needle: Seq<char>, i: int) -> bool {
    0 <= i && i + needle.len() <= hay.len() && hay.subrange(i, i + needle.len()) == needle
}

/// `needle` occurs somewhere in `hay`.
pub open spec fn occurs_in(hay: Seq<char>, needle: Seq<char>) -> bool {
    exists|i: int| occurs_at(hay, needle, i)
}

/// Whether `needle` occurs in `hay` at index `i`.
pub fn matches_at(hay: &Vec<char>, needle: &Vec<char>, i: usize) -> (r: bool)
    ensures
        r == occurs_at(hay@, needle@, i as int),
{
    if i > hay.len() || needle.len() > hay.len() - i {
        return false;
    }
    let mut k: usize = 0;
    while k < needle.len()
        invariant
            i + needle@.len() <= hay@.len(),
            hay@.len() <= usize::MAX,
            k <= needle@.len(),
            forall|j: int| 0 <= j < k ==> hay@[i + j] == needle@[j],
        decreases needle@.len() - k,
    {
        if hay[i + k] != needle[k] {
            assert(hay@.subrange(i as int, i + needle@.len())[k as int] != needle@[k as int]);
            return false;
        }
        k = k + 1;
    }
    assert(hay@.subrange(i as int, i + needle@.len()) =~= needle@);
    true
}

/// Whether `needle` occurs in `hay`.
pub fn contains_chars(hay: &Vec<char>, needle: &Vec<char>) -> (r: bool)
    ensures
        r == occurs_in(hay@, needle@),
{
    let n = hay.len();
    let mut i: usize = 0;
    while i < n
        invariant
            n == hay@.len(),
            i <= n,
            forall|j: int| 0 <= j < i ==> !occurs_at(hay@, needle@, j),
        decreases n - i,
    {
        if matches_at(hay, needle, i) {
            return true;
        }
        i = i + 1;
    }
    let last = matches_at(hay, needle, n);
    assert(!last ==> forall|j: int| !occurs_at(hay@, needle@, j)) by {
        assert forall|j: int| !last implies !occurs_at(hay@, needle@, j) by {
            if 0 <= j && j < i {
            }
        }
    }
    last
}

/// `s` with each occurrence of `pat` replaced by `rep`, scanning from the left
/// and never reusing a replaced part.
pub open spec fn replace_all(s: Seq<char>, pat: Seq<char>, rep: Seq<char>) -> Seq<char>
    decreases s.len(),
{
    if pat.len() == 0 || s.len() < pat.len() {
        s
    } else if s.take(pat.len() as int) == pat {
        rep + replace_all(s.skip(pat.len() as int), pat, rep)
    } else {
        seq![s[0]] + replace_all(s.drop_first(), pat, rep)
    }
}

proof fn lemma_replace_short(s: Seq<char>, pat: Seq<char>, rep: Seq<char>)
    requires
        s.len() < pat.len(),
    ensures
        replace_all(s, pat, rep) == s,
{
}

/// Replaces each occurrence of `pat` in `s` by `rep`, from the left.
pub fn replace_chars(s: &Vec<char>, pat: &Vec<char>, rep: &Vec<char>) -> (r: Vec<char>)
    requires
        pat@.len() > 0,
    ensures
        r@ == replace_all(s@, pat@, rep@),
{
    let n = s.len();
    let m = pat.len();
    let mut out: Vec<char> = Vec::new();
    let mut i: usize = 0;
    assert(s@.skip(0) =~= s@);
    assert(out@ + replace_all(s@, pat@, rep@) =~= replace_all(s@, pat@, rep@));
    while i < n
        invariant
            n == s@.len(),
            m == pat@.len(),
            m > 0,
            i <= n,
            out@ + replace_all(s@.skip(i as int), pat@, rep@) == replace_all(s@, pat@, rep@),
        decreases n - i,
    {
        let ghost rest = s@.skip(i as int);
        if matches_at(s, pat, i) {
            assert(rest.take(m as int) =~= s@.subrange(i as int, i + m));
            assert(rest.skip(m as int) =~= s@.skip(i + m));
            let mut k: usize = 0;
            let ghost start = out@;
            while k < rep.len()
                invariant
                    k <= rep@.len(),
                    out@ == start + rep@.take(k as int),
                decreases rep@.len() - k,
            {
                out.push(rep[k]);
                k = k + 1;
                assert(out@ =~= start + rep@.take(k as int));
            }
            assert(rep@.take(k as int) =~= rep@);
            assert(out@ + replace_all(s@.skip(i + m), pat@, rep@) =~= start + (rep@
                + replace_all(rest.skip(m as int), pat@, rep@)));
            i = i + m;
        } else {
            proof {
                if rest.len() < m {
                    lemma_replace_short(rest, pat@, rep@);
                    lemma_replace_short(rest.drop_first(), pat@, rep@);
                } else {
                    assert(rest.take(m as int) != pat@) by {
                        assert(rest.take(m as int) =~= s@.subrange(i as int, i + m));
                    }
                }
                assert(rest.drop_first() =~= s@.skip(i + 1));
                assert(rest =~= seq![s@[i as int]] + rest.drop_first());
            }
            let ghost start = out@;
            out.push(s[i]);
            assert(out@ + replace_all(s@.skip(i + 1), pat@, rep@) =~= start + (seq![s@[i as int]]
                + replace_all(rest.drop_first(), pat@, rep@)));
            i = i + 1;
        }
    }
    assert(s@.skip(i as int) =~= Seq::<char>::empty());
    assert(out@ + Seq::<char>::empty() =~= out@);
    out
}

/// A word boundary that OCR lost: a capital letter at `i` that follows a
/// character other than white space and `$`.
pub open spec fn lost_boundary(s: Seq<char>, i: int) -> bool {
    &&& 0 < i < s.len()
    &&& is_capital(s[i])
    &&& !is_space(s[i - 1])
    &&& s[i - 1] != '$'
}

/// `s` with a space put in front of each lost word boundary.
pub open spec fn with_word_spaces(s: Seq<char>) -> Seq<char>
    decreases s.len(),
{
    if s.len() == 0 {
        s
    } else {
        let prefix = with_word_spaces(s.drop_last());
        if lost_boundary(s, s.len() - 1) {
            prefix.push(' ').push(s.last())
        } else {
            prefix.push(s.last())
        }
    }
}

/// Puts a space in front of every capital letter that directly follows a
/// character other than white space and `$`.
pub fn insert_word_spaces(s: &Vec<char>) -> (r: Vec<char>)
    ensures
        r@ == with_word_spaces(s@),
{
    let mut out: Vec<char> = Vec::new();
    let mut i: usize = 0;
    while i < s.len()
        invariant
            i <= s@.len(),
            out@ == with_word_spaces(s@.take(i as int)),
        decreases s@.len() - i,
    {
        let c = s[i];
        let ghost pre = s@.take(i + 1);
        assert(pre.drop_last() =~= s@.take(i as int));
        if i > 0 && (c as u32) >= 0x41 && (c as u32) <= 0x5a && !space_char(s[i - 1]) && s[i - 1]
            != '$' {
            out.push(' ');
        }
        out.push(c);
        i = i + 1;
    }
    assert(s@.take(i as int) =~= s@);
    out
}

/// The spellings that OCR is known to produce in place of catalog words,
/// with the words they stand for, applied in this order.
pub open spec fn fix_misreads(s: Seq<char>) -> Seq<char> {
    let a = replace_all(s, "Primie"@, "Prime"@);
    let b = replace_all(a, "Bursten"@, "Burston"@);
    replace_all(b, "Recelver"@, "Receiver"@)
}

/// The cleanup of raw OCR output: trim, mend known misreads, then restore
/// the spaces between words that OCR ran together.
pub open spec fn cleaned(raw: Seq<char>) -> Seq<char> {
    with_word_spaces(fix_misreads(trim(raw)))
}

/// Cleans raw OCR output, as characters.
pub fn clean_chars(raw: &Vec<char>) -> (r: Vec<char>)
    ensures
        r@ == cleaned(raw@),
{
    let t = trim_chars(raw);
    let prime_misread = chars_of("Primie");
    let prime = chars_of("Prime");
    let burston_misread = chars_of("Bursten");
    let burston = chars_of("Burston");
    let receiver_misread = chars_of("Recelver");
    let receiver = chars_of("Receiver");
    proof {
        reveal_strlit("Primie");
        reveal_strlit("Bursten");
        reveal_strlit("Recelver");
    }
    let a = replace_chars(&t, &prime_misread, &prime);
    let b = replace_chars(&a, &burston_misread, &burston);
    let c = replace_chars(&b, &receiver_misread, &receiver);
    insert_word_spaces(&c)
}

/// Cleans raw OCR output: trims it, mends the known misreads ("Primie",
/// "Bursten", "Recelver") and puts a space before each capital letter that
/// directly follows a character other than white space and `$`.
pub fn clean_ocr_output(raw: &str) -> (r: String)
    ensures
        r@ == cleaned(raw@),
{
    let v = chars_of(raw);
    let c = clean_chars(&v);
    string_from_chars(&c)
}

} // verus!
