//! Character-sequence helpers used by the scraping rules: ASCII lowering,
//! substring search and joining of text fragments.

use vstd::prelude::*;

verus! {

/// The ASCII lower-case form of one character: `A`..`Z` become `a`..`z`,
/// every other character is kept.
pub open spec fn ascii_lower_char(c: char) -> char {
    if 'A' <= c && c <= 'Z' {
        ((c as int) + 32) as char
    } else {
        c
    }
}

/// The ASCII lower-case form of a character sequence.
pub open spec fn ascii_lower(s: Seq<char>) -> Seq<char> {
    s.map_values(|c: char| ascii_lower_char(c))
}

/// `needle` occurs in `hay` as a contiguous run of characters.
pub open spec fn has_substring(hay: Seq<char>, needle: Seq<char>) -> bool {
    exists|i: int|
        0 <= i && i + needle.len() <= hay.len() && #[trigger] hay.subrange(i, i + needle.len())
            == needle
}

/// The characters of a string slice, one by one.
pub fn chars_of(s: &str) -> (v: Vec<char>)
    ensures
        v@ == s@,
{
    let n = s.unicode_len();
    let mut v: Vec<char> = Vec::new();
    let mut i: usize = 0;
    while i < n
        invariant
            n == s@.len(),
            i <= n,
            v@ == s@.subrange(0, i as int),
        decreases n - i,
    {
        v.push(s.get_char(i));
        i = i + 1;
    }
    assert(v@ =~= s@);
    v
}

/// The ASCII lower-case form of one character.
pub fn lower_char(c: char) -> (r: char)
    ensures
        r == ascii_lower_char(c),
{
    if 'A' <= c && c <= 'Z' {
        let b: u8 = (c as u8) + 32;
        b as char
    } else {
        c
    }
}

/// The ASCII lower-case form of a character sequence.
pub fn lower_chars(s: &Vec<char>) -> (r: Vec<char>)
    ensures
        r@ == ascii_lower(s@),
{
    let mut r: Vec<char> = Vec::new();
    let mut i: usize = 0;
    while i < s.len()
        invariant
            i <= s.len(),
            r@ == ascii_lower(s@.subrange(0, i as int)),
        decreases s.len() - i,
    {
        let c = lower_char(s[i]);
        r.push(c);
        i = i + 1;
        assert(ascii_lower(s@.subrange(0, i as int)) =~= ascii_lower(
            s@.subrange(0, (i - 1) as int),
        ).push(c));
    }
    assert(s@.subrange(0, s.len() as int) =~= s@);
    r
}

/// Whether `needle` occurs in `hay`.
pub fn contains_chars(hay: &Vec<char>, needle: &Vec<char>) -> (b: bool)
    ensures
        b == has_substring(hay@, needle@),
{
    let n = needle.len();
    if n > hay.len() {
        return false;
    }
    let mut i: usize = 0;
    while i <= hay.len() - n
        invariant
            n == needle.len(),
            n <= hay.len(),
            i <= hay.len() - n + 1,
            forall|k: int| 0 <= k < i ==> #[trigger] hay@.subrange(k, k + n) != needle@,
        decreases hay.len() - i,
    {
        let mut j: usize = 0;
        while j < n && hay[i + j] == needle[j]
            invariant
                n == needle.len(),
                i + n <= hay.len(),
                j <= n,
                forall|t: int| 0 <= t < j ==> hay@[i + t] == needle@[t],
            decreases n - j,
        {
            j = j + 1;
        }
        if j == n {
            assert(hay@.subrange(i as int, i + n) =~= needle@);
            return true;
        }
        assert(hay@.subrange(i as int, i + n)[j as int] != needle@[j as int]);
        i = i + 1;
    }
    assert forall|k: int| 0 <= k && k + n <= hay@.len() implies #[trigger] hay@.subrange(
        k,
        k + n,
    ) != needle@ by {}
    false
}

/// Lower-casing twice is lower-casing once.
pub proof fn lemma_ascii_lower_idempotent(s: Seq<char>)
    ensures
        ascii_lower(ascii_lower(s)) == ascii_lower(s),
{
    assert(ascii_lower(ascii_lower(s)) =~= ascii_lower(s));
}

/// The characters of a sequence of strings.
pub open spec fn strings_view(v: Seq<String>) -> Seq<Seq<char>> {
    v.map_values(|s: String| s@)
}

/// The fragments joined one after another.
pub open spec fn concat_parts(parts: Seq<Seq<char>>) -> Seq<char>
    decreases parts.len(),
{
    if parts.len() == 0 {
        Seq::empty()
    } else {
        concat_parts(parts.drop_last()) + parts.last()
    }
}

/// Joins strings one after another, as collecting them into one `String` does.
pub fn join_strings(parts: &Vec<String>) -> (r: String)
    ensures
        r@ == concat_parts(strings_view(parts@)),
{
    let mut r = String::new();
    let mut i: usize = 0;
    while i < parts.len()
        invariant
            i <= parts.len(),
            r@ == concat_parts(strings_view(parts@.subrange(0, i as int))),
        decreases parts.len() - i,
    {
        r.append(parts[i].as_str());
        i = i + 1;
        assert(strings_view(parts@.subrange(0, i as int)).drop_last() =~= strings_view(
            parts@.subrange(0, (i - 1) as int),
        ));
    }
    assert(parts@.subrange(0, parts.len() as int) =~= parts@);
    r
}

/// What `str::to_lowercase` returns for a text: its lower-case form by the
/// Unicode `Lowercase` property.
pub uninterp spec fn unicode_lowercase(s: Seq<char>) -> Seq<char>;

/// The lower-case form of a text, by `str::to_lowercase`. Its result is a
/// function of the text alone; nothing more of it is stated.
#[verifier::external_body]
pub(crate) fn to_lowercase(s: &str) -> (r: String)
    ensures
        r@ == unicode_lowercase(s@),
{
    s.to_lowercase()
}


/// ASCII lower-casing keeps the length, turns each of `A`..`Z` into the letter
/// 32 code points later, and keeps every other character.
pub proof fn law_ascii_lower(s: Seq<char>)
    ensures
        ascii_lower(s).len() == s.len(),
        forall|i: int|
            0 <= i < s.len() ==> (#[trigger] ascii_lower(s)[i]) == (if 'A' <= s[i] && s[i] <= 'Z' {
                ((s[i] as int) + 32) as char
            } else {
                s[i]
            }),
{
}

/// A needle occurs in any text that holds it between two other texts, and
/// never in a shorter text.
pub proof fn law_has_substring(before: Seq<char>, needle: Seq<char>, after: Seq<char>, hay: Seq<char>)
    ensures
        has_substring(before + needle + after, needle),
        needle.len() > hay.len() ==> !has_substring(hay, needle),
{
    let h = before + needle + after;
    assert(h.subrange(before.len() as int, (before.len() + needle.len()) as int) =~= needle);
}

/// Joining distributes over joining sequences of fragments, and one fragment
/// joins to itself.
pub proof fn law_concat_parts(a: Seq<Seq<char>>, b: Seq<Seq<char>>, x: Seq<char>)
    ensures
        concat_parts(a + b) == concat_parts(a) + concat_parts(b),
        concat_parts(seq![x]) == x,
    decreases b.len(),
{
    if b.len() == 0 {
        assert(a + b =~= a);
        assert(concat_parts(a) + concat_parts(b) =~= concat_parts(a));
    } else {
        law_concat_parts(a, b.drop_last(), x);
        assert((a + b).drop_last() =~= a + b.drop_last());
        assert((a + b).last() == b.last());
        assert(concat_parts(a) + concat_parts(b.drop_last()) + b.last() =~= concat_parts(a) + (
        concat_parts(b.drop_last()) + b.last()));
    }
    assert(seq![x].drop_last() =~= Seq::<Seq<char>>::empty());
    assert(concat_parts(Seq::<Seq<char>>::empty()) == Seq::<char>::empty());
    assert(Seq::<char>::empty() + x =~= x);
}


/// A needle occurs in a text exactly when the text is some text, then the
/// needle, then some text.
pub proof fn law_has_substring_split(hay: Seq<char>, needle: Seq<char>)
    ensures
        has_substring(hay, needle) == (exists|a: Seq<char>, b: Seq<char>|
            hay == #[trigger] (a + needle + b)),
{
    if has_substring(hay, needle) {
        let i = choose|i: int|
            0 <= i && i + needle.len() <= hay.len() && #[trigger] hay.subrange(
                i,
                i + needle.len(),
            ) == needle;
        let a = hay.subrange(0, i);
        let b = hay.subrange(i + needle.len(), hay.len() as int);
        assert(hay =~= a + needle + b);
    }
    if exists|a: Seq<char>, b: Seq<char>| hay == #[trigger] (a + needle + b) {
        let (a, b) = choose|a: Seq<char>, b: Seq<char>| hay == #[trigger] (a + needle + b);
        law_has_substring(a, needle, b, hay);
    }
}

} // verus!
