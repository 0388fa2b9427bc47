//! Searching text without regard to case.

use vstd::prelude::*;

verus! {

/// The text that `str::to_lowercase` gives for `text`.
pub uninterp spec fn lowercase_of(text: Seq<char>) -> Seq<char>;

/// `str::to_lowercase`: the text with every character in lower case.
#[verifier::external_body]
pub(crate) fn to_lowercase(text: &str) -> (r: String)
    ensures
        r@ == lowercase_of(text@),
{
    text.to_lowercase()
}

/// Whether `needle` stands in `haystack` as one unbroken run.
pub open spec fn occurs_in(needle: Seq<char>, haystack: Seq<char>) -> bool {
    exists|k: int|
        0 <= k && k + needle.len() <= haystack.len() && #[trigger] haystack.subrange(
            k,
            k + needle.len(),
        ) == needle
}

/// Whether `needle` stands in `haystack` once both are in lower case.
pub open spec fn occurs_in_ignoring_case(needle: Seq<char>, haystack: Seq<char>) -> bool {
    occurs_in(lowercase_of(needle), lowercase_of(haystack))
}

/// Whether two texts are the same.
pub fn same_text(left: &str, right: &str) -> (r: bool)
    ensures
        r == (left@ == right@),
{
    let l = left.to_owned();
    let r = right.to_owned();
    l == r
}

/// The characters of `text`, in order.
pub fn chars_of(text: &str) -> (r: Vec<char>)
    ensures
        r@ == text@,
{
    let n = text.unicode_len();
    let mut out: Vec<char> = Vec::new();
    let mut i: usize = 0;
    while i < n
        invariant
            n == text@.len(),
            i <= n,
            out@ == text@.take(i as int),
        decreases n - i,
    {
        out.push(text.get_char(i));
        assert(out@ =~= text@.take(i + 1));
        i += 1;
    }
    assert(text@.take(n as int) =~= text@);
    out
}

/// Whether `needle` stands in `haystack` at the place `at`.
pub fn occurs_at(needle: &Vec<char>, haystack: &Vec<char>, at: usize) -> (r: bool)
    requires
        at + needle.len() <= haystack.len(),
    ensures
        r == (haystack@.subrange(at as int, at + needle.len()) == needle@),
{
    let mut j: usize = 0;
    while j < needle.len()
        invariant
            j <= needle.len(),
            at + needle.len() <= haystack.len(),
            haystack@.subrange(at as int, at + j) == needle@.take(j as int),
        decreases needle.len() - j,
    {
        if haystack[at + j] != needle[j] {
            assert(haystack@.subrange(at as int, at + needle.len())[j as int] != needle@[j as int]);
            return false;
        }
        assert(haystack@.subrange(at as int, at + j + 1) =~= haystack@.subrange(
            at as int,
            at + j,
        ).push(haystack@[at + j]));
        assert(needle@.take(j + 1) =~= needle@.take(j as int).push(needle@[j as int]));
        j += 1;
    }
    assert(needle@.take(needle.len() as int) =~= needle@);
    true
}

/// Whether `needle` stands in `haystack` as one unbroken run. The empty
/// needle stands in every text.
pub fn occurs(needle: &Vec<char>, haystack: &Vec<char>) -> (r: bool)
    ensures
        r == occurs_in(needle@, haystack@),
{
    if needle.len() > haystack.len() {
        return false;
    }
    let last: usize = haystack.len() - needle.len();
    let mut k: usize = 0;
    loop
        invariant
            needle.len() <= haystack.len(),
            last == haystack.len() - needle.len(),
            k <= last,
            forall|i: int|
                0 <= i < k ==> #[trigger] haystack@.subrange(i, i + needle.len()) != needle@,
        decreases last - k,
    {
        if occurs_at(needle, haystack, k) {
            return true;
        }
        if k == last {
            return false;
        }
        k += 1;
    }
}

/// Whether `needle` stands in `description` without regard to case.
pub fn matches_ignoring_case(needle: &str, description: &str) -> (r: bool)
    ensures
        r == occurs_in_ignoring_case(needle@, description@),
{
    let lowered_needle = to_lowercase(needle);
    let lowered_description = to_lowercase(description);
    let n = chars_of(lowered_needle.as_str());
    let d = chars_of(lowered_description.as_str());
    occurs(&n, &d)
}

/// The fields that `separator` cuts `text` into: the text itself where the
/// separator does not occur, otherwise what stands before its first
/// occurrence followed by the fields of what stands after it.
pub open spec fn fields(text: Seq<char>, separator: char) -> Seq<Seq<char>>
    decreases text.len(),
{
    match text.index_of_first(separator) {
        None => seq![text],
        Some(at) => if 0 <= at < text.len() {
            seq![text.take(at)] + fields(text.skip(at + 1), separator)
        } else {
            seq![text]
        },
    }
}

/// A text is cut into one field at least.
pub proof fn lemma_fields_not_empty(text: Seq<char>, separator: char)
    ensures
        fields(text, separator).len() >= 1,
{
}

/// The views of a run of texts, in order.
pub open spec fn texts(list: Seq<String>) -> Seq<Seq<char>> {
    list.map_values(|t: String| t@)
}

/// Where `separator` first stands among `chars` from `from` on, if it does.
pub fn find_from(chars: &Vec<char>, from: usize, separator: char) -> (r: Option<usize>)
    requires
        from <= chars.len(),
    ensures
        r matches Some(at) ==> from <= at < chars.len() && chars@.skip(from as int).index_of_first(
            separator,
        ) == Some(at - from),
        r is None ==> chars@.skip(from as int).index_of_first(separator) is None,
{
    let ghost rest = chars@.skip(from as int);
    let mut i: usize = from;
    while i < chars.len()
        invariant
            from <= i <= chars.len(),
            rest == chars@.skip(from as int),
            forall|j: int| 0 <= j < i - from ==> rest[j] != separator,
        decreases chars.len() - i,
    {
        if chars[i] == separator {
            proof {
                assert(rest[i - from] == separator);
                assert(rest.contains(separator));
                rest.index_of_first_ensures(separator);
                let first = rest.index_of_first(separator)->0;
                if first < i - from {
                    assert(rest[first] != separator);
                }
                if first > i - from {
                    assert(rest[i - from] != separator);
                }
            }
            return Some(i);
        }
        i += 1;
    }
    proof {
        rest.index_of_first_ensures(separator);
        if rest.index_of_first(separator) is Some {
            let first = rest.index_of_first(separator)->0;
            assert(rest[first] != separator);
        }
    }
    None
}

/// The fields that `separator` cuts `text` into, in order. A text without
/// the separator is one field; an empty text is one empty field.
pub fn split(text: &str, separator: char) -> (r: Vec<String>)
    ensures
        texts(r@) == fields(text@, separator),
{
    let chars = chars_of(text);
    let mut out: Vec<String> = Vec::new();
    let mut from: usize = 0;
    proof {
        assert(chars@.skip(0) =~= text@);
        assert(texts(out@) =~= Seq::empty());
        assert(Seq::<Seq<char>>::empty() + fields(text@, separator) =~= fields(text@, separator));
    }
    loop
        invariant
            chars@ == text@,
            from <= chars.len(),
            texts(out@) + fields(chars@.skip(from as int), separator) == fields(text@, separator),
        decreases chars.len() - from,
    {
        let ghost done = texts(out@);
        let ghost rest = chars@.skip(from as int);
        match find_from(&chars, from, separator) {
            Some(at) => {
                let field = text.substring_char(from, at).to_owned();
                proof {
                    assert(rest.take(at - from) =~= text@.subrange(from as int, at as int));
                    assert(rest.skip(at - from + 1) =~= chars@.skip(at + 1));
                }
                out.push(field);
                proof {
                    assert(texts(out@) =~= done.push(rest.take(at - from)));
                    assert(done.push(rest.take(at - from)) + fields(chars@.skip(at + 1), separator)
                        =~= done + (seq![rest.take(at - from)] + fields(
                        chars@.skip(at + 1),
                        separator,
                    )));
                }
                from = at + 1;
            },
            None => {
                let field = text.substring_char(from, chars.len()).to_owned();
                proof {
                    assert(rest =~= text@.subrange(from as int, chars.len() as int));
                }
                out.push(field);
                proof {
                    assert(texts(out@) =~= done + seq![rest]);
                }
                return out;
            },
        }
    }
}

/// Whether `text` is one of `list`.
pub fn contains_text(list: &Vec<String>, text: &String) -> (r: bool)
    ensures
        r == texts(list@).contains(text@),
{
    let mut i: usize = 0;
    while i < list.len()
        invariant
            i <= list.len(),
            forall|j: int| 0 <= j < i ==> texts(list@)[j] != text@,
        decreases list.len() - i,
    {
        if list[i] == *text {
            assert(texts(list@)[i as int] == text@);
            return true;
        }
        i += 1;
    }
    false
}

/// `list` without the texts that stood in it before: each text at the place
/// where it first occurs.
pub open spec fn distinct(list: Seq<Seq<char>>) -> Seq<Seq<char>>
    decreases list.len(),
{
    if list.len() == 0 {
        list
    } else if distinct(list.drop_last()).contains(list.last()) {
        distinct(list.drop_last())
    } else {
        distinct(list.drop_last()).push(list.last())
    }
}

/// The texts of `list`, each once, in the order in which they first occur.
pub fn without_repeats(list: &Vec<String>) -> (r: Vec<String>)
    ensures
        texts(r@) == distinct(texts(list@)),
        texts(r@).no_duplicates(),
{
    proof {
        lemma_distinct(texts(list@));
    }
    let mut out: Vec<String> = Vec::new();
    let mut i: usize = 0;
    proof {
        assert(texts(list@.take(0)) =~= Seq::empty());
        assert(texts(out@) =~= Seq::empty());
    }
    while i < list.len()
        invariant
            i <= list.len(),
            texts(out@) == distinct(texts(list@.take(i as int))),
        decreases list.len() - i,
    {
        let ghost seen = texts(list@.take(i as int));
        let ghost kept = texts(out@);
        proof {
            assert(texts(list@.take(i + 1)) =~= seen.push(list@[i as int]@));
            assert(seen.push(list@[i as int]@).drop_last() =~= seen);
        }
        if !contains_text(&out, &list[i]) {
            out.push(list[i].clone());
            assert(texts(out@) =~= kept.push(list@[i as int]@));
        }
        i += 1;
    }
    assert(list@.take(list.len() as int) =~= list@);
    out
}

/// No text of a run cleared of repeats occurs in it twice, and it holds
/// exactly the texts of the run it was made from.
pub proof fn lemma_distinct(list: Seq<Seq<char>>)
    ensures
        distinct(list).no_duplicates(),
        forall|t: Seq<char>| #[trigger] distinct(list).contains(t) ==> list.contains(t),
        forall|t: Seq<char>| #[trigger] list.contains(t) ==> distinct(list).contains(t),
    decreases list.len(),
{
    if list.len() > 0 {
        let rest = list.drop_last();
        let last = list.last();
        lemma_distinct(rest);
        assert forall|t: Seq<char>| #[trigger] list.contains(t) implies distinct(list).contains(
            t,
        ) by {
            let i = choose|i: int| 0 <= i < list.len() && list[i] == t;
            if i < list.len() - 1 {
                assert(rest[i] == t);
                assert(rest.contains(t));
                assert(distinct(rest).contains(t));
                let k = choose|k: int| 0 <= k < distinct(rest).len() && distinct(rest)[k] == t;
                assert(distinct(list)[k] == t);
            } else if !distinct(rest).contains(last) {
                assert(distinct(list)[distinct(rest).len() as int] == t);
            }
        }
        assert forall|t: Seq<char>| #[trigger] distinct(list).contains(t) implies list.contains(
            t,
        ) by {
            let k = choose|k: int| 0 <= k < distinct(list).len() && distinct(list)[k] == t;
            if k < distinct(rest).len() {
                assert(distinct(rest)[k] == t);
                assert(distinct(rest).contains(t));
                assert(rest.contains(t));
                let i = choose|i: int| 0 <= i < rest.len() && rest[i] == t;
                assert(list[i] == t);
            } else {
                assert(list[list.len() - 1] == t);
            }
        }
    }
}

/// Whether `a` comes before `b` in the order of a dictionary that goes by
/// the code points of the characters: at the first place where they differ
/// `a` has the smaller character, or `a` ends there and `b` goes on.
pub open spec fn precedes(a: Seq<char>, b: Seq<char>) -> bool
    decreases a.len(),
{
    if b.len() == 0 {
        false
    } else if a.len() == 0 {
        true
    } else if a[0] != b[0] {
        a[0] < b[0]
    } else {
        precedes(a.skip(1), b.skip(1))
    }
}

/// What comes before a text comes before everything after that text.
pub proof fn lemma_precedes_transitive(a: Seq<char>, b: Seq<char>, c: Seq<char>)
    requires
        precedes(a, b),
        precedes(b, c),
    ensures
        precedes(a, c),
    decreases a.len(),
{
    if a.len() > 0 && b.len() > 0 && c.len() > 0 {
        if a[0] == b[0] && b[0] == c[0] {
            lemma_precedes_transitive(a.skip(1), b.skip(1), c.skip(1));
        }
    }
}

/// Of two different texts one comes before the other.
pub proof fn lemma_precedes_total(a: Seq<char>, b: Seq<char>)
    ensures
        precedes(a, b) || precedes(b, a) || a == b,
    decreases a.len(),
{
    if a.len() > 0 && b.len() > 0 {
        if a[0] == b[0] {
            lemma_precedes_total(a.skip(1), b.skip(1));
            if a.skip(1) == b.skip(1) {
                assert(a =~= seq![a[0]] + a.skip(1));
                assert(b =~= seq![b[0]] + b.skip(1));
            }
        }
    } else if a.len() == 0 && b.len() == 0 {
        assert(a =~= b);
    }
}

/// Whether `a` comes before `b` in the order of a dictionary that goes by
/// the code points of the characters.
pub fn comes_before(a: &Vec<char>, b: &Vec<char>) -> (r: bool)
    ensures
        r == precedes(a@, b@),
{
    let mut i: usize = 0;
    proof {
        assert(a@.skip(0) =~= a@);
        assert(b@.skip(0) =~= b@);
    }
    while i < a.len() && i < b.len()
        invariant
            i <= a.len(),
            i <= b.len(),
            precedes(a@, b@) == precedes(a@.skip(i as int), b@.skip(i as int)),
        decreases a.len() - i,
    {
        if a[i] != b[i] {
            return a[i] < b[i];
        }
        proof {
            assert(a@.skip(i as int).skip(1) =~= a@.skip(i + 1));
            assert(b@.skip(i as int).skip(1) =~= b@.skip(i + 1));
        }
        i += 1;
    }
    i < b.len()
}

} // verus!
