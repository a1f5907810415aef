//! String work shared by the converters: escaping of regex special
//! characters, wildcard translation, and searching and splitting of the
//! raw source text.

use vstd::prelude::*;

verus! {

/// The characters that must be escaped in the synthesized URL pattern.
pub open spec fn is_special_char(c: char) -> bool {
    c == '.' || c == '+' || c == '?' || c == '^' || c == '$' || c == '{' || c == '}' || c == '('
        || c == ')' || c == '|' || c == '[' || c == ']'
}

fn is_special(c: char) -> (r: bool)
    ensures
        r == is_special_char(c),
{
    c == '.' || c == '+' || c == '?' || c == '^' || c == '$' || c == '{' || c == '}' || c == '('
        || c == ')' || c == '|' || c == '[' || c == ']'
}

/// What one character of a literal body becomes under escaping alone.
pub open spec fn escape_char(c: char) -> Seq<char> {
    if is_special_char(c) {
        seq!['\\', c]
    } else {
        seq![c]
    }
}

/// A literal string with every special character backslash-escaped.
pub open spec fn escape_special(s: Seq<char>) -> Seq<char>
    decreases s.len(),
{
    if s.len() == 0 {
        Seq::<char>::empty()
    } else {
        escape_char(s[0]) + escape_special(s.drop_first())
    }
}

/// What one character of a filter body becomes: a `*` wildcard turns into
/// `.*`, special characters are escaped, everything else stays.
pub open spec fn translate_char(c: char) -> Seq<char> {
    if c == '*' {
        seq!['.', '*']
    } else {
        escape_char(c)
    }
}

/// A filter body with wildcards translated and special characters escaped.
pub open spec fn translate_body(s: Seq<char>) -> Seq<char>
    decreases s.len(),
{
    if s.len() == 0 {
        Seq::<char>::empty()
    } else {
        translate_char(s[0]) + translate_body(s.drop_first())
    }
}

/// A trailing `^` separator marker is dropped from the body.
pub open spec fn strip_trailing_separator(s: Seq<char>) -> Seq<char> {
    if s.len() > 0 && s[s.len() - 1] == '^' {
        s.drop_last()
    } else {
        s
    }
}

pub proof fn lemma_escape_snoc(s: Seq<char>, c: char)
    ensures
        escape_special(s.push(c)) == escape_special(s) + escape_char(c),
    decreases s.len(),
{
    if s.len() == 0 {
        assert(s.push(c).drop_first() =~= Seq::<char>::empty());
        assert(s.push(c)[0] == c);
        assert(escape_special(Seq::<char>::empty()) == Seq::<char>::empty());
        assert(escape_special(s.push(c)) == escape_char(c) + escape_special(
            s.push(c).drop_first(),
        ));
        assert(escape_special(s.push(c)) =~= escape_special(s) + escape_char(c));
    } else {
        assert(s.push(c).drop_first() =~= s.drop_first().push(c));
        lemma_escape_snoc(s.drop_first(), c);
        assert(s.push(c)[0] == s[0]);
        assert(escape_special(s.push(c)) == escape_char(s[0]) + escape_special(
            s.push(c).drop_first(),
        ));
        assert(escape_special(s) == escape_char(s[0]) + escape_special(s.drop_first()));
        assert(escape_special(s.push(c)) =~= escape_special(s) + escape_char(c));
    }
}

pub proof fn lemma_translate_snoc(s: Seq<char>, c: char)
    ensures
        translate_body(s.push(c)) == translate_body(s) + translate_char(c),
    decreases s.len(),
{
    if s.len() == 0 {
        assert(s.push(c).drop_first() =~= Seq::<char>::empty());
        assert(s.push(c)[0] == c);
        assert(translate_body(Seq::<char>::empty()) == Seq::<char>::empty());
        assert(translate_body(s.push(c)) == translate_char(c) + translate_body(
            s.push(c).drop_first(),
        ));
        assert(translate_body(s.push(c)) =~= translate_body(s) + translate_char(c));
    } else {
        assert(s.push(c).drop_first() =~= s.drop_first().push(c));
        lemma_translate_snoc(s.drop_first(), c);
        assert(s.push(c)[0] == s[0]);
        assert(translate_body(s.push(c)) == translate_char(s[0]) + translate_body(
            s.push(c).drop_first(),
        ));
        assert(translate_body(s) == translate_char(s[0]) + translate_body(s.drop_first()));
        assert(translate_body(s.push(c)) =~= translate_body(s) + translate_char(c));
    }
}

/// Escapes every special character of `s` with a backslash; used on
/// hostnames, where a `*` is left alone.
pub fn escape_special_chars(s: &str) -> (r: String)
    ensures
        r@ == escape_special(s@),
{
    let n = s.unicode_len();
    let mut r = String::new();
    let mut i: usize = 0;
    while i < n
        invariant
            i <= n,
            n == s@.len(),
            r@ == escape_special(s@.take(i as int)),
        decreases n - i,
    {
        let c = s.get_char(i);
        if is_special(c) {
            r.append("\\");
        }
        let piece = s.substring_char(i, i + 1);
        r.append(piece);
        proof {
            reveal_strlit("\\");
            assert(("\\")@ =~= seq!['\\']);
            assert(piece@ =~= seq![c]);
            lemma_escape_snoc(s@.take(i as int), c);
            assert(s@.take(i as int).push(c) =~= s@.take(i + 1));
            assert(r@ =~= escape_special(s@.take(i as int)) + escape_char(c));
        }
        i += 1;
    }
    proof {
        assert(s@.take(n as int) =~= s@);
    }
    r
}

/// Translates a filter body: drops one trailing `^`, escapes special
/// characters, and turns each `*` wildcard into `.*`.
pub fn translate_filter_body(s: &str) -> (r: String)
    ensures
        r@ == translate_body(strip_trailing_separator(s@)),
{
    let n = s.unicode_len();
    let limit = if n > 0 && s.get_char(n - 1) == '^' {
        n - 1
    } else {
        n
    };
    proof {
        assert(s@.take(limit as int) =~= strip_trailing_separator(s@));
    }
    let mut r = String::new();
    let mut i: usize = 0;
    while i < limit
        invariant
            i <= limit,
            limit <= n,
            n == s@.len(),
            r@ == translate_body(s@.take(limit as int).take(i as int)),
        decreases limit - i,
    {
        let c = s.get_char(i);
        if c == '*' {
            r.append(".*");
        } else {
            if is_special(c) {
                r.append("\\");
            }
            let piece = s.substring_char(i, i + 1);
            r.append(piece);
            proof {
                assert(piece@ =~= seq![c]);
            }
        }
        proof {
            reveal_strlit("\\");
            reveal_strlit(".*");
            assert(("\\")@ =~= seq!['\\']);
            assert((".*")@ =~= seq!['.', '*']);
            let t = s@.take(limit as int);
            lemma_translate_snoc(t.take(i as int), c);
            assert(t.take(i as int).push(c) =~= t.take(i + 1));
            assert(r@ =~= translate_body(t.take(i as int)) + translate_char(c));
        }
        i += 1;
    }
    proof {
        let t = s@.take(limit as int);
        assert(t.take(limit as int) =~= t);
    }
    r
}

/// The index of the first occurrence of `c` in `s`, if any.
pub open spec fn find_char(s: Seq<char>, c: char) -> Option<int>
    decreases s.len(),
{
    if s.len() == 0 {
        None
    } else if s[0] == c {
        Some(0)
    } else {
        match find_char(s.drop_first(), c) {
            Some(i) => Some(i + 1),
            None => None,
        }
    }
}

pub proof fn lemma_find_char_props(s: Seq<char>, c: char)
    ensures
        match find_char(s, c) {
            Some(i) => 0 <= i < s.len() && s[i] == c && forall|j: int| 0 <= j < i ==> s[j] != c,
            None => forall|j: int| 0 <= j < s.len() ==> s[j] != c,
        },
    decreases s.len(),
{
    if s.len() == 0 {
    } else if s[0] == c {
    } else {
        lemma_find_char_props(s.drop_first(), c);
        match find_char(s.drop_first(), c) {
            Some(i) => {
                assert(forall|j: int| 1 <= j < i + 1 ==> s[j] == s.drop_first()[j - 1]);
            },
            None => {
                assert(forall|j: int| 1 <= j < s.len() ==> s[j] == s.drop_first()[j - 1]);
            },
        }
    }
}

pub proof fn lemma_find_char_at(s: Seq<char>, c: char, i: int)
    requires
        0 <= i < s.len(),
        s[i] == c,
        forall|j: int| 0 <= j < i ==> s[j] != c,
    ensures
        find_char(s, c) == Some(i),
    decreases s.len(),
{
    if i == 0 {
    } else {
        assert(s[0] != c);
        assert(s.drop_first()[i - 1] == s[i]);
        assert(forall|j: int| 0 <= j < i - 1 ==> s.drop_first()[j] == s[j + 1]);
        lemma_find_char_at(s.drop_first(), c, i - 1);
    }
}

pub proof fn lemma_find_char_none(s: Seq<char>, c: char)
    requires
        forall|j: int| 0 <= j < s.len() ==> s[j] != c,
    ensures
        find_char(s, c) is None,
    decreases s.len(),
{
    if s.len() == 0 {
    } else {
        assert(forall|j: int| 0 <= j < s.drop_first().len() ==> s.drop_first()[j] == s[j + 1]);
        lemma_find_char_none(s.drop_first(), c);
    }
}

/// Finds the first occurrence of `c` in `s`, by character index.
pub fn find_char_in(s: &str, c: char) -> (r: Option<usize>)
    ensures
        match r {
            Some(i) => find_char(s@, c) == Some(i as int),
            None => find_char(s@, c) is None,
        },
{
    let n = s.unicode_len();
    let mut i: usize = 0;
    while i < n
        invariant
            i <= n,
            n == s@.len(),
            forall|j: int| 0 <= j < i ==> s@[j] != c,
        decreases n - i,
    {
        if s.get_char(i) == c {
            proof {
                lemma_find_char_at(s@, c, i as int);
            }
            return Some(i);
        }
        i += 1;
    }
    proof {
        lemma_find_char_none(s@, c);
    }
    None
}

/// The index of the first occurrence of `pat` as a contiguous part of `s`,
/// if any.
pub open spec fn find_sub(s: Seq<char>, pat: Seq<char>) -> Option<int>
    decreases s.len(),
{
    if pat.len() > s.len() {
        None
    } else if s.take(pat.len() as int) == pat {
        Some(0)
    } else if s.len() == 0 {
        None
    } else {
        match find_sub(s.drop_first(), pat) {
            Some(i) => Some(i + 1),
            None => None,
        }
    }
}

pub proof fn lemma_find_sub_props(s: Seq<char>, pat: Seq<char>)
    ensures
        match find_sub(s, pat) {
            Some(i) => 0 <= i && i + pat.len() <= s.len() && s.subrange(i, i + pat.len()) == pat
                && forall|j: int|
                    0 <= j < i ==> #[trigger] s.subrange(j, j + pat.len()) != pat,
            None => forall|j: int|
                0 <= j && j + pat.len() <= s.len() ==> #[trigger] s.subrange(j, j + pat.len())
                    != pat,
        },
    decreases s.len(),
{
    if pat.len() > s.len() {
    } else if s.take(pat.len() as int) == pat {
        assert(s.subrange(0, pat.len() as int) =~= s.take(pat.len() as int));
    } else if s.len() == 0 {
        assert(s.take(pat.len() as int) =~= s);
    } else {
        lemma_find_sub_props(s.drop_first(), pat);
        assert(forall|j: int|
            0 <= j && j + pat.len() <= s.drop_first().len() ==> #[trigger] s.drop_first().subrange(
                j,
                j + pat.len(),
            ) =~= s.subrange(j + 1, j + 1 + pat.len()));
        assert(s.subrange(0, pat.len() as int) =~= s.take(pat.len() as int));
        match find_sub(s.drop_first(), pat) {
            Some(i) => {
                assert(s.subrange(i + 1, i + 1 + pat.len()) =~= s.drop_first().subrange(
                    i,
                    i + pat.len(),
                ));
                assert(forall|j: int|
                    1 <= j < i + 1 ==> #[trigger] s.subrange(j, j + pat.len())
                        == s.drop_first().subrange(j - 1, j - 1 + pat.len()));
            },
            None => {
                assert(forall|j: int|
                    1 <= j && j + pat.len() <= s.len() ==> #[trigger] s.subrange(j, j + pat.len())
                        == s.drop_first().subrange(j - 1, j - 1 + pat.len()));
            },
        }
    }
}

pub proof fn lemma_find_sub_at(s: Seq<char>, pat: Seq<char>, i: int)
    requires
        0 <= i,
        i + pat.len() <= s.len(),
        s.subrange(i, i + pat.len()) == pat,
        forall|j: int| 0 <= j < i ==> #[trigger] s.subrange(j, j + pat.len()) != pat,
    ensures
        find_sub(s, pat) == Some(i),
    decreases s.len(),
{
    assert(s.take(pat.len() as int) =~= s.subrange(0, pat.len() as int));
    if i == 0 {
        assert(s.take(pat.len() as int) == pat);
    } else {
        assert(s.subrange(0, 0 + pat.len() as int) != pat);
        assert(s.subrange(0, pat.len() as int) == s.subrange(0, 0 + pat.len() as int));
        assert(s.take(pat.len() as int) != pat);
        assert(s.len() > 0);
        assert(s.drop_first().subrange(i - 1, i - 1 + pat.len()) =~= s.subrange(i, i + pat.len()));
        assert(forall|j: int|
            0 <= j < i - 1 ==> #[trigger] s.drop_first().subrange(j, j + pat.len()) =~= s.subrange(
                j + 1,
                j + 1 + pat.len(),
            ));
        lemma_find_sub_at(s.drop_first(), pat, i - 1);
    }
}

/// Whether `pat` occurs in `s` starting at character index `i`.
fn match_at(s: &str, pat: &str, i: usize) -> (r: bool)
    requires
        i + pat@.len() <= s@.len(),
    ensures
        r == (s@.subrange(i as int, i + pat@.len()) == pat@),
{
    let n = s.unicode_len();
    let m = pat.unicode_len();
    let mut k: usize = 0;
    while k < m
        invariant
            k <= m,
            m == pat@.len(),
            n == s@.len(),
            i + m <= n,
            forall|j: int| 0 <= j < k ==> s@[i + j] == pat@[j],
        decreases m - k,
    {
        if s.get_char(i + k) != pat.get_char(k) {
            proof {
                assert(s@.subrange(i as int, i + pat@.len())[k as int] == s@[i + k]);
            }
            return false;
        }
        k += 1;
    }
    proof {
        assert(s@.subrange(i as int, i + pat@.len()) =~= pat@);
    }
    true
}

/// Finds the first occurrence of `pat` in `s`, by character index.
pub fn find_substr(s: &str, pat: &str) -> (r: Option<usize>)
    ensures
        match r {
            Some(i) => find_sub(s@, pat@) == Some(i as int),
            None => find_sub(s@, pat@) is None,
        },
{
    let n = s.unicode_len();
    let m = pat.unicode_len();
    if m > n {
        return None;
    }
    if m == 0 {
        proof {
            assert(s@.subrange(0, 0) =~= pat@);
            lemma_find_sub_at(s@, pat@, 0);
        }
        return Some(0);
    }
    let mut i: usize = 0;
    while i <= n - m
        invariant
            m <= n,
            n == s@.len(),
            m == pat@.len(),
            i <= n - m + 1,
            1 <= m,
            forall|j: int| 0 <= j < i ==> #[trigger] s@.subrange(j, j + m) != pat@,
        decreases n - i,
    {
        if match_at(s, pat, i) {
            proof {
                lemma_find_sub_at(s@, pat@, i as int);
            }
            return Some(i);
        }
        i += 1;
    }
    proof {
        lemma_find_sub_props(s@, pat@);
        if find_sub(s@, pat@) is Some {
            let w = find_sub(s@, pat@)->Some_0;
            assert(s@.subrange(w, w + m) != pat@);
        }
    }
    None
}

/// `s` divided at every occurrence of `sep`: splitting an empty string
/// yields one empty piece, and `n` separators yield `n + 1` pieces.
pub open spec fn split_on(s: Seq<char>, sep: char) -> Seq<Seq<char>>
    decreases s.len(),
{
    match find_char(s, sep) {
        None => seq![s],
        Some(i) => if 0 <= i < s.len() {
            seq![s.take(i)] + split_on(s.skip(i + 1), sep)
        } else {
            seq![s]
        },
    }
}

/// One unfolding step of `split_on` at the first separator.
pub proof fn lemma_split_on_step(s: Seq<char>, sep: char, i: int)
    requires
        find_char(s, sep) == Some(i),
    ensures
        0 <= i < s.len(),
        split_on(s, sep) == seq![s.take(i)] + split_on(s.skip(i + 1), sep),
{
    lemma_find_char_props(s, sep);
}

/// Splits `s` at every occurrence of `sep`.
pub fn split_str(s: &str, sep: char) -> (r: Vec<String>)
    ensures
        r.deep_view() == split_on(s@, sep),
{
    let n = s.unicode_len();
    let mut r: Vec<String> = Vec::new();
    let mut start: usize = 0;
    let mut i: usize = 0;
    proof {
        assert(s@.skip(0) =~= s@);
    }
    while i < n
        invariant
            start <= i <= n,
            n == s@.len(),
            forall|j: int| start <= j < i ==> s@[j] != sep,
            r.deep_view() + split_on(s@.skip(start as int), sep) == split_on(s@, sep),
        decreases n - i,
    {
        if s.get_char(i) == sep {
            let piece = s.substring_char(start, i).to_owned();
            proof {
                let tail = s@.skip(start as int);
                assert(tail[i - start] == s@[i as int]);
                assert(forall|j: int| 0 <= j < i - start ==> tail[j] == s@[start + j]);
                lemma_find_char_at(tail, sep, i - start);
                lemma_split_on_step(tail, sep, i - start);
                assert(tail.take(i - start) =~= s@.subrange(start as int, i as int));
                assert(tail.skip(i - start + 1) =~= s@.skip(i + 1));
            }
            let ghost old_deep = r.deep_view();
            r.push(piece);
            proof {
                assert(r.deep_view() =~= old_deep.push(piece@));
                assert(r.deep_view() + split_on(s@.skip(i + 1), sep) =~~= split_on(s@, sep));
            }
            start = i + 1;
        }
        i += 1;
    }
    let piece = s.substring_char(start, n).to_owned();
    proof {
        let tail = s@.skip(start as int);
        assert(forall|j: int| 0 <= j < tail.len() ==> tail[j] == s@[start + j]);
        lemma_find_char_none(tail, sep);
        assert(split_on(tail, sep) == seq![tail]);
        assert(tail =~= s@.subrange(start as int, n as int));
    }
    let ghost old_deep = r.deep_view();
    r.push(piece);
    proof {
        assert(r.deep_view() =~= old_deep.push(piece@));
        assert(r.deep_view() =~~= split_on(s@, sep));
    }
    r
}

} // verus!
