//! Line tokenization and small text utilities.
//!
//! A line of OBJ or MTL text is split on ASCII whitespace into a keyword and
//! argument tokens; lines that are blank or whose first content character is
//! `#` carry nothing.  Face tokens are further split on `/`, and path
//! arguments have their doubled backslashes collapsed.

use vstd::prelude::*;

verus! {

/// Whether `c` is ASCII whitespace.
pub open spec fn is_space(c: char) -> bool {
    c == ' ' || c == '\t' || c == '\n' || c == '\r' || c == '\u{c}'
}

/// The maximal runs of non-whitespace characters of `s`, in order.
pub open spec fn tokens_of(s: Seq<char>) -> Seq<Seq<char>>
    decreases s.len(),
{
    if s.len() == 0 {
        seq![]
    } else if is_space(s[0]) {
        tokens_of(s.skip(1))
    } else if s.len() > 1 && !is_space(s[1]) {
        let rest = tokens_of(s.skip(1));
        seq![seq![s[0]] + rest[0]] + rest.skip(1)
    } else {
        seq![seq![s[0]]] + tokens_of(s.skip(1))
    }
}

/// A sequence that starts with a non-space character has a first token, and
/// that token starts with the same character.
pub proof fn lemma_tokens_head(s: Seq<char>)
    requires
        s.len() > 0,
        !is_space(s[0]),
    ensures
        tokens_of(s).len() >= 1,
        tokens_of(s)[0].len() >= 1,
        tokens_of(s)[0][0] == s[0],
    decreases s.len(),
{
    if s.len() > 1 && !is_space(s[1]) {
        assert(s.skip(1)[0] == s[1]);
        lemma_tokens_head(s.skip(1));
    }
}

/// Tokenization of a sequence that starts with a space is tokenization of
/// its tail.
pub proof fn lemma_tokens_skip_space(s: Seq<char>, i: int)
    requires
        0 <= i < s.len(),
        is_space(s[i]),
    ensures
        tokens_of(s.skip(i)) == tokens_of(s.skip(i + 1)),
{
    assert(s.skip(i)[0] == s[i]);
    assert(s.skip(i).skip(1) =~= s.skip(i + 1));
}

/// When the characters of `s` from `i` up to `k` are one whole token (all
/// non-space, ended by a space or the end of `s`), tokenization from `i` is
/// that token followed by tokenization from `k`.
pub proof fn lemma_tokens_take_token(s: Seq<char>, i: int, k: int)
    requires
        0 <= i < k <= s.len(),
        forall|m: int| i <= m < k ==> !is_space(#[trigger] s[m]),
        k == s.len() || is_space(s[k]),
    ensures
        tokens_of(s.skip(i)) == seq![s.subrange(i, k)] + tokens_of(s.skip(k)),
    decreases k - i,
{
    let t = s.skip(i);
    assert(forall|m: int| 0 <= m < t.len() ==> t[m] == s[#[trigger] (m + i)]);
    if k == i + 1 {
        if i + 1 == s.len() {
            assert(t.len() == 1);
            assert(t.skip(1) =~= s.skip(k));
            assert(tokens_of(t) =~~= seq![s.subrange(i, k)] + tokens_of(s.skip(k))) by {
                assert(seq![t[0]] =~= s.subrange(i, k));
            }
        } else {
            assert(is_space(s[k]));
            assert(t.len() > 1 && is_space(t[1]));
            assert(t.skip(1) =~= s.skip(k));
            assert(tokens_of(t) =~~= seq![s.subrange(i, k)] + tokens_of(s.skip(k))) by {
                assert(seq![t[0]] =~= s.subrange(i, k));
            }
        }
    } else {
        assert(t.len() > 1 && !is_space(t[1]));
        let rest = tokens_of(t.skip(1));
        assert(t.skip(1) =~= s.skip(i + 1));
        lemma_tokens_take_token(s, i + 1, k);
        assert(rest == seq![s.subrange(i + 1, k)] + tokens_of(s.skip(k)));
        assert(rest[0] == s.subrange(i + 1, k));
        assert(rest.skip(1) =~= tokens_of(s.skip(k)));
        assert(tokens_of(t) =~~= seq![s.subrange(i, k)] + tokens_of(s.skip(k))) by {
            assert(seq![t[0]] + rest[0] =~= s.subrange(i, k));
        }
    }
}

/// The first non-space character of `s`, if any.
pub open spec fn first_content_char(s: Seq<char>) -> Option<char>
    decreases s.len(),
{
    if s.len() == 0 {
        None
    } else if is_space(s[0]) {
        first_content_char(s.skip(1))
    } else {
        Some(s[0])
    }
}

/// Whether the line `s` carries nothing: it is blank, or its first content
/// character starts a comment.
pub open spec fn line_skipped(s: Seq<char>) -> bool {
    match first_content_char(s) {
        None => true,
        Some(c) => c == '#',
    }
}

/// A line with a first content character has a first token, which starts
/// with that character.
pub proof fn lemma_content_has_token(s: Seq<char>)
    requires
        first_content_char(s) is Some,
    ensures
        tokens_of(s).len() >= 1,
        tokens_of(s)[0].len() >= 1,
        tokens_of(s)[0][0] == first_content_char(s)->0,
    decreases s.len(),
{
    if s.len() > 0 {
        if is_space(s[0]) {
            lemma_content_has_token(s.skip(1));
        } else {
            lemma_tokens_head(s);
        }
    }
}

/// The segments of `s` between occurrences of `sep`, in order.  There is
/// always at least one segment; a separator at either end or two in a row
/// yield empty segments.
pub open spec fn split_seq(s: Seq<char>, sep: char) -> Seq<Seq<char>>
    decreases s.len(),
{
    if s.len() == 0 {
        seq![Seq::<char>::empty()]
    } else if s[0] == sep {
        seq![Seq::<char>::empty()] + split_seq(s.skip(1), sep)
    } else {
        let rest = split_seq(s.skip(1), sep);
        seq![seq![s[0]] + rest[0]] + rest.skip(1)
    }
}

/// Splitting yields at least one segment.
pub proof fn lemma_split_len(s: Seq<char>, sep: char)
    ensures
        split_seq(s, sep).len() >= 1,
    decreases s.len(),
{
    if s.len() > 0 && s[0] != sep {
        lemma_split_len(s.skip(1), sep);
    }
}

/// When the characters of `s` from `i` up to `j` are one whole segment
/// (none is `sep`, and `j` is the end or a separator), splitting from `i`
/// is that segment followed by the splitting from past the separator.
proof fn lemma_split_segment(s: Seq<char>, sep: char, i: int, j: int)
    requires
        0 <= i <= j <= s.len(),
        forall|m: int| i <= m < j ==> #[trigger] s[m] != sep,
        j == s.len() || s[j] == sep,
    ensures
        j == s.len() ==> split_seq(s.skip(i), sep) == seq![s.subrange(i, j)],
        j < s.len() ==> split_seq(s.skip(i), sep) == seq![s.subrange(i, j)] + split_seq(
            s.skip(j + 1),
            sep,
        ),
    decreases j - i,
{
    let t = s.skip(i);
    assert(forall|m: int| 0 <= m < t.len() ==> t[m] == s[#[trigger] (m + i)]);
    if i == j {
        if j == s.len() {
            assert(t.len() == 0);
            assert(split_seq(t, sep) =~~= seq![s.subrange(i, j)]) by {
                assert(Seq::<char>::empty() =~= s.subrange(i, j));
            }
        } else {
            assert(t[0] == sep);
            assert(t.skip(1) =~= s.skip(j + 1));
            assert(split_seq(t, sep) =~~= seq![s.subrange(i, j)] + split_seq(s.skip(j + 1), sep))
                by {
                assert(Seq::<char>::empty() =~= s.subrange(i, j));
            }
        }
    } else {
        assert(t[0] == s[i] && s[i] != sep);
        assert(t.skip(1) =~= s.skip(i + 1));
        let rest = split_seq(s.skip(i + 1), sep);
        lemma_split_segment(s, sep, i + 1, j);
        if j == s.len() {
            assert(rest == seq![s.subrange(i + 1, j)]);
            assert(split_seq(t, sep) =~~= seq![s.subrange(i, j)]) by {
                assert(seq![t[0]] + rest[0] =~= s.subrange(i, j));
                assert(rest.skip(1) =~= Seq::<Seq<char>>::empty());
            }
        } else {
            assert(rest == seq![s.subrange(i + 1, j)] + split_seq(s.skip(j + 1), sep));
            assert(split_seq(t, sep) =~~= seq![s.subrange(i, j)] + split_seq(s.skip(j + 1), sep))
                by {
                assert(seq![t[0]] + rest[0] =~= s.subrange(i, j));
                assert(rest.skip(1) =~= split_seq(s.skip(j + 1), sep));
            }
        }
    }
}

/// The segments of `s` between occurrences of `sep`.
pub fn split_on(s: &str, sep: char) -> (segments: Vec<String>)
    ensures
        segments.deep_view() == split_seq(s@, sep),
        segments.len() >= 1,
{
    let ghost whole = split_seq(s@, sep);
    let n = s.unicode_len();
    let mut segments: Vec<String> = Vec::new();
    let mut i: usize = 0;
    let mut done = false;
    proof {
        assert(s@.skip(0) =~= s@);
        assert(segments.deep_view() + split_seq(s@.skip(0), sep) =~~= whole);
        lemma_split_len(s@, sep);
    }
    while !done
        invariant
            i <= n,
            n == s@.len(),
            whole == split_seq(s@, sep),
            whole.len() >= 1,
            !done ==> segments.deep_view() + split_seq(s@.skip(i as int), sep) == whole,
            done ==> segments.deep_view() == whole,
            done ==> segments.len() >= 1,
        decreases n - i + (if done {
            0int
        } else {
            1int
        }),
    {
        let mut j: usize = i;
        while j < n && s.get_char(j) != sep
            invariant
                i <= j <= n,
                n == s@.len(),
                forall|m: int| i <= m < j ==> #[trigger] s@[m] != sep,
            decreases n - j,
        {
            j = j + 1;
        }
        let segment = s.substring_char(i, j).to_owned();
        let ghost before = segments.deep_view();
        segments.push(segment);
        proof {
            lemma_split_segment(s@, sep, i as int, j as int);
            assert(segments.deep_view() =~= before.push(s@.subrange(i as int, j as int)));
            if j == n {
                assert(segments.deep_view() =~~= whole);
            } else {
                assert(segments.deep_view() + split_seq(s@.skip(j as int + 1), sep) =~~= whole);
            }
        }
        if j == n {
            done = true;
        } else {
            i = j + 1;
        }
    }
    segments
}

/// `s` with every doubled backslash collapsed to a single one.
pub open spec fn unescape_seq(s: Seq<char>) -> Seq<char>
    decreases s.len(),
{
    if s.len() == 0 {
        Seq::empty()
    } else if s.len() >= 2 && s[0] == '\\' && s[1] == '\\' {
        seq!['\\'] + unescape_seq(s.skip(2))
    } else {
        seq![s[0]] + unescape_seq(s.skip(1))
    }
}

/// `s` with every doubled backslash collapsed to a single one, as paths in
/// OBJ and MTL text escape them.
pub fn unescape(s: &str) -> (r: String)
    ensures
        r@ == unescape_seq(s@),
{
    let n = s.unicode_len();
    let mut out = String::new();
    let mut i: usize = 0;
    proof {
        assert(s@.skip(0) =~= s@);
    }
    while i < n
        invariant
            i <= n,
            n == s@.len(),
            out@ + unescape_seq(s@.skip(i as int)) == unescape_seq(s@),
        decreases n - i,
    {
        let ghost suffix = s@.skip(i as int);
        let pair = i + 1 < n && s.get_char(i) == '\\' && s.get_char(i + 1) == '\\';
        let piece = s.substring_char(i, i + 1);
        out.append(piece);
        proof {
            assert(suffix[0] == s@[i as int]);
            if pair {
                assert(suffix[1] == s@[i as int + 1]);
                assert(suffix.skip(2) =~= s@.skip(i as int + 2));
                assert(out@ + unescape_seq(s@.skip(i as int + 2)) =~= unescape_seq(s@)) by {
                    assert(s@.subrange(i as int, i as int + 1) =~= seq!['\\']);
                }
            } else {
                assert(suffix.skip(1) =~= s@.skip(i as int + 1));
                assert(out@ + unescape_seq(s@.skip(i as int + 1)) =~= unescape_seq(s@)) by {
                    assert(s@.subrange(i as int, i as int + 1) =~= seq![suffix[0]]);
                }
            }
        }
        if pair {
            i = i + 2;
        } else {
            i = i + 1;
        }
    }
    proof {
        assert(s@.skip(n as int) =~= Seq::<char>::empty());
        assert(out@ + unescape_seq(s@.skip(n as int)) =~= out@);
    }
    out
}

/// Whether the views of `a` and `b` are the same sequence of characters.
pub fn str_eq(a: &str, b: &str) -> (r: bool)
    ensures
        r == (a@ == b@),
{
    let n = a.unicode_len();
    if n != b.unicode_len() {
        return false;
    }
    let mut i: usize = 0;
    while i < n
        invariant
            i <= n,
            n == a@.len() == b@.len(),
            forall|m: int| 0 <= m < i ==> a@[m] == b@[m],
        decreases n - i,
    {
        if a.get_char(i) != b.get_char(i) {
            return false;
        }
        i = i + 1;
    }
    proof {
        assert(a@ =~= b@);
    }
    true
}

/// Whether `s` starts with the characters of `p`.
pub fn has_prefix(s: &str, p: &str) -> (r: bool)
    ensures
        r == (s@.len() >= p@.len() && s@.subrange(0, p@.len() as int) == p@),
{
    let n = s.unicode_len();
    let k = p.unicode_len();
    if n < k {
        return false;
    }
    let mut i: usize = 0;
    while i < k
        invariant
            i <= k <= n,
            n == s@.len(),
            k == p@.len(),
            forall|m: int| 0 <= m < i ==> s@[m] == p@[m],
        decreases k - i,
    {
        if s.get_char(i) != p.get_char(i) {
            proof {
                assert(s@.subrange(0, k as int)[i as int] != p@[i as int]);
            }
            return false;
        }
        i = i + 1;
    }
    proof {
        assert(s@.subrange(0, k as int) =~= p@);
    }
    true
}

/// Whether `c` is ASCII whitespace.
pub fn space(c: char) -> (r: bool)
    ensures
        r == is_space(c),
{
    c == ' ' || c == '\t' || c == '\n' || c == '\r' || c == '\u{c}'
}

/// The tokens of `line` from position `from` on.
fn tokenize_from(line: &str, from: usize, n: usize) -> (tokens: Vec<String>)
    requires
        n == line@.len(),
        from <= n,
    ensures
        tokens.deep_view() == tokens_of(line@.skip(from as int)),
{
    let ghost whole = tokens_of(line@.skip(from as int));
    let mut tokens: Vec<String> = Vec::new();
    let mut i: usize = from;
    proof {
        assert(tokens.deep_view() =~= Seq::<Seq<char>>::empty());
        assert(tokens.deep_view() + tokens_of(line@.skip(from as int)) =~= whole);
    }
    while i < n
        invariant
            from <= i <= n,
            n == line@.len(),
            whole == tokens_of(line@.skip(from as int)),
            tokens.deep_view() + tokens_of(line@.skip(i as int)) == whole,
        decreases n - i,
    {
        // skip whitespace
        if space(line.get_char(i)) {
            proof {
                lemma_tokens_skip_space(line@, i as int);
                assert(tokens.deep_view() + tokens_of(line@.skip(i as int + 1)) =~~= whole);
            }
            i = i + 1;
            continue;
        }
        // scan to the end of the token
        let mut j: usize = i + 1;
        while j < n && !space(line.get_char(j))
            invariant
                i < j <= n,
                n == line@.len(),
                forall|m: int| i <= m < j ==> !is_space(#[trigger] line@[m]),
            decreases n - j,
        {
            j = j + 1;
        }
        let token = line.substring_char(i, j).to_owned();
        let ghost before = tokens.deep_view();
        tokens.push(token);
        proof {
            lemma_tokens_take_token(line@, i as int, j as int);
            assert(tokens.deep_view() =~= before.push(line@.subrange(i as int, j as int)));
            assert(tokens.deep_view() + tokens_of(line@.skip(j as int)) =~~= whole);
        }
        i = j;
    }
    proof {
        assert(line@.skip(n as int) =~= Seq::<char>::empty());
        assert(tokens.deep_view() + tokens_of(line@.skip(n as int)) =~~= tokens.deep_view());
    }
    tokens
}

/// The whitespace-separated tokens of `line`.
pub fn tokenize(line: &str) -> (tokens: Vec<String>)
    ensures
        tokens.deep_view() == tokens_of(line@),
{
    let n = line.unicode_len();
    let tokens = tokenize_from(line, 0, n);
    proof {
        assert(line@.skip(0) =~= line@);
    }
    tokens
}

/// The tokens of `line`, or nothing when the line is blank or a comment.
/// A line that carries tokens always carries at least one.
pub fn content_tokens(line: &str) -> (r: Option<Vec<String>>)
    ensures
        r is None <==> line_skipped(line@),
        r matches Some(t) ==> t.deep_view() == tokens_of(line@) && t.len() >= 1,
{
    let n = line.unicode_len();
    let mut i: usize = 0;
    proof {
        assert(line@.skip(0) =~= line@);
    }
    while i < n && space(line.get_char(i))
        invariant
            i <= n,
            n == line@.len(),
            first_content_char(line@.skip(i as int)) == first_content_char(line@),
        decreases n - i,
    {
        proof {
            assert(line@.skip(i as int)[0] == line@[i as int]);
            assert(line@.skip(i as int).skip(1) =~= line@.skip(i as int + 1));
        }
        i = i + 1;
    }
    if i == n {
        proof {
            assert(line@.skip(i as int).len() == 0);
        }
        return None;
    }
    proof {
        assert(line@.skip(i as int)[0] == line@[i as int]);
    }
    if line.get_char(i) == '#' {
        return None;
    }
    let tokens = tokenize(line);
    proof {
        lemma_content_has_token(line@);
        assert(tokens.deep_view().len() == tokens_of(line@).len());
    }
    Some(tokens)
}

} // verus!
