use vstd::prelude::*;

use crate::text::push_char;

verus! {

/// What `char::is_alphabetic` returns: whether the character is a Unicode
/// letter.
pub uninterp spec fn unicode_letter(c: char) -> bool;

/// What `char::is_numeric` returns: whether the character is a Unicode
/// number.
pub uninterp spec fn unicode_number(c: char) -> bool;

/// Relies on char::is_alphabetic: the result depends on the character alone.
#[verifier::external_body]
fn is_letter(c: char) -> (r: bool)
    ensures
        r == unicode_letter(c),
{
    c.is_alphabetic()
}

/// Relies on char::is_numeric: the result depends on the character alone.
#[verifier::external_body]
fn is_number(c: char) -> (r: bool)
    ensures
        r == unicode_number(c),
{
    c.is_numeric()
}

/// The approved punctuation: a small fixed set kept as-is in display names
/// (the two non-ASCII members are the white star and the right single
/// quotation mark).
pub open spec fn approved_punct(c: char) -> bool {
    c == '~' || c == '\u{2606}' || c == ':' || c == ';' || c == '\u{2019}' || c == '\'' || c == '"'
        || c == ',' || c == '#' || c == '!' || c == '(' || c == ')' || c == '-' || c == '_' || c
        == '+' || c == '=' || c == '[' || c == ']' || c == '.' || c == ' '
}

/// A character kept in a sanitized display name: approved punctuation, a
/// letter or a number, and optionally a question mark when that mode is
/// selected.
pub open spec fn allowed_char(c: char, allow_question: bool) -> bool {
    approved_punct(c) || unicode_letter(c) || unicode_number(c) || (allow_question && c == '?')
}

/// Every disapproved character replaced by the joiner.
pub open spec fn replaced(s: Seq<char>, allow_question: bool) -> Seq<char> {
    s.map_values(
        |c: char|
            if allowed_char(c, allow_question) {
                c
            } else {
                '-'
            },
    )
}

/// Runs of the joiner collapsed to a single joiner.
pub open spec fn collapsed(s: Seq<char>) -> Seq<char>
    decreases s.len(),
{
    if s.len() <= 1 {
        s
    } else if s[0] == '-' && s[1] == '-' {
        collapsed(s.drop_first())
    } else {
        seq![s[0]] + collapsed(s.drop_first())
    }
}

/// A character trimmed from either end of a sanitized name.
pub open spec fn trim_char(c: char) -> bool {
    c == ' ' || c == '-'
}

/// Leading joiners and spaces removed.
pub open spec fn trim_front(s: Seq<char>) -> Seq<char>
    decreases s.len(),
{
    if s.len() > 0 && trim_char(s[0]) {
        trim_front(s.drop_first())
    } else {
        s
    }
}

/// Trailing joiners and spaces removed.
pub open spec fn trim_back(s: Seq<char>) -> Seq<char>
    decreases s.len(),
{
    if s.len() > 0 && trim_char(s.last()) {
        trim_back(s.drop_last())
    } else {
        s
    }
}

/// The whole sanitization pipeline: replace, collapse, trim.
pub open spec fn sanitized(s: Seq<char>, allow_question: bool) -> Seq<char> {
    trim_back(trim_front(collapsed(replaced(s, allow_question))))
}

/// Collapsing keeps the first character and never lengthens the text.
proof fn lemma_collapsed_first(s: Seq<char>)
    requires
        s.len() > 0,
    ensures
        collapsed(s).len() > 0,
        collapsed(s)[0] == s[0],
        collapsed(s).len() <= s.len(),
    decreases s.len(),
{
    if s.len() > 1 {
        lemma_collapsed_first(s.drop_first());
    }
}

/// Collapsing keeps the last character.
proof fn lemma_collapsed_last(s: Seq<char>)
    requires
        s.len() > 0,
    ensures
        collapsed(s).len() > 0,
        collapsed(s).last() == s.last(),
    decreases s.len(),
{
    if s.len() > 1 {
        lemma_collapsed_last(s.drop_first());
        lemma_collapsed_first(s.drop_first());
        if !(s[0] == '-' && s[1] == '-') {
            assert((seq![s[0]] + collapsed(s.drop_first())).last() == collapsed(
                s.drop_first(),
            ).last());
        }
    }
}

/// Appending one character to the input extends the collapsed form by that
/// character, unless it would repeat a trailing joiner.
proof fn lemma_collapsed_snoc(s: Seq<char>, c: char)
    ensures
        collapsed(s.push(c)) == (if s.len() > 0 && s.last() == '-' && c == '-' {
            collapsed(s)
        } else {
            collapsed(s).push(c)
        }),
    decreases s.len(),
{
    let t = s.push(c);
    if s.len() == 0 {
        assert(t =~= seq![c]);
        assert(collapsed(s).push(c) =~= seq![c]);
    } else if s.len() == 1 {
        assert(t.len() == 2 && t[0] == s[0] && t[1] == c);
        if s[0] == '-' && c == '-' {
            assert(t.drop_first() =~= seq![c]);
            assert(collapsed(t) == collapsed(t.drop_first()));
            assert(collapsed(t) =~= s);
        } else {
            assert(t.drop_first() =~= seq![c]);
            assert(collapsed(t) == seq![t[0]] + collapsed(t.drop_first()));
            assert(collapsed(t) =~= collapsed(s).push(c));
        }
    } else {
        assert(t[0] == s[0] && t[1] == s[1]);
        assert(t.drop_first() =~= s.drop_first().push(c));
        lemma_collapsed_snoc(s.drop_first(), c);
        assert(s.drop_first().last() == s.last());
        if s[0] == '-' && s[1] == '-' {
            assert(collapsed(t) == collapsed(t.drop_first()));
            assert(collapsed(s) == collapsed(s.drop_first()));
        } else {
            assert(collapsed(t) == seq![s[0]] + collapsed(t.drop_first()));
            assert(collapsed(s) == seq![s[0]] + collapsed(s.drop_first()));
            if s.last() == '-' && c == '-' {
            } else {
                assert(seq![s[0]] + collapsed(s.drop_first()).push(c) =~= (seq![s[0]] + collapsed(
                    s.drop_first(),
                )).push(c));
            }
        }
    }
}

/// The collapsed form never holds two joiners in a row.
proof fn lemma_collapsed_no_double(s: Seq<char>)
    ensures
        forall|i: int|
            0 <= i && i + 1 < collapsed(s).len() ==> !(#[trigger] collapsed(s)[i] == '-'
                && collapsed(s)[i + 1] == '-'),
    decreases s.len(),
{
    if s.len() > 1 {
        lemma_collapsed_no_double(s.drop_first());
        if !(s[0] == '-' && s[1] == '-') {
            let r = seq![s[0]] + collapsed(s.drop_first());
            lemma_collapsed_first(s.drop_first());
            assert forall|i: int| 0 <= i && i + 1 < r.len() implies !(#[trigger] r[i] == '-' && r[i
                + 1] == '-') by {
                if i == 0 {
                    assert(r[0] == s[0] && r[1] == collapsed(s.drop_first())[0]);
                    assert(collapsed(s.drop_first())[0] == s.drop_first()[0]);
                } else {
                    assert(r[i] == collapsed(s.drop_first())[i - 1]);
                    assert(r[i + 1] == collapsed(s.drop_first())[i]);
                }
            }
        }
    }
}

/// Dropping an agreed number of leading trim characters is exactly what
/// `trim_front` computes.
proof fn lemma_trim_front_skip(s: Seq<char>, k: int)
    requires
        0 <= k <= s.len(),
        forall|j: int| 0 <= j < k ==> trim_char(#[trigger] s[j]),
        k == s.len() || !trim_char(s[k]),
    ensures
        trim_front(s) == s.skip(k),
    decreases k,
{
    if k == 0 {
        assert(s.skip(0) =~= s);
        if s.len() > 0 {
            assert(!trim_char(s[0]));
        }
    } else {
        assert(trim_char(s[0]));
        let d = s.drop_first();
        assert(forall|j: int| 0 <= j < k - 1 ==> trim_char(#[trigger] d[j]));
        if k - 1 < d.len() {
            assert(d[k - 1] == s[k]);
        }
        lemma_trim_front_skip(d, k - 1);
        assert(d.skip(k - 1) =~= s.skip(k));
    }
}

/// Keeping an agreed number of leading characters is exactly what
/// `trim_back` computes when everything after them is trimmable.
proof fn lemma_trim_back_take(s: Seq<char>, m: int)
    requires
        0 <= m <= s.len(),
        forall|j: int| m <= j < s.len() ==> trim_char(#[trigger] s[j]),
        m == 0 || !trim_char(s[m - 1]),
    ensures
        trim_back(s) == s.take(m),
    decreases s.len(),
{
    if m == s.len() {
        if s.len() == 0 || !trim_char(s.last()) {
            assert(s.take(m) =~= s);
        } else {
            assert(!trim_char(s[m - 1]));
            assert(false);
        }
    } else {
        assert(trim_char(s.last()));
        let d = s.drop_last();
        assert(d =~= s.take(s.len() - 1));
        lemma_trim_back_take(d, m);
        assert(d.take(m) =~= s.take(m));
    }
}

/// Whether a sanitization-mode character is approved, executably.
fn char_allowed(c: char, allow_question: bool) -> (r: bool)
    ensures
        r == allowed_char(c, allow_question),
{
    if is_letter(c) || is_number(c) {
        return true;
    }
    if allow_question && c == '?' {
        return true;
    }
    c == '~' || c == '\u{2606}' || c == ':' || c == ';' || c == '\u{2019}' || c == '\'' || c == '"'
        || c == ',' || c == '#' || c == '!' || c == '(' || c == ')' || c == '-' || c == '_' || c
        == '+' || c == '=' || c == '[' || c == ']' || c == '.' || c == ' '
}

/// Sanitizes a display name for use in a filesystem path: every character
/// outside the approved set becomes a joiner, runs of the joiner collapse to
/// one, and leading or trailing joiners and spaces are trimmed away. The
/// question-mark mode is selected once per process by the caller.
pub fn convert_filename(name: &str, allow_question: bool) -> (r: String)
    ensures
        r@ == sanitized(name@, allow_question),
{
    let n = name.unicode_len();
    let ghost q = allow_question;
    let mut buf: Vec<char> = Vec::new();
    let mut i: usize = 0;
    proof {
        assert(name@.take(0) =~= Seq::<char>::empty());
        assert(replaced(name@.take(0), q) =~= Seq::<char>::empty());
    }
    while i < n
        invariant
            n == name@.len(),
            0 <= i <= n,
            buf@ == collapsed(replaced(name@.take(i as int), q)),
            q == allow_question,
        decreases n - i,
    {
        let c = name.get_char(i);
        let d = if char_allowed(c, allow_question) {
            c
        } else {
            '-'
        };
        let ghost prev = replaced(name@.take(i as int), q);
        proof {
            assert(name@.take(i + 1) =~= name@.take(i as int).push(name@[i as int]));
            assert(replaced(name@.take(i + 1), q) =~= prev.push(d));
            lemma_collapsed_snoc(prev, d);
            if prev.len() > 0 {
                lemma_collapsed_last(prev);
            }
        }
        let skip_it = d == '-' && buf.len() > 0 && buf[buf.len() - 1] == '-';
        if !skip_it {
            buf.push(d);
        }
        i += 1;
    }
    proof {
        assert(name@.take(n as int) =~= name@);
    }
    let ghost col = collapsed(replaced(name@, q));
    let len = buf.len();
    let mut start: usize = 0;
    while start < len && (buf[start] == ' ' || buf[start] == '-')
        invariant
            len == buf@.len(),
            buf@ == col,
            0 <= start <= len,
            forall|j: int| 0 <= j < start ==> trim_char(#[trigger] col[j]),
        decreases len - start,
    {
        start += 1;
    }
    let mut end: usize = len;
    while end > start && (buf[end - 1] == ' ' || buf[end - 1] == '-')
        invariant
            len == buf@.len(),
            buf@ == col,
            start <= end <= len,
            forall|j: int| end <= j < len ==> trim_char(#[trigger] col[j]),
        decreases end,
    {
        end -= 1;
    }
    proof {
        if start == len {
            assert(end == len);
            lemma_trim_front_skip(col, len as int);
            assert(col.skip(len as int).len() == 0);
            assert(trim_back(col.skip(len as int)) == col.skip(len as int));
        } else {
            lemma_trim_front_skip(col, start as int);
            let t = col.skip(start as int);
            assert(end > start);
            assert(forall|j: int|
                end - start <= j < t.len() ==> trim_char(#[trigger] t[j]) == trim_char(
                    col[j + start],
                ));
            assert(!trim_char(t[end - start - 1]));
            lemma_trim_back_take(t, end - start);
            assert(t.take(end - start) =~= col.subrange(start as int, end as int));
        }
    }
    let mut out = String::new();
    let mut k = start;
    while k < end
        invariant
            len == buf@.len(),
            buf@ == col,
            start <= k <= end <= len,
            out@ == col.subrange(start as int, k as int),
        decreases end - k,
    {
        push_char(&mut out, buf[k]);
        proof {
            assert(col.subrange(start as int, k + 1) =~= col.subrange(start as int, k as int).push(
                col[k as int],
            ));
        }
        k += 1;
    }
    proof {
        assert(out@ =~= sanitized(name@, q));
    }
    out
}

/// The sanitized form of any input holds no two consecutive joiners and
/// neither starts nor ends with a joiner or a space.
pub proof fn lemma_sanitized_well_formed(s: Seq<char>, allow_question: bool)
    ensures
        forall|i: int|
            0 <= i && i + 1 < sanitized(s, allow_question).len() ==> !(#[trigger] sanitized(
                s,
                allow_question,
            )[i] == '-' && sanitized(s, allow_question)[i + 1] == '-'),
        sanitized(s, allow_question).len() > 0 ==> !trim_char(sanitized(s, allow_question)[0]),
        sanitized(s, allow_question).len() > 0 ==> !trim_char(sanitized(s, allow_question).last()),
{
    let col = collapsed(replaced(s, allow_question));
    lemma_collapsed_no_double(replaced(s, allow_question));
    lemma_trim_front_is_suffix(col);
    let tf = trim_front(col);
    lemma_trim_back_is_prefix(tf);
    let r = trim_back(tf);
    lemma_trim_front_head(col);
    lemma_trim_back_last(tf);
    lemma_trim_back_head(tf);
    assert forall|i: int| 0 <= i && i + 1 < r.len() implies !(#[trigger] r[i] == '-' && r[i + 1]
        == '-') by {
        let k = col.len() - tf.len();
        assert(r[i] == tf[i] && r[i + 1] == tf[i + 1]);
        assert(tf[i] == col[i + k] && tf[i + 1] == col[i + k + 1]);
    }
    if r.len() > 0 {
        assert(r[0] == tf[0]);
    }
}

/// `trim_front` yields a suffix of its input.
proof fn lemma_trim_front_is_suffix(s: Seq<char>)
    ensures
        trim_front(s).len() <= s.len(),
        forall|i: int|
            0 <= i < trim_front(s).len() ==> #[trigger] trim_front(s)[i] == s[i + s.len()
                - trim_front(s).len()],
    decreases s.len(),
{
    if s.len() > 0 && trim_char(s[0]) {
        lemma_trim_front_is_suffix(s.drop_first());
    }
}

/// A nonempty `trim_front` result starts with an untrimmed character.
proof fn lemma_trim_front_head(s: Seq<char>)
    ensures
        trim_front(s).len() > 0 ==> !trim_char(trim_front(s)[0]),
    decreases s.len(),
{
    if s.len() > 0 && trim_char(s[0]) {
        lemma_trim_front_head(s.drop_first());
    }
}

/// `trim_back` yields a prefix of its input.
proof fn lemma_trim_back_is_prefix(s: Seq<char>)
    ensures
        trim_back(s).len() <= s.len(),
        forall|i: int| 0 <= i < trim_back(s).len() ==> #[trigger] trim_back(s)[i] == s[i],
    decreases s.len(),
{
    if s.len() > 0 && trim_char(s.last()) {
        lemma_trim_back_is_prefix(s.drop_last());
    }
}

/// A nonempty `trim_back` result ends with an untrimmed character.
proof fn lemma_trim_back_last(s: Seq<char>)
    ensures
        trim_back(s).len() > 0 ==> !trim_char(trim_back(s).last()),
    decreases s.len(),
{
    if s.len() > 0 && trim_char(s.last()) {
        lemma_trim_back_last(s.drop_last());
    }
}

/// A nonempty `trim_back` result keeps the head of its input.
proof fn lemma_trim_back_head(s: Seq<char>)
    ensures
        trim_back(s).len() > 0 ==> trim_back(s)[0] == s[0],
    decreases s.len(),
{
    if s.len() > 0 && trim_char(s.last()) {
        lemma_trim_back_head(s.drop_last());
    }
}

} // verus!
