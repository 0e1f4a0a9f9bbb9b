use vstd::multiset::Multiset;
use vstd::prelude::*;

use crate::errors::SyncError;
use crate::text::{
    lemma_lex_le_antisymmetric, lemma_lex_le_refl, lemma_lex_le_total, lemma_lex_le_transitive,
    lemma_lex_lt_at, lex_le, lex_lt, push_char, str_lex_le, views_of,
};

verus! {

/// The character of one decimal digit.
pub open spec fn dchar(d: int) -> char {
    ((48 + d) as u8) as char
}

/// A 1-based page position zero-padded to three digits.
pub open spec fn pad3(n: int) -> Seq<char> {
    seq![dchar(n / 100), dchar((n / 10) % 10), dchar(n % 10)]
}

/// Plain decimal digits, for positions beyond the padding width.
pub open spec fn dec_digits(n: int) -> Seq<char>
    decreases n,
{
    if n <= 0 {
        Seq::empty()
    } else {
        dec_digits(n / 10).push(dchar(n % 10))
    }
}

/// The numeric prefix of a page's local filename: three zero-padded digits,
/// or the full decimal number once the position outgrows the padding.
pub open spec fn page_prefix(n: int) -> Seq<char> {
    if n <= 999 {
        pad3(n)
    } else {
        dec_digits(n)
    }
}

/// The position of the last dot in a name, or -1 when there is none.
pub open spec fn last_dot(s: Seq<char>) -> int
    decreases s.len(),
{
    if s.len() == 0 {
        -1
    } else if s.last() == '.' {
        s.len() - 1
    } else {
        last_dot(s.drop_last())
    }
}

/// Whether a locator carries an extension: a last dot that is neither
/// absent, nor leading the name or its final path component, with no path
/// separator after it — so the extension always comes from the locator's
/// final component, never spans one.
pub open spec fn ext_exists(s: Seq<char>) -> bool {
    last_dot(s) >= 1 && s[last_dot(s) - 1] != '/' && (forall|k: int|
        last_dot(s) < k < s.len() ==> s[k] != '/')
}

/// The extension of a locator: everything after its last dot.
pub open spec fn ext_of(s: Seq<char>) -> Seq<char>
    recommends
        ext_exists(s),
{
    s.skip(last_dot(s) + 1)
}

/// The local filename of one page: its 1-based position, zero-padded, a dot,
/// and the locator's extension.
pub open spec fn page_name_spec(index: int, locator: Seq<char>) -> Seq<char> {
    page_prefix(index) + seq!['.'] + ext_of(locator)
}

/// Scanning from an agreed point with no dots beyond it leaves the last dot
/// where the prefix has it.
proof fn lemma_last_dot_scan(s: Seq<char>, j: int)
    requires
        0 <= j <= s.len(),
        forall|k: int| j <= k < s.len() ==> s[k] != '.',
    ensures
        last_dot(s) == last_dot(s.take(j)),
    decreases s.len(),
{
    if j == s.len() {
        assert(s.take(j) =~= s);
    } else {
        assert(s.last() != '.');
        let d = s.drop_last();
        assert(d =~= s.take(s.len() - 1));
        lemma_last_dot_scan(d, j);
        assert(d.take(j) =~= s.take(j));
    }
}

/// Appends the decimal digits of a positive number.
fn push_digits(s: &mut String, n: usize)
    requires
        n >= 1,
    ensures
        final(s)@ == old(s)@ + dec_digits(n as int),
    decreases n,
{
    if n >= 10 {
        push_digits(s, n / 10);
    }
    let d = (n % 10) as u8;
    push_char(s, (48 + d) as char);
    proof {
        if n < 10 {
            assert(dec_digits(n as int / 10) == Seq::<char>::empty());
        }
        assert(old(s)@ + dec_digits(n as int) =~= old(s)@ + dec_digits(n as int / 10).push(
            dchar(n as int % 10),
        ));
    }
}

/// Appends a position zero-padded to three digits.
fn push_pad3(s: &mut String, n: usize)
    requires
        1 <= n <= 999,
    ensures
        final(s)@ == old(s)@ + pad3(n as int),
{
    proof {
        assert(n / 100 <= 9) by (nonlinear_arith)
            requires n <= 999;
    }
    let d0 = (n / 100) as u8;
    let d1 = ((n / 10) % 10) as u8;
    let d2 = (n % 10) as u8;
    push_char(s, (48 + d0) as char);
    push_char(s, (48 + d1) as char);
    push_char(s, (48 + d2) as char);
    proof {
        assert(old(s)@ + pad3(n as int) =~= old(s)@.push(dchar(n as int / 100)).push(
            dchar((n as int / 10) % 10),
        ).push(dchar(n as int % 10)));
    }
}

/// Derives the local filename of the page at a 1-based position from its
/// remote locator: the zero-padded position, then the locator's extension.
/// Fails with `MissingExtension` exactly when the locator's final path
/// component carries no extension.
pub fn page_filename(index: usize, locator: &str) -> (r: Result<String, SyncError>)
    requires
        index >= 1,
    ensures
        r is Ok <==> ext_exists(locator@),
        r matches Ok(f) ==> f@ == page_name_spec(index as int, locator@),
        r matches Err(e) ==> e is MissingExtension,
{
    let n = locator.unicode_len();
    let mut j: usize = n;
    while j > 0 && locator.get_char(j - 1) != '.'
        invariant
            n == locator@.len(),
            0 <= j <= n,
            forall|k: int| j <= k < n ==> locator@[k] != '.',
        decreases j,
    {
        j -= 1;
    }
    proof {
        lemma_last_dot_scan(locator@, j as int);
        if j > 0 {
            assert(locator@.take(j as int).last() == locator@[j - 1]);
            assert(last_dot(locator@.take(j as int)) == j - 1);
        }
    }
    if j < 2 {
        return Err(SyncError::MissingExtension);
    }
    if locator.get_char(j - 2) == '/' {
        return Err(SyncError::MissingExtension);
    }
    let mut sep = j;
    while sep < n
        invariant
            n == locator@.len(),
            2 <= j <= sep <= n,
            last_dot(locator@) == j - 1,
            locator@[j - 2] != '/',
            forall|k: int| j <= k < sep ==> locator@[k] != '/',
        decreases n - sep,
    {
        if locator.get_char(sep) == '/' {
            return Err(SyncError::MissingExtension);
        }
        sep += 1;
    }
    let mut out = String::new();
    if index <= 999 {
        push_pad3(&mut out, index);
    } else {
        push_digits(&mut out, index);
    }
    push_char(&mut out, '.');
    let ghost mid = out@;
    let mut k = j;
    while k < n
        invariant
            n == locator@.len(),
            j <= k <= n,
            out@ == mid + locator@.subrange(j as int, k as int),
        decreases n - k,
    {
        push_char(&mut out, locator.get_char(k));
        proof {
            assert(locator@.subrange(j as int, k + 1) =~= locator@.subrange(
                j as int,
                k as int,
            ).push(locator@[k as int]));
        }
        k += 1;
    }
    proof {
        assert(locator@.subrange(j as int, n as int) =~= locator@.skip(j as int));
        assert(out@ =~= page_name_spec(index as int, locator@));
    }
    Ok(out)
}

/// What the download pipeline decides about one chapter's pages before any
/// fetch is issued.
pub enum PagePlan {
    /// An externally hosted chapter with no pages here: an intentional skip.
    Skip,
    /// The local filenames to fetch into, one per locator, in page order.
    Fetch(Vec<String>),
}

/// Plans the local filenames for a chapter's pages. An empty locator list is
/// `NoPages` unless the chapter is externally hosted, in which case the
/// chapter is skipped on purpose; otherwise every locator must carry an
/// extension, and the pages are named by their 1-based positions.
pub fn plan_pages(locators: &Vec<String>, externally_hosted: bool) -> (r: Result<
    PagePlan,
    SyncError,
>)
    ensures
        r is Err <==> ((locators@.len() == 0 && !externally_hosted) || exists|i: int|
            0 <= i < locators@.len() && !ext_exists(locators@[i]@)),
        r matches Ok(p) ==> (p is Skip <==> locators@.len() == 0),
        locators@.len() == 0 && !externally_hosted ==> (r matches Err(e) && e is NoPages),
        locators@.len() > 0 ==> (r matches Err(e) ==> e is MissingExtension),
        r matches Ok(PagePlan::Fetch(names)) ==> names@.len() == locators@.len() && forall|i: int|
            0 <= i < names@.len() ==> (#[trigger] names@[i])@ == page_name_spec(
                i + 1,
                locators@[i]@,
            ),
{
    if locators.len() == 0 {
        if externally_hosted {
            return Ok(PagePlan::Skip);
        }
        return Err(SyncError::NoPages);
    }
    let mut names: Vec<String> = Vec::new();
    let mut i: usize = 0;
    while i < locators.len()
        invariant
            0 <= i <= locators@.len(),
            names@.len() == i,
            forall|t: int|
                0 <= t < i ==> (#[trigger] names@[t])@ == page_name_spec(t + 1, locators@[t]@),
            forall|t: int| 0 <= t < i ==> ext_exists(locators@[t]@),
        decreases locators@.len() - i,
    {
        match page_filename(i + 1, &locators[i]) {
            Ok(f) => {
                names.push(f);
            },
            Err(e) => {
                return Err(e);
            },
        }
        i += 1;
    }
    Ok(PagePlan::Fetch(names))
}

/// Every pair of entries is in lexicographic order.
pub open spec fn lex_sorted(v: Seq<Seq<char>>) -> bool {
    forall|i: int, j: int| 0 <= i <= j < v.len() ==> lex_le(v[i], v[j])
}

/// Every later entry is strictly lexicographically greater.
pub open spec fn lex_strictly_sorted(v: Seq<Seq<char>>) -> bool {
    forall|i: int, j: int| 0 <= i < j < v.len() ==> lex_lt(v[i], v[j])
}

/// Sorts the downloaded page files by filename, so that the archive's entry
/// order is deterministic whatever order the fetches completed in.
pub fn order_entries(names: Vec<String>) -> (r: Vec<String>)
    ensures
        views_of(r@).to_multiset() == views_of(names@).to_multiset(),
        lex_sorted(views_of(r@)),
{
    broadcast use vstd::seq_lib::group_to_multiset_ensures;

    let mut rest = names;
    let mut out: Vec<String> = Vec::new();
    proof {
        assert(views_of(out@) =~= Seq::<Seq<char>>::empty());
        assert(views_of(out@).to_multiset().add(views_of(rest@).to_multiset()) =~= views_of(
            rest@,
        ).to_multiset());
    }
    while rest.len() > 0
        invariant
            views_of(out@).to_multiset().add(views_of(rest@).to_multiset()) == views_of(
                names@,
            ).to_multiset(),
            lex_sorted(views_of(out@)),
            forall|i: int, j: int|
                0 <= i < out@.len() && 0 <= j < rest@.len() ==> lex_le(
                    #[trigger] views_of(out@)[i],
                    #[trigger] views_of(rest@)[j],
                ),
        decreases rest@.len(),
    {
        let mut m: usize = 0;
        let mut k: usize = 1;
        proof {
            lemma_lex_le_refl(rest@[0]@);
        }
        while k < rest.len()
            invariant
                rest@.len() > 0,
                0 <= m < rest@.len(),
                m < k <= rest@.len(),
                forall|t: int| 0 <= t < k ==> lex_le(rest@[m as int]@, #[trigger] rest@[t]@),
            decreases rest@.len() - k,
        {
            if str_lex_le(rest[k].as_str(), rest[m].as_str()) {
                proof {
                    assert forall|t: int| 0 <= t < k + 1 implies lex_le(
                        rest@[k as int]@,
                        #[trigger] rest@[t]@,
                    ) by {
                        if t < k {
                            lemma_lex_le_transitive(rest@[k as int]@, rest@[m as int]@, rest@[t]@);
                        } else {
                            lemma_lex_le_refl(rest@[k as int]@);
                        }
                    }
                }
                m = k;
            } else {
                proof {
                    lemma_lex_le_total(rest@[k as int]@, rest@[m as int]@);
                }
            }
            k += 1;
        }
        let ghost old_out = out@;
        let ghost old_rest = rest@;
        let x = rest.remove(m);
        out.push(x);
        proof {
            broadcast use vstd::seq_lib::group_to_multiset_ensures;

            assert(views_of(old_rest.remove(m as int)) =~= views_of(old_rest).remove(m as int));
            assert(views_of(old_out.push(x)) =~= views_of(old_out).push(x@));
            assert(views_of(old_rest).remove(m as int).to_multiset() =~= views_of(
                old_rest,
            ).to_multiset().remove(views_of(old_rest)[m as int]));
            assert(views_of(old_out).push(x@).to_multiset() =~= views_of(
                old_out,
            ).to_multiset().insert(x@));
            assert(views_of(old_rest).to_multiset().count(x@) >= 1);
            assert(views_of(out@).to_multiset().add(views_of(rest@).to_multiset()) =~= views_of(
                old_out,
            ).to_multiset().add(views_of(old_rest).to_multiset()));
            assert forall|i: int, j: int| 0 <= i <= j < views_of(out@).len() implies lex_le(
                views_of(out@)[i],
                views_of(out@)[j],
            ) by {
                if j == out@.len() - 1 && i < j {
                    assert(views_of(out@)[i] == views_of(old_out)[i]);
                    assert(lex_le(views_of(old_out)[i], views_of(old_rest)[m as int]));
                } else if i == j {
                    lemma_lex_le_refl(views_of(out@)[i]);
                }
            }
            assert forall|i: int, j: int|
                0 <= i < out@.len() && 0 <= j < rest@.len() implies lex_le(
                #[trigger] views_of(out@)[i],
                #[trigger] views_of(rest@)[j],
            ) by {
                let jj = if j < m { j } else { j + 1 };
                assert(views_of(rest@)[j] == views_of(old_rest)[jj]);
                if i < out@.len() - 1 {
                    assert(views_of(out@)[i] == views_of(old_out)[i]);
                } else {
                    assert(views_of(out@)[i] == x@);
                    assert(lex_le(old_rest[m as int]@, old_rest[jj]@));
                }
            }
        }
    }
    proof {
        assert(views_of(rest@) =~= Seq::<Seq<char>>::empty());
        assert(views_of(rest@).to_multiset().len() == 0);
        assert(views_of(rest@).to_multiset() =~= Multiset::<Seq<char>>::empty());
        assert(views_of(out@).to_multiset().add(Multiset::<Seq<char>>::empty()) =~= views_of(
            out@,
        ).to_multiset());
    }
    out
}

/// A planned page name carries its zero-padded position as its first three
/// characters.
pub proof fn lemma_page_name_prefix(index: int, locator: Seq<char>)
    requires
        1 <= index <= 999,
    ensures
        page_name_spec(index, locator).len() >= 4,
        page_name_spec(index, locator).take(3) == pad3(index),
{
    assert(page_name_spec(index, locator).take(3) =~= pad3(index));
}

/// Zero-padded positions order the names themselves: between two names whose
/// first three characters are the pads of distinct positions, the lower
/// position sorts strictly first, whatever follows.
proof fn lemma_pad3_prefix_lt(i: int, j: int, a: Seq<char>, b: Seq<char>)
    requires
        1 <= i < j <= 999,
        a.len() >= 3,
        b.len() >= 3,
        a.take(3) == pad3(i),
        b.take(3) == pad3(j),
    ensures
        lex_lt(a, b),
{
    let x0 = i / 100;
    let x1 = (i / 10) % 10;
    let x2 = i % 10;
    let y0 = j / 100;
    let y1 = (j / 10) % 10;
    let y2 = j % 10;
    assert(i == 100 * x0 + 10 * x1 + x2 && 0 <= x0 <= 9 && 0 <= x1 <= 9 && 0 <= x2 <= 9)
        by (nonlinear_arith)
        requires
            1 <= i <= 999,
            x0 == i / 100,
            x1 == (i / 10) % 10,
            x2 == i % 10,
    ;
    assert(j == 100 * y0 + 10 * y1 + y2 && 0 <= y0 <= 9 && 0 <= y1 <= 9 && 0 <= y2 <= 9)
        by (nonlinear_arith)
        requires
            1 <= j <= 999,
            y0 == j / 100,
            y1 == (j / 10) % 10,
            y2 == j % 10,
    ;
    assert(a[0] == dchar(x0) && a[1] == dchar(x1) && a[2] == dchar(x2)) by {
        assert(a[0] == a.take(3)[0] && a[1] == a.take(3)[1] && a[2] == a.take(3)[2]);
    }
    assert(b[0] == dchar(y0) && b[1] == dchar(y1) && b[2] == dchar(y2)) by {
        assert(b[0] == b.take(3)[0] && b[1] == b.take(3)[1] && b[2] == b.take(3)[2]);
    }
    assert(forall|d: int| 0 <= d <= 9 ==> (#[trigger] dchar(d)) as u32 == 48 + d);
    if x0 < y0 {
        lemma_lex_lt_at(a, b, 0);
    } else if x0 == y0 && x1 < y1 {
        lemma_lex_lt_at(a, b, 1);
    } else if x0 == y0 && x1 == y1 && x2 < y2 {
        lemma_lex_lt_at(a, b, 2);
    } else {
        assert(x0 > y0 || (x0 == y0 && x1 > y1) || (x0 == y0 && x1 == y1 && x2 >= y2));
        assert(i >= j);
        assert(false);
    }
}

/// The planned entry list, in index order, is strictly sorted.
pub proof fn lemma_planned_strictly_sorted(planned: Seq<Seq<char>>)
    requires
        planned.len() <= 999,
        forall|i: int|
            0 <= i < planned.len() ==> (#[trigger] planned[i]).len() >= 3 && planned[i].take(3)
                == pad3(i + 1),
    ensures
        lex_strictly_sorted(planned),
{
    assert forall|i: int, j: int| 0 <= i < j < planned.len() implies lex_lt(
        planned[i],
        planned[j],
    ) by {
        lemma_pad3_prefix_lt(i + 1, j + 1, planned[i], planned[j]);
    }
}

/// For pages at positions 1 up to at most 999, sorting the downloaded page
/// files — in whatever order their fetches completed — puts the archive's
/// entries in position order: any sorted permutation of the planned names is
/// the planned list itself. Past 999 pages the three-digit padding runs out
/// and the lexicographic order no longer follows the positions.
pub proof fn lemma_entries_in_index_order(planned: Seq<Seq<char>>, completed: Seq<Seq<char>>)
    requires
        planned.len() <= 999,
        forall|i: int|
            0 <= i < planned.len() ==> exists|loc: Seq<char>| #[trigger] planned[i]
                == #[trigger] page_name_spec(i + 1, loc),
        completed.to_multiset() == planned.to_multiset(),
        lex_sorted(completed),
    ensures
        completed =~= planned,
{
    assert forall|i: int| 0 <= i < planned.len() implies (#[trigger] planned[i]).len() >= 3
        && planned[i].take(3) == pad3(i + 1) by {
        let loc = choose|loc: Seq<char>| planned[i] == #[trigger] page_name_spec(i + 1, loc);
        lemma_page_name_prefix(i + 1, loc);
    }
    lemma_planned_strictly_sorted(planned);
    lemma_sorted_permutation_unique(completed, planned);
}

/// A lexicographically sorted permutation of a strictly sorted entry list is
/// that list itself.
pub proof fn lemma_sorted_permutation_unique(a: Seq<Seq<char>>, b: Seq<Seq<char>>)
    requires
        a.to_multiset() == b.to_multiset(),
        lex_sorted(a),
        lex_strictly_sorted(b),
    ensures
        a =~= b,
    decreases a.len(),
{
    broadcast use vstd::seq_lib::group_to_multiset_ensures;

    assert(a.len() == a.to_multiset().len());
    assert(b.len() == b.to_multiset().len());
    assert(a.len() == b.len());
    if a.len() > 0 {
        assert(b.contains(b[0]));
        assert(a.to_multiset().count(b[0]) >= 1);
        assert(a.contains(b[0]));
        let l = choose|l: int| 0 <= l < a.len() && a[l] == b[0];
        assert(lex_le(a[0], a[l]));
        assert(a.contains(a[0]));
        assert(b.to_multiset().count(a[0]) >= 1);
        assert(b.contains(a[0]));
        let k = choose|k: int| 0 <= k < b.len() && b[k] == a[0];
        if k > 0 {
            assert(lex_lt(b[0], b[k]));
        } else {
            lemma_lex_le_refl(b[0]);
        }
        lemma_lex_le_antisymmetric(a[0], b[0]);
        assert(a[0] == b[0]);
        let da = a.drop_first();
        let db = b.drop_first();
        assert(a =~= seq![a[0]] + da);
        assert(b =~= seq![b[0]] + db);
        assert(a.to_multiset() =~= da.to_multiset().insert(a[0])) by {
            assert(a.remove(0) =~= da);
            assert(a.remove(0).to_multiset() =~= a.to_multiset().remove(a[0]));
            assert(a.to_multiset().count(a[0]) >= 1);
        }
        assert(b.to_multiset() =~= db.to_multiset().insert(b[0])) by {
            assert(b.remove(0) =~= db);
            assert(b.remove(0).to_multiset() =~= b.to_multiset().remove(b[0]));
            assert(b.to_multiset().count(b[0]) >= 1);
        }
        assert(da.to_multiset() =~= db.to_multiset());
        assert(forall|i: int| 0 <= i < da.len() ==> #[trigger] da[i] == a[i + 1]);
        assert(forall|i: int| 0 <= i < db.len() ==> #[trigger] db[i] == b[i + 1]);
        assert(lex_sorted(da));
        assert(lex_strictly_sorted(db));
        lemma_sorted_permutation_unique(da, db);
    }
}

} // verus!
