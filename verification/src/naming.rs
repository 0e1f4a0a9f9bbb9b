use vstd::prelude::*;

use crate::chapter::ChapterAttributes;
use crate::sanitize::{convert_filename, sanitized};
use crate::text::{str_eq, views_of};

verus! {

/// A set of translations of one text, as ordered (language, value) pairs.
#[derive(Debug, Clone)]
pub struct LocalizedString {
    pub entries: Vec<(String, String)>,
}

/// Picks the English translation when there is one, else the first
/// available translation; nothing only when there is no translation at all.
pub fn english_or_first(s: &LocalizedString) -> (r: Option<String>)
    ensures
        r is Some <==> s.entries@.len() > 0,
        r matches Some(v) ==> ((exists|i: int|
            0 <= i < s.entries@.len() && (#[trigger] s.entries@[i]).0@ == "en"@) ==> exists|i: int|
            0 <= i < s.entries@.len() && (#[trigger] s.entries@[i]).0@ == "en"@ && v@
                == s.entries@[i].1@ && (forall|j: int|
                0 <= j < i ==> (#[trigger] s.entries@[j]).0@ != "en"@)),
        r matches Some(v) ==> ((forall|i: int|
            0 <= i < s.entries@.len() ==> (#[trigger] s.entries@[i]).0@ != "en"@) ==> v@
            == s.entries@[0].1@),
{
    let n = s.entries.len();
    let mut i: usize = 0;
    while i < n
        invariant
            n == s.entries@.len(),
            0 <= i <= n,
            forall|j: int| 0 <= j < i ==> (#[trigger] s.entries@[j]).0@ != "en"@,
        decreases n - i,
    {
        if str_eq(s.entries[i].0.as_str(), "en") {
            return Some(s.entries[i].1.clone());
        }
        i += 1;
    }
    if n > 0 {
        Some(s.entries[0].1.clone())
    } else {
        None
    }
}

/// The chapter number shown in a display name: the upstream number, or `0`
/// when the chapter carries none.
pub open spec fn chapter_number_spec(attrs: ChapterAttributes) -> Seq<char> {
    match attrs.chapter {
        Some(n) => n@,
        None => "0"@,
    }
}

/// The base display name, in fixed precedence: volume and title, volume
/// only, title only, neither.
pub open spec fn base_name_spec(attrs: ChapterAttributes) -> Seq<char> {
    let num = chapter_number_spec(attrs);
    match (attrs.volume, attrs.title) {
        (Some(v), Some(t)) => "Vol. "@ + v@ + " Ch. "@ + num + " "@ + t@,
        (Some(v), None) => "Vol. "@ + v@ + " Ch. "@ + num,
        (None, Some(t)) => "Ch. "@ + num + " "@ + t@,
        (None, None) => "Ch. "@ + num,
    }
}

/// Group display names joined with a comma and a space.
pub open spec fn joined_spec(names: Seq<Seq<char>>) -> Seq<char>
    decreases names.len(),
{
    if names.len() == 0 {
        Seq::empty()
    } else if names.len() == 1 {
        names[0]
    } else {
        joined_spec(names.drop_last()) + ", "@ + names.last()
    }
}

/// The full display name: the base name, followed by the bracketed group
/// list — omitted entirely when the joined list is empty.
pub open spec fn display_name_spec(attrs: ChapterAttributes, groups: Seq<Seq<char>>) -> Seq<char> {
    let base = base_name_spec(attrs);
    let joined = joined_spec(groups);
    if joined.len() == 0 {
        base
    } else {
        base + " ["@ + joined + "]"@
    }
}

/// The filename of a chapter's archive: the sanitized display name, the
/// separator, the stable key, and the archive extension.
pub open spec fn chapter_filename_spec(
    attrs: ChapterAttributes,
    groups: Seq<Seq<char>>,
    key: Seq<char>,
    allow_question: bool,
) -> Seq<char> {
    sanitized(display_name_spec(attrs, groups), allow_question) + " - "@ + key + ".zip"@
}

/// The directory name of a containing work: its sanitized title, the
/// separator, and the stable key.
pub open spec fn manga_dirname_spec(title: Seq<char>, key: Seq<char>, allow_question: bool) -> Seq<
    char,
> {
    sanitized(title, allow_question) + " - "@ + key
}

/// Joins group display names with a comma and a space.
fn joined_groups(names: &Vec<String>) -> (r: String)
    ensures
        r@ == joined_spec(views_of(names@)),
{
    let mut out = String::new();
    let mut i: usize = 0;
    while i < names.len()
        invariant
            0 <= i <= names@.len(),
            out@ == joined_spec(views_of(names@).take(i as int)),
        decreases names@.len() - i,
    {
        if i > 0 {
            out.append(", ");
        }
        out.append(names[i].as_str());
        proof {
            let t = views_of(names@).take(i + 1);
            assert(t.drop_last() =~= views_of(names@).take(i as int));
            assert(t.last() == names@[i as int]@);
            assert(out@ =~= joined_spec(t));
        }
        i += 1;
    }
    proof {
        assert(views_of(names@).take(names@.len() as int) =~= views_of(names@));
    }
    out
}

/// Builds the display name of one chapter from its attributes and its
/// resolved group names.
pub fn display_name(attrs: &ChapterAttributes, groups: &Vec<String>) -> (r: String)
    ensures
        r@ == display_name_spec(*attrs, views_of(groups@)),
{
    let mut base = String::new();
    match (&attrs.volume, &attrs.title) {
        (Some(v), Some(t)) => {
            base.append("Vol. ");
            base.append(v.as_str());
            base.append(" Ch. ");
            match &attrs.chapter {
                Some(n) => base.append(n.as_str()),
                None => base.append("0"),
            }
            base.append(" ");
            base.append(t.as_str());
        },
        (Some(v), None) => {
            base.append("Vol. ");
            base.append(v.as_str());
            base.append(" Ch. ");
            match &attrs.chapter {
                Some(n) => base.append(n.as_str()),
                None => base.append("0"),
            }
        },
        (None, Some(t)) => {
            base.append("Ch. ");
            match &attrs.chapter {
                Some(n) => base.append(n.as_str()),
                None => base.append("0"),
            }
            base.append(" ");
            base.append(t.as_str());
        },
        (None, None) => {
            base.append("Ch. ");
            match &attrs.chapter {
                Some(n) => base.append(n.as_str()),
                None => base.append("0"),
            }
        },
    }
    let joined = joined_groups(groups);
    if !joined.as_str().is_empty() {
        base.append(" [");
        base.append(joined.as_str());
        base.append("]");
    }
    proof {
        assert(base@ =~= display_name_spec(*attrs, views_of(groups@)));
    }
    base
}

/// Builds the archive filename of one chapter: sanitized display name,
/// separator, stable key, archive extension.
pub fn chapter_filename(
    attrs: &ChapterAttributes,
    groups: &Vec<String>,
    stable_key: &str,
    allow_question: bool,
) -> (r: String)
    ensures
        r@ == chapter_filename_spec(*attrs, views_of(groups@), stable_key@, allow_question),
{
    let name = display_name(attrs, groups);
    let mut out = convert_filename(name.as_str(), allow_question);
    out.append(" - ");
    out.append(stable_key);
    out.append(".zip");
    proof {
        assert(out@ =~= chapter_filename_spec(
            *attrs,
            views_of(groups@),
            stable_key@,
            allow_question,
        ));
    }
    out
}

/// Builds the directory name of one containing work from its title and its
/// stable key.
pub fn manga_dirname(title: &str, stable_key: &str, allow_question: bool) -> (r: String)
    ensures
        r@ == manga_dirname_spec(title@, stable_key@, allow_question),
{
    let mut out = convert_filename(title, allow_question);
    out.append(" - ");
    out.append(stable_key);
    proof {
        assert(out@ =~= manga_dirname_spec(title@, stable_key@, allow_question));
    }
    out
}

} // verus!
