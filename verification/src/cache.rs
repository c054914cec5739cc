//! Names of the on-disk measurement cache.
use vstd::prelude::*;
use crate::text::{
    char_pred, chars_of, is_ascii_alnum, lemma_trim_props, push_char, string_from_chars, trim_by,
    trim_chars, white_space_pred, TrimClass,
};

verus! {

/// How one character of a speaker name appears in a cache directory name:
/// ASCII letters, digits, space, dash and underscore are kept; anything
/// else becomes an underscore.
pub open spec fn dir_name_char(c: char) -> char {
    if is_ascii_alnum(c) || c == ' ' || c == '-' || c == '_' {
        c
    } else {
        '_'
    }
}

/// The cache directory name of a speaker: every character mapped by
/// [`dir_name_char`], then white space trimmed from both ends, then
/// underscores trimmed from both ends.
pub open spec fn sanitized_dir_name(name: Seq<char>) -> Seq<char> {
    trim_by(
        trim_by(name.map_values(|c: char| dir_name_char(c)), white_space_pred()),
        char_pred('_'),
    )
}

/// The cache file name of a measurement: path separators (`/` and `\`)
/// become dashes, and `.json` is appended.
pub open spec fn measurement_file_name(m: Seq<char>) -> Seq<char> {
    m.map_values(|c: char| if c == '/' || c == '\\' { '-' } else { c }) + ".json"@
}

/// A cache file name never holds a path separator, so it always names a
/// file directly inside the speaker's directory.
pub proof fn lemma_measurement_file_name_has_no_separator(m: Seq<char>)
    ensures
        forall|i: int|
            0 <= i < measurement_file_name(m).len() ==> #[trigger] measurement_file_name(m)[i] != '/'
                && measurement_file_name(m)[i] != '\\',
{
    reveal_strlit(".json");
    let mapped = m.map_values(|c: char| if c == '/' || c == '\\' { '-' } else { c });
    assert forall|i: int| 0 <= i < measurement_file_name(m).len() implies #[trigger] measurement_file_name(m)[i] != '/'
        && measurement_file_name(m)[i] != '\\' by {
        if i < mapped.len() {
            assert(measurement_file_name(m)[i] == mapped[i]);
        } else {
            assert(measurement_file_name(m)[i] == ".json"@[i - mapped.len()]);
        }
    }
}

/// The cache file name of a measurement is the measurement's own name with
/// `.json` after it, each path separator (`/` or `\`) turned into `-` and
/// every other character kept as it is.
pub proof fn lemma_measurement_file_name_keeps_the_name(m: Seq<char>)
    ensures
        measurement_file_name(m).len() == m.len() + 5,
        forall|i: int|
            0 <= i < m.len() && m[i] != '/' && m[i] != '\\' ==> #[trigger] measurement_file_name(m)[i]
                == m[i],
        forall|i: int|
            0 <= i < m.len() && (m[i] == '/' || m[i] == '\\') ==> #[trigger] measurement_file_name(m)[i]
                == '-',
        measurement_file_name(m).skip(m.len() as int) == ".json"@,
{
    reveal_strlit(".json");
    let f = measurement_file_name(m);
    assert(f.skip(m.len() as int) =~= ".json"@);
}

/// A cache directory name holds only ASCII letters, digits, spaces,
/// dashes and underscores, and neither starts nor ends with an underscore.
pub proof fn lemma_sanitized_dir_name_is_clean(name: Seq<char>)
    ensures
        forall|k: int| 0 <= k < sanitized_dir_name(name).len() ==> {
            let c = #[trigger] sanitized_dir_name(name)[k];
            is_ascii_alnum(c) || c == ' ' || c == '-' || c == '_'
        },
        sanitized_dir_name(name).len() > 0 ==> sanitized_dir_name(name)[0] != '_'
            && sanitized_dir_name(name).last() != '_',
{
    let mapped = name.map_values(|c: char| dir_name_char(c));
    let once = trim_by(mapped, white_space_pred());
    lemma_trim_props(mapped, white_space_pred());
    lemma_trim_props(once, char_pred('_'));
    assert forall|k: int| 0 <= k < sanitized_dir_name(name).len() implies {
        let c = #[trigger] sanitized_dir_name(name)[k];
        is_ascii_alnum(c) || c == ' ' || c == '-' || c == '_'
    } by {
        let x = sanitized_dir_name(name)[k];
        let i = choose|i: int| 0 <= i < once.len() && once[i] == x;
        let j = choose|j: int| 0 <= j < mapped.len() && mapped[j] == once[i];
    }
}

/// The root directory of the measurement cache.
pub open spec fn cache_root() -> Seq<char> {
    "data_cached"@
}

/// Replaces every character outside `[A-Za-z0-9 _-]` by `_`, then trims
/// white space from both ends, and after that underscores: spaces that
/// stand inside underscores at an end are kept, so `"_ KEF _"` gives
/// `" KEF "`.
pub fn sanitize_dir_name(name: &str) -> (out: String)
    ensures
        out@ == sanitized_dir_name(name@),
{
    let chars = chars_of(name);
    let mut mapped: Vec<char> = Vec::new();
    let mut i: usize = 0;
    while i < chars.len()
        invariant
            0 <= i <= chars.len(),
            chars@ == name@,
            mapped@ == chars@.take(i as int).map_values(|c: char| dir_name_char(c)),
        decreases chars.len() - i,
    {
        let c = chars[i];
        let keep = ('0' <= c && c <= '9') || ('A' <= c && c <= 'Z') || ('a' <= c && c <= 'z')
            || c == ' ' || c == '-' || c == '_';
        if keep {
            mapped.push(c);
        } else {
            mapped.push('_');
        }
        i = i + 1;
        assert(mapped@ =~= chars@.take(i as int).map_values(|c: char| dir_name_char(c)));
    }
    assert(chars@.take(chars@.len() as int) =~= chars@);
    let trimmed = trim_chars(&mapped, TrimClass::WhiteSpace);
    let trimmed2 = trim_chars(&trimmed, TrimClass::Underscore);
    string_from_chars(&trimmed2)
}

/// The cache file name of a measurement: `/` and `\` become `-`, and
/// `.json` is appended (so "A/B" gives "A-B.json").
pub fn measurement_filename(measurement: &str) -> (out: String)
    ensures
        out@ == measurement_file_name(measurement@),
{
    let chars = chars_of(measurement);
    let mut out = String::new();
    let mut i: usize = 0;
    while i < chars.len()
        invariant
            0 <= i <= chars.len(),
            chars@ == measurement@,
            out@ == chars@.take(i as int).map_values(
                |c: char| if c == '/' || c == '\\' { '-' } else { c },
            ),
        decreases chars.len() - i,
    {
        let c = chars[i];
        if c == '/' || c == '\\' {
            push_char(&mut out, '-');
        } else {
            push_char(&mut out, c);
        }
        i = i + 1;
        assert(out@ =~= chars@.take(i as int).map_values(
            |c: char| if c == '/' || c == '\\' { '-' } else { c },
        ));
    }
    assert(chars@.take(chars@.len() as int) =~= chars@);
    out.append(".json");
    out
}

/// The cache directory of a speaker: `data_cached/` followed by the
/// sanitized speaker name.
pub fn data_dir_for(speaker: &str) -> (dir: String)
    ensures
        dir@ == cache_root() + seq!['/'] + sanitized_dir_name(speaker@),
{
    let mut dir = String::new();
    dir.append("data_cached");
    push_char(&mut dir, '/');
    let name = sanitize_dir_name(speaker);
    dir.append(name.as_str());
    dir
}

} // verus!
