//! Extension filter: decides whether a path names one of the supported
//! document types. Pure; no I/O. The extension is read the way a path
//! library reads it: trailing separators are ignored, the file name is
//! what follows the last separator, and the extension is what follows
//! the last dot of the file name, provided that dot is not the file
//! name's first character.
use vstd::prelude::*;
use vstd::string::StrSliceExecFns;

verus! {

/// Lower-cases one ASCII letter; leaves every other character alone.
pub open spec fn lower_char(c: char) -> char {
    if 'A' <= c && c <= 'Z' {
        (((c as u8) + 32) as u8) as char
    } else {
        c
    }
}

pub open spec fn lower_seq(s: Seq<char>) -> Seq<char> {
    s.map_values(|c: char| lower_char(c))
}

/// The suffix of `s` strictly after the last occurrence of `c`
/// (all of `s` when `c` does not occur).
pub open spec fn suffix_after_last(s: Seq<char>, c: char) -> Seq<char>
    decreases s.len(),
{
    if s.len() == 0 {
        s
    } else if s.last() == c {
        Seq::<char>::empty()
    } else {
        suffix_after_last(s.drop_last(), c).push(s.last())
    }
}

/// `s` with every trailing occurrence of `c` removed.
pub open spec fn strip_trailing(s: Seq<char>, c: char) -> Seq<char>
    decreases s.len(),
{
    if s.len() > 0 && s.last() == c {
        strip_trailing(s.drop_last(), c)
    } else {
        s
    }
}

/// The last path component: what follows the final separator, once
/// trailing separators are dropped.
pub open spec fn file_name_of(p: Seq<char>) -> Seq<char> {
    suffix_after_last(strip_trailing(p, '/'), '/')
}

/// The extension: what follows the last dot of the file name, when a dot
/// occurs past the file name's first character; a name with no dot, or
/// with a dot only in front (a hidden file), has none.
pub open spec fn extension_of(p: Seq<char>) -> Option<Seq<char>> {
    let name = file_name_of(p);
    if exists|i: int| 1 <= i < name.len() && name[i] == '.' {
        Some(suffix_after_last(name, '.'))
    } else {
        None
    }
}

/// The supported document extensions, compared case-insensitively.
pub open spec fn supported_extension(e: Seq<char>) -> bool {
    ||| lower_seq(e) == "json"@
    ||| lower_seq(e) == "jsonc"@
    ||| lower_seq(e) == "json5"@
    ||| lower_seq(e) == "geojson"@
    ||| lower_seq(e) == "jsonl"@
    ||| lower_seq(e) == "ndjson"@
}

/// A path is supported iff it has an extension and that extension,
/// lower-cased, is in the supported set.
pub open spec fn spec_is_supported(p: Seq<char>) -> bool {
    match extension_of(p) {
        Some(e) => supported_extension(e),
        None => false,
    }
}

proof fn lemma_strip_trailing_is_prefix(s: Seq<char>, c: char, e: int)
    requires
        0 <= e <= s.len(),
        forall|j: int| e <= j < s.len() ==> s[j] == c,
        e == 0 || s[e - 1] != c,
    ensures
        strip_trailing(s, c) == s.subrange(0, e),
    decreases s.len(),
{
    if s.len() == 0 {
        assert(s.subrange(0, 0) =~= s);
    } else if s.last() == c {
        assert(e < s.len());
        lemma_strip_trailing_is_prefix(s.drop_last(), c, e);
        assert(s.drop_last().subrange(0, e) =~= s.subrange(0, e));
    } else {
        assert(e == s.len());
        assert(s.subrange(0, s.len() as int) =~= s);
    }
}

proof fn lemma_suffix_after_last_is_suffix(s: Seq<char>, c: char, k: int)
    requires
        0 <= k <= s.len(),
        forall|j: int| k <= j < s.len() ==> s[j] != c,
        k == 0 || s[k - 1] == c,
    ensures
        suffix_after_last(s, c) == s.subrange(k, s.len() as int),
    decreases s.len(),
{
    if s.len() == 0 {
        assert(s.subrange(0, 0) =~= s);
    } else if s.last() == c {
        assert(k == s.len());
        assert(s.subrange(k, s.len() as int) =~= Seq::<char>::empty());
    } else {
        assert(k < s.len());
        lemma_suffix_after_last_is_suffix(s.drop_last(), c, k);
        assert(
            s.drop_last().subrange(k, s.drop_last().len() as int).push(s.last())
                =~= s.subrange(k, s.len() as int)
        );
    }
}

fn lower_char_exec(c: char) -> (r: char)
    ensures
        r == lower_char(c),
{
    if 'A' <= c && c <= 'Z' {
        (((c as u8) + 32) as u8) as char
    } else {
        c
    }
}

/// True iff the characters of `p` from `start` to `end`, lower-cased,
/// spell exactly `lit`.
fn eq_lower_range(p: &str, start: usize, end: usize, lit: &str) -> (r: bool)
    requires
        start <= end <= p@.len(),
    ensures
        r == (lower_seq(p@.subrange(start as int, end as int)) == lit@),
{
    let m: usize = lit.unicode_len();
    if end - start != m {
        proof {
            assert(lower_seq(p@.subrange(start as int, end as int)).len() == end - start);
        }
        return false;
    }
    let mut i: usize = 0;
    while i < m
        invariant
            start <= end <= p@.len(),
            end - start == m == lit@.len(),
            i <= m,
            forall|j: int| 0 <= j < i ==> lower_char(p@[start + j]) == lit@[j],
        decreases m - i,
    {
        let c = lower_char_exec(p.get_char(start + i));
        if c != lit.get_char(i) {
            proof {
                let sub = p@.subrange(start as int, end as int);
                assert(lower_seq(sub)[i as int] == lower_char(p@[start + i]));
            }
            return false;
        }
        i += 1;
    }
    proof {
        assert(lower_seq(p@.subrange(start as int, end as int)) =~= lit@);
    }
    true
}

/// Whether `path` names one of the supported document types; the
/// extension comparison is case-insensitive.
pub fn is_supported_file(path: &str) -> (r: bool)
    ensures
        r == spec_is_supported(path@),
{
    let n: usize = path.unicode_len();
    // Drop trailing separators.
    let mut e: usize = n;
    while e > 0 && path.get_char(e - 1) == '/'
        invariant
            e <= n == path@.len(),
            forall|j: int| e <= j < n ==> path@[j] == '/',
        decreases e,
    {
        e -= 1;
    }
    proof {
        lemma_strip_trailing_is_prefix(path@, '/', e as int);
    }
    let ghost stripped = path@.subrange(0, e as int);
    // Find where the file name starts: just past the last separator.
    let mut ns: usize = e;
    while ns > 0 && path.get_char(ns - 1) != '/'
        invariant
            ns <= e <= path@.len(),
            forall|j: int| ns <= j < e ==> path@[j] != '/',
        decreases ns,
    {
        ns -= 1;
    }
    proof {
        lemma_suffix_after_last_is_suffix(stripped, '/', ns as int);
        assert(file_name_of(path@) =~= path@.subrange(ns as int, e as int));
    }
    let ghost name = path@.subrange(ns as int, e as int);
    // Find the last dot of the file name.
    let mut d: usize = e;
    while d > ns && path.get_char(d - 1) != '.'
        invariant
            ns <= d <= e <= path@.len(),
            forall|j: int| d <= j < e ==> path@[j] != '.',
        decreases d,
    {
        d -= 1;
    }
    if d - ns <= 1 {
        // No dot, or a dot only in front of the name: no extension.
        proof {
            assert forall|i: int| 1 <= i < name.len() implies name[i] != '.' by {
                assert(name[i] == path@[ns + i]);
            }
        }
        return false;
    }
    // The dot sits at d - 1, past the name's first character.
    proof {
        assert(path@[d - 1] == '.');
        assert(name[d - 1 - ns] == '.');
        assert(1 <= d - 1 - ns < name.len());
        lemma_suffix_after_last_is_suffix(name, '.', d as int - ns as int);
        assert(name.subrange(d - ns, name.len() as int) =~= path@.subrange(
            d as int,
            e as int,
        ));
        assert(extension_of(path@) == Some(path@.subrange(d as int, e as int)));
    }
    let r = eq_lower_range(path, d, e, "json") || eq_lower_range(path, d, e, "jsonc")
        || eq_lower_range(path, d, e, "json5") || eq_lower_range(path, d, e, "geojson")
        || eq_lower_range(path, d, e, "jsonl") || eq_lower_range(path, d, e, "ndjson");
    r
}

} // verus!
