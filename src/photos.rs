//! Naming conventions of photo files: `<identity>_<anything>.<jpg|png>`.
//!
//! Paths use `/` between components.
use vstd::prelude::*;

verus! {

/// Index of the last `c` in `s`, or -1.
pub open spec fn last_index(s: Seq<char>, c: char) -> int
    decreases s.len(),
{
    if s.len() == 0 {
        -1
    } else if s.last() == c {
        s.len() - 1
    } else {
        last_index(s.drop_last(), c)
    }
}

/// Index of the first `c` in `s`, or -1.
pub open spec fn first_index(s: Seq<char>, c: char) -> int
    decreases s.len(),
{
    if s.len() == 0 {
        -1
    } else if first_index(s.drop_last(), c) >= 0 {
        first_index(s.drop_last(), c)
    } else if s.last() == c {
        s.len() - 1
    } else {
        -1
    }
}

/// The final component of a path: what follows the last `/`; none when that
/// is empty, `.` or `..`.
pub open spec fn file_name_of(p: Seq<char>) -> Option<Seq<char>> {
    let n = p.subrange(last_index(p, '/') + 1, p.len() as int);
    if n.len() == 0 || n == seq!['.'] || n == seq!['.', '.'] {
        None
    } else {
        Some(n)
    }
}

/// What follows the last `.` of a file name, unless that dot opens the name.
pub open spec fn extension_of(name: Seq<char>) -> Option<Seq<char>> {
    let k = last_index(name, '.');
    if k <= 0 {
        None
    } else {
        Some(name.subrange(k + 1, name.len() as int))
    }
}

/// A file name without its extension and the dot before it.
pub open spec fn stem_of(name: Seq<char>) -> Seq<char> {
    let k = last_index(name, '.');
    if k <= 0 {
        name
    } else {
        name.subrange(0, k)
    }
}

/// `jpg` in any mix of ASCII case.
pub open spec fn is_jpg(e: Seq<char>) -> bool {
    e.len() == 3 && (e[0] == 'j' || e[0] == 'J') && (e[1] == 'p' || e[1] == 'P') && (e[2] == 'g'
        || e[2] == 'G')
}

/// `png` in any mix of ASCII case.
pub open spec fn is_png(e: Seq<char>) -> bool {
    e.len() == 3 && (e[0] == 'p' || e[0] == 'P') && (e[1] == 'n' || e[1] == 'N') && (e[2] == 'g'
        || e[2] == 'G')
}

/// The path names a JPEG or PNG photo by its extension.
pub open spec fn is_image_path(p: Seq<char>) -> bool {
    match file_name_of(p) {
        Some(n) => match extension_of(n) {
            Some(e) => is_jpg(e) || is_png(e),
            None => false,
        },
        None => false,
    }
}

/// The identity that a photo's file name carries: its stem up to the first `_`.
pub open spec fn child_id_of(p: Seq<char>) -> Option<Seq<char>> {
    match file_name_of(p) {
        Some(n) => {
            let stem = stem_of(n);
            let k = first_index(stem, '_');
            Some(
                if k < 0 {
                    stem
                } else {
                    stem.subrange(0, k)
                },
            )
        },
        None => None,
    }
}

proof fn lemma_first_index_extends(s: Seq<char>, c: char, m: int)
    requires
        0 <= m <= s.len(),
        first_index(s.subrange(0, m), c) >= 0,
    ensures
        first_index(s, c) == first_index(s.subrange(0, m), c),
    decreases s.len() - m,
{
    if m < s.len() {
        assert(s.drop_last().subrange(0, m) =~= s.subrange(0, m));
        lemma_first_index_extends(s.drop_last(), c, m);
    } else {
        assert(s.subrange(0, m) =~= s);
    }
}

/// The last index of `c` in `s`.
pub fn find_last(s: &str, c: char) -> (r: Option<usize>)
    ensures
        r matches Some(k) ==> k == last_index(s@, c) && k < s@.len(),
        r is None ==> last_index(s@, c) == -1,
{
    let n = s.unicode_len();
    let mut i: usize = n;
    assert(s@.subrange(0, n as int) =~= s@);
    while i > 0
        invariant
            i <= n == s@.len(),
            last_index(s@, c) == last_index(s@.subrange(0, i as int), c),
        decreases i,
    {
        assert(s@.subrange(0, i as int).drop_last() =~= s@.subrange(0, i - 1));
        if s.get_char(i - 1) == c {
            return Some(i - 1);
        }
        i -= 1;
    }
    None
}

/// The first index of `c` in `s`.
pub fn find_first(s: &str, c: char) -> (r: Option<usize>)
    ensures
        r matches Some(k) ==> k == first_index(s@, c) && k < s@.len(),
        r is None ==> first_index(s@, c) == -1,
{
    let n = s.unicode_len();
    let mut i: usize = 0;
    assert(s@.subrange(0, 0).len() == 0);
    while i < n
        invariant
            i <= n == s@.len(),
            first_index(s@.subrange(0, i as int), c) == -1,
        decreases n - i,
    {
        assert(s@.subrange(0, i + 1).drop_last() =~= s@.subrange(0, i as int));
        if s.get_char(i) == c {
            proof {
                lemma_first_index_extends(s@, c, i + 1);
            }
            return Some(i);
        }
        i += 1;
    }
    assert(s@.subrange(0, n as int) =~= s@);
    None
}

/// The final component of a path, as `file_name_of` describes it.
pub fn file_name_part(p: &str) -> (r: Option<String>)
    ensures
        r matches Some(n) ==> file_name_of(p@) == Some(n@),
        r is None ==> file_name_of(p@) is None,
{
    let n = p.unicode_len();
    let start: usize = match find_last(p, '/') {
        Some(k) => k + 1,
        None => 0,
    };
    let name = p.substring_char(start, n);
    let len = n - start;
    if len == 0 {
        return None;
    }
    let ghost one = seq!['.'];
    let ghost two = seq!['.', '.'];
    assert(one.len() == 1 && one[0] == '.');
    assert(two.len() == 2 && two[0] == '.' && two[1] == '.');
    if len <= 2 {
        let c0 = name.get_char(0);
        let c1 = if len == 2 {
            name.get_char(1)
        } else {
            '.'
        };
        if c0 == '.' && c1 == '.' {
            assert(name@ == one || name@ == two) by {
                if len == 1 {
                    assert(name@ =~= one);
                } else {
                    assert(name@ =~= two);
                }
            }
            return None;
        }
    }
    assert(name@ != one && name@ != two) by {
        if name@ == one || name@ == two {
            assert(name@[0] == '.');
        }
    }
    Some(name.to_owned())
}

/// Whether the path names a JPEG or PNG file, by its extension in any case.
pub fn is_image_file(path: &str) -> (r: bool)
    ensures
        r == is_image_path(path@),
{
    let name = match file_name_part(path) {
        Some(n) => n,
        None => return false,
    };
    let name = name.as_str();
    let k = match find_last(name, '.') {
        Some(k) => k,
        None => return false,
    };
    if k == 0 {
        return false;
    }
    let n = name.unicode_len();
    if n - (k + 1) != 3 {
        return false;
    }
    let a = name.get_char(k + 1);
    let b = name.get_char(k + 2);
    let c = name.get_char(k + 3);
    let jpg = (a == 'j' || a == 'J') && (b == 'p' || b == 'P') && (c == 'g' || c == 'G');
    let png = (a == 'p' || a == 'P') && (b == 'n' || b == 'N') && (c == 'g' || c == 'G');
    jpg || png
}

/// The identity that a photo's file name carries: the part of its stem before
/// the first `_` (the whole stem when it has none).
pub fn extract_child_id_from_filename(path: &str) -> (r: Option<String>)
    ensures
        r matches Some(id) ==> child_id_of(path@) == Some(id@),
        r is None ==> child_id_of(path@) is None,
{
    let name = match file_name_part(path) {
        Some(n) => n,
        None => return None,
    };
    let name = name.as_str();
    let n = name.unicode_len();
    let stem = match find_last(name, '.') {
        Some(k) => if k == 0 {
            name
        } else {
            name.substring_char(0, k)
        },
        None => name,
    };
    match find_first(stem, '_') {
        Some(k) => Some(stem.substring_char(0, k).to_owned()),
        None => Some(stem.to_owned()),
    }
}

/// What `str::to_lowercase` makes of a text.
pub uninterp spec fn lower_of(s: Seq<char>) -> Seq<char>;

/// Relies on `str::to_lowercase`: the lowercase form of a text, which depends
/// on its characters alone.
#[verifier::external_body]
fn lowercase(s: &str) -> (r: String)
    ensures
        r@ == lower_of(s@),
{
    s.to_lowercase()
}

/// `s` begins with `p`.
pub open spec fn starts_with(s: Seq<char>, p: Seq<char>) -> bool {
    p.len() <= s.len() && s.subrange(0, p.len() as int) == p
}

/// `s` ends with `x`.
pub open spec fn ends_with(s: Seq<char>, x: Seq<char>) -> bool {
    x.len() <= s.len() && s.subrange(s.len() - x.len(), s.len() as int) == x
}

/// A lowercased file name belongs to identity `child` when it ends in `.jpg`
/// or `.png` and starts with the identity.
pub open spec fn is_target_name_spec(lower: Seq<char>, child: Seq<char>) -> bool {
    (ends_with(lower, ".jpg"@) || ends_with(lower, ".png"@)) && starts_with(lower, child)
}

/// Whether `s` begins with `p`.
pub fn has_prefix(s: &str, p: &str) -> (r: bool)
    ensures
        r == starts_with(s@, p@),
{
    let n = s.unicode_len();
    let m = p.unicode_len();
    if m > n {
        return false;
    }
    let mut i: usize = 0;
    while i < m
        invariant
            m <= n,
            n == s@.len(),
            m == p@.len(),
            i <= m,
            forall|k: int| 0 <= k < i ==> s@[k] == p@[k],
        decreases m - i,
    {
        if s.get_char(i) != p.get_char(i) {
            assert(s@.subrange(0, m as int)[i as int] != p@[i as int]);
            return false;
        }
        i += 1;
    }
    assert(s@.subrange(0, m as int) =~= p@);
    true
}

/// Whether `s` ends with `x`.
pub fn has_suffix(s: &str, x: &str) -> (r: bool)
    ensures
        r == ends_with(s@, x@),
{
    let n = s.unicode_len();
    let m = x.unicode_len();
    if m > n {
        return false;
    }
    let d = n - m;
    let mut i: usize = 0;
    while i < m
        invariant
            m <= n,
            d == n - m,
            n == s@.len(),
            m == x@.len(),
            i <= m,
            forall|k: int| 0 <= k < i ==> s@[d + k] == x@[k],
        decreases m - i,
    {
        if s.get_char(d + i) != x.get_char(i) {
            assert(s@.subrange(d as int, n as int)[i as int] != x@[i as int]);
            return false;
        }
        i += 1;
    }
    assert(s@.subrange(d as int, n as int) =~= x@);
    true
}

/// Whether an already lowercased file name belongs to `child_id`.
pub fn is_target_name(lower_name: &str, child_id: &str) -> (r: bool)
    ensures
        r == is_target_name_spec(lower_name@, child_id@),
{
    (has_suffix(lower_name, ".jpg") || has_suffix(lower_name, ".png")) && has_prefix(
        lower_name,
        child_id,
    )
}

/// Whether the path names a photo of `child_id`: its file name, lowercased,
/// ends in `.jpg` or `.png` and starts with the identity.
pub fn is_target_file(path: &str, child_id: &str) -> (r: bool)
    ensures
        r == match file_name_of(path@) {
            Some(n) => is_target_name_spec(lower_of(n), child_id@),
            None => false,
        },
{
    match file_name_part(path) {
        Some(name) => {
            let lower = lowercase(name.as_str());
            is_target_name(lower.as_str(), child_id)
        },
        None => false,
    }
}

} // verus!
