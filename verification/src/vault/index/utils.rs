//! File names, extensions, and which extensions are images.
use vstd::prelude::*;

use crate::text::{ascii_upper_seq, lemma_ascii_lower_folds_case, lemma_eq_ignore_ascii_case_laws, ascii_lower, ascii_lower_seq, chars_eq, chars_eq_ignore_ascii_case, chars_of, eq_ignore_ascii_case, to_ascii_lower};

verus! {

/// The characters after the last `/` (all of them when there is none).
pub open spec fn last_segment(p: Seq<char>) -> Seq<char>
    decreases p.len(),
{
    if p.len() == 0 || p.last() == '/' {
        Seq::empty()
    } else {
        last_segment(p.drop_last()).push(p.last())
    }
}

/// The final component of a `/`-separated path, as Unix paths define it:
/// trailing `/` and `.` components are passed over; a final `..`, a bare root
/// and the empty path have none.
pub open spec fn file_name(p: Seq<char>) -> Option<Seq<char>>
    decreases p.len(),
{
    if p.len() == 0 {
        None
    } else if p.last() == '/' {
        file_name(p.drop_last())
    } else if p.last() == '.' && (p.len() == 1 || p[p.len() - 2] == '/') {
        file_name(p.drop_last())
    } else if last_segment(p) == seq!['.', '.'] {
        None
    } else {
        Some(last_segment(p))
    }
}

/// The index of the last `.` of a sequence, if it has one.
pub open spec fn last_dot(f: Seq<char>) -> Option<int>
    decreases f.len(),
{
    if f.len() == 0 {
        None
    } else if f.last() == '.' {
        Some(f.len() - 1)
    } else {
        last_dot(f.drop_last())
    }
}

/// The extension of a file name: what follows its last `.`, provided that
/// something precedes that `.` (so `.bashrc` has none and `a.` has an empty one).
pub open spec fn name_extension(f: Seq<char>) -> Option<Seq<char>> {
    match last_dot(f) {
        Some(i) => if i > 0 {
            Some(f.subrange(i + 1, f.len() as int))
        } else {
            None
        },
        None => None,
    }
}

/// The extension of a path: that of its file name.
pub open spec fn path_extension(p: Seq<char>) -> Option<Seq<char>> {
    match file_name(p) {
        Some(f) => name_extension(f),
        None => None,
    }
}

/// The characters of each string of a sequence.
pub open spec fn string_views(v: Seq<String>) -> Seq<Seq<char>> {
    v.map_values(|s: String| s@)
}

/// A path passes the extension filter when the filter is empty, or when the
/// path has an extension equal, up to ASCII case, to one of the filter's.
pub open spec fn matches_extension(p: Seq<char>, extensions: Seq<Seq<char>>) -> bool {
    ||| extensions.len() == 0
    ||| match path_extension(p) {
        Some(e) => exists|i: int|
            0 <= i < extensions.len() && eq_ignore_ascii_case(#[trigger] extensions[i], e),
        None => false,
    }
}

/// The extensions of image and wallpaper formats, lower-case.
pub open spec fn image_extensions() -> Seq<Seq<char>> {
    seq![
        seq!['j', 'p', 'g'],
        seq!['j', 'p', 'e', 'g'],
        seq!['p', 'n', 'g'],
        seq!['b', 'm', 'p'],
        seq!['t', 'i', 'f', 'f'],
        seq!['t', 'i', 'f'],
        seq!['w', 'e', 'b', 'p'],
        seq!['a', 'v', 'i', 'f'],
        seq!['h', 'e', 'i', 'c'],
        seq!['h', 'e', 'i', 'f'],
        seq!['j', 'x', 'l'],
        seq!['m', 'p', '4'],
        seq!['g', 'i', 'f'],
        seq!['w', 'e', 'b', 'm'],
        seq!['a', 'p', 'n', 'g'],
        seq!['s', 'v', 'g'],
        seq!['a', 'i'],
        seq!['e', 'p', 's'],
        seq!['p', 'd', 'f'],
        seq!['p', 's', 'd'],
    ]
}

/// An extension names an image format when its ASCII lower-casing is one of
/// `image_extensions()`.
pub open spec fn is_image_ext(ext: Seq<char>) -> bool {
    image_extensions().contains(ascii_lower_seq(ext))
}

proof fn lemma_take_last_segment(p: Seq<char>, start: int, end: int)
    requires
        0 <= start <= end <= p.len(),
        forall|k: int| start <= k < end ==> p[k] != '/',
    ensures
        last_segment(p.take(end)) == last_segment(p.take(start)) + p.subrange(start, end),
    decreases end - start,
{
    if start < end {
        lemma_take_last_segment(p, start, end - 1);
        assert(p.take(end).drop_last() =~= p.take(end - 1));
        assert(p.subrange(start, end) =~= p.subrange(start, end - 1).push(p[end - 1]));
        assert(last_segment(p.take(start)) + p.subrange(start, end) =~= (last_segment(p.take(start))
            + p.subrange(start, end - 1)).push(p[end - 1]));
    } else {
        assert(p.subrange(start, end) =~= Seq::<char>::empty());
        assert(last_segment(p.take(start)) + p.subrange(start, end) =~= last_segment(p.take(start)));
    }
}

/// The file name of a path, as characters.
pub fn file_name_of(p: &Vec<char>) -> (r: Option<Vec<char>>)
    ensures
        match r {
            Some(f) => file_name(p@) == Some(f@),
            None => file_name(p@) is None,
        },
{
    let mut end: usize = p.len();
    assert(p@.take(end as int) =~= p@);
    loop
        invariant
            end <= p.len(),
            file_name(p@) == file_name(p@.take(end as int)),
        ensures
            0 < end <= p.len(),
            file_name(p@) == file_name(p@.take(end as int)),
            p@[end - 1] != '/',
            !(p@[end - 1] == '.' && (end == 1 || p@[end - 2] == '/')),
        decreases end,
    {
        if end == 0 {
            return None;
        }
        assert(p@.take(end as int).drop_last() =~= p@.take(end - 1));
        if p[end - 1] == '/' || (p[end - 1] == '.' && (end == 1 || p[end - 2] == '/')) {
            end = end - 1;
        } else {
            break;
        }
    }
    let mut start: usize = end;
    while start > 0 && p[start - 1] != '/'
        invariant
            start <= end <= p.len(),
            forall|k: int| start <= k < end ==> p@[k] != '/',
        decreases start,
    {
        start = start - 1;
    }
    proof {
        lemma_take_last_segment(p@, start as int, end as int);
        if start > 0 {
            assert(p@.take(start as int).last() == '/');
        }
        assert(last_segment(p@.take(start as int)) =~= Seq::<char>::empty());
    }
    let mut seg: Vec<char> = Vec::new();
    let mut k: usize = start;
    while k < end
        invariant
            start <= k <= end <= p.len(),
            seg@ == p@.subrange(start as int, k as int),
        decreases end - k,
    {
        seg.push(p[k]);
        assert(p@.subrange(start as int, k + 1) =~= p@.subrange(start as int, k as int).push(p@[k as int]));
        k += 1;
    }
    let ghost segment = last_segment(p@.take(end as int));
    proof {
        let q = p@.take(end as int);
        assert(q.last() == p@[end - 1]);
        if end > 1 {
            assert(q[q.len() - 2] == p@[end - 2]);
        }
    }
    assert(seg@ =~= segment);
    if seg.len() == 2 && seg[0] == '.' && seg[1] == '.' {
        assert(segment =~= seq!['.', '.']);
        None
    } else {
        assert(segment !== seq!['.', '.']);
        Some(seg)
    }
}

/// The index of the last `.` of a character sequence.
fn last_dot_of(f: &Vec<char>) -> (r: Option<usize>)
    ensures
        match r {
            Some(i) => last_dot(f@) == Some(i as int) && i < f.len(),
            None => last_dot(f@) is None,
        },
{
    let mut end: usize = f.len();
    assert(f@.take(end as int) =~= f@);
    while end > 0
        invariant
            end <= f.len(),
            last_dot(f@) == last_dot(f@.take(end as int)),
        decreases end,
    {
        assert(f@.take(end as int).drop_last() =~= f@.take(end - 1));
        if f[end - 1] == '.' {
            return Some(end - 1);
        }
        end = end - 1;
    }
    None
}

/// The extension of a path, as characters.
pub fn path_extension_of(p: &Vec<char>) -> (r: Option<Vec<char>>)
    ensures
        match r {
            Some(e) => path_extension(p@) == Some(e@),
            None => path_extension(p@) is None,
        },
{
    let f = match file_name_of(p) {
        Some(f) => f,
        None => return None,
    };
    match last_dot_of(&f) {
        Some(i) => {
            if i == 0 {
                return None;
            }
            let mut e: Vec<char> = Vec::new();
            let mut k: usize = i + 1;
            while k < f.len()
                invariant
                    i + 1 <= k <= f.len(),
                    e@ == f@.subrange(i + 1, k as int),
                decreases f.len() - k,
            {
                e.push(f[k]);
                assert(f@.subrange(i + 1, k + 1) =~= f@.subrange(i + 1, k as int).push(f@[k as int]));
                k += 1;
            }
            Some(e)
        },
        None => None,
    }
}

/// Whether a file's path passes an extension filter: an empty filter lets
/// every path through; otherwise the path's extension must equal one of the
/// filter's, ignoring ASCII case.
pub fn has_matching_extension(path: &str, extensions: &[String]) -> (r: bool)
    ensures
        r == matches_extension(path@, string_views(extensions@)),
        extensions@.len() == 0 ==> r,
{
    let ghost exts = string_views(extensions@);
    if extensions.len() == 0 {
        return true;
    }
    let p = chars_of(path);
    let e = match path_extension_of(&p) {
        Some(e) => e,
        None => return false,
    };
    let mut i: usize = 0;
    while i < extensions.len()
        invariant
            i <= extensions@.len(),
            exts == string_views(extensions@),
            path_extension(path@) == Some(e@),
            forall|j: int| 0 <= j < i ==> !eq_ignore_ascii_case(#[trigger] exts[j], e@),
        decreases extensions@.len() - i,
    {
        let allowed = chars_of(extensions[i].as_str());
        if chars_eq_ignore_ascii_case(&allowed, &e) {
            assert(exts[i as int] == extensions@[i as int]@);
            return true;
        }
        i += 1;
    }
    false
}

/// The `i`-th entry of `image_extensions()`.
fn image_extension_at(i: usize) -> (e: Vec<char>)
    requires
        i < 20,
    ensures
        e@ == image_extensions()[i as int],
{
    let e = match i {
        0 => vec!['j', 'p', 'g'],
        1 => vec!['j', 'p', 'e', 'g'],
        2 => vec!['p', 'n', 'g'],
        3 => vec!['b', 'm', 'p'],
        4 => vec!['t', 'i', 'f', 'f'],
        5 => vec!['t', 'i', 'f'],
        6 => vec!['w', 'e', 'b', 'p'],
        7 => vec!['a', 'v', 'i', 'f'],
        8 => vec!['h', 'e', 'i', 'c'],
        9 => vec!['h', 'e', 'i', 'f'],
        10 => vec!['j', 'x', 'l'],
        11 => vec!['m', 'p', '4'],
        12 => vec!['g', 'i', 'f'],
        13 => vec!['w', 'e', 'b', 'm'],
        14 => vec!['a', 'p', 'n', 'g'],
        15 => vec!['s', 'v', 'g'],
        16 => vec!['a', 'i'],
        17 => vec!['e', 'p', 's'],
        18 => vec!['p', 'd', 'f'],
        _ => vec!['p', 's', 'd'],
    };
    assert(e@ =~= image_extensions()[i as int]);
    e
}

/// Whether an extension names an image or wallpaper format, ignoring ASCII case.
pub fn is_image_extension(ext: &str) -> (r: bool)
    ensures
        r == is_image_ext(ext@),
{
    let chars = chars_of(ext);
    let mut lower: Vec<char> = Vec::new();
    let mut k: usize = 0;
    while k < chars.len()
        invariant
            k <= chars.len(),
            lower@ =~= ascii_lower_seq(chars@.take(k as int)),
        decreases chars.len() - k,
    {
        lower.push(to_ascii_lower(chars[k]));
        k += 1;
    }
    assert(chars@.take(chars.len() as int) =~= chars@);
    let ghost target = ascii_lower_seq(ext@);
    assert(lower@ == target);
    let mut i: usize = 0;
    while i < 20
        invariant
            i <= 20,
            lower@ == target,
            target == ascii_lower_seq(ext@),
            image_extensions().len() == 20,
            forall|j: int| 0 <= j < i ==> #[trigger] image_extensions()[j] != target,
        decreases 20 - i,
    {
        let candidate = image_extension_at(i);
        if chars_eq(&lower, &candidate) {
            assert(image_extensions()[i as int] == target);
            assert(image_extensions().contains(target));
            return true;
        }
        i += 1;
    }
    assert(!image_extensions().contains(target));
    false
}

proof fn lemma_ascii_lower_idempotent(c: char)
    ensures
        ascii_lower(ascii_lower(c)) == ascii_lower(c),
{
}

/// Writing an extension in other ASCII case does not change whether it names
/// an image format.
pub proof fn lemma_image_ext_ignores_case(ext: Seq<char>)
    ensures
        is_image_ext(ext) == is_image_ext(ascii_lower_seq(ext)),
{
    assert forall|i: int| 0 <= i < ext.len() implies #[trigger] ascii_lower_seq(ascii_lower_seq(ext))[i]
        == ascii_lower_seq(ext)[i] by {
        lemma_ascii_lower_idempotent(ext[i]);
    }
    assert(ascii_lower_seq(ascii_lower_seq(ext)) =~= ascii_lower_seq(ext));
}

/// Writing the filter's extensions in other ASCII case does not change which
/// paths pass it.
pub proof fn lemma_filter_ignores_case(p: Seq<char>, extensions: Seq<Seq<char>>)
    ensures
        matches_extension(p, extensions) == matches_extension(
            p,
            extensions.map_values(|e: Seq<char>| ascii_lower_seq(e)),
        ),
{
    let lowered = extensions.map_values(|e: Seq<char>| ascii_lower_seq(e));
    if let Some(e) = path_extension(p) {
        assert forall|i: int| 0 <= i < extensions.len() implies eq_ignore_ascii_case(
            #[trigger] extensions[i],
            e,
        ) == eq_ignore_ascii_case(lowered[i], e) by {
            let a = extensions[i];
            let b = lowered[i];
            assert(b == ascii_lower_seq(a));
            assert(b.len() == a.len());
            assert forall|k: int| 0 <= k < extensions[i].len() implies ascii_lower(
                #[trigger] lowered[i][k],
            ) == ascii_lower(extensions[i][k]) by {
                lemma_ascii_lower_idempotent(extensions[i][k]);
            }
            if eq_ignore_ascii_case(a, e) {
                assert forall|k: int| 0 <= k < b.len() implies ascii_lower(#[trigger] b[k]) == ascii_lower(e[k]) by {
                    assert(ascii_lower(a[k]) == ascii_lower(e[k]));
                }
            }
            if eq_ignore_ascii_case(b, e) {
                assert forall|k: int| 0 <= k < a.len() implies ascii_lower(#[trigger] a[k]) == ascii_lower(e[k]) by {
                    assert(ascii_lower(b[k]) == ascii_lower(e[k]));
                }
            }
        }
        if matches_extension(p, extensions) && extensions.len() > 0 {
            let i = choose|i: int| 0 <= i < extensions.len() && eq_ignore_ascii_case(#[trigger] extensions[i], e);
            assert(eq_ignore_ascii_case(lowered[i], e));
        }
        if matches_extension(p, lowered) && lowered.len() > 0 {
            let i = choose|i: int| 0 <= i < lowered.len() && eq_ignore_ascii_case(#[trigger] lowered[i], e);
            assert(eq_ignore_ascii_case(extensions[i], e));
        }
    }
}

/// An extension names an image format however its letters are cased: in
/// particular the upper-case spelling of every listed format is an image
/// extension too.
pub proof fn lemma_image_ext_any_case(ext: Seq<char>)
    ensures
        is_image_ext(ascii_upper_seq(ext)) == is_image_ext(ext),
        forall|i: int|
            0 <= i < image_extensions().len() ==> is_image_ext(
                #[trigger] ascii_upper_seq(image_extensions()[i]),
            ),
{
    assert forall|k: int| 0 <= k < ext.len() implies #[trigger] ascii_lower_seq(ascii_upper_seq(ext))[k]
        == ascii_lower_seq(ext)[k] by {
        lemma_ascii_lower_folds_case(ext[k]);
    }
    assert(ascii_lower_seq(ascii_upper_seq(ext)) =~= ascii_lower_seq(ext));
    assert forall|i: int| 0 <= i < image_extensions().len() implies is_image_ext(
        #[trigger] ascii_upper_seq(image_extensions()[i]),
    ) by {
        let e = image_extensions()[i];
        assert forall|k: int| 0 <= k < e.len() implies #[trigger] ascii_lower_seq(ascii_upper_seq(e))[k]
            == e[k] by {
            lemma_ascii_lower_folds_case(e[k]);
        }
        assert(ascii_lower_seq(ascii_upper_seq(e)) =~= e);
        assert(image_extensions().contains(e));
    }
}

/// A filter entry lets a path through only when it has the length of the
/// path's extension: a longer or shorter extension (`tiff` against `tif`)
/// never passes a one-entry filter.
pub proof fn lemma_filter_entry_length_must_match(p: Seq<char>, e: Seq<char>)
    ensures
        matches_extension(p, seq![e]) ==> (path_extension(p) matches Some(x) && x.len() == e.len()),
{
    if matches_extension(p, seq![e]) {
        let x = path_extension(p)->0;
        let i = choose|i: int| 0 <= i < seq![e].len() && eq_ignore_ascii_case(#[trigger] seq![e][i], x);
        lemma_eq_ignore_ascii_case_laws(e, x);
    }
}

proof fn lemma_last_segment_shape(p: Seq<char>)
    ensures
        last_segment(p).len() <= p.len(),
        last_segment(p) == p.subrange(p.len() - last_segment(p).len(), p.len() as int),
        forall|k: int| 0 <= k < last_segment(p).len() ==> #[trigger] last_segment(p)[k] != '/',
        last_segment(p).len() < p.len() ==> p[p.len() - last_segment(p).len() - 1] == '/',
    decreases p.len(),
{
    if p.len() > 0 && p.last() != '/' {
        let q = p.drop_last();
        lemma_last_segment_shape(q);
        let l = last_segment(q);
        assert(last_segment(p) == l.push(p.last()));
        assert(p.subrange(p.len() - l.len() - 1, p.len() as int) =~= q.subrange(
            q.len() - l.len(),
            q.len() as int,
        ).push(p.last()));
        assert forall|k: int| 0 <= k < last_segment(p).len() implies #[trigger] last_segment(p)[k] != '/' by {
            if k < l.len() {
                assert(last_segment(p)[k] == l[k]);
            }
        }
        if last_segment(p).len() < p.len() {
            assert(p[p.len() - last_segment(p).len() - 1] == q[q.len() - l.len() - 1]);
        }
    } else {
        assert(p.subrange(p.len() as int, p.len() as int) =~= Seq::<char>::empty());
    }
}

/// A file name is a non-empty run of characters without `/`, is neither `.`
/// nor `..`, and ends the path once trailing `/` and `.` components are passed over.
pub proof fn lemma_file_name_shape(p: Seq<char>)
    ensures
        file_name(p) matches Some(f) ==> {
            &&& f.len() > 0
            &&& forall|k: int| 0 <= k < f.len() ==> #[trigger] f[k] != '/'
            &&& f != seq!['.']
            &&& f != seq!['.', '.']
        },
        (forall|k: int| 0 <= k < p.len() ==> #[trigger] p[k] == '/') ==> file_name(p) is None,
    decreases p.len(),
{
    if p.len() > 0 {
        lemma_file_name_shape(p.drop_last());
        lemma_last_segment_shape(p);
        if forall|k: int| 0 <= k < p.len() ==> #[trigger] p[k] == '/' {
            assert(p.last() == p[p.len() - 1]);
            assert forall|k: int| 0 <= k < p.drop_last().len() implies #[trigger] p.drop_last()[k] == '/' by {
                assert(p.drop_last()[k] == p[k]);
            }
        }
        if p.last() != '/' && !(p.last() == '.' && (p.len() == 1 || p[p.len() - 2] == '/')) {
            let f = last_segment(p);
            assert(f.len() > 0) by {
                assert(f == last_segment(p.drop_last()).push(p.last()));
            }
            if f == seq!['.'] {
                assert(f.len() == 1);
                assert(f[0] == p.last()) by {
                    assert(f == last_segment(p.drop_last()).push(p.last()));
                }
                if p.len() > 1 {
                    assert(p[p.len() - 2] == '/');
                }
            }
        }
    }
}

proof fn lemma_last_dot_shape(f: Seq<char>)
    ensures
        last_dot(f) matches Some(i) ==> 0 <= i < f.len() && f[i] == '.' && forall|k: int|
            i < k < f.len() ==> #[trigger] f[k] != '.',
        last_dot(f) is None ==> forall|k: int| 0 <= k < f.len() ==> #[trigger] f[k] != '.',
    decreases f.len(),
{
    if f.len() > 0 {
        let q = f.drop_last();
        lemma_last_dot_shape(q);
        if f.last() != '.' {
            assert forall|k: int| 0 <= k < f.len() - 1 implies #[trigger] f[k] == q[k] by {}
        }
    }
}

/// An extension is what follows a `.` that is not the first character of the
/// file name, and holds no `.` itself; a name without `.` or whose only `.` is
/// its first character (`.bashrc`) has none.
pub proof fn lemma_extension_shape(f: Seq<char>)
    ensures
        name_extension(f) matches Some(x) ==> exists|k: int|
            0 < k < f.len() && f[k] == '.' && #[trigger] f.subrange(k + 1, f.len() as int) == x,
        name_extension(f) matches Some(x) ==> forall|k: int| 0 <= k < x.len() ==> #[trigger] x[k] != '.',
        (forall|k: int| 0 < k < f.len() ==> #[trigger] f[k] != '.') ==> name_extension(f) is None,
{
    lemma_last_dot_shape(f);
    if let Some(i) = last_dot(f) {
        if i > 0 {
            let x = f.subrange(i + 1, f.len() as int);
            assert(f.subrange(i + 1, f.len() as int) == x);
            assert forall|k: int| 0 <= k < x.len() implies #[trigger] x[k] != '.' by {
                assert(x[k] == f[i + 1 + k]);
            }
        }
    }
}

} // verus!
