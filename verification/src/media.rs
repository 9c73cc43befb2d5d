//! Which files are tagged, and in what order. Paths and file names are byte
//! strings, as the operating system has them.
use vstd::prelude::*;
use vstd::slice::slice_subrange;

verus! {

use vstd::seq_lib::lemma_seq_contains_after_push;

pub const SEPARATOR: u8 = 0x2f;

pub const DOT: u8 = 0x2e;

/// The last position of `b` in `s`, or -1.
pub open spec fn last_position(s: Seq<u8>, b: u8) -> int
    decreases s.len(),
{
    if s.len() == 0 {
        -1
    } else if s.last() == b {
        s.len() - 1
    } else {
        last_position(s.drop_last(), b)
    }
}

/// The last component of a path: what stands behind the last separator, where
/// empty components and `.` do not count. A path that ends in `..` has none.
pub open spec fn file_name(path: Seq<u8>) -> Option<Seq<u8>>
    decreases path.len(),
{
    let at = last_position(path, SEPARATOR);
    let name = path.skip(at + 1);
    if name.len() == 0 || name == seq![DOT] {
        if 0 <= at < path.len() {
            file_name(path.take(at))
        } else {
            None
        }
    } else if name == seq![DOT, DOT] {
        None
    } else {
        Some(name)
    }
}

/// The extension of a file name: what stands behind its last dot, unless there
/// is no dot or the name starts with its only one.
pub open spec fn name_extension(name: Seq<u8>) -> Option<Seq<u8>> {
    let at = last_position(name, DOT);
    if at <= 0 {
        None
    } else {
        Some(name.skip(at + 1))
    }
}

/// The extension of a path.
pub open spec fn extension(path: Seq<u8>) -> Option<Seq<u8>> {
    match file_name(path) {
        Some(name) => name_extension(name),
        None => None,
    }
}

pub open spec fn byte_lower(b: u8) -> u8 {
    if 0x41 <= b <= 0x5a {
        (b + 32) as u8
    } else {
        b
    }
}

/// Whether `s` is `word` but for the case of ASCII letters.
pub open spec fn same_ignoring_case(s: Seq<u8>, word: Seq<u8>) -> bool {
    s.map_values(|b: u8| byte_lower(b)) == word.map_values(|b: u8| byte_lower(b))
}

/// Whether the path has the extension `word`, in any case.
pub open spec fn has_extension(path: Seq<u8>, word: Seq<u8>) -> bool {
    extension(path) matches Some(e) && same_ignoring_case(e, word)
}

/// Whether the path names a JPEG photo.
pub open spec fn is_jpeg(path: Seq<u8>) -> bool {
    has_extension(path, seq!['j' as u8, 'p' as u8, 'g' as u8]) || has_extension(
        path,
        seq!['j' as u8, 'p' as u8, 'e' as u8, 'g' as u8],
    )
}

/// Whether the path names a QuickTime video.
pub open spec fn is_mov(path: Seq<u8>) -> bool {
    has_extension(path, seq!['m' as u8, 'o' as u8, 'v' as u8])
}

fn find_last(s: &[u8], b: u8) -> (r: Option<usize>)
    ensures
        match r {
            Some(i) => i < s@.len() && i == last_position(s@, b),
            None => last_position(s@, b) == -1,
        },
{
    let mut n: usize = s.len();
    assert(s@.take(n as int) == s@);
    while n > 0
        invariant
            n <= s@.len(),
            last_position(s@, b) == last_position(s@.take(n as int), b),
        decreases n,
    {
        assert(s@.take(n as int).drop_last() == s@.take(n - 1));
        if s[n - 1] == b {
            return Some(n - 1);
        }
        n = n - 1;
    }
    None
}

fn find_file_name(path: &[u8]) -> (r: Option<&[u8]>)
    ensures
        match r {
            Some(name) => file_name(path@) == Some(name@),
            None => file_name(path@) is None,
        },
    decreases path@.len(),
{
    let n: usize = path.len();
    let at = find_last(path, SEPARATOR);
    let name = match at {
        Some(i) => slice_subrange(path, i + 1, n),
        None => path,
    };
    assert(name@ == path@.skip(last_position(path@, SEPARATOR) + 1));
    if name.len() == 0 || (name.len() == 1 && name[0] == DOT) {
        assert(name@.len() == 0 || name@ == seq![DOT]);
        match at {
            Some(i) => {
                assert(path@.subrange(0, i as int) == path@.take(i as int));
                find_file_name(slice_subrange(path, 0, i))
            },
            None => None,
        }
    } else if name.len() == 2 && name[0] == DOT && name[1] == DOT {
        assert(name@ == seq![DOT, DOT]);
        None
    } else {
        assert(name@ != seq![DOT]);
        assert(name@ != seq![DOT, DOT]);
        Some(name)
    }
}

fn find_extension(path: &[u8]) -> (r: Option<&[u8]>)
    ensures
        match r {
            Some(e) => extension(path@) == Some(e@),
            None => extension(path@) is None,
        },
{
    match find_file_name(path) {
        Some(name) => {
            let n: usize = name.len();
            match find_last(name, DOT) {
                Some(i) => if i == 0 {
                    None
                } else {
                    let e = slice_subrange(name, i + 1, n);
                    assert(e@ == name@.skip(i + 1));
                    Some(e)
                },
                None => None,
            }
        },
        None => None,
    }
}

fn lower(b: u8) -> (r: u8)
    ensures
        r == byte_lower(b),
{
    if 0x41 <= b && b <= 0x5a {
        b + 32
    } else {
        b
    }
}

fn equal_ignoring_case(s: &[u8], word: &[u8]) -> (r: bool)
    ensures
        r == same_ignoring_case(s@, word@),
{
    let ghost low_s = s@.map_values(|b: u8| byte_lower(b));
    let ghost low_word = word@.map_values(|b: u8| byte_lower(b));
    if s.len() != word.len() {
        assert(low_s.len() != low_word.len());
        return false;
    }
    for i in 0..s.len()
        invariant
            s@.len() == word@.len(),
            forall|j: int| 0 <= j < i ==> byte_lower(#[trigger] s@[j]) == byte_lower(word@[j]),
    {
        if lower(s[i]) != lower(word[i]) {
            proof {
                assert(s@.map_values(|b: u8| byte_lower(b))[i as int] != word@.map_values(
                    |b: u8| byte_lower(b),
                )[i as int]);
            }
            return false;
        }
    }
    assert(low_s =~= low_word);
    true
}

/// Whether a path names a JPEG photo: its extension is `jpg` or `jpeg`.
pub fn has_jpeg_extension(path: &[u8]) -> (r: bool)
    ensures
        r == is_jpeg(path@),
{
    match find_extension(path) {
        Some(e) => {
            let jpg: [u8; 3] = ['j' as u8, 'p' as u8, 'g' as u8];
            let jpeg: [u8; 4] = ['j' as u8, 'p' as u8, 'e' as u8, 'g' as u8];
            assert(jpg@ == seq!['j' as u8, 'p' as u8, 'g' as u8]);
            assert(jpeg@ == seq!['j' as u8, 'p' as u8, 'e' as u8, 'g' as u8]);
            equal_ignoring_case(e, &jpg) || equal_ignoring_case(e, &jpeg)
        },
        None => false,
    }
}

/// Whether a path names a QuickTime video: its extension is `mov`.
pub fn has_mov_extension(path: &[u8]) -> (r: bool)
    ensures
        r == is_mov(path@),
{
    match find_extension(path) {
        Some(e) => {
            let mov: [u8; 3] = ['m' as u8, 'o' as u8, 'v' as u8];
            assert(mov@ == seq!['m' as u8, 'o' as u8, 'v' as u8]);
            equal_ignoring_case(e, &mov)
        },
        None => false,
    }
}

/// Whether a path names a file that can be tagged.
pub fn is_supported_media(path: &[u8]) -> (r: bool)
    ensures
        r == (is_jpeg(path@) || is_mov(path@)),
{
    has_jpeg_extension(path) || has_mov_extension(path)
}

/// Byte strings in the order of the first byte in which they differ; a prefix
/// comes first.
pub open spec fn bytes_le(a: Seq<u8>, b: Seq<u8>) -> bool
    decreases a.len(),
{
    if a.len() == 0 {
        true
    } else if b.len() == 0 {
        false
    } else if a[0] == b[0] {
        bytes_le(a.drop_first(), b.drop_first())
    } else {
        a[0] < b[0]
    }
}

proof fn lemma_bytes_total(a: Seq<u8>, b: Seq<u8>)
    ensures
        bytes_le(a, b) || bytes_le(b, a),
        bytes_le(a, b) && bytes_le(b, a) ==> a == b,
    decreases a.len(),
{
    if a.len() == 0 || b.len() == 0 {
        assert(bytes_le(a, b) && bytes_le(b, a) ==> a =~= b);
    } else {
        lemma_bytes_total(a.drop_first(), b.drop_first());
        if a[0] == b[0] && a.drop_first() == b.drop_first() {
            assert(a =~= seq![a[0]] + a.drop_first());
            assert(b =~= seq![b[0]] + b.drop_first());
        }
    }
}

proof fn lemma_bytes_transitive(a: Seq<u8>, b: Seq<u8>, c: Seq<u8>)
    requires
        bytes_le(a, b),
        bytes_le(b, c),
    ensures
        bytes_le(a, c),
    decreases a.len(),
{
    if a.len() > 0 {
        if a[0] == b[0] && b[0] == c[0] {
            lemma_bytes_transitive(a.drop_first(), b.drop_first(), c.drop_first());
        }
    }
}

/// The order in which the entries `i` and `j` of a listing are tagged: by name,
/// and by their place in the listing where the names are the same.
pub open spec fn precedes(names: Seq<Vec<u8>>, i: int, j: int) -> bool {
    if names[i]@ == names[j]@ {
        i < j
    } else {
        bytes_le(names[i]@, names[j]@)
    }
}

pub(crate) proof fn lemma_precedes_transitive(names: Seq<Vec<u8>>, i: int, j: int, k: int)
    requires
        precedes(names, i, j),
        precedes(names, j, k),
    ensures
        precedes(names, i, k),
{
    lemma_bytes_total(names[i]@, names[j]@);
    lemma_bytes_total(names[j]@, names[k]@);
    lemma_bytes_total(names[i]@, names[i]@);
    lemma_bytes_transitive(names[i]@, names[j]@, names[k]@);
}

pub(crate) proof fn lemma_precedes_total(names: Seq<Vec<u8>>, i: int, j: int)
    requires
        i != j,
    ensures
        precedes(names, i, j) != precedes(names, j, i),
{
    lemma_bytes_total(names[i]@, names[j]@);
}

/// `ids` are places in a listing, in the order in which they are tagged.
pub open spec fn in_order(names: Seq<Vec<u8>>, ids: Seq<usize>) -> bool {
    &&& forall|a: int| 0 <= a < ids.len() ==> #[trigger] ids[a] < names.len()
    &&& forall|a: int, b: int|
        0 <= a < b < ids.len() ==> precedes(
            names,
            #[trigger] ids[a] as int,
            #[trigger] ids[b] as int,
        )
}

/// Whether `a` comes before `b`, byte by byte; none if they are the same.
fn bytes_before(a: &Vec<u8>, b: &Vec<u8>) -> (r: Option<bool>)
    ensures
        match r {
            Some(less) => a@ != b@ && less == bytes_le(a@, b@),
            None => a@ == b@,
        },
{
    let mut i: usize = 0;
    assert(a@.skip(0) == a@);
    assert(b@.skip(0) == b@);
    while i < a.len() && i < b.len()
        invariant
            i <= a.len(),
            i <= b.len(),
            a@.take(i as int) == b@.take(i as int),
            bytes_le(a@, b@) == bytes_le(a@.skip(i as int), b@.skip(i as int)),
        decreases a.len() - i,
    {
        assert(a@.skip(i as int).drop_first() == a@.skip(i + 1));
        assert(b@.skip(i as int).drop_first() == b@.skip(i + 1));
        if a[i] != b[i] {
            return Some(a[i] < b[i]);
        }
        assert(a@.take(i + 1) == a@.take(i as int).push(a@[i as int]));
        assert(b@.take(i + 1) == b@.take(i as int).push(b@[i as int]));
        i = i + 1;
    }
    if a.len() == b.len() {
        assert(a@.take(i as int) == a@);
        assert(b@.take(i as int) == b@);
        None
    } else {
        Some(a.len() < b.len())
    }
}

fn comes_first(names: &Vec<Vec<u8>>, i: usize, j: usize) -> (r: bool)
    requires
        i < names.len(),
        j < names.len(),
    ensures
        r == precedes(names@, i as int, j as int),
{
    match bytes_before(&names[i], &names[j]) {
        Some(less) => less,
        None => i < j,
    }
}

fn merge(names: &Vec<Vec<u8>>, left: &Vec<usize>, right: &Vec<usize>) -> (r: Vec<usize>)
    requires
        in_order(names@, left@),
        in_order(names@, right@),
        forall|x: usize| left@.contains(x) ==> !#[trigger] right@.contains(x),
    ensures
        in_order(names@, r@),
        forall|x: usize| #[trigger] r@.contains(x) <==> left@.contains(x) || right@.contains(x),
{
    let mut out: Vec<usize> = Vec::new();
    let mut i: usize = 0;
    let mut j: usize = 0;
    while i < left.len() || j < right.len()
        invariant
            i <= left.len(),
            j <= right.len(),
            in_order(names@, left@),
            in_order(names@, right@),
            forall|x: usize| left@.contains(x) ==> !#[trigger] right@.contains(x),
            in_order(names@, out@),
            forall|a: int, b: int|
                0 <= a < out.len() && i <= b < left.len() ==> precedes(
                    names@,
                    #[trigger] out@[a] as int,
                    #[trigger] left@[b] as int,
                ),
            forall|a: int, b: int|
                0 <= a < out.len() && j <= b < right.len() ==> precedes(
                    names@,
                    #[trigger] out@[a] as int,
                    #[trigger] right@[b] as int,
                ),
            forall|x: usize| #[trigger]
                out@.contains(x) <==> left@.take(i as int).contains(x) || right@.take(
                    j as int,
                ).contains(x),
        decreases left.len() - i + right.len() - j,
    {
        let ghost before = out@;
        let from_left = if i < left.len() && j < right.len() {
            proof {
                assert(left@.contains(left@[i as int]));
                assert(right@.contains(right@[j as int]));
                lemma_precedes_total(names@, left@[i as int] as int, right@[j as int] as int);
            }
            comes_first(names, left[i], right[j])
        } else {
            i < left.len()
        };
        let next: usize = if from_left {
            left[i]
        } else {
            right[j]
        };
        out.push(next);
        proof {
            let ni = if from_left { i + 1 } else { i as int };
            let nj = if from_left { j as int } else { j + 1 };
            assert forall|b: int| ni <= b < left.len() implies precedes(
                names@,
                next as int,
                #[trigger] left@[b] as int,
            ) by {
                if !from_left && i < b {
                    lemma_precedes_transitive(
                        names@,
                        next as int,
                        left@[i as int] as int,
                        left@[b] as int,
                    );
                }
            }
            assert forall|b: int| nj <= b < right.len() implies precedes(
                names@,
                next as int,
                #[trigger] right@[b] as int,
            ) by {
                if from_left && j < b {
                    lemma_precedes_transitive(
                        names@,
                        next as int,
                        right@[j as int] as int,
                        right@[b] as int,
                    );
                }
            }
            assert forall|x: usize| #[trigger]
                out@.contains(x) <==> left@.take(ni).contains(x) || right@.take(nj).contains(x) by {
                lemma_seq_contains_after_push(before, next, x);
                if from_left {
                    assert(left@.take(ni) == left@.take(i as int).push(next));
                    lemma_seq_contains_after_push(left@.take(i as int), next, x);
                } else {
                    assert(right@.take(nj) == right@.take(j as int).push(next));
                    lemma_seq_contains_after_push(right@.take(j as int), next, x);
                }
            }
        }
        if from_left {
            i = i + 1;
        } else {
            j = j + 1;
        }
    }
    assert(left@.take(left@.len() as int) == left@);
    assert(right@.take(right@.len() as int) == right@);
    out
}

/// Sorts the places `ids[lo..hi]`.
fn sort_range(names: &Vec<Vec<u8>>, ids: &Vec<usize>, lo: usize, hi: usize) -> (r: Vec<usize>)
    requires
        lo <= hi <= ids.len(),
        ids@.no_duplicates(),
        forall|a: int| 0 <= a < ids.len() ==> #[trigger] ids@[a] < names.len(),
    ensures
        in_order(names@, r@),
        forall|x: usize| #[trigger]
            r@.contains(x) <==> ids@.subrange(lo as int, hi as int).contains(x),
    decreases hi - lo,
{
    if hi - lo <= 1 {
        let mut one: Vec<usize> = Vec::new();
        if lo < hi {
            one.push(ids[lo]);
        }
        assert(one@ == ids@.subrange(lo as int, hi as int));
        return one;
    }
    let mid: usize = lo + (hi - lo) / 2;
    let left = sort_range(names, ids, lo, mid);
    let right = sort_range(names, ids, mid, hi);
    let ghost a = ids@.subrange(lo as int, mid as int);
    let ghost b = ids@.subrange(mid as int, hi as int);
    let ghost c = ids@.subrange(lo as int, hi as int);
    assert forall|x: usize| left@.contains(x) implies !#[trigger] right@.contains(x) by {
        assert(a.contains(x));
        if b.contains(x) {
            let p = choose|p: int| 0 <= p < a.len() && a[p] == x;
            let q = choose|q: int| 0 <= q < b.len() && b[q] == x;
            assert(ids@[lo + p] == ids@[mid + q]);
        }
    }
    assert forall|x: usize| #[trigger] c.contains(x) <==> a.contains(x) || b.contains(x) by {
        if c.contains(x) {
            let p = choose|p: int| 0 <= p < c.len() && c[p] == x;
            if p < a.len() {
                assert(a[p] == x);
            } else {
                assert(b[p - a.len()] == x);
            }
        }
        if a.contains(x) {
            let p = choose|p: int| 0 <= p < a.len() && a[p] == x;
            assert(c[p] == x);
        }
        if b.contains(x) {
            let p = choose|p: int| 0 <= p < b.len() && b[p] == x;
            assert(c[p + a.len()] == x);
        }
    }
    merge(names, &left, &right)
}

/// Brings places in a listing into the order of their names.
pub(crate) fn sort_by_name(names: &Vec<Vec<u8>>, ids: &Vec<usize>) -> (r: Vec<usize>)
    requires
        ids@.no_duplicates(),
        forall|a: int| 0 <= a < ids.len() ==> #[trigger] ids@[a] < names.len(),
    ensures
        in_order(names@, r@),
        forall|x: usize| #[trigger] r@.contains(x) <==> ids@.contains(x),
{
    assert(ids@.subrange(0, ids@.len() as int) == ids@);
    sort_range(names, ids, 0, ids.len())
}

/// What the path that is to be tagged turns out to be.
#[derive(Debug, PartialEq, Eq)]
pub enum Input {
    /// A file, with its path or its name.
    File(Vec<u8>),
    /// A folder, with the names of the files in it.
    Folder(Vec<Vec<u8>>),
    /// Neither.
    Missing,
}

/// Whether a name belongs to a file that can be tagged.
pub open spec fn is_supported(name: Seq<u8>) -> bool {
    is_jpeg(name) || is_mov(name)
}

/// `ids` are the places of all names of `names` that can be tagged, in the order
/// of the names.
pub open spec fn are_targets(names: Seq<Vec<u8>>, ids: Seq<usize>) -> bool {
    &&& in_order(names, ids)
    &&& forall|x: usize| #[trigger]
        ids.contains(x) <==> x < names.len() && is_supported(names[x as int]@)
}

/// `ids` are the places of all names of `names` that are (or are not) photos, in
/// the order of the list.
pub open spec fn are_photos(names: Seq<Vec<u8>>, ids: Seq<usize>, photo: bool) -> bool {
    &&& forall|a: int, b: int| 0 <= a < b < ids.len() ==> #[trigger] ids[a] < #[trigger] ids[b]
    &&& forall|x: usize| #[trigger]
        ids.contains(x) <==> x < names.len() && is_jpeg(names[x as int]@) == photo
}

fn supported_places(names: &Vec<Vec<u8>>) -> (r: Vec<usize>)
    ensures
        r@.no_duplicates(),
        forall|x: usize| #[trigger]
            r@.contains(x) <==> x < names.len() && is_supported(names@[x as int]@),
{
    let mut ids: Vec<usize> = Vec::new();
    for i in 0..names.len()
        invariant
            ids@.no_duplicates(),
            forall|x: usize| #[trigger]
                ids@.contains(x) <==> x < i && is_supported(names@[x as int]@),
    {
        let ghost before = ids@;
        if is_supported_media(names[i].as_slice()) {
            assert(!before.contains(i));
            ids.push(i);
            assert forall|x: usize| #[trigger]
                ids@.contains(x) <==> x < i + 1 && is_supported(names@[x as int]@) by {
                lemma_seq_contains_after_push(before, i, x);
            }
        }
    }
    ids
}

/// Finds the files that are tagged: the file itself, or those of the folder in
/// the order of their names. The result is places in the folder's list; a file
/// stands for a list of its own. `shown` is the path as messages show it.
pub fn collect_targets(input: &Input, shown: &str) -> (r: Result<Vec<usize>, String>)
    ensures
        match input {
            Input::File(path) => r is Ok && r->Ok_0@ == (if is_supported(path@) {
                seq![0usize]
            } else {
                Seq::<usize>::empty()
            }),
            Input::Folder(names) => r is Ok && are_targets(names@, r->Ok_0@),
            Input::Missing => r is Err && r->Err_0@ == "Path does not exist as a file or folder: "@
                + shown@,
        },
{
    match input {
        Input::File(path) => {
            let mut ids: Vec<usize> = Vec::new();
            if is_supported_media(path.as_slice()) {
                ids.push(0);
            }
            assert(ids@ == (if is_supported(path@) {
                seq![0usize]
            } else {
                Seq::<usize>::empty()
            }));
            Ok(ids)
        },
        Input::Folder(names) => {
            let ids = supported_places(names);
            assert forall|a: int| 0 <= a < ids.len() implies #[trigger] ids@[a] < names.len() by {
                assert(ids@.contains(ids@[a]));
            }
            Ok(sort_by_name(names, &ids))
        },
        Input::Missing => {
            let mut message = "Path does not exist as a file or folder: ".to_owned();
            message.append(shown);
            Err(message)
        },
    }
}

/// Parts the files that are tagged into photos and videos, each in the order of
/// the list.
pub fn split_targets(names: &Vec<Vec<u8>>) -> (r: (Vec<usize>, Vec<usize>))
    ensures
        are_photos(names@, r.0@, true),
        are_photos(names@, r.1@, false),
{
    let mut photos: Vec<usize> = Vec::new();
    let mut videos: Vec<usize> = Vec::new();
    for i in 0..names.len()
        invariant
            are_photos(names@.take(i as int), photos@, true),
            are_photos(names@.take(i as int), videos@, false),
    {
        let ghost p = photos@;
        let ghost v = videos@;
        let photo = has_jpeg_extension(names[i].as_slice());
        if photo {
            photos.push(i);
        } else {
            videos.push(i);
        }
        proof {
            lemma_photos_push(names@, i, p, photos@, true);
            lemma_photos_push(names@, i, v, videos@, false);
        }
    }
    assert(names@.take(names@.len() as int) == names@);
    (photos, videos)
}

proof fn lemma_photos_push(
    names: Seq<Vec<u8>>,
    i: usize,
    before: Seq<usize>,
    after: Seq<usize>,
    photo: bool,
)
    requires
        i < names.len(),
        are_photos(names.take(i as int), before, photo),
        after == (if is_jpeg(names[i as int]@) == photo {
            before.push(i)
        } else {
            before
        }),
    ensures
        are_photos(names.take(i + 1), after, photo),
{
    assert forall|a: int| 0 <= a < before.len() implies #[trigger] before[a] < i by {
        assert(before.contains(before[a]));
    }
    assert forall|x: usize| #[trigger]
        after.contains(x) <==> x < names.take(i + 1).len() && is_jpeg(names.take(i + 1)[x as int]@)
            == photo by {
        lemma_seq_contains_after_push(before, i, x);
        if x < i {
            assert(names.take(i + 1)[x as int] == names.take(i as int)[x as int]);
        }
    }
}

/// Every file that is tagged is tagged once: as a photo or as a video, and not
/// as both.
pub proof fn every_target_is_tagged_once(
    names: Seq<Vec<u8>>,
    photos: Seq<usize>,
    videos: Seq<usize>,
    x: usize,
)
    requires
        x < names.len(),
        are_photos(names, photos, true),
        are_photos(names, videos, false),
    ensures
        photos.contains(x) != videos.contains(x),
        photos.no_duplicates(),
        videos.no_duplicates(),
        is_supported(names[x as int]@) && videos.contains(x) ==> is_mov(names[x as int]@),
{
}

/// The order of a folder's files is settled by their names: there is one list
/// of targets.
pub proof fn targets_are_determined(names: Seq<Vec<u8>>, a: Seq<usize>, b: Seq<usize>)
    requires
        are_targets(names, a),
        are_targets(names, b),
    ensures
        a == b,
{
    lemma_in_order_determined(names, a, b);
}

pub(crate) proof fn lemma_in_order_determined(names: Seq<Vec<u8>>, a: Seq<usize>, b: Seq<usize>)
    requires
        in_order(names, a),
        in_order(names, b),
        forall|x: usize| #[trigger] a.contains(x) <==> b.contains(x),
    ensures
        a == b,
    decreases a.len(),
{
    if a.len() == 0 {
        if b.len() > 0 {
            assert(b.contains(b[0]));
            assert(a.contains(b[0]));
        }
    } else {
        assert(a.contains(a.last()));
        assert(b.contains(a.last()));
        assert(b.contains(b.last()));
        assert(a.contains(b.last()));
        let p = choose|p: int| 0 <= p < b.len() && b[p] == a.last();
        let q = choose|q: int| 0 <= q < a.len() && a[q] == b.last();
        if a.last() != b.last() {
            lemma_precedes_total(names, a.last() as int, b.last() as int);
            assert(precedes(names, a[q] as int, a[a.len() - 1] as int));
            assert(precedes(names, b[p] as int, b[b.len() - 1] as int));
        }
        let a1 = a.drop_last();
        let b1 = b.drop_last();
        assert forall|x: usize| #[trigger] a1.contains(x) <==> b1.contains(x) by {
            lemma_seq_contains_after_push(a1, a.last(), x);
            lemma_seq_contains_after_push(b1, b.last(), x);
            assert(a1.push(a.last()) == a);
            assert(b1.push(b.last()) == b);
            assert(a.contains(x) <==> b.contains(x));
            if a1.contains(x) && x == a.last() {
                let k = choose|k: int| 0 <= k < a1.len() && a1[k] == x;
                assert(precedes(names, a[k] as int, a[a.len() - 1] as int));
            }
            if b1.contains(x) && x == b.last() {
                let k = choose|k: int| 0 <= k < b1.len() && b1[k] == x;
                assert(precedes(names, b[k] as int, b[b.len() - 1] as int));
            }
        }
        lemma_in_order_determined(names, a1, b1);
        assert(a1.push(a.last()) == a);
        assert(b1.push(b.last()) == b);
    }
}

proof fn lemma_last_position(s: Seq<u8>, rest: Seq<u8>, b: u8)
    requires
        forall|i: int| 0 <= i < rest.len() ==> #[trigger] rest[i] != b,
    ensures
        last_position(s + rest, b) == last_position(s, b),
        s.len() > 0 && s[s.len() - 1] == b ==> last_position(s + rest, b) == s.len() - 1,
        last_position(rest, b) == -1,
    decreases rest.len(),
{
    if rest.len() == 0 {
        assert(s + rest =~= s);
    } else {
        assert(rest[rest.len() - 1] != b);
        assert((s + rest).drop_last() =~= s + rest.drop_last());
        lemma_last_position(s, rest.drop_last(), b);
    }
}

proof fn lemma_plain_name(folder: Seq<u8>, name: Seq<u8>)
    requires
        folder.len() == 0 || folder[folder.len() - 1] == 0x2f,
        forall|i: int| 0 <= i < name.len() ==> #[trigger] name[i] != 0x2f,
        name.len() > 0,
        name != seq![0x2eu8],
        name != seq![0x2eu8, 0x2eu8],
    ensures
        file_name(folder + name) == Some(name),
{
    lemma_last_position(folder, name, SEPARATOR);
    if folder.len() == 0 {
        assert(last_position(folder, SEPARATOR) == -1);
    }
    assert((folder + name).skip(folder.len() as int) =~= name);
}

/// A name without a dot is neither a photo nor a video, and a separator or a dot
/// behind a path does not matter.
pub proof fn names_without_extension_are_left_out(folder: Seq<u8>, name: Seq<u8>, path: Seq<u8>)
    requires
        folder.len() == 0 || folder[folder.len() - 1] == 0x2f,
        name.len() > 0,
        forall|i: int| 0 <= i < name.len() ==> #[trigger] name[i] != 0x2f && name[i] != 0x2e,
    ensures
        !is_jpeg(folder + name) && !is_mov(folder + name),
        is_jpeg(path + seq![0x2fu8]) == is_jpeg(path),
        is_mov(path + seq![0x2fu8]) == is_mov(path),
        is_jpeg(path + seq![0x2fu8, 0x2eu8]) == is_jpeg(path),
        is_mov(path + seq![0x2fu8, 0x2eu8]) == is_mov(path),
{
    assert(name[0] != 0x2e);
    lemma_plain_name(folder, name);
    lemma_last_position(Seq::empty(), name, DOT);
    let slash = seq![0x2fu8];
    let none = Seq::<u8>::empty();
    let dot = seq![0x2eu8];
    lemma_last_position(path + slash, none, SEPARATOR);
    assert((path + slash) + none =~= path + slash);
    assert((path + slash).take(path.len() as int) =~= path);
    assert((path + slash).skip(path.len() as int + 1) =~= none);
    lemma_last_position(path + slash, dot, SEPARATOR);
    let both = path + seq![0x2fu8, 0x2eu8];
    assert((path + slash) + dot =~= both);
    assert(both.take(path.len() as int) =~= path);
    assert(both.skip(path.len() as int + 1) =~= dot);
}

/// Whether a file is a photo or a video goes by what stands behind the last dot
/// of its name, in any case: `jpg`, `jpeg` or `mov`. Folder and stem do not matter,
/// but there must be a stem.
pub proof fn the_extension_decides(folder: Seq<u8>, stem: Seq<u8>, e: Seq<u8>)
    requires
        folder.len() == 0 || folder[folder.len() - 1] == 0x2f,
        forall|i: int| 0 <= i < stem.len() ==> #[trigger] stem[i] != 0x2f,
        forall|i: int| 0 <= i < e.len() ==> #[trigger] e[i] != 0x2f && e[i] != 0x2e,
        stem.len() > 0 || e.len() > 0,
    ensures
        is_jpeg(folder + stem + seq![0x2eu8] + e) <==> stem.len() > 0 && ((e.len() == 3 && (e[0]
            == 0x6a || e[0] == 0x4a) && (e[1] == 0x70 || e[1] == 0x50) && (e[2] == 0x67 || e[2]
            == 0x47)) || (e.len() == 4 && (e[0] == 0x6a || e[0] == 0x4a) && (e[1] == 0x70 || e[1]
            == 0x50) && (e[2] == 0x65 || e[2] == 0x45) && (e[3] == 0x67 || e[3] == 0x47))),
        is_mov(folder + stem + seq![0x2eu8] + e) <==> stem.len() > 0 && e.len() == 3 && (e[0]
            == 0x6d || e[0] == 0x4d) && (e[1] == 0x6f || e[1] == 0x4f) && (e[2] == 0x76 || e[2]
            == 0x56),
{
    let dot = seq![0x2eu8];
    let name = stem + dot + e;
    let path = folder + stem + dot + e;
    assert(path =~= folder + name);
    let jpg = seq!['j' as u8, 'p' as u8, 'g' as u8];
    let jpeg = seq!['j' as u8, 'p' as u8, 'e' as u8, 'g' as u8];
    let mov = seq!['m' as u8, 'o' as u8, 'v' as u8];
    lemma_spelled(e, jpg);
    lemma_spelled(e, jpeg);
    lemma_spelled(e, mov);
    assert forall|i: int| 0 <= i < name.len() implies #[trigger] name[i] != 0x2f by {
        if i < stem.len() {
            assert(name[i] == stem[i]);
        } else if i > stem.len() {
            assert(name[i] == e[i - stem.len() - 1]);
        }
    }
    if name == seq![0x2eu8, 0x2eu8] {
        assert(e.len() == 0) by {
            if e.len() > 0 {
                assert(name[name.len() - 1] == e[e.len() - 1]);
            }
        }
        lemma_last_position(folder, name, SEPARATOR);
        assert(path.skip(folder.len() as int) =~= name);
        assert(name[1] == 0x2e);
        assert(name != seq![DOT]) by {
            assert(name.len() == 2);
        }
        assert(file_name(path) is None);
    } else {
        assert(name.len() >= 2);
        lemma_plain_name(folder, name);
        lemma_last_position(stem + dot, e, DOT);
        assert(name.skip(stem.len() as int + 1) =~= e);
    }
}

proof fn lemma_spelled(e: Seq<u8>, word: Seq<u8>)
    requires
        forall|i: int| 0 <= i < word.len() ==> 0x61 <= #[trigger] word[i] <= 0x7a,
    ensures
        same_ignoring_case(e, word) <==> e.len() == word.len() && forall|i: int|
            0 <= i < e.len() ==> #[trigger] e[i] == word[i] || e[i] == word[i] - 32,
{
    let low = e.map_values(|b: u8| byte_lower(b));
    let other = word.map_values(|b: u8| byte_lower(b));
    assert forall|i: int| 0 <= i < word.len() implies #[trigger] other[i] == word[i] by {
        assert(0x61 <= word[i] <= 0x7a);
    }
    if same_ignoring_case(e, word) {
        assert(low.len() == other.len());
        assert forall|i: int| 0 <= i < e.len() implies #[trigger] e[i] == word[i] || e[i]
            == word[i] - 32 by {
            assert(low[i] == other[i]);
            assert(0x61 <= word[i] <= 0x7a);
        }
    }
    if e.len() == word.len() && forall|i: int|
        0 <= i < e.len() ==> #[trigger] e[i] == word[i] || e[i] == word[i] - 32 {
        assert forall|i: int| 0 <= i < low.len() implies #[trigger] low[i] == other[i] by {
            assert(e[i] == word[i] || e[i] == word[i] - 32);
            assert(0x61 <= word[i] <= 0x7a);
        }
        assert(low =~= other);
    }
}

proof fn lemma_bytes_differ_first(a: Seq<u8>, b: Seq<u8>)
    ensures
        bytes_le(a, b) <==> a.is_prefix_of(b) || exists|i: int|
            0 <= i < a.len() && i < b.len() && #[trigger] a[i] < b[i] && a.take(i) == b.take(i),
    decreases a.len(),
{
    if a.len() > 0 && b.len() > 0 {
        let a1 = a.drop_first();
        let b1 = b.drop_first();
        lemma_bytes_differ_first(a1, b1);
        if a[0] == b[0] {
            assert(a.is_prefix_of(b) <==> a1.is_prefix_of(b1)) by {
                if a.is_prefix_of(b) {
                    assert(a1 =~= b1.take(a1.len() as int)) by {
                        assert forall|i: int| 0 <= i < a1.len() implies a1[i] == b1[i] by {
                            assert(a[i + 1] == b.take(a.len() as int)[i + 1]);
                        }
                    }
                }
                if a1.is_prefix_of(b1) {
                    assert(a =~= b.take(a.len() as int)) by {
                        assert forall|i: int| 0 <= i < a.len() implies a[i] == b[i] by {
                            if i > 0 {
                                assert(a1[i - 1] == b1.take(a1.len() as int)[i - 1]);
                            }
                        }
                    }
                }
            }
            if exists|i: int|
                0 <= i < a1.len() && i < b1.len() && #[trigger] a1[i] < b1[i] && a1.take(i)
                    == b1.take(i) {
                let i = choose|i: int|
                    0 <= i < a1.len() && i < b1.len() && #[trigger] a1[i] < b1[i] && a1.take(i)
                        == b1.take(i);
                assert(a[i + 1] < b[i + 1]);
                assert(a.take(i + 1) =~= seq![a[0]] + a1.take(i));
                assert(b.take(i + 1) =~= seq![b[0]] + b1.take(i));
            }
            if exists|i: int|
                0 <= i < a.len() && i < b.len() && #[trigger] a[i] < b[i] && a.take(i) == b.take(
                    i,
                ) {
                let i = choose|i: int|
                    0 <= i < a.len() && i < b.len() && #[trigger] a[i] < b[i] && a.take(i)
                        == b.take(i);
                assert(a1[i - 1] < b1[i - 1]);
                assert(a1.take(i - 1) =~= a.take(i).drop_first());
                assert(b1.take(i - 1) =~= b.take(i).drop_first());
            }
        } else {
            if a.is_prefix_of(b) {
                assert(a[0] == b.take(a.len() as int)[0]);
            }
            if a[0] < b[0] {
                assert(a.take(0) =~= b.take(0));
            }
            if exists|i: int|
                0 <= i < a.len() && i < b.len() && #[trigger] a[i] < b[i] && a.take(i) == b.take(
                    i,
                ) {
                let i = choose|i: int|
                    0 <= i < a.len() && i < b.len() && #[trigger] a[i] < b[i] && a.take(i)
                        == b.take(i);
                if i > 0 {
                    assert(a.take(i)[0] == b.take(i)[0]);
                }
            }
        }
    } else if a.len() == 0 {
        assert(a =~= b.take(0));
    }
}

pub(crate) proof fn lemma_names_in_order(names: Seq<Vec<u8>>, first: int, second: int)
    requires
        precedes(names, first, second),
    ensures
        names[first]@ == names[second]@ ==> first < second,
        names[first]@.is_prefix_of(names[second]@) || exists|i: int|
            0 <= i < names[first]@.len() && i < names[second]@.len() && #[trigger] names[first]@[i]
                < names[second]@[i] && names[first]@.take(i) == names[second]@.take(i),
{
    lemma_bytes_differ_first(names[first]@, names[second]@);
    if names[first]@ == names[second]@ {
        assert(names[first]@ =~= names[second]@.take(names[first]@.len() as int));
    }
}

/// The files of a folder are tagged in the order of their names, byte by byte: of
/// two of them the first one's name starts the other's, or has the smaller byte
/// where the two first differ. Files with the same name keep their order, and none
/// is tagged twice.
pub proof fn targets_come_in_the_order_of_names(
    names: Seq<Vec<u8>>,
    ids: Seq<usize>,
    a: int,
    b: int,
)
    requires
        are_targets(names, ids),
        0 <= a < b < ids.len(),
    ensures
        ids[a] < names.len() && ids[b] < names.len() && ids[a] != ids[b],
        names[ids[a] as int]@ == names[ids[b] as int]@ ==> ids[a] < ids[b],
        names[ids[a] as int]@.is_prefix_of(names[ids[b] as int]@) || exists|i: int|
            0 <= i < names[ids[a] as int]@.len() && i < names[ids[b] as int]@.len()
                && #[trigger] names[ids[a] as int]@[i] < names[ids[b] as int]@[i]
                && names[ids[a] as int]@.take(i) == names[ids[b] as int]@.take(i),
{
    assert(precedes(names, ids[a] as int, ids[b] as int));
    lemma_names_in_order(names, ids[a] as int, ids[b] as int);
}

/// A file is among those that are tagged exactly if it is a photo or a video. It
/// is then tagged as a photo exactly if it is one.
pub proof fn photos_and_videos_are_told_apart(
    names: Seq<Vec<u8>>,
    targets: Seq<usize>,
    photos: Seq<usize>,
    videos: Seq<usize>,
    x: usize,
    a: int,
    b: int,
)
    requires
        x < names.len(),
    ensures
        is_supported(names[x as int]@) <==> is_jpeg(names[x as int]@) || is_mov(names[x as int]@),
        are_targets(names, targets) ==> (targets.contains(x) <==> is_jpeg(names[x as int]@)
            || is_mov(names[x as int]@)),
        are_photos(names, photos, true) ==> (photos.contains(x) <==> is_jpeg(names[x as int]@)),
        are_photos(names, videos, false) ==> (videos.contains(x) <==> !is_jpeg(
            names[x as int]@,
        )),
        are_photos(names, photos, true) && 0 <= a < b < photos.len() ==> photos[a] < photos[b]
            < names.len(),
        are_photos(names, videos, false) && 0 <= a < b < videos.len() ==> videos[a] < videos[b]
            < names.len(),
{
    if are_photos(names, photos, true) && 0 <= a < b < photos.len() {
        assert(photos.contains(photos[b]));
    }
    if are_photos(names, videos, false) && 0 <= a < b < videos.len() {
        assert(videos.contains(videos[b]));
    }
}

} // verus!
