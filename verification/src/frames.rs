//! The frames by which a video is tagged.
use vstd::prelude::*;

use crate::media::{has_jpeg_extension, sort_by_name};
use crate::numbers::decimal_text;
use crate::tools::{push_file, push_flag, Arg};

verus! {

use vstd::seq_lib::lemma_seq_contains_after_push;
use crate::media::{
    in_order, is_jpeg, lemma_in_order_determined, lemma_names_in_order, lemma_precedes_total,
    lemma_precedes_transitive, precedes,
};
use crate::numbers::decimal;
use crate::tools::{command_line, ArgText};

/// The place of the `i`th of `k` items that are spread evenly over `n`. A single
/// item is the first one.
pub open spec fn even_place(i: int, k: int, n: int) -> int {
    if k <= 1 {
        0
    } else {
        i * (n - 1) / (k - 1)
    }
}

proof fn lemma_even_place(i: int, k: int, n: int)
    requires
        0 <= i < k,
        2 <= k < n,
    ensures
        0 <= even_place(i, k, n) < n,
        0 <= i * (n - 1) <= (k - 1) * (n - 1),
{
    assert(0 <= i * (n - 1) <= (k - 1) * (n - 1)) by (nonlinear_arith)
        requires
            0 <= i < k,
            2 <= k < n,
    ;
    assert(0 <= i * (n - 1) / (k - 1) <= n - 1) by (nonlinear_arith)
        requires
            0 <= i * (n - 1) <= (k - 1) * (n - 1),
            2 <= k,
            k < n,
    ;
}

/// The place of the `i`th of the up to `k` items that are picked from `n`.
pub open spec fn picked_place(i: int, k: int, n: int) -> int {
    if n <= k {
        i
    } else {
        even_place(i, k, n)
    }
}

pub open spec fn smaller(a: int, b: int) -> int {
    if a < b {
        a
    } else {
        b
    }
}

/// Picks up to `k` items, spread evenly over the list, its first and last among
/// them; where only one is asked for, the first.
pub fn pick_evenly<T: Clone>(items: &[T], k: usize) -> (r: Vec<T>)
    ensures
        r@.len() == smaller(k as int, items@.len() as int),
        forall|i: int|
            0 <= i < r@.len() ==> cloned::<T>(
                items@[picked_place(i, k as int, items@.len() as int)],
                #[trigger] r@[i],
            ),
{
    let mut picked: Vec<T> = Vec::new();
    let n: usize = items.len();
    if n <= k {
        for i in 0..n
            invariant
                n == items@.len(),
                picked.len() == i,
                forall|j: int| 0 <= j < i ==> cloned::<T>(items@[j], #[trigger] picked@[j]),
        {
            picked.push(items[i].clone());
        }
        return picked;
    }
    if k == 1 {
        picked.push(items[0].clone());
        return picked;
    }
    for i in 0..k
        invariant
            k != 1,
            k < n,
            n == items@.len(),
            picked.len() == i,
            forall|j: int|
                0 <= j < i ==> cloned::<T>(
                    items@[even_place(j, k as int, n as int)],
                    #[trigger] picked@[j],
                ),
    {
        proof {
            lemma_even_place(i as int, k as int, n as int);
            assert((k - 1) * (n - 1) <= u128::MAX) by (nonlinear_arith)
                requires
                    2 <= k < n <= u64::MAX,
            ;
        }
        let place: usize = (i as u128 * (n - 1) as u128 / (k - 1) as u128) as usize;
        picked.push(items[place].clone());
    }
    picked
}

/// Picked items keep their order, none is picked twice, and the first and the
/// last of the list are among them.
pub proof fn picked_places_are_spread(k: int, n: int, i: int, j: int)
    requires
        2 <= k,
        2 <= n,
        0 <= i < j < smaller(k, n),
    ensures
        0 <= picked_place(i, k, n) < picked_place(j, k, n) < n,
        picked_place(0, k, n) == 0,
        picked_place(smaller(k, n) - 1, k, n) == n - 1,
{
    if k < n {
        lemma_even_place(i, k, n);
        lemma_even_place(j, k, n);
        assert(i * (n - 1) / (k - 1) < j * (n - 1) / (k - 1)) by (nonlinear_arith)
            requires
                2 <= k < n,
                0 <= i < j,
        {
            assert(j * (n - 1) >= i * (n - 1) + (k - 1));
            assert((i * (n - 1) + (k - 1)) / (k - 1) == i * (n - 1) / (k - 1) + 1);
        }
        assert(0 * (n - 1) / (k - 1) == 0) by (nonlinear_arith)
            requires
                2 <= k,
        ;
        assert((k - 1) * (n - 1) / (k - 1) == n - 1) by (nonlinear_arith)
            requires
                2 <= k,
        ;
    }
}

/// Picked items are spread evenly: the gaps between neighbours differ by at most
/// one.
pub proof fn picked_gaps_are_even(k: int, n: int, i: int, j: int)
    requires
        2 <= k < n,
        0 <= i < k - 1,
        0 <= j < k - 1,
    ensures
        -1 <= (picked_place(i + 1, k, n) - picked_place(i, k, n)) - (picked_place(j + 1, k, n)
            - picked_place(j, k, n)) <= 1,
{
    lemma_gap(i, k, n);
    lemma_gap(j, k, n);
}

proof fn lemma_gap(i: int, k: int, n: int)
    requires
        2 <= k < n,
        0 <= i < k - 1,
    ensures
        (n - 1) / (k - 1) <= even_place(i + 1, k, n) - even_place(i, k, n) <= (n - 1) / (k - 1)
            + 1,
{
    let d = k - 1;
    let a = i * (n - 1);
    let b = n - 1;
    assert((i + 1) * (n - 1) == a + b) by (nonlinear_arith)
        requires
            a == i * (n - 1),
            b == n - 1,
    ;
    assert(a / d + b / d <= (a + b) / d <= a / d + b / d + 1) by (nonlinear_arith)
        requires
            d >= 1,
            b >= 0,
    ;
}

/// The filter by which frames are sampled: `fps` per second, scaled down to at
/// most `max_dim` wide, the ratio kept and the height even.
pub open spec fn sampling_filter(fps: Seq<char>, max_dim: u32) -> Seq<char> {
    "fps="@ + fps + ",scale='min("@ + decimal(max_dim as nat) + ",iw)':-2"@
}

/// The command line by which frames are extracted.
pub open spec fn extraction_line(fps: Seq<char>, max_dim: u32) -> Seq<ArgText> {
    seq![
        ArgText::Text("-hide_banner"@),
        ArgText::Text("-loglevel"@),
        ArgText::Text("error"@),
        ArgText::Text("-i"@),
        ArgText::File,
        ArgText::Text("-vf"@),
        ArgText::Text(sampling_filter(fps, max_dim)),
        ArgText::Text("-q:v"@),
        ArgText::Text("3"@),
        ArgText::Frames,
    ]
}

/// Builds the command line by which frames are extracted.
pub fn extraction_args(fps: &str, max_dim: u32) -> (r: Vec<Arg>)
    ensures
        command_line(r@) == extraction_line(fps@, max_dim),
{
    let mut filter = "fps=".to_owned();
    filter.append(fps);
    filter.append(",scale='min(");
    filter.append(decimal_text(max_dim as u64).as_str());
    filter.append(",iw)':-2");
    let mut args: Vec<Arg> = Vec::new();
    push_flag(&mut args, "-hide_banner");
    push_flag(&mut args, "-loglevel");
    push_flag(&mut args, "error");
    push_flag(&mut args, "-i");
    push_file(&mut args);
    push_flag(&mut args, "-vf");
    push_flag(&mut args, filter.as_str());
    push_flag(&mut args, "-q:v");
    push_flag(&mut args, "3");
    let ghost before = command_line(args@);
    args.push(Arg::Frames);
    assert(command_line(args@) =~= before.push(ArgText::Frames));
    assert(command_line(args@) =~= extraction_line(fps@, max_dim));
    args
}

/// `ids` are the places of all frames among `names`, in the order of the names.
pub open spec fn are_frames(names: Seq<Vec<u8>>, ids: Seq<usize>) -> bool {
    &&& in_order(names, ids)
    &&& forall|x: usize| #[trigger]
        ids.contains(x) <==> x < names.len() && is_jpeg(names[x as int]@)
}

/// The places of all frames among `names`, in the order of the names.
pub open spec fn all_frames(names: Seq<Vec<u8>>) -> Seq<usize> {
    choose|ids: Seq<usize>| are_frames(names, ids)
}

/// Up to `max_frames` of the frames among `names`, spread evenly over them in the
/// order of the names.
pub open spec fn chosen_frames(names: Seq<Vec<u8>>, max_frames: int) -> Seq<usize> {
    let all = all_frames(names);
    Seq::new(
        smaller(max_frames, all.len() as int) as nat,
        |i: int| all[picked_place(i, max_frames, all.len() as int)],
    )
}

proof fn lemma_insert(names: Seq<Vec<u8>>, ids: Seq<usize>, y: usize) -> (r: Seq<usize>)
    requires
        in_order(names, ids),
        y < names.len(),
        !ids.contains(y),
    ensures
        in_order(names, r),
        forall|x: usize| #[trigger] r.contains(x) <==> ids.contains(x) || x == y,
    decreases ids.len(),
{
    if ids.len() == 0 || precedes(names, ids.last() as int, y as int) {
        let r = ids.push(y);
        assert forall|x: usize| #[trigger] r.contains(x) <==> ids.contains(x) || x == y by {
            lemma_seq_contains_after_push(ids, y, x);
        }
        assert forall|a: int, b: int| 0 <= a < b < r.len() implies precedes(
            names,
            #[trigger] r[a] as int,
            #[trigger] r[b] as int,
        ) by {
            if b == ids.len() && a < ids.len() - 1 {
                assert(precedes(names, ids[a] as int, ids[ids.len() - 1] as int));
                lemma_precedes_transitive(names, r[a] as int, ids.last() as int, y as int);
            }
        }
        r
    } else {
        let rest = ids.drop_last();
        let last = ids.last();
        assert(rest.push(last) =~= ids);
        assert forall|x: usize| #[trigger] ids.contains(x) <==> rest.contains(x) || x == last by {
            lemma_seq_contains_after_push(rest, last, x);
        }
        assert(last != y) by {
            assert(ids.contains(last));
        }
        lemma_precedes_total(names, last as int, y as int);
        let inner = lemma_insert(names, rest, y);
        let r = inner.push(last);
        assert forall|x: usize| #[trigger] r.contains(x) <==> ids.contains(x) || x == y by {
            lemma_seq_contains_after_push(inner, last, x);
            assert(ids.contains(x) <==> rest.contains(x) || x == last);
        }
        assert forall|a: int, b: int| 0 <= a < b < r.len() implies precedes(
            names,
            #[trigger] r[a] as int,
            #[trigger] r[b] as int,
        ) by {
            if b == inner.len() {
                assert(inner.contains(inner[a]));
                if inner[a] != y {
                    let k = choose|k: int| 0 <= k < rest.len() && rest[k] == inner[a];
                    assert(precedes(names, ids[k] as int, ids[ids.len() - 1] as int));
                }
            }
        }
        r
    }
}

proof fn lemma_frames_exist(names: Seq<Vec<u8>>, n: int) -> (r: Seq<usize>)
    requires
        0 <= n <= names.len() <= usize::MAX,
    ensures
        in_order(names, r),
        forall|x: usize| #[trigger] r.contains(x) <==> x < n && is_jpeg(names[x as int]@),
    decreases n,
{
    if n == 0 {
        Seq::empty()
    } else {
        let before = lemma_frames_exist(names, n - 1);
        if is_jpeg(names[n - 1]@) {
            let r = lemma_insert(names, before, (n - 1) as usize);
            assert forall|x: usize| #[trigger] r.contains(x) <==> x < n && is_jpeg(
                names[x as int]@,
            ) by {
                assert(before.contains(x) <==> x < n - 1 && is_jpeg(names[x as int]@));
            }
            r
        } else {
            assert forall|x: usize| #[trigger] before.contains(x) <==> x < n && is_jpeg(
                names[x as int]@,
            ) by {}
            before
        }
    }
}

/// Every listing has its frames in one order, and in no other.
pub proof fn frames_are_determined(names: Seq<Vec<u8>>, ids: Seq<usize>)
    requires
        names.len() <= usize::MAX,
    ensures
        are_frames(names, all_frames(names)),
        are_frames(names, ids) ==> ids == all_frames(names),
{
    let witness = lemma_frames_exist(names, names.len() as int);
    assert(are_frames(names, witness));
    if are_frames(names, ids) {
        let all = all_frames(names);
        assert forall|x: usize| #[trigger] ids.contains(x) <==> all.contains(x) by {}
        lemma_in_order_determined(names, ids, all);
    }
}

pub open spec fn has_frame(names: Seq<Vec<u8>>) -> bool {
    exists|x: int| 0 <= x < names.len() && is_jpeg((#[trigger] names[x])@)
}

/// Chooses the frames that are sent, from the names of the files that were
/// extracted.
pub fn select_frames(names: &Vec<Vec<u8>>, max_frames: usize) -> (r: Result<Vec<usize>, String>)
    ensures
        has_frame(names@) ==> r is Ok && r->Ok_0@ == chosen_frames(names@, max_frames as int),
        !has_frame(names@) ==> r is Err && r->Err_0@ == "ffmpeg produced no frames"@,
{
    let mut ids: Vec<usize> = Vec::new();
    for i in 0..names.len()
        invariant
            forall|a: int, b: int|
                0 <= a < b < ids.len() ==> #[trigger] ids@[a] < #[trigger] ids@[b],
            forall|x: usize| #[trigger] ids@.contains(x) <==> x < i && is_jpeg(names@[x as int]@),
    {
        let ghost before = ids@;
        if has_jpeg_extension(names[i].as_slice()) {
            assert forall|a: int| 0 <= a < before.len() implies #[trigger] before[a] < i by {
                assert(before.contains(before[a]));
            }
            ids.push(i);
            assert forall|x: usize| #[trigger]
                ids@.contains(x) <==> x < i + 1 && is_jpeg(names@[x as int]@) by {
                lemma_seq_contains_after_push(before, i, x);
            }
        }
    }
    assert forall|a: int| 0 <= a < ids.len() implies #[trigger] ids@[a] < names.len() by {
        assert(ids@.contains(ids@[a]));
    }
    let all = sort_by_name(names, &ids);
    assert(are_frames(names@, all@));
    proof {
        frames_are_determined(names@, all@);
    }
    if all.len() == 0 {
        proof {
            if has_frame(names@) {
                let x = choose|x: int| 0 <= x < names@.len() && is_jpeg((#[trigger] names@[x])@);
                assert(all@.contains(x as usize));
            }
        }
        return Err("ffmpeg produced no frames".to_owned());
    }
    proof {
        assert(all@.contains(all@[0]));
        assert(is_jpeg(names@[all@[0] as int]@));
    }
    let chosen = pick_evenly(all.as_slice(), max_frames);
    assert forall|i: int| 0 <= i < chosen@.len() implies #[trigger] chosen@[i]
        == all@[picked_place(i, max_frames as int, all@.len() as int)] by {
        assert(cloned::<usize>(
            all@[picked_place(i, max_frames as int, all@.len() as int)],
            chosen@[i],
        ));
    }
    assert(chosen@ =~= chosen_frames(names@, max_frames as int));
    Ok(chosen)
}

/// However long a video is, no more frames are sent than the cap allows, and they
/// are sent in chronological order, none of them twice.
pub proof fn chosen_frames_keep_to_the_cap(names: Seq<Vec<u8>>, max_frames: int)
    requires
        0 <= max_frames,
        names.len() <= usize::MAX,
    ensures
        chosen_frames(names, max_frames).len() <= max_frames,
        in_order(names, chosen_frames(names, max_frames)),
        forall|i: int|
            0 <= i < chosen_frames(names, max_frames).len() ==> is_jpeg(
                names[#[trigger] chosen_frames(names, max_frames)[i] as int]@,
            ),
{
    let all = all_frames(names);
    let chosen = chosen_frames(names, max_frames);
    frames_are_determined(names, all);
    let n = all.len() as int;
    assert forall|i: int| 0 <= i < chosen.len() implies #[trigger] chosen[i] < names.len()
        && is_jpeg(names[chosen[i] as int]@) by {
        if chosen.len() >= 2 {
            if i > 0 {
                picked_places_are_spread(max_frames, n, 0, i);
            } else {
                picked_places_are_spread(max_frames, n, 0, 1);
            }
        }
        assert(0 <= picked_place(i, max_frames, n) < n);
        assert(all.contains(all[picked_place(i, max_frames, n)]));
    }
    assert forall|a: int, b: int| 0 <= a < b < chosen.len() implies precedes(
        names,
        #[trigger] chosen[a] as int,
        #[trigger] chosen[b] as int,
    ) by {
        picked_places_are_spread(max_frames, n, a, b);
    }
}

/// The exact places: of `n` items, the `i`th of `k` that are picked is the last
/// one that does not lie beyond its share of the way from the first to the last.
/// If there are no more than `k`, all are picked; a single one is the first.
pub proof fn picks_keep_to_their_share(i: int, k: int, n: int)
    requires
        0 <= i < k,
        i < n,
    ensures
        k < n && 2 <= k ==> picked_place(i, k, n) * (k - 1) <= i * (n - 1) < (picked_place(i, k, n)
            + 1) * (k - 1),
        n <= k ==> picked_place(i, k, n) == i,
        k == 1 && 1 < n ==> picked_place(i, k, n) == 0,
        smaller(k, n) <= k && smaller(k, n) <= n && (smaller(k, n) == k || smaller(k, n) == n),
{
    if k < n && 2 <= k {
        let d = k - 1;
        let a = i * (n - 1);
        assert(0 <= a) by (nonlinear_arith)
            requires
                a == i * (n - 1),
                0 <= i,
                1 < n,
        ;
        assert((a / d) * d <= a < (a / d + 1) * d) by (nonlinear_arith)
            requires
                d >= 1,
                0 <= a,
        ;
    }
}

/// The rank of a file among the frames.
pub open spec fn rank_among(all: Seq<usize>, x: usize) -> int {
    choose|p: int| 0 <= p < all.len() && all[p] == x
}

proof fn lemma_rank(names: Seq<Vec<u8>>, p: int)
    requires
        names.len() <= usize::MAX,
        0 <= p < all_frames(names).len(),
    ensures
        rank_among(all_frames(names), all_frames(names)[p]) == p,
{
    let all = all_frames(names);
    frames_are_determined(names, all);
    let q = rank_among(all, all[p]);
    assert(0 <= q < all.len() && all[q] == all[p]);
    if p < q {
        assert(precedes(names, all[p] as int, all[q] as int));
    } else if q < p {
        assert(precedes(names, all[q] as int, all[p] as int));
    }
}

/// The frames that are sent are spread over the whole video. Where there are more
/// frames than allowed, exactly as many as allowed are sent, the first and the
/// last by name among them; each has the rank that is its share of the way, and
/// so the gaps between neighbours differ by at most one. Where there are no more,
/// all are sent. If only one may be sent it is the first.
pub proof fn sent_frames_are_spread(names: Seq<Vec<u8>>, max_frames: int, i: int, j: int)
    requires
        names.len() <= usize::MAX,
        0 <= max_frames,
    ensures
        ({
            let all = all_frames(names);
            let sent = chosen_frames(names, max_frames);
            let n = all.len() as int;
            let k = max_frames;
            let rank = |m: int| rank_among(all, sent[m]);
            &&& n <= k ==> sent == all
            &&& k < n ==> sent.len() == k
            &&& 1 <= k < n ==> sent[0] == all[0]
            &&& 2 <= k < n ==> sent[k - 1] == all[n - 1]
            &&& 2 <= k < n && 0 <= i < k ==> all.contains(sent[i]) && rank(i) * (k - 1) <= i * (n
                - 1) < (rank(i) + 1) * (k - 1)
            &&& 2 <= k < n && 0 <= i < k - 1 && 0 <= j < k - 1 ==> -1 <= (rank(i + 1) - rank(i)) - (
            rank(j + 1) - rank(j)) <= 1 && rank(i) < rank(i + 1)
        }),
{
    let all = all_frames(names);
    let sent = chosen_frames(names, max_frames);
    let n = all.len() as int;
    let k = max_frames;
    if n <= k {
        assert(sent =~= all);
    } else if k == 1 {
        assert(sent[0] == all[0]);
    } else if 2 <= k {
        picked_places_are_spread(k, n, 0, 1);
        assert forall|m: int| 0 <= m < k implies 0 <= #[trigger] picked_place(m, k, n) < n
            && rank_among(all, sent[m]) == picked_place(m, k, n) by {
            if m > 0 {
                picked_places_are_spread(k, n, 0, m);
            }
            lemma_rank(names, picked_place(m, k, n));
        }
        if 0 <= i < k {
            picks_keep_to_their_share(i, k, n);
            assert(sent[i] == all[picked_place(i, k, n)]);
        }
        if 0 <= i < k - 1 && 0 <= j < k - 1 {
            picked_gaps_are_even(k, n, i, j);
            picked_places_are_spread(k, n, i, i + 1);
        }
    }
}

/// The frames of a folder are its photos, all of them and no other file, in the
/// order of their names byte by byte.
pub proof fn frames_are_the_photos_of_the_folder(
    names: Seq<Vec<u8>>,
    x: usize,
    a: int,
    b: int,
)
    requires
        names.len() <= usize::MAX,
    ensures
        all_frames(names).contains(x) <==> x < names.len() && is_jpeg(names[x as int]@),
        has_frame(names) <==> all_frames(names).len() > 0,
        0 <= a < b < all_frames(names).len() ==> ({
            let first = all_frames(names)[a] as int;
            let second = all_frames(names)[b] as int;
            &&& names[first]@ == names[second]@ ==> first < second
            &&& names[first]@.is_prefix_of(names[second]@) || exists|i: int|
                0 <= i < names[first]@.len() && i < names[second]@.len()
                    && #[trigger] names[first]@[i] < names[second]@[i] && names[first]@.take(i)
                    == names[second]@.take(i)
        }),
{
    let all = all_frames(names);
    frames_are_determined(names, all);
    if 0 <= a < b < all.len() {
        assert(precedes(names, all[a] as int, all[b] as int));
        lemma_names_in_order(names, all[a] as int, all[b] as int);
    }
    if all.len() > 0 {
        assert(all.contains(all[0]));
    }
    if has_frame(names) {
        let p = choose|p: int| 0 <= p < names.len() && is_jpeg((#[trigger] names[p])@);
        assert(all.contains(p as usize));
    }
}

/// The command line by which frames are extracted, argument by argument. The rate
/// and the greatest width stand in it as they are.
pub proof fn extraction_is_asked_for_in_full(fps: Seq<char>, max_dim: u32)
    ensures
        extraction_line(fps, max_dim).len() == 10,
        extraction_line(fps, max_dim)[3] == ArgText::Text("-i"@),
        extraction_line(fps, max_dim)[4] == ArgText::File,
        extraction_line(fps, max_dim)[5] == ArgText::Text("-vf"@),
        extraction_line(fps, max_dim)[6] == ArgText::Text(
            "fps="@ + fps + ",scale='min("@ + decimal(max_dim as nat) + ",iw)':-2"@,
        ),
        extraction_line(fps, max_dim)[9] == ArgText::Frames,
        extraction_line(fps, max_dim).take(3) == seq![
            ArgText::Text("-hide_banner"@),
            ArgText::Text("-loglevel"@),
            ArgText::Text("error"@),
        ],
        extraction_line(fps, max_dim)[7] == ArgText::Text("-q:v"@),
        extraction_line(fps, max_dim)[8] == ArgText::Text("3"@),
{
    assert(extraction_line(fps, max_dim).take(3) =~= seq![
        ArgText::Text("-hide_banner"@),
        ArgText::Text("-loglevel"@),
        ArgText::Text("error"@),
    ]);
}

} // verus!
