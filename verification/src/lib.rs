use vstd::prelude::*;

pub mod aabb;
pub mod bvh;
pub mod color;
pub mod hittable;
pub mod interval;
pub mod material;
pub mod progress_tracker;
pub mod ray;
pub mod ray_tracer;
pub mod texture;
pub mod util;
pub mod vec;

verus! {

use crate::vec::{Scalar, Vector};

/// The text cut at every slash: the pieces between the separators, in
/// order, with empty pieces kept.
pub open spec fn spec_split_slashes(s: Seq<char>) -> Seq<Seq<char>>
    decreases s.len(),
{
    match s.index_of_first('/') {
        None => seq![s],
        Some(i) => if 0 <= i < s.len() {
            seq![s.take(i)] + spec_split_slashes(s.skip(i + 1))
        } else {
            seq![s]
        },
    }
}

/// Splitting text whose first separator stands at `k` yields the piece
/// before `k` followed by the split of what comes after it.
proof fn lemma_split_step(s: Seq<char>, k: int)
    requires
        0 <= k < s.len(),
        s[k] == '/',
        forall|j: int| 0 <= j < k ==> s[j] != '/',
    ensures
        spec_split_slashes(s) == seq![s.take(k)] + spec_split_slashes(s.skip(k + 1)),
{
    s.index_of_first_ensures('/');
    assert(s.contains('/'));
    let i = s.index_of_first('/')->Some_0;
    assert(s[i] == '/');
    assert(i == k) by {
        if i < k {
            assert(s[i] != '/');
        }
        if k < i {
            assert(s[k] != '/');
        }
    }
}

/// Splitting text without a separator yields the text alone.
proof fn lemma_split_whole(s: Seq<char>)
    requires
        forall|j: int| 0 <= j < s.len() ==> s[j] != '/',
    ensures
        spec_split_slashes(s) == seq![s],
{
    s.index_of_first_ensures('/');
    if s.contains('/') {
        let i = choose|i: int| 0 <= i < s.len() && s[i] == '/';
        assert(s[i] != '/');
    }
}

/// Whether slash-separated text parses into exactly `n` coordinates.
pub open spec fn spec_parses_to_n<T: Scalar>(s: Seq<char>, n: int) -> bool {
    let segs = spec_split_slashes(s);
    segs.len() == n && (forall|i: int|
        0 <= i < segs.len() ==> T::sp_parse(#[trigger] segs[i]) is Some)
}

/// Read a vector from slash-separated text, e.g. three coordinates from
/// `"13.0/2.0/3.0"`: the text is cut at every slash, each piece is parsed
/// as a coordinate, and the pieces must number exactly the dimension.
pub fn parse_vector<T: Scalar, const N: usize>(string: &str) -> (r: Option<Vector<T, N>>)
    ensures
        r is Some <==> spec_parses_to_n::<T>(string@, N as int),
        r matches Some(v) ==> forall|i: int|
            0 <= i < N ==> (match T::sp_parse(#[trigger] spec_split_slashes(string@)[i]) {
                Some(x) => v.data@[i] == x,
                None => false,
            }),
{
    let ghost segs = spec_split_slashes(string@);
    let total = string.unicode_len();
    let mut values: Vec<T> = Vec::new();
    let ghost mut done: Seq<Seq<char>> = Seq::empty();
    let mut start: usize = 0;
    let mut pos: usize = 0;

    proof {
        assert(string@.skip(0) =~= string@);
        assert(Seq::empty() + spec_split_slashes(string@.skip(0)) =~= spec_split_slashes(
            string@,
        ));
    }

    while pos < total
        invariant
            total == string@.len(),
            0 <= start <= pos <= total,
            values@.len() == done.len(),
            segs == spec_split_slashes(string@),
            segs =~= done + spec_split_slashes(string@.skip(start as int)),
            forall|j: int| start <= j < pos ==> string@[j] != '/',
            forall|i: int|
                0 <= i < done.len() ==> T::sp_parse(#[trigger] done[i]) == Some(values@[i]),
        decreases total - pos,
    {
        let c = string.get_char(pos);
        if c == '/' {
            let seg = string.substring_char(start, pos);
            proof {
                let rest = string@.skip(start as int);
                lemma_split_step(rest, pos - start);
                assert(rest.take(pos - start) =~= string@.subrange(start as int, pos as int));
                assert(rest.skip(pos - start + 1) =~= string@.skip(pos + 1));
                assert(segs =~= done.push(seg@) + spec_split_slashes(string@.skip(pos + 1)));
                assert(segs[done.len() as int] == seg@);
            }
            match T::el_parse(seg) {
                Some(x) => {
                    values.push(x);
                    proof {
                        done = done.push(seg@);
                    }
                    start = pos + 1;
                },
                None => {
                    proof {
                        assert(spec_split_slashes(string@.skip(pos + 1)).len() >= 1);
                        assert(0 <= done.len() < segs.len());
                        assert(T::sp_parse(segs[done.len() as int]) is None);
                    }
                    return None;
                },
            }
        }
        pos = pos + 1;
    }

    let seg = string.substring_char(start, total);
    proof {
        let rest = string@.skip(start as int);
        lemma_split_whole(rest);
        assert(rest =~= string@.subrange(start as int, total as int));
        assert(segs =~= done.push(seg@));
        assert(segs[done.len() as int] == seg@);
    }
    let last = T::el_parse(seg);
    match last {
        Some(x) => {
            values.push(x);
            proof {
                done = done.push(seg@);
                assert(segs =~= done);
            }
        },
        None => {
            proof {
                assert(T::sp_parse(segs[done.len() as int]) is None);
            }
            return None;
        },
    }

    if values.len() != N {
        return None;
    }

    let mut data: [T; N] = vstd::array::array_fill_for_copy_types(T::el_zero());
    let mut i: usize = 0;
    while i < N
        invariant
            values@.len() == N,
            data@.len() == N,
            0 <= i <= N,
            values@.len() == done.len(),
            segs == spec_split_slashes(string@),
            segs =~= done,
            forall|k: int|
                0 <= k < done.len() ==> T::sp_parse(#[trigger] done[k]) == Some(values@[k]),
            forall|j: int| 0 <= j < i ==> #[trigger] data@[j] == values@[j],
        decreases N - i,
    {
        data[i] = values[i];
        i = i + 1;
    }
    let v = Vector::new(data);
    Some(v)
}

} // verus!
