//! Discovery behind an authorisation: which of the candidates of a transport
//! are sealed, and in what order.

use crate::text::same;
use vstd::prelude::*;

verus! {

/// An adapter over a transport.
pub struct AuthorizedWebAdapter<T> {
    pub transport: T,
}

impl<T> AuthorizedWebAdapter<T> {
    pub fn new(transport: T) -> (r: Self)
        ensures
            r.transport == transport,
    {
        AuthorizedWebAdapter { transport }
    }
}

/// Which candidates are sealed.
#[derive(Debug, PartialEq, Eq)]
pub struct SealingPlan {
    /// The places of the candidates, in the order of their sealing.
    pub places: Vec<usize>,
    /// The discovery ends with a refusal: a candidate has no public address.
    pub refused: bool,
}

pub open spec fn addresses(urls: Seq<Option<String>>) -> Seq<Option<Seq<char>>> {
    Seq::new(
        urls.len(),
        |i: int|
            match urls[i] {
                Some(url) => Some(url@),
                None => None,
            },
    )
}

/// The address stands before this place.
pub open spec fn repeats(urls: Seq<Option<Seq<char>>>, i: int) -> bool {
    exists|j: int| 0 <= j < i && #[trigger] urls[j] == urls[i]
}

/// The places of the first candidate of each address, among the first ones.
pub open spec fn first_places(urls: Seq<Option<Seq<char>>>, n: int) -> Seq<int>
    decreases n,
{
    if n <= 0 {
        Seq::empty()
    } else {
        let before = first_places(urls, n - 1);
        if repeats(urls, n - 1) {
            before
        } else {
            before.push(n - 1)
        }
    }
}

/// How many candidates stand before the first one without an address.
pub open spec fn public_count(urls: Seq<Option<Seq<char>>>, i: int) -> int
    decreases urls.len() - i,
{
    if i < 0 || i >= urls.len() || urls[i] is None {
        i
    } else {
        public_count(urls, i + 1)
    }
}

fn seen(urls: &Vec<Option<String>>, i: usize) -> (r: bool)
    requires
        i < urls@.len(),
        addresses(urls@)[i as int] is Some,
    ensures
        r == repeats(addresses(urls@), i as int),
{
    let mut j: usize = 0;
    while j < i
        invariant
            i < urls@.len(),
            j <= i,
            addresses(urls@)[i as int] is Some,
            forall|k: int| 0 <= k < j ==> #[trigger] addresses(urls@)[k] != addresses(
                urls@,
            )[i as int],
        decreases i - j,
    {
        match (&urls[j], &urls[i]) {
            (Some(a), Some(b)) => {
                if same(a.as_str(), b.as_str()) {
                    proof {
                        assert(addresses(urls@)[j as int] == addresses(urls@)[i as int]);
                    }
                    return true;
                }
            },
            _ => {},
        }
        j = j + 1;
    }
    false
}

/// The candidates that are sealed: the first of each address, up to the first
/// candidate without one.
pub fn plan_sealing(urls: &Vec<Option<String>>) -> (r: SealingPlan)
    ensures
        ({
            let all = addresses(urls@);
            let count = public_count(all, 0);
            &&& Seq::new(r.places@.len(), |i: int| r.places@[i] as int) == first_places(all, count)
            &&& r.refused == (count < all.len())
        }),
{
    let mut places: Vec<usize> = Vec::new();
    let ghost all = addresses(urls@);
    let mut i: usize = 0;
    proof {
        assert(Seq::new(places@.len(), |k: int| places@[k] as int) =~= first_places(all, 0));
    }
    while i < urls.len()
        invariant
            i <= urls@.len(),
            all == addresses(urls@),
            public_count(all, 0) == public_count(all, i as int),
            Seq::new(places@.len(), |k: int| places@[k] as int) == first_places(all, i as int),
        decreases urls@.len() - i,
    {
        if urls[i].is_none() {
            return SealingPlan { places, refused: true };
        }
        if !seen(urls, i) {
            let ghost held = places@;
            places.push(i);
            proof {
                assert(Seq::new(places@.len(), |k: int| places@[k] as int) =~= Seq::new(
                    held.len(),
                    |k: int| held[k] as int,
                ).push(i as int));
            }
        }
        i = i + 1;
    }
    SealingPlan { places, refused: false }
}

/// The position that a candidate is sealed with: how many were sealed before
/// it, in one byte.
pub fn seal_position(sealed: usize) -> (r: u8)
    ensures
        r == sealed % 256,
{
    (sealed % 256) as u8
}

proof fn lemma_first_places(urls: Seq<Option<Seq<char>>>, n: int, q: int)
    requires
        0 <= q < first_places(urls, n).len(),
    ensures
        0 <= first_places(urls, n)[q] < n,
        !repeats(urls, first_places(urls, n)[q]),
    decreases n,
{
    if n > 0 {
        let before = first_places(urls, n - 1);
        if q < before.len() {
            lemma_first_places(urls, n - 1, q);
        }
    }
}

proof fn lemma_first_places_ascend(urls: Seq<Option<Seq<char>>>, n: int, p: int, q: int)
    requires
        0 <= p < q < first_places(urls, n).len(),
    ensures
        first_places(urls, n)[p] < first_places(urls, n)[q],
    decreases n,
{
    if n > 0 {
        let before = first_places(urls, n - 1);
        if q < before.len() {
            lemma_first_places_ascend(urls, n - 1, p, q);
        } else {
            lemma_first_places(urls, n - 1, p);
        }
    }
}

/// No address is sealed twice.
pub proof fn addresses_are_sealed_once(urls: Seq<Option<Seq<char>>>, n: int, p: int, q: int)
    requires
        0 <= n <= urls.len(),
        0 <= p < q < first_places(urls, n).len(),
    ensures
        urls[first_places(urls, n)[p]] != urls[first_places(urls, n)[q]],
{
    lemma_first_places(urls, n, p);
    lemma_first_places(urls, n, q);
    lemma_first_places_ascend(urls, n, p, q);
    let a = first_places(urls, n)[p];
    let b = first_places(urls, n)[q];
    if urls[a] == urls[b] {
        assert(repeats(urls, b));
    }
}

} // verus!
