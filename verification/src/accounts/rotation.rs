//! Which saved account to turn to when the current one has run out.

use vstd::prelude::*;
use crate::accounts::model::{Account, RateLimitSnapshot, RateLimitWindow};

verus! {

/// How far below the best an account may be and still be chosen, in percent of its capacity.
pub const TOP_SCORE_BAND_PERCENT: u8 = 10;

/// A saved account, as far as its selection goes.
#[derive(Debug, PartialEq, Eq)]
pub struct AuthProfileSummary {
    pub name: String,
    pub account: Option<Account>,
    pub rate_limits: Option<RateLimitSnapshot>,
    pub active: bool,
}

/// An account with capacity left, by its place in the list.
#[derive(Clone, Copy, Debug, PartialEq, Eq, Structural)]
pub struct AvailableCandidate {
    pub index: usize,
    pub score: u8,
}

/// What a window leaves, in percent.
pub open spec fn left_percent(window: RateLimitWindow) -> int {
    if window.used_percent < 0 {
        100
    } else if window.used_percent > 100 {
        0
    } else {
        100 - window.used_percent
    }
}

/// Whether an account may be turned to at all: it is not the current one, and no bare API key.
pub open spec fn is_alternative(profile: AuthProfileSummary) -> bool {
    !profile.active && !(profile.account matches Some(Account::ApiKey))
}

/// The capacity of an account of which both windows are known and neither is used up: the smaller of
/// what they leave.
pub open spec fn capacity(profile: AuthProfileSummary) -> Option<int> {
    match profile.rate_limits {
        Some(RateLimitSnapshot { primary: Some(primary), secondary: Some(secondary), .. }) => {
            let a = left_percent(primary);
            let b = left_percent(secondary);
            if !is_alternative(profile) || a == 0 || b == 0 {
                None
            } else if a <= b {
                Some(a)
            } else {
                Some(b)
            }
        },
        _ => None,
    }
}

/// Whether nothing definite is known of an alternative's capacity.
pub open spec fn is_unknown(profile: AuthProfileSummary) -> bool {
    is_alternative(profile) && !(profile.rate_limits matches Some(limits) && limits.primary is Some
        && limits.secondary is Some)
}

/// What a window leaves, in percent.
pub fn window_left_percent(window: &Option<RateLimitWindow>) -> (res: Option<u8>)
    ensures
        match (res, window) {
            (Some(left), Some(window)) => left == left_percent(*window),
            (None, None) => true,
            _ => false,
        },
{
    match window {
        Some(window) => {
            let used: i32 = if window.used_percent < 0 {
                0
            } else if window.used_percent > 100 {
                100
            } else {
                window.used_percent
            };
            Some((100 - used) as u8)
        },
        None => None,
    }
}

fn is_alternative_profile(profile: &AuthProfileSummary) -> (res: bool)
    ensures
        res == is_alternative(*profile),
{
    if profile.active {
        return false;
    }
    match &profile.account {
        Some(Account::ApiKey) => false,
        _ => true,
    }
}

/// The account at `index` with its capacity, where it has some left.
pub fn available_candidate(index: usize, profile: &AuthProfileSummary) -> (res: Option<
    AvailableCandidate,
>)
    ensures
        match res {
            Some(candidate) => candidate.index == index && capacity(*profile) == Some(
                candidate.score as int,
            ),
            None => capacity(*profile) is None,
        },
{
    if !is_alternative_profile(profile) {
        return None;
    }
    match &profile.rate_limits {
        Some(limits) => match (
            window_left_percent(&limits.primary),
            window_left_percent(&limits.secondary),
        ) {
            (Some(primary), Some(secondary)) => {
                if primary == 0 || secondary == 0 {
                    return None;
                }
                let score: u8 = if primary <= secondary {
                    primary
                } else {
                    secondary
                };
                Some(AvailableCandidate { index, score })
            },
            _ => None,
        },
        None => None,
    }
}

/// The place of an account of whose capacity nothing definite is known.
pub fn unknown_candidate(index: usize, profile: &AuthProfileSummary) -> (res: Option<usize>)
    ensures
        res == (if is_unknown(*profile) {
            Some(index)
        } else {
            None
        }),
{
    if !is_alternative_profile(profile) {
        return None;
    }
    match &profile.rate_limits {
        Some(limits) => if limits.primary.is_some() && limits.secondary.is_some() {
            None
        } else {
            Some(index)
        },
        None => Some(index),
    }
}

/// Of the given places, the first after the anchor, else the first of all.
pub open spec fn next_after(indices: Seq<usize>, anchor: Option<usize>) -> Option<usize> {
    if indices.len() == 0 {
        None
    } else {
        match anchor {
            Some(anchor) => match first_above(indices, anchor) {
                Some(index) => Some(index),
                None => Some(indices[0]),
            },
            None => Some(indices[0]),
        }
    }
}

/// The first of the places that is greater than the anchor.
pub open spec fn first_above(indices: Seq<usize>, anchor: usize) -> Option<usize>
    decreases indices.len(),
{
    if indices.len() == 0 {
        None
    } else if indices[0] > anchor {
        Some(indices[0])
    } else {
        first_above(indices.skip(1), anchor)
    }
}

/// Of the given places, the first after the anchor, else the first of all.
pub fn select_next_index(indices: &[usize], anchor: Option<usize>) -> (res: Option<usize>)
    ensures
        res == next_after(indices@, anchor),
{
    if indices.len() == 0 {
        return None;
    }
    match anchor {
        Some(current) => {
            let mut i: usize = 0;
            assert(indices@.skip(0) == indices@);
            while i < indices.len()
                invariant
                    i <= indices@.len(),
                    anchor == Some(current),
                    first_above(indices@, current) == first_above(indices@.skip(i as int), current),
                    indices@.len() > 0,
                decreases indices@.len() - i,
            {
                if indices[i] > current {
                    return Some(indices[i]);
                }
                assert(indices@.skip(i as int).skip(1) == indices@.skip(i + 1));
                i = i + 1;
            }
        },
        None => {},
    }
    Some(indices[0])
}

/// The place of the current account, the last where there are several.
pub open spec fn anchor_of(profiles: Seq<AuthProfileSummary>) -> Option<usize>
    decreases profiles.len(),
{
    if profiles.len() == 0 {
        None
    } else if profiles.last().active {
        Some((profiles.len() - 1) as usize)
    } else {
        anchor_of(profiles.drop_last())
    }
}

/// The greatest capacity among the accounts, or none.
pub open spec fn top_capacity(profiles: Seq<AuthProfileSummary>) -> Option<int>
    decreases profiles.len(),
{
    if profiles.len() == 0 {
        None
    } else {
        match (top_capacity(profiles.drop_last()), capacity(profiles.last())) {
            (Some(a), Some(b)) => Some(if a >= b { a } else { b }),
            (Some(a), None) => Some(a),
            (None, b) => b,
        }
    }
}

/// Whether an account's capacity is within the band below the greatest one.
pub open spec fn is_eligible(profile: AuthProfileSummary, top: int) -> bool {
    capacity(profile) matches Some(score) && score >= top - TOP_SCORE_BAND_PERCENT
}

/// The places of the accounts within the band, in order.
pub open spec fn eligible_places(profiles: Seq<AuthProfileSummary>, top: int) -> Seq<usize>
    decreases profiles.len(),
{
    if profiles.len() == 0 {
        Seq::empty()
    } else {
        let before = eligible_places(profiles.drop_last(), top);
        if is_eligible(profiles.last(), top) {
            before.push((profiles.len() - 1) as usize)
        } else {
            before
        }
    }
}

/// The places of the accounts of whose capacity nothing definite is known, in order.
pub open spec fn unknown_places(profiles: Seq<AuthProfileSummary>) -> Seq<usize>
    decreases profiles.len(),
{
    if profiles.len() == 0 {
        Seq::empty()
    } else {
        let before = unknown_places(profiles.drop_last());
        if is_unknown(profiles.last()) {
            before.push((profiles.len() - 1) as usize)
        } else {
            before
        }
    }
}

/// The place of the account to turn to: the next after the current one among those within the band
/// below the greatest capacity; where none has capacity left, the next of which nothing definite is
/// known.
pub open spec fn next_place(profiles: Seq<AuthProfileSummary>) -> Option<usize> {
    match top_capacity(profiles) {
        Some(top) => next_after(eligible_places(profiles, top), anchor_of(profiles)),
        None => next_after(unknown_places(profiles), anchor_of(profiles)),
    }
}

/// Selects the account to turn to.
pub fn select_next_auth_profile(profiles: &[AuthProfileSummary]) -> (res: Option<
    &AuthProfileSummary,
>)
    ensures
        match res {
            Some(profile) => next_place(profiles@) matches Some(place) && place < profiles@.len()
                && *profile == profiles@[place as int],
            None => next_place(profiles@) is None,
        },
{
    let count: usize = profiles.len();
    let mut anchor: Option<usize> = None;
    let mut top: Option<u8> = None;
    let mut i: usize = 0;
    while i < count
        invariant
            i <= count == profiles@.len(),
            anchor == anchor_of(profiles@.take(i as int)),
            match top {
                Some(score) => top_capacity(profiles@.take(i as int)) == Some(score as int),
                None => top_capacity(profiles@.take(i as int)) is None,
            },
        decreases count - i,
    {
        assert(profiles@.take(i + 1).drop_last() == profiles@.take(i as int));
        if profiles[i].active {
            anchor = Some(i);
        }
        match available_candidate(i, &profiles[i]) {
            Some(candidate) => {
                top = match top {
                    Some(score) => if score >= candidate.score {
                        Some(score)
                    } else {
                        Some(candidate.score)
                    },
                    None => Some(candidate.score),
                };
            },
            None => {},
        }
        i = i + 1;
    }
    assert(profiles@.take(i as int) == profiles@);
    let places = match top {
        Some(top) => eligible_indices(profiles, top),
        None => unknown_indices(profiles),
    };
    proof {
        lemma_places_in_range(profiles@);
        if places@.len() > 0 {
            if let Some(anchor) = anchor {
                lemma_first_above(places@, anchor);
            }
        }
    }
    match select_next_index(&places, anchor) {
        Some(place) => {
            assert(places@.contains(place));
            Some(&profiles[place])
        },
        None => None,
    }
}

fn eligible_indices(profiles: &[AuthProfileSummary], top: u8) -> (res: Vec<usize>)
    ensures
        res@ == eligible_places(profiles@, top as int),
{
    let threshold: u8 = if top >= TOP_SCORE_BAND_PERCENT {
        top - TOP_SCORE_BAND_PERCENT
    } else {
        0
    };
    let count: usize = profiles.len();
    let mut places: Vec<usize> = Vec::new();
    let mut i: usize = 0;
    while i < count
        invariant
            i <= count == profiles@.len(),
            threshold == (if top >= TOP_SCORE_BAND_PERCENT {
                top - TOP_SCORE_BAND_PERCENT
            } else {
                0
            }),
            places@ == eligible_places(profiles@.take(i as int), top as int),
        decreases count - i,
    {
        assert(profiles@.take(i + 1).drop_last() == profiles@.take(i as int));
        match available_candidate(i, &profiles[i]) {
            Some(candidate) => {
                if candidate.score >= threshold {
                    places.push(i);
                }
            },
            None => {},
        }
        i = i + 1;
    }
    assert(profiles@.take(i as int) == profiles@);
    places
}

fn unknown_indices(profiles: &[AuthProfileSummary]) -> (res: Vec<usize>)
    ensures
        res@ == unknown_places(profiles@),
{
    let count: usize = profiles.len();
    let mut places: Vec<usize> = Vec::new();
    let mut i: usize = 0;
    while i < count
        invariant
            i <= count == profiles@.len(),
            places@ == unknown_places(profiles@.take(i as int)),
        decreases count - i,
    {
        assert(profiles@.take(i + 1).drop_last() == profiles@.take(i as int));
        match unknown_candidate(i, &profiles[i]) {
            Some(place) => {
                places.push(place);
            },
            None => {},
        }
        i = i + 1;
    }
    assert(profiles@.take(i as int) == profiles@);
    places
}

proof fn lemma_first_above(indices: Seq<usize>, anchor: usize)
    ensures
        first_above(indices, anchor) matches Some(index) ==> indices.contains(index) && index
            > anchor,
        first_above(indices, anchor) is None ==> forall|i: int|
            0 <= i < indices.len() ==> indices[i] <= anchor,
    decreases indices.len(),
{
    if indices.len() > 0 && indices[0] <= anchor {
        let rest = indices.skip(1);
        lemma_first_above(rest, anchor);
        if let Some(index) = first_above(rest, anchor) {
            let at = choose|at: int| 0 <= at < rest.len() && rest[at] == index;
            assert(indices[at + 1] == index);
        }
        assert forall|i: int| first_above(indices, anchor) is None && 0 <= i < indices.len() implies indices[i]
            <= anchor by {
            if i > 0 {
                assert(indices[i] == rest[i - 1]);
            }
        }
    } else if indices.len() > 0 {
        assert(indices[0] == first_above(indices, anchor)->0);
    }
}

/// Where places are listed, they are places of the list that are what they are listed for.
proof fn lemma_places(profiles: Seq<AuthProfileSummary>, top: int)
    requires
        profiles.len() <= usize::MAX,
    ensures
        forall|i: int|
            0 <= i < eligible_places(profiles, top).len() ==> (#[trigger] eligible_places(
                profiles,
                top,
            )[i]) < profiles.len() && is_eligible(
                profiles[eligible_places(profiles, top)[i] as int],
                top,
            ),
        forall|i: int|
            0 <= i < unknown_places(profiles).len() ==> (#[trigger] unknown_places(profiles)[i])
                < profiles.len() && is_unknown(profiles[unknown_places(profiles)[i] as int]),
    decreases profiles.len(),
{
    if profiles.len() > 0 {
        let first = profiles.drop_last();
        lemma_places(first, top);
        assert forall|i: int| 0 <= i < eligible_places(profiles, top).len() implies (
        #[trigger] eligible_places(profiles, top)[i]) < profiles.len() && is_eligible(
            profiles[eligible_places(profiles, top)[i] as int],
            top,
        ) by {
            if i < eligible_places(first, top).len() {
                assert(eligible_places(profiles, top)[i] == eligible_places(first, top)[i]);
            }
        }
        assert forall|i: int| 0 <= i < unknown_places(profiles).len() implies (
        #[trigger] unknown_places(profiles)[i]) < profiles.len() && is_unknown(
            profiles[unknown_places(profiles)[i] as int],
        ) by {
            if i < unknown_places(first).len() {
                assert(unknown_places(profiles)[i] == unknown_places(first)[i]);
            }
        }
    }
}

proof fn lemma_places_in_range(profiles: Seq<AuthProfileSummary>)
    requires
        profiles.len() <= usize::MAX,
    ensures
        forall|top: int, i: int|
            0 <= i < eligible_places(profiles, top).len() ==> (#[trigger] eligible_places(
                profiles,
                top,
            )[i]) < profiles.len(),
        forall|i: int|
            0 <= i < unknown_places(profiles).len() ==> (#[trigger] unknown_places(profiles)[i])
                < profiles.len(),
{
    assert forall|top: int, i: int| 0 <= i < eligible_places(profiles, top).len() implies (
    #[trigger] eligible_places(profiles, top)[i]) < profiles.len() by {
        lemma_places(profiles, top);
    }
    lemma_places(profiles, 0);
}

proof fn lemma_top_is_reached(profiles: Seq<AuthProfileSummary>)
    requires
        profiles.len() <= usize::MAX,
    ensures
        forall|i: int|
            0 <= i < profiles.len() ==> (capacity(#[trigger] profiles[i]) matches Some(score)
                ==> top_capacity(profiles) is Some && score <= top_capacity(profiles)->0),
        top_capacity(profiles) matches Some(top) ==> forall|lower: int|
            lower <= top ==> (#[trigger] eligible_places(profiles, lower)).len() > 0,
    decreases profiles.len(),
{
    if profiles.len() > 0 {
        lemma_top_is_reached(profiles.drop_last());
        assert forall|i: int| 0 <= i < profiles.len() implies (capacity(
            #[trigger] profiles[i],
        ) matches Some(score) ==> top_capacity(profiles) is Some && score <= top_capacity(
            profiles,
        )->0) by {
            if i < profiles.len() - 1 {
                assert(profiles.drop_last()[i] == profiles[i]);
            }
        }
        if let Some(top) = top_capacity(profiles) {
            assert forall|lower: int| lower <= top implies (#[trigger] eligible_places(
                profiles,
                lower,
            )).len() > 0 by {
                let before = eligible_places(profiles.drop_last(), lower);
            }
        }
    }
}

/// The account that is chosen is not the current one and no bare API key. Where any account is known
/// to have capacity left, the chosen one has, and no more than the band less than the best.
pub proof fn chosen_accounts_have_capacity(profiles: Seq<AuthProfileSummary>)
    requires
        profiles.len() <= usize::MAX,
    ensures
        next_place(profiles) matches Some(place) ==> place < profiles.len() && is_alternative(
            profiles[place as int],
        ),
        (exists|i: int| 0 <= i < profiles.len() && capacity(#[trigger] profiles[i]) is Some)
            ==> next_place(profiles) is Some && capacity(
            profiles[next_place(profiles)->0 as int],
        ) is Some && forall|i: int|
            0 <= i < profiles.len() ==> (capacity(#[trigger] profiles[i]) matches Some(score)
                ==> score <= capacity(profiles[next_place(profiles)->0 as int])->0
                + TOP_SCORE_BAND_PERCENT),
{
    lemma_top_is_reached(profiles);
    let places = match top_capacity(profiles) {
        Some(top) => eligible_places(profiles, top),
        None => unknown_places(profiles),
    };
    if let Some(top) = top_capacity(profiles) {
        lemma_places(profiles, top);
    }
    lemma_places(profiles, 0);
    if let Some(anchor) = anchor_of(profiles) {
        lemma_first_above(places, anchor);
    }
    if let Some(place) = next_place(profiles) {
        assert(places.contains(place)) by {
            if anchor_of(profiles) is None || first_above(places, anchor_of(profiles)->0) is None {
                assert(places[0] == place);
            }
        }
        let at = choose|at: int| 0 <= at < places.len() && places[at] == place;
        assert(places[at] == place);
    }
}

/// What a window leaves and what it has used add up to a hundred percent; beyond nothing and all of it,
/// more or less use makes no difference.
pub proof fn windows_leave_what_they_have_not_used(window: RateLimitWindow)
    ensures
        0 <= left_percent(window) <= 100,
        0 <= window.used_percent <= 100 ==> left_percent(window) + window.used_percent == 100,
        window.used_percent <= 0 ==> left_percent(window) == 100,
        window.used_percent >= 100 ==> left_percent(window) == 0,
{
}

/// Neither window of the chosen account may be used up. Every account that could have been chosen
/// has a window that leaves at most ten percent more than either window of the chosen one: an account
/// counts by its scarcer window.
pub proof fn the_scarcer_window_decides(profiles: Seq<AuthProfileSummary>, i: int)
    requires
        profiles.len() <= usize::MAX,
        next_place(profiles) is Some,
        0 <= i < profiles.len(),
        !profiles[i].active,
        !(profiles[i].account matches Some(Account::ApiKey)),
        profiles[i].rate_limits matches Some(limits) && limits.primary matches Some(primary)
            && limits.secondary matches Some(secondary) && primary.used_percent < 100
            && secondary.used_percent < 100,
    ensures
        ({
            let chosen = profiles[next_place(profiles)->0 as int];
            let limits = profiles[i].rate_limits->0;
            let a = limits.primary->0.used_percent;
            let b = limits.secondary->0.used_percent;
            let scarcer = 100 - (if a < 0 && b < 0 {
                0
            } else if a >= b {
                a as int
            } else {
                b as int
            });
            &&& next_place(profiles)->0 < profiles.len()
            &&& !chosen.active
            &&& !(chosen.account matches Some(Account::ApiKey))
            &&& chosen.rate_limits matches Some(taken) && taken.primary matches Some(primary)
                && taken.secondary matches Some(secondary) && primary.used_percent < 100
                && secondary.used_percent < 100 && scarcer <= 100 - primary.used_percent + 10
                && scarcer <= 100 - secondary.used_percent + 10
        }),
{
    assert(capacity(profiles[i]) is Some);
    chosen_accounts_have_capacity(profiles);
}

proof fn lemma_anchor(profiles: Seq<AuthProfileSummary>)
    requires
        profiles.len() <= usize::MAX,
    ensures
        anchor_of(profiles) matches Some(at) ==> at < profiles.len() && profiles[at as int].active
            && forall|i: int| at < i < profiles.len() ==> !(#[trigger] profiles[i]).active,
        anchor_of(profiles) is None ==> forall|i: int|
            0 <= i < profiles.len() ==> !(#[trigger] profiles[i]).active,
    decreases profiles.len(),
{
    if profiles.len() > 0 && !profiles.last().active {
        lemma_anchor(profiles.drop_last());
        assert forall|i: int| anchor_of(profiles) is None && 0 <= i < profiles.len() implies !(
        #[trigger] profiles[i]).active by {
            if i < profiles.len() - 1 {
                assert(profiles.drop_last()[i] == profiles[i]);
            }
        }
        if let Some(at) = anchor_of(profiles) {
            assert forall|i: int| at < i < profiles.len() implies !(#[trigger] profiles[i]).active by {
                if i < profiles.len() - 1 {
                    assert(profiles.drop_last()[i] == profiles[i]);
                }
            }
        }
    }
}

/// The places that are listed are all that there are, in their order.
proof fn lemma_all_places(profiles: Seq<AuthProfileSummary>, top: int)
    requires
        profiles.len() <= usize::MAX,
    ensures
        forall|i: int|
            0 <= i < profiles.len() && is_eligible(#[trigger] profiles[i], top)
                ==> eligible_places(profiles, top).contains(i as usize),
        forall|i: int|
            0 <= i < profiles.len() && is_unknown(#[trigger] profiles[i]) ==> unknown_places(
                profiles,
            ).contains(i as usize),
        forall|a: int, b: int|
            0 <= a < b < eligible_places(profiles, top).len() ==> (#[trigger] eligible_places(
                profiles,
                top,
            )[a]) < (#[trigger] eligible_places(profiles, top)[b]),
        forall|a: int, b: int|
            0 <= a < b < unknown_places(profiles).len() ==> (#[trigger] unknown_places(
                profiles,
            )[a]) < (#[trigger] unknown_places(profiles)[b]),
    decreases profiles.len(),
{
    lemma_places(profiles, top);
    if profiles.len() > 0 {
        let first = profiles.drop_last();
        lemma_all_places(first, top);
        lemma_places(first, top);
        let eligible = eligible_places(profiles, top);
        let unknown = unknown_places(profiles);
        assert forall|a: int, b: int| 0 <= a < b < eligible.len() implies (#[trigger] eligible[a]) < (
        #[trigger] eligible[b]) by {
            let before = eligible_places(first, top);
            assert(eligible[a] == before[a]);
            if b < before.len() {
                assert(eligible[b] == before[b]);
            }
        }
        assert forall|a: int, b: int| 0 <= a < b < unknown.len() implies (#[trigger] unknown[a]) < (
        #[trigger] unknown[b]) by {
            let before = unknown_places(first);
            assert(unknown[a] == before[a]);
            if b < before.len() {
                assert(unknown[b] == before[b]);
            }
        }
        assert forall|i: int| 0 <= i < profiles.len() && is_eligible(
            #[trigger] profiles[i],
            top,
        ) implies eligible.contains(i as usize) by {
            if i < profiles.len() - 1 {
                assert(first[i] == profiles[i]);
                let before = eligible_places(first, top);
                let at = choose|at: int| 0 <= at < before.len() && before[at] == i as usize;
                assert(eligible[at] == i as usize);
            } else {
                assert(eligible[eligible.len() - 1] == i as usize);
            }
        }
        assert forall|i: int| 0 <= i < profiles.len() && is_unknown(
            #[trigger] profiles[i],
        ) implies unknown.contains(i as usize) by {
            if i < profiles.len() - 1 {
                assert(first[i] == profiles[i]);
                let before = unknown_places(first);
                let at = choose|at: int| 0 <= at < before.len() && before[at] == i as usize;
                assert(unknown[at] == i as usize);
            } else {
                assert(unknown[unknown.len() - 1] == i as usize);
            }
        }
    }
}

proof fn lemma_next_after(indices: Seq<usize>, anchor: Option<usize>)
    requires
        forall|a: int, b: int|
            0 <= a < b < indices.len() ==> (#[trigger] indices[a]) < (#[trigger] indices[b]),
    ensures
        next_after(indices, anchor) is None <==> indices.len() == 0,
        next_after(indices, anchor) matches Some(index) ==> indices.contains(index) && forall|i: int|
            0 <= i < indices.len() ==> match anchor {
                Some(anchor) => (index > anchor && (#[trigger] indices[i]) > anchor ==> index
                    <= indices[i]) && (index <= anchor ==> indices[i] <= anchor && index
                    <= indices[i]),
                None => index <= indices[i],
            },
    decreases indices.len(),
{
    if indices.len() > 0 {
        if let Some(anchor) = anchor {
            lemma_first_above(indices, anchor);
            lemma_least_above(indices, anchor);
        }
        assert(indices.contains(indices[0]));
    }
}

proof fn lemma_least_above(indices: Seq<usize>, anchor: usize)
    requires
        forall|a: int, b: int|
            0 <= a < b < indices.len() ==> (#[trigger] indices[a]) < (#[trigger] indices[b]),
    ensures
        first_above(indices, anchor) matches Some(index) ==> forall|i: int|
            0 <= i < indices.len() && (#[trigger] indices[i]) > anchor ==> index <= indices[i],
    decreases indices.len(),
{
    if indices.len() > 0 && indices[0] <= anchor {
        let rest = indices.skip(1);
        lemma_least_above(rest, anchor);
        if let Some(index) = first_above(indices, anchor) {
            assert forall|i: int| 0 <= i < indices.len() && (#[trigger] indices[i]) > anchor implies index
                <= indices[i] by {
                assert(rest[i - 1] == indices[i]);
            }
        }
    }
}

/// Where no account is known to have something left in both windows, one is chosen of which a window
/// is not known, if there is one; where every other account is used up, none is chosen.
pub proof fn unknown_accounts_are_the_last_resort(profiles: Seq<AuthProfileSummary>)
    requires
        profiles.len() <= usize::MAX,
        forall|i: int|
            0 <= i < profiles.len() && !(#[trigger] profiles[i]).active && !(
            profiles[i].account matches Some(Account::ApiKey)) ==> (
            profiles[i].rate_limits matches Some(limits) && limits.primary matches Some(primary)
                && limits.secondary matches Some(secondary) ==> primary.used_percent >= 100
                || secondary.used_percent >= 100),
    ensures
        match next_place(profiles) {
            Some(place) => place < profiles.len() && !profiles[place as int].active && !(
            profiles[place as int].account matches Some(Account::ApiKey)) && (
            profiles[place as int].rate_limits matches Some(limits) ==> limits.primary is None
                || limits.secondary is None),
            None => forall|i: int|
                0 <= i < profiles.len() ==> (#[trigger] profiles[i]).active || (
                profiles[i].account matches Some(Account::ApiKey)) || (
                profiles[i].rate_limits matches Some(limits) && limits.primary is Some
                    && limits.secondary is Some),
        },
{
    assert forall|i: int| 0 <= i < profiles.len() implies capacity(#[trigger] profiles[i]) is None by {
    }
    lemma_no_top(profiles);
    lemma_all_places(profiles, 0);
    lemma_places(profiles, 0);
    lemma_next_after(unknown_places(profiles), anchor_of(profiles));
    if let Some(place) = next_place(profiles) {
        let at = choose|at: int|
            0 <= at < unknown_places(profiles).len() && unknown_places(profiles)[at] == place;
        assert(unknown_places(profiles)[at] == place);
    } else {
        assert forall|i: int| 0 <= i < profiles.len() implies !is_unknown(#[trigger] profiles[i]) by {
            if is_unknown(profiles[i]) {
                assert(unknown_places(profiles).contains(i as usize));
            }
        }
    }
}

proof fn lemma_no_top(profiles: Seq<AuthProfileSummary>)
    requires
        forall|i: int| 0 <= i < profiles.len() ==> capacity(#[trigger] profiles[i]) is None,
    ensures
        top_capacity(profiles) is None,
    decreases profiles.len(),
{
    if profiles.len() > 0 {
        let first = profiles.drop_last();
        assert forall|i: int| 0 <= i < first.len() implies capacity(#[trigger] first[i]) is None by {
            assert(first[i] == profiles[i]);
        }
        lemma_no_top(first);
        assert(capacity(profiles[profiles.len() - 1]) is None);
    }
}

/// Accounts take turns: of two accounts that are equally known and have the same use in both windows,
/// the chosen one is the one that comes first behind the current account, going round.
pub proof fn equal_accounts_take_turns(profiles: Seq<AuthProfileSummary>, current: int, other: int)
    requires
        profiles.len() <= usize::MAX,
        0 <= current < profiles.len(),
        profiles[current].active,
        forall|i: int| current < i < profiles.len() ==> !(#[trigger] profiles[i]).active,
        next_place(profiles) is Some,
        0 <= other < profiles.len(),
        !profiles[other].active,
        profiles[other].rate_limits == profiles[next_place(profiles)->0 as int].rate_limits,
        profiles[other].account == profiles[next_place(profiles)->0 as int].account,
    ensures
        ({
            let place = next_place(profiles)->0 as int;
            &&& other > current ==> current < place <= other
            &&& other < current && place < current ==> place <= other
        }),
{
    lemma_anchor(profiles);
    let anchor = anchor_of(profiles);
    assert(anchor == Some(current as usize)) by {
        if anchor is None {
            assert(!profiles[current].active);
        } else if anchor->0 < current {
            assert(!profiles[current].active);
        } else if anchor->0 > current {
            assert(!profiles[anchor->0 as int].active);
        }
    }
    lemma_top_is_reached(profiles);
    chosen_accounts_have_capacity(profiles);
    let places = match top_capacity(profiles) {
        Some(top) => eligible_places(profiles, top),
        None => unknown_places(profiles),
    };
    let top = match top_capacity(profiles) {
        Some(top) => top,
        None => 0,
    };
    lemma_all_places(profiles, top);
    lemma_places(profiles, top);
    lemma_next_after(places, anchor);
    let place = next_place(profiles)->0;
    let at = choose|at: int| 0 <= at < places.len() && places[at] == place;
    assert(places[at] == place);
    assert(places.contains(other as usize)) by {
        if top_capacity(profiles) is Some {
            assert(is_eligible(profiles[place as int], top));
            assert(capacity(profiles[other]) == capacity(profiles[place as int]));
            assert(is_eligible(profiles[other], top));
        } else {
            assert(is_unknown(profiles[place as int]));
            assert(is_unknown(profiles[other]));
        }
    }
    let o = choose|o: int| 0 <= o < places.len() && places[o] == other as usize;
    assert(places[o] == other as usize);
}

/// Whether an account can be turned to: it is not the current one and no bare API key, and both its
/// windows are known and not used up.
pub open spec fn is_usable(profile: AuthProfileSummary) -> bool {
    !profile.active && !(profile.account matches Some(Account::ApiKey)) && (
    profile.rate_limits matches Some(limits) && limits.primary matches Some(primary)
        && limits.secondary matches Some(secondary) && primary.used_percent < 100
        && secondary.used_percent < 100)
}

/// What the scarcer window of an account leaves, in percent.
pub open spec fn scarcer_left(profile: AuthProfileSummary) -> int {
    let a = profile.rate_limits->0.primary->0.used_percent;
    let b = profile.rate_limits->0.secondary->0.used_percent;
    if a <= 0 && b <= 0 {
        100
    } else if a >= b {
        100 - a
    } else {
        100 - b
    }
}

/// An account that can be turned to counts by what its scarcer window leaves; any other counts for
/// nothing.
pub proof fn accounts_count_by_their_scarcer_window(profile: AuthProfileSummary)
    ensures
        is_usable(profile) ==> capacity(profile) == Some(scarcer_left(profile)),
        !is_usable(profile) ==> capacity(profile) is None,
{
}

/// Accounts within ten percent of the best take turns: the chosen one is the one of them that comes
/// first behind the current account, going round, however much more another of them leaves. Where no
/// account is current, it is the first of them.
pub proof fn accounts_within_the_band_take_turns(
    profiles: Seq<AuthProfileSummary>,
    current: Option<int>,
    other: int,
)
    requires
        profiles.len() <= usize::MAX,
        current matches Some(at) ==> 0 <= at < profiles.len() && profiles[at].active,
        forall|i: int|
            0 <= i < profiles.len() && (#[trigger] profiles[i]).active ==> current is Some && i
                <= current->0,
        0 <= other < profiles.len(),
        is_usable(profiles[other]),
        forall|i: int|
            0 <= i < profiles.len() && is_usable(#[trigger] profiles[i]) ==> scarcer_left(profiles[i])
                <= scarcer_left(profiles[other]) + 10,
    ensures
        next_place(profiles) matches Some(place) && place < profiles.len() && is_usable(
            profiles[place as int],
        ) && {
            &&& current is None ==> place <= other
            &&& current matches Some(at) ==> (other > at ==> at < place <= other)
            &&& current matches Some(at) ==> (other < at && place < at ==> place <= other)
        },
{
    assert forall|i: int| 0 <= i < profiles.len() implies (capacity(#[trigger] profiles[i])
        == if is_usable(profiles[i]) {
        Some(scarcer_left(profiles[i]))
    } else {
        None
    }) by {
        accounts_count_by_their_scarcer_window(profiles[i]);
    }
    assert(capacity(profiles[other]) is Some);
    lemma_anchor(profiles);
    let anchor = anchor_of(profiles);
    if let Some(at) = current {
        assert(anchor == Some(at as usize)) by {
            if anchor is None {
                assert(!profiles[at].active);
            } else if anchor->0 < at {
                assert(!profiles[at].active);
            } else if anchor->0 > at {
                assert(profiles[anchor->0 as int].active);
            }
        }
    } else {
        assert(anchor is None) by {
            if anchor is Some {
                assert(profiles[anchor->0 as int].active);
            }
        }
    }
    lemma_top_is_reached(profiles);
    chosen_accounts_have_capacity(profiles);
    let top = top_capacity(profiles)->0;
    let places = eligible_places(profiles, top);
    lemma_all_places(profiles, top);
    lemma_places(profiles, top);
    lemma_next_after(places, anchor);
    lemma_top_is_one(profiles);
    assert(is_eligible(profiles[other], top));
    assert(places.contains(other as usize));
    let o = choose|o: int| 0 <= o < places.len() && places[o] == other as usize;
    assert(places[o] == other as usize);
}

proof fn lemma_top_is_one(profiles: Seq<AuthProfileSummary>)
    ensures
        top_capacity(profiles) matches Some(top) ==> exists|i: int|
            0 <= i < profiles.len() && capacity(#[trigger] profiles[i]) == Some(top),
    decreases profiles.len(),
{
    if profiles.len() > 0 {
        let first = profiles.drop_last();
        lemma_top_is_one(first);
        if let Some(top) = top_capacity(profiles) {
            if capacity(profiles.last()) == Some(top) {
                assert(capacity(profiles[profiles.len() - 1]) == Some(top));
            } else {
                let i = choose|i: int|
                    0 <= i < first.len() && capacity(#[trigger] first[i]) == Some(top);
                assert(first[i] == profiles[i]);
                assert(capacity(profiles[i]) == Some(top));
            }
        }
    }
}

} // verus!
