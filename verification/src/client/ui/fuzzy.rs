//! Fuzzy matching of short texts.

use vstd::prelude::*;

use crate::text::{
    chars_of, is_alphanumeric, is_alphanumeric_char, lowercase, lowercase_chars, same_text,
};

verus! {

/// The place of the first `wanted` at or after `from`, or the length where there is none.
pub open spec fn place_from(candidate: Seq<char>, from: int, wanted: char) -> int
    decreases candidate.len() - from,
{
    if from >= candidate.len() {
        candidate.len() as int
    } else if candidate[from] == wanted {
        from
    } else {
        place_from(candidate, from + 1, wanted)
    }
}

/// Two neighbouring characters of which the first takes one byte.
pub open spec fn adjoins(candidate: Seq<char>, previous: Option<int>, place: int) -> bool {
    previous is Some && place == previous->0 + 1 && (candidate[previous->0] as u32) < 0x80
}

/// The score of a query whose characters appear in order in a candidate from `from` on: ten for
/// each and five more where it adjoins the one before.
pub open spec fn subsequence_score(
    query: Seq<char>,
    candidate: Seq<char>,
    from: int,
    previous: Option<int>,
) -> Option<nat>
    decreases query.len(),
{
    if query.len() == 0 {
        Some(0)
    } else {
        let place = place_from(candidate, from, query[0]);
        if place >= candidate.len() {
            None
        } else {
            match subsequence_score(query.drop_first(), candidate, place + 1, Some(place)) {
                Some(rest) => Some(
                    rest + 10 + if adjoins(candidate, previous, place) {
                        5nat
                    } else {
                        0nat
                    },
                ),
                None => None,
            }
        }
    }
}

/// The score of a query against a candidate; equal texts score highest.
pub open spec fn fuzzy_score(query: Seq<char>, candidate: Seq<char>) -> Option<usize> {
    if query == candidate {
        Some(usize::MAX)
    } else {
        match subsequence_score(query, candidate, 0, None) {
            Some(score) => Some(
                if score > usize::MAX {
                    usize::MAX
                } else {
                    score as usize
                },
            ),
            None => None,
        }
    }
}

/// Characters that appear in order in a text.
pub open spec fn is_subsequence(query: Seq<char>, candidate: Seq<char>) -> bool
    decreases candidate.len(),
{
    if query.len() == 0 {
        true
    } else if candidate.len() == 0 {
        false
    } else if query[0] == candidate[0] {
        is_subsequence(query.drop_first(), candidate.drop_first())
    } else {
        is_subsequence(query, candidate.drop_first())
    }
}

proof fn lemma_score_iff_subsequence(
    query: Seq<char>,
    candidate: Seq<char>,
    from: int,
    previous: Option<int>,
)
    requires
        0 <= from <= candidate.len(),
    ensures
        subsequence_score(query, candidate, from, previous) is Some <==> is_subsequence(
            query,
            candidate.skip(from),
        ),
    decreases candidate.len() - from,
{
    let rest = candidate.skip(from);
    if query.len() > 0 && from < candidate.len() {
        assert(rest[0] == candidate[from]);
        assert(rest.drop_first() =~= candidate.skip(from + 1));
        if candidate[from] == query[0] {
            lemma_score_iff_subsequence(query.drop_first(), candidate, from + 1, Some(from));
        } else {
            lemma_score_iff_subsequence(query, candidate, from + 1, previous);
        }
    }
}

proof fn lemma_subsequence_of_itself(text: Seq<char>)
    ensures
        is_subsequence(text, text),
    decreases text.len(),
{
    if text.len() > 0 {
        lemma_subsequence_of_itself(text.drop_first());
    }
}

/// A query matches a candidate exactly when its characters appear there in order.
pub proof fn lemma_matches_are_subsequences(query: Seq<char>, candidate: Seq<char>)
    ensures
        fuzzy_score(query, candidate) is Some <==> is_subsequence(query, candidate),
{
    lemma_score_iff_subsequence(query, candidate, 0, None);
    assert(candidate.skip(0) =~= candidate);
    if query == candidate {
        lemma_subsequence_of_itself(query);
    }
}

/// Scores a query against a candidate.
pub fn fuzzy_subsequence_score(query: &str, candidate: &str) -> (score: Option<usize>)
    ensures
        score == fuzzy_score(query@, candidate@),
{
    if same_text(query, candidate) {
        return Some(usize::MAX);
    }
    let wanted = chars_of(query);
    let places = chars_of(candidate);
    let ghost expected = subsequence_score(wanted@, places@, 0, None);
    let ghost mut exact: nat = 0;
    let mut previous: Option<usize> = None;
    let mut score: usize = 0;
    let mut from: usize = 0;
    let mut index: usize = 0;
    assert(wanted@.skip(0) =~= wanted@);
    while index < wanted.len()
        invariant
            query@ != candidate@,
            expected == subsequence_score(query@, candidate@, 0, None),
            index <= wanted@.len(),
            from <= places@.len(),
            previous is Some ==> previous->0 < places@.len(),
            score == if exact > usize::MAX {
                usize::MAX as nat
            } else {
                exact
            },
            ({
                let rest = subsequence_score(
                    wanted@.skip(index as int),
                    places@,
                    from as int,
                    match previous {
                        Some(place) => Some(place as int),
                        None => None,
                    },
                );
                match expected {
                    Some(total) => rest is Some && total == rest->0 + exact,
                    None => rest is None,
                }
            }),
        decreases wanted@.len() - index,
    {
        let ghost start = from;
        proof {
            let rest = wanted@.skip(index as int);
            assert(rest[0] == wanted@[index as int]);
            assert(rest.drop_first() =~= wanted@.skip(index + 1));
        }
        while from < places.len() && places[from] != wanted[index]
            invariant
                index < wanted@.len(),
                start <= from <= places@.len(),
                place_from(places@, start as int, wanted@[index as int]) == place_from(
                    places@,
                    from as int,
                    wanted@[index as int],
                ),
            decreases places@.len() - from,
        {
            from += 1;
        }
        if from == places.len() {
            return None;
        }
        score = score.saturating_add(10);
        let adjoining = match previous {
            Some(place) => from > 0 && from - 1 == place && (places[place] as u32) < 0x80,
            None => false,
        };
        if adjoining {
            score = score.saturating_add(5);
        }
        proof {
            exact = exact + 10 + if adjoining {
                5nat
            } else {
                0nat
            };
        }
        previous = Some(from);
        from += 1;
        index += 1;
    }
    Some(score)
}

/// The letters and numbers of a text in lower case.
pub open spec fn normalized(text: Seq<char>) -> Seq<char>
    decreases text.len(),
{
    if text.len() == 0 {
        Seq::empty()
    } else {
        normalized(text.drop_last()) + if is_alphanumeric(text.last()) {
            lowercase(text.last())
        } else {
            Seq::empty()
        }
    }
}

/// Keeps the letters and numbers of a text, in lower case.
pub fn normalize_fuzzy_text(value: &str) -> (text: String)
    ensures
        text@ == normalized(value@),
{
    let characters = chars_of(value);
    let mut text = String::new();
    let mut index: usize = 0;
    while index < characters.len()
        invariant
            index <= characters@.len(),
            text@ == normalized(characters@.subrange(0, index as int)),
        decreases characters@.len() - index,
    {
        let ghost before = text@;
        proof {
            let seen = characters@.subrange(0, index + 1);
            assert(seen.drop_last() =~= characters@.subrange(0, index as int));
            assert(seen.last() == characters@[index as int]);
        }
        if is_alphanumeric_char(characters[index]) {
            let lowered = lowercase_chars(characters[index]);
            let lowered = crate::text::string_from(&lowered, 0, lowered.len());
            assert(lowered@ =~= lowercase(characters@[index as int]));
            text.push_str(&lowered);
        }
        index += 1;
        assert(before + Seq::<char>::empty() =~= before);
    }
    assert(characters@.subrange(0, index as int) =~= characters@);
    text
}

/// Places in a candidate, one after the other, that hold the characters of a query.
pub open spec fn found_at(query: Seq<char>, candidate: Seq<char>, places: Seq<int>) -> bool {
    &&& places.len() == query.len()
    &&& forall|i: int|
        0 <= i < places.len() ==> 0 <= #[trigger] places[i] < candidate.len()
            && candidate[places[i]] == query[i]
    &&& forall|i: int, j: int| 0 <= i < j < places.len() ==> places[i] < places[j]
}

proof fn lemma_subsequence_has_places(query: Seq<char>, candidate: Seq<char>) -> (places: Seq<int>)
    requires
        is_subsequence(query, candidate),
    ensures
        found_at(query, candidate, places),
    decreases candidate.len(),
{
    if query.len() == 0 {
        Seq::empty()
    } else {
        let rest = candidate.drop_first();
        if query[0] == candidate[0] {
            let later = lemma_subsequence_has_places(query.drop_first(), rest);
            let places = Seq::new(
                query.len(),
                |i: int|
                    if i == 0 {
                        0
                    } else {
                        later[i - 1] + 1
                    },
            );
            assert forall|i: int| 0 <= i < places.len() implies 0 <= #[trigger] places[i]
                < candidate.len() && candidate[places[i]] == query[i] by {
                if i > 0 {
                    assert(0 <= later[i - 1] < rest.len() && rest[later[i - 1]]
                        == query.drop_first()[i - 1]);
                }
            }
            assert forall|i: int, j: int| 0 <= i < j < places.len() implies places[i]
                < places[j] by {
                assert(0 <= later[j - 1]);
                if i > 0 {
                    assert(later[i - 1] < later[j - 1]);
                }
            }
            places
        } else {
            let later = lemma_subsequence_has_places(query, rest);
            let places = Seq::new(query.len(), |i: int| later[i] + 1);
            assert forall|i: int| 0 <= i < places.len() implies 0 <= #[trigger] places[i]
                < candidate.len() && candidate[places[i]] == query[i] by {
                assert(0 <= later[i] < rest.len() && rest[later[i]] == query[i]);
            }
            assert forall|i: int, j: int| 0 <= i < j < places.len() implies places[i]
                < places[j] by {
                assert(later[i] < later[j]);
            }
            places
        }
    }
}

proof fn lemma_places_make_a_subsequence(query: Seq<char>, candidate: Seq<char>, places: Seq<int>)
    requires
        found_at(query, candidate, places),
    ensures
        is_subsequence(query, candidate),
    decreases candidate.len(),
{
    if query.len() > 0 {
        assert(0 <= places[0] < candidate.len());
        let rest = candidate.drop_first();
        let shifted = Seq::new(places.len(), |i: int| places[i] - 1);
        if query[0] == candidate[0] {
            let later = shifted.drop_first();
            assert forall|i: int| 0 <= i < later.len() implies 0 <= #[trigger] later[i]
                < rest.len() && rest[later[i]] == query.drop_first()[i] by {
                assert(places[0] < places[i + 1]);
                assert(later[i] == places[i + 1] - 1);
            }
            assert forall|i: int, j: int| 0 <= i < j < later.len() implies later[i]
                < later[j] by {
                assert(places[i + 1] < places[j + 1]);
            }
            lemma_places_make_a_subsequence(query.drop_first(), rest, later);
        } else {
            assert(places[0] != 0);
            assert forall|i: int| 0 <= i < shifted.len() implies 0 <= #[trigger] shifted[i]
                < rest.len() && rest[shifted[i]] == query[i] by {
                if i > 0 {
                    assert(places[0] < places[i]);
                }
            }
            assert forall|i: int, j: int| 0 <= i < j < shifted.len() implies shifted[i]
                < shifted[j] by {
                assert(places[i] < places[j]);
            }
            lemma_places_make_a_subsequence(query, rest, shifted);
        }
    }
}

/// A query finds a candidate exactly where its characters stand there in their order.
pub proof fn lemma_queries_find_what_holds_them(query: Seq<char>, candidate: Seq<char>)
    ensures
        fuzzy_score(query, candidate) is Some <==> exists|places: Seq<int>| #[trigger]
            found_at(query, candidate, places),
{
    lemma_matches_are_subsequences(query, candidate);
    if is_subsequence(query, candidate) {
        let places = lemma_subsequence_has_places(query, candidate);
    }
    if exists|places: Seq<int>| #[trigger] found_at(query, candidate, places) {
        let places = choose|places: Seq<int>| #[trigger] found_at(query, candidate, places);
        lemma_places_make_a_subsequence(query, candidate, places);
    }
}

proof fn lemma_score_is_bounded(
    query: Seq<char>,
    candidate: Seq<char>,
    from: int,
    previous: Option<int>,
)
    requires
        subsequence_score(query, candidate, from, previous) is Some,
    ensures
        10 * query.len() <= subsequence_score(query, candidate, from, previous)->0 <= 15
            * query.len(),
        previous is None && query.len() > 0 ==> subsequence_score(
            query,
            candidate,
            from,
            previous,
        )->0 <= 15 * query.len() - 5,
    decreases query.len(),
{
    if query.len() > 0 {
        let place = place_from(candidate, from, query[0]);
        lemma_score_is_bounded(query.drop_first(), candidate, place + 1, Some(place));
    }
}

proof fn lemma_score_of_a_run(
    query: Seq<char>,
    candidate: Seq<char>,
    from: int,
    previous: Option<int>,
)
    requires
        0 <= from,
        from + query.len() <= candidate.len(),
        forall|i: int| 0 <= i < query.len() ==> candidate[from + i] == #[trigger] query[i],
        forall|i: int| 0 <= i < query.len() ==> (#[trigger] query[i] as u32) < 0x80,
        previous is Some ==> previous->0 == from - 1 && (candidate[from - 1] as u32) < 0x80,
    ensures
        subsequence_score(query, candidate, from, previous) == Some(
            (15 * query.len() - if previous is None && query.len() > 0 {
                5int
            } else {
                0
            }) as nat,
        ),
    decreases query.len(),
{
    if query.len() > 0 {
        assert(candidate[from + 0] == query[0]);
        assert(place_from(candidate, from, query[0]) == from);
        let rest = query.drop_first();
        assert forall|i: int| 0 <= i < rest.len() implies candidate[from + 1 + i]
            == #[trigger] rest[i] by {
            assert(candidate[from + (i + 1)] == query[i + 1]);
        }
        lemma_score_of_a_run(rest, candidate, from + 1, Some(from));
    }
}

proof fn lemma_place_is_first(candidate: Seq<char>, from: int, wanted: char, place: int)
    requires
        0 <= from <= place < candidate.len(),
        candidate[place] == wanted,
        forall|i: int| from <= i < place ==> #[trigger] candidate[i] != wanted,
    ensures
        place_from(candidate, from, wanted) == place,
    decreases place - from,
{
    if from < place {
        assert(candidate[from] != wanted);
        lemma_place_is_first(candidate, from + 1, wanted, place);
    }
}

/// Each character that is found counts ten, and none counts more than fifteen; the same text
/// counts most of all.
pub proof fn lemma_scores_count_the_characters(query: Seq<char>, candidate: Seq<char>)
    requires
        15 * query.len() <= usize::MAX,
    ensures
        query == candidate ==> fuzzy_score(query, candidate) == Some(usize::MAX),
        query != candidate && fuzzy_score(query, candidate) is Some ==> 10 * query.len()
            <= fuzzy_score(query, candidate)->0 <= 15 * query.len() && (query.len() > 0
            ==> fuzzy_score(query, candidate)->0 <= 15 * query.len() - 5),
{
    if subsequence_score(query, candidate, 0, None) is Some {
        lemma_score_is_bounded(query, candidate, 0, None);
    }
}

/// An unbroken ASCII query that begins where its first character first stands scores as high as
/// any candidate but the query itself.
pub proof fn lemma_unbroken_queries_score_highest(
    before: Seq<char>,
    query: Seq<char>,
    after: Seq<char>,
)
    requires
        0 < 15 * query.len() <= usize::MAX,
        before.len() + after.len() > 0,
        !before.contains(query[0]),
        forall|i: int| 0 <= i < query.len() ==> (#[trigger] query[i] as u32) < 0x80,
    ensures
        fuzzy_score(query, before + query + after) == Some((15 * query.len() - 5) as usize),
{
    let candidate = before + query + after;
    let from = before.len() as int;
    assert(candidate.len() > query.len());
    assert forall|i: int| 0 <= i < from implies #[trigger] candidate[i] != query[0] by {
        assert(before.contains(before[i]));
    }
    lemma_place_is_first(candidate, 0, query[0], from);
    let rest = query.drop_first();
    assert forall|i: int| 0 <= i < rest.len() implies candidate[from + 1 + i]
        == #[trigger] rest[i] by {
        assert(candidate[from + (i + 1)] == query[i + 1]);
    }
    assert((query[0] as u32) < 0x80);
    lemma_score_of_a_run(rest, candidate, from + 1, Some(from));
}

/// Only letters and digits count, in lower case and in their order.
pub proof fn lemma_normalizing_keeps_letters_and_digits(first: Seq<char>, second: Seq<char>)
    ensures
        normalized(first + second) == normalized(first) + normalized(second),
        forall|character: char| #[trigger]
            is_alphanumeric(character) ==> normalized(seq![character]) == lowercase(character),
        forall|character: char|
            !#[trigger] is_alphanumeric(character) ==> normalized(seq![character]) == Seq::<
                char,
            >::empty(),
    decreases second.len(),
{
    if second.len() > 0 {
        lemma_normalizing_keeps_letters_and_digits(first, second.drop_last());
        assert((first + second).drop_last() =~= first + second.drop_last());
        assert(normalized(first + second) =~= normalized(first) + normalized(second));
    } else {
        assert(first + second =~= first);
        assert(normalized(first) + normalized(second) =~= normalized(first));
    }
    assert forall|character: char| #[trigger] is_alphanumeric(character) implies normalized(
        seq![character],
    ) == lowercase(character) by {
        reveal_with_fuel(normalized, 2);
        assert(seq![character].drop_last() =~= Seq::<char>::empty());
        assert(normalized(seq![character]) =~= lowercase(character));
    }
    assert forall|character: char| !#[trigger] is_alphanumeric(character) implies normalized(
        seq![character],
    ) == Seq::<char>::empty() by {
        reveal_with_fuel(normalized, 2);
        assert(seq![character].drop_last() =~= Seq::<char>::empty());
        assert(normalized(seq![character]) =~= Seq::<char>::empty());
    }
}

} // verus!
