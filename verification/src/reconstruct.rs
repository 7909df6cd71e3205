//! Reconstruction: the source unit of a project, rebuilt in full from its
//! store each time it is asked for.

use crate::codec::{load, loaded, loaded_entries, StoreError};
use crate::preamble::{preamble, preamble_text};
use crate::store::{
    ascending, contents_of, has_identifier, is_last_under_its_identifier, lemma_ascending_unique,
    lemma_contents_dom, lemma_contents_of_ascending, lemma_last_wins, lemma_ordered, ordered,
    FragmentStore,
};
use crate::text::optional_text;
use vstd::prelude::*;

verus! {

/// What ends the preamble and every fragment in a source unit.
pub open spec fn line_break() -> Seq<char> {
    seq!['\n']
}

/// The source unit over `entries`: the preamble and a line break, then the
/// source text of each entry in turn, each with a line break behind it.
pub open spec fn unit_text(preamble: Seq<char>, entries: Seq<(Seq<char>, Seq<char>)>) -> Seq<char>
    decreases entries.len(),
{
    if entries.len() == 0 {
        preamble + line_break()
    } else {
        unit_text(preamble, entries.drop_last()) + entries.last().1 + line_break()
    }
}

/// The source unit of a mapping: that over its entries in ascending order
/// of the identifiers.
pub open spec fn unit_of(preamble: Seq<char>, contents: Map<Seq<char>, Seq<char>>) -> Seq<char>
    recommends
        exists|e: Seq<(Seq<char>, Seq<char>)>| ascending(e) && contents_of(e) == contents,
{
    unit_text(
        preamble,
        choose|e: Seq<(Seq<char>, Seq<char>)>| ascending(e) && contents_of(e) == contents,
    )
}

/// The source unit depends on what the store holds and on nothing else:
/// ascending entries of one mapping give one unit.
pub proof fn lemma_unit_of_entries(preamble: Seq<char>, entries: Seq<(Seq<char>, Seq<char>)>)
    requires
        ascending(entries),
    ensures
        unit_of(preamble, contents_of(entries)) == unit_text(preamble, entries),
{
    let chosen = choose|e: Seq<(Seq<char>, Seq<char>)>|
        ascending(e) && contents_of(e) == contents_of(entries);
    lemma_ascending_unique(chosen, entries);
}

/// Without fragments the source unit is the preamble and one line break.
pub proof fn lemma_unit_of_nothing(preamble: Seq<char>)
    ensures
        unit_of(preamble, Map::empty()) == preamble + line_break(),
{
    let none = Seq::<(Seq<char>, Seq<char>)>::empty();
    assert(ascending(none));
    lemma_unit_of_entries(preamble, none);
}

/// Whatever is contributed, in whatever order and however often under one
/// identifier: the source unit holds the fragments in strictly ascending
/// order of their identifiers, each identifier once, and under each the
/// text that was contributed for it last.
pub proof fn lemma_unit_of_contributions(
    preamble: Seq<char>,
    contributions: Seq<(Seq<char>, Seq<char>)>,
)
    ensures
        unit_of(preamble, contents_of(contributions)) == unit_text(preamble, ordered(contributions)),
        ascending(ordered(contributions)),
        forall|id: Seq<char>|
            has_identifier(ordered(contributions), id) <==> has_identifier(contributions, id),
        forall|i: int| #[trigger]
            is_last_under_its_identifier(contributions, i) ==> ordered(contributions).contains(
                contributions[i],
            ),
        forall|k: int|
            0 <= k < ordered(contributions).len() ==> was_contributed_last(
                contributions,
                #[trigger] ordered(contributions)[k],
            ),
{
    let e = ordered(contributions);
    lemma_ordered(contributions);
    lemma_unit_of_entries(preamble, e);
    lemma_contents_of_ascending(e);
    lemma_contents_dom(contributions);
    assert forall|id: Seq<char>| has_identifier(e, id) <==> has_identifier(contributions, id) by {
        assert(contents_of(e).dom().contains(id) <==> has_identifier(e, id));
        assert(contents_of(contributions).dom().contains(id) <==> has_identifier(contributions, id));
    }
    assert forall|i: int| #[trigger] is_last_under_its_identifier(contributions, i) implies e.contains(
        contributions[i],
    ) by {
        lemma_last_wins(contributions, i);
        let id = contributions[i].0;
        assert(has_identifier(e, id));
        let k = choose|k: int| 0 <= k < e.len() && (#[trigger] e[k]).0 == id;
        assert(e[k] == contributions[i]);
    }
    assert forall|k: int| 0 <= k < e.len() implies was_contributed_last(
        contributions,
        #[trigger] e[k],
    ) by {
        let id = e[k].0;
        assert(has_identifier(contributions, id));
        let i = last_naming(contributions, id);
        lemma_last_naming(contributions, id);
        lemma_last_wins(contributions, i);
        assert(is_last_under_its_identifier(contributions, i) && contributions[i] == e[k]);
    }
}

/// `entry` is a contribution, and the last one under its identifier.
pub open spec fn was_contributed_last(
    contributions: Seq<(Seq<char>, Seq<char>)>,
    entry: (Seq<char>, Seq<char>),
) -> bool {
    exists|i: int| #[trigger]
        is_last_under_its_identifier(contributions, i) && contributions[i] == entry
}

/// The index of the last contribution under `id`.
pub open spec fn last_naming(contributions: Seq<(Seq<char>, Seq<char>)>, id: Seq<char>) -> int
    decreases contributions.len(),
{
    if contributions.len() == 0 {
        -1
    } else if contributions.last().0 == id {
        contributions.len() - 1
    } else {
        last_naming(contributions.drop_last(), id)
    }
}

/// Where an identifier was contributed at all, `last_naming` is the index
/// of the last contribution under it.
pub proof fn lemma_last_naming(contributions: Seq<(Seq<char>, Seq<char>)>, id: Seq<char>)
    requires
        has_identifier(contributions, id),
    ensures
        is_last_under_its_identifier(contributions, last_naming(contributions, id)),
        contributions[last_naming(contributions, id)].0 == id,
    decreases contributions.len(),
{
    let n = contributions.len();
    if contributions.last().0 != id {
        let front = contributions.drop_last();
        let w = choose|i: int| 0 <= i < n && (#[trigger] contributions[i]).0 == id;
        assert(front[w].0 == id);
        lemma_last_naming(front, id);
        let at = last_naming(front, id);
        assert(front[at] == contributions[at]);
        assert forall|j: int| at < j < n implies (#[trigger] contributions[j]).0
            != contributions[at].0 by {
            if j < n - 1 {
                assert(front[j].0 != front[at].0);
            }
        }
    }
}

/// The source unit of `store` under `preamble`.
pub fn reconstruct_unit(preamble: &str, store: &FragmentStore) -> (unit: String)
    ensures
        unit@ == unit_text(preamble@, store.entries()),
        unit@ == unit_of(preamble@, store@),
        ascending(store.entries()),
{
    let mut unit = String::from_str(preamble);
    unit.append("\n");
    proof {
        reveal_strlit("\n");
        assert("\n"@ =~= line_break());
    }
    let n = store.len();
    let ghost entries = store.entries();
    let mut i: usize = 0;
    assert(entries.subrange(0, 0) =~= Seq::<(Seq<char>, Seq<char>)>::empty());
    while i < n
        invariant
            i <= n,
            n == entries.len(),
            entries == store.entries(),
            "\n"@ == line_break(),
            unit@ == unit_text(preamble@, entries.subrange(0, i as int)),
        decreases n - i,
    {
        let fragment = store.fragment(i);
        proof {
            let now = entries.subrange(0, i as int + 1);
            assert(now.drop_last() =~= entries.subrange(0, i as int));
            assert(now.last() == entries[i as int]);
        }
        unit.append(fragment.source_text.as_str());
        unit.append("\n");
        i = i + 1;
    }
    proof {
        assert(entries.subrange(0, n as int) =~= entries);
        lemma_unit_of_entries(preamble@, entries);
    }
    unit
}

/// Reconstructs the source unit of a project from the text of its store
/// file: the preamble alone where the project has no store file yet.
pub fn reconstruct_kernel_lib(existing: Option<&str>) -> (r: Result<String, StoreError>)
    ensures
        match r {
            Ok(unit) => {
                &&& loaded(optional_text(existing)) matches Some(contents)
                &&& loaded_entries(optional_text(existing)) matches Some(entries)
                &&& unit@ == unit_of(preamble_text(), contents)
                &&& unit@ == unit_text(preamble_text(), entries)
            },
            Err(e) => loaded(optional_text(existing)) is None && e == StoreError::Corrupt,
        },
        existing is None ==> r is Ok && r->Ok_0@ == preamble_text() + line_break(),
{
    match load(existing) {
        Ok(store) => {
            let text = preamble();
            let unit = reconstruct_unit(text.as_str(), &store);
            proof {
                if existing is None {
                    lemma_unit_of_nothing(preamble_text());
                }
            }
            Ok(unit)
        },
        Err(e) => Err(e),
    }
}

} // verus!
