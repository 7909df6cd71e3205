//! The fragment store: one source text per identifier, kept in the order of
//! the identifiers.

use crate::text::{
    compare_text, lemma_lex_irreflexive, lemma_lex_total, lemma_lex_transitive, lex_less, TextOrder,
};
use vstd::prelude::*;

verus! {

/// The entries are in strictly ascending order of their identifiers, so no
/// identifier occurs twice.
pub open spec fn ascending(e: Seq<(Seq<char>, Seq<char>)>) -> bool {
    forall|i: int, j: int| 0 <= i < j < e.len() ==> lex_less((#[trigger] e[i]).0, (#[trigger] e[j]).0)
}

/// The mapping that a run of contributions leaves behind: each identifier
/// with the text that was contributed for it last.
pub open spec fn contents_of(e: Seq<(Seq<char>, Seq<char>)>) -> Map<Seq<char>, Seq<char>>
    decreases e.len(),
{
    if e.len() == 0 {
        Map::empty()
    } else {
        contents_of(e.drop_last()).insert(e.last().0, e.last().1)
    }
}

/// The mapping `base` after a run of contributions: each of them put in,
/// in turn.
pub open spec fn put_all(
    base: Map<Seq<char>, Seq<char>>,
    contributions: Seq<(Seq<char>, Seq<char>)>,
) -> Map<Seq<char>, Seq<char>>
    decreases contributions.len(),
{
    if contributions.len() == 0 {
        base
    } else {
        put_all(base, contributions.drop_last()).insert(
            contributions.last().0,
            contributions.last().1,
        )
    }
}

/// `id` is the identifier of one of the entries.
pub open spec fn has_identifier(e: Seq<(Seq<char>, Seq<char>)>, id: Seq<char>) -> bool {
    exists|i: int| 0 <= i < e.len() && (#[trigger] e[i]).0 == id
}

/// Contributions to an empty store leave `contents_of` them.
pub proof fn lemma_put_all_from_nothing(contributions: Seq<(Seq<char>, Seq<char>)>)
    ensures
        put_all(Map::empty(), contributions) == contents_of(contributions),
    decreases contributions.len(),
{
    if contributions.len() > 0 {
        lemma_put_all_from_nothing(contributions.drop_last());
    }
}

/// The identifiers of `contents_of` are those of the entries.
pub proof fn lemma_contents_dom(e: Seq<(Seq<char>, Seq<char>)>)
    ensures
        contents_of(e).dom().finite(),
        forall|id: Seq<char>| #[trigger] contents_of(e).dom().contains(id) <==> has_identifier(e, id),
    decreases e.len(),
{
    if e.len() > 0 {
        let front = e.drop_last();
        let last = e.last();
        lemma_contents_dom(front);
        assert forall|id: Seq<char>| #[trigger]
            contents_of(e).dom().contains(id) <==> has_identifier(e, id) by {
            if id == last.0 {
                assert(e[e.len() - 1].0 == id);
            } else {
                if has_identifier(front, id) {
                    let i = choose|i: int| 0 <= i < front.len() && (#[trigger] front[i]).0 == id;
                    assert(e[i].0 == id);
                }
                if has_identifier(e, id) {
                    let i = choose|i: int| 0 <= i < e.len() && (#[trigger] e[i]).0 == id;
                    assert(front[i].0 == id);
                }
            }
        }
    }
}

/// The text of an identifier is that of the last entry that names it.
pub proof fn lemma_last_wins(e: Seq<(Seq<char>, Seq<char>)>, i: int)
    requires
        0 <= i < e.len(),
        forall|j: int| i < j < e.len() ==> (#[trigger] e[j]).0 != e[i].0,
    ensures
        contents_of(e).dom().contains(e[i].0),
        contents_of(e)[e[i].0] == e[i].1,
    decreases e.len(),
{
    if i < e.len() - 1 {
        let front = e.drop_last();
        assert(e[e.len() - 1].0 != e[i].0);
        assert(front[i] == e[i]);
        assert forall|j: int| i < j < front.len() implies (#[trigger] front[j]).0 != front[i].0 by {
            assert(e[j].0 != e[i].0);
        }
        lemma_last_wins(front, i);
    }
}

/// Ascending entries without their last one are ascending, and do not
/// hold the identifier of the last one.
pub proof fn lemma_ascending_front(e: Seq<(Seq<char>, Seq<char>)>)
    requires
        ascending(e),
        e.len() > 0,
    ensures
        ascending(e.drop_last()),
        !has_identifier(e.drop_last(), e.last().0),
{
    let front = e.drop_last();
    assert forall|i: int, j: int| 0 <= i < j < front.len() implies lex_less(
        (#[trigger] front[i]).0,
        (#[trigger] front[j]).0,
    ) by {
        assert(lex_less(e[i].0, e[j].0));
    }
    if has_identifier(front, e.last().0) {
        let i = choose|i: int| 0 <= i < front.len() && (#[trigger] front[i]).0 == e.last().0;
        assert(lex_less(e[i].0, e[e.len() - 1].0));
        lemma_lex_irreflexive(e.last().0);
    }
}

/// In ascending entries every entry gives the text of its identifier.
pub proof fn lemma_contents_of_ascending(e: Seq<(Seq<char>, Seq<char>)>)
    requires
        ascending(e),
    ensures
        contents_of(e).dom().finite(),
        forall|id: Seq<char>| #[trigger] contents_of(e).dom().contains(id) <==> has_identifier(e, id),
        forall|i: int|
            0 <= i < e.len() ==> contents_of(e).dom().contains((#[trigger] e[i]).0) && contents_of(
                e,
            )[e[i].0] == e[i].1,
{
    lemma_contents_dom(e);
    assert forall|i: int| 0 <= i < e.len() implies contents_of(e).dom().contains(
        (#[trigger] e[i]).0,
    ) && contents_of(e)[e[i].0] == e[i].1 by {
        assert forall|j: int| i < j < e.len() implies (#[trigger] e[j]).0 != e[i].0 by {
            assert(lex_less(e[i].0, e[j].0));
            lemma_lex_irreflexive(e[i].0);
        }
        lemma_last_wins(e, i);
    }
}

/// A mapping has one ascending sequence of entries only: what a store holds
/// decides the order in which it is read.
pub proof fn lemma_ascending_unique(a: Seq<(Seq<char>, Seq<char>)>, b: Seq<(Seq<char>, Seq<char>)>)
    requires
        ascending(a),
        ascending(b),
        contents_of(a) == contents_of(b),
    ensures
        a == b,
    decreases a.len(),
{
    lemma_contents_of_ascending(a);
    lemma_contents_of_ascending(b);
    if a.len() == 0 {
        if b.len() > 0 {
            assert(contents_of(b).dom().contains(b[0].0));
            assert(has_identifier(a, b[0].0));
        }
        assert(a =~= b);
    } else if b.len() == 0 {
        assert(contents_of(a).dom().contains(a[0].0));
        assert(has_identifier(b, a[0].0));
    } else {
        let la = a.last();
        let lb = b.last();
        assert(la.0 == lb.0) by {
            assert(contents_of(b).dom().contains(a[a.len() - 1].0));
            assert(has_identifier(b, la.0));
            let j = choose|j: int| 0 <= j < b.len() && (#[trigger] b[j]).0 == la.0;
            assert(contents_of(a).dom().contains(b[b.len() - 1].0));
            assert(has_identifier(a, lb.0));
            let i = choose|i: int| 0 <= i < a.len() && (#[trigger] a[i]).0 == lb.0;
            lemma_lex_total(la.0, lb.0);
            if lex_less(la.0, lb.0) {
                if i < a.len() - 1 {
                    assert(lex_less(a[i].0, a[a.len() - 1].0));
                }
            } else if la.0 != lb.0 {
                if j < b.len() - 1 {
                    assert(lex_less(b[j].0, b[b.len() - 1].0));
                }
            }
        }
        assert(la.1 == lb.1) by {
            assert(contents_of(a)[a[a.len() - 1].0] == la.1);
            assert(contents_of(b)[b[b.len() - 1].0] == lb.1);
        }
        let fa = a.drop_last();
        let fb = b.drop_last();
        lemma_ascending_front(a);
        lemma_ascending_front(b);
        lemma_contents_of_ascending(fa);
        lemma_contents_of_ascending(fb);
        assert(contents_of(fa) =~= contents_of(a).remove(la.0));
        assert(contents_of(fb) =~= contents_of(b).remove(lb.0));
        lemma_ascending_unique(fa, fb);
        assert(a =~= fa.push(la));
        assert(b =~= fb.push(lb));
    }
}

/// Placing `entry` at `at` in ascending entries, in place of the entry
/// there if `replace` says so, gives the mapping with `entry` put in.
pub proof fn lemma_place(
    old_entries: Seq<(Seq<char>, Seq<char>)>,
    at: int,
    replace: bool,
    entry: (Seq<char>, Seq<char>),
)
    requires
        ascending(old_entries),
        0 <= at <= old_entries.len(),
        forall|i: int| 0 <= i < at ==> lex_less((#[trigger] old_entries[i]).0, entry.0),
        replace ==> at < old_entries.len() && old_entries[at].0 == entry.0,
        !replace ==> forall|i: int|
            at <= i < old_entries.len() ==> lex_less(entry.0, (#[trigger] old_entries[i]).0),
    ensures
        ascending(placed(old_entries, at, replace, entry)),
        contents_of(placed(old_entries, at, replace, entry)) == contents_of(old_entries).insert(
            entry.0,
            entry.1,
        ),
{
    let new_entries = placed(old_entries, at, replace, entry);
    let shift: int = if replace {
        0
    } else {
        1
    };
    assert forall|i: int, j: int| 0 <= i < j < new_entries.len() implies lex_less(
        (#[trigger] new_entries[i]).0,
        (#[trigger] new_entries[j]).0,
    ) by {
        if j < at {
            assert(lex_less(old_entries[i].0, old_entries[j].0));
        } else if j == at {
            assert(lex_less(old_entries[i].0, entry.0));
        } else if i < at {
            assert(lex_less(old_entries[i].0, entry.0));
            if replace {
                assert(lex_less(old_entries[at].0, old_entries[j].0));
            } else {
                assert(lex_less(entry.0, old_entries[j - 1].0));
                lemma_lex_transitive(old_entries[i].0, entry.0, old_entries[j - 1].0);
            }
        } else if i == at {
            if replace {
                assert(lex_less(old_entries[at].0, old_entries[j].0));
            } else {
                assert(lex_less(entry.0, old_entries[j - 1].0));
            }
        } else {
            assert(lex_less(old_entries[i - shift].0, old_entries[j - shift].0));
        }
    }
    lemma_contents_of_ascending(old_entries);
    lemma_contents_of_ascending(new_entries);
    let before = contents_of(old_entries).insert(entry.0, entry.1);
    let after = contents_of(new_entries);
    assert forall|id: Seq<char>| before.dom().contains(id) implies #[trigger] after.dom().contains(
        id,
    ) && after[id] == before[id] by {
        if id == entry.0 {
            assert(new_entries[at] == entry);
            assert(after.dom().contains(new_entries[at].0));
        } else {
            assert(has_identifier(old_entries, id));
            let i = choose|i: int| 0 <= i < old_entries.len() && (#[trigger] old_entries[i]).0 == id;
            let j = if i < at {
                i
            } else {
                i + shift
            };
            assert(new_entries[j] == old_entries[i]);
            assert(after.dom().contains(new_entries[j].0));
            assert(contents_of(old_entries)[old_entries[i].0] == old_entries[i].1);
        }
    }
    assert forall|id: Seq<char>| after.dom().contains(id) implies #[trigger] before.dom().contains(
        id,
    ) by {
        assert(has_identifier(new_entries, id));
        let j = choose|j: int| 0 <= j < new_entries.len() && (#[trigger] new_entries[j]).0 == id;
        if j != at {
            let i = if j < at {
                j
            } else {
                j - shift
            };
            assert(old_entries[i] == new_entries[j]);
            assert(contents_of(old_entries).dom().contains(old_entries[i].0));
        }
    }
    assert(after =~= before);
}

/// The entries with `entry` at index `at`: in place of the entry there if
/// `replace`, before it if not.
pub open spec fn placed(
    old_entries: Seq<(Seq<char>, Seq<char>)>,
    at: int,
    replace: bool,
    entry: (Seq<char>, Seq<char>),
) -> Seq<(Seq<char>, Seq<char>)> {
    if replace {
        old_entries.update(at, entry)
    } else {
        old_entries.insert(at, entry)
    }
}

/// Where `id` belongs in ascending entries: the number of entries whose
/// identifiers come before it.
pub open spec fn position_of(e: Seq<(Seq<char>, Seq<char>)>, id: Seq<char>) -> int
    decreases e.len(),
{
    if e.len() == 0 {
        0
    } else if lex_less(e.last().0, id) {
        e.len() as int
    } else {
        position_of(e.drop_last(), id)
    }
}

/// Ascending entries with `entry` put in: in place of the entry with its
/// identifier if there is one, and else where its identifier belongs.
pub open spec fn upserted(e: Seq<(Seq<char>, Seq<char>)>, entry: (Seq<char>, Seq<char>)) -> Seq<
    (Seq<char>, Seq<char>),
> {
    let at = position_of(e, entry.0);
    placed(e, at, at < e.len() && e[at].0 == entry.0, entry)
}

/// The ascending entries that a run of contributions leaves behind.
pub open spec fn ordered(contributions: Seq<(Seq<char>, Seq<char>)>) -> Seq<(Seq<char>, Seq<char>)>
    decreases contributions.len(),
{
    if contributions.len() == 0 {
        Seq::empty()
    } else {
        upserted(ordered(contributions.drop_last()), contributions.last())
    }
}

/// The contribution at `i` is the last one under its identifier.
pub open spec fn is_last_under_its_identifier(
    contributions: Seq<(Seq<char>, Seq<char>)>,
    i: int,
) -> bool {
    &&& 0 <= i < contributions.len()
    &&& forall|j: int| i < j < contributions.len() ==> (#[trigger] contributions[j]).0
        != contributions[i].0
}

/// In ascending entries the identifiers before `position_of` come before
/// `id`, and those from it on do not.
pub proof fn lemma_position_of(e: Seq<(Seq<char>, Seq<char>)>, id: Seq<char>)
    requires
        ascending(e),
    ensures
        0 <= position_of(e, id) <= e.len(),
        forall|i: int| 0 <= i < position_of(e, id) ==> lex_less((#[trigger] e[i]).0, id),
        forall|i: int| position_of(e, id) <= i < e.len() ==> !lex_less((#[trigger] e[i]).0, id),
    decreases e.len(),
{
    if e.len() > 0 {
        let front = e.drop_last();
        lemma_ascending_front(e);
        if lex_less(e.last().0, id) {
            assert forall|i: int| 0 <= i < e.len() implies lex_less((#[trigger] e[i]).0, id) by {
                if i < e.len() - 1 {
                    assert(lex_less(e[i].0, e[e.len() - 1].0));
                    lemma_lex_transitive(e[i].0, e.last().0, id);
                }
            }
        } else {
            lemma_position_of(front, id);
            assert forall|i: int| 0 <= i < position_of(e, id) implies lex_less(
                (#[trigger] e[i]).0,
                id,
            ) by {
                assert(front[i] == e[i]);
            }
            assert forall|i: int| position_of(e, id) <= i < e.len() implies !lex_less(
                (#[trigger] e[i]).0,
                id,
            ) by {
                if i < e.len() - 1 {
                    assert(front[i] == e[i]);
                }
            }
        }
    }
}

/// Putting an entry into ascending entries leaves them ascending, and
/// their mapping with the entry put in.
pub proof fn lemma_upserted(e: Seq<(Seq<char>, Seq<char>)>, entry: (Seq<char>, Seq<char>))
    requires
        ascending(e),
    ensures
        ascending(upserted(e, entry)),
        contents_of(upserted(e, entry)) == contents_of(e).insert(entry.0, entry.1),
{
    lemma_position_of(e, entry.0);
    let at = position_of(e, entry.0);
    let replace = at < e.len() && e[at].0 == entry.0;
    if !replace {
        assert forall|i: int| at <= i < e.len() implies lex_less(entry.0, (#[trigger] e[i]).0) by {
            lemma_lex_total(e[i].0, entry.0);
            if e[i].0 == entry.0 {
                if at < i {
                    assert(lex_less(e[at].0, e[i].0));
                    lemma_lex_total(e[at].0, entry.0);
                }
            }
        }
    }
    lemma_place(e, at, replace, entry);
}

/// The entries that a run of contributions leaves are ascending, and
/// their mapping gives each identifier the text contributed for it last.
pub proof fn lemma_ordered(contributions: Seq<(Seq<char>, Seq<char>)>)
    ensures
        ascending(ordered(contributions)),
        contents_of(ordered(contributions)) == contents_of(contributions),
    decreases contributions.len(),
{
    if contributions.len() > 0 {
        lemma_ordered(contributions.drop_last());
        lemma_upserted(ordered(contributions.drop_last()), contributions.last());
    }
}

/// A list of pairs of strings as entries: identifier first, source text
/// second.
pub open spec fn entries_view(v: Seq<(String, String)>) -> Seq<(Seq<char>, Seq<char>)> {
    v.map_values(|p: (String, String)| (p.0@, p.1@))
}

/// One contributed unit: its identifier and its source text.
#[derive(Clone, Debug, PartialEq, Eq)]
pub struct Fragment {
    pub identifier: String,
    pub source_text: String,
}

impl View for Fragment {
    type V = (Seq<char>, Seq<char>);

    open spec fn view(&self) -> (Seq<char>, Seq<char>) {
        (self.identifier@, self.source_text@)
    }
}

/// The fragments of one project. Its view is the mapping from identifier to
/// source text; `entries` gives the same in the order of reading.
pub struct FragmentStore {
    fragments: Vec<Fragment>,
}

impl View for FragmentStore {
    type V = Map<Seq<char>, Seq<char>>;

    open spec fn view(&self) -> Map<Seq<char>, Seq<char>> {
        contents_of(self.entries())
    }
}

impl FragmentStore {
    /// The fragments as pairs of identifier and source text, as stored.
    pub closed spec fn entries(&self) -> Seq<(Seq<char>, Seq<char>)> {
        self.fragments@.map_values(|f: Fragment| f@)
    }

    #[verifier::type_invariant]
    closed spec fn in_order(&self) -> bool {
        ascending(self.entries())
    }

    /// A store without fragments.
    pub fn new() -> (s: FragmentStore)
        ensures
            s.entries() == Seq::<(Seq<char>, Seq<char>)>::empty(),
            s@ == Map::<Seq<char>, Seq<char>>::empty(),
    {
        let s = FragmentStore { fragments: Vec::new() };
        assert(s.entries() =~= Seq::<(Seq<char>, Seq<char>)>::empty());
        s
    }

    /// Number of fragments.
    pub fn len(&self) -> (n: usize)
        ensures
            n == self.entries().len(),
            n == self@.dom().len(),
            ascending(self.entries()),
    {
        proof {
            use_type_invariant(self);
            lemma_ascending_len(self.entries());
        }
        self.fragments.len()
    }

    /// Whether the store holds no fragment.
    pub fn is_empty(&self) -> (r: bool)
        ensures
            r == (self.entries().len() == 0),
            r == (self@ == Map::<Seq<char>, Seq<char>>::empty()),
    {
        proof {
            use_type_invariant(self);
            lemma_contents_of_ascending(self.entries());
            if self.entries().len() > 0 {
                assert(self@.dom().contains(self.entries()[0].0));
            } else {
                assert(self@ =~= Map::<Seq<char>, Seq<char>>::empty());
            }
        }
        self.fragments.len() == 0
    }

    /// The fragment at place `i` in the order of identifiers.
    pub fn fragment(&self, i: usize) -> (f: &Fragment)
        requires
            i < self.entries().len(),
        ensures
            f@ == self.entries()[i as int],
            ascending(self.entries()),
            self@.dom().contains(f@.0),
            self@[f@.0] == f@.1,
    {
        proof {
            use_type_invariant(self);
            lemma_contents_of_ascending(self.entries());
        }
        &self.fragments[i]
    }

    /// Where `identifier` is, or where it belongs: the index of the first
    /// fragment that does not come before it, and whether that fragment
    /// has this identifier.
    pub fn locate(&self, identifier: &str) -> (r: (usize, bool))
        ensures
            ascending(self.entries()),
            r.0 <= self.entries().len(),
            forall|i: int| 0 <= i < r.0 ==> lex_less((#[trigger] self.entries()[i]).0, identifier@),
            r.1 ==> r.0 < self.entries().len() && self.entries()[r.0 as int].0 == identifier@,
            !r.1 ==> forall|i: int|
                r.0 <= i < self.entries().len() ==> lex_less(
                    identifier@,
                    (#[trigger] self.entries()[i]).0,
                ),
            r.1 == self@.dom().contains(identifier@),
    {
        proof {
            use_type_invariant(self);
            lemma_contents_of_ascending(self.entries());
        }
        let ghost e = self.entries();
        let mut lo: usize = 0;
        let mut hi: usize = self.fragments.len();
        while lo < hi
            invariant
                e == self.entries(),
                ascending(e),
                lo <= hi <= e.len(),
                e.len() == self.fragments.len(),
                forall|i: int| 0 <= i < lo ==> lex_less((#[trigger] e[i]).0, identifier@),
                forall|i: int| hi <= i < e.len() ==> lex_less(identifier@, (#[trigger] e[i]).0),
            decreases hi - lo,
        {
            let mid: usize = lo + (hi - lo) / 2;
            let ghost m = e[mid as int].0;
            match compare_text(self.fragments[mid].identifier.as_str(), identifier) {
                TextOrder::Same => {
                    proof {
                        assert forall|i: int| 0 <= i < mid implies lex_less(
                            (#[trigger] e[i]).0,
                            identifier@,
                        ) by {
                            assert(lex_less(e[i].0, e[mid as int].0));
                        }
                        lemma_contents_of_ascending(e);
                        assert(has_identifier(e, identifier@));
                    }
                    return (mid, true);
                },
                TextOrder::Before => {
                    proof {
                        assert forall|i: int| 0 <= i < mid + 1 implies lex_less(
                            (#[trigger] e[i]).0,
                            identifier@,
                        ) by {
                            if i < mid {
                                assert(lex_less(e[i].0, e[mid as int].0));
                                lemma_lex_transitive(e[i].0, m, identifier@);
                            }
                        }
                    }
                    lo = mid + 1;
                },
                TextOrder::After => {
                    proof {
                        lemma_lex_total(m, identifier@);
                        assert forall|i: int| mid <= i < e.len() implies lex_less(
                            identifier@,
                            (#[trigger] e[i]).0,
                        ) by {
                            if mid < i {
                                assert(lex_less(e[mid as int].0, e[i].0));
                                lemma_lex_transitive(identifier@, m, e[i].0);
                            }
                        }
                    }
                    hi = mid;
                },
            }
        }
        proof {
            if has_identifier(e, identifier@) {
                let i = choose|i: int| 0 <= i < e.len() && (#[trigger] e[i]).0 == identifier@;
                lemma_lex_irreflexive(identifier@);
            }
        }
        (lo, false)
    }

    /// The source text stored under `identifier`, if there is one.
    pub fn get(&self, identifier: &str) -> (r: Option<&str>)
        ensures
            match r {
                Some(t) => self@.dom().contains(identifier@) && self@[identifier@] == t@,
                None => !self@.dom().contains(identifier@),
            },
    {
        let (at, found) = self.locate(identifier);
        if found {
            proof {
                lemma_contents_of_ascending(self.entries());
            }
            Some(self.fragments[at].source_text.as_str())
        } else {
            None
        }
    }

    /// Whether a fragment is stored under `identifier`.
    pub fn contains(&self, identifier: &str) -> (r: bool)
        ensures
            r == self@.dom().contains(identifier@),
    {
        self.locate(identifier).1
    }

    /// Stores `source_text` under `identifier`, in place of what was stored
    /// under it before.
    pub fn upsert(&mut self, identifier: &str, source_text: &str)
        ensures
            final(self)@ == old(self)@.insert(identifier@, source_text@),
            final(self).entries() == upserted(old(self).entries(), (identifier@, source_text@)),
            ascending(final(self).entries()),
    {
        let (at, found) = self.locate(identifier);
        let entry = Fragment {
            identifier: String::from_str(identifier),
            source_text: String::from_str(source_text),
        };
        proof {
            lemma_place(self.entries(), at as int, found, entry@);
        }
        let ghost before = self.entries();
        let ghost placed_entry = entry@;
        let mut fragments: Vec<Fragment> = Vec::new();
        std::mem::swap(&mut self.fragments, &mut fragments);
        if found {
            fragments.set(at, entry);
        } else {
            fragments.insert(at, entry);
        }
        assert(fragments@.map_values(|f: Fragment| f@) =~= placed(
            before,
            at as int,
            found,
            placed_entry,
        ));
        self.fragments = fragments;
        proof {
            lemma_upserted(before, placed_entry);
            lemma_ascending_unique(self.entries(), upserted(before, placed_entry));
        }
    }
}

impl FragmentStore {
    /// The store that contributing `entries` one after the other leaves: of
    /// two entries with one identifier the later one stays.
    pub fn from_entries(entries: &Vec<(String, String)>) -> (s: FragmentStore)
        ensures
            s@ == contents_of(entries_view(entries@)),
            s.entries() == ordered(entries_view(entries@)),
            ascending(s.entries()),
    {
        let mut s = FragmentStore::new();
        let ghost all = entries_view(entries@);
        let mut i: usize = 0;
        while i < entries.len()
            invariant
                i <= entries.len(),
                all == entries_view(entries@),
                s@ == contents_of(all.subrange(0, i as int)),
                s.entries() == ordered(all.subrange(0, i as int)),
                ascending(s.entries()),
            decreases entries.len() - i,
        {
            proof {
                let now = all.subrange(0, i as int + 1);
                assert(now.drop_last() =~= all.subrange(0, i as int));
                assert(now.last() == (entries@[i as int].0@, entries@[i as int].1@));
            }
            s.upsert(entries[i].0.as_str(), entries[i].1.as_str());
            i = i + 1;
        }
        assert(all.subrange(0, i as int) =~= all);
        s
    }

    /// The fragments as pairs of identifier and source text, in the order
    /// of the identifiers.
    pub fn to_entries(&self) -> (v: Vec<(String, String)>)
        ensures
            entries_view(v@) == self.entries(),
            ascending(self.entries()),
    {
        proof {
            use_type_invariant(self);
        }
        let mut v: Vec<(String, String)> = Vec::new();
        let mut i: usize = 0;
        while i < self.fragments.len()
            invariant
                i <= self.fragments.len(),
                v@.len() == i,
                forall|k: int|
                    0 <= k < i ==> (#[trigger] v@[k]).0@ == self.fragments@[k].identifier@
                        && v@[k].1@ == self.fragments@[k].source_text@,
            decreases self.fragments.len() - i,
        {
            let f = &self.fragments[i];
            v.push((f.identifier.clone(), f.source_text.clone()));
            i = i + 1;
        }
        assert(entries_view(v@) =~= self.entries());
        v
    }

    /// Whether this store and `other` hold the same mapping.
    pub fn same_contents(&self, other: &FragmentStore) -> (r: bool)
        ensures
            r == (self@ == other@),
            r == (self.entries() == other.entries()),
    {
        proof {
            use_type_invariant(self);
            use_type_invariant(other);
            if self@ == other@ {
                lemma_ascending_unique(self.entries(), other.entries());
            }
        }
        if self.fragments.len() != other.fragments.len() {
            return false;
        }
        let mut i: usize = 0;
        while i < self.fragments.len()
            invariant
                i <= self.fragments.len(),
                self.fragments.len() == other.fragments.len(),
                self@ == other@ ==> self.entries() == other.entries(),
                forall|k: int| 0 <= k < i ==> self.entries()[k] == other.entries()[k],
            decreases self.fragments.len() - i,
        {
            let a = &self.fragments[i];
            let b = &other.fragments[i];
            if !(a.identifier == b.identifier && a.source_text == b.source_text) {
                assert(self.entries()[i as int] != other.entries()[i as int]);
                return false;
            }
            i = i + 1;
        }
        assert(self.entries() =~= other.entries());
        true
    }
}

/// Whether two lists of pairs hold the same strings in the same places.
pub fn same_entries(a: &Vec<(String, String)>, b: &Vec<(String, String)>) -> (r: bool)
    ensures
        r == (entries_view(a@) == entries_view(b@)),
{
    if a.len() != b.len() {
        assert(entries_view(a@).len() != entries_view(b@).len());
        return false;
    }
    let mut i: usize = 0;
    while i < a.len()
        invariant
            i <= a.len(),
            a.len() == b.len(),
            forall|k: int| 0 <= k < i ==> entries_view(a@)[k] == entries_view(b@)[k],
        decreases a.len() - i,
    {
        if !(a[i].0 == b[i].0 && a[i].1 == b[i].1) {
            assert(entries_view(a@)[i as int] != entries_view(b@)[i as int]);
            return false;
        }
        i = i + 1;
    }
    assert(entries_view(a@) =~= entries_view(b@));
    true
}

/// Ascending entries are as many as their mapping has identifiers.
pub proof fn lemma_ascending_len(e: Seq<(Seq<char>, Seq<char>)>)
    requires
        ascending(e),
    ensures
        contents_of(e).dom().finite(),
        contents_of(e).dom().len() == e.len(),
    decreases e.len(),
{
    lemma_contents_of_ascending(e);
    if e.len() > 0 {
        let front = e.drop_last();
        lemma_ascending_front(e);
        lemma_ascending_len(front);
        lemma_contents_of_ascending(front);
        assert(!contents_of(front).dom().contains(e.last().0));
    }
}

} // verus!
