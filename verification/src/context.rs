//! What one request carries with it: the batch loader for nodes.
//!
//! The loader gathers the identifiers that the fields of a request ask for,
//! hands them out as one batch, and deals the rows of the one answer back to
//! each identifier. A loader lives as long as its request and no longer.

use crate::errors::{ErrorKind, RepositoryError, RepositoryErrorView};
use crate::models::{Node, NodeView};
use crate::repository::{
    contains_id, first_node_with_id, missing, node_not_found, node_with_id, one_row,
};
use crate::store::{
    first_where, lemma_first_where_found, lemma_first_where_is_first, lemma_first_where_none,
    refusal, result_view, Reply, ReplyView, Statement, StatementView, Step, StepView,
};
use vstd::prelude::*;

verus! {

/// What the loader holds for one identifier: nothing yet, or the outcome.
struct Entry {
    id: i32,
    outcome: Option<Result<Node, RepositoryError>>,
}

pub struct EntryView {
    pub id: i32,
    pub outcome: Option<Result<NodeView, RepositoryErrorView>>,
}

/// The loader of one request.
pub struct BatchLoader {
    entries: Vec<Entry>,
}

/// What a request carries through its fields.
pub struct Context {
    pub loader: BatchLoader,
}

pub open spec fn outcome_view(outcome: Option<Result<Node, RepositoryError>>) -> Option<
    Result<NodeView, RepositoryErrorView>,
> {
    match outcome {
        Some(result) => Some(result_view(result)),
        None => None,
    }
}

impl DeepView for Entry {
    type V = EntryView;

    closed spec fn deep_view(&self) -> EntryView {
        EntryView { id: self.id, outcome: outcome_view(self.outcome) }
    }
}

impl DeepView for BatchLoader {
    type V = Seq<EntryView>;

    closed spec fn deep_view(&self) -> Seq<EntryView> {
        self.entries.deep_view()
    }
}

pub open spec fn nodes_not_loaded() -> Seq<char> {
    "Unable to load nodes: "@
}

/// The identifiers that the loader has been asked for, in the order of asking.
pub open spec fn entry_ids(entries: Seq<EntryView>) -> Seq<i32> {
    entries.map_values(|entry: EntryView| entry.id)
}

pub open spec fn is_pending() -> spec_fn(EntryView) -> bool {
    |entry: EntryView| entry.outcome is None
}

pub open spec fn entry_with_id(id: i32) -> spec_fn(EntryView) -> bool {
    |entry: EntryView| entry.id == id
}

/// The loader after `id` was asked for: a new identifier waits; one that the
/// loader has met changes nothing.
pub open spec fn loaded(entries: Seq<EntryView>, id: i32) -> Seq<EntryView> {
    if entry_ids(entries).contains(id) {
        entries
    } else {
        entries.push(EntryView { id, outcome: None })
    }
}

/// The loader after each of `ids` was asked for, in turn.
pub open spec fn loaded_all(entries: Seq<EntryView>, ids: Seq<i32>) -> Seq<EntryView>
    decreases ids.len(),
{
    if ids.len() == 0 {
        entries
    } else {
        loaded(loaded_all(entries, ids.drop_last()), ids.last())
    }
}

/// The identifiers that wait for the next batch.
pub open spec fn batch_of(entries: Seq<EntryView>) -> Seq<i32> {
    entry_ids(entries.filter(is_pending()))
}

/// What one identifier gets out of a batch: its row; a failure of its own
/// where the batch holds no row for it; the failure of the batch where the
/// batch failed.
pub open spec fn outcome_for(loaded: Result<Seq<NodeView>, RepositoryErrorView>, id: i32)
    -> Result<NodeView, RepositoryErrorView> {
    match loaded {
        Ok(rows) => one_row(first_where(rows, node_with_id(id)), node_not_found()),
        Err(e) => Err(e),
    }
}

/// An entry after the batch for `keys` came back.
pub open spec fn settled(
    entry: EntryView,
    keys: Seq<i32>,
    loaded: Result<Seq<NodeView>, RepositoryErrorView>,
) -> EntryView {
    if entry.outcome is None && keys.contains(entry.id) {
        EntryView { id: entry.id, outcome: Some(outcome_for(loaded, entry.id)) }
    } else {
        entry
    }
}

/// The loader after the batch for `keys` came back.
pub open spec fn delivered(
    entries: Seq<EntryView>,
    keys: Seq<i32>,
    loaded: Result<Seq<NodeView>, RepositoryErrorView>,
) -> Seq<EntryView> {
    entries.map_values(|entry: EntryView| settled(entry, keys, loaded))
}

/// What the loader holds for `id`: nothing where the identifier is unknown or
/// still waits.
pub open spec fn outcome_in(entries: Seq<EntryView>, id: i32) -> Option<
    Result<NodeView, RepositoryErrorView>,
> {
    match first_where(entries, entry_with_id(id)) {
        Some(entry) => entry.outcome,
        None => None,
    }
}

/// The batch function: the nodes with the identifiers `keys`, in one lookup.
pub open spec fn nodes_by_ids(keys: Seq<i32>, replies: Seq<ReplyView>) -> StepView<
    Seq<NodeView>,
    RepositoryErrorView,
> {
    if replies.len() == 0 {
        StepView::Ask(StatementView::NodesByIds(keys))
    } else {
        match replies[0] {
            ReplyView::Nodes(rows) => StepView::Done(Ok(rows)),
            other => StepView::Done(Err(refusal(other, ErrorKind::Query, nodes_not_loaded()))),
        }
    }
}

fn copy_ids(ids: &Vec<i32>) -> (copy: Vec<i32>)
    ensures
        copy@ == ids@,
{
    let mut copy: Vec<i32> = Vec::new();
    let mut i: usize = 0;
    while i < ids.len()
        invariant
            i <= ids@.len(),
            copy@ == ids@.take(i as int),
        decreases ids@.len() - i,
    {
        copy.push(ids[i]);
        assert(ids@.take(i + 1) =~= ids@.take(i as int).push(ids@[i as int]));
        i = i + 1;
    }
    assert(ids@.take(ids@.len() as int) =~= ids@);
    copy
}

fn copy_nodes(rows: &Vec<Node>) -> (copy: Vec<Node>)
    ensures
        copy.deep_view() == rows.deep_view(),
{
    let mut copy: Vec<Node> = Vec::new();
    let mut i: usize = 0;
    while i < rows.len()
        invariant
            i <= rows@.len(),
            copy@.len() == i,
            forall|k: int| 0 <= k < i ==> copy@[k] == rows@[k],
        decreases rows@.len() - i,
    {
        copy.push(rows[i].clone());
        i = i + 1;
    }
    assert(copy.deep_view() =~= rows.deep_view());
    copy
}

fn copy_outcome(outcome: &Option<Result<Node, RepositoryError>>) -> (copy: Option<
    Result<Node, RepositoryError>,
>)
    ensures
        copy == *outcome,
{
    match outcome {
        None => None,
        Some(Ok(node)) => Some(Ok(node.clone())),
        Some(Err(e)) => Some(Err(e.clone())),
    }
}

fn outcome_from(loaded: &Result<Vec<Node>, RepositoryError>, id: i32) -> (r: Result<
    Node,
    RepositoryError,
>)
    ensures
        result_view(r) == outcome_for(result_view(*loaded), id),
{
    match loaded {
        Ok(rows) => match first_node_with_id(rows, id) {
            Some(node) => Ok(node),
            None => Err(RepositoryError::new(ErrorKind::NotFound, "Node node found: ", "NotFound")),
        },
        Err(e) => Err(e.clone()),
    }
}

impl BatchLoader {
    #[verifier::type_invariant]
    spec fn distinct(self) -> bool {
        entry_ids(self.entries.deep_view()).no_duplicates()
    }

    /// A loader that has been asked for nothing.
    pub fn new() -> (loader: BatchLoader)
        ensures
            loader.deep_view() == Seq::<EntryView>::empty(),
            entry_ids(loader.deep_view()).no_duplicates(),
    {
        let entries: Vec<Entry> = Vec::new();
        assert(entries.deep_view() =~= Seq::<EntryView>::empty());
        BatchLoader { entries }
    }

    /// Moves the entries out, to be changed and put back.
    fn take_entries(&mut self) -> (entries: Vec<Entry>)
        ensures
            entries == old(self).entries,
    {
        let mut entries: Vec<Entry> = Vec::new();
        assert(entries.deep_view() =~= Seq::<EntryView>::empty());
        core::mem::swap(&mut self.entries, &mut entries);
        entries
    }

    fn position(&self, id: i32) -> (at: Option<usize>)
        ensures
            at matches Some(i) ==> i < self.deep_view().len() && self.deep_view()[i as int].id
                == id && first_where(self.deep_view(), entry_with_id(id)) == Some(
                self.deep_view()[i as int],
            ) && entry_ids(self.deep_view()).contains(id),
            at is None ==> !entry_ids(self.deep_view()).contains(id) && first_where(
                self.deep_view(),
                entry_with_id(id),
            ) is None,
    {
        let mut i: usize = 0;
        while i < self.entries.len()
            invariant
                i <= self.entries@.len(),
                forall|k: int| 0 <= k < i ==> !entry_with_id(id)(self.entries.deep_view()[k]),
            decreases self.entries@.len() - i,
        {
            if self.entries[i].id == id {
                proof {
                    lemma_first_where_found(self.entries.deep_view(), entry_with_id(id), i as int);
                    assert(entry_ids(self.entries.deep_view())[i as int] == id);
                }
                return Some(i);
            }
            i = i + 1;
        }
        proof {
            lemma_first_where_none(self.entries.deep_view(), entry_with_id(id));
            assert forall|k: int| 0 <= k < entry_ids(self.deep_view()).len() implies entry_ids(
                self.deep_view(),
            )[k] != id by {
                assert(!entry_with_id(id)(self.entries.deep_view()[k]));
            }
        }
        None
    }

    /// Records that the node `id` is wanted. The store is not asked.
    pub fn load(&mut self, id: i32)
        ensures
            final(self).deep_view() == loaded(old(self).deep_view(), id),
            entry_ids(final(self).deep_view()).no_duplicates(),
    {
        proof {
            use_type_invariant(&*self);
        }
        if self.position(id).is_none() {
            let ghost before = self.entries.deep_view();
            let mut entries = self.take_entries();
            entries.push(Entry { id, outcome: None });
            proof {
                let after = entries.deep_view();
                assert(after =~= before.push(EntryView { id, outcome: None }));
                assert(entry_ids(after) =~= entry_ids(before).push(id));
            }
            self.entries = entries;
        }
    }

    /// The identifiers that wait, each once, in the order of asking. They are
    /// the keys of the next batch; where none waits there is no batch to ask.
    pub fn batch(&self) -> (keys: Vec<i32>)
        ensures
            keys@ == batch_of(self.deep_view()),
            keys@.no_duplicates(),
    {
        proof {
            use_type_invariant(self);
            reveal(Seq::filter);
        }
        let ghost entries = self.entries.deep_view();
        let mut keys: Vec<i32> = Vec::new();
        let mut i: usize = 0;
        assert(entries.take(0) =~= Seq::<EntryView>::empty());
        assert(keys@ =~= batch_of(entries.take(0)));
        while i < self.entries.len()
            invariant
                i <= self.entries@.len(),
                entries == self.entries.deep_view(),
                keys@ == batch_of(entries.take(i as int)),
            decreases self.entries@.len() - i,
        {
            proof {
                crate::repository::lemma_filter_next(entries, is_pending(), i as int);
            }
            if self.entries[i].outcome.is_none() {
                let ghost kept = entries.take(i as int).filter(is_pending());
                keys.push(self.entries[i].id);
                assert(entry_ids(kept.push(entries[i as int])) =~= entry_ids(kept).push(
                    entries[i as int].id,
                ));
            }
            i = i + 1;
        }
        proof {
            assert(entries.take(entries.len() as int) =~= entries);
            lemma_batch_distinct(entries);
        }
        keys
    }

    /// Deals out what the batch for `keys` brought: each waiting identifier
    /// among `keys` gets its own outcome. Identifiers that were asked for
    /// after the batch was taken go on waiting.
    pub fn deliver(&mut self, keys: &Vec<i32>, loaded: &Result<Vec<Node>, RepositoryError>)
        ensures
            final(self).deep_view() == delivered(
                old(self).deep_view(),
                keys@,
                result_view(*loaded),
            ),
            entry_ids(final(self).deep_view()).no_duplicates(),
    {
        proof {
            use_type_invariant(&*self);
        }
        let ghost before = self.entries.deep_view();
        let mut entries = self.take_entries();
        let mut i: usize = 0;
        while i < entries.len()
            invariant
                i <= entries@.len(),
                entries@.len() == before.len(),
                entry_ids(before).no_duplicates(),
                forall|k: int|
                    0 <= k < i ==> entries.deep_view()[k] == settled(
                        before[k],
                        keys@,
                        result_view(*loaded),
                    ),
                forall|k: int| i <= k < before.len() ==> entries.deep_view()[k] == before[k],
            decreases entries@.len() - i,
        {
            if entries[i].outcome.is_none() && contains_id(keys, entries[i].id) {
                let id = entries[i].id;
                let outcome = outcome_from(loaded, id);
                let ghost earlier = entries.deep_view();
                entries.set(i, Entry { id, outcome: Some(outcome) });
                assert(entries.deep_view() =~= earlier.update(
                    i as int,
                    EntryView { id, outcome: Some(result_view(outcome)) },
                ));
            }
            i = i + 1;
        }
        proof {
            let after = delivered(before, keys@, result_view(*loaded));
            assert(entries.deep_view() =~= after);
            assert(entry_ids(after) =~= entry_ids(before));
        }
        self.entries = entries;
    }

    /// What the loader holds for the node `id`: `None` while the identifier
    /// waits, or where it was never asked for.
    pub fn outcome(&self, id: i32) -> (outcome: Option<Result<Node, RepositoryError>>)
        ensures
            outcome_view(outcome) == outcome_in(self.deep_view(), id),
    {
        match self.position(id) {
            Some(i) => copy_outcome(&self.entries[i].outcome),
            None => None,
        }
    }
}

impl Context {
    /// The context of a new request.
    pub fn new() -> (context: Context)
        ensures
            context.loader.deep_view() == Seq::<EntryView>::empty(),
            entry_ids(context.loader.deep_view()).no_duplicates(),
    {
        Context { loader: BatchLoader::new() }
    }

    /// The batch function: the nodes with the identifiers `keys`.
    pub fn load(&self, keys: &Vec<i32>, replies: &Vec<Reply>) -> (step: Step<
        Vec<Node>,
        RepositoryError,
    >)
        ensures
            step.deep_view() == nodes_by_ids(keys@, replies.deep_view()),
    {
        if replies.len() == 0 {
            return Step::Ask(Statement::NodesByIds(copy_ids(keys)));
        }
        match &replies[0] {
            Reply::Nodes(rows) => Step::Done(Ok(copy_nodes(rows))),
            other => Step::Done(Err(other.refusal(ErrorKind::Query, "Unable to load nodes: "))),
        }
    }
}

/// Asking keeps the identifiers of the loader distinct, and adds `id` to
/// them if it is new.
pub proof fn lemma_loaded_ids(entries: Seq<EntryView>, id: i32)
    requires
        entry_ids(entries).no_duplicates(),
    ensures
        entry_ids(loaded(entries, id)).no_duplicates(),
        entry_ids(loaded(entries, id)).contains(id),
        forall|other: i32|
            entry_ids(entries).contains(other) ==> #[trigger] entry_ids(
                loaded(entries, id),
            ).contains(other),
        forall|other: i32| #[trigger]
            entry_ids(loaded(entries, id)).contains(other) ==> other == id || entry_ids(
                entries,
            ).contains(other),
{
    let after = loaded(entries, id);
    if !entry_ids(entries).contains(id) {
        assert(entry_ids(after) =~= entry_ids(entries).push(id));
        assert(entry_ids(after)[entries.len() as int] == id);
        assert forall|other: i32| entry_ids(entries).contains(other) implies #[trigger] entry_ids(
            after,
        ).contains(other) by {
            let k = choose|k: int|
                0 <= k < entry_ids(entries).len() && entry_ids(entries)[k] == other;
            assert(entry_ids(after)[k] == other);
        }
    }
}

/// The waiting identifiers are the identifiers of the waiting entries: each
/// entry that waits is named, and nothing else is.
pub proof fn lemma_batch_members(entries: Seq<EntryView>, id: i32)
    ensures
        batch_of(entries).contains(id) <==> exists|k: int|
            0 <= k < entries.len() && (#[trigger] entries[k]).id == id && entries[k].outcome
                is None,
{
    let waiting = entries.filter(is_pending());
    if batch_of(entries).contains(id) {
        let j = choose|j: int| 0 <= j < batch_of(entries).len() && batch_of(entries)[j] == id;
        assert(waiting[j].id == id);
        entries.lemma_filter_pred(is_pending(), j);
        assert(waiting.contains(waiting[j]));
        entries.lemma_filter_contains_rev(is_pending(), waiting[j]);
        let k = choose|k: int| 0 <= k < entries.len() && entries[k] == waiting[j];
        assert(entries[k].id == id && entries[k].outcome is None);
    }
    if exists|k: int|
        0 <= k < entries.len() && (#[trigger] entries[k]).id == id && entries[k].outcome is None {
        let k = choose|k: int|
            0 <= k < entries.len() && (#[trigger] entries[k]).id == id && entries[k].outcome
                is None;
        assert(is_pending()(entries[k]));
        entries.lemma_filter_contains(is_pending(), k);
        let j = choose|j: int| 0 <= j < waiting.len() && waiting[j] == entries[k];
        assert(batch_of(entries)[j] == id);
    }
}

/// Where the identifiers of the loader are distinct, so are the waiting ones.
pub proof fn lemma_batch_distinct(entries: Seq<EntryView>)
    requires
        entry_ids(entries).no_duplicates(),
    ensures
        batch_of(entries).no_duplicates(),
    decreases entries.len(),
{
    reveal(Seq::filter);
    if entries.len() > 0 {
        let rest = entries.drop_last();
        let last = entries.last();
        assert(entry_ids(rest) =~= entry_ids(entries).drop_last());
        lemma_batch_distinct(rest);
        if last.outcome is None {
            assert(batch_of(entries) =~= batch_of(rest).push(last.id));
            assert forall|j: int| 0 <= j < batch_of(rest).len() implies batch_of(rest)[j]
                != last.id by {
                assert(batch_of(rest).contains(batch_of(rest)[j]));
                lemma_batch_members(rest, batch_of(rest)[j]);
                let k = choose|k: int|
                    0 <= k < rest.len() && (#[trigger] rest[k]).id == batch_of(rest)[j]
                        && rest[k].outcome is None;
                assert(entry_ids(entries)[k] == rest[k].id);
                assert(entry_ids(entries)[entries.len() - 1] == last.id);
            }
        } else {
            assert(batch_of(entries) =~= batch_of(rest));
        }
    }
}

/// A loader that was only asked holds distinct identifiers, all waiting:
/// exactly those it was asked for.
pub proof fn lemma_loaded_all(ids: Seq<i32>)
    ensures
        entry_ids(loaded_all(Seq::empty(), ids)).no_duplicates(),
        forall|k: int|
            0 <= k < loaded_all(Seq::empty(), ids).len() ==> (#[trigger] loaded_all(
                Seq::empty(),
                ids,
            )[k]).outcome is None,
        forall|id: i32| #[trigger]
            entry_ids(loaded_all(Seq::empty(), ids)).contains(id) <==> ids.contains(id),
    decreases ids.len(),
{
    let start = Seq::<EntryView>::empty();
    if ids.len() == 0 {
        assert(entry_ids(start) =~= Seq::<i32>::empty());
    } else {
        let before = loaded_all(start, ids.drop_last());
        lemma_loaded_all(ids.drop_last());
        lemma_loaded_ids(before, ids.last());
        let after = loaded_all(start, ids);
        assert forall|id: i32| #[trigger] entry_ids(after).contains(id) <==> ids.contains(
            id,
        ) by {
            if ids.contains(id) {
                let k = choose|k: int| 0 <= k < ids.len() && ids[k] == id;
                if k < ids.len() - 1 {
                    assert(ids.drop_last()[k] == id);
                    assert(entry_ids(before).contains(id));
                }
            }
            if entry_ids(after).contains(id) && id != ids.last() {
                assert(entry_ids(before).contains(id));
                assert(ids.drop_last().contains(id));
                let k = choose|k: int| 0 <= k < ids.drop_last().len() && ids.drop_last()[k] == id;
                assert(ids[k] == id);
            }
            if id == ids.last() {
                assert(ids[ids.len() - 1] == id);
            }
        }
    }
}

/// One batch for many askers. However often and in whatever order the fields
/// of a request ask a new loader for nodes, the next batch names each
/// identifier that was asked for, and names it once.
pub proof fn lemma_one_batch_names_each_once(ids: Seq<i32>)
    ensures
        batch_of(loaded_all(Seq::empty(), ids)).no_duplicates(),
        forall|id: i32| #[trigger]
            batch_of(loaded_all(Seq::empty(), ids)).contains(id) <==> ids.contains(id),
{
    let entries = loaded_all(Seq::<EntryView>::empty(), ids);
    lemma_loaded_all(ids);
    lemma_batch_distinct(entries);
    assert forall|id: i32| #[trigger] batch_of(entries).contains(id) <==> ids.contains(id) by {
        lemma_batch_members(entries, id);
        assert(entry_ids(entries).contains(id) <==> ids.contains(id));
        if ids.contains(id) {
            let k = choose|k: int| 0 <= k < entry_ids(entries).len() && entry_ids(entries)[k] == id;
            assert(entries[k].id == id && entries[k].outcome is None);
        }
        if batch_of(entries).contains(id) {
            let k = choose|k: int|
                0 <= k < entries.len() && (#[trigger] entries[k]).id == id && entries[k].outcome
                    is None;
            assert(entry_ids(entries)[k] == id);
        }
    }
}

/// What the loader holds for `id` after a delivery is what the delivery made
/// of the entry of `id`.
pub proof fn lemma_outcome_after_delivery(
    entries: Seq<EntryView>,
    keys: Seq<i32>,
    loaded: Result<Seq<NodeView>, RepositoryErrorView>,
    id: i32,
)
    ensures
        outcome_in(delivered(entries, keys, loaded), id) == match first_where(
            entries,
            entry_with_id(id),
        ) {
            Some(entry) => settled(entry, keys, loaded).outcome,
            None => None,
        },
    decreases entries.len(),
{
    if entries.len() > 0 {
        assert(delivered(entries, keys, loaded).drop_first() =~= delivered(
            entries.drop_first(),
            keys,
            loaded,
        ));
        lemma_outcome_after_delivery(entries.drop_first(), keys, loaded, id);
    }
}

/// Each identifier of a batch gets an outcome of its own. Once the batch for
/// `keys` is delivered, a waiting identifier among them holds the first row
/// of the batch that bears it, or, where no row does, a `NotFound` failure;
/// where the batch failed, it holds that failure. What the batch holds for
/// the other identifiers plays no part.
pub proof fn lemma_delivery_settles_each_key(
    entries: Seq<EntryView>,
    keys: Seq<i32>,
    loaded: Result<Seq<NodeView>, RepositoryErrorView>,
    id: i32,
)
    requires
        entry_ids(entries).contains(id),
        outcome_in(entries, id) is None,
        keys.contains(id),
    ensures
        outcome_in(delivered(entries, keys, loaded), id) == Some(outcome_for(loaded, id)),
        loaded matches Ok(rows) ==> outcome_for(loaded, id) == match first_where(
            rows,
            node_with_id(id),
        ) {
            Some(node) => Ok::<NodeView, RepositoryErrorView>(node),
            None => Err(missing(ErrorKind::NotFound, node_not_found())),
        },
        loaded matches Err(e) ==> outcome_for(loaded, id) == Err::<NodeView, RepositoryErrorView>(
            e,
        ),
{
    lemma_outcome_after_delivery(entries, keys, loaded, id);
    lemma_first_where_is_first(entries, entry_with_id(id));
    if first_where(entries, entry_with_id(id)) is None {
        let k = choose|k: int| 0 <= k < entry_ids(entries).len() && entry_ids(entries)[k] == id;
        assert(entry_with_id(id)(entries[k]));
    }
}

/// After the batch of everything that waits is delivered, nothing waits: the
/// same request asks the store for these nodes once.
pub proof fn lemma_nothing_waits_after_delivery(
    entries: Seq<EntryView>,
    loaded: Result<Seq<NodeView>, RepositoryErrorView>,
)
    ensures
        batch_of(delivered(entries, batch_of(entries), loaded)) == Seq::<i32>::empty(),
{
    let after = delivered(entries, batch_of(entries), loaded);
    if batch_of(after).len() > 0 {
        let id = batch_of(after)[0];
        assert(batch_of(after).contains(id));
        lemma_batch_members(after, id);
        let k = choose|k: int|
            0 <= k < after.len() && (#[trigger] after[k]).id == id && after[k].outcome is None;
        assert(after[k] == settled(entries[k], batch_of(entries), loaded));
        lemma_batch_members(entries, entries[k].id);
    }
    assert(batch_of(after) =~= Seq::<i32>::empty());
}

/// The rows of a batch come in no order, and need none. Where no two rows
/// bear the same identifier, each identifier gets the row that bears it,
/// wherever in the batch that row stands.
pub proof fn lemma_row_found_wherever_it_stands(rows: Seq<NodeView>, at: int)
    requires
        0 <= at < rows.len(),
        forall|i: int, j: int| 0 <= i < j < rows.len() ==> rows[i].id != rows[j].id,
    ensures
        outcome_for(Ok(rows), rows[at].id) == Ok::<NodeView, RepositoryErrorView>(rows[at]),
{
    lemma_first_where_found(rows, node_with_id(rows[at].id), at);
}

} // verus!
