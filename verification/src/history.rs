use vstd::prelude::*;

use crate::clock::now_secs;
use crate::text::is_blank;
use crate::text::is_blank_text;

verus! {

/// The most entries the history ever holds; an accepted insertion beyond it
/// evicts the oldest entry.
pub const MAX_HISTORY: usize = 100;

/// One recorded clipboard value.
#[derive(Debug)]
pub struct ClipboardItem {
    pub id: u64,
    pub content: String,
    pub timestamp: u64,
    pub content_type: String,
}

/// The mathematical face of a `ClipboardItem`.
#[verifier::ext_equal]
pub ghost struct EntryModel {
    pub id: u64,
    pub content: Seq<char>,
    pub timestamp: u64,
    pub content_type: Seq<char>,
}

impl ClipboardItem {
    pub open spec fn model(self) -> EntryModel {
        EntryModel {
            id: self.id,
            content: self.content@,
            timestamp: self.timestamp,
            content_type: self.content_type@,
        }
    }
}

impl Clone for ClipboardItem {
    fn clone(&self) -> (copy: Self)
        ensures
            copy == *self,
    {
        ClipboardItem {
            id: self.id,
            content: self.content.clone(),
            timestamp: self.timestamp,
            content_type: self.content_type.clone(),
        }
    }
}

/// The identifier an entry gets: the timestamp plus the length of the history
/// at insertion time, held at `u64::MAX` where the sum would not fit.
pub open spec fn id_for(timestamp: u64, len_at_insert: nat) -> u64 {
    if timestamp + len_at_insert <= u64::MAX {
        (timestamp + len_at_insert) as u64
    } else {
        u64::MAX
    }
}

/// Whether the history accepts an insertion of `content`: blank values are
/// rejected, and so is a value equal to the current front (most recent)
/// entry's content. A value reappearing deeper in the history is accepted.
pub open spec fn accepts(history: Seq<EntryModel>, content: Seq<char>) -> bool {
    &&& !is_blank_text(content)
    &&& (history.len() == 0 || history[0].content != content)
}

/// The entry built for an accepted insertion.
pub open spec fn new_entry(content: Seq<char>, timestamp: u64, len_at_insert: nat) -> EntryModel {
    EntryModel {
        id: id_for(timestamp, len_at_insert),
        content: content,
        timestamp: timestamp,
        content_type: "text"@,
    }
}

/// What one insertion does to the history: a rejected insertion changes
/// nothing; an accepted one pushes a new entry at the front and, past the
/// capacity, drops the oldest entry at the back.
pub open spec fn insert_model(
    history: Seq<EntryModel>,
    content: Seq<char>,
    timestamp: u64,
) -> Seq<EntryModel> {
    if accepts(history, content) {
        let grown = seq![new_entry(content, timestamp, history.len())] + history;
        if grown.len() <= MAX_HISTORY {
            grown
        } else {
            grown.take(MAX_HISTORY as int)
        }
    } else {
        history
    }
}

/// The store's invariant: within capacity, and no two neighbouring entries
/// with the same content.
pub open spec fn wf_history(history: Seq<EntryModel>) -> bool {
    &&& history.len() <= MAX_HISTORY
    &&& forall|i: int|
        0 < i < history.len() ==> (#[trigger] history[i]).content != history[i - 1].content
}

/// An insertion keeps the invariant: the new front differs from the old one
/// whenever both are present, and eviction only shortens the sequence.
pub proof fn lemma_insert_model_wf(history: Seq<EntryModel>, content: Seq<char>, timestamp: u64)
    requires
        wf_history(history),
    ensures
        wf_history(insert_model(history, content, timestamp)),
{
    if accepts(history, content) {
        let grown = seq![new_entry(content, timestamp, history.len())] + history;
        assert forall|i: int| 0 < i < grown.len() implies (#[trigger] grown[i]).content
            != grown[i - 1].content by {
            if i == 1 {
                assert(grown[0].content == content);
                assert(grown[1] == history[0]);
            } else {
                assert(grown[i] == history[i - 1]);
                assert(grown[i - 1] == history[i - 2]);
            }
        }
        if grown.len() > MAX_HISTORY {
            let kept = grown.take(MAX_HISTORY as int);
            assert forall|i: int| 0 < i < kept.len() implies (#[trigger] kept[i]).content
                != kept[i - 1].content by {
                assert(kept[i] == grown[i]);
                assert(kept[i - 1] == grown[i - 1]);
            }
        }
    }
}

/// Inserting the front entry's content again changes nothing: neither the
/// length nor any entry of the history.
pub proof fn lemma_dedup_at_front(history: Seq<EntryModel>, content: Seq<char>, timestamp: u64)
    requires
        history.len() > 0,
        history[0].content == content,
    ensures
        insert_model(history, content, timestamp) == history,
{
}

/// One insertion of a whole run of them, oldest first.
#[verifier::ext_equal]
pub ghost struct InsertOp {
    pub content: Seq<char>,
    pub timestamp: u64,
}

/// The history after the run `ops` of insertions, applied oldest first.
pub open spec fn run_inserts(history: Seq<EntryModel>, ops: Seq<InsertOp>) -> Seq<EntryModel>
    decreases ops.len(),
{
    if ops.len() == 0 {
        history
    } else {
        insert_model(
            run_inserts(history, ops.drop_last()),
            ops.last().content,
            ops.last().timestamp,
        )
    }
}

/// Whether every insertion of the run is accepted at the state it meets.
pub open spec fn all_accepted(history: Seq<EntryModel>, ops: Seq<InsertOp>) -> bool
    decreases ops.len(),
{
    if ops.len() == 0 {
        true
    } else {
        &&& all_accepted(history, ops.drop_last())
        &&& accepts(run_inserts(history, ops.drop_last()), ops.last().content)
    }
}

/// The length after a run of accepted insertions: it grows by one per
/// insertion until the capacity, and stays there.
pub proof fn lemma_run_inserts_len(history: Seq<EntryModel>, ops: Seq<InsertOp>)
    requires
        history.len() <= MAX_HISTORY,
        all_accepted(history, ops),
    ensures
        run_inserts(history, ops).len() == (if history.len() + ops.len() <= MAX_HISTORY {
            history.len() + ops.len()
        } else {
            MAX_HISTORY as nat
        }),
    decreases ops.len(),
{
    if ops.len() > 0 {
        lemma_run_inserts_len(history, ops.drop_last());
    }
}

/// After a run of accepted insertions, the entries within reach of the run
/// hold its contents, newest first.
pub proof fn lemma_run_inserts_contents(history: Seq<EntryModel>, ops: Seq<InsertOp>, i: int)
    requires
        history.len() <= MAX_HISTORY,
        all_accepted(history, ops),
        0 <= i < ops.len(),
        i < MAX_HISTORY,
    ensures
        i < run_inserts(history, ops).len(),
        run_inserts(history, ops)[i].content == ops[ops.len() - 1 - i].content,
    decreases ops.len(),
{
    lemma_run_inserts_len(history, ops);
    let previous = run_inserts(history, ops.drop_last());
    lemma_run_inserts_len(history, ops.drop_last());
    if i == 0 {
        assert(run_inserts(history, ops)[0] == new_entry(
            ops.last().content,
            ops.last().timestamp,
            previous.len(),
        ));
    } else {
        lemma_run_inserts_contents(history, ops.drop_last(), i - 1);
        assert(run_inserts(history, ops)[i] == previous[i - 1]);
    }
}

/// Bounded size: a run of more than `MAX_HISTORY` accepted insertions leaves
/// exactly `MAX_HISTORY` entries, the most recently inserted contents, newest
/// first.
pub proof fn lemma_bounded_size(history: Seq<EntryModel>, ops: Seq<InsertOp>)
    requires
        history.len() <= MAX_HISTORY,
        all_accepted(history, ops),
        ops.len() > MAX_HISTORY,
    ensures
        run_inserts(history, ops).len() == MAX_HISTORY,
        forall|i: int|
            0 <= i < MAX_HISTORY ==> run_inserts(history, ops)[i].content == ops[ops.len() - 1
                - i].content,
{
    lemma_run_inserts_len(history, ops);
    assert forall|i: int| 0 <= i < MAX_HISTORY implies run_inserts(history, ops)[i].content
        == ops[ops.len() - 1 - i].content by {
        lemma_run_inserts_contents(history, ops, i);
    }
}

/// Whether some insertion of the run is accepted at the state it meets.
pub open spec fn some_accepted(history: Seq<EntryModel>, ops: Seq<InsertOp>) -> bool
    decreases ops.len(),
{
    if ops.len() == 0 {
        false
    } else {
        ||| accepts(run_inserts(history, ops.drop_last()), ops.last().content)
        ||| some_accepted(history, ops.drop_last())
    }
}

/// The content of the most recent accepted insertion of the run.
pub open spec fn last_accepted_content(history: Seq<EntryModel>, ops: Seq<InsertOp>) -> Seq<char>
    decreases ops.len(),
{
    if ops.len() == 0 {
        Seq::<char>::empty()
    } else if accepts(run_inserts(history, ops.drop_last()), ops.last().content) {
        ops.last().content
    } else {
        last_accepted_content(history, ops.drop_last())
    }
}

/// Order preservation: after any run of insertions of which at least one was
/// accepted, the front entry holds the content of the most recent accepted
/// insertion.
pub proof fn lemma_order_preservation(history: Seq<EntryModel>, ops: Seq<InsertOp>)
    requires
        some_accepted(history, ops),
    ensures
        run_inserts(history, ops).len() > 0,
        run_inserts(history, ops)[0].content == last_accepted_content(history, ops),
    decreases ops.len(),
{
    let previous = run_inserts(history, ops.drop_last());
    if accepts(previous, ops.last().content) {
        assert(run_inserts(history, ops)[0] == new_entry(
            ops.last().content,
            ops.last().timestamp,
            previous.len(),
        ));
    } else {
        lemma_order_preservation(history, ops.drop_last());
    }
}

/// A bounded, deduplicated clipboard history, newest entry first.
pub struct HistoryStore {
    entries: Vec<ClipboardItem>,
}

impl View for HistoryStore {
    type V = Seq<EntryModel>;

    closed spec fn view(&self) -> Seq<EntryModel> {
        self.entries@.map(|i: int, item: ClipboardItem| item.model())
    }
}

impl HistoryStore {
    pub open spec fn wf(self) -> bool {
        wf_history(self@)
    }

    /// A fresh, empty history.
    pub fn new() -> (store: Self)
        ensures
            store@ == Seq::<EntryModel>::empty(),
            store.wf(),
    {
        let store = HistoryStore { entries: Vec::new() };
        proof {
            assert(store@ =~= Seq::<EntryModel>::empty());
        }
        store
    }

    /// How many entries the history holds.
    pub fn len(&self) -> (n: usize)
        ensures
            n == self@.len(),
    {
        self.entries.len()
    }

    /// Insert `content` with the given timestamp. Blank content, and content
    /// equal to the front entry's, is rejected and nothing changes; anything
    /// else becomes the new front entry, and past the capacity the oldest
    /// entry is evicted. Reports whether an insertion occurred.
    pub fn insert_at(&mut self, content: &String, timestamp: u64) -> (inserted: bool)
        requires
            old(self).wf(),
        ensures
            final(self).wf(),
            inserted == accepts(old(self)@, content@),
            final(self)@ == insert_model(old(self)@, content@, timestamp),
    {
        if is_blank(content) {
            return false;
        }
        if self.entries.len() > 0 {
            if self.entries[0].content == *content {
                return false;
            }
        }
        let ghost history = self@;
        let len_at_insert = self.entries.len();
        let id = if timestamp <= u64::MAX - (len_at_insert as u64) {
            timestamp + (len_at_insert as u64)
        } else {
            u64::MAX
        };
        let entry = ClipboardItem {
            id,
            content: content.clone(),
            timestamp,
            content_type: "text".to_string(),
        };
        proof {
            assert(entry.model() == new_entry(content@, timestamp, history.len()));
        }
        self.entries.insert(0, entry);
        proof {
            let grown = seq![new_entry(content@, timestamp, history.len())] + history;
            assert(self@ =~= grown);
        }
        if self.entries.len() > MAX_HISTORY {
            self.entries.pop();
            proof {
                let grown = seq![new_entry(content@, timestamp, history.len())] + history;
                assert(self@ =~= grown.take(MAX_HISTORY as int));
            }
        }
        proof {
            lemma_insert_model_wf(history, content@, timestamp);
            assert(self@ == insert_model(history, content@, timestamp));
        }
        true
    }

    /// Insert `content`, stamped with the current clock second, as the manual
    /// insertion path and the monitor both do.
    pub fn insert(&mut self, content: &String) -> (inserted: bool)
        requires
            old(self).wf(),
        ensures
            final(self).wf(),
            inserted == accepts(old(self)@, content@),
            exists|timestamp: u64|
                final(self)@ == insert_model(old(self)@, content@, timestamp),
    {
        let timestamp = now_secs();
        let inserted = self.insert_at(content, timestamp);
        proof {
            assert(self@ == insert_model(old(self)@, content@, timestamp));
        }
        inserted
    }

    /// A snapshot of the history, newest first: one item per entry, equal to
    /// it in every field.
    pub fn list(&self) -> (snapshot: Vec<ClipboardItem>)
        ensures
            snapshot@.len() == self@.len(),
            forall|i: int|
                0 <= i < snapshot@.len() ==> (#[trigger] snapshot@[i]).model() == self@[i],
    {
        let snapshot = self.entries.clone();
        proof {
            assert forall|i: int|
                0 <= i < snapshot@.len() implies (#[trigger] snapshot@[i]).model()
                == self@[i] by {
                assert(cloned::<ClipboardItem>(self.entries@[i], snapshot@[i]));
            }
        }
        snapshot
    }

    /// Empty the history. The store stays usable: nothing but the entries is
    /// lost, and clearing an empty history changes nothing.
    pub fn clear(&mut self)
        ensures
            final(self)@ == Seq::<EntryModel>::empty(),
            final(self).wf(),
    {
        self.entries.clear();
        proof {
            assert(self@ =~= Seq::<EntryModel>::empty());
        }
    }
}

} // verus!
