//! The status of every tracked pane.
use crate::entries::{
    entries_map, lemma_entries_map_contains, lemma_entries_map_finite, lemma_entries_map_get,
};
use crate::model::{
    pane_views, AgentStatus, AgentStatusChanged, HerdrMessage, MessageView, PaneState, PaneView,
};
use crate::text::{same_text, text_views};
use vstd::prelude::*;

verus! {

/// The latest known status of each tracked pane. No pane is listed twice.
#[derive(Debug)]
pub struct PaneStatuses {
    entries: Vec<(String, AgentStatus)>,
}

/// The ids of the entries, each with its status.
spec fn listed(entries: Seq<(String, AgentStatus)>) -> Seq<(Seq<char>, AgentStatus)> {
    entries.map_values(|entry: (String, AgentStatus)| (entry.0@, entry.1))
}

/// No id is listed twice.
spec fn distinct(entries: Seq<(String, AgentStatus)>) -> bool {
    forall|i: int, j: int|
        0 <= i < j < entries.len() ==> (#[trigger] entries[i]).0@ != (#[trigger] entries[j]).0@
}

impl View for PaneStatuses {
    type V = Map<Seq<char>, AgentStatus>;

    closed spec fn view(&self) -> Map<Seq<char>, AgentStatus> {
        entries_map(listed(self.entries@))
    }
}

/// Some pane is working.
pub open spec fn any_working(statuses: Map<Seq<char>, AgentStatus>) -> bool {
    exists|pane_id: Seq<char>| #[trigger]
        statuses.contains_key(pane_id) && statuses[pane_id] == AgentStatus::Working
}

/// The statuses after a status report: a pane that is not tracked stays untracked.
pub open spec fn with_report(
    statuses: Map<Seq<char>, AgentStatus>,
    event: PaneView,
) -> Map<Seq<char>, AgentStatus> {
    if statuses.contains_key(event.pane_id) {
        statuses.insert(event.pane_id, event.agent_status)
    } else {
        statuses
    }
}

/// The statuses that a list of panes gives: where a pane is listed more than once the last
/// listing counts.
pub open spec fn statuses_of(panes: Seq<PaneView>) -> Map<Seq<char>, AgentStatus> {
    entries_map(panes.map_values(|pane: PaneView| (pane.pane_id, pane.agent_status)))
}

/// In a list without repetition every entry is what its id maps to.
proof fn lemma_listed(entries: Seq<(String, AgentStatus)>)
    requires
        distinct(entries),
    ensures
        forall|i: int|
            0 <= i < entries.len() ==> {
                &&& entries_map(listed(entries)).contains_key((#[trigger] entries[i]).0@)
                &&& entries_map(listed(entries))[entries[i].0@] == entries[i].1
            },
        forall|key: Seq<char>| #[trigger]
            entries_map(listed(entries)).contains_key(key) ==> exists|i: int|
                0 <= i < entries.len() && (#[trigger] entries[i]).0@ == key,
{
    let views = listed(entries);
    assert forall|i: int| 0 <= i < entries.len() implies {
        &&& entries_map(views).contains_key((#[trigger] entries[i]).0@)
        &&& entries_map(views)[entries[i].0@] == entries[i].1
    } by {
        assert forall|j: int| i < j < views.len() implies (#[trigger] views[j]).0
            != views[i].0 by {
            assert(entries[i].0@ != entries[j].0@);
        }
        lemma_entries_map_get(views, i);
    }
    assert forall|key: Seq<char>| #[trigger] entries_map(views).contains_key(key) implies exists|
        i: int,
    | 0 <= i < entries.len() && (#[trigger] entries[i]).0@ == key by {
        lemma_entries_map_contains(views, key);
        let i = choose|i: int| 0 <= i < views.len() && (#[trigger] views[i]).0 == key;
        assert(entries[i].0@ == key);
    }
}

impl PaneStatuses {
    #[verifier::type_invariant]
    spec fn well_formed(self) -> bool {
        distinct(self.entries@)
    }

    /// Tracks no pane.
    pub fn new() -> (statuses: PaneStatuses)
        ensures
            statuses@ == Map::<Seq<char>, AgentStatus>::empty(),
    {
        PaneStatuses { entries: Vec::new() }
    }

    /// Where the entry of `pane_id` stands.
    fn position(&self, pane_id: &str) -> (found: Option<usize>)
        ensures
            match found {
                Some(at) => {
                    &&& at < self.entries@.len()
                    &&& self.entries@[at as int].0@ == pane_id@
                    &&& self@.contains_key(pane_id@)
                    &&& self@[pane_id@] == self.entries@[at as int].1
                },
                None => {
                    &&& !self@.contains_key(pane_id@)
                    &&& forall|i: int|
                        0 <= i < self.entries@.len() ==> (#[trigger] self.entries@[i]).0@
                            != pane_id@
                },
            },
    {
        proof {
            use_type_invariant(self);
            lemma_listed(self.entries@);
        }
        for at in 0..self.entries.len()
            invariant
                forall|i: int| 0 <= i < at ==> (#[trigger] self.entries@[i]).0@ != pane_id@,
                forall|i: int|
                    0 <= i < self.entries@.len() ==> {
                        &&& self@.contains_key((#[trigger] self.entries@[i]).0@)
                        &&& self@[self.entries@[i].0@] == self.entries@[i].1
                    },
        {
            if same_text(self.entries[at].0.as_str(), pane_id) {
                return Some(at);
            }
        }
        None
    }

    /// The status of `pane_id`, if it is tracked.
    pub fn get(&self, pane_id: &str) -> (status: Option<AgentStatus>)
        ensures
            match status {
                Some(status) => self@.contains_key(pane_id@) && self@[pane_id@] == status,
                None => !self@.contains_key(pane_id@),
            },
    {
        match self.position(pane_id) {
            Some(at) => Some(self.entries[at].1),
            None => None,
        }
    }

    /// Whether `pane_id` is tracked.
    pub fn contains_key(&self, pane_id: &str) -> (known: bool)
        ensures
            known == self@.contains_key(pane_id@),
    {
        self.position(pane_id).is_some()
    }

    /// Tracks `pane_id` with `status`, whatever status it had.
    pub fn insert(&mut self, pane_id: String, status: AgentStatus)
        ensures
            final(self)@ == old(self)@.insert(pane_id@, status),
    {
        proof {
            use_type_invariant(&*self);
            lemma_listed(self.entries@);
        }
        let found = self.position(pane_id.as_str());
        let ghost before = self.entries@;
        let mut entries: Vec<(String, AgentStatus)> = Vec::new();
        std::mem::swap(&mut entries, &mut self.entries);
        match found {
            Some(at) => {
                entries.set(at, (pane_id, status));
            },
            None => {
                entries.push((pane_id, status));
            },
        }
        proof {
            assert(distinct(entries@));
            lemma_listed(entries@);
            let after = entries_map(listed(entries@));
            let wanted = entries_map(listed(before)).insert(pane_id@, status);
            assert forall|key: Seq<char>|
                after.contains_key(key) <==> #[trigger] wanted.contains_key(key) by {
                if wanted.contains_key(key) && key != pane_id@ {
                    let i = choose|i: int|
                        0 <= i < before.len() && (#[trigger] before[i]).0@ == key;
                    assert(entries@[i] == before[i]);
                }
                if key == pane_id@ {
                    match found {
                        Some(at) => assert(entries@[at as int].0@ == key),
                        None => assert(entries@[before.len() as int].0@ == key),
                    }
                }
                if after.contains_key(key) && key != pane_id@ {
                    let i = choose|i: int|
                        0 <= i < entries@.len() && (#[trigger] entries@[i]).0@ == key;
                    assert(before[i] == entries@[i]);
                }
            }
            assert(after =~= wanted);
        }
        self.entries = entries;
    }

    /// Stops tracking `pane_id`, if it was known.
    pub fn remove(&mut self, pane_id: &str)
        ensures
            final(self)@ == old(self)@.remove(pane_id@),
    {
        proof {
            use_type_invariant(&*self);
            lemma_listed(self.entries@);
        }
        let found = self.position(pane_id);
        let ghost before = self.entries@;
        let mut entries: Vec<(String, AgentStatus)> = Vec::new();
        std::mem::swap(&mut entries, &mut self.entries);
        match found {
            Some(at) => {
                entries.remove(at);
                proof {
                    assert(distinct(entries@));
                    lemma_listed(entries@);
                    let after = entries_map(listed(entries@));
                    let wanted = entries_map(listed(before)).remove(pane_id@);
                    assert forall|key: Seq<char>|
                        after.contains_key(key) <==> #[trigger] wanted.contains_key(key) by {
                        if wanted.contains_key(key) {
                            let i = choose|i: int|
                                0 <= i < before.len() && (#[trigger] before[i]).0@ == key;
                            let moved = if i < at {
                                i
                            } else {
                                i - 1
                            };
                            assert(entries@[moved] == before[i]);
                        }
                        if after.contains_key(key) {
                            let i = choose|i: int|
                                0 <= i < entries@.len() && (#[trigger] entries@[i]).0@ == key;
                            let moved = if i < at {
                                i
                            } else {
                                i + 1
                            };
                            assert(before[moved] == entries@[i]);
                            assert(before[at as int].0@ == pane_id@);
                        }
                    }
                    assert(after =~= wanted);
                }
            },
            None => {
                assert(old(self)@.remove(pane_id@) =~= old(self)@);
            },
        }
        self.entries = entries;
    }

    /// How many panes are known.
    pub fn len(&self) -> (count: usize)
        ensures
            count == self@.len(),
    {
        proof {
            use_type_invariant(self);
            lemma_listed_len(self.entries@);
        }
        self.entries.len()
    }

    /// Whether no pane is known.
    pub fn is_empty(&self) -> (empty: bool)
        ensures
            empty == (self@ == Map::<Seq<char>, AgentStatus>::empty()),
    {
        proof {
            use_type_invariant(self);
            lemma_listed(self.entries@);
            if self.entries@.len() > 0 {
                assert(self@.contains_key(self.entries@[0].0@));
            }
        }
        self.entries.len() == 0
    }

    /// The ids of the known panes, each of them once.
    pub fn pane_ids(&self) -> (ids: Vec<String>)
        ensures
            text_views(ids@).no_duplicates(),
            text_views(ids@).to_set() == self@.dom(),
    {
        proof {
            use_type_invariant(self);
            lemma_listed(self.entries@);
        }
        let mut ids: Vec<String> = Vec::new();
        for at in 0..self.entries.len()
            invariant
                ids@.len() == at,
                forall|i: int| 0 <= i < at ==> (#[trigger] ids@[i])@ == self.entries@[i].0@,
        {
            ids.push(self.entries[at].0.clone());
        }
        proof {
            let views = text_views(ids@);
            assert forall|key: Seq<char>| views.to_set().contains(key) <==> #[trigger] self@.dom()
                .contains(key) by {
                if self@.dom().contains(key) {
                    assert(self@.contains_key(key));
                    let i = choose|i: int|
                        0 <= i < self.entries@.len() && (#[trigger] self.entries@[i]).0@ == key;
                    assert(views[i] == key);
                }
                if views.to_set().contains(key) {
                    let i = choose|i: int| 0 <= i < views.len() && views[i] == key;
                    assert(self@.contains_key(self.entries@[i].0@));
                }
            }
            assert(views.to_set() =~= self@.dom());
            assert forall|i: int, j: int|
                0 <= i < views.len() && 0 <= j < views.len() && i != j implies views[i]
                != views[j] by {
                assert(self.entries@[i].0@ != self.entries@[j].0@);
            }
        }
        ids
    }

    /// The statuses of `panes`: where a pane is listed more than once the last listing counts.
    pub fn from_panes(panes: Vec<PaneState>) -> (statuses: PaneStatuses)
        ensures
            statuses@ == statuses_of(pane_views(panes@)),
    {
        let ghost views = pane_views(panes@).map_values(
            |pane: PaneView| (pane.pane_id, pane.agent_status),
        );
        let ghost inner = panes@;
        let mut statuses = PaneStatuses::new();
        for pane in iter: panes
            invariant
                iter.seq() == inner,
                views == pane_views(inner).map_values(
                    |pane: PaneView| (pane.pane_id, pane.agent_status),
                ),
                statuses@ == entries_map(views.take(iter.index() as int)),
        {
            let ghost at = iter.index() as int;
            statuses.insert(pane.pane_id, pane.agent_status);
            assert(views.take(at + 1).drop_last() =~= views.take(at));
        }
        assert(views.take(views.len() as int) =~= views);
        statuses
    }
}

/// A list without repetition stands for a map of the same size.
proof fn lemma_listed_len(entries: Seq<(String, AgentStatus)>)
    requires
        distinct(entries),
    ensures
        entries_map(listed(entries)).len() == entries.len(),
    decreases entries.len(),
{
    lemma_entries_map_finite(listed(entries));
    if entries.len() > 0 {
        let front = entries.drop_last();
        assert(listed(front) =~= listed(entries).drop_last());
        lemma_listed_len(front);
        lemma_listed(front);
        lemma_entries_map_finite(listed(front));
        let key = entries.last().0@;
        assert(entries[entries.len() - 1].0@ == key);
        if entries_map(listed(front)).contains_key(key) {
            let i = choose|i: int| 0 <= i < front.len() && (#[trigger] front[i]).0@ == key;
            assert(entries[i].0@ != entries[entries.len() - 1].0@);
        }
    }
}

/// Records a status report. A report on a pane that is not known changes nothing.
pub fn update_agent_status(statuses: &mut PaneStatuses, event: &AgentStatusChanged)
    ensures
        final(statuses)@ == with_report(old(statuses)@, event@),
{
    if statuses.contains_key(event.pane_id.as_str()) {
        statuses.insert(event.pane_id.clone(), event.agent_status);
    }
}

/// Whether some pane is working.
pub fn has_working_agent(statuses: &PaneStatuses) -> (working: bool)
    ensures
        working == any_working(statuses@),
{
    proof {
        use_type_invariant(statuses);
        lemma_listed(statuses.entries@);
    }
    for at in 0..statuses.entries.len()
        invariant
            forall|i: int|
                0 <= i < at ==> (#[trigger] statuses.entries@[i]).1 != AgentStatus::Working,
            forall|i: int|
                0 <= i < statuses.entries@.len() ==> {
                    &&& statuses@.contains_key((#[trigger] statuses.entries@[i]).0@)
                    &&& statuses@[statuses.entries@[i].0@] == statuses.entries@[i].1
                },
    {
        if statuses.entries[at].1 == AgentStatus::Working {
            assert(statuses@.contains_key(statuses.entries@[at as int].0@));
            return true;
        }
    }
    false
}

/// The statuses after a message: only a status report changes them.
pub open spec fn with_message(
    statuses: Map<Seq<char>, AgentStatus>,
    message: MessageView,
) -> Map<Seq<char>, AgentStatus> {
    match message {
        MessageView::Status(event) => with_report(statuses, event),
        _ => statuses,
    }
}

/// Records `message` if it is a status report.
pub fn apply_message(message: HerdrMessage, statuses: &mut PaneStatuses)
    ensures
        final(statuses)@ == with_message(old(statuses)@, message@),
{
    if let HerdrMessage::Status(event) = message {
        update_agent_status(statuses, &event);
    }
}

} // verus!
