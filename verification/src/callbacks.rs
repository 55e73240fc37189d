//! Handlers and what they answer.
//!
//! A handler is registered under a priority and the role whose messages
//! trigger it. What a handler is, and how it is run, is the caller's business:
//! the registry stores handlers as plain values and decides their order.

use vstd::prelude::*;

use crate::role::Role;

verus! {

/// What a handler answers: a text and the role it is meant for. The agent
/// fills in the sender and the conversation when it turns the answer into a
/// message.
pub struct Response<RoleType> {
    pub to: RoleType,
    pub msg: String,
}

/// A response with its text as a sequence of characters.
pub struct ResponseView<RoleType> {
    pub to: RoleType,
    pub msg: Seq<char>,
}

impl<RoleType> View for Response<RoleType> {
    type V = ResponseView<RoleType>;

    open spec fn view(&self) -> ResponseView<RoleType> {
        ResponseView { to: self.to, msg: self.msg@ }
    }
}

/// The answer of an optional response, as a mathematical value.
pub open spec fn candidate_view<RoleType>(candidate: Option<Response<RoleType>>) -> Option<
    ResponseView<RoleType>,
> {
    match candidate {
        Some(response) => Some(response@),
        None => None,
    }
}

/// `handlers` is the execution order of the handlers that `role` triggers:
/// every handler registered for the role, each with its priority, by strictly
/// ascending priority. A role has at most one handler per priority, so this
/// order leaves nothing open.
pub open spec fn is_resolution<RoleType, Callback>(
    callbacks: Map<(usize, RoleType), Callback>,
    role: RoleType,
    handlers: Seq<(usize, Callback)>,
) -> bool {
    &&& forall|i: int, j: int|
        0 <= i < j < handlers.len() ==> (#[trigger] handlers[i]).0 < (#[trigger] handlers[j]).0
    &&& forall|i: int|
        0 <= i < handlers.len() ==> callbacks.contains_key(((#[trigger] handlers[i]).0, role))
            && callbacks[(handlers[i].0, role)] == handlers[i].1
    &&& forall|priority: usize| #[trigger]
        callbacks.contains_key((priority, role)) ==> exists|i: int|
            0 <= i < handlers.len() && (#[trigger] handlers[i]).0 == priority
}

/// The handlers of one agent, by priority and triggering role.
#[derive(Debug)]
pub struct Callbacks<RoleType: Role, Callback: Copy> {
    entries: Vec<(usize, RoleType, Callback)>,
}

/// No two entries share priority and role.
spec fn distinct_entries<RoleType, Callback>(entries: Seq<(usize, RoleType, Callback)>) -> bool {
    forall|i: int, j: int|
        0 <= i < j < entries.len() ==> !((#[trigger] entries[i]).0 == (#[trigger] entries[j]).0
            && entries[i].1 == entries[j].1)
}

/// Some entry is registered under `key`.
spec fn has_entry<RoleType, Callback>(
    entries: Seq<(usize, RoleType, Callback)>,
    key: (usize, RoleType),
) -> bool {
    exists|i: int| is_entry_at(entries, key, i)
}

/// The entry at `i` is registered under `key`.
spec fn is_entry_at<RoleType, Callback>(
    entries: Seq<(usize, RoleType, Callback)>,
    key: (usize, RoleType),
    i: int,
) -> bool {
    0 <= i < entries.len() && entries[i].0 == key.0 && entries[i].1 == key.1
}

/// The place of the entry registered under `key`.
spec fn entry_index<RoleType, Callback>(
    entries: Seq<(usize, RoleType, Callback)>,
    key: (usize, RoleType),
) -> int {
    choose|i: int| is_entry_at(entries, key, i)
}

/// The mapping that a list of entries stands for.
spec fn entries_map<RoleType, Callback>(entries: Seq<(usize, RoleType, Callback)>) -> Map<
    (usize, RoleType),
    Callback,
> {
    Map::new(
        |key: (usize, RoleType)| has_entry(entries, key),
        |key: (usize, RoleType)| entries[entry_index(entries, key)].2,
    )
}

/// Each entry of a list without repeated keys is what the mapping holds
/// under the entry's key.
proof fn lemma_entry_in_map<RoleType, Callback>(
    entries: Seq<(usize, RoleType, Callback)>,
    i: int,
)
    requires
        distinct_entries(entries),
        0 <= i < entries.len(),
    ensures
        entries_map(entries).contains_key((entries[i].0, entries[i].1)),
        entries_map(entries)[(entries[i].0, entries[i].1)] == entries[i].2,
{
    let key = (entries[i].0, entries[i].1);
    assert(is_entry_at(entries, key, i));
    let j = entry_index(entries, key);
    assert(is_entry_at(entries, key, j));
    if i < j {
        assert(entries[i].0 == entries[j].0);
    } else if j < i {
        assert(entries[j].0 == entries[i].0);
    }
}

impl<RoleType: Role, Callback: Copy> View for Callbacks<RoleType, Callback> {
    type V = Map<(usize, RoleType), Callback>;

    closed spec fn view(&self) -> Map<(usize, RoleType), Callback> {
        entries_map(self.entries@)
    }
}

impl<RoleType: Role, Callback: Copy> Default for Callbacks<RoleType, Callback> {
    fn default() -> (callbacks: Self)
        ensures
            callbacks@ == Map::<(usize, RoleType), Callback>::empty(),
    {
        Self::new()
    }
}

impl<RoleType: Role, Callback: Copy> Callbacks<RoleType, Callback> {
    #[verifier::type_invariant]
    spec fn well_formed(self) -> bool {
        distinct_entries(self.entries@)
    }

    /// A registry without handlers.
    pub fn new() -> (callbacks: Self)
        ensures
            callbacks@ == Map::<(usize, RoleType), Callback>::empty(),
    {
        let callbacks = Callbacks { entries: Vec::new() };
        assert(callbacks@ =~= Map::<(usize, RoleType), Callback>::empty()) by {
            assert forall|key: (usize, RoleType)| !has_entry(callbacks.entries@, key) by {
                if has_entry(callbacks.entries@, key) {
                    let i = entry_index(callbacks.entries@, key);
                    assert(is_entry_at(callbacks.entries@, key, i));
                }
            }
        }
        callbacks
    }

    /// Binds `callback` to `priority` and `role`. A handler that was bound to
    /// the same pair before is replaced; every other binding stays.
    pub fn insert(&mut self, priority: usize, role: RoleType, callback: Callback)
        ensures
            final(self)@ == old(self)@.insert((priority, role), callback),
    {
        proof {
            use_type_invariant(&*self);
        }
        let mut entries: Vec<(usize, RoleType, Callback)> = Vec::new();
        std::mem::swap(&mut entries, &mut self.entries);
        let ghost before = entries@;
        let mut i: usize = 0;
        let mut found: bool = false;
        while i < entries.len() && !found
            invariant
                i <= entries@.len(),
                entries@ == before,
                !found ==> forall|k: int|
                    0 <= k < i ==> !is_entry_at(before, (priority, role), k),
                found ==> i < entries@.len() && is_entry_at(before, (priority, role), i as int),
            decreases entries@.len() - i + (if found { 0int } else { 1int }),
        {
            if entries[i].0 == priority && entries[i].1.same(&role) {
                found = true;
            } else {
                i += 1;
            }
        }
        if found {
            entries.set(i, (priority, role, callback));
        } else {
            entries.push((priority, role, callback));
        }
        proof {
            let after = entries@;
            let key = (priority, role);
            let place: int = i as int;
            assert(after[place] == (priority, role, callback));
            assert(distinct_entries(after)) by {
                assert forall|a: int, b: int| 0 <= a < b < after.len() implies !((
                #[trigger] after[a]).0 == (#[trigger] after[b]).0 && after[a].1 == after[b].1) by {
                    if a != place && b != place {
                        assert(after[a] == before[a] && after[b] == before[b]);
                    } else if a == place {
                        if found {
                            assert(after[b] == before[b]);
                            assert(before[a].0 == priority && before[a].1 == role);
                        }
                    } else {
                        if found {
                            assert(after[a] == before[a]);
                            assert(before[b].0 == priority && before[b].1 == role);
                        } else {
                            assert(!is_entry_at(before, key, a));
                        }
                    }
                }
            }
            assert(entries_map(after) =~= entries_map(before).insert(key, callback)) by {
                lemma_entry_in_map(after, place);
                assert forall|other: (usize, RoleType)| other != key implies (has_entry(
                    after,
                    other,
                ) <==> has_entry(before, other)) && (has_entry(before, other) ==> entries_map(
                    after,
                )[other] == entries_map(before)[other]) by {
                    if has_entry(before, other) {
                        let k = entry_index(before, other);
                        assert(is_entry_at(before, other, k));
                        assert(k != place || !found);
                        assert(is_entry_at(after, other, k));
                        lemma_entry_in_map(before, k);
                        lemma_entry_in_map(after, k);
                    }
                    if has_entry(after, other) {
                        let k = entry_index(after, other);
                        assert(is_entry_at(after, other, k));
                        assert(k != place);
                        assert(is_entry_at(before, other, k));
                    }
                }
            }
        }
        self.entries = entries;
    }

    /// The handlers that a message from `role` triggers, in the order in which
    /// they run: by ascending priority.
    pub fn resolve(&self, role: RoleType) -> (handlers: Vec<(usize, Callback)>)
        ensures
            is_resolution(self@, role, handlers@),
    {
        proof {
            use_type_invariant(self);
        }
        let mut handlers: Vec<(usize, Callback)> = Vec::new();
        let mut i: usize = 0;
        while i < self.entries.len()
            invariant
                i <= self.entries@.len(),
                distinct_entries(self.entries@),
                ascending(handlers@),
                selects(self.entries@, role, i as int, handlers@),
            decreases self.entries@.len() - i,
        {
            let entry = self.entries[i];
            if entry.1.same(&role) {
                let ghost before = handlers@;
                proof {
                    lemma_priority_is_new(self.entries@, role, i as int, before);
                }
                let place = insert_by_priority(&mut handlers, (entry.0, entry.2));
                proof {
                    lemma_selects_more(self.entries@, role, i as int, before, place as int);
                }
            } else {
                proof {
                    lemma_selects_skip(self.entries@, role, i as int, handlers@);
                }
            }
            i += 1;
        }
        proof {
            lemma_selection_resolves(self.entries@, role, handlers@);
        }
        handlers
    }
}

impl<RoleType: Role, Callback: Copy> Clone for Callbacks<RoleType, Callback> {
    fn clone(&self) -> (copy: Self)
        ensures
            copy@ == self@,
    {
        proof {
            use_type_invariant(self);
        }
        let mut entries: Vec<(usize, RoleType, Callback)> = Vec::new();
        let mut i: usize = 0;
        while i < self.entries.len()
            invariant
                i <= self.entries@.len(),
                entries@ == self.entries@.take(i as int),
            decreases self.entries@.len() - i,
        {
            entries.push(self.entries[i]);
            i += 1;
        }
        assert(entries@ == self.entries@);
        Callbacks { entries }
    }
}

/// Priorities grow strictly along the list.
spec fn ascending<Callback>(handlers: Seq<(usize, Callback)>) -> bool {
    forall|a: int, b: int|
        0 <= a < b < handlers.len() ==> (#[trigger] handlers[a]).0 < (#[trigger] handlers[b]).0
}

/// The handler with its priority was taken from one of the first `upto`
/// entries, registered for `role`.
spec fn taken_from<RoleType, Callback>(
    entries: Seq<(usize, RoleType, Callback)>,
    role: RoleType,
    upto: int,
    handler: (usize, Callback),
) -> bool {
    exists|k: int|
        0 <= k < upto && k < entries.len() && #[trigger] entries[k] == (
            handler.0,
            role,
            handler.1,
        )
}

/// Some handler in the list has the given priority.
spec fn lists_priority<Callback>(handlers: Seq<(usize, Callback)>, priority: usize) -> bool {
    exists|a: int| 0 <= a < handlers.len() && (#[trigger] handlers[a]).0 == priority
}

/// `handlers` holds what the first `upto` entries register for `role`, and
/// nothing else.
spec fn selects<RoleType, Callback>(
    entries: Seq<(usize, RoleType, Callback)>,
    role: RoleType,
    upto: int,
    handlers: Seq<(usize, Callback)>,
) -> bool {
    &&& forall|a: int|
        0 <= a < handlers.len() ==> taken_from(entries, role, upto, #[trigger] handlers[a])
    &&& forall|k: int|
        0 <= k < upto && k < entries.len() && (#[trigger] entries[k]).1 == role ==> lists_priority(
            handlers,
            entries[k].0,
        )
}

/// Where keys do not repeat, the priority of the entry at `i` is not among
/// the handlers selected from the entries before it.
proof fn lemma_priority_is_new<RoleType, Callback>(
    entries: Seq<(usize, RoleType, Callback)>,
    role: RoleType,
    i: int,
    handlers: Seq<(usize, Callback)>,
)
    requires
        distinct_entries(entries),
        0 <= i < entries.len(),
        entries[i].1 == role,
        selects(entries, role, i, handlers),
    ensures
        forall|a: int| 0 <= a < handlers.len() ==> (#[trigger] handlers[a]).0 != entries[i].0,
{
    assert forall|a: int| 0 <= a < handlers.len() implies (#[trigger] handlers[a]).0
        != entries[i].0 by {
        assert(taken_from(entries, role, i, handlers[a]));
        let k = choose|k: int|
            0 <= k < i && k < entries.len() && #[trigger] entries[k] == (
                handlers[a].0,
                role,
                handlers[a].1,
            );
        assert(entries[k].1 == entries[i].1);
        assert(entries[k].0 != entries[i].0);
    }
}

/// Selecting from one more entry, which is registered for the role: its
/// handler joins the list, at any place.
proof fn lemma_selects_more<RoleType, Callback>(
    entries: Seq<(usize, RoleType, Callback)>,
    role: RoleType,
    i: int,
    before: Seq<(usize, Callback)>,
    place: int,
)
    requires
        0 <= i < entries.len(),
        entries[i].1 == role,
        0 <= place <= before.len(),
        selects(entries, role, i, before),
    ensures
        selects(entries, role, i + 1, before.insert(place, (entries[i].0, entries[i].2))),
{
    let after = before.insert(place, (entries[i].0, entries[i].2));
    assert forall|a: int| 0 <= a < after.len() implies taken_from(
        entries,
        role,
        i + 1,
        #[trigger] after[a],
    ) by {
        if a == place {
            assert(entries[i] == (after[a].0, role, after[a].1));
        } else {
            let a0 = if a < place {
                a
            } else {
                a - 1
            };
            assert(after[a] == before[a0]);
            assert(taken_from(entries, role, i, before[a0]));
            let k = choose|k: int|
                0 <= k < i && k < entries.len() && #[trigger] entries[k] == (
                    before[a0].0,
                    role,
                    before[a0].1,
                );
            assert(entries[k] == (after[a].0, role, after[a].1));
        }
    }
    assert forall|k: int|
        0 <= k < i + 1 && k < entries.len() && (#[trigger] entries[k]).1
            == role implies lists_priority(after, entries[k].0) by {
        if k == i {
            assert(after[place].0 == entries[k].0);
        } else {
            assert(lists_priority(before, entries[k].0));
            let a0 = choose|a: int|
                0 <= a < before.len() && (#[trigger] before[a]).0 == entries[k].0;
            let a = if a0 < place {
                a0
            } else {
                a0 + 1
            };
            assert(after[a] == before[a0]);
        }
    }
}

/// Selecting from one more entry, which is registered for another role:
/// the list stays as it is.
proof fn lemma_selects_skip<RoleType, Callback>(
    entries: Seq<(usize, RoleType, Callback)>,
    role: RoleType,
    i: int,
    handlers: Seq<(usize, Callback)>,
)
    requires
        0 <= i < entries.len(),
        entries[i].1 != role,
        selects(entries, role, i, handlers),
    ensures
        selects(entries, role, i + 1, handlers),
{
    assert forall|a: int| 0 <= a < handlers.len() implies taken_from(
        entries,
        role,
        i + 1,
        #[trigger] handlers[a],
    ) by {
        assert(taken_from(entries, role, i, handlers[a]));
        let k = choose|k: int|
            0 <= k < i && k < entries.len() && #[trigger] entries[k] == (
                handlers[a].0,
                role,
                handlers[a].1,
            );
        assert(0 <= k < i + 1);
    }
}

/// An ascending selection from all the entries is the execution order.
proof fn lemma_selection_resolves<RoleType, Callback>(
    entries: Seq<(usize, RoleType, Callback)>,
    role: RoleType,
    handlers: Seq<(usize, Callback)>,
)
    requires
        distinct_entries(entries),
        ascending(handlers),
        selects(entries, role, entries.len() as int, handlers),
    ensures
        is_resolution(entries_map(entries), role, handlers),
{
    let callbacks = entries_map(entries);
    assert forall|a: int| 0 <= a < handlers.len() implies callbacks.contains_key(
        ((#[trigger] handlers[a]).0, role),
    ) && callbacks[(handlers[a].0, role)] == handlers[a].1 by {
        assert(taken_from(entries, role, entries.len() as int, handlers[a]));
        let k = choose|k: int|
            0 <= k < entries.len() && k < entries.len() && #[trigger] entries[k] == (
                handlers[a].0,
                role,
                handlers[a].1,
            );
        lemma_entry_in_map(entries, k);
    }
    assert forall|priority: usize| #[trigger]
        callbacks.contains_key((priority, role)) implies exists|a: int|
        0 <= a < handlers.len() && (#[trigger] handlers[a]).0 == priority by {
        let k = entry_index(entries, (priority, role));
        assert(is_entry_at(entries, (priority, role), k));
        assert(entries[k].1 == role);
        assert(lists_priority(handlers, entries[k].0));
    }
}

/// Puts a handler into an ascending list, before the first handler of a
/// higher priority. Reports the place it took.
fn insert_by_priority<Callback: Copy>(
    handlers: &mut Vec<(usize, Callback)>,
    handler: (usize, Callback),
) -> (place: usize)
    requires
        ascending(old(handlers)@),
        forall|a: int|
            0 <= a < old(handlers)@.len() ==> (#[trigger] old(handlers)@[a]).0 != handler.0,
    ensures
        place <= old(handlers)@.len(),
        final(handlers)@ == old(handlers)@.insert(place as int, handler),
        ascending(final(handlers)@),
{
    let ghost before = handlers@;
    let mut place: usize = 0;
    while place < handlers.len() && handlers[place].0 < handler.0
        invariant
            place <= handlers@.len(),
            handlers@ == before,
            forall|a: int| 0 <= a < place ==> (#[trigger] before[a]).0 < handler.0,
        decreases handlers@.len() - place,
    {
        place += 1;
    }
    handlers.insert(place, handler);
    proof {
        let after = handlers@;
        assert forall|a: int, b: int| 0 <= a < b < after.len() implies (#[trigger] after[a]).0 < (
        #[trigger] after[b]).0 by {
            let a0 = if a < place {
                a
            } else {
                a - 1
            };
            let b0 = if b < place {
                b
            } else {
                b - 1
            };
            if a != place && b != place {
                assert(after[a] == before[a0] && after[b] == before[b0]);
            } else if a == place {
                assert(after[b] == before[b0]);
                assert(before[place as int].0 != handler.0);
                assert(before[place as int].0 <= before[b0].0);
            } else {
                assert(after[a] == before[a0]);
            }
        }
    }
    place
}

} // verus!
