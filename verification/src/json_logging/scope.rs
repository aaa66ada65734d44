//! The spans of the requests in flight, kept as a forest: each scope names its
//! parent by the handle under which the parent was created.
use vstd::prelude::*;
use crate::json_logging::fields::{
    FieldView, Metadata, MetadataView, Record, RecordedFields, accepted, field_views,
};
use crate::json_logging::format::FieldFilter;

verus! {

/// A unit of work with the fields recorded for it.
#[derive(Debug, PartialEq, Eq)]
pub struct Scope {
    pub metadata: Metadata,
    pub fields: RecordedFields,
    pub parent: Option<usize>,
    pub closed: bool,
}

/// What a `Scope` stands for in contracts.
pub struct ScopeView {
    pub metadata: MetadataView,
    pub fields: Seq<FieldView>,
    pub parent: Option<usize>,
    pub closed: bool,
}

impl View for Scope {
    type V = ScopeView;

    open spec fn view(&self) -> ScopeView {
        ScopeView {
            metadata: self.metadata@,
            fields: self.fields@,
            parent: self.parent,
            closed: self.closed,
        }
    }
}

/// The views of a list of scopes, in the same order.
pub open spec fn scope_views(scopes: Seq<Scope>) -> Seq<ScopeView> {
    scopes.map_values(|s: Scope| s@)
}

/// Every scope was created after its parent.
pub open spec fn parents_precede(scopes: Seq<ScopeView>) -> bool {
    forall|i: int|
        0 <= i < scopes.len() ==> ((#[trigger] scopes[i]).parent matches Some(p) ==> p < i)
}

/// The handles from scope `id` up to its root, innermost first.
pub open spec fn lineage_from(scopes: Seq<ScopeView>, id: usize) -> Seq<usize>
    decreases id,
{
    if id < scopes.len() {
        match scopes[id as int].parent {
            Some(p) => if p < id {
                seq![id] + lineage_from(scopes, p)
            } else {
                seq![id]
            },
            None => seq![id],
        }
    } else {
        Seq::empty()
    }
}

/// The handles of the scopes that enclose an event raised in `current`,
/// innermost first.
pub open spec fn lineage(scopes: Seq<ScopeView>, current: Option<usize>) -> Seq<usize> {
    match current {
        Some(id) => lineage_from(scopes, id),
        None => Seq::empty(),
    }
}

/// The scopes named by `ids`, in the same order.
pub open spec fn scopes_at(scopes: Seq<ScopeView>, ids: Seq<usize>) -> Seq<ScopeView> {
    ids.map_values(|id: usize| scopes[id as int])
}

/// The handles of a lineage name scopes, from the start upwards.
pub proof fn lemma_lineage_bounds(scopes: Seq<ScopeView>, id: usize)
    ensures
        forall|k: int|
            0 <= k < lineage_from(scopes, id).len() ==> #[trigger] lineage_from(scopes, id)[k]
                < scopes.len() && lineage_from(scopes, id)[k] <= id,
    decreases id,
{
    if id < scopes.len() {
        match scopes[id as int].parent {
            Some(p) => {
                if p < id {
                    lemma_lineage_bounds(scopes, p);
                    let rest = lineage_from(scopes, p);
                    let all = lineage_from(scopes, id);
                    assert(all == seq![id] + rest);
                    assert forall|k: int| 0 <= k < all.len() implies #[trigger] all[k] < scopes.len()
                        && all[k] <= id by {
                        if k > 0 {
                            assert(all[k] == rest[k - 1]);
                        }
                    }
                }
            },
            None => {},
        }
    }
}

/// What happens to a scope reaches only the events raised inside it: if the
/// fields of a scope change, or it is closed, the scopes that enclose an event
/// raised elsewhere are what they were.
pub proof fn lemma_foreign_scope_is_not_seen(
    scopes: Seq<ScopeView>,
    current: Option<usize>,
    id: usize,
    fields: Seq<FieldView>,
    closed: bool,
)
    requires
        id < scopes.len(),
        !lineage(scopes, current).contains(id),
    ensures
        ({
            let after = scopes.update(id as int, ScopeView { fields, closed, ..scopes[id as int] });
            &&& lineage(after, current) == lineage(scopes, current)
            &&& scopes_at(after, lineage(after, current)) == scopes_at(scopes, lineage(scopes, current))
        }),
{
    let after = scopes.update(id as int, ScopeView { fields, closed, ..scopes[id as int] });
    if current is Some && current->0 < scopes.len() {
        let start = current->0;
        lemma_same_parents(scopes, after, start);
        lemma_lineage_bounds(scopes, start);
        let ids = lineage(scopes, current);
        assert forall|k: int| 0 <= k < ids.len() implies after[ids[k] as int]
            == scopes[ids[k] as int] by {
            assert(ids.contains(ids[k]));
        }
        assert(scopes_at(after, ids) =~= scopes_at(scopes, ids));
    } else {
        assert(scopes_at(after, lineage(after, current)) =~= scopes_at(
            scopes,
            lineage(scopes, current),
        ));
    }
}

/// A new scope reaches no event raised in a scope that was there before: the
/// scopes that enclose such an event are what they were.
pub proof fn lemma_new_scope_is_not_seen(
    scopes: Seq<ScopeView>,
    current: Option<usize>,
    scope: ScopeView,
)
    requires
        current matches Some(start) ==> start < scopes.len(),
    ensures
        lineage(scopes.push(scope), current) == lineage(scopes, current),
        scopes_at(scopes.push(scope), lineage(scopes.push(scope), current)) == scopes_at(
            scopes,
            lineage(scopes, current),
        ),
{
    let after = scopes.push(scope);
    match current {
        Some(start) => {
            lemma_same_parents(scopes, after, start);
            lemma_lineage_bounds(scopes, start);
            let ids = lineage(scopes, current);
            assert(scopes_at(after, ids) =~= scopes_at(scopes, ids));
        },
        None => {
            assert(scopes_at(after, lineage(after, current)) =~= scopes_at(
            scopes,
            lineage(scopes, current),
        ));
        },
    }
}

/// Two stacks that agree on the parents of the scopes up to `id` agree on the
/// lineage of `id`.
proof fn lemma_same_parents(before: Seq<ScopeView>, after: Seq<ScopeView>, id: usize)
    requires
        id < before.len() <= after.len(),
        forall|k: int| 0 <= k <= id ==> (#[trigger] after[k]).parent == before[k].parent,
    ensures
        lineage_from(after, id) == lineage_from(before, id),
    decreases id,
{
    match before[id as int].parent {
        Some(p) => {
            if p < id {
                lemma_same_parents(before, after, p);
            }
        },
        None => {},
    }
}

/// All scopes created so far; a handle is the position of its scope.
#[derive(Debug)]
pub struct ScopeStack {
    scopes: Vec<Scope>,
}

impl View for ScopeStack {
    type V = Seq<ScopeView>;

    closed spec fn view(&self) -> Seq<ScopeView> {
        scope_views(self.scopes@)
    }
}

impl ScopeStack {
    #[verifier::type_invariant]
    spec fn well_formed(self) -> bool {
        parents_precede(scope_views(self.scopes@))
    }

    /// A stack without scopes.
    pub fn new() -> (r: ScopeStack)
        ensures
            r@ == Seq::<ScopeView>::empty(),
    {
        let r = ScopeStack { scopes: Vec::new() };
        assert(r@ =~= Seq::<ScopeView>::empty());
        r
    }

    /// The number of scopes created so far.
    pub fn len(&self) -> (r: usize)
        ensures
            r == self@.len(),
            parents_precede(self@),
    {
        proof {
            use_type_invariant(self);
        }
        self.scopes.len()
    }

    /// The scope with handle `id`.
    pub fn get(&self, id: usize) -> (r: &Scope)
        requires
            id < self@.len(),
        ensures
            r@ == self@[id as int],
    {
        &self.scopes[id]
    }

    /// Creates an open scope under `parent` and returns its handle. A parent
    /// that names no scope is taken as absent: the new scope is then a root.
    pub fn begin_scope(
        &mut self,
        parent: Option<usize>,
        metadata: Metadata,
        fields: RecordedFields,
    ) -> (id: usize)
        ensures
            id == old(self)@.len(),
            final(self)@ == old(self)@.push(
                ScopeView {
                    metadata: metadata@,
                    fields: fields@,
                    parent: match parent {
                        Some(p) => if p < old(self)@.len() { Some(p) } else { None },
                        None => None,
                    },
                    closed: false,
                },
            ),
    {
        proof {
            use_type_invariant(&*self);
        }
        let id = self.scopes.len();
        let parent = match parent {
            Some(p) => if p < id { Some(p) } else { None },
            None => None,
        };
        let scope = Scope { metadata, fields, parent, closed: false };
        let mut scopes: Vec<Scope> = Vec::new();
        core::mem::swap(&mut self.scopes, &mut scopes);
        scopes.push(scope);
        assert(scope_views(scopes@) =~= scope_views(old(self).scopes@).push(scope@));
        core::mem::swap(&mut self.scopes, &mut scopes);
        id
    }

    /// Appends to scope `id`, open or closed, the fields of `record` that
    /// `event_format` does not veto. Returns whether `id` names a scope.
    pub fn record<F: FieldFilter>(&mut self, id: usize, event_format: &F, record: &Record) -> (r: bool)
        ensures
            r == (id < old(self)@.len()),
            r ==> final(self)@ == old(self)@.update(
                id as int,
                ScopeView {
                    fields: old(self)@[id as int].fields + accepted(
                        *event_format,
                        field_views(record.fields@),
                    ),
                    ..old(self)@[id as int]
                },
            ),
            !r ==> final(self)@ == old(self)@,
    {
        proof {
            use_type_invariant(&*self);
        }
        if id >= self.scopes.len() {
            return false;
        }
        let mut scopes: Vec<Scope> = Vec::new();
        core::mem::swap(&mut self.scopes, &mut scopes);
        scopes[id].fields.append_record(event_format, record);
        assert(scope_views(scopes@) =~= scope_views(old(self).scopes@).update(
            id as int,
            scopes@[id as int]@,
        ));
        core::mem::swap(&mut self.scopes, &mut scopes);
        true
    }

    /// Marks scope `id` as closed; its fields stay, and more can be recorded.
    /// Returns whether `id` names a scope.
    pub fn end_scope(&mut self, id: usize) -> (r: bool)
        ensures
            r == (id < old(self)@.len()),
            r ==> final(self)@ == old(self)@.update(
                id as int,
                ScopeView { closed: true, ..old(self)@[id as int] },
            ),
            !r ==> final(self)@ == old(self)@,
    {
        proof {
            use_type_invariant(&*self);
        }
        if id >= self.scopes.len() {
            return false;
        }
        let mut scopes: Vec<Scope> = Vec::new();
        core::mem::swap(&mut self.scopes, &mut scopes);
        scopes[id].closed = true;
        assert(scope_views(scopes@) =~= scope_views(old(self).scopes@).update(
            id as int,
            scopes@[id as int]@,
        ));
        core::mem::swap(&mut self.scopes, &mut scopes);
        true
    }

    /// The handles of the scopes that enclose an event raised in `current`,
    /// innermost first.
    pub fn event_scope(&self, current: Option<usize>) -> (r: Vec<usize>)
        ensures
            r@ == lineage(self@, current),
            forall|i: int| 0 <= i < r@.len() ==> #[trigger] r@[i] < self@.len(),
    {
        proof {
            use_type_invariant(self);
        }
        let mut ids: Vec<usize> = Vec::new();
        let mut next = current;
        while next.is_some()
            invariant
                parents_precede(self@),
                self@.len() == self.scopes@.len(),
                ids@ + lineage(self@, next) == lineage(self@, current),
                forall|i: int| 0 <= i < ids@.len() ==> #[trigger] ids@[i] < self@.len(),
            decreases
                    (match next {
                        Some(id) => id + 1,
                        None => 0,
                    }),
        {
            let id = next.unwrap();
            if id >= self.scopes.len() {
                next = None;
            } else {
                ids.push(id);
                let ghost before = next;
                next = self.scopes[id].parent;
                proof {
                    assert(self@[id as int] == self.scopes@[id as int]@);
                    assert(lineage(self@, before) =~= seq![id] + lineage(self@, next));
                    assert(ids@ =~= ids@.drop_last() + seq![id]);
                    assert(ids@ + lineage(self@, next) =~= ids@.drop_last() + (seq![id] + lineage(
                        self@,
                        next,
                    )));
                }
            }
        }
        assert(ids@ + Seq::<usize>::empty() =~= ids@);
        ids
    }
}

/// What an event can see of its surroundings when it is formatted.
#[derive(Debug)]
pub struct Context<'a> {
    pub scopes: &'a ScopeStack,
    pub current: Option<usize>,
    pub thread_name: Option<String>,
}

impl<'a> Context<'a> {
    /// The scopes that enclose the event, innermost first.
    pub open spec fn event_scope(&self) -> Seq<ScopeView> {
        scopes_at(self.scopes@, lineage(self.scopes@, self.current))
    }
}

} // verus!
