use vstd::prelude::*;
use std::collections::HashMap;
use crate::attributes::{AttributeMap, FieldSeq};
use crate::interner::{signature, signature_text, spec_intern, NameId, NameInterner};
use crate::level::{native_level, spec_native_level, Level, NativeLevel};
use crate::render::{contains_nul, has_nul, message_text, push_event, push_segment};

verus! {

broadcast use vstd::std_specs::hash::group_hash_axioms;

/// Why the bridge stopped: text that cannot cross into native code, or a
/// span callback out of lifecycle order.
#[derive(Clone, Copy, Debug, PartialEq, Eq, Structural)]
pub enum BridgeError {
    NulInSubsystem,
    NulInCategory,
    NulInSignature,
    NulInMessage,
    MissingActivity,
    DuplicateActivity,
}

/// The record of one live span: its native activity handle, its name and
/// the attributes captured when it was created.
pub struct ActivityNode {
    pub activity: u64,
    pub name: String,
    pub attributes: AttributeMap,
}

/// Parent of a new native activity.
#[derive(Clone, Copy, Debug, PartialEq, Eq, Structural)]
pub enum ParentActivity {
    /// The ambient top-level activity, not owned by the bridge.
    Current,
    /// The activity of the enclosing span.
    Span(u64),
}

/// What the host does for a new span.
#[derive(Clone, Copy, Debug, PartialEq, Eq, Structural)]
pub enum SpanPlan {
    /// The span already has its activity: nothing to do.
    Existing,
    /// Create an activity named by the interned `name` under `parent`, then
    /// attach it. `fresh` says the name was stored by this call.
    Create { name: NameId, fresh: bool, parent: ParentActivity },
}

/// The spans' records, by span id.
pub type NodeMap = Map<u64, ActivityNode>;

/// Whether every span of `scope` has a record.
pub open spec fn scope_known(nodes: NodeMap, scope: Seq<u64>) -> bool {
    forall|i: int| 0 <= i < scope.len() ==> nodes.contains_key(#[trigger] scope[i])
}

/// The names and attributes of the spans of `scope`, in its order.
pub open spec fn scope_chain(nodes: NodeMap, scope: Seq<u64>) -> Seq<(Seq<char>, FieldSeq)> {
    scope.map_values(|id: u64| (nodes[id].name@, nodes[id].attributes@))
}

/// The outcome of the span-created path, and the names stored after it.
pub open spec fn spec_prepare(
    nodes: NodeMap,
    names: Seq<Seq<char>>,
    id: u64,
    parent: Option<u64>,
    sig: Seq<char>,
) -> (Result<SpanPlan, BridgeError>, Seq<Seq<char>>) {
    if nodes.contains_key(id) {
        (Ok(SpanPlan::Existing), names)
    } else if parent.is_some() && !nodes.contains_key(parent.unwrap()) {
        (Err(BridgeError::MissingActivity), names)
    } else if has_nul(sig) {
        (Err(BridgeError::NulInSignature), names)
    } else {
        let (names2, i) = spec_intern(names, sig);
        let p = match parent {
            Some(pid) => ParentActivity::Span(nodes[pid].activity),
            None => ParentActivity::Current,
        };
        (Ok(SpanPlan::Create { name: NameId { index: i as usize }, fresh: names2.len() > names.len(), parent: p }), names2)
    }
}

/// The outcome of attaching record `node` to span `id`, and the records
/// after it.
pub open spec fn spec_attach(nodes: NodeMap, id: u64, node: ActivityNode) -> (Result<(), BridgeError>, NodeMap) {
    if nodes.contains_key(id) {
        (Err(BridgeError::DuplicateActivity), nodes)
    } else {
        (Ok(()), nodes.insert(id, node))
    }
}

/// A span created and attached, then looked up, carries exactly the
/// attributes it was created with, in their order.
pub proof fn lemma_attached_attributes(nodes: NodeMap, id: u64, node: ActivityNode)
    requires
        !nodes.contains_key(id),
    ensures
        spec_attach(nodes, id, node).0 is Ok,
        spec_attach(nodes, id, node).1.contains_key(id),
        spec_attach(nodes, id, node).1[id].attributes@ == node.attributes@,
{
}

/// The span-created path on a span that already has its record is a no-op:
/// it plans nothing and interns nothing.
pub proof fn lemma_prepare_idempotent(
    nodes: NodeMap,
    names: Seq<Seq<char>>,
    id: u64,
    parent: Option<u64>,
    sig: Seq<char>,
    node: ActivityNode,
)
    ensures
        spec_prepare(spec_attach(nodes, id, node).1, names, id, parent, sig) == (
        Ok::<SpanPlan, BridgeError>(SpanPlan::Existing),
        names,
        ),
{
}

/// Closing a span hands its activity back exactly once: a second close, like
/// a close of a span without a record, is refused.
pub proof fn lemma_close_once(nodes: NodeMap, id: u64)
    ensures
        nodes.contains_key(id) ==> spec_close(nodes, id).0 == Ok::<u64, BridgeError>(nodes[id].activity),
        spec_close(spec_close(nodes, id).1, id) == (
        Err::<u64, BridgeError>(BridgeError::MissingActivity),
        spec_close(nodes, id).1,
        ),
        !nodes.contains_key(id) ==> spec_close(nodes, id) == (
        Err::<u64, BridgeError>(BridgeError::MissingActivity),
        nodes,
        ),
{
}

/// The outcome of closing span `id`, and the records after it.
pub open spec fn spec_close(nodes: NodeMap, id: u64) -> (Result<u64, BridgeError>, NodeMap) {
    if nodes.contains_key(id) {
        (Ok(nodes[id].activity), nodes.remove(id))
    } else {
        (Err(BridgeError::MissingActivity), nodes)
    }
}

/// The outcome of an event of level `level` with `fields`, inside `scope`.
pub open spec fn spec_event(nodes: NodeMap, level: Level, scope: Seq<u64>, fields: FieldSeq) -> Result<(NativeLevel, Seq<char>), BridgeError> {
    if !scope_known(nodes, scope) {
        Err(BridgeError::MissingActivity)
    } else if has_nul(message_text(scope_chain(nodes, scope), fields)) {
        Err(BridgeError::NulInMessage)
    } else {
        Ok((spec_native_level(level), message_text(scope_chain(nodes, scope), fields)))
    }
}

/// The bridge's state: its identifiers, the interned names and one record
/// per live span.
pub struct OsLogger {
    subsystem: String,
    category: String,
    names: NameInterner,
    nodes: HashMap<u64, ActivityNode>,
}

impl OsLogger {
    pub closed spec fn wf(&self) -> bool {
        self.names.wf()
    }

    /// The records of the live spans.
    pub closed spec fn nodes(&self) -> NodeMap {
        self.nodes@
    }

    /// The interned signatures, by id.
    pub closed spec fn names(&self) -> Seq<Seq<char>> {
        self.names@
    }

    pub closed spec fn subsystem_text(&self) -> Seq<char> {
        self.subsystem@
    }

    pub closed spec fn category_text(&self) -> Seq<char> {
        self.category@
    }

    /// A bridge for the given subsystem and category, both of which must be
    /// representable as native text.
    pub fn new(subsystem: &str, category: &str) -> (r: Result<OsLogger, BridgeError>)
        ensures
            has_nul(subsystem@) ==> r == Err::<OsLogger, BridgeError>(BridgeError::NulInSubsystem),
            !has_nul(subsystem@) && has_nul(category@) ==> r == Err::<OsLogger, BridgeError>(BridgeError::NulInCategory),
            !has_nul(subsystem@) && !has_nul(category@) ==> r.is_ok(),
            r matches Ok(l) ==> {
                &&& l.wf()
                &&& l.subsystem_text() == subsystem@
                &&& l.category_text() == category@
                &&& l.nodes() == Map::<u64, ActivityNode>::empty()
                &&& l.names() == Seq::<Seq<char>>::empty()
            },
    {
        if contains_nul(subsystem) {
            return Err(BridgeError::NulInSubsystem);
        }
        if contains_nul(category) {
            return Err(BridgeError::NulInCategory);
        }
        Ok(OsLogger {
            subsystem: String::from_str(subsystem),
            category: String::from_str(category),
            names: NameInterner::new(),
            nodes: HashMap::new(),
        })
    }

    pub fn subsystem(&self) -> (r: &String)
        ensures
            r@ == self.subsystem_text(),
    {
        &self.subsystem
    }

    pub fn category(&self) -> (r: &String)
        ensures
            r@ == self.category_text(),
    {
        &self.category
    }

    /// The interned names.
    pub fn interner(&self) -> (r: &NameInterner)
        ensures
            r@ == self.names(),
    {
        &self.names
    }

    /// The record of span `id`, if it has one.
    pub fn node(&self, id: u64) -> (r: Option<&ActivityNode>)
        ensures
            self.nodes().contains_key(id) ==> r == Some(&self.nodes()[id]),
            !self.nodes().contains_key(id) ==> r.is_none(),
    {
        self.nodes.get(&id)
    }

    /// The span-created path: a span that has a record is left alone;
    /// otherwise its signature is interned and the activity to create is
    /// returned. Records are never changed here.
    pub fn prepare_span(
        &mut self,
        id: u64,
        parent: Option<u64>,
        target: &str,
        name: &str,
        attributes: &AttributeMap,
    ) -> (r: Result<SpanPlan, BridgeError>)
        requires
            old(self).wf(),
        ensures
            final(self).wf(),
            final(self).nodes() == old(self).nodes(),
            final(self).subsystem_text() == old(self).subsystem_text(),
            final(self).category_text() == old(self).category_text(),
            (r, final(self).names()) == spec_prepare(
                old(self).nodes(),
                old(self).names(),
                id,
                parent,
                signature_text(target@, name@, attributes@),
            ),
    {
        if self.nodes.contains_key(&id) {
            return Ok(SpanPlan::Existing);
        }
        let p = match parent {
            Some(pid) => match self.nodes.get(&pid) {
                Some(n) => ParentActivity::Span(n.activity),
                None => {
                    return Err(BridgeError::MissingActivity);
                },
            },
            None => ParentActivity::Current,
        };
        let sig = signature(target, name, attributes);
        match self.names.intern(sig) {
            Some(interned) => Ok(SpanPlan::Create { name: interned.id, fresh: interned.fresh, parent: p }),
            None => Err(BridgeError::NulInSignature),
        }
    }

    /// Stores the record of span `id` once its native activity exists.
    pub fn attach_activity(&mut self, id: u64, activity: u64, name: String, attributes: AttributeMap) -> (r: Result<(), BridgeError>)
        requires
            old(self).wf(),
        ensures
            final(self).wf(),
            final(self).names() == old(self).names(),
            final(self).subsystem_text() == old(self).subsystem_text(),
            final(self).category_text() == old(self).category_text(),
            (r, final(self).nodes()) == spec_attach(
                old(self).nodes(),
                id,
                ActivityNode { activity, name, attributes },
            ),
    {
        if self.nodes.contains_key(&id) {
            return Err(BridgeError::DuplicateActivity);
        }
        self.nodes.insert(id, ActivityNode { activity, name, attributes });
        Ok(())
    }

    /// The activity to enter for span `id`.
    pub fn on_enter(&self, id: u64) -> (r: Result<u64, BridgeError>)
        ensures
            self.nodes().contains_key(id) ==> r == Ok::<u64, BridgeError>(self.nodes()[id].activity),
            !self.nodes().contains_key(id) ==> r == Err::<u64, BridgeError>(BridgeError::MissingActivity),
    {
        match self.nodes.get(&id) {
            Some(n) => Ok(n.activity),
            None => Err(BridgeError::MissingActivity),
        }
    }

    /// Drops the record of span `id` and hands back its activity, to be
    /// released by the host.
    pub fn on_close(&mut self, id: u64) -> (r: Result<u64, BridgeError>)
        requires
            old(self).wf(),
        ensures
            final(self).wf(),
            final(self).names() == old(self).names(),
            final(self).subsystem_text() == old(self).subsystem_text(),
            final(self).category_text() == old(self).category_text(),
            (r, final(self).nodes()) == spec_close(old(self).nodes(), id),
    {
        match self.nodes.remove(&id) {
            Some(n) => Ok(n.activity),
            None => Err(BridgeError::MissingActivity),
        }
    }

    /// The native level and text of an event with `fields`, inside the spans
    /// of `scope`, root first.
    pub fn on_event(&self, level: Level, scope: &Vec<u64>, fields: &AttributeMap) -> (r: Result<(NativeLevel, String), BridgeError>)
        ensures
            match spec_event(self.nodes(), level, scope@, fields@) {
                Ok((l, text)) => r matches Ok((l2, s)) && l2 == l && s@ == text,
                Err(e) => r == Err::<(NativeLevel, String), BridgeError>(e),
            },
    {
        let mut out = String::new();
        let mut i: usize = 0;
        while i < scope.len()
            invariant
                i <= scope@.len(),
                scope_known(self.nodes(), scope@.take(i as int)),
                out@ == crate::render::chain_text(scope_chain(self.nodes(), scope@.take(i as int))),
            decreases scope@.len() - i,
        {
            let ghost before = scope@.take(i as int);
            match self.nodes.get(&scope[i]) {
                Some(n) => {
                    push_segment(&mut out, n.name.as_str(), &n.attributes);
                    assert(scope@.take(i + 1).drop_last() =~= before);
                    assert(scope_chain(self.nodes(), scope@.take(i + 1)).drop_last() =~= scope_chain(self.nodes(), before));
                },
                None => {
                    assert(!scope_known(self.nodes(), scope@));
                    return Err(BridgeError::MissingActivity);
                },
            }
            i = i + 1;
        }
        assert(scope@.take(i as int) =~= scope@);
        push_event(&mut out, fields);
        if contains_nul(out.as_str()) {
            return Err(BridgeError::NulInMessage);
        }
        Ok((native_level(level), out))
    }
}

} // verus!
