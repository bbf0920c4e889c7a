//! The host side as a model: the append-only handle table and the
//! listener table that fired events are dispatched through.
use vstd::prelude::*;

verus! {

/// A listener as the host holds it: the object listened on, the event
/// name, and what it hands the trampoline.
pub ghost struct ListenerView {
    pub node: u64,
    pub name: Seq<char>,
    pub closure: usize,
    pub session: usize,
    pub capture: bool,
}

struct Listener {
    node: u64,
    name: String,
    closure: usize,
    session: usize,
    capture: bool,
}

impl Listener {
    spec fn view(&self) -> ListenerView {
        ListenerView {
            node: self.node,
            name: self.name@,
            closure: self.closure,
            session: self.session,
            capture: self.capture,
        }
    }
}

/// One call of the trampoline that the host makes for a fired event.
#[derive(PartialEq, Eq, Structural, Clone, Copy, Debug)]
pub struct Invocation {
    pub closure: usize,
    pub session: usize,
    /// A fresh handle for the event's target, or the sentinel.
    pub target: i32,
}

pub open spec fn listens(l: ListenerView, node: u64, name: Seq<char>) -> bool {
    l.node == node && l.name == name
}

/// The listeners that an event `name` on object `node` reaches, in the
/// order they were installed.
pub open spec fn matching(ls: Seq<ListenerView>, node: u64, name: Seq<char>) -> Seq<ListenerView>
    decreases ls.len(),
{
    if ls.len() == 0 {
        Seq::empty()
    } else if listens(ls.last(), node, name) {
        matching(ls.drop_last(), node, name).push(ls.last())
    } else {
        matching(ls.drop_last(), node, name)
    }
}

/// How many of `ls` carry closure address `c`.
pub open spec fn occurrences(ls: Seq<ListenerView>, c: usize) -> nat
    decreases ls.len(),
{
    if ls.len() == 0 {
        0
    } else {
        occurrences(ls.drop_last(), c) + if ls.last().closure == c {
            1nat
        } else {
            0nat
        }
    }
}

/// The host's side of the bridge, held in native memory: the table of live
/// objects that handles index, and the installed listeners. Objects are
/// named by `u64` identities. The table only grows.
pub struct HostModel {
    objects: Vec<u64>,
    listeners: Vec<Listener>,
}

proof fn lemma_occurrences_append(a: Seq<ListenerView>, b: Seq<ListenerView>, c: usize)
    ensures
        occurrences(a + b, c) == occurrences(a, c) + occurrences(b, c),
    decreases b.len(),
{
    if b.len() == 0 {
        assert(a + b =~= a);
    } else {
        assert((a + b).drop_last() =~= a + b.drop_last());
        lemma_occurrences_append(a, b.drop_last(), c);
    }
}

proof fn lemma_matching_append(a: Seq<ListenerView>, b: Seq<ListenerView>, node: u64, name: Seq<char>)
    ensures
        matching(a + b, node, name) == matching(a, node, name) + matching(b, node, name),
    decreases b.len(),
{
    if b.len() == 0 {
        assert(a + b =~= a);
        assert(matching(a, node, name) + matching(b, node, name) =~= matching(a, node, name));
    } else {
        assert((a + b).drop_last() =~= a + b.drop_last());
        lemma_matching_append(a, b.drop_last(), node, name);
        if listens(b.last(), node, name) {
            assert(matching(a, node, name) + matching(b.drop_last(), node, name).push(b.last())
                =~= (matching(a, node, name) + matching(b.drop_last(), node, name)).push(
                b.last(),
            ));
        }
    }
}

proof fn lemma_no_occurrence(ls: Seq<ListenerView>, node: u64, name: Seq<char>, c: usize)
    requires
        forall|i: int| 0 <= i < ls.len() ==> (#[trigger] ls[i]).closure != c,
    ensures
        occurrences(matching(ls, node, name), c) == 0,
    decreases ls.len(),
{
    if ls.len() > 0 {
        lemma_no_occurrence(ls.drop_last(), node, name, c);
        if listens(ls.last(), node, name) {
            assert(matching(ls, node, name).drop_last() =~= matching(ls.drop_last(), node, name));
        }
    }
}

/// A callback installed once for an event, under an address that no other
/// listener carries, is reached exactly once when that event fires.
pub proof fn lemma_registered_once_fires_once(
    before: Seq<ListenerView>,
    l: ListenerView,
    after: Seq<ListenerView>,
    node: u64,
    name: Seq<char>,
)
    requires
        listens(l, node, name),
        forall|i: int| 0 <= i < before.len() ==> (#[trigger] before[i]).closure != l.closure,
        forall|i: int| 0 <= i < after.len() ==> (#[trigger] after[i]).closure != l.closure,
    ensures
        occurrences(matching(before.push(l) + after, node, name), l.closure) == 1,
{
    let c = l.closure;
    lemma_matching_append(before.push(l), after, node, name);
    assert(before.push(l).drop_last() =~= before);
    lemma_no_occurrence(before, node, name, c);
    lemma_no_occurrence(after, node, name, c);
    let m = matching(before, node, name).push(l);
    assert(m.drop_last() =~= matching(before, node, name));
    lemma_occurrences_append(m, matching(after, node, name), c);
}

/// Two callbacks installed for the same event on the same object, each
/// under its own address, are both reached, each exactly once.
pub proof fn lemma_two_registrations_both_fire(
    a: Seq<ListenerView>,
    l1: ListenerView,
    b: Seq<ListenerView>,
    l2: ListenerView,
    c: Seq<ListenerView>,
    node: u64,
    name: Seq<char>,
)
    requires
        listens(l1, node, name),
        listens(l2, node, name),
        l1.closure != l2.closure,
        forall|i: int| 0 <= i < a.len() ==> (#[trigger] a[i]).closure != l1.closure && a[i].closure != l2.closure,
        forall|i: int| 0 <= i < b.len() ==> (#[trigger] b[i]).closure != l1.closure && b[i].closure != l2.closure,
        forall|i: int| 0 <= i < c.len() ==> (#[trigger] c[i]).closure != l1.closure && c[i].closure != l2.closure,
    ensures
        ({
            let ls = a.push(l1) + b.push(l2) + c;
            &&& occurrences(matching(ls, node, name), l1.closure) == 1
            &&& occurrences(matching(ls, node, name), l2.closure) == 1
        }),
{
    let ls = a.push(l1) + b.push(l2) + c;
    let after1 = b.push(l2) + c;
    assert(ls =~= a.push(l1) + after1);
    assert forall|i: int| 0 <= i < after1.len() implies (#[trigger] after1[i]).closure
        != l1.closure by {
        if i < b.len() {
            assert(after1[i] == b[i]);
        } else if i > b.len() {
            assert(after1[i] == c[i - b.len() - 1]);
        }
    };
    lemma_registered_once_fires_once(a, l1, after1, node, name);
    let before2 = a.push(l1) + b;
    assert(ls =~= before2.push(l2) + c);
    assert forall|i: int| 0 <= i < before2.len() implies (#[trigger] before2[i]).closure
        != l2.closure by {
        if i < a.len() {
            assert(before2[i] == a[i]);
        } else if i > a.len() {
            assert(before2[i] == b[i - a.len() - 1]);
        }
    };
    lemma_registered_once_fires_once(before2, l2, c, node, name);
}

/// A handle that was valid stays bound to the same object as the table
/// grows: what a handle names never changes.
pub proof fn lemma_handle_identity(before: Seq<u64>, after: Seq<u64>, h: int)
    requires
        before.is_prefix_of(after),
        0 <= h < before.len(),
    ensures
        h < after.len(),
        after[h] == before[h],
{
}

impl HostModel {
    pub closed spec fn table(&self) -> Seq<u64> {
        self.objects@
    }

    pub closed spec fn listener_views(&self) -> Seq<ListenerView> {
        self.listeners@.map_values(|l: Listener| l.view())
    }

    pub fn new() -> (r: HostModel)
        ensures
            r.table() == Seq::<u64>::empty(),
            r.listener_views() == Seq::<ListenerView>::empty(),
    {
        let r = HostModel { objects: Vec::new(), listeners: Vec::new() };
        assert(r.listener_views() =~= Seq::<ListenerView>::empty());
        r
    }

    /// Pushes `obj` onto the table and returns its new handle.
    pub fn push(&mut self, obj: u64) -> (h: i32)
        requires
            old(self).table().len() < i32::MAX,
        ensures
            h == old(self).table().len(),
            final(self).table() == old(self).table().push(obj),
            final(self).listener_views() == old(self).listener_views(),
    {
        let h = self.objects.len() as i32;
        self.objects.push(obj);
        h
    }

    /// The object that handle `h` names, if `h` is in the table.
    pub fn resolve(&self, h: i32) -> (r: Option<u64>)
        ensures
            r is Some <==> 0 <= h < self.table().len(),
            r matches Some(o) ==> o == self.table()[h as int],
    {
        if h >= 0 && (h as usize) < self.objects.len() {
            Some(self.objects[h as usize])
        } else {
            None
        }
    }

    /// Installs a listener for event `name` on the object of handle `h`.
    /// False, and nothing installed, if `h` names no object.
    pub fn add_listener(
        &mut self,
        h: i32,
        name: &str,
        closure: usize,
        session: usize,
        capture: bool,
    ) -> (r: bool)
        ensures
            r <==> 0 <= h < old(self).table().len(),
            final(self).table() == old(self).table(),
            !r ==> final(self).listener_views() == old(self).listener_views(),
            r ==> final(self).listener_views() == old(self).listener_views().push(
                ListenerView {
                    node: old(self).table()[h as int],
                    name: name@,
                    closure,
                    session,
                    capture,
                },
            ),
    {
        match self.resolve(h) {
            Some(node) => {
                let l = Listener { node, name: name.to_owned(), closure, session, capture };
                self.listeners.push(l);
                assert(self.listener_views() =~= old(self).listener_views().push(
                    ListenerView { node, name: name@, closure, session, capture },
                ));
                true
            },
            None => false,
        }
    }

    /// Fires event `name` on the object of handle `h`. Each listener it
    /// reaches gives one trampoline call, in installation order; for each,
    /// the event's target `target`, if any, is pushed as a fresh handle.
    pub fn fire(&mut self, h: i32, name: &str, target: Option<u64>) -> (r: Vec<Invocation>)
        requires
            0 <= h < old(self).table().len(),
            old(self).table().len() + old(self).listener_views().len() < i32::MAX,
        ensures
            ({
                let m = matching(
                    old(self).listener_views(),
                    old(self).table()[h as int],
                    name@,
                );
                &&& r@.len() == m.len()
                &&& forall|j: int|
                    0 <= j < r@.len() ==> (#[trigger] r@[j]).closure == m[j].closure
                        && r@[j].session == m[j].session
            }),
            old(self).table().is_prefix_of(final(self).table()),
            final(self).listener_views() == old(self).listener_views(),
            forall|j: int|
                0 <= j < r@.len() ==> match target {
                    None => (#[trigger] r@[j]).target == -1,
                    Some(o) => old(self).table().len() <= r@[j].target < final(self).table().len()
                        && final(self).table()[r@[j].target as int] == o,
                },
    {
        let node = self.objects[h as usize];
        let key = name.to_owned();
        let ghost ls = self.listener_views();
        let mut r: Vec<Invocation> = Vec::new();
        let mut i: usize = 0;
        while i < self.listeners.len()
            invariant
                ls == self.listener_views(),
                ls == old(self).listener_views(),
                node == old(self).table()[h as int],
                key@ == name@,
                i <= ls.len(),
                old(self).table().is_prefix_of(self.table()),
                self.table().len() <= old(self).table().len() + i,
                old(self).table().len() + ls.len() < i32::MAX,
                ({
                    let m = matching(ls.take(i as int), node, name@);
                    &&& r@.len() == m.len()
                    &&& forall|j: int|
                        0 <= j < r@.len() ==> (#[trigger] r@[j]).closure == m[j].closure
                            && r@[j].session == m[j].session
                }),
                forall|j: int|
                    0 <= j < r@.len() ==> match target {
                        None => (#[trigger] r@[j]).target == -1,
                        Some(o) => old(self).table().len() <= r@[j].target < self.table().len()
                            && self.table()[r@[j].target as int] == o,
                    },
            decreases ls.len() - i,
        {
            assert(ls.take(i + 1).drop_last() =~= ls.take(i as int));
            assert(ls[i as int] == self.listeners@[i as int].view());
            let hit = self.listeners[i].node == node && self.listeners[i].name == key;
            if hit {
                let t = match target {
                    Some(o) => self.push(o),
                    None => -1i32,
                };
                r.push(
                    Invocation {
                        closure: self.listeners[i].closure,
                        session: self.listeners[i].session,
                        target: t,
                    },
                );
            }
            i = i + 1;
        }
        assert(ls.take(i as int) =~= ls);
        r
    }
}

} // verus!
