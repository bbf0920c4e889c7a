//! The session: closure ownership, listener installation and the
//! trampoline's lookup.
use vstd::prelude::*;

use crate::call::{plain_call, ForeignCall, Snippet};
use crate::encode::{args_view, Arg, ArgView, EncodeError};
use crate::node::{passable, Event, HtmlNode};
use crate::registry::Registry;

verus! {

/// Where a listener is installed.
#[derive(PartialEq, Eq, Structural, Clone, Copy, Debug)]
pub enum ListenTarget {
    /// On a node, in the bubbling phase.
    Node(i32),
    /// On a node, in the capturing phase.
    NodeCapture(i32),
    /// On the window.
    Window,
}

pub open spec fn listen_snippet(t: ListenTarget) -> Snippet {
    match t {
        ListenTarget::Node(_) => Snippet::Listen,
        ListenTarget::NodeCapture(_) => Snippet::ListenCapture,
        ListenTarget::Window => Snippet::WindowListen,
    }
}

pub open spec fn listen_handle(t: ListenTarget) -> i32 {
    match t {
        ListenTarget::Node(h) => h,
        ListenTarget::NodeCapture(h) => h,
        ListenTarget::Window => 0,
    }
}

/// The native side of one connection to the host: it owns every closure
/// that the host may call back, and builds the calls that make new handles.
pub struct Document<C> {
    registry: Registry<C>,
}

/// A fresh session with no closures, and the one call that sets up the
/// host's side of the bridge (issuing it twice does no harm).
pub fn init<C>() -> (r: (Document<C>, ForeignCall))
    ensures
        r.0.closures() == Seq::<C>::empty(),
        r.1.wf(),
        r.1.spec_snippet() == Snippet::Init,
        r.1.arg_views() == Seq::<ArgView>::empty(),
{
    let args: Vec<Arg> = Vec::new();
    proof {
        assert(args_view(args@) =~= Seq::<ArgView>::empty());
    }
    (Document { registry: Registry::new() }, plain_call(Snippet::Init, args))
}

/// The call for a snippet that takes one text argument.
fn text_call(snippet: Snippet, s: &str) -> (r: Result<ForeignCall, EncodeError>)
    requires
        snippet.spec_arity() == 1,
    ensures
        r is Ok <==> passable(s@),
        r matches Ok(c) ==> c.wf() && c.spec_snippet() == snippet && c.arg_views() == seq![
            ArgView::Text(s@),
        ],
{
    let args = vec![Arg::Text(s.to_owned())];
    proof {
        assert(args_view(args@) =~= seq![ArgView::Text(s@)]);
    }
    ForeignCall::new(snippet, args)
}

impl<C> Document<C> {
    /// The closures registered so far, in order; a closure's address is its index.
    pub closed spec fn closures(&self) -> Seq<C> {
        self.registry@
    }

    /// The call that creates an element with tag name `s` and pushes it.
    pub fn element_create(&self, s: &str) -> (r: Result<ForeignCall, EncodeError>)
        ensures
            r is Ok <==> passable(s@),
            r matches Ok(c) ==> c.wf() && c.spec_snippet() == Snippet::ElementCreate
                && c.arg_views() == seq![ArgView::Text(s@)],
    {
        text_call(Snippet::ElementCreate, s)
    }

    /// The call that pushes the first match of selector `s` in the document.
    pub fn element_query(&self, s: &str) -> (r: Result<ForeignCall, EncodeError>)
        ensures
            r is Ok <==> passable(s@),
            r matches Ok(c) ==> c.wf() && c.spec_snippet() == Snippet::DocumentQuery
                && c.arg_views() == seq![ArgView::Text(s@)],
    {
        text_call(Snippet::DocumentQuery, s)
    }

    /// The call that pushes every match of selector `s` in the document and
    /// writes the first new index at address `first`; it returns the count.
    pub fn element_query_all(&self, s: &str, first: usize) -> (r: Result<ForeignCall, EncodeError>)
        ensures
            r is Ok <==> passable(s@),
            r matches Ok(c) ==> c.wf() && c.spec_snippet() == Snippet::DocumentQueryAll
                && c.arg_views() == seq![ArgView::Text(s@), ArgView::Ptr(first)],
    {
        let args = vec![Arg::Text(s.to_owned()), Arg::Ptr(first)];
        proof {
            assert(args_view(args@) =~= seq![ArgView::Text(s@), ArgView::Ptr(first)]);
        }
        ForeignCall::new(Snippet::DocumentQueryAll, args)
    }

    /// The call that reads the location hash.
    pub fn location_hash_get(&self) -> (r: ForeignCall)
        ensures
            r.wf(),
            r.spec_snippet() == Snippet::LocationHash,
            r.arg_views() == Seq::<ArgView>::empty(),
    {
        let args: Vec<Arg> = Vec::new();
        proof {
            assert(args_view(args@) =~= Seq::<ArgView>::empty());
        }
        plain_call(Snippet::LocationHash, args)
    }

    /// Registers closure `f` for event `name` on `target`, and returns the
    /// call that installs the host listener. The listener hands the host
    /// back the closure's address, `session` and the event's target, and
    /// calls `trampoline` with them. The session keeps `f` from then on. If
    /// the event name cannot be passed, nothing is registered.
    pub fn listen(
        &mut self,
        target: ListenTarget,
        name: &str,
        f: C,
        trampoline: usize,
        session: usize,
    ) -> (r: Result<ForeignCall, EncodeError>)
        ensures
            r is Ok <==> passable(name@),
            r is Err ==> final(self).closures() == old(self).closures(),
            r matches Ok(c) ==> {
                &&& final(self).closures() == old(self).closures().push(f)
                &&& c.wf()
                &&& c.spec_snippet() == listen_snippet(target)
                &&& c.arg_views() == seq![
                    ArgView::Int(listen_handle(target)),
                    ArgView::Text(name@),
                    ArgView::Ptr(old(self).closures().len() as usize),
                    ArgView::Ptr(trampoline),
                    ArgView::Ptr(session),
                ]
            },
    {
        let (snippet, handle) = match target {
            ListenTarget::Node(h) => (Snippet::Listen, h),
            ListenTarget::NodeCapture(h) => (Snippet::ListenCapture, h),
            ListenTarget::Window => (Snippet::WindowListen, 0i32),
        };
        let addr = self.registry.len();
        let args = vec![
            Arg::Int(handle),
            Arg::Text(name.to_owned()),
            Arg::Ptr(addr),
            Arg::Ptr(trampoline),
            Arg::Ptr(session),
        ];
        proof {
            assert(args_view(args@) =~= seq![
                ArgView::Int(listen_handle(target)),
                ArgView::Text(name@),
                ArgView::Ptr(addr),
                ArgView::Ptr(trampoline),
                ArgView::Ptr(session),
            ]);
        }
        match ForeignCall::new(snippet, args) {
            Ok(c) => {
                self.registry.register(f);
                Ok(c)
            },
            Err(e) => Err(e),
        }
    }

    /// Registers `f` for event `name` on the window.
    pub fn on(&mut self, name: &str, f: C, trampoline: usize, session: usize) -> (r: Result<
        ForeignCall,
        EncodeError,
    >)
        ensures
            r is Ok <==> passable(name@),
            r is Err ==> final(self).closures() == old(self).closures(),
            r matches Ok(c) ==> {
                &&& final(self).closures() == old(self).closures().push(f)
                &&& c.wf()
                &&& c.spec_snippet() == Snippet::WindowListen
                &&& c.arg_views() == seq![
                    ArgView::Int(0),
                    ArgView::Text(name@),
                    ArgView::Ptr(old(self).closures().len() as usize),
                    ArgView::Ptr(trampoline),
                    ArgView::Ptr(session),
                ]
            },
    {
        self.listen(ListenTarget::Window, name, f, trampoline, session)
    }

    /// Registers `f` for event `name` on `node`, in the bubbling phase when
    /// `capture` is false and in the capturing phase otherwise. The node's
    /// session address is what the listener hands back.
    pub fn on_node(&mut self, node: &HtmlNode, name: &str, f: C, trampoline: usize, capture: bool) -> (r:
        Result<ForeignCall, EncodeError>)
        ensures
            r is Ok <==> passable(name@),
            r is Err ==> final(self).closures() == old(self).closures(),
            r matches Ok(c) ==> {
                &&& final(self).closures() == old(self).closures().push(f)
                &&& c.wf()
                &&& c.spec_snippet() == if capture {
                    Snippet::ListenCapture
                } else {
                    Snippet::Listen
                }
                &&& c.arg_views() == seq![
                    ArgView::Int(node.spec_id()),
                    ArgView::Text(name@),
                    ArgView::Ptr(old(self).closures().len() as usize),
                    ArgView::Ptr(trampoline),
                    ArgView::Ptr(node.spec_doc()),
                ]
            },
    {
        let target = if capture {
            ListenTarget::NodeCapture(node.id())
        } else {
            ListenTarget::Node(node.id())
        };
        self.listen(target, name, f, trampoline, node.doc())
    }

    /// What the trampoline does when the host calls it: the closure at
    /// `addr`, still owned by the session, and the event rebuilt from
    /// `target`. None if no closure has that address.
    pub fn trampoline(&self, addr: usize, session: usize, target: i32) -> (r: Option<(&C, Event)>)
        ensures
            r is Some <==> addr < self.closures().len(),
            r matches Some((c, ev)) ==> {
                &&& *c == self.closures()[addr as int]
                &&& ev.target is None <==> target < 0
                &&& ev.target matches Some(n) ==> n.spec_id() == target && n.spec_doc() == session
            },
    {
        match self.registry.get(addr) {
            Some(c) => Some((c, Event::from_host(session, target))),
            None => None,
        }
    }

    /// The number of closures the session owns.
    pub fn closure_count(&self) -> (r: usize)
        ensures
            r == self.closures().len(),
    {
        self.registry.len()
    }
}

} // verus!
