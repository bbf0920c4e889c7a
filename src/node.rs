//! Node handles and the events that callbacks receive.
use vstd::prelude::*;

use crate::call::{plain_call, ForeignCall, Snippet};
use crate::encode::{all_text_ok, args_view, has_nul, text_ok, Arg, ArgView, EncodeError};
use vstd::utf8::encode_utf8;

verus! {

/// A handle to one live host object, with the address of the session it
/// came from. It does not own the object; two nodes are equal when their
/// handles are.
#[derive(Clone, Copy, Debug)]
pub struct HtmlNode {
    id: i32,
    doc: usize,
}

impl PartialEq for HtmlNode {
    fn eq(&self, other: &HtmlNode) -> (r: bool)
        ensures
            r == (self.spec_id() == other.spec_id()),
    {
        self.id == other.id
    }
}

impl vstd::std_specs::cmp::PartialEqSpecImpl for HtmlNode {
    open spec fn obeys_eq_spec() -> bool {
        true
    }

    open spec fn eq_spec(&self, other: &HtmlNode) -> bool {
        self.spec_id() == other.spec_id()
    }
}

/// The text of a selector or tag name is passable as C text.
pub open spec fn passable(s: Seq<char>) -> bool {
    !has_nul(encode_utf8(s))
}

impl HtmlNode {
    pub closed spec fn spec_id(&self) -> i32 {
        self.id
    }

    pub closed spec fn spec_doc(&self) -> usize {
        self.doc
    }

    /// The handle: an index into the host's table, never negative.
    pub fn id(&self) -> (r: i32)
        ensures
            r == self.spec_id(),
    {
        self.id
    }

    /// The address of the owning session.
    pub fn doc(&self) -> (r: usize)
        ensures
            r == self.spec_doc(),
    {
        self.doc
    }

    /// Wraps a handle that the host returned: a negative value is the
    /// sentinel and means that there is no object.
    pub fn from_handle(raw: i32, doc: usize) -> (r: Option<HtmlNode>)
        ensures
            r is None <==> raw < 0,
            r matches Some(n) ==> n.spec_id() == raw && n.spec_doc() == doc,
    {
        if raw < 0 {
            None
        } else {
            Some(HtmlNode { id: raw, doc })
        }
    }

    /// The nodes for `count` handles that the host pushed in a row from
    /// `start` on. A count below one gives no node.
    pub fn from_range(start: i32, count: i32, doc: usize) -> (r: Vec<HtmlNode>)
        requires
            0 <= start,
            count <= 0 || start + count <= i32::MAX,
        ensures
            count <= 0 ==> r@.len() == 0,
            count > 0 ==> r@.len() == count,
            forall|i: int|
                0 <= i < r@.len() ==> (#[trigger] r@[i]).spec_id() == start + i && r@[i].spec_doc()
                    == doc,
    {
        let mut r: Vec<HtmlNode> = Vec::new();
        if count <= 0 {
            return r;
        }
        let mut k: i32 = 0;
        while k < count
            invariant
                0 <= k <= count,
                start + count <= i32::MAX,
                0 <= start,
                r@.len() == k,
                forall|i: int|
                    0 <= i < k ==> (#[trigger] r@[i]).spec_id() == start + i && r@[i].spec_doc()
                        == doc,
            decreases count - k,
        {
            r.push(HtmlNode { id: start + k, doc });
            k = k + 1;
        }
        r
    }

    /// A reference to this node.
    pub fn root_ref(&self) -> (r: JSRef)
        ensures
            r.spec_node().spec_id() == self.spec_id(),
            r.spec_node().spec_doc() == self.spec_doc(),
    {
        JSRef { node: *self }
    }

    /// The call that looks up the first match of selector `s` under this
    /// node and pushes it onto the host's table.
    pub fn element_query(&self, s: &str) -> (r: Result<ForeignCall, EncodeError>)
        ensures
            r is Ok <==> passable(s@),
            r matches Ok(c) ==> c.wf() && c.spec_snippet() == Snippet::NodeQuery && c.arg_views()
                == seq![ArgView::Int(self.spec_id()), ArgView::Text(s@)],
    {
        let args = vec![Arg::Int(self.id), Arg::Text(s.to_owned())];
        proof {
            assert(args_view(args@) =~= seq![ArgView::Int(self.spec_id()), ArgView::Text(s@)]);
        }
        ForeignCall::new(Snippet::NodeQuery, args)
    }

    /// The call that pushes every match of selector `s` under this node and
    /// writes the first new index at address `first`; it returns the count.
    pub fn element_query_all(&self, s: &str, first: usize) -> (r: Result<ForeignCall, EncodeError>)
        ensures
            r is Ok <==> passable(s@),
            r matches Ok(c) ==> c.wf() && c.spec_snippet() == Snippet::NodeQueryAll
                && c.arg_views() == seq![
                ArgView::Int(self.spec_id()),
                ArgView::Text(s@),
                ArgView::Ptr(first),
            ],
    {
        let args = vec![Arg::Int(self.id), Arg::Text(s.to_owned()), Arg::Ptr(first)];
        proof {
            assert(args_view(args@) =~= seq![
                ArgView::Int(self.spec_id()),
                ArgView::Text(s@),
                ArgView::Ptr(first),
            ]);
        }
        ForeignCall::new(Snippet::NodeQueryAll, args)
    }

    /// The call that pushes this node's parent onto the host's table.
    pub fn parent(&self) -> (r: ForeignCall)
        ensures
            r.wf(),
            r.spec_snippet() == Snippet::Parent,
            r.arg_views() == seq![ArgView::Int(self.spec_id())],
    {
        let args = vec![Arg::Int(self.id)];
        proof {
            assert(args_view(args@) =~= seq![ArgView::Int(self.spec_id())]);
        }
        plain_call(Snippet::Parent, args)
    }
}

/// A second name for a node, as handed around between callbacks. It names
/// the same host object as the node it came from.
#[derive(Clone, Copy, Debug)]
pub struct JSRef {
    node: HtmlNode,
}

impl JSRef {
    /// The node this reference names.
    pub fn node(&self) -> (r: HtmlNode)
        ensures
            r.spec_id() == self.spec_node().spec_id(),
            r.spec_doc() == self.spec_node().spec_doc(),
    {
        self.node
    }

    pub closed spec fn spec_node(&self) -> HtmlNode {
        self.node
    }
}

/// What a callback receives: the node the event was aimed at, if any.
pub struct Event {
    pub target: Option<HtmlNode>,
}

impl Event {
    /// Rebuilds the event from the handle that the host passed for its
    /// target: the sentinel gives no target.
    pub fn from_host(session: usize, target: i32) -> (r: Event)
        ensures
            r.target is None <==> target < 0,
            r.target matches Some(n) ==> n.spec_id() == target && n.spec_doc() == session,
    {
        Event { target: HtmlNode::from_handle(target, session) }
    }
}

} // verus!

verus! {

/// The per-feature calls on a node. Each builds the one foreign call that
/// does the work on the host; the handle always comes first.
impl HtmlNode {
    /// The call that reads the node's lower-case tag name.
    pub fn tagname(&self) -> (r: ForeignCall)
        ensures
            r.wf(),
            r.spec_snippet() == Snippet::TagName,
            r.arg_views() == seq![ArgView::Int(self.spec_id())],
    {
        let args = vec![Arg::Int(self.id)];
        proof {
            assert(args_view(args@) =~= seq![ArgView::Int(self.spec_id())]);
        }
        plain_call(Snippet::TagName, args)
    }

    /// The call that focuses the node.
    pub fn focus(&self) -> (r: ForeignCall)
        ensures
            r.wf(),
            r.spec_snippet() == Snippet::Focus,
            r.arg_views() == seq![ArgView::Int(self.spec_id())],
    {
        let args = vec![Arg::Int(self.id)];
        proof {
            assert(args_view(args@) =~= seq![ArgView::Int(self.spec_id())]);
        }
        plain_call(Snippet::Focus, args)
    }

    /// The call that replaces the node's inner markup with `s`.
    pub fn html_set(&self, s: &str) -> (r: Result<ForeignCall, EncodeError>)
        ensures
            r is Ok <==> passable(s@),
            r matches Ok(c) ==> c.wf() && c.spec_snippet() == Snippet::HtmlSet && c.arg_views()
                == seq![ArgView::Int(self.spec_id()), ArgView::Text(s@)],
    {
        let args = vec![Arg::Int(self.id), Arg::Text(s.to_owned())];
        proof {
            let av = args_view(args@);
            assert(av =~= seq![ArgView::Int(self.spec_id()), ArgView::Text(s@)]);
            assert(all_text_ok(av) ==> text_ok(av[1]));
        }
        ForeignCall::new(Snippet::HtmlSet, args)
    }

    /// The call that patches the node's inner markup towards `s` through the diffing library.
    pub fn html_patch(&self, s: &str) -> (r: Result<ForeignCall, EncodeError>)
        ensures
            r is Ok <==> passable(s@),
            r matches Ok(c) ==> c.wf() && c.spec_snippet() == Snippet::HtmlPatch && c.arg_views()
                == seq![ArgView::Int(self.spec_id()), ArgView::Text(s@)],
    {
        let args = vec![Arg::Int(self.id), Arg::Text(s.to_owned())];
        proof {
            let av = args_view(args@);
            assert(av =~= seq![ArgView::Int(self.spec_id()), ArgView::Text(s@)]);
            assert(all_text_ok(av) ==> text_ok(av[1]));
        }
        ForeignCall::new(Snippet::HtmlPatch, args)
    }

    /// The call that reads the node's inner markup.
    pub fn html_get(&self) -> (r: ForeignCall)
        ensures
            r.wf(),
            r.spec_snippet() == Snippet::HtmlGet,
            r.arg_views() == seq![ArgView::Int(self.spec_id())],
    {
        let args = vec![Arg::Int(self.id)];
        proof {
            assert(args_view(args@) =~= seq![ArgView::Int(self.spec_id())]);
        }
        plain_call(Snippet::HtmlGet, args)
    }

    /// The call that reads the node's class attribute (see `class_names`).
    pub fn class_get(&self) -> (r: ForeignCall)
        ensures
            r.wf(),
            r.spec_snippet() == Snippet::ClassGet,
            r.arg_views() == seq![ArgView::Int(self.spec_id())],
    {
        let args = vec![Arg::Int(self.id)];
        proof {
            assert(args_view(args@) =~= seq![ArgView::Int(self.spec_id())]);
        }
        plain_call(Snippet::ClassGet, args)
    }

    /// The call that adds class `s`.
    pub fn class_add(&self, s: &str) -> (r: Result<ForeignCall, EncodeError>)
        ensures
            r is Ok <==> passable(s@),
            r matches Ok(c) ==> c.wf() && c.spec_snippet() == Snippet::ClassAdd && c.arg_views()
                == seq![ArgView::Int(self.spec_id()), ArgView::Text(s@)],
    {
        let args = vec![Arg::Int(self.id), Arg::Text(s.to_owned())];
        proof {
            let av = args_view(args@);
            assert(av =~= seq![ArgView::Int(self.spec_id()), ArgView::Text(s@)]);
            assert(all_text_ok(av) ==> text_ok(av[1]));
        }
        ForeignCall::new(Snippet::ClassAdd, args)
    }

    /// The call that removes class `s`.
    pub fn class_remove(&self, s: &str) -> (r: Result<ForeignCall, EncodeError>)
        ensures
            r is Ok <==> passable(s@),
            r matches Ok(c) ==> c.wf() && c.spec_snippet() == Snippet::ClassRemove && c.arg_views()
                == seq![ArgView::Int(self.spec_id()), ArgView::Text(s@)],
    {
        let args = vec![Arg::Int(self.id), Arg::Text(s.to_owned())];
        proof {
            let av = args_view(args@);
            assert(av =~= seq![ArgView::Int(self.spec_id()), ArgView::Text(s@)]);
            assert(all_text_ok(av) ==> text_ok(av[1]));
        }
        ForeignCall::new(Snippet::ClassRemove, args)
    }

    /// The call that sets data attribute `s` to `v`.
    pub fn data_set(&self, s: &str, v: &str) -> (r: Result<ForeignCall, EncodeError>)
        ensures
            r is Ok <==> passable(s@) && passable(v@),
            r matches Ok(c) ==> c.wf() && c.spec_snippet() == Snippet::DataSet && c.arg_views()
                == seq![ArgView::Int(self.spec_id()), ArgView::Text(s@), ArgView::Text(v@)],
    {
        let args = vec![Arg::Int(self.id), Arg::Text(s.to_owned()), Arg::Text(v.to_owned())];
        proof {
            let av = args_view(args@);
            assert(av =~= seq![ArgView::Int(self.spec_id()), ArgView::Text(s@), ArgView::Text(v@)]);
            assert(all_text_ok(av) ==> text_ok(av[1]));
            assert(all_text_ok(av) ==> text_ok(av[2]));
        }
        ForeignCall::new(Snippet::DataSet, args)
    }

    /// The call that reads data attribute `s`; the host answers the sentinel when it is unset.
    pub fn data_get(&self, s: &str) -> (r: Result<ForeignCall, EncodeError>)
        ensures
            r is Ok <==> passable(s@),
            r matches Ok(c) ==> c.wf() && c.spec_snippet() == Snippet::DataGet && c.arg_views()
                == seq![ArgView::Int(self.spec_id()), ArgView::Text(s@)],
    {
        let args = vec![Arg::Int(self.id), Arg::Text(s.to_owned())];
        proof {
            let av = args_view(args@);
            assert(av =~= seq![ArgView::Int(self.spec_id()), ArgView::Text(s@)]);
            assert(all_text_ok(av) ==> text_ok(av[1]));
        }
        ForeignCall::new(Snippet::DataGet, args)
    }

    /// The call that sets style property `s` to `v`.
    pub fn style_set_str(&self, s: &str, v: &str) -> (r: Result<ForeignCall, EncodeError>)
        ensures
            r is Ok <==> passable(s@) && passable(v@),
            r matches Ok(c) ==> c.wf() && c.spec_snippet() == Snippet::StyleSet && c.arg_views()
                == seq![ArgView::Int(self.spec_id()), ArgView::Text(s@), ArgView::Text(v@)],
    {
        let args = vec![Arg::Int(self.id), Arg::Text(s.to_owned()), Arg::Text(v.to_owned())];
        proof {
            let av = args_view(args@);
            assert(av =~= seq![ArgView::Int(self.spec_id()), ArgView::Text(s@), ArgView::Text(v@)]);
            assert(all_text_ok(av) ==> text_ok(av[1]));
            assert(all_text_ok(av) ==> text_ok(av[2]));
        }
        ForeignCall::new(Snippet::StyleSet, args)
    }

    /// The call that reads style property `s`.
    pub fn style_get_str(&self, s: &str) -> (r: Result<ForeignCall, EncodeError>)
        ensures
            r is Ok <==> passable(s@),
            r matches Ok(c) ==> c.wf() && c.spec_snippet() == Snippet::StyleGet && c.arg_views()
                == seq![ArgView::Int(self.spec_id()), ArgView::Text(s@)],
    {
        let args = vec![Arg::Int(self.id), Arg::Text(s.to_owned())];
        proof {
            let av = args_view(args@);
            assert(av =~= seq![ArgView::Int(self.spec_id()), ArgView::Text(s@)]);
            assert(all_text_ok(av) ==> text_ok(av[1]));
        }
        ForeignCall::new(Snippet::StyleGet, args)
    }

    /// The call that sets property `s` to number `v`.
    pub fn prop_set_i32(&self, s: &str, v: i32) -> (r: Result<ForeignCall, EncodeError>)
        ensures
            r is Ok <==> passable(s@),
            r matches Ok(c) ==> c.wf() && c.spec_snippet() == Snippet::PropSetInt && c.arg_views()
                == seq![ArgView::Int(self.spec_id()), ArgView::Text(s@), ArgView::Int(v)],
    {
        let args = vec![Arg::Int(self.id), Arg::Text(s.to_owned()), Arg::Int(v)];
        proof {
            let av = args_view(args@);
            assert(av =~= seq![ArgView::Int(self.spec_id()), ArgView::Text(s@), ArgView::Int(v)]);
            assert(all_text_ok(av) ==> text_ok(av[1]));
        }
        ForeignCall::new(Snippet::PropSetInt, args)
    }

    /// The call that sets property `s` to text `v`.
    pub fn prop_set_str(&self, s: &str, v: &str) -> (r: Result<ForeignCall, EncodeError>)
        ensures
            r is Ok <==> passable(s@) && passable(v@),
            r matches Ok(c) ==> c.wf() && c.spec_snippet() == Snippet::PropSetText && c.arg_views()
                == seq![ArgView::Int(self.spec_id()), ArgView::Text(s@), ArgView::Text(v@)],
    {
        let args = vec![Arg::Int(self.id), Arg::Text(s.to_owned()), Arg::Text(v.to_owned())];
        proof {
            let av = args_view(args@);
            assert(av =~= seq![ArgView::Int(self.spec_id()), ArgView::Text(s@), ArgView::Text(v@)]);
            assert(all_text_ok(av) ==> text_ok(av[1]));
            assert(all_text_ok(av) ==> text_ok(av[2]));
        }
        ForeignCall::new(Snippet::PropSetText, args)
    }

    /// The call that reads property `s` as a number.
    pub fn prop_get_i32(&self, s: &str) -> (r: Result<ForeignCall, EncodeError>)
        ensures
            r is Ok <==> passable(s@),
            r matches Ok(c) ==> c.wf() && c.spec_snippet() == Snippet::PropGetInt && c.arg_views()
                == seq![ArgView::Int(self.spec_id()), ArgView::Text(s@)],
    {
        let args = vec![Arg::Int(self.id), Arg::Text(s.to_owned())];
        proof {
            let av = args_view(args@);
            assert(av =~= seq![ArgView::Int(self.spec_id()), ArgView::Text(s@)]);
            assert(all_text_ok(av) ==> text_ok(av[1]));
        }
        ForeignCall::new(Snippet::PropGetInt, args)
    }

    /// The call that reads property `s` as text, empty when unset.
    pub fn prop_get_str(&self, s: &str) -> (r: Result<ForeignCall, EncodeError>)
        ensures
            r is Ok <==> passable(s@),
            r matches Ok(c) ==> c.wf() && c.spec_snippet() == Snippet::PropGetText && c.arg_views()
                == seq![ArgView::Int(self.spec_id()), ArgView::Text(s@)],
    {
        let args = vec![Arg::Int(self.id), Arg::Text(s.to_owned())];
        proof {
            let av = args_view(args@);
            assert(av =~= seq![ArgView::Int(self.spec_id()), ArgView::Text(s@)]);
            assert(all_text_ok(av) ==> text_ok(av[1]));
        }
        ForeignCall::new(Snippet::PropGetText, args)
    }

    /// The call that sets attribute `s` to number `v`.
    pub fn attr_set_i32(&self, s: &str, v: i32) -> (r: Result<ForeignCall, EncodeError>)
        ensures
            r is Ok <==> passable(s@),
            r matches Ok(c) ==> c.wf() && c.spec_snippet() == Snippet::AttrSetInt && c.arg_views()
                == seq![ArgView::Int(self.spec_id()), ArgView::Text(s@), ArgView::Int(v)],
    {
        let args = vec![Arg::Int(self.id), Arg::Text(s.to_owned()), Arg::Int(v)];
        proof {
            let av = args_view(args@);
            assert(av =~= seq![ArgView::Int(self.spec_id()), ArgView::Text(s@), ArgView::Int(v)]);
            assert(all_text_ok(av) ==> text_ok(av[1]));
        }
        ForeignCall::new(Snippet::AttrSetInt, args)
    }

    /// The call that sets attribute `s` to text `v`.
    pub fn attr_set_str(&self, s: &str, v: &str) -> (r: Result<ForeignCall, EncodeError>)
        ensures
            r is Ok <==> passable(s@) && passable(v@),
            r matches Ok(c) ==> c.wf() && c.spec_snippet() == Snippet::AttrSetText && c.arg_views()
                == seq![ArgView::Int(self.spec_id()), ArgView::Text(s@), ArgView::Text(v@)],
    {
        let args = vec![Arg::Int(self.id), Arg::Text(s.to_owned()), Arg::Text(v.to_owned())];
        proof {
            let av = args_view(args@);
            assert(av =~= seq![ArgView::Int(self.spec_id()), ArgView::Text(s@), ArgView::Text(v@)]);
            assert(all_text_ok(av) ==> text_ok(av[1]));
            assert(all_text_ok(av) ==> text_ok(av[2]));
        }
        ForeignCall::new(Snippet::AttrSetText, args)
    }

    /// The call that reads attribute `s` as a number.
    pub fn attr_get_i32(&self, s: &str) -> (r: Result<ForeignCall, EncodeError>)
        ensures
            r is Ok <==> passable(s@),
            r matches Ok(c) ==> c.wf() && c.spec_snippet() == Snippet::AttrGetInt && c.arg_views()
                == seq![ArgView::Int(self.spec_id()), ArgView::Text(s@)],
    {
        let args = vec![Arg::Int(self.id), Arg::Text(s.to_owned())];
        proof {
            let av = args_view(args@);
            assert(av =~= seq![ArgView::Int(self.spec_id()), ArgView::Text(s@)]);
            assert(all_text_ok(av) ==> text_ok(av[1]));
        }
        ForeignCall::new(Snippet::AttrGetInt, args)
    }

    /// The call that reads attribute `s` as text, empty when unset.
    pub fn attr_get_str(&self, s: &str) -> (r: Result<ForeignCall, EncodeError>)
        ensures
            r is Ok <==> passable(s@),
            r matches Ok(c) ==> c.wf() && c.spec_snippet() == Snippet::AttrGetText && c.arg_views()
                == seq![ArgView::Int(self.spec_id()), ArgView::Text(s@)],
    {
        let args = vec![Arg::Int(self.id), Arg::Text(s.to_owned())];
        proof {
            let av = args_view(args@);
            assert(av =~= seq![ArgView::Int(self.spec_id()), ArgView::Text(s@)]);
            assert(all_text_ok(av) ==> text_ok(av[1]));
        }
        ForeignCall::new(Snippet::AttrGetText, args)
    }

    /// The call that appends node `child` to this node's children.
    pub fn append(&self, child: &HtmlNode) -> (r: ForeignCall)
        ensures
            r.wf(),
            r.spec_snippet() == Snippet::Append,
            r.arg_views() == seq![ArgView::Int(self.spec_id()), ArgView::Int(child.spec_id())],
    {
        let args = vec![Arg::Int(self.id), Arg::Int(child.id)];
        proof {
            assert(args_view(args@) =~= seq![ArgView::Int(self.spec_id()), ArgView::Int(child.spec_id())]);
        }
        plain_call(Snippet::Append, args)
    }

    /// The call that inserts markup `s` at the end of the node.
    pub fn html_append(&self, s: &str) -> (r: Result<ForeignCall, EncodeError>)
        ensures
            r is Ok <==> passable(s@),
            r matches Ok(c) ==> c.wf() && c.spec_snippet() == Snippet::HtmlAppend && c.arg_views()
                == seq![ArgView::Int(self.spec_id()), ArgView::Text(s@)],
    {
        let args = vec![Arg::Int(self.id), Arg::Text(s.to_owned())];
        proof {
            let av = args_view(args@);
            assert(av =~= seq![ArgView::Int(self.spec_id()), ArgView::Text(s@)]);
            assert(all_text_ok(av) ==> text_ok(av[1]));
        }
        ForeignCall::new(Snippet::HtmlAppend, args)
    }

    /// The call that inserts markup `s` at the start of the node.
    pub fn html_prepend(&self, s: &str) -> (r: Result<ForeignCall, EncodeError>)
        ensures
            r is Ok <==> passable(s@),
            r matches Ok(c) ==> c.wf() && c.spec_snippet() == Snippet::HtmlPrepend && c.arg_views()
                == seq![ArgView::Int(self.spec_id()), ArgView::Text(s@)],
    {
        let args = vec![Arg::Int(self.id), Arg::Text(s.to_owned())];
        proof {
            let av = args_view(args@);
            assert(av =~= seq![ArgView::Int(self.spec_id()), ArgView::Text(s@)]);
            assert(all_text_ok(av) ==> text_ok(av[1]));
        }
        ForeignCall::new(Snippet::HtmlPrepend, args)
    }

    /// The call that detaches the node from its parent.
    pub fn remove_self(&self) -> (r: ForeignCall)
        ensures
            r.wf(),
            r.spec_snippet() == Snippet::RemoveSelf,
            r.arg_views() == seq![ArgView::Int(self.spec_id())],
    {
        let args = vec![Arg::Int(self.id)];
        proof {
            assert(args_view(args@) =~= seq![ArgView::Int(self.spec_id())]);
        }
        plain_call(Snippet::RemoveSelf, args)
    }
}

} // verus!
