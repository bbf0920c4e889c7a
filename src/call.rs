//! Foreign calls: the fixed snippet identifiers and a call ready to issue.
use vstd::prelude::*;

use crate::encode::{
    all_text_ok, args_view, encode_args, lowered, Arg, ArgView, Arena, EncodeError, Slot,
};

verus! {

/// A host-side script body, named by a fixed identifier. The host pairs
/// each identifier with one body; a call never builds a body from data.
#[derive(PartialEq, Eq, Structural, Clone, Copy, Debug)]
pub enum Snippet {
    /// Sets up the host's handle table and support scripts; idempotent.
    Init,
    /// Shows a message dialog: text.
    Alert,
    /// Reads the location hash into scratch memory.
    LocationHash,
    /// Creates an element by tag name and pushes it: text.
    ElementCreate,
    /// Looks up the first match of a selector in the document: text.
    DocumentQuery,
    /// Pushes every match of a selector: text, address of the first index.
    DocumentQueryAll,
    /// Looks up the first match of a selector under a node: handle, text.
    NodeQuery,
    /// Pushes every match under a node: handle, text, address of the first index.
    NodeQueryAll,
    /// Pushes the parent of a node: handle.
    Parent,
    /// Reads a node's lower-case tag name: handle.
    TagName,
    /// Focuses a node: handle.
    Focus,
    /// Replaces a node's inner markup: handle, text.
    HtmlSet,
    /// Patches a node's inner markup through the diffing library: handle, text.
    HtmlPatch,
    /// Reads a node's inner markup: handle.
    HtmlGet,
    /// Reads a node's class attribute: handle.
    ClassGet,
    /// Adds a class: handle, text.
    ClassAdd,
    /// Removes a class: handle, text.
    ClassRemove,
    /// Sets a data attribute: handle, name, value.
    DataSet,
    /// Reads a data attribute, or the sentinel: handle, name.
    DataGet,
    /// Sets a style property: handle, name, value.
    StyleSet,
    /// Reads a style property: handle, name.
    StyleGet,
    /// Sets a property to a number: handle, name, number.
    PropSetInt,
    /// Sets a property to text: handle, name, value.
    PropSetText,
    /// Reads a property as a number: handle, name.
    PropGetInt,
    /// Reads a property as text: handle, name.
    PropGetText,
    /// Sets an attribute to a number: handle, name, number.
    AttrSetInt,
    /// Sets an attribute to text: handle, name, value.
    AttrSetText,
    /// Reads an attribute as a number: handle, name.
    AttrGetInt,
    /// Reads an attribute as text: handle, name.
    AttrGetText,
    /// Appends a child node: parent handle, child handle.
    Append,
    /// Inserts markup at the end of a node: handle, text.
    HtmlAppend,
    /// Inserts markup at the start of a node: handle, text.
    HtmlPrepend,
    /// Detaches a node from its parent: handle.
    RemoveSelf,
    /// Installs a listener on a node: handle, event name, closure address, trampoline, session.
    Listen,
    /// As `Listen`, in the capturing phase.
    ListenCapture,
    /// Installs a listener on the window: unused, event name, closure address, trampoline, session.
    WindowListen,
    /// Reads the number of stored keys.
    StorageLen,
    /// Removes every stored key.
    StorageClear,
    /// Removes a key: text.
    StorageRemove,
    /// Stores a value under a key: key, value.
    StorageSet,
    /// Reads the value under a key, or the sentinel: key.
    StorageGet,
    /// Reads the key at an index: number.
    StorageKey,
}

impl Snippet {
    pub open spec fn spec_arity(self) -> usize {
        match self {
            Snippet::Init => 0,
            Snippet::Alert => 1,
            Snippet::LocationHash => 0,
            Snippet::ElementCreate => 1,
            Snippet::DocumentQuery => 1,
            Snippet::DocumentQueryAll => 2,
            Snippet::NodeQuery => 2,
            Snippet::NodeQueryAll => 3,
            Snippet::Parent => 1,
            Snippet::TagName => 1,
            Snippet::Focus => 1,
            Snippet::HtmlSet => 2,
            Snippet::HtmlPatch => 2,
            Snippet::HtmlGet => 1,
            Snippet::ClassGet => 1,
            Snippet::ClassAdd => 2,
            Snippet::ClassRemove => 2,
            Snippet::DataSet => 3,
            Snippet::DataGet => 2,
            Snippet::StyleSet => 3,
            Snippet::StyleGet => 2,
            Snippet::PropSetInt => 3,
            Snippet::PropSetText => 3,
            Snippet::PropGetInt => 2,
            Snippet::PropGetText => 2,
            Snippet::AttrSetInt => 3,
            Snippet::AttrSetText => 3,
            Snippet::AttrGetInt => 2,
            Snippet::AttrGetText => 2,
            Snippet::Append => 2,
            Snippet::HtmlAppend => 2,
            Snippet::HtmlPrepend => 2,
            Snippet::RemoveSelf => 1,
            Snippet::Listen => 5,
            Snippet::ListenCapture => 5,
            Snippet::WindowListen => 5,
            Snippet::StorageLen => 0,
            Snippet::StorageClear => 0,
            Snippet::StorageRemove => 1,
            Snippet::StorageSet => 2,
            Snippet::StorageGet => 1,
            Snippet::StorageKey => 1,
        }
    }

    /// The number of arguments the snippet's body reads.
    #[verifier::when_used_as_spec(spec_arity)]
    pub fn arity(self) -> (r: usize)
        ensures
            r == self.spec_arity(),
    {
        match self {
            Snippet::Init => 0,
            Snippet::Alert => 1,
            Snippet::LocationHash => 0,
            Snippet::ElementCreate => 1,
            Snippet::DocumentQuery => 1,
            Snippet::DocumentQueryAll => 2,
            Snippet::NodeQuery => 2,
            Snippet::NodeQueryAll => 3,
            Snippet::Parent => 1,
            Snippet::TagName => 1,
            Snippet::Focus => 1,
            Snippet::HtmlSet => 2,
            Snippet::HtmlPatch => 2,
            Snippet::HtmlGet => 1,
            Snippet::ClassGet => 1,
            Snippet::ClassAdd => 2,
            Snippet::ClassRemove => 2,
            Snippet::DataSet => 3,
            Snippet::DataGet => 2,
            Snippet::StyleSet => 3,
            Snippet::StyleGet => 2,
            Snippet::PropSetInt => 3,
            Snippet::PropSetText => 3,
            Snippet::PropGetInt => 2,
            Snippet::PropGetText => 2,
            Snippet::AttrSetInt => 3,
            Snippet::AttrSetText => 3,
            Snippet::AttrGetInt => 2,
            Snippet::AttrGetText => 2,
            Snippet::Append => 2,
            Snippet::HtmlAppend => 2,
            Snippet::HtmlPrepend => 2,
            Snippet::RemoveSelf => 1,
            Snippet::Listen => 5,
            Snippet::ListenCapture => 5,
            Snippet::WindowListen => 5,
            Snippet::StorageLen => 0,
            Snippet::StorageClear => 0,
            Snippet::StorageRemove => 1,
            Snippet::StorageSet => 2,
            Snippet::StorageGet => 1,
            Snippet::StorageKey => 1,
        }
    }
}

} // verus!

verus! {

/// The value that a handle-returning snippet gives when nothing was found.
pub const SENTINEL: i32 = -1;

/// One call into the host, ready to issue: the snippet, one slot per
/// argument, and the arena that owns the text the slots point into.
pub struct ForeignCall {
    snippet: Snippet,
    slots: Vec<Slot>,
    arena: Arena,
    args: Ghost<Seq<ArgView>>,
}

impl ForeignCall {
    pub closed spec fn spec_snippet(&self) -> Snippet {
        self.snippet
    }

    /// The arguments the call was built from.
    pub closed spec fn arg_views(&self) -> Seq<ArgView> {
        self.args@
    }

    pub closed spec fn slot_views(&self) -> Seq<Slot> {
        self.slots@
    }

    pub closed spec fn arena_views(&self) -> Seq<Seq<u8>> {
        self.arena@
    }

    /// The slots and arena are the lowering of the arguments, and there are
    /// as many arguments as the snippet reads.
    pub open spec fn wf(&self) -> bool {
        &&& lowered(self.arg_views(), self.slot_views(), self.arena_views())
        &&& self.arg_views().len() == self.spec_snippet().spec_arity()
    }

    /// Lowers `args` for `snippet`. Fails exactly when a text argument holds
    /// a NUL byte.
    pub fn new(snippet: Snippet, args: Vec<Arg>) -> (r: Result<ForeignCall, EncodeError>)
        requires
            args@.len() == snippet.spec_arity(),
        ensures
            r is Ok <==> all_text_ok(args_view(args@)),
            r matches Ok(c) ==> c.wf() && c.spec_snippet() == snippet && c.arg_views()
                == args_view(args@),
    {
        match encode_args(&args) {
            Ok((slots, arena)) => Ok(
                ForeignCall { snippet, slots, arena, args: Ghost(args_view(args@)) },
            ),
            Err(e) => Err(e),
        }
    }

    pub fn snippet(&self) -> (r: Snippet)
        ensures
            r == self.spec_snippet(),
    {
        self.snippet
    }

    pub fn slots(&self) -> (r: &Vec<Slot>)
        ensures
            r@ == self.slot_views(),
    {
        &self.slots
    }

    pub fn arena(&self) -> (r: &Arena)
        ensures
            r@ == self.arena_views(),
    {
        &self.arena
    }
}

/// A call whose arguments are numbers and pointers only.
pub fn plain_call(snippet: Snippet, args: Vec<Arg>) -> (r: ForeignCall)
    requires
        args@.len() == snippet.spec_arity(),
        forall|i: int| 0 <= i < args@.len() ==> !(#[trigger] args@[i] is Text),
    ensures
        r.wf(),
        r.spec_snippet() == snippet,
        r.arg_views() == args_view(args@),
{
    let ghost av = args_view(args@);
    assert forall|i: int| 0 <= i < av.len() implies crate::encode::text_ok(#[trigger] av[i]) by {
        assert(!(args@[i] is Text));
    };
    match ForeignCall::new(snippet, args) {
        Ok(c) => c,
        Err(_) => {
            // No argument is text, so lowering cannot fail.
            assert(false);
            ForeignCall { snippet, slots: Vec::new(), arena: Arena::new(), args: Ghost(av) }
        },
    }
}

} // verus!
