//! The host key-value store's call surface and its index walk.
use vstd::prelude::*;

use crate::call::{plain_call, ForeignCall, Snippet};
use crate::encode::{args_view, Arg, ArgView, EncodeError};
use crate::node::passable;

verus! {

/// The host's key-value store, reached through foreign calls. Each method
/// builds the call that does the work; the host answers it.
pub struct LocalStorageInterface;

/// Walks the host's store by index: each step reads the current length, so
/// a store changed meanwhile changes what the walk sees.
pub struct LocalStorageIterator {
    index: i32,
}

/// The call for a snippet that takes no argument.
fn bare_call(snippet: Snippet) -> (r: ForeignCall)
    requires
        snippet.spec_arity() == 0,
    ensures
        r.wf(),
        r.spec_snippet() == snippet,
        r.arg_views() == Seq::<ArgView>::empty(),
{
    let args: Vec<Arg> = Vec::new();
    proof {
        assert(args_view(args@) =~= Seq::<ArgView>::empty());
    }
    plain_call(snippet, args)
}

/// The call that shows a message dialog with text `s`.
pub fn alert(s: &str) -> (r: Result<ForeignCall, EncodeError>)
    ensures
        r is Ok <==> passable(s@),
        r matches Ok(c) ==> c.wf() && c.spec_snippet() == Snippet::Alert && c.arg_views() == seq![
            ArgView::Text(s@),
        ],
{
    let args = vec![Arg::Text(s.to_owned())];
    proof {
        assert(args_view(args@) =~= seq![ArgView::Text(s@)]);
    }
    ForeignCall::new(Snippet::Alert, args)
}

impl LocalStorageInterface {
    /// The call that returns the number of keys.
    pub fn len(&self) -> (r: ForeignCall)
        ensures
            r.wf(),
            r.spec_snippet() == Snippet::StorageLen,
            r.arg_views() == Seq::<ArgView>::empty(),
    {
        bare_call(Snippet::StorageLen)
    }

    /// The call that removes every key.
    pub fn clear(&self) -> (r: ForeignCall)
        ensures
            r.wf(),
            r.spec_snippet() == Snippet::StorageClear,
            r.arg_views() == Seq::<ArgView>::empty(),
    {
        bare_call(Snippet::StorageClear)
    }

    /// The call that removes key `s`.
    pub fn remove(&self, s: &str) -> (r: Result<ForeignCall, EncodeError>)
        ensures
            r is Ok <==> passable(s@),
            r matches Ok(c) ==> c.wf() && c.spec_snippet() == Snippet::StorageRemove
                && c.arg_views() == seq![ArgView::Text(s@)],
    {
        let args = vec![Arg::Text(s.to_owned())];
        proof {
            assert(args_view(args@) =~= seq![ArgView::Text(s@)]);
        }
        ForeignCall::new(Snippet::StorageRemove, args)
    }

    /// The call that stores `v` under key `s`.
    pub fn set(&self, s: &str, v: &str) -> (r: Result<ForeignCall, EncodeError>)
        ensures
            r is Ok <==> passable(s@) && passable(v@),
            r matches Ok(c) ==> c.wf() && c.spec_snippet() == Snippet::StorageSet
                && c.arg_views() == seq![ArgView::Text(s@), ArgView::Text(v@)],
    {
        let args = vec![Arg::Text(s.to_owned()), Arg::Text(v.to_owned())];
        proof {
            let av = args_view(args@);
            assert(av =~= seq![ArgView::Text(s@), ArgView::Text(v@)]);
            assert(crate::encode::all_text_ok(av) ==> crate::encode::text_ok(av[0])
                && crate::encode::text_ok(av[1]));
        }
        ForeignCall::new(Snippet::StorageSet, args)
    }

    /// The call that reads the value under key `name`; the host answers
    /// the sentinel when there is none (see `optional_text`).
    pub fn get(&self, name: &str) -> (r: Result<ForeignCall, EncodeError>)
        ensures
            r is Ok <==> passable(name@),
            r matches Ok(c) ==> c.wf() && c.spec_snippet() == Snippet::StorageGet
                && c.arg_views() == seq![ArgView::Text(name@)],
    {
        let args = vec![Arg::Text(name.to_owned())];
        proof {
            assert(args_view(args@) =~= seq![ArgView::Text(name@)]);
        }
        ForeignCall::new(Snippet::StorageGet, args)
    }

    /// The call that reads the key at `index`.
    pub fn key(&self, index: i32) -> (r: ForeignCall)
        ensures
            r.wf(),
            r.spec_snippet() == Snippet::StorageKey,
            r.arg_views() == seq![ArgView::Int(index)],
    {
        let args = vec![Arg::Int(index)];
        proof {
            assert(args_view(args@) =~= seq![ArgView::Int(index)]);
        }
        plain_call(Snippet::StorageKey, args)
    }

    /// A walk that starts at the first key.
    pub fn into_iter(self) -> (r: LocalStorageIterator)
        ensures
            r.spec_index() == 0,
    {
        LocalStorageIterator { index: 0 }
    }
}

/// The result of a snippet that answers text or the sentinel: the address
/// of the text, or nothing.
pub fn optional_text(raw: i32) -> (r: Option<i32>)
    ensures
        r is None <==> raw == crate::call::SENTINEL,
        r matches Some(a) ==> a == raw,
{
    if raw == crate::call::SENTINEL {
        None
    } else {
        Some(raw)
    }
}

impl LocalStorageIterator {
    pub closed spec fn spec_index(&self) -> i32 {
        self.index
    }

    #[verifier::type_invariant]
    spec fn index_not_negative(&self) -> bool {
        self.index >= 0
    }

    pub fn new() -> (r: LocalStorageIterator)
        ensures
            r.spec_index() == 0,
    {
        LocalStorageIterator { index: 0 }
    }

    /// The index of the next key to read, given the store's current length
    /// `len`, and a step forward; nothing once the walk has passed the end.
    pub fn next_index(&mut self, len: i32) -> (r: Option<i32>)
        ensures
            old(self).spec_index() >= len ==> r is None && final(self).spec_index() == old(
                self,
            ).spec_index(),
            old(self).spec_index() < len ==> r == Some(old(self).spec_index())
                && final(self).spec_index() == old(self).spec_index() + 1,
    {
        proof {
            use_type_invariant(&*self);
        }
        if self.index >= len {
            None
        } else {
            let i = self.index;
            self.index = i + 1;
            Some(i)
        }
    }
}

} // verus!
