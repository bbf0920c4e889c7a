use webplatform::{
    alert, class_names, init, optional_text, plain_call, syscall, Arg, Arena, Document, EncodeError,
    ForeignCall, HostModel, HtmlNode, Invocation, KeyValueStore, ListenTarget, LocalStorageInterface,
    LocalStorageIterator, LoopAction, LoopEvent, RunLoop, Slot, Snippet, PROBE_CODE, PROBE_REPLY,
    SENTINEL,
};

fn buffer_of(c: &ForeignCall, k: usize) -> Vec<u8> {
    c.arena().buffer(k).clone()
}

#[test]
fn encode_passes_numbers_and_pointers_through() {
    let c = ForeignCall::new(
        Snippet::NodeQueryAll,
        vec![Arg::Int(-7), Arg::Text("div".to_string()), Arg::Ptr(4096)],
    )
    .unwrap();
    assert_eq!(c.snippet(), Snippet::NodeQueryAll);
    assert_eq!(c.slots(), &vec![Slot::Int(-7), Slot::Text(0), Slot::Ptr(4096)]);
    assert_eq!(c.arena().len(), 1);
    assert_eq!(buffer_of(&c, 0), b"div\0".to_vec());
}

#[test]
fn encode_gives_each_text_its_own_buffer_in_order() {
    let c = ForeignCall::new(
        Snippet::DataSet,
        vec![Arg::Int(3), Arg::Text("key".to_string()), Arg::Text("é".to_string())],
    )
    .unwrap();
    assert_eq!(c.slots(), &vec![Slot::Int(3), Slot::Text(0), Slot::Text(1)]);
    assert_eq!(buffer_of(&c, 0), b"key\0".to_vec());
    assert_eq!(buffer_of(&c, 1), vec![0xc3, 0xa9, 0]);
}

#[test]
fn encode_empty_text_is_a_lone_nul() {
    let c = ForeignCall::new(Snippet::Alert, vec![Arg::Text(String::new())]).unwrap();
    assert_eq!(buffer_of(&c, 0), vec![0u8]);
}

#[test]
fn encode_refuses_interior_nul() {
    let r = ForeignCall::new(Snippet::Alert, vec![Arg::Text("a\0b".to_string())]);
    assert!(matches!(r, Err(EncodeError::InteriorNul)));
}

#[test]
fn arena_lower_text_appends() {
    let mut a = Arena::new();
    assert_eq!(a.lower_text("x"), Ok(0));
    assert_eq!(a.lower_text("yz"), Ok(1));
    assert_eq!(a.lower_text("\0"), Err(EncodeError::InteriorNul));
    assert_eq!(a.len(), 2);
    assert_eq!(a.buffer(1), &b"yz\0".to_vec());
}

#[test]
fn arity_matches_snippet() {
    assert_eq!(Snippet::Init.arity(), 0);
    assert_eq!(Snippet::StorageSet.arity(), 2);
    assert_eq!(Snippet::Listen.arity(), 5);
    let c = plain_call(Snippet::Append, vec![Arg::Int(1), Arg::Int(2)]);
    assert_eq!(c.slots(), &vec![Slot::Int(1), Slot::Int(2)]);
}

#[test]
fn handle_sentinel_is_absent() {
    assert!(HtmlNode::from_handle(SENTINEL, 9).is_none());
    assert!(HtmlNode::from_handle(-5, 9).is_none());
    let n = HtmlNode::from_handle(0, 9).unwrap();
    assert_eq!(n.id(), 0);
    assert_eq!(n.doc(), 9);
}

#[test]
fn nodes_equal_by_handle() {
    let a = HtmlNode::from_handle(4, 1).unwrap();
    let b = HtmlNode::from_handle(4, 2).unwrap();
    let c = HtmlNode::from_handle(5, 1).unwrap();
    assert!(a == b);
    assert!(a != c);
}

#[test]
fn range_of_nodes() {
    let v = HtmlNode::from_range(10, 3, 7);
    let ids: Vec<i32> = v.iter().map(|n| n.id()).collect();
    assert_eq!(ids, vec![10, 11, 12]);
    assert!(v.iter().all(|n| n.doc() == 7));
    assert!(HtmlNode::from_range(10, 0, 7).is_empty());
    assert!(HtmlNode::from_range(10, -2, 7).is_empty());
}

#[test]
fn node_calls_carry_the_handle() {
    let n = HtmlNode::from_handle(6, 1).unwrap();
    let q = n.element_query(".item").unwrap();
    assert_eq!(q.snippet(), Snippet::NodeQuery);
    assert_eq!(q.slots(), &vec![Slot::Int(6), Slot::Text(0)]);
    assert_eq!(buffer_of(&q, 0), b".item\0".to_vec());
    let all = n.element_query_all("li", 64).unwrap();
    assert_eq!(all.slots(), &vec![Slot::Int(6), Slot::Text(0), Slot::Ptr(64)]);
    let p = n.parent();
    assert_eq!(p.snippet(), Snippet::Parent);
    assert_eq!(p.slots(), &vec![Slot::Int(6)]);
    assert!(n.element_query("a\0").is_err());
}

#[test]
fn init_gives_empty_session_and_setup_call() {
    let (doc, call): (Document<u32>, ForeignCall) = init();
    assert_eq!(doc.closure_count(), 0);
    assert_eq!(call.snippet(), Snippet::Init);
    assert!(call.slots().is_empty());
}

#[test]
fn document_queries() {
    let (doc, _): (Document<u32>, ForeignCall) = init();
    let c = doc.element_create("div").unwrap();
    assert_eq!(c.snippet(), Snippet::ElementCreate);
    assert_eq!(buffer_of(&c, 0), b"div\0".to_vec());
    let q = doc.element_query("#main").unwrap();
    assert_eq!(q.snippet(), Snippet::DocumentQuery);
    let all = doc.element_query_all("p", 128).unwrap();
    assert_eq!(all.slots(), &vec![Slot::Text(0), Slot::Ptr(128)]);
    assert_eq!(doc.location_hash_get().snippet(), Snippet::LocationHash);
}

#[test]
fn registering_keeps_closure_and_builds_listener_call() {
    let (mut doc, _): (Document<&str>, ForeignCall) = init();
    let node = HtmlNode::from_handle(2, 77).unwrap();
    let c1 = doc.on_node(&node, "click", "first", 1000, false).unwrap();
    assert_eq!(c1.snippet(), Snippet::Listen);
    assert_eq!(
        c1.slots(),
        &vec![Slot::Int(2), Slot::Text(0), Slot::Ptr(0), Slot::Ptr(1000), Slot::Ptr(77)]
    );
    let c2 = doc.on_node(&node, "click", "second", 1000, true).unwrap();
    assert_eq!(c2.snippet(), Snippet::ListenCapture);
    assert_eq!(c2.slots()[2], Slot::Ptr(1));
    let c3 = doc.on("resize", "third", 1000, 55).unwrap();
    assert_eq!(c3.snippet(), Snippet::WindowListen);
    assert_eq!(c3.slots()[0], Slot::Int(0));
    assert_eq!(c3.slots()[4], Slot::Ptr(55));
    assert_eq!(doc.closure_count(), 3);
}

#[test]
fn bad_event_name_registers_nothing() {
    let (mut doc, _): (Document<u8>, ForeignCall) = init();
    assert!(doc.on("cl\0ick", 1, 0, 0).is_err());
    assert!(doc.listen(ListenTarget::Node(0), "x\0", 2, 0, 0).is_err());
    assert_eq!(doc.closure_count(), 0);
}

#[test]
fn trampoline_finds_closure_and_rebuilds_event() {
    let (mut doc, _): (Document<&str>, ForeignCall) = init();
    doc.on("load", "cb0", 1, 5).unwrap();
    doc.on("load", "cb1", 1, 5).unwrap();
    let (c, ev) = doc.trampoline(1, 5, 12).unwrap();
    assert_eq!(*c, "cb1");
    let t = ev.target.unwrap();
    assert_eq!(t.id(), 12);
    assert_eq!(t.doc(), 5);
    let (c, ev) = doc.trampoline(0, 5, SENTINEL).unwrap();
    assert_eq!(*c, "cb0");
    assert!(ev.target.is_none());
    assert!(doc.trampoline(2, 5, 0).is_none());
}

#[test]
fn storage_calls() {
    let s = LocalStorageInterface;
    let set = s.set("a", "1").unwrap();
    assert_eq!(set.snippet(), Snippet::StorageSet);
    assert_eq!(set.slots(), &vec![Slot::Text(0), Slot::Text(1)]);
    assert_eq!(buffer_of(&set, 0), b"a\0".to_vec());
    assert_eq!(buffer_of(&set, 1), b"1\0".to_vec());
    assert!(s.set("a", "1\0").is_err());
    assert!(s.set("a\0", "1").is_err());
    assert_eq!(s.get("a").unwrap().snippet(), Snippet::StorageGet);
    assert_eq!(s.remove("a").unwrap().snippet(), Snippet::StorageRemove);
    assert_eq!(s.len().snippet(), Snippet::StorageLen);
    assert_eq!(s.clear().snippet(), Snippet::StorageClear);
    let k = s.key(3);
    assert_eq!(k.snippet(), Snippet::StorageKey);
    assert_eq!(k.slots(), &vec![Slot::Int(3)]);
}

#[test]
fn alert_call() {
    let c = alert("hi").unwrap();
    assert_eq!(c.snippet(), Snippet::Alert);
    assert_eq!(buffer_of(&c, 0), b"hi\0".to_vec());
    assert!(alert("h\0i").is_err());
}

#[test]
fn optional_text_sentinel() {
    assert_eq!(optional_text(SENTINEL), None);
    assert_eq!(optional_text(1024), Some(1024));
}

#[test]
fn iterator_steps_through_indices() {
    let mut it: LocalStorageIterator = LocalStorageInterface.into_iter();
    assert_eq!(it.next_index(2), Some(0));
    assert_eq!(it.next_index(2), Some(1));
    assert_eq!(it.next_index(2), None);
    assert_eq!(it.next_index(2), None);
    // The store grew meanwhile: the walk sees it.
    assert_eq!(it.next_index(3), Some(2));
    let mut empty = LocalStorageIterator::new();
    assert_eq!(empty.next_index(0), None);
}

#[test]
fn store_example_sequence() {
    let mut s = KeyValueStore::new();
    s.set("a", "1");
    assert_eq!(s.len(), 1);
    assert_eq!(s.get("a"), Some("1".to_string()));
    s.remove("a");
    assert_eq!(s.get("a"), None);
    assert_eq!(s.len(), 0);
}

#[test]
fn store_get_after_set_and_overwrite() {
    let mut s = KeyValueStore::new();
    s.set("x", "");
    assert_eq!(s.get("x"), Some(String::new()));
    s.set("y", "two");
    s.set("x", "three");
    assert_eq!(s.get("x"), Some("three".to_string()));
    assert_eq!(s.len(), 2);
    assert_eq!(s.keys(), vec!["x".to_string(), "y".to_string()]);
    assert_eq!(s.get("z"), None);
    s.remove("z");
    assert_eq!(s.len(), 2);
}

#[test]
fn store_walk_yields_each_key_once() {
    let mut s = KeyValueStore::new();
    for (k, v) in [("b", "1"), ("a", "2"), ("c", "3"), ("a", "4")] {
        s.set(k, v);
    }
    let keys = s.keys();
    assert_eq!(keys, vec!["b".to_string(), "a".to_string(), "c".to_string()]);
    assert_eq!(s.key(1), "a".to_string());
    s.clear();
    assert!(s.keys().is_empty());
}

#[test]
fn handles_keep_their_objects() {
    let mut h = HostModel::new();
    let a = h.push(100);
    let b = h.push(200);
    assert_eq!((a, b), (0, 1));
    assert_eq!(h.resolve(a), Some(100));
    for i in 0..50u64 {
        h.push(i);
    }
    assert_eq!(h.resolve(a), Some(100));
    assert_eq!(h.resolve(b), Some(200));
    assert_eq!(h.resolve(SENTINEL), None);
    assert_eq!(h.resolve(52), None);
}

#[test]
fn one_listener_fires_once_with_target() {
    let mut h = HostModel::new();
    let button = h.push(500);
    assert!(h.add_listener(button, "click", 0, 9, false));
    assert!(!h.add_listener(7, "click", 1, 9, false));
    let calls = h.fire(button, "click", Some(500));
    assert_eq!(calls.len(), 1);
    assert_eq!(calls[0].closure, 0);
    assert_eq!(calls[0].session, 9);
    assert_eq!(h.resolve(calls[0].target), Some(500));
    let none = h.fire(button, "click", None);
    assert_eq!(none, vec![Invocation { closure: 0, session: 9, target: SENTINEL }]);
    assert!(h.fire(button, "keydown", None).is_empty());
}

#[test]
fn two_listeners_both_fire_once() {
    let mut h = HostModel::new();
    let n = h.push(1);
    let other = h.push(2);
    assert!(h.add_listener(n, "input", 0, 3, false));
    assert!(h.add_listener(other, "input", 1, 3, false));
    assert!(h.add_listener(n, "input", 2, 3, true));
    let calls = h.fire(n, "input", Some(42));
    let closures: Vec<usize> = calls.iter().map(|c| c.closure).collect();
    assert_eq!(closures, vec![0, 2]);
    assert_ne!(calls[0].target, calls[1].target);
    assert_eq!(h.resolve(calls[0].target), Some(42));
    assert_eq!(h.resolve(calls[1].target), Some(42));
}

#[test]
fn host_and_session_deliver_events() {
    let (mut doc, _): (Document<&str>, ForeignCall) = init();
    let mut h = HostModel::new();
    let node = HtmlNode::from_handle(h.push(10), 33).unwrap();
    doc.on_node(&node, "click", "one", 0, false).unwrap();
    doc.on_node(&node, "click", "two", 0, false).unwrap();
    assert!(h.add_listener(node.id(), "click", 0, 33, false));
    assert!(h.add_listener(node.id(), "click", 1, 33, false));
    let fired: Vec<&str> = h
        .fire(node.id(), "click", Some(10))
        .iter()
        .map(|inv| {
            let (c, ev) = doc.trampoline(inv.closure, inv.session, inv.target).unwrap();
            assert_eq!(ev.target.unwrap().id(), inv.target);
            *c
        })
        .collect();
    assert_eq!(fired, vec!["one", "two"]);
}

#[test]
fn pause_stops_ticks_until_spin() {
    let mut l = RunLoop::new();
    assert!(!l.running());
    let acts = l.run(&vec![
        LoopEvent::Tick,
        LoopEvent::Spin,
        LoopEvent::Tick,
        LoopEvent::Pause,
        LoopEvent::Tick,
        LoopEvent::Tick,
        LoopEvent::Spin,
        LoopEvent::Tick,
    ]);
    assert_eq!(
        acts,
        vec![
            LoopAction::Skip,
            LoopAction::InstallTick,
            LoopAction::RunTick,
            LoopAction::StopTicks,
            LoopAction::Skip,
            LoopAction::Skip,
            LoopAction::InstallTick,
            LoopAction::RunTick,
        ]
    );
    assert!(l.running());
    assert_eq!(l.step(LoopEvent::Pause), LoopAction::StopTicks);
    assert!(!l.running());
}

#[test]
fn probe_answers_one_code() {
    assert_eq!(syscall(PROBE_CODE), PROBE_REPLY);
    assert_eq!(syscall(355), 55);
    assert_eq!(syscall(0), -1);
    assert_eq!(syscall(-1), -1);
}

#[test]
fn class_names_split_on_white_space() {
    assert_eq!(class_names("ab cd"), vec!["ab".to_string(), "cd".to_string()]);
    assert_eq!(class_names("  a  b "), vec!["a".to_string(), String::new(), "b".to_string()]);
    assert_eq!(class_names("\u{3000}x\ty\n"), vec!["x".to_string(), "y".to_string()]);
    assert_eq!(class_names("\u{a0}k\u{2003}é"), vec!["k".to_string(), "é".to_string()]);
}

#[test]
fn class_names_of_blank_text() {
    assert_eq!(class_names(""), vec![String::new()]);
    assert_eq!(class_names(" \t "), vec![String::new()]);
    assert_eq!(class_names("solo"), vec!["solo".to_string()]);
}

#[test]
fn node_feature_calls() {
    let n = HtmlNode::from_handle(8, 1).unwrap();
    let child = HtmlNode::from_handle(9, 1).unwrap();
    let ds = n.data_set("k", "v").unwrap();
    assert_eq!(ds.snippet(), Snippet::DataSet);
    assert_eq!(ds.slots(), &vec![Slot::Int(8), Slot::Text(0), Slot::Text(1)]);
    assert_eq!(buffer_of(&ds, 1), b"v\0".to_vec());
    assert!(n.data_set("k", "v\0").is_err());
    let p = n.prop_set_i32("width", 640).unwrap();
    assert_eq!(p.slots(), &vec![Slot::Int(8), Slot::Text(0), Slot::Int(640)]);
    let a = n.append(&child);
    assert_eq!(a.snippet(), Snippet::Append);
    assert_eq!(a.slots(), &vec![Slot::Int(8), Slot::Int(9)]);
    assert_eq!(n.tagname().snippet(), Snippet::TagName);
    assert_eq!(n.remove_self().slots(), &vec![Slot::Int(8)]);
    assert_eq!(n.html_patch("<b>x</b>").unwrap().snippet(), Snippet::HtmlPatch);
    assert_eq!(n.attr_get_str("href").unwrap().snippet(), Snippet::AttrGetText);
}

#[test]
fn root_ref_names_the_same_node() {
    let n = HtmlNode::from_handle(21, 4).unwrap();
    let r = n.root_ref();
    let back = r.clone().node();
    assert_eq!(back.id(), 21);
    assert_eq!(back.doc(), 4);
    assert!(back == n);
}
