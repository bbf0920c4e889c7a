//! The argument encoder: lowers numbers, pointers and text to the
//! integer slots of one foreign call, text through a scoped arena.
use vstd::prelude::*;
use vstd::utf8::encode_utf8;

verus! {

/// One argument of a foreign call, before it is lowered to a slot.
pub enum Arg {
    Int(i32),
    Text(String),
    Ptr(usize),
}

/// What an argument stands for, with text as its characters.
pub ghost enum ArgView {
    Int(i32),
    Text(Seq<char>),
    Ptr(usize),
}

impl View for Arg {
    type V = ArgView;

    open spec fn view(&self) -> ArgView {
        match self {
            Arg::Int(n) => ArgView::Int(*n),
            Arg::Text(t) => ArgView::Text(t@),
            Arg::Ptr(p) => ArgView::Ptr(*p),
        }
    }
}

/// One integer-sized slot of a foreign call. A text argument becomes the
/// index of its NUL-terminated buffer in the call's arena.
#[derive(PartialEq, Eq, Structural, Clone, Copy, Debug)]
pub enum Slot {
    Int(i32),
    Text(usize),
    Ptr(usize),
}

#[derive(PartialEq, Eq, Structural, Clone, Copy, Debug)]
pub enum EncodeError {
    /// A text argument holds a NUL byte, so it cannot be passed as C text.
    InteriorNul,
}

pub open spec fn has_nul(b: Seq<u8>) -> bool {
    exists|i: int| 0 <= i < b.len() && b[i] == 0u8
}

/// The bytes of a text argument as the host reads them: UTF-8, then NUL.
pub open spec fn c_text(t: Seq<char>) -> Seq<u8> {
    encode_utf8(t).push(0u8)
}

pub open spec fn text_ok(a: ArgView) -> bool {
    match a {
        ArgView::Text(t) => !has_nul(encode_utf8(t)),
        _ => true,
    }
}

pub open spec fn all_text_ok(args: Seq<ArgView>) -> bool {
    forall|i: int| 0 <= i < args.len() ==> text_ok(#[trigger] args[i])
}

/// How many of the arguments are text, each owning one arena buffer.
pub open spec fn text_count(args: Seq<ArgView>) -> nat
    decreases args.len(),
{
    if args.len() == 0 {
        0
    } else {
        text_count(args.drop_last()) + if args.last() is Text {
            1nat
        } else {
            0nat
        }
    }
}

/// `s` is the slot of `a`, where `k` is the arena index that `a` gets if it is text.
pub open spec fn slot_of(a: ArgView, s: Slot, arena: Seq<Seq<u8>>, k: nat) -> bool {
    match a {
        ArgView::Int(n) => s == Slot::Int(n),
        ArgView::Ptr(p) => s == Slot::Ptr(p),
        ArgView::Text(t) => s == Slot::Text(k as usize) && k < arena.len() && arena[k as int]
            == c_text(t),
    }
}

/// `slots` and `arena` are the lowering of `args`: one slot per argument, in
/// order, and one buffer per text argument, in order.
pub open spec fn lowered(args: Seq<ArgView>, slots: Seq<Slot>, arena: Seq<Seq<u8>>) -> bool {
    &&& slots.len() == args.len()
    &&& arena.len() == text_count(args)
    &&& forall|i: int|
        0 <= i < args.len() ==> slot_of(
            #[trigger] args[i],
            slots[i],
            arena,
            text_count(args.take(i)),
        )
}

pub open spec fn args_view(args: Seq<Arg>) -> Seq<ArgView> {
    args.map_values(|a: Arg| a@)
}

/// The scratch buffers that own the C text of one call's arguments. They
/// live exactly as long as the call that holds them.
pub struct Arena {
    bufs: Vec<Vec<u8>>,
}

impl View for Arena {
    type V = Seq<Seq<u8>>;

    closed spec fn view(&self) -> Seq<Seq<u8>> {
        self.bufs@.map_values(|b: Vec<u8>| b@)
    }
}

impl Arena {
    pub fn new() -> (r: Arena)
        ensures
            r@ == Seq::<Seq<u8>>::empty(),
    {
        let r = Arena { bufs: Vec::new() };
        assert(r@ =~= Seq::<Seq<u8>>::empty());
        r
    }

    pub fn len(&self) -> (r: usize)
        ensures
            r == self@.len(),
    {
        self.bufs.len()
    }

    /// The NUL-terminated buffer at index `k`.
    pub fn buffer(&self, k: usize) -> (r: &Vec<u8>)
        requires
            k < self@.len(),
        ensures
            r@ == self@[k as int],
    {
        &self.bufs[k]
    }

    /// Copies `s` into a new buffer with a trailing NUL and returns its index.
    pub fn lower_text(&mut self, s: &str) -> (r: Result<usize, EncodeError>)
        ensures
            r is Ok <==> !has_nul(encode_utf8(s@)),
            r matches Ok(k) ==> k == old(self)@.len() && final(self)@ == old(self)@.push(
                c_text(s@),
            ),
            r is Err ==> final(self)@ == old(self)@,
    {
        let b = s.as_bytes();
        assert(b@ == encode_utf8(s@));
        let mut buf: Vec<u8> = Vec::new();
        let mut i: usize = 0;
        while i < b.len()
            invariant
                b@ == encode_utf8(s@),
                i <= b@.len(),
                buf@ == b@.take(i as int),
                forall|j: int| 0 <= j < i ==> b@[j] != 0u8,
            decreases b@.len() - i,
        {
            if b[i] == 0u8 {
                assert(encode_utf8(s@)[i as int] == 0u8);
                return Err(EncodeError::InteriorNul);
            }
            buf.push(b[i]);
            i = i + 1;
            assert(buf@ =~= b@.take(i as int));
        }
        assert(buf@ =~= b@);
        buf.push(0u8);
        let k = self.bufs.len();
        self.bufs.push(buf);
        assert(self@ =~= old(self)@.push(c_text(s@)));
        Ok(k)
    }
}

/// Lowers an argument list: numbers and pointers pass through, each text
/// argument is copied into the arena. Fails if some text holds a NUL byte.
pub fn encode_args(args: &Vec<Arg>) -> (r: Result<(Vec<Slot>, Arena), EncodeError>)
    ensures
        r is Ok <==> all_text_ok(args_view(args@)),
        r matches Ok((slots, arena)) ==> lowered(args_view(args@), slots@, arena@),
{
    let ghost av = args_view(args@);
    let mut slots: Vec<Slot> = Vec::new();
    let mut arena = Arena::new();
    let mut i: usize = 0;
    while i < args.len()
        invariant
            av == args_view(args@),
            i <= args@.len(),
            slots@.len() == i,
            arena@.len() == text_count(av.take(i as int)),
            forall|j: int| 0 <= j < i ==> text_ok(#[trigger] av[j]),
            forall|j: int|
                0 <= j < i ==> slot_of(
                    #[trigger] av[j],
                    slots@[j],
                    arena@,
                    text_count(av.take(j)),
                ),
        decreases args@.len() - i,
    {
        assert(av.take(i + 1).drop_last() =~= av.take(i as int));
        assert(av[i as int] == args@[i as int]@);
        let ghost before = arena@;
        match &args[i] {
            Arg::Int(n) => {
                slots.push(Slot::Int(*n));
            },
            Arg::Ptr(p) => {
                slots.push(Slot::Ptr(*p));
            },
            Arg::Text(t) => {
                match arena.lower_text(t.as_str()) {
                    Ok(k) => {
                        slots.push(Slot::Text(k));
                    },
                    Err(e) => {
                        assert(!text_ok(av[i as int]));
                        return Err(e);
                    },
                }
            },
        }
        assert forall|j: int| 0 <= j < i + 1 implies slot_of(
            #[trigger] av[j],
            slots@[j],
            arena@,
            text_count(av.take(j)),
        ) by {
            if j < i {
                assert(slot_of(av[j], slots@[j], before, text_count(av.take(j))));
                assert(av.take(j) =~= av.take(i as int).take(j));
                lemma_text_count_prefix(av.take(i as int), j);
                if av[j] is Text {
                    assert(before[text_count(av.take(j)) as int] == arena@[text_count(
                        av.take(j),
                    ) as int]);
                }
            }
        };
        i = i + 1;
    }
    assert(av.take(i as int) =~= av);
    Ok((slots, arena))
}

proof fn lemma_text_count_prefix(s: Seq<ArgView>, j: int)
    requires
        0 <= j < s.len(),
    ensures
        text_count(s.take(j)) < text_count(s) || !(s[j] is Text),
        text_count(s.take(j)) <= text_count(s),
    decreases s.len(),
{
    if j == s.len() - 1 {
        assert(s.drop_last() =~= s.take(j));
    } else {
        lemma_text_count_prefix(s.drop_last(), j);
        assert(s.drop_last().take(j) =~= s.take(j));
    }
}

} // verus!
