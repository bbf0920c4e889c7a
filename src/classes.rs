//! The class attribute read as a list of names.
use vstd::prelude::*;

verus! {

/// Unicode's White_Space characters, which `char::is_whitespace` accepts.
pub open spec fn is_white(c: char) -> bool {
    let u = c as u32;
    ||| 0x09 <= u <= 0x0d
    ||| u == 0x20
    ||| u == 0x85
    ||| u == 0xa0
    ||| u == 0x1680
    ||| 0x2000 <= u <= 0x200a
    ||| u == 0x2028
    ||| u == 0x2029
    ||| u == 0x202f
    ||| u == 0x205f
    ||| u == 0x3000
}

/// `t` without its leading white space.
pub open spec fn trim_start(t: Seq<char>) -> Seq<char>
    decreases t.len(),
{
    if t.len() > 0 && is_white(t[0]) {
        trim_start(t.drop_first())
    } else {
        t
    }
}

/// `t` without its trailing white space.
pub open spec fn trim_end(t: Seq<char>) -> Seq<char>
    decreases t.len(),
{
    if t.len() > 0 && is_white(t.last()) {
        trim_end(t.drop_last())
    } else {
        t
    }
}

/// The pieces of `t` between white-space characters, empty ones included:
/// one piece more than there are white-space characters.
pub open spec fn split_white(t: Seq<char>) -> Seq<Seq<char>>
    decreases t.len(),
{
    if t.len() == 0 {
        seq![Seq::<char>::empty()]
    } else {
        let p = split_white(t.drop_last());
        if is_white(t.last()) {
            p.push(Seq::<char>::empty())
        } else {
            p.update(p.len() - 1, p.last().push(t.last()))
        }
    }
}

/// The class names of a class attribute: the text trimmed, then split at
/// each white-space character.
pub open spec fn class_names_of(t: Seq<char>) -> Seq<Seq<char>> {
    split_white(trim_end(trim_start(t)))
}

fn white(c: char) -> (r: bool)
    ensures
        r == is_white(c),
{
    let u = c as u32;
    (0x09 <= u && u <= 0x0d) || u == 0x20 || u == 0x85 || u == 0xa0 || u == 0x1680 || (0x2000
        <= u && u <= 0x200a) || u == 0x2028 || u == 0x2029 || u == 0x202f || u == 0x205f || u
        == 0x3000
}

/// Relies on `String::push`, which appends one character.
#[verifier::external_body]
fn push_char(s: &mut String, c: char)
    ensures
        final(s)@ == old(s)@.push(c),
{
    s.push(c)
}

proof fn lemma_split_nonempty(t: Seq<char>)
    ensures
        split_white(t).len() >= 1,
    decreases t.len(),
{
    if t.len() > 0 {
        lemma_split_nonempty(t.drop_last());
    }
}

proof fn lemma_trim_start(t: Seq<char>, a: int)
    requires
        0 <= a <= t.len(),
        forall|j: int| 0 <= j < a ==> is_white(#[trigger] t[j]),
        a == t.len() || !is_white(t[a]),
    ensures
        trim_start(t) == t.subrange(a, t.len() as int),
    decreases a,
{
    if a == 0 {
        assert(t.subrange(0, t.len() as int) =~= t);
    } else {
        let d = t.drop_first();
        assert forall|j: int| 0 <= j < a - 1 implies is_white(#[trigger] d[j]) by {
            assert(d[j] == t[j + 1]);
        };
        if a - 1 < d.len() {
            assert(d[a - 1] == t[a]);
        }
        lemma_trim_start(d, a - 1);
        assert(d.subrange(a - 1, d.len() as int) =~= t.subrange(a, t.len() as int));
    }
}

proof fn lemma_trim_end(t: Seq<char>, b: int)
    requires
        0 <= b <= t.len(),
        forall|j: int| b <= j < t.len() ==> is_white(#[trigger] t[j]),
        b == 0 || !is_white(t[b - 1]),
    ensures
        trim_end(t) == t.subrange(0, b),
    decreases t.len() - b,
{
    if b == t.len() {
        assert(t.subrange(0, b) =~= t);
    } else {
        let d = t.drop_last();
        assert forall|j: int| b <= j < d.len() implies is_white(#[trigger] d[j]) by {
            assert(d[j] == t[j]);
        };
        lemma_trim_end(d, b);
        assert(d.subrange(0, b) =~= t.subrange(0, b));
    }
}

/// The names in class attribute `s`, in order. Text of white space only
/// gives one empty name, and two white-space characters in a row give an
/// empty name between them.
pub fn class_names(s: &str) -> (r: Vec<String>)
    ensures
        r@.map_values(|x: String| x@) == class_names_of(s@),
{
    let mut cs: Vec<char> = Vec::new();
    for c in it: s.chars()
        invariant
            it.seq() == s@,
            cs@ == it.seq().take(it.index() as int),
    {
        cs.push(c);
        assert(cs@ =~= it.seq().take(it.index() + 1));
    }
    assert(cs@ =~= s@);
    let ghost t = cs@;
    let n = cs.len();
    let mut a: usize = 0;
    while a < n && white(cs[a])
        invariant
            t == cs@,
            n == t.len(),
            a <= n,
            forall|j: int| 0 <= j < a ==> is_white(#[trigger] t[j]),
        decreases n - a,
    {
        a = a + 1;
    }
    proof {
        lemma_trim_start(t, a as int);
    }
    let ghost u = t.subrange(a as int, n as int);
    let mut b: usize = n;
    while b > a && white(cs[b - 1])
        invariant
            t == cs@,
            n == t.len(),
            a <= b <= n,
            forall|j: int| b <= j < n ==> is_white(#[trigger] t[j]),
        decreases b,
    {
        b = b - 1;
    }
    proof {
        assert forall|j: int| b - a <= j < u.len() implies is_white(#[trigger] u[j]) by {
            assert(u[j] == t[j + a]);
        };
        if b > a {
            assert(u[b - a - 1] == t[b - 1]);
        }
        lemma_trim_end(u, b - a);
        assert(u.subrange(0, b - a) =~= t.subrange(a as int, b as int));
    }
    let mut out: Vec<String> = Vec::new();
    let mut cur = String::new();
    let mut i: usize = a;
    while i < b
        invariant
            t == cs@,
            a <= i <= b <= n,
            n == t.len(),
            out@.map_values(|x: String| x@).push(cur@) == split_white(
                t.subrange(a as int, i as int),
            ),
        decreases b - i,
    {
        let c = cs[i];
        let ghost before = t.subrange(a as int, i as int);
        assert(t.subrange(a as int, i + 1).drop_last() =~= before);
        assert(t.subrange(a as int, i + 1).last() == c);
        proof {
            lemma_split_nonempty(before);
        }
        if white(c) {
            let done = cur;
            out.push(done);
            cur = String::new();
            assert(out@.map_values(|x: String| x@).push(cur@) =~= split_white(
                t.subrange(a as int, i + 1),
            ));
        } else {
            let ghost p = out@.map_values(|x: String| x@).push(cur@);
            push_char(&mut cur, c);
            assert(out@.map_values(|x: String| x@).push(cur@) =~= p.update(
                p.len() - 1,
                p.last().push(c),
            ));
        }
        i = i + 1;
    }
    out.push(cur);
    out
}

} // verus!
