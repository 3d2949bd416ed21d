//! Paths as the bytes that the file system knows them by: what they are made of,
//! which of them are the same, and how they are ordered.
use vstd::prelude::*;

use crate::model::{group_seq_views, seq_views};

verus! {

broadcast use group_seq_views;

/// `/`, between the pieces of a path and before an absolute one.
pub const SLASH: u8 = 47;

/// `.`, which names the directory it stands in.
pub const DOT: u8 = 46;

/// What stands between the slashes of a path, from front to back.
pub open spec fn pieces(path: Seq<u8>) -> Seq<Seq<u8>>
    decreases path.len(),
{
    if path.len() == 0 {
        seq![Seq::empty()]
    } else {
        let before = pieces(path.drop_last());
        if path.last() == SLASH {
            before.push(Seq::empty())
        } else {
            before.drop_last().push(before.last().push(path.last()))
        }
    }
}

/// A piece that leads somewhere.
pub open spec fn leads(piece: Seq<u8>) -> bool {
    piece.len() > 0 && piece != seq![DOT]
}

/// The pieces that lead somewhere, in order.
pub open spec fn led(pieces: Seq<Seq<u8>>) -> Seq<Seq<u8>> {
    pieces.filter(|piece: Seq<u8>| leads(piece))
}

/// What a path starts from: the root, the directory it names with a leading dot, or
/// nothing that it says.
pub open spec fn start(path: Seq<u8>) -> Seq<Seq<u8>> {
    if path.len() > 0 && path[0] == SLASH {
        seq![seq![SLASH]]
    } else if path.len() > 0 && path[0] == DOT && (path.len() == 1 || path[1] == SLASH) {
        seq![seq![DOT]]
    } else {
        Seq::empty()
    }
}

/// The components of a path: where it starts, and each piece that leads on from
/// there. Repeated and trailing slashes, and dots that are not in front, add nothing.
pub open spec fn components(path: Seq<u8>) -> Seq<Seq<u8>> {
    start(path) + led(pieces(path))
}

/// Two paths with the same components.
pub open spec fn same_path(a: Seq<u8>, b: Seq<u8>) -> bool {
    components(a) == components(b)
}

/// The order in which kinds of components come: the root, a leading dot, the parent
/// directory, a name.
pub open spec fn rank(component: Seq<u8>) -> int {
    if component == seq![SLASH] {
        0
    } else if component == seq![DOT] {
        1
    } else if component == seq![DOT, DOT] {
        2
    } else {
        3
    }
}

/// `a` and `b` agree up to `i`, where `a` ends or has the lesser element.
pub open spec fn differ_at<A>(a: Seq<A>, b: Seq<A>, less: spec_fn(A, A) -> bool, i: int) -> bool {
    &&& 0 <= i <= a.len()
    &&& i < b.len()
    &&& forall|k: int| 0 <= k < i ==> #[trigger] a[k] == b[k]
    &&& i == a.len() || less(a[i], b[i])
}

/// The order of a dictionary.
pub open spec fn dictionary<A>(a: Seq<A>, b: Seq<A>, less: spec_fn(A, A) -> bool) -> bool {
    exists|i: int| differ_at(a, b, less, i)
}

pub open spec fn byte_order() -> spec_fn(u8, u8) -> bool {
    |x: u8, y: u8| x < y
}

/// Components by kind, and names by their bytes.
pub open spec fn component_order() -> spec_fn(Seq<u8>, Seq<u8>) -> bool {
    |x: Seq<u8>, y: Seq<u8>|
        rank(x) < rank(y) || rank(x) == rank(y) && dictionary(x, y, byte_order())
}

/// One path stands before another: component by component.
pub open spec fn path_before(a: Seq<u8>, b: Seq<u8>) -> bool {
    dictionary(components(a), components(b), component_order())
}

/// A strict total order.
pub open spec fn orders<A>(less: spec_fn(A, A) -> bool) -> bool {
    &&& forall|x: A| !(#[trigger] less(x, x))
    &&& forall|x: A, y: A, z: A| #[trigger] less(x, y) && #[trigger] less(y, z) ==> less(x, z)
    &&& forall|x: A, y: A| #![trigger less(x, y)] less(x, y) || less(y, x) || x == y
}

proof fn lemma_dictionary_transitive<A>(
    a: Seq<A>,
    b: Seq<A>,
    c: Seq<A>,
    less: spec_fn(A, A) -> bool,
)
    requires
        orders(less),
        dictionary(a, b, less),
        dictionary(b, c, less),
    ensures
        dictionary(a, c, less),
{
    let i = choose|i: int| differ_at(a, b, less, i);
    let j = choose|j: int| differ_at(b, c, less, j);
    let k = if i < j {
        i
    } else {
        j
    };
    assert forall|n: int| 0 <= n < k implies #[trigger] a[n] == c[n] by {
        assert(a[n] == b[n]);
        assert(b[n] == c[n]);
    }
    if i < j {
        assert(b[i] == c[i]);
    } else if j < i {
        assert(a[j] == b[j]);
    } else if i < a.len() {
        assert(less(a[i], b[i]) && less(b[i], c[i]));
    }
    assert(differ_at(a, c, less, k));
}

proof fn lemma_dictionary_irreflexive<A>(a: Seq<A>, less: spec_fn(A, A) -> bool)
    requires
        orders(less),
    ensures
        !dictionary(a, a, less),
{
    if dictionary(a, a, less) {
        let i = choose|i: int| differ_at(a, a, less, i);
        assert(!less(a[i], a[i]));
    }
}

proof fn lemma_dictionary_total<A>(a: Seq<A>, b: Seq<A>, less: spec_fn(A, A) -> bool, i: int)
    requires
        orders(less),
        0 <= i <= a.len(),
        i <= b.len(),
        forall|k: int| 0 <= k < i ==> #[trigger] a[k] == b[k],
    ensures
        dictionary(a, b, less) || dictionary(b, a, less) || a == b,
    decreases a.len() - i,
{
    if i == a.len() && i == b.len() {
        assert(a =~= b);
    } else if i == a.len() {
        assert(differ_at(a, b, less, i));
    } else if i == b.len() {
        assert(differ_at(b, a, less, i));
    } else if a[i] == b[i] {
        lemma_dictionary_total(a, b, less, i + 1);
    } else if less(a[i], b[i]) {
        assert(differ_at(a, b, less, i));
    } else {
        assert(differ_at(b, a, less, i));
    }
}

/// A dictionary is in order where its letters are.
proof fn lemma_dictionary_orders<A>(less: spec_fn(A, A) -> bool)
    requires
        orders(less),
    ensures
        orders(|a: Seq<A>, b: Seq<A>| dictionary(a, b, less)),
{
    let words = |a: Seq<A>, b: Seq<A>| dictionary(a, b, less);
    assert forall|x: Seq<A>| !(#[trigger] words(x, x)) by {
        lemma_dictionary_irreflexive(x, less);
    }
    assert forall|x: Seq<A>, y: Seq<A>, z: Seq<A>| #[trigger] words(x, y) && #[trigger] words(
        y,
        z,
    ) implies words(x, z) by {
        lemma_dictionary_transitive(x, y, z, less);
    }
    assert forall|x: Seq<A>, y: Seq<A>|
        #![trigger words(x, y)]
        words(x, y) || words(y, x) || x == y by {
        lemma_dictionary_total(x, y, less, 0);
    }
}

proof fn lemma_component_order()
    ensures
        orders(component_order()),
{
    let less = component_order();
    let words = |a: Seq<u8>, b: Seq<u8>| dictionary(a, b, byte_order());
    assert(orders(byte_order()));
    lemma_dictionary_orders(byte_order());
    assert forall|x: Seq<u8>| !(#[trigger] less(x, x)) by {
        assert(!words(x, x));
    }
    assert forall|x: Seq<u8>, y: Seq<u8>, z: Seq<u8>| #[trigger] less(x, y) && #[trigger] less(
        y,
        z,
    ) implies less(x, z) by {
        if rank(x) == rank(y) && rank(y) == rank(z) {
            assert(words(x, y) && words(y, z));
            assert(words(x, z));
        }
    }
    assert forall|x: Seq<u8>, y: Seq<u8>|
        #![trigger less(x, y)]
        less(x, y) || less(y, x) || x == y by {
        assert(words(x, y) || words(y, x) || x == y);
    }
}

/// Of two paths, one stands before the other or they are the same, and not both; and
/// what stands before a path stands before all that are behind it.
pub proof fn paths_are_in_order(a: Seq<u8>, b: Seq<u8>, c: Seq<u8>)
    ensures
        path_before(a, b) || path_before(b, a) || same_path(a, b),
        same_path(a, b) ==> !path_before(a, b),
        path_before(a, b) ==> !path_before(b, a),
        path_before(a, b) && path_before(b, c) ==> path_before(a, c),
        same_path(a, b) ==> (path_before(a, c) <==> path_before(b, c)),
        same_path(a, b) ==> (path_before(c, a) <==> path_before(c, b)),
{
    let words = |x: Seq<Seq<u8>>, y: Seq<Seq<u8>>| dictionary(x, y, component_order());
    let (x, y, z) = (components(a), components(b), components(c));
    lemma_component_order();
    lemma_dictionary_orders(component_order());
    assert(!words(x, x));
    assert(words(x, y) || words(y, x) || x == y);
    assert(words(x, y) && words(y, x) ==> words(x, x));
    assert(words(x, y) && words(y, z) ==> words(x, z));
}

/// The pieces of a list that lead somewhere, one more piece taken in.
proof fn lemma_led(before: Seq<Seq<u8>>, piece: Seq<u8>)
    ensures
        led(before.push(piece)) == if leads(piece) {
            led(before).push(piece)
        } else {
            led(before)
        },
{
    reveal(Seq::filter);
    assert(before.push(piece).drop_last() =~= before);
}

/// A slash behind a path, and a dot behind that slash, do not change the path.
pub proof fn idle_pieces_change_no_path(path: Seq<u8>)
    requires
        path.len() > 0,
    ensures
        same_path(path.push(SLASH), path),
        path.last() == SLASH ==> same_path(path.push(DOT), path),
{
    let before = pieces(path);
    assert(path.push(SLASH).drop_last() =~= path);
    assert(path.push(DOT).drop_last() =~= path);
    lemma_led(before, Seq::empty());
    if path.last() == SLASH {
        let all = pieces(path.drop_last());
        assert(before == all.push(Seq::empty()));
        assert(before.drop_last() =~= all);
        assert(Seq::<u8>::empty().push(DOT) =~= seq![DOT]);
        lemma_led(all, Seq::empty());
        lemma_led(all, seq![DOT]);
    }
    assert(start(path.push(SLASH)) =~= start(path));
}

/// The components of a path.
pub fn path_components(path: &[u8]) -> (r: Vec<Vec<u8>>)
    ensures
        seq_views(r@) == components(path@),
{
    let mut r: Vec<Vec<u8>> = Vec::new();
    if path.len() > 0 && path[0] == SLASH {
        r.push(vec![SLASH]);
    } else if path.len() > 0 && path[0] == DOT && (path.len() == 1 || path[1] == SLASH) {
        r.push(vec![DOT]);
    }
    assert(seq_views(r@) =~= start(path@) + led(Seq::empty())) by {
        reveal(Seq::filter);
        if r@.len() > 0 {
            assert(r@[0]@ =~= seq![path@[0]]);
        }
    }
    let mut piece: Vec<u8> = Vec::new();
    let mut i: usize = 0;
    assert(path@.take(0) =~= Seq::empty());
    assert(pieces(path@.take(0)).drop_last() =~= Seq::empty());
    while i < path.len()
        invariant
            i <= path@.len(),
            pieces(path@.take(i as int)).len() > 0,
            piece@ == pieces(path@.take(i as int)).last(),
            seq_views(r@) == start(path@) + led(pieces(path@.take(i as int)).drop_last()),
        decreases path@.len() - i,
    {
        let ghost before = pieces(path@.take(i as int));
        proof {
            assert(path@.take(i + 1).drop_last() =~= path@.take(i as int));
            assert(before.drop_last().push(before.last()) =~= before);
            assert(before.push(Seq::empty()).drop_last() =~= before);
            assert(before.drop_last().push(before.last().push(path@[i as int])).drop_last()
                =~= before.drop_last());
            lemma_led(before.drop_last(), before.last());
        }
        if path[i] == SLASH {
            add_piece(&mut r, piece);
            piece = Vec::new();
        } else {
            piece.push(path[i]);
        }
        i = i + 1;
    }
    proof {
        let all = pieces(path@);
        assert(path@.take(i as int) =~= path@);
        assert(all.drop_last().push(all.last()) =~= all);
        lemma_led(all.drop_last(), all.last());
    }
    add_piece(&mut r, piece);
    r
}

fn add_piece(r: &mut Vec<Vec<u8>>, piece: Vec<u8>)
    ensures
        seq_views(final(r)@) == if leads(piece@) {
            seq_views(old(r)@).push(piece@)
        } else {
            seq_views(old(r)@)
        },
{
    let idle: bool = piece.len() == 0 || (piece.len() == 1 && piece[0] == DOT);
    assert(idle == !leads(piece@)) by {
        if piece@.len() == 1 && piece@[0] == DOT {
            assert(piece@ =~= seq![DOT]);
        }
    }
    if !idle {
        r.push(piece);
    }
}

fn same_bytes(a: &Vec<u8>, b: &Vec<u8>) -> (r: bool)
    ensures
        r == (a@ == b@),
{
    if a.len() != b.len() {
        return false;
    }
    let mut i: usize = 0;
    while i < a.len()
        invariant
            i <= a@.len() == b@.len(),
            forall|k: int| 0 <= k < i ==> #[trigger] a@[k] == b@[k],
        decreases a@.len() - i,
    {
        if a[i] != b[i] {
            return false;
        }
        i = i + 1;
    }
    assert(a@ =~= b@);
    true
}

fn bytes_before(a: &Vec<u8>, b: &Vec<u8>) -> (r: bool)
    ensures
        r == dictionary(a@, b@, byte_order()),
{
    let mut i: usize = 0;
    while i < a.len() && i < b.len() && a[i] == b[i]
        invariant
            i <= a@.len(),
            i <= b@.len(),
            forall|k: int| 0 <= k < i ==> #[trigger] a@[k] == b@[k],
        decreases a@.len() - i,
    {
        i = i + 1;
    }
    let r: bool = i < b.len() && (i == a.len() || a[i] < b[i]);
    proof {
        if r {
            assert(differ_at(a@, b@, byte_order(), i as int));
        } else if dictionary(a@, b@, byte_order()) {
            let k = choose|k: int| differ_at(a@, b@, byte_order(), k);
            if k < i {
                assert(a@[k] == b@[k]);
            } else if i < k {
                assert(a@[i as int] == b@[i as int]);
            }
            assert(false);
        }
    }
    r
}

fn component_rank(component: &Vec<u8>) -> (r: u8)
    ensures
        r == rank(component@),
{
    let root: Vec<u8> = vec![SLASH];
    let here: Vec<u8> = vec![DOT];
    let parent: Vec<u8> = vec![DOT, DOT];
    assert(root@ =~= seq![SLASH] && here@ =~= seq![DOT] && parent@ =~= seq![DOT, DOT]);
    if same_bytes(component, &root) {
        0
    } else if same_bytes(component, &here) {
        1
    } else if same_bytes(component, &parent) {
        2
    } else {
        3
    }
}

fn component_before(a: &Vec<u8>, b: &Vec<u8>) -> (r: bool)
    ensures
        r == component_order()(a@, b@),
{
    let x: u8 = component_rank(a);
    let y: u8 = component_rank(b);
    x < y || (x == y && bytes_before(a, b))
}

/// Whether two paths have the same components.
pub fn is_same_path(a: &[u8], b: &[u8]) -> (r: bool)
    ensures
        r == same_path(a@, b@),
{
    let x: Vec<Vec<u8>> = path_components(a);
    let y: Vec<Vec<u8>> = path_components(b);
    if x.len() != y.len() {
        return false;
    }
    let mut i: usize = 0;
    while i < x.len()
        invariant
            i <= x@.len() == y@.len(),
            seq_views(x@) == components(a@),
            seq_views(y@) == components(b@),
            forall|k: int| 0 <= k < i ==> #[trigger] x@[k]@ == y@[k]@,
        decreases x@.len() - i,
    {
        if !same_bytes(&x[i], &y[i]) {
            assert(seq_views(x@)[i as int] != seq_views(y@)[i as int]);
            return false;
        }
        i = i + 1;
    }
    assert(seq_views(x@) =~= seq_views(y@));
    true
}

/// Whether one path stands before another.
pub fn is_path_before(a: &[u8], b: &[u8]) -> (r: bool)
    ensures
        r == path_before(a@, b@),
{
    let x: Vec<Vec<u8>> = path_components(a);
    let y: Vec<Vec<u8>> = path_components(b);
    let ghost (p, q) = (seq_views(x@), seq_views(y@));
    let mut i: usize = 0;
    while i < x.len() && i < y.len() && same_bytes(&x[i], &y[i])
        invariant
            i <= x@.len(),
            i <= y@.len(),
            p == seq_views(x@),
            q == seq_views(y@),
            forall|k: int| 0 <= k < i ==> #[trigger] p[k] == q[k],
        decreases x@.len() - i,
    {
        i = i + 1;
    }
    let r: bool = i < y.len() && (i == x.len() || component_before(&x[i], &y[i]));
    proof {
        let less = component_order();
        lemma_component_order();
        if r {
            assert(differ_at(p, q, less, i as int));
        } else if dictionary(p, q, less) {
            let k = choose|k: int| differ_at(p, q, less, k);
            if k < i {
                assert(p[k] == q[k]);
                assert(!less(p[k], p[k]));
            } else if i < k {
                assert(p[i as int] == q[i as int]);
            }
            assert(false);
        }
    }
    r
}

} // verus!
