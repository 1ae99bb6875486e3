//! The order in which a walk visits and lists paths: component by component, each
//! component by its bytes, a path before the paths below it. A merge sort keeps it.

use vstd::prelude::*;

use crate::ext::{path_components, path_components_result};

verus! {

/// Byte-wise lexicographic order: a proper prefix comes first.
pub open spec fn bytes_less(a: Seq<u8>, b: Seq<u8>) -> bool
    decreases a.len(),
{
    if a.len() == 0 {
        b.len() > 0
    } else if b.len() == 0 {
        false
    } else if a[0] == b[0] {
        bytes_less(a.drop_first(), b.drop_first())
    } else {
        a[0] < b[0]
    }
}

/// No byte string comes before itself, and of two at most one comes first.
pub proof fn lemma_bytes_less_asymmetric(a: Seq<u8>, b: Seq<u8>)
    ensures
        !bytes_less(a, a),
        bytes_less(a, b) ==> !bytes_less(b, a),
    decreases a.len(),
{
    if a.len() > 0 {
        lemma_bytes_less_asymmetric(a.drop_first(), a.drop_first());
        if b.len() > 0 {
            lemma_bytes_less_asymmetric(a.drop_first(), b.drop_first());
        }
    }
}

/// The byte order is transitive.
pub proof fn lemma_bytes_less_transitive(a: Seq<u8>, b: Seq<u8>, c: Seq<u8>)
    requires
        bytes_less(a, b),
        bytes_less(b, c),
    ensures
        bytes_less(a, c),
    decreases a.len(),
{
    if a.len() > 0 && b.len() > 0 && c.len() > 0 && a[0] == b[0] && b[0] == c[0] {
        lemma_bytes_less_transitive(a.drop_first(), b.drop_first(), c.drop_first());
    }
}

/// Of two different byte strings one comes first.
pub proof fn lemma_bytes_less_total(a: Seq<u8>, b: Seq<u8>)
    requires
        a != b,
    ensures
        bytes_less(a, b) || bytes_less(b, a),
    decreases a.len(),
{
    if a.len() > 0 && b.len() > 0 && a[0] == b[0] {
        if a.drop_first() == b.drop_first() {
            assert(a =~= seq![a[0]] + a.drop_first());
            assert(b =~= seq![b[0]] + b.drop_first());
        }
        lemma_bytes_less_total(a.drop_first(), b.drop_first());
    } else if a.len() == 0 && b.len() == 0 {
        assert(a =~= b);
    }
}

/// "Not after" is transitive: `a` not after `b` and `b` not after `c` leave `a` not after `c`.
proof fn lemma_not_after_transitive(a: Seq<u8>, b: Seq<u8>, c: Seq<u8>)
    requires
        !bytes_less(b, a),
        !bytes_less(c, b),
    ensures
        !bytes_less(c, a),
{
    if bytes_less(c, a) {
        if a != b {
            lemma_bytes_less_total(a, b);
            lemma_bytes_less_transitive(c, a, b);
            if b != c {
                lemma_bytes_less_total(b, c);
                lemma_bytes_less_asymmetric(c, b);
            } else {
                lemma_bytes_less_asymmetric(c, c);
            }
        }
    }
}

/// Whether `a` comes before `b` in the byte order.
pub fn bytes_before(a: &Vec<u8>, b: &Vec<u8>) -> (r: bool)
    ensures
        r == bytes_less(a@, b@),
{
    let mut i: usize = 0;
    assert(a@.skip(0) =~= a@);
    assert(b@.skip(0) =~= b@);
    while i < a.len() && i < b.len() && a[i] == b[i]
        invariant
            i <= a.len(),
            i <= b.len(),
            bytes_less(a@, b@) == bytes_less(a@.skip(i as int), b@.skip(i as int)),
        decreases a.len() - i,
    {
        assert(a@.skip(i as int).drop_first() =~= a@.skip(i + 1));
        assert(b@.skip(i as int).drop_first() =~= b@.skip(i + 1));
        i = i + 1;
    }
    if i == a.len() {
        i < b.len()
    } else if i == b.len() {
        false
    } else {
        a[i] < b[i]
    }
}

/// The sort key of a component list: each component's bytes followed by a zero byte. A
/// component holds no zero byte, so keys compare as the lists do, component by component,
/// and a path comes before the paths below it.
pub open spec fn parts_key(parts: Seq<Seq<u8>>) -> Seq<u8>
    decreases parts.len(),
{
    if parts.len() == 0 {
        seq![]
    } else {
        parts_key(parts.drop_last()) + parts.last() + seq![0u8]
    }
}

/// The sort key of a path: that of its components. For the paths of one walk, whose
/// components at each place are of one kind, this is the order of `Path`.
pub open spec fn path_key(p: std::path::PathBuf) -> Seq<u8> {
    parts_key(path_components_result(p))
}

/// The sort key of a path, built from its components.
pub fn path_key_bytes(p: &std::path::PathBuf) -> (r: Vec<u8>)
    ensures
        r@ == path_key(*p),
{
    let parts = path_components(p);
    let ghost all = path_components_result(*p);
    let mut out: Vec<u8> = Vec::new();
    let mut i: usize = 0;
    assert(all.take(0) =~= Seq::<Seq<u8>>::empty());
    while i < parts.len()
        invariant
            i <= parts@.len(),
            parts@.len() == all.len(),
            forall|k: int| 0 <= k < parts@.len() ==> (#[trigger] parts@[k])@ == all[k],
            out@ == parts_key(all.take(i as int)),
        decreases parts.len() - i,
    {
        let part = &parts[i];
        let mut j: usize = 0;
        let ghost start = out@;
        while j < part.len()
            invariant
                j <= part@.len(),
                out@ == start + part@.take(j as int),
            decreases part.len() - j,
        {
            out.push(part[j]);
            assert(part@.take(j + 1) =~= part@.take(j as int).push(part@[j as int]));
            j = j + 1;
        }
        out.push(0u8);
        proof {
            assert(part@.take(part@.len() as int) =~= part@);
            assert(all.take(i + 1).drop_last() =~= all.take(i as int));
            assert(all.take(i + 1).last() == all[i as int]);
            assert(out@ =~= parts_key(all.take(i + 1)));
        }
        i = i + 1;
    }
    assert(all.take(parts@.len() as int) =~= all);
    out
}

/// Something listed in path order: a file system path, or what a walk found at one.
pub trait PathOrdered: Sized {
    /// Its sort key.
    spec fn order_key(&self) -> Seq<u8>;

    /// Its sort key, computed.
    fn order_key_bytes(&self) -> (r: Vec<u8>)
        ensures
            r@ == self.order_key(),
    ;
}

impl PathOrdered for std::path::PathBuf {
    open spec fn order_key(&self) -> Seq<u8> {
        path_key(*self)
    }

    fn order_key_bytes(&self) -> (r: Vec<u8>) {
        path_key_bytes(self)
    }
}

/// Items in path order: none comes before one listed earlier.
pub open spec fn in_path_order<T: PathOrdered>(s: Seq<T>) -> bool {
    forall|i: int, j: int|
        0 <= i < j < s.len() ==> !bytes_less((#[trigger] s[j]).order_key(), (#[trigger] s[i]).order_key())
}

/// Items in reverse path order: none comes after one listed earlier.
spec fn in_reverse_path_order<T: PathOrdered>(s: Seq<T>) -> bool {
    forall|i: int, j: int|
        0 <= i < j < s.len() ==> !bytes_less((#[trigger] s[i]).order_key(), (#[trigger] s[j]).order_key())
}

/// The items of a vector in reverse order.
fn reversed<T>(v: Vec<T>) -> (r: Vec<T>)
    ensures
        r@ == v@.reverse(),
{
    let ghost orig = v@;
    let mut v = v;
    let mut r: Vec<T> = Vec::new();
    while v.len() > 0
        invariant
            v@ == orig.subrange(0, v@.len() as int),
            r@ == orig.subrange(v@.len() as int, orig.len() as int).reverse(),
            v@.len() <= orig.len(),
        decreases v.len(),
    {
        let ghost n = v@.len();
        let x = v.pop().unwrap();
        r.push(x);
        assert(r@ =~= orig.subrange(n - 1, orig.len() as int).reverse());
    }
    assert(orig.subrange(0, orig.len() as int) =~= orig);
    r
}

/// Two lists in path order merged into one in path order, with the items of both.
fn merge<T: PathOrdered>(a: Vec<T>, b: Vec<T>) -> (r: Vec<T>)
    requires
        in_path_order(a@),
        in_path_order(b@),
    ensures
        r@.to_multiset() == a@.to_multiset().add(b@.to_multiset()),
        in_path_order(r@),
{
    broadcast use vstd::seq_lib::group_to_multiset_ensures, vstd::multiset::group_multiset_axioms;
    let ghost total = a@.to_multiset().add(b@.to_multiset());
    let mut a = a;
    let mut b = b;
    let mut desc: Vec<T> = Vec::new();
    assert(desc@.to_multiset().add(a@.to_multiset()).add(b@.to_multiset()) =~= total);
    while a.len() > 0 || b.len() > 0
        invariant
            in_path_order(a@),
            in_path_order(b@),
            in_reverse_path_order(desc@),
            forall|i: int, k: int|
                0 <= i < a@.len() && 0 <= k < desc@.len() ==> !bytes_less(
                    (#[trigger] desc@[k]).order_key(),
                    (#[trigger] a@[i]).order_key(),
                ),
            forall|i: int, k: int|
                0 <= i < b@.len() && 0 <= k < desc@.len() ==> !bytes_less(
                    (#[trigger] desc@[k]).order_key(),
                    (#[trigger] b@[i]).order_key(),
                ),
            desc@.to_multiset().add(a@.to_multiset()).add(b@.to_multiset()) == total,
        decreases a.len() + b.len(),
    {
        let from_a = if a.len() == 0 {
            false
        } else if b.len() == 0 {
            true
        } else {
            let ka = a[a.len() - 1].order_key_bytes();
            let kb = b[b.len() - 1].order_key_bytes();
            !bytes_before(&ka, &kb)
        };
        let ghost old_a = a@;
        let ghost old_b = b@;
        let ghost old_desc = desc@;
        if from_a {
            let x = a.pop().unwrap();
            desc.push(x);
            proof {
                let la = old_a.len() - 1;
                assert(old_a[la] == x);
                assert(a@ == old_a.remove(la));
                vstd::seq_lib::to_multiset_remove(old_a, la);
                assert forall|i: int, j: int| 0 <= i < j < desc@.len() implies !bytes_less(
                    (#[trigger] desc@[i]).order_key(),
                    (#[trigger] desc@[j]).order_key(),
                ) by {
                    if j == desc@.len() - 1 {
                        assert(desc@[i] == old_desc[i]);
                        assert(desc@[j] == old_a[la]);
                    } else {
                        assert(desc@[i] == old_desc[i] && desc@[j] == old_desc[j]);
                    }
                }
                assert forall|i: int, k: int| 0 <= i < a@.len() && 0 <= k < desc@.len() implies !bytes_less(
                    (#[trigger] desc@[k]).order_key(),
                    (#[trigger] a@[i]).order_key(),
                ) by {
                    assert(a@[i] == old_a[i]);
                    if k == desc@.len() - 1 {
                        assert(desc@[k] == old_a[la]);
                    } else {
                        assert(desc@[k] == old_desc[k]);
                    }
                }
                assert forall|i: int, k: int| 0 <= i < b@.len() && 0 <= k < desc@.len() implies !bytes_less(
                    (#[trigger] desc@[k]).order_key(),
                    (#[trigger] b@[i]).order_key(),
                ) by {
                    if k == desc@.len() - 1 {
                        let lb = old_b.len() - 1;
                        assert(desc@[k] == x);
                        if i < lb {
                            assert(!bytes_less(old_b[lb].order_key(), old_b[i].order_key()));
                        } else {
                            lemma_bytes_less_asymmetric(old_b[i].order_key(), old_b[i].order_key());
                        }
                        assert(!bytes_less(x.order_key(), old_b[lb].order_key()));
                        lemma_not_after_transitive(old_b[i].order_key(), old_b[lb].order_key(), x.order_key());
                    } else {
                        assert(desc@[k] == old_desc[k]);
                    }
                }
                vstd::seq_lib::to_multiset_build(old_desc, x);
                old_a.to_multiset_ensures();
                assert(old_a.contains(x));
                assert(old_a.to_multiset().count(x) > 0);
                assert forall|v: T| #[trigger] desc@.to_multiset().add(a@.to_multiset()).add(b@.to_multiset()).count(v)
                    == total.count(v) by {
                    if v == x {
                    } else {
                    }
                }
                assert(desc@.to_multiset().add(a@.to_multiset()).add(b@.to_multiset()) =~= total);
            }
        } else {
            let x = b.pop().unwrap();
            desc.push(x);
            proof {
                let lb = old_b.len() - 1;
                assert(old_b[lb] == x);
                assert(b@ == old_b.remove(lb));
                vstd::seq_lib::to_multiset_remove(old_b, lb);
                assert forall|i: int, j: int| 0 <= i < j < desc@.len() implies !bytes_less(
                    (#[trigger] desc@[i]).order_key(),
                    (#[trigger] desc@[j]).order_key(),
                ) by {
                    if j == desc@.len() - 1 {
                        assert(desc@[i] == old_desc[i]);
                        assert(desc@[j] == old_b[lb]);
                    } else {
                        assert(desc@[i] == old_desc[i] && desc@[j] == old_desc[j]);
                    }
                }
                assert forall|i: int, k: int| 0 <= i < b@.len() && 0 <= k < desc@.len() implies !bytes_less(
                    (#[trigger] desc@[k]).order_key(),
                    (#[trigger] b@[i]).order_key(),
                ) by {
                    assert(b@[i] == old_b[i]);
                    if k == desc@.len() - 1 {
                        assert(desc@[k] == old_b[lb]);
                    } else {
                        assert(desc@[k] == old_desc[k]);
                    }
                }
                assert forall|i: int, k: int| 0 <= i < a@.len() && 0 <= k < desc@.len() implies !bytes_less(
                    (#[trigger] desc@[k]).order_key(),
                    (#[trigger] a@[i]).order_key(),
                ) by {
                    if k == desc@.len() - 1 {
                        let la = old_a.len() - 1;
                        assert(desc@[k] == x);
                        if i < la {
                            assert(!bytes_less(old_a[la].order_key(), old_a[i].order_key()));
                        } else {
                            lemma_bytes_less_asymmetric(old_a[i].order_key(), old_a[i].order_key());
                        }
                        let ka = old_a[la].order_key();
                        let kb = x.order_key();
                        assert(bytes_less(ka, kb));
                        lemma_bytes_less_asymmetric(ka, kb);
                        lemma_not_after_transitive(old_a[i].order_key(), ka, kb);
                    } else {
                        assert(desc@[k] == old_desc[k]);
                    }
                }
                vstd::seq_lib::to_multiset_build(old_desc, x);
                old_b.to_multiset_ensures();
                assert(old_b.contains(x));
                assert(old_b.to_multiset().count(x) > 0);
                assert forall|v: T| #[trigger] desc@.to_multiset().add(a@.to_multiset()).add(b@.to_multiset()).count(v)
                    == total.count(v) by {
                    if v == x {
                    } else {
                    }
                }
                assert(desc@.to_multiset().add(a@.to_multiset()).add(b@.to_multiset()) =~= total);
            }
        }
    }
    assert(a@.to_multiset().len() == 0);
    assert(b@.to_multiset().len() == 0);
    let ghost d = desc@;
    let r = reversed(desc);
    proof {
        d.lemma_reverse_to_multiset();
        assert(d.to_multiset() =~= total);
        assert forall|i: int, j: int| 0 <= i < j < r@.len() implies !bytes_less(
            (#[trigger] r@[j]).order_key(),
            (#[trigger] r@[i]).order_key(),
        ) by {
            let n = d.len() as int;
            assert(r@[i] == d[n - 1 - i]);
            assert(r@[j] == d[n - 1 - j]);
        }
    }
    r
}

/// The items in path order; of two items with one key, either may come first.
pub fn sort_by_path<T: PathOrdered>(items: Vec<T>) -> (r: Vec<T>)
    ensures
        r@.to_multiset() == items@.to_multiset(),
        in_path_order(r@),
    decreases items@.len(),
{
    if items.len() <= 1 {
        return items;
    }
    let ghost whole = items@;
    let mut left = items;
    let mid = left.len() / 2;
    let right = left.split_off(mid);
    proof {
        assert(whole =~= left@ + right@);
        vstd::seq_lib::lemma_multiset_commutative(left@, right@);
    }
    let l = sort_by_path(left);
    let r = sort_by_path(right);
    merge(l, r)
}

} // verus!
