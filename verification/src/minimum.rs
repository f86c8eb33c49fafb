use vstd::prelude::*;
use crate::product::{Product, ProductModel, str_bytes};

verus! {

/// Sum of the UTF-8 byte lengths of all tag entries.
pub open spec fn tags_bytes(tags: Seq<Seq<char>>) -> nat
    decreases tags.len(),
{
    if tags.len() == 0 {
        0
    } else {
        str_bytes(tags[0]) + tags_bytes(tags.drop_first())
    }
}

/// The theoretical floor for one record: 8 bytes for the id, 8 for the
/// price, 1 for the stock flag, plus the UTF-8 byte lengths of the name and
/// of every tag. No framing, no length prefixes, no field tags, no padding.
pub open spec fn min_record_bytes(m: ProductModel) -> nat {
    17 + str_bytes(m.name) + tags_bytes(m.tags)
}

/// The models of a dataset, record by record.
pub open spec fn models(data: Seq<Product>) -> Seq<ProductModel> {
    data.map_values(|p: Product| p@)
}

/// The theoretical floor summed over a whole dataset.
pub open spec fn min_total_bytes(data: Seq<ProductModel>) -> nat
    decreases data.len(),
{
    if data.len() == 0 {
        0
    } else {
        min_record_bytes(data[0]) + min_total_bytes(data.drop_first())
    }
}

/// The floor of a concatenation is the sum of the floors of the parts.
pub proof fn lemma_min_total_concat(a: Seq<ProductModel>, b: Seq<ProductModel>)
    ensures
        min_total_bytes(a + b) == min_total_bytes(a) + min_total_bytes(b),
    decreases a.len(),
{
    if a.len() == 0 {
        assert(a + b =~= b);
    } else {
        assert((a + b).drop_first() =~= a.drop_first() + b);
        assert((a + b)[0] == a[0]);
        lemma_min_total_concat(a.drop_first(), b);
    }
}

/// Appending one record adds exactly that record's floor.
pub proof fn lemma_min_total_push(s: Seq<ProductModel>, m: ProductModel)
    ensures
        min_total_bytes(s.push(m)) == min_total_bytes(s) + min_record_bytes(m),
{
    lemma_min_total_concat(s, seq![m]);
    assert(s.push(m) =~= s + seq![m]);
    lemma_min_total_singleton(m);
}

/// The floor of a one-record dataset is that record's floor.
pub proof fn lemma_min_total_singleton(m: ProductModel)
    ensures
        min_total_bytes(seq![m]) == min_record_bytes(m),
{
    assert(seq![m].drop_first() =~= Seq::<ProductModel>::empty());
    assert(min_total_bytes(Seq::<ProductModel>::empty()) == 0);
    assert(min_total_bytes(seq![m]) == min_record_bytes(seq![m][0]) + min_total_bytes(seq![m].drop_first()));
}

/// Taking one record out lowers the floor by exactly that record's floor.
pub proof fn lemma_min_total_remove(s: Seq<ProductModel>, i: int)
    requires
        0 <= i < s.len(),
    ensures
        min_total_bytes(s) == min_record_bytes(s[i]) + min_total_bytes(s.remove(i)),
{
    let pre = s.subrange(0, i);
    let post = s.subrange(i + 1, s.len() as int);
    assert(s =~= pre + seq![s[i]] + post);
    assert(s.remove(i) =~= pre + post);
    lemma_min_total_concat(pre + seq![s[i]], post);
    lemma_min_total_concat(pre, seq![s[i]]);
    lemma_min_total_concat(pre, post);
    lemma_min_total_singleton(s[i]);
}

/// The theoretical floor of a dataset does not depend on the order in which
/// the records are visited: any two datasets holding the same records, as a
/// multiset, have the same floor. It is a function of the records alone and
/// mentions no format adapter.
pub proof fn lemma_min_total_permutation(a: Seq<ProductModel>, b: Seq<ProductModel>)
    requires
        a.to_multiset() == b.to_multiset(),
    ensures
        min_total_bytes(a) == min_total_bytes(b),
    decreases a.len(),
{
    a.to_multiset_ensures();
    b.to_multiset_ensures();
    if a.len() == 0 {
        assert(b.to_multiset().len() == 0);
    } else {
        let x = a[0];
        assert(a.contains(x));
        assert(b.to_multiset().count(x) > 0);
        assert(b.contains(x));
        let j = choose|j: int| 0 <= j < b.len() && b[j] == x;
        assert(a.remove(0).to_multiset() =~= a.to_multiset().remove(x));
        assert(b.remove(j).to_multiset() =~= b.to_multiset().remove(x));
        assert(a.remove(0) =~= a.drop_first());
        lemma_min_total_permutation(a.drop_first(), b.remove(j));
        lemma_min_total_remove(b, j);
    }
}

impl Product {
    /// The theoretical floor for this record alone.
    pub fn minimum_bytes(&self) -> (r: u128)
        requires
            self@.wf(),
        ensures
            r == min_record_bytes(self@),
    {
        let name_len: usize = self.name.as_str().len();
        let tag0_len: usize = self.tags[0].as_str().len();
        let tag1_len: usize = self.tags[1].as_str().len();
        proof {
            let t = self@.tags;
            assert(t.drop_first().len() == 1);
            assert(t.drop_first()[0] == t[1]);
            assert(t.drop_first().drop_first().len() == 0);
            assert(tags_bytes(t.drop_first().drop_first()) == 0);
            assert(tags_bytes(t.drop_first()) == str_bytes(t.drop_first()[0])
                + tags_bytes(t.drop_first().drop_first()));
            assert(tags_bytes(t) == str_bytes(t[0]) + tags_bytes(t.drop_first()));
            assert(self.tags@[0]@ == t[0]);
            assert(self.tags@[1]@ == t[1]);
        }
        17u128 + (name_len as u128) + (tag0_len as u128) + (tag1_len as u128)
    }
}

/// Sums the theoretical floor over the whole dataset; the result is used as
/// the normalization denominator for the overhead percentage. Returns `None`
/// only when the mathematical total does not fit in 128 bits.
pub fn theoretical_minimum(data: &Vec<Product>) -> (r: Option<u128>)
    requires
        forall|k: int| 0 <= k < data@.len() ==> (#[trigger] data@[k])@.wf(),
    ensures
        match r {
            Some(t) => t == min_total_bytes(models(data@)),
            None => min_total_bytes(models(data@)) > u128::MAX,
        },
{
    let ghost ms = models(data@);
    let mut total: u128 = 0;
    let mut i: usize = 0;
    while i < data.len()
        invariant
            0 <= i <= data@.len(),
            forall|k: int| 0 <= k < data@.len() ==> (#[trigger] data@[k])@.wf(),
            ms == models(data@),
            ms.len() == data@.len(),
            total == min_total_bytes(ms.take(i as int)),
        decreases data@.len() - i,
    {
        let m = data[i].minimum_bytes();
        proof {
            assert(ms[i as int] == data@[i as int]@);
            assert(ms.take(i + 1) =~= ms.take(i as int).push(ms[i as int]));
            lemma_min_total_push(ms.take(i as int), ms[i as int]);
        }
        total = match total.checked_add(m) {
            Some(t) => t,
            None => {
                proof {
                    assert(ms =~= ms.take(i + 1) + ms.skip(i + 1));
                    lemma_min_total_concat(ms.take(i + 1), ms.skip(i + 1));
                }
                return None;
            },
        };
        i += 1;
    }
    proof {
        assert(ms.take(data@.len() as int) =~= ms);
    }
    Some(total)
}

} // verus!
