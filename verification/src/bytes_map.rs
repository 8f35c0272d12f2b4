//! A map of byte keys to byte values with a gravestone state: the backing
//! store of attachment data. The gravestone (`None`) marks a dropped or
//! never-constructed map; every operation is safe on it.
use vstd::prelude::*;

verus! {

/// The mathematical value of the association list: its pairs, in insertion
/// order.
pub open spec fn pairs_view(l: Seq<(Vec<u8>, Vec<u8>)>) -> Seq<(Seq<u8>, Seq<u8>)> {
    l.map_values(|p: (Vec<u8>, Vec<u8>)| (p.0@, p.1@))
}

/// Association lookup; the last binding of a key wins.
pub open spec fn assoc_lookup(l: Seq<(Seq<u8>, Seq<u8>)>, k: Seq<u8>) -> Option<Seq<u8>>
    decreases l.len(),
{
    if l.len() == 0 {
        None
    } else if l.last().0 == k {
        Some(l.last().1)
    } else {
        assoc_lookup(l.drop_last(), k)
    }
}

/// No key occurs twice, so the list length is the number of keys.
pub open spec fn keys_unique(l: Seq<(Seq<u8>, Seq<u8>)>) -> bool {
    forall|i: int, j: int| 0 <= i < j < l.len() ==> (#[trigger] l[i]).0 != (#[trigger] l[j]).0
}

/// A map of maybe-owned byte vectors to owned byte vectors, with a
/// gravestone state.
#[allow(non_camel_case_types)]
pub struct z_owned_bytes_map_t {
    pub inner: Option<Vec<(Vec<u8>, Vec<u8>)>>,
}

impl View for z_owned_bytes_map_t {
    type V = Option<Seq<(Seq<u8>, Seq<u8>)>>;

    open spec fn view(&self) -> Option<Seq<(Seq<u8>, Seq<u8>)>> {
        match self.inner {
            Some(l) => Some(pairs_view(l@)),
            None => None,
        }
    }
}

impl z_owned_bytes_map_t {
    /// The map's invariant: unless it is the gravestone, its keys are
    /// pairwise distinct.
    pub open spec fn wf(&self) -> bool {
        match self@ {
            Some(l) => keys_unique(l),
            None => true,
        }
    }
}

/// Constructs a new, empty map.
pub fn z_bytes_map_new() -> (r: z_owned_bytes_map_t)
    ensures
        r@ == Some(Seq::<(Seq<u8>, Seq<u8>)>::empty()),
        r.wf(),
{
    let r = z_owned_bytes_map_t { inner: Some(Vec::new()) };
    proof {
        assert(r@->Some_0 =~= Seq::<(Seq<u8>, Seq<u8>)>::empty());
    }
    r
}

/// Constructs the gravestone value.
pub fn z_bytes_map_null() -> (r: z_owned_bytes_map_t)
    ensures
        r@ is None,
        r.wf(),
{
    z_owned_bytes_map_t { inner: None }
}

/// `true` exactly when the map is not in its gravestone state.
pub fn z_bytes_map_check(this: &z_owned_bytes_map_t) -> (b: bool)
    ensures
        b == (this@ is Some),
{
    matches!(this.inner, Some(_))
}

/// Destroys the map, resetting it to the gravestone value; double-drop
/// safe.
pub fn z_bytes_map_drop(this: &mut z_owned_bytes_map_t)
    ensures
        final(this)@ is None,
        final(this).wf(),
{
    this.inner = None;
}

fn eq_bytes(a: &[u8], b: &[u8]) -> (r: bool)
    ensures
        r == (a@ == b@),
{
    if a.len() != b.len() {
        return false;
    }
    let mut j: usize = 0;
    while j < a.len()
        invariant
            j <= a@.len(),
            a@.len() == b@.len(),
            forall|k: int| 0 <= k < j ==> a@[k] == b@[k],
        decreases a@.len() - j,
    {
        if a[j] != b[j] {
            assert(a@[j as int] != b@[j as int]);
            return false;
        }
        j += 1;
    }
    proof {
        assert(a@ =~= b@);
    }
    true
}

fn clone_bytes(v: &[u8]) -> (r: Vec<u8>)
    ensures
        r@ == v@,
{
    let mut r: Vec<u8> = Vec::new();
    let mut j: usize = 0;
    while j < v.len()
        invariant
            j <= v@.len(),
            r@ == v@.subrange(0, j as int),
        decreases v@.len() - j,
    {
        r.push(v[j]);
        j += 1;
        proof {
            assert(r@ =~= v@.subrange(0, j as int));
        }
    }
    proof {
        assert(r@ =~= v@);
    }
    r
}

/// The value associated with `key`, or `None` when the map is in the
/// gravestone state or has no binding for `key`.
#[verifier::loop_isolation(false)]
pub fn z_bytes_map_get(this: &z_owned_bytes_map_t, key: &[u8]) -> (r: Option<Vec<u8>>)
    ensures
        match this@ {
            None => r is None,
            Some(l) => match assoc_lookup(l, key@) {
                Some(v) => r matches Some(rv) && rv@ == v,
                None => r is None,
            },
        },
{
    let l = match &this.inner {
        None => {
            return None;
        },
        Some(l) => l,
    };
    let ghost lm = pairs_view(l@);
    let mut i: usize = l.len();
    proof {
        assert(lm.take(l@.len() as int) =~= lm);
    }
    while i > 0
        invariant
            i <= l@.len(),
            lm == pairs_view(l@),
            assoc_lookup(lm, key@) == assoc_lookup(lm.take(i as int), key@),
        decreases i,
    {
        proof {
            assert(lm.take(i as int).last() == lm[i - 1]);
            assert(lm.take(i as int).drop_last() =~= lm.take(i - 1));
            assert(lm[i - 1] == (l@[i - 1].0@, l@[i - 1].1@));
        }
        if eq_bytes(l[i - 1].0.as_slice(), key) {
            proof {
                assert(assoc_lookup(lm, key@) == Some(lm[i - 1].1));
            }
            return Some(clone_bytes(l[i - 1].1.as_slice()));
        }
        i -= 1;
    }
    proof {
        assert(lm.take(0) =~= Seq::<(Seq<u8>, Seq<u8>)>::empty());
    }
    None
}

proof fn lemma_assoc_remove(l: Seq<(Seq<u8>, Seq<u8>)>, i: int, k: Seq<u8>)
    requires
        0 <= i < l.len(),
        l[i].0 == k,
    ensures
        forall|k2: Seq<u8>|
            k2 != k ==> assoc_lookup(l.remove(i), k2) == assoc_lookup(l, k2),
    decreases l.len(),
{
    assert forall|k2: Seq<u8>| k2 != k implies assoc_lookup(l.remove(i), k2) == assoc_lookup(
        l,
        k2,
    ) by {
        if i == l.len() - 1 {
            assert(l.remove(i) =~= l.drop_last());
        } else {
            assert(l.remove(i).drop_last() =~= l.drop_last().remove(i));
            assert(l.remove(i).last() == l.last());
            lemma_assoc_remove(l.drop_last(), i, k);
        }
    }
}

/// The first index whose key equals `key`, if any.
fn find_key(l: &Vec<(Vec<u8>, Vec<u8>)>, key: &[u8]) -> (r: Option<usize>)
    ensures
        match r {
            Some(ix) => ix < l@.len() && pairs_view(l@)[ix as int].0 == key@,
            None => forall|j: int| 0 <= j < l@.len() ==> (#[trigger] pairs_view(l@)[j]).0 != key@,
        },
{
    let ghost lm = pairs_view(l@);
    let mut i: usize = 0;
    while i < l.len()
        invariant
            i <= l@.len(),
            lm == pairs_view(l@),
            forall|j: int| 0 <= j < i ==> (#[trigger] lm[j]).0 != key@,
        decreases l@.len() - i,
    {
        proof {
            assert(lm[i as int] == (l@[i as int].0@, l@[i as int].1@));
        }
        if eq_bytes(l[i].0.as_slice(), key) {
            return Some(i);
        }
        i += 1;
    }
    None
}

/// Associates `value` to `key`, copying both; an existing binding of `key`
/// is replaced. On the gravestone this has no effect.
pub fn z_bytes_map_insert_by_copy(this: &mut z_owned_bytes_map_t, key: &[u8], value: &[u8])
    requires
        old(this).wf(),
    ensures
        final(this).wf(),
        old(this)@ is None ==> final(this)@ is None,
        old(this)@ matches Some(l) ==> final(this)@ matches Some(l2) && (forall|k2: Seq<u8>|
            #[trigger] assoc_lookup(l2, k2) == (if k2 == key@ {
                Some(value@)
            } else {
                assoc_lookup(l, k2)
            })) && l2.len() <= l.len() + 1,
{
    let l = match &mut this.inner {
        None => {
            return ;
        },
        Some(l) => l,
    };
    let ghost lm = pairs_view(l@);
    let found = find_key(l, key);
    let pair = (clone_bytes(key), clone_bytes(value));
    proof {
        assert((pair.0@, pair.1@) == (key@, value@));
    }
    match found {
        Some(ix) => {
            proof {
                assert(lm[ix as int].0 == key@);
                lemma_assoc_remove(lm, ix as int, key@);
            }
            let ghost removed = lm.remove(ix as int);
            l.remove(ix);
            proof {
                assert(pairs_view(l@) =~= removed);
            }
            l.push(pair);
            proof {
                assert(pairs_view(l@) =~= removed.push((key@, value@)));
                assert(removed.push((key@, value@)).drop_last() =~= removed);
                assert forall|a: int, b: int|
                    0 <= a < b < removed.push((key@, value@)).len() implies (#[trigger] removed.push(
                    (key@, value@),
                )[a]).0 != (#[trigger] removed.push((key@, value@))[b]).0 by {
                    if b < removed.len() {
                        assert(removed[a] == if a < ix {
                            lm[a]
                        } else {
                            lm[a + 1]
                        });
                        assert(removed[b] == if b < ix {
                            lm[b]
                        } else {
                            lm[b + 1]
                        });
                    } else {
                        assert(removed[a] == if a < ix {
                            lm[a]
                        } else {
                            lm[a + 1]
                        });
                        assert(removed[a].0 != key@);
                    }
                }
            }
        },
        None => {
            let ghost pre = lm;
            l.push(pair);
            proof {
                assert(pairs_view(l@) =~= pre.push((key@, value@)));
                assert(pre.push((key@, value@)).drop_last() =~= pre);
                assert forall|a: int, b: int|
                    0 <= a < b < pre.push((key@, value@)).len() implies (#[trigger] pre.push(
                    (key@, value@),
                )[a]).0 != (#[trigger] pre.push((key@, value@))[b]).0 by {
                    if b == pre.len() {
                        assert(pre[a].0 != key@);
                    }
                }
            }
        },
    }
}

/// The number of bindings; the gravestone holds none.
pub fn z_bytes_map_len(this: &z_owned_bytes_map_t) -> (n: usize)
    ensures
        match this@ {
            None => n == 0,
            Some(l) => n == l.len(),
        },
{
    match &this.inner {
        None => 0,
        Some(l) => l.len(),
    }
}

} // verus!
