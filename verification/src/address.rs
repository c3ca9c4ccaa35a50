use vstd::prelude::*;
use vstd::slice::slice_to_vec;
use vstd::std_specs::cmp::PartialEqSpecImpl;
use vstd::string::StringSliceAdditionalSpecFns;

verus! {

/// The name of a routable endpoint. It is fixed when the address is made and
/// is told apart from other addresses by its bytes alone.
#[derive(Debug)]
pub struct Address {
    inner: Vec<u8>,
}

impl View for Address {
    type V = Seq<u8>;

    closed spec fn view(&self) -> Seq<u8> {
        self.inner@
    }
}

/// The names of a sequence of addresses, in the same order.
pub open spec fn names(addresses: Seq<Address>) -> Seq<Seq<u8>> {
    addresses.map_values(|a: Address| a@)
}

/// The order of names: byte by byte from the front, a proper prefix before
/// what it is a prefix of.
pub open spec fn precedes(a: Seq<u8>, b: Seq<u8>) -> bool
    decreases a.len(),
{
    if b.len() == 0 {
        false
    } else if a.len() == 0 {
        true
    } else if a[0] != b[0] {
        a[0] < b[0]
    } else {
        precedes(a.drop_first(), b.drop_first())
    }
}

/// Each name comes before all that follow it; so no name occurs twice.
pub open spec fn strictly_sorted(s: Seq<Seq<u8>>) -> bool {
    forall|i: int, j: int| 0 <= i < j < s.len() ==> precedes(#[trigger] s[i], #[trigger] s[j])
}

/// A sorted sequence with `x` put in its place, unless it is there already.
pub open spec fn insert_sorted(s: Seq<Seq<u8>>, x: Seq<u8>) -> Seq<Seq<u8>>
    decreases s.len(),
{
    if s.len() == 0 {
        seq![x]
    } else if s[0] == x {
        s
    } else if precedes(x, s[0]) {
        seq![x] + s
    } else {
        seq![s[0]] + insert_sorted(s.drop_first(), x)
    }
}

/// The names of `s` in order, each once.
pub open spec fn sorted_unique(s: Seq<Seq<u8>>) -> Seq<Seq<u8>>
    decreases s.len(),
{
    if s.len() == 0 {
        Seq::empty()
    } else {
        insert_sorted(sorted_unique(s.drop_last()), s.last())
    }
}

/// The place of the first of `keys` that equals `key`, or the length of
/// `keys` if none does.
pub open spec fn position(keys: Seq<Seq<u8>>, key: Seq<u8>) -> int
    decreases keys.len(),
{
    if keys.len() == 0 {
        0
    } else if keys[0] == key {
        0
    } else {
        1 + position(keys.drop_first(), key)
    }
}

/// A place with the key, before which the key does not occur, is the
/// position of the key; so is the length, if the key occurs nowhere.
pub proof fn lemma_position(keys: Seq<Seq<u8>>, key: Seq<u8>, p: int)
    requires
        0 <= p <= keys.len(),
        forall|j: int| 0 <= j < p ==> keys[j] != key,
        p < keys.len() ==> keys[p] == key,
    ensures
        position(keys, key) == p,
    decreases keys.len(),
{
    if keys.len() > 0 && p > 0 {
        assert(keys[0] != key);
        let rest = keys.drop_first();
        assert forall|j: int| 0 <= j < p - 1 implies rest[j] != key by {
            assert(rest[j] == keys[j + 1]);
        }
        lemma_position(rest, key, p - 1);
    }
}

/// The position of a key is within the keys or just behind them; the key
/// stands there, and nowhere before.
pub proof fn lemma_position_is_first(keys: Seq<Seq<u8>>, key: Seq<u8>)
    ensures
        0 <= position(keys, key) <= keys.len(),
        position(keys, key) < keys.len() ==> keys[position(keys, key)] == key,
        forall|j: int| 0 <= j < position(keys, key) ==> keys[j] != key,
    decreases keys.len(),
{
    if keys.len() > 0 && keys[0] != key {
        let rest = keys.drop_first();
        lemma_position_is_first(rest, key);
        assert forall|j: int| 0 <= j < position(keys, key) implies keys[j] != key by {
            if j > 0 {
                assert(keys[j] == rest[j - 1]);
            }
        }
    }
}

/// No name occurs twice.
pub open spec fn distinct(list: Seq<Seq<u8>>) -> bool {
    forall|i: int, j: int| 0 <= i < j < list.len() ==> list[i] != list[j]
}

/// Names that differ from each other still do when one is added that has no
/// position among them.
pub proof fn lemma_distinct_after_push(keys: Seq<Seq<u8>>, key: Seq<u8>)
    requires
        distinct(keys),
        position(keys, key) >= keys.len(),
    ensures
        distinct(keys.push(key)),
{
    lemma_position_is_first(keys, key);
}

/// No name comes before itself.
pub proof fn lemma_precedes_irreflexive(a: Seq<u8>)
    ensures
        !precedes(a, a),
    decreases a.len(),
{
    if a.len() > 0 {
        lemma_precedes_irreflexive(a.drop_first());
    }
}

/// Of two different names one comes before the other.
pub proof fn lemma_precedes_total(a: Seq<u8>, b: Seq<u8>)
    ensures
        a == b || precedes(a, b) || precedes(b, a),
    decreases a.len(),
{
    if a.len() > 0 && b.len() > 0 && a[0] == b[0] {
        lemma_precedes_total(a.drop_first(), b.drop_first());
        if a.drop_first() == b.drop_first() {
            assert(a =~= seq![a[0]] + a.drop_first());
            assert(b =~= seq![b[0]] + b.drop_first());
        }
    } else if a.len() == 0 && b.len() == 0 {
        assert(a =~= b);
    }
}

/// The order of names is transitive.
pub proof fn lemma_precedes_transitive(a: Seq<u8>, b: Seq<u8>, c: Seq<u8>)
    requires
        precedes(a, b),
        precedes(b, c),
    ensures
        precedes(a, c),
    decreases a.len(),
{
    if a.len() > 0 && a[0] == b[0] && b[0] == c[0] {
        lemma_precedes_transitive(a.drop_first(), b.drop_first(), c.drop_first());
    }
}

/// No two names come before each other.
pub proof fn lemma_precedes_asymmetric(a: Seq<u8>, b: Seq<u8>)
    requires
        precedes(a, b),
    ensures
        !precedes(b, a),
{
    if precedes(b, a) {
        lemma_precedes_transitive(a, b, a);
        lemma_precedes_irreflexive(a);
    }
}

/// Where `x` goes in a sorted sequence: after all that come before it, and
/// nowhere if it is there.
pub proof fn lemma_insert_sorted_at(s: Seq<Seq<u8>>, x: Seq<u8>, p: int)
    requires
        strictly_sorted(s),
        0 <= p <= s.len(),
        forall|i: int| 0 <= i < p ==> precedes(#[trigger] s[i], x),
        p < s.len() ==> s[p] == x || precedes(x, s[p]),
    ensures
        p < s.len() && s[p] == x ==> insert_sorted(s, x) == s,
        !(p < s.len() && s[p] == x) ==> insert_sorted(s, x) == s.insert(p, x),
    decreases s.len(),
{
    if s.len() == 0 {
        assert(s.insert(p, x) =~= seq![x]);
    } else if p == 0 {
        if s[0] != x {
            assert(s.insert(0, x) =~= seq![x] + s);
        }
    } else {
        let t = s.drop_first();
        assert(precedes(s[0], x));
        lemma_precedes_irreflexive(x);
        lemma_precedes_asymmetric(s[0], x);
        assert(strictly_sorted(t)) by {
            assert forall|i: int, j: int| 0 <= i < j < t.len() implies precedes(
                #[trigger] t[i],
                #[trigger] t[j],
            ) by {
                assert(t[i] == s[i + 1] && t[j] == s[j + 1]);
            }
        }
        assert forall|i: int| 0 <= i < p - 1 implies precedes(#[trigger] t[i], x) by {
            assert(t[i] == s[i + 1]);
        }
        lemma_insert_sorted_at(t, x, p - 1);
        if p < s.len() && s[p] == x {
            assert(seq![s[0]] + t =~= s);
        } else {
            assert(seq![s[0]] + t.insert(p - 1, x) =~= s.insert(p, x));
        }
    }
}

/// Putting a name into a sorted sequence keeps it sorted and adds that name
/// to what it holds, nothing else.
pub proof fn lemma_insert_sorted(s: Seq<Seq<u8>>, x: Seq<u8>)
    requires
        strictly_sorted(s),
    ensures
        strictly_sorted(insert_sorted(s, x)),
        forall|y: Seq<u8>|
            #![trigger insert_sorted(s, x).contains(y)]
            #![trigger s.contains(y)]
            insert_sorted(s, x).contains(y) <==> (y == x || s.contains(y)),
    decreases s.len(),
{
    let r = insert_sorted(s, x);
    if s.len() == 0 {
        assert(r[0] == x);
        assert forall|y: Seq<u8>| r.contains(y) <==> (y == x || s.contains(y)) by {
            if r.contains(y) {
                let k = choose|k: int| 0 <= k < r.len() && r[k] == y;
            }
        }
    } else if s[0] == x {
        assert(s.contains(x));
    } else if precedes(x, s[0]) {
        assert forall|i: int, j: int| 0 <= i < j < r.len() implies precedes(
            #[trigger] r[i],
            #[trigger] r[j],
        ) by {
            if i == 0 {
                assert(r[j] == s[j - 1]);
                if j - 1 > 0 {
                    lemma_precedes_transitive(x, s[0], s[j - 1]);
                }
            } else {
                assert(r[i] == s[i - 1] && r[j] == s[j - 1]);
            }
        }
        assert forall|y: Seq<u8>| r.contains(y) <==> (y == x || s.contains(y)) by {
            if r.contains(y) {
                let k = choose|k: int| 0 <= k < r.len() && r[k] == y;
                if k > 0 {
                    assert(s[k - 1] == y);
                }
            }
            if y == x {
                assert(r[0] == y);
            }
            if s.contains(y) {
                let k = choose|k: int| 0 <= k < s.len() && s[k] == y;
                assert(r[k + 1] == y);
            }
        }
    } else {
        let t = s.drop_first();
        let u = insert_sorted(t, x);
        assert(strictly_sorted(t)) by {
            assert forall|i: int, j: int| 0 <= i < j < t.len() implies precedes(
                #[trigger] t[i],
                #[trigger] t[j],
            ) by {
                assert(t[i] == s[i + 1] && t[j] == s[j + 1]);
            }
        }
        lemma_insert_sorted(t, x);
        lemma_precedes_total(s[0], x);
        assert(precedes(s[0], x));
        assert forall|y: Seq<u8>| r.contains(y) <==> (y == x || s.contains(y)) by {
            if r.contains(y) {
                let k = choose|k: int| 0 <= k < r.len() && r[k] == y;
                if k > 0 {
                    assert(u[k - 1] == y);
                    assert(u.contains(y));
                    if t.contains(y) {
                        let m = choose|m: int| 0 <= m < t.len() && t[m] == y;
                        assert(s[m + 1] == y);
                    }
                } else {
                    assert(s[0] == y);
                }
            }
            if y == x {
                assert(u.contains(y));
                let k = choose|k: int| 0 <= k < u.len() && u[k] == y;
                assert(r[k + 1] == y);
            }
            if s.contains(y) {
                let k = choose|k: int| 0 <= k < s.len() && s[k] == y;
                if k == 0 {
                    assert(r[0] == y);
                } else {
                    assert(t[k - 1] == y);
                    assert(t.contains(y));
                    assert(u.contains(y));
                    let m = choose|m: int| 0 <= m < u.len() && u[m] == y;
                    assert(r[m + 1] == y);
                }
            }
        }
        assert forall|i: int, j: int| 0 <= i < j < r.len() implies precedes(
            #[trigger] r[i],
            #[trigger] r[j],
        ) by {
            if i == 0 {
                assert(r[j] == u[j - 1]);
                assert(u.contains(u[j - 1]));
                if u[j - 1] != x {
                    assert(t.contains(u[j - 1]));
                    let m = choose|m: int| 0 <= m < t.len() && t[m] == u[j - 1];
                    assert(s[m + 1] == u[j - 1]);
                }
            } else {
                assert(r[i] == u[i - 1] && r[j] == u[j - 1]);
            }
        }
    }
}

/// Sorting with duplicates removed gives a strictly sorted sequence that
/// holds exactly the names of the input.
pub proof fn lemma_sorted_unique(s: Seq<Seq<u8>>)
    ensures
        strictly_sorted(sorted_unique(s)),
        forall|y: Seq<u8>|
            #![trigger sorted_unique(s).contains(y)]
            #![trigger s.contains(y)]
            sorted_unique(s).contains(y) <==> s.contains(y),
    decreases s.len(),
{
    if s.len() > 0 {
        let t = s.drop_last();
        lemma_sorted_unique(t);
        lemma_insert_sorted(sorted_unique(t), s.last());
        assert forall|y: Seq<u8>| sorted_unique(s).contains(y) <==> s.contains(y) by {
            if s.contains(y) {
                let k = choose|k: int| 0 <= k < s.len() && s[k] == y;
                if k < s.len() - 1 {
                    assert(t[k] == y);
                    assert(t.contains(y));
                }
            }
            if t.contains(y) {
                let k = choose|k: int| 0 <= k < t.len() && t[k] == y;
                assert(s[k] == y);
            }
            if y == s.last() {
                assert(s[s.len() - 1] == y);
            }
        }
    } else {
        assert forall|y: Seq<u8>| sorted_unique(s).contains(y) <==> s.contains(y) by {}
    }
}

impl Clone for Address {
    fn clone(&self) -> (copy: Address)
        ensures
            copy@ == self@,
    {
        Address { inner: slice_to_vec(self.inner.as_slice()) }
    }
}

impl PartialEq for Address {
    fn eq(&self, other: &Address) -> (same: bool) {
        self.equals(other)
    }
}

impl PartialEqSpecImpl for Address {
    open spec fn obeys_eq_spec() -> bool {
        true
    }

    open spec fn eq_spec(&self, other: &Address) -> bool {
        self@ == other@
    }
}

impl Address {
    /// The address with the given bytes for its name.
    pub fn new(name: Vec<u8>) -> (address: Address)
        ensures
            address@ == name@,
    {
        Address { inner: name }
    }

    /// The address named by the bytes of `name`.
    pub fn from_string(name: &str) -> (address: Address)
        ensures
            address@ == name.spec_bytes(),
    {
        Address { inner: slice_to_vec(name.as_bytes()) }
    }

    /// The bytes of the name.
    pub fn as_bytes(&self) -> (bytes: &[u8])
        ensures
            bytes@ == self@,
    {
        self.inner.as_slice()
    }

    /// Whether two addresses bear the same name.
    pub fn equals(&self, other: &Address) -> (same: bool)
        ensures
            same == (self@ == other@),
    {
        if self.inner.len() != other.inner.len() {
            return false;
        }
        let mut i: usize = 0;
        while i < self.inner.len()
            invariant
                i <= self.inner.len(),
                self.inner.len() == other.inner.len(),
                forall|k: int| 0 <= k < i ==> self.inner@[k] == other.inner@[k],
            decreases self.inner.len() - i,
        {
            if self.inner[i] != other.inner[i] {
                return false;
            }
            i += 1;
        }
        assert(self.inner@ =~= other.inner@);
        true
    }

    /// Whether this address comes before `other` in the order of names.
    pub fn precedes(&self, other: &Address) -> (before: bool)
        ensures
            before == precedes(self@, other@),
    {
        let mut i: usize = 0;
        assert(self@.skip(0) =~= self@ && other@.skip(0) =~= other@);
        loop
            invariant
                i <= self.inner.len(),
                i <= other.inner.len(),
                precedes(self@, other@) == precedes(self@.skip(i as int), other@.skip(i as int)),
            decreases self.inner.len() - i,
        {
            if i >= other.inner.len() {
                return false;
            }
            if i >= self.inner.len() {
                return true;
            }
            if self.inner[i] != other.inner[i] {
                return self.inner[i] < other.inner[i];
            }
            proof {
                assert(self@.skip(i as int).drop_first() =~= self@.skip(i + 1));
                assert(other@.skip(i as int).drop_first() =~= other@.skip(i + 1));
            }
            i += 1;
        }
    }
}

/// A copy of `list`, name for name.
pub fn clone_addresses(list: &Vec<Address>) -> (copy: Vec<Address>)
    ensures
        names(copy@) == names(list@),
{
    let mut copy: Vec<Address> = Vec::new();
    let mut i: usize = 0;
    while i < list.len()
        invariant
            i <= list.len(),
            copy@.len() == i,
            forall|k: int| 0 <= k < i ==> (#[trigger] copy@[k])@ == list@[k]@,
        decreases list.len() - i,
    {
        copy.push(list[i].clone());
        i += 1;
    }
    assert(names(copy@) =~= names(list@));
    copy
}

/// Whether `address` is one of `list`.
pub fn contains_address(list: &Vec<Address>, address: &Address) -> (found: bool)
    ensures
        found == names(list@).contains(address@),
{
    let mut i: usize = 0;
    while i < list.len()
        invariant
            i <= list.len(),
            forall|k: int| 0 <= k < i ==> list@[k]@ != address@,
        decreases list.len() - i,
    {
        if list[i].equals(address) {
            assert(names(list@)[i as int] == address@);
            return true;
        }
        i += 1;
    }
    false
}

/// The addresses of `list` in the order of names, each name once.
pub fn sort_dedup(list: &Vec<Address>) -> (sorted: Vec<Address>)
    ensures
        names(sorted@) == sorted_unique(names(list@)),
        strictly_sorted(names(sorted@)),
        forall|name: Seq<u8>| names(sorted@).contains(name) <==> names(list@).contains(name),
{
    let mut sorted: Vec<Address> = Vec::new();
    let mut i: usize = 0;
    assert(names(list@).take(0) =~= Seq::empty());
    assert(names(sorted@) =~= Seq::empty());
    while i < list.len()
        invariant
            i <= list.len(),
            names(sorted@) == sorted_unique(names(list@).take(i as int)),
        decreases list.len() - i,
    {
        let ghost before = names(sorted@);
        proof {
            lemma_sorted_unique(names(list@).take(i as int));
        }
        let mut p: usize = 0;
        while p < sorted.len() && sorted[p].precedes(&list[i])
            invariant
                p <= sorted.len(),
                i < list.len(),
                names(sorted@) == before,
                forall|k: int| 0 <= k < p ==> precedes(#[trigger] before[k], list@[i as int]@),
            decreases sorted.len() - p,
        {
            assert(before[p as int] == sorted@[p as int]@);
            p += 1;
        }
        let present = p < sorted.len() && sorted[p].equals(&list[i]);
        proof {
            if p < sorted.len() {
                assert(before[p as int] == sorted@[p as int]@);
                lemma_precedes_total(before[p as int], list@[i as int]@);
            }
            lemma_insert_sorted_at(before, list@[i as int]@, p as int);
            assert(names(list@).take(i + 1).drop_last() =~= names(list@).take(i as int));
            assert(names(list@).take(i + 1).last() == list@[i as int]@);
        }
        if !present {
            sorted.insert(p, list[i].clone());
            assert(names(sorted@) =~= before.insert(p as int, list@[i as int]@));
        }
        i += 1;
    }
    proof {
        assert(names(list@).take(list.len() as int) =~= names(list@));
        lemma_sorted_unique(names(list@));
    }
    sorted
}

} // verus!
