//! The order of strings: that of their UTF-8 bytes, compared from the
//! left. Sorted lists without repeats are built and characterised here.

use crate::text::texts;
use vstd::prelude::*;
use vstd::string::*;
use vstd::utf8::{encode_utf8, encode_utf8_decode_utf8};

verus! {

/// `a` comes before `b` on account of position `k`: they agree before
/// `k`, and there `a` ends while `b` goes on, or `a` has the smaller byte.
pub open spec fn bytes_lt_at(a: Seq<u8>, b: Seq<u8>, k: int) -> bool {
    &&& 0 <= k <= a.len()
    &&& k <= b.len()
    &&& forall|i: int| 0 <= i < k ==> a[i] == b[i]
    &&& if k == a.len() {
        k < b.len()
    } else {
        k < b.len() && a[k] < b[k]
    }
}

/// `a` comes before `b` in the order of byte strings.
pub open spec fn bytes_lt(a: Seq<u8>, b: Seq<u8>) -> bool {
    exists|k: int| bytes_lt_at(a, b, k)
}

/// `a` comes before `b` in the order of strings.
pub open spec fn str_lt(a: Seq<char>, b: Seq<char>) -> bool {
    bytes_lt(encode_utf8(a), encode_utf8(b))
}

/// No byte string comes before itself.
pub proof fn lemma_bytes_lt_irreflexive(a: Seq<u8>)
    ensures
        !bytes_lt(a, a),
{
}

/// The order of byte strings is transitive.
pub proof fn lemma_bytes_lt_transitive(a: Seq<u8>, b: Seq<u8>, c: Seq<u8>)
    requires
        bytes_lt(a, b),
        bytes_lt(b, c),
    ensures
        bytes_lt(a, c),
{
    let k1 = choose|k: int| bytes_lt_at(a, b, k);
    let k2 = choose|k: int| bytes_lt_at(b, c, k);
    let k = if k1 <= k2 {
        k1
    } else {
        k2
    };
    assert(bytes_lt_at(a, c, k));
}

/// Of two different byte strings one comes before the other.
pub proof fn lemma_bytes_lt_total(a: Seq<u8>, b: Seq<u8>)
    ensures
        a == b || bytes_lt(a, b) || bytes_lt(b, a),
{
    lemma_first_difference(a, b, 0);
}

/// Two byte strings that agree before `k` are the same, or one comes
/// before the other.
proof fn lemma_first_difference(a: Seq<u8>, b: Seq<u8>, k: int)
    requires
        0 <= k <= a.len(),
        k <= b.len(),
        forall|i: int| 0 <= i < k ==> a[i] == b[i],
    ensures
        a == b || bytes_lt(a, b) || bytes_lt(b, a),
    decreases a.len() - k,
{
    if k == a.len() {
        if k == b.len() {
            assert(a =~= b);
        } else {
            assert(bytes_lt_at(a, b, k));
        }
    } else if k == b.len() {
        assert(bytes_lt_at(b, a, k));
    } else if a[k] < b[k] {
        assert(bytes_lt_at(a, b, k));
    } else if b[k] < a[k] {
        assert(bytes_lt_at(b, a, k));
    } else {
        lemma_first_difference(a, b, k + 1);
    }
}

/// Strings with the same bytes are the same string.
pub proof fn lemma_encoding_is_injective(a: Seq<char>, b: Seq<char>)
    requires
        encode_utf8(a) == encode_utf8(b),
    ensures
        a == b,
{
    encode_utf8_decode_utf8(a);
    encode_utf8_decode_utf8(b);
}

/// How one string stands to another.
#[derive(Clone, Copy, Debug, PartialEq, Eq, Structural)]
pub enum Rank {
    Before,
    Same,
    After,
}

/// Where `a` stands to `b`.
pub open spec fn rank_of(a: Seq<char>, b: Seq<char>) -> Rank {
    if a == b {
        Rank::Same
    } else if str_lt(a, b) {
        Rank::Before
    } else {
        Rank::After
    }
}

/// Compares two strings byte by byte.
pub fn rank(a: &str, b: &str) -> (r: Rank)
    ensures
        r == rank_of(a@, b@),
        r == Rank::After ==> str_lt(b@, a@),
{
    let x = a.as_bytes();
    let y = b.as_bytes();
    let mut i: usize = 0;
    while i < x.len() && i < y.len() && x[i] == y[i]
        invariant
            i <= x.len(),
            i <= y.len(),
            forall|j: int| 0 <= j < i ==> x@[j] == y@[j],
        decreases x.len() - i,
    {
        i = i + 1;
    }
    proof {
        lemma_bytes_lt_irreflexive(x@);
    }
    if i == x.len() {
        if i == y.len() {
            proof {
                assert(x@ =~= y@);
                lemma_encoding_is_injective(a@, b@);
            }
            Rank::Same
        } else {
            assert(bytes_lt_at(x@, y@, i as int));
            Rank::Before
        }
    } else if i == y.len() {
        assert(bytes_lt_at(y@, x@, i as int));
        proof {
            lemma_not_both(y@, x@);
        }
        Rank::After
    } else if x[i] < y[i] {
        assert(bytes_lt_at(x@, y@, i as int));
        Rank::Before
    } else {
        assert(bytes_lt_at(y@, x@, i as int));
        proof {
            lemma_not_both(y@, x@);
        }
        Rank::After
    }
}

/// Of two byte strings at most one comes before the other.
pub proof fn lemma_not_both(a: Seq<u8>, b: Seq<u8>)
    requires
        bytes_lt(a, b),
    ensures
        !bytes_lt(b, a),
{
    if bytes_lt(b, a) {
        lemma_bytes_lt_transitive(a, b, a);
        lemma_bytes_lt_irreflexive(a);
    }
}

/// Each string of the list comes before those that follow it.
pub open spec fn strictly_ascending(keys: Seq<Seq<char>>) -> bool {
    forall|i: int, j: int| 0 <= i < j < keys.len() ==> str_lt(keys[i], keys[j])
}

/// Two lists hold the same strings, whatever their order and however often
/// each occurs.
pub open spec fn same_elements(a: Seq<Seq<char>>, b: Seq<Seq<char>>) -> bool {
    forall|x: Seq<char>| a.contains(x) <==> b.contains(x)
}

/// `keys` is `items` sorted and without repeats.
pub open spec fn is_sorted_set_of(keys: Seq<Seq<char>>, items: Seq<Seq<char>>) -> bool {
    strictly_ascending(keys) && same_elements(keys, items)
}

/// The list that holds the strings of `items`, sorted and each once. There
/// is one such list and no other (`lemma_sorted_set_is_unique`).
pub open spec fn sorted_set(items: Seq<Seq<char>>) -> Seq<Seq<char>> {
    choose|keys: Seq<Seq<char>>| is_sorted_set_of(keys, items)
}

/// Finds where `item` belongs in a sorted list: the number of strings
/// before it, and whether it is there already.
pub fn position(keys: &Vec<String>, item: &str) -> (found: (usize, bool))
    requires
        strictly_ascending(texts(keys@)),
    ensures
        found.0 <= keys.len(),
        forall|i: int| 0 <= i < found.0 ==> str_lt(#[trigger] texts(keys@)[i], item@),
        found.1 ==> found.0 < keys.len() && texts(keys@)[found.0 as int] == item@,
        !found.1 ==> forall|i: int|
            found.0 <= i < keys.len() ==> str_lt(item@, #[trigger] texts(keys@)[i]),
{
    let mut j: usize = 0;
    let mut present = false;
    let mut stop = false;
    while j < keys.len() && !stop
        invariant
            j <= keys.len(),
            strictly_ascending(texts(keys@)),
            forall|i: int| 0 <= i < j ==> str_lt(#[trigger] texts(keys@)[i], item@),
            present ==> stop,
            present ==> j < keys.len() && texts(keys@)[j as int] == item@,
            stop && !present ==> j < keys.len() && str_lt(item@, texts(keys@)[j as int]),
        decreases keys.len() - j + (if stop { 0int } else { 1int }),
    {
        match rank(keys[j].as_str(), item) {
            Rank::Before => {
                j = j + 1;
            },
            Rank::Same => {
                present = true;
                stop = true;
            },
            Rank::After => {
                stop = true;
            },
        }
    }
    proof {
        if !present {
            assert forall|i: int| j <= i < keys.len() implies str_lt(
                item@,
                #[trigger] texts(keys@)[i],
            ) by {
                if i > j {
                    assert(str_lt(texts(keys@)[j as int], texts(keys@)[i]));
                    lemma_bytes_lt_transitive(
                        encode_utf8(item@),
                        encode_utf8(texts(keys@)[j as int]),
                        encode_utf8(texts(keys@)[i]),
                    );
                }
            }
        }
    }
    (j, present)
}

/// A string put between the keys before it and the keys after it keeps
/// the list sorted, and adds itself and nothing else.
pub proof fn lemma_insert_at(keys: Seq<Seq<char>>, j: int, item: Seq<char>)
    requires
        strictly_ascending(keys),
        0 <= j <= keys.len(),
        forall|i: int| 0 <= i < j ==> str_lt(#[trigger] keys[i], item),
        forall|i: int| j <= i < keys.len() ==> str_lt(item, #[trigger] keys[i]),
    ensures
        strictly_ascending(keys.insert(j, item)),
        forall|x: Seq<char>| keys.insert(j, item).contains(x) <==> (keys.contains(x) || x == item),
{
    let larger = keys.insert(j, item);
    assert forall|a: int, b: int| 0 <= a < b < larger.len() implies str_lt(
        larger[a],
        larger[b],
    ) by {
        if b < j {
            assert(str_lt(keys[a], keys[b]));
        } else if b == j {
            assert(str_lt(keys[a], item));
        } else if a < j {
            assert(str_lt(keys[a], keys[b - 1]));
        } else if a == j {
            assert(str_lt(item, keys[b - 1]));
        } else {
            assert(str_lt(keys[a - 1], keys[b - 1]));
        }
    }
    assert forall|x: Seq<char>| larger.contains(x) <==> (keys.contains(x) || x == item) by {
        if larger.contains(x) {
            let i = choose|i: int| 0 <= i < larger.len() && larger[i] == x;
            if i < j {
                assert(keys[i] == x);
            } else if i > j {
                assert(keys[i - 1] == x);
            }
        }
        if keys.contains(x) {
            let i = choose|i: int| 0 <= i < keys.len() && keys[i] == x;
            if i < j {
                assert(larger[i] == x);
            } else {
                assert(larger[i + 1] == x);
            }
        }
        if x == item {
            assert(larger[j] == x);
        }
    }
}

/// A list with one more string at its end holds what it held before and
/// that string.
pub proof fn lemma_push_adds(items: Seq<Seq<char>>, item: Seq<char>)
    ensures
        forall|x: Seq<char>| items.push(item).contains(x) <==> (items.contains(x) || x == item),
{
    let longer = items.push(item);
    assert forall|x: Seq<char>| longer.contains(x) <==> (items.contains(x) || x == item) by {
        if longer.contains(x) {
            let i = choose|i: int| 0 <= i < longer.len() && longer[i] == x;
            if i < items.len() {
                assert(items[i] == x);
            }
        }
        if items.contains(x) {
            let i = choose|i: int| 0 <= i < items.len() && items[i] == x;
            assert(longer[i] == x);
        }
        if x == item {
            assert(longer[items.len() as int] == x);
        }
    }
}

/// Sorts a list of strings and drops the repeats.
pub fn sorted_unique(items: &Vec<String>) -> (keys: Vec<String>)
    ensures
        is_sorted_set_of(texts(keys@), texts(items@)),
        texts(keys@) == sorted_set(texts(items@)),
{
    let mut keys: Vec<String> = Vec::new();
    let mut n: usize = 0;
    while n < items.len()
        invariant
            n <= items.len(),
            strictly_ascending(texts(keys@)),
            same_elements(texts(keys@), texts(items@).take(n as int)),
        decreases items.len() - n,
    {
        let item = &items[n];
        let ghost old_keys = texts(keys@);
        let ghost seen = texts(items@).take(n as int);
        let (j, present) = position(&keys, item.as_str());
        proof {
            assert(texts(items@).take(n + 1) =~= seen.push(item@));
            lemma_push_adds(seen, item@);
        }
        if present {
            assert(old_keys.contains(item@));
        } else {
            keys.insert(j, item.clone());
            proof {
                assert(texts(keys@) =~= old_keys.insert(j as int, item@));
                lemma_insert_at(old_keys, j as int, item@);
            }
        }
        proof {
            let now = texts(items@).take(n + 1);
            assert forall|x: Seq<char>| texts(keys@).contains(x) <==> now.contains(x) by {
                assert(old_keys.contains(x) <==> seen.contains(x));
                assert(now.contains(x) <==> (seen.contains(x) || x == item@));
            }
        }
        n = n + 1;
    }
    proof {
        assert(texts(items@).take(n as int) =~= texts(items@));
        lemma_sorted_set_exists(texts(items@));
        lemma_same_elements_chain(texts(keys@), texts(items@), sorted_set(texts(items@)));
        lemma_sorted_set_is_unique(texts(keys@), sorted_set(texts(items@)));
    }
    keys
}

/// Lists that hold the same strings as a third hold the same strings.
pub proof fn lemma_same_elements_chain(
    a: Seq<Seq<char>>,
    b: Seq<Seq<char>>,
    c: Seq<Seq<char>>,
)
    requires
        same_elements(a, b),
        same_elements(c, b),
    ensures
        same_elements(a, c),
{
    assert forall|x: Seq<char>| a.contains(x) <==> c.contains(x) by {
        assert(a.contains(x) <==> b.contains(x));
        assert(c.contains(x) <==> b.contains(x));
    }
}

/// Two sorted lists without repeats that hold the same strings are the
/// same list.
pub proof fn lemma_sorted_set_is_unique(one: Seq<Seq<char>>, other: Seq<Seq<char>>)
    requires
        strictly_ascending(one),
        strictly_ascending(other),
        same_elements(one, other),
    ensures
        one == other,
    decreases one.len(),
{
    if one.len() == 0 {
        if other.len() > 0 {
            assert(other.contains(other[0]));
        }
        assert(one =~= other);
    } else if other.len() == 0 {
        assert(one.contains(one[0]));
    } else {
        let a = one.last();
        let b = other.last();
        assert(one.contains(a));
        assert(other.contains(b));
        let j = choose|j: int| 0 <= j < other.len() && other[j] == a;
        let i = choose|i: int| 0 <= i < one.len() && one[i] == b;
        lemma_bytes_lt_irreflexive(encode_utf8(a));
        if j < other.len() - 1 {
            assert(str_lt(other[j], other[other.len() - 1]));
            if i < one.len() - 1 {
                assert(str_lt(one[i], one[one.len() - 1]));
                lemma_not_both(encode_utf8(a), encode_utf8(b));
            }
        }
        assert(a == b);
        let one_rest = one.drop_last();
        let other_rest = other.drop_last();
        assert forall|x: Seq<char>| one_rest.contains(x) <==> other_rest.contains(x) by {
            lemma_bytes_lt_irreflexive(encode_utf8(x));
            if one_rest.contains(x) {
                let k = choose|k: int| 0 <= k < one_rest.len() && one_rest[k] == x;
                assert(one[k] == x);
                assert(one.contains(x));
                let m = choose|m: int| 0 <= m < other.len() && other[m] == x;
                assert(str_lt(one[k], one[one.len() - 1]));
                assert(other_rest[m] == x);
            }
            if other_rest.contains(x) {
                let k = choose|k: int| 0 <= k < other_rest.len() && other_rest[k] == x;
                assert(other[k] == x);
                assert(other.contains(x));
                let m = choose|m: int| 0 <= m < one.len() && one[m] == x;
                assert(str_lt(other[k], other[other.len() - 1]));
                assert(one_rest[m] == x);
            }
        }
        assert(strictly_ascending(one_rest)) by {
            assert forall|p: int, q: int| 0 <= p < q < one_rest.len() implies str_lt(
                one_rest[p],
                one_rest[q],
            ) by {
                assert(str_lt(one[p], one[q]));
            }
        }
        assert(strictly_ascending(other_rest)) by {
            assert forall|p: int, q: int| 0 <= p < q < other_rest.len() implies str_lt(
                other_rest[p],
                other_rest[q],
            ) by {
                assert(str_lt(other[p], other[q]));
            }
        }
        lemma_sorted_set_is_unique(one_rest, other_rest);
        assert(one =~= one_rest.push(a));
        assert(other =~= other_rest.push(b));
    }
}

/// A sorted list without repeats has room for one more string.
pub proof fn lemma_insert_exists(keys: Seq<Seq<char>>, item: Seq<char>) -> (larger: Seq<Seq<char>>)
    requires
        strictly_ascending(keys),
        !keys.contains(item),
    ensures
        strictly_ascending(larger),
        forall|x: Seq<char>| larger.contains(x) <==> (keys.contains(x) || x == item),
    decreases keys.len(),
{
    if keys.len() == 0 {
        let larger = seq![item];
        assert(larger[0] == item);
        larger
    } else {
        let last = keys.last();
        let rest = keys.drop_last();
        assert(keys.contains(last));
        lemma_bytes_lt_total(encode_utf8(last), encode_utf8(item));
        if encode_utf8(last) == encode_utf8(item) {
            lemma_encoding_is_injective(last, item);
        }
        assert forall|x: Seq<char>| rest.contains(x) implies keys.contains(x) && str_lt(x, last) by {
            let i = choose|i: int| 0 <= i < rest.len() && rest[i] == x;
            assert(keys[i] == x);
            assert(str_lt(keys[i], keys[keys.len() - 1]));
        }
        if str_lt(last, item) {
            let larger = keys.push(item);
            assert forall|a: int, b: int| 0 <= a < b < larger.len() implies str_lt(
                larger[a],
                larger[b],
            ) by {
                if b == keys.len() {
                    if a < keys.len() - 1 {
                        assert(str_lt(keys[a], keys[keys.len() - 1]));
                        lemma_bytes_lt_transitive(
                            encode_utf8(keys[a]),
                            encode_utf8(last),
                            encode_utf8(item),
                        );
                    }
                } else {
                    assert(str_lt(keys[a], keys[b]));
                }
            }
            assert forall|x: Seq<char>| larger.contains(x) <==> (keys.contains(x) || x == item) by {
                if larger.contains(x) {
                    let i = choose|i: int| 0 <= i < larger.len() && larger[i] == x;
                    if i < keys.len() {
                        assert(keys[i] == x);
                    }
                }
                if keys.contains(x) {
                    let i = choose|i: int| 0 <= i < keys.len() && keys[i] == x;
                    assert(larger[i] == x);
                }
                if x == item {
                    assert(larger[keys.len() as int] == x);
                }
            }
            larger
        } else {
            assert(str_lt(item, last));
            assert(strictly_ascending(rest)) by {
                assert forall|a: int, b: int| 0 <= a < b < rest.len() implies str_lt(
                    rest[a],
                    rest[b],
                ) by {
                    assert(str_lt(keys[a], keys[b]));
                }
            }
            assert(!rest.contains(item));
            let inner = lemma_insert_exists(rest, item);
            let larger = inner.push(last);
            assert forall|a: int, b: int| 0 <= a < b < larger.len() implies str_lt(
                larger[a],
                larger[b],
            ) by {
                if b == inner.len() {
                    assert(inner.contains(inner[a]));
                } else {
                    assert(str_lt(inner[a], inner[b]));
                }
            }
            assert forall|x: Seq<char>| larger.contains(x) <==> (keys.contains(x) || x == item) by {
                if larger.contains(x) {
                    let i = choose|i: int| 0 <= i < larger.len() && larger[i] == x;
                    if i < inner.len() {
                        assert(inner[i] == x);
                        assert(inner.contains(x));
                    }
                }
                if keys.contains(x) {
                    let i = choose|i: int| 0 <= i < keys.len() && keys[i] == x;
                    if i < keys.len() - 1 {
                        assert(rest[i] == x);
                        assert(rest.contains(x));
                        assert(inner.contains(x));
                        let m = choose|m: int| 0 <= m < inner.len() && inner[m] == x;
                        assert(larger[m] == x);
                    } else {
                        assert(larger[inner.len() as int] == x);
                    }
                }
                if x == item {
                    assert(inner.contains(x));
                    let m = choose|m: int| 0 <= m < inner.len() && inner[m] == x;
                    assert(larger[m] == x);
                }
            }
            larger
        }
    }
}

/// Every list has a sorted set: `sorted_set` names it.
pub proof fn lemma_sorted_set_exists(items: Seq<Seq<char>>)
    ensures
        is_sorted_set_of(sorted_set(items), items),
    decreases items.len(),
{
    if items.len() == 0 {
        let keys = Seq::<Seq<char>>::empty();
        assert(is_sorted_set_of(keys, items));
    } else {
        let rest = items.drop_last();
        let last = items.last();
        lemma_sorted_set_exists(rest);
        let keys = sorted_set(rest);
        let larger = if keys.contains(last) {
            keys
        } else {
            lemma_insert_exists(keys, last)
        };
        assert forall|x: Seq<char>| larger.contains(x) <==> items.contains(x) by {
            assert(keys.contains(x) <==> rest.contains(x));
            if rest.contains(x) {
                let i = choose|i: int| 0 <= i < rest.len() && rest[i] == x;
                assert(items[i] == x);
            }
            if items.contains(x) {
                let i = choose|i: int| 0 <= i < items.len() && items[i] == x;
                if i < items.len() - 1 {
                    assert(rest[i] == x);
                }
            }
            if x == last {
                assert(items[items.len() - 1] == x);
            }
        }
        assert(is_sorted_set_of(larger, items));
    }
}

/// The sorted set of a sorted set is that set: sorting and dropping
/// repeats a second time changes nothing.
pub proof fn lemma_sorted_set_is_idempotent(items: Seq<Seq<char>>)
    ensures
        sorted_set(sorted_set(items)) == sorted_set(items),
{
    lemma_sorted_set_exists(items);
    lemma_sorted_set_exists(sorted_set(items));
    lemma_sorted_set_is_unique(sorted_set(sorted_set(items)), sorted_set(items));
}

/// Lists that hold the same strings have the same sorted set, whatever
/// their order and however often a string occurs in them.
pub proof fn lemma_sorted_set_ignores_order(items: Seq<Seq<char>>, other: Seq<Seq<char>>)
    requires
        same_elements(items, other),
    ensures
        sorted_set(items) == sorted_set(other),
{
    lemma_sorted_set_exists(items);
    lemma_sorted_set_exists(other);
    assert forall|x: Seq<char>| sorted_set(items).contains(x) <==> sorted_set(other).contains(
        x,
    ) by {
        assert(sorted_set(items).contains(x) <==> items.contains(x));
        assert(sorted_set(other).contains(x) <==> other.contains(x));
    }
    lemma_sorted_set_is_unique(sorted_set(items), sorted_set(other));
}

} // verus!
