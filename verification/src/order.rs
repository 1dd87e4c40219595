//! The byte order of strings, and sorted sets of names kept in that order.
//!
//! Strings are ordered as `String`'s `Ord` orders them: lexicographically by
//! their UTF-8 bytes.

use vstd::prelude::*;
use vstd::utf8::{encode_utf8, encode_utf8_decode_utf8};

verus! {

/// `a` and `b` agree on their first `k` bytes.
pub open spec fn agree(a: Seq<u8>, b: Seq<u8>, k: int) -> bool {
    forall|i: int| 0 <= i < k ==> a[i] == b[i]
}

/// `a` comes before `b` in lexicographic byte order.
pub open spec fn bytes_lt(a: Seq<u8>, b: Seq<u8>) -> bool {
    exists|k: int| #![trigger agree(a, b, k)]
        0 <= k <= a.len() && k <= b.len() && agree(a, b, k) && ((k == a.len() && k < b.len()) || (
        k < a.len() && k < b.len() && a[k] < b[k]))
}

/// The bytes a name is ordered by.
pub open spec fn name_bytes(name: Seq<char>) -> Seq<u8> {
    encode_utf8(name)
}

/// `a` comes before `b` in the byte order of names.
pub open spec fn name_lt(a: Seq<char>, b: Seq<char>) -> bool {
    bytes_lt(name_bytes(a), name_bytes(b))
}

/// Names sorted strictly ascending in byte order (so without repeats).
pub open spec fn sorted_names(names: Seq<Seq<char>>) -> bool {
    forall|i: int, j: int| 0 <= i < j < names.len() ==> name_lt(names[i], names[j])
}

/// The names held by a vector of strings.
pub open spec fn names_view(names: Seq<String>) -> Seq<Seq<char>> {
    names.map_values(|n: String| n@)
}

/// The byte order is transitive.
pub proof fn lemma_bytes_lt_transitive(a: Seq<u8>, b: Seq<u8>, c: Seq<u8>)
    requires
        bytes_lt(a, b),
        bytes_lt(b, c),
    ensures
        bytes_lt(a, c),
{
    let k1 = choose|k: int|
        #![trigger agree(a, b, k)]
        0 <= k <= a.len() && k <= b.len() && agree(a, b, k) && ((k == a.len() && k < b.len()) || (
        k < a.len() && k < b.len() && a[k] < b[k]));
    let k2 = choose|k: int|
        #![trigger agree(b, c, k)]
        0 <= k <= b.len() && k <= c.len() && agree(b, c, k) && ((k == b.len() && k < c.len()) || (
        k < b.len() && k < c.len() && b[k] < c[k]));
    let k = if k1 <= k2 { k1 } else { k2 };
    assert(agree(a, c, k));
}

/// A list of names sorted in byte order is fixed by the set of its names: two
/// such lists that hold the same names are equal.
pub proof fn law_sorted_names_unique(a: Seq<Seq<char>>, b: Seq<Seq<char>>)
    requires
        sorted_names(a),
        sorted_names(b),
        a.to_set() == b.to_set(),
    ensures
        a == b,
    decreases a.len(),
{
    if a.len() == 0 {
        if b.len() > 0 {
            assert(b.to_set().contains(b[0]));
        }
        assert(a =~= b);
    } else {
        assert(a.to_set().contains(a[0]));
        assert(b.len() > 0);
        let ia = choose|i: int| 0 <= i < b.len() && b[i] == a[0];
        assert(b.to_set().contains(b[0]));
        let ib = choose|i: int| 0 <= i < a.len() && a[i] == b[0];
        if a[0] != b[0] {
            assert(ia > 0 && ib > 0);
            assert(name_lt(b[0], a[0]));
            assert(name_lt(a[0], b[0]));
            lemma_bytes_lt_transitive(name_bytes(a[0]), name_bytes(b[0]), name_bytes(a[0]));
            assert(false);
        }
        let ra = a.drop_first();
        let rb = b.drop_first();
        assert(ra.to_set() =~= rb.to_set()) by {
            assert forall|x: Seq<char>| ra.to_set().contains(x) implies rb.to_set().contains(x) by {
                let i = choose|i: int| 0 <= i < ra.len() && ra[i] == x;
                assert(a[i + 1] == x);
                assert(name_lt(a[0], a[i + 1]));
                assert(a.to_set().contains(x));
                let j = choose|j: int| 0 <= j < b.len() && b[j] == x;
                assert(j != 0);
                assert(rb[j - 1] == x);
            }
            assert forall|x: Seq<char>| rb.to_set().contains(x) implies ra.to_set().contains(x) by {
                let i = choose|i: int| 0 <= i < rb.len() && rb[i] == x;
                assert(b[i + 1] == x);
                assert(name_lt(b[0], b[i + 1]));
                assert(b.to_set().contains(x));
                let j = choose|j: int| 0 <= j < a.len() && a[j] == x;
                assert(j != 0);
                assert(ra[j - 1] == x);
            }
        }
        law_sorted_names_unique(ra, rb);
        assert(a =~= b) by {
            assert(a =~= seq![a[0]] + ra);
            assert(b =~= seq![b[0]] + rb);
        }
    }
}

/// Results of comparing two byte strings.
pub enum Order {
    /// The first comes before the second.
    Less,
    /// They are equal.
    Equal,
    /// The first comes after the second.
    Greater,
}

/// Compares two byte strings lexicographically.
pub fn compare_bytes(a: &[u8], b: &[u8]) -> (r: Order)
    ensures
        r is Less <==> bytes_lt(a@, b@),
        r is Equal <==> a@ == b@,
        r is Greater <==> bytes_lt(b@, a@),
{
    let mut k: usize = 0;
    while k < a.len() && k < b.len() && a[k] == b[k]
        invariant
            k <= a@.len(),
            k <= b@.len(),
            agree(a@, b@, k as int),
        decreases a@.len() - k,
    {
        k += 1;
    }
    proof {
        assert(agree(b@, a@, k as int));
    }
    if k < a.len() && k < b.len() {
        if a[k] < b[k] {
            proof {
                assert(a@ != b@);
                if bytes_lt(b@, a@) {
                    lemma_bytes_lt_transitive(a@, b@, a@);
                }
            }
            Order::Less
        } else {
            proof {
                assert(a@ != b@);
                if bytes_lt(a@, b@) {
                    lemma_bytes_lt_transitive(a@, b@, a@);
                }
            }
            Order::Greater
        }
    } else if k < b.len() {
        proof {
            assert(a@.len() != b@.len());
            if bytes_lt(b@, a@) {
                lemma_bytes_lt_transitive(a@, b@, a@);
            }
        }
        Order::Less
    } else if k < a.len() {
        proof {
            assert(a@.len() != b@.len());
            if bytes_lt(a@, b@) {
                lemma_bytes_lt_transitive(a@, b@, a@);
            }
        }
        Order::Greater
    } else {
        proof {
            assert(a@ =~= b@);
        }
        Order::Equal
    }
}

/// Adds `name` to a set of names kept sorted in byte order; a name already
/// present is not added again.
pub fn insert_name(names: &mut Vec<String>, name: String)
    requires
        sorted_names(names_view(old(names)@)),
    ensures
        sorted_names(names_view(final(names)@)),
        names_view(final(names)@).to_set() == names_view(old(names)@).to_set().insert(name@),
{
    let ghost old_view = names_view(names@);
    let key = name.as_str().as_bytes();
    let mut pos: usize = 0;
    while pos < names.len()
        invariant
            pos <= names@.len(),
            names_view(names@) == old_view,
            sorted_names(old_view),
            key@ == name_bytes(name@),
            forall|i: int| 0 <= i < pos ==> name_lt(#[trigger] old_view[i], name@),
        ensures
            pos <= names@.len(),
            names_view(names@) == old_view,
            sorted_names(old_view),
            forall|i: int| 0 <= i < pos ==> name_lt(#[trigger] old_view[i], name@),
            pos < names@.len() ==> name_lt(name@, old_view[pos as int]),
        decreases names@.len() - pos,
    {
        let here = names[pos].as_str().as_bytes();
        match compare_bytes(here, key) {
            Order::Less => {
                pos += 1;
            },
            Order::Equal => {
                proof {
                    encode_utf8_decode_utf8(names@[pos as int]@);
                    encode_utf8_decode_utf8(name@);
                    assert(old_view[pos as int] == name@);
                    assert(old_view.to_set().insert(name@) =~= old_view.to_set());
                }
                return;
            },
            Order::Greater => {
                break;
            },
        }
    }
    names.insert(pos, name);
    proof {
        let new_view = names_view(names@);
        assert(new_view =~= old_view.insert(pos as int, name@));
        assert forall|i: int, j: int| 0 <= i < j < new_view.len() implies name_lt(
            new_view[i],
            new_view[j],
        ) by {
            if j < pos {
            } else if j == pos {
                assert(new_view[i] == old_view[i]);
            } else if i < pos {
                assert(new_view[j] == old_view[j - 1]);
                if j - 1 == pos {
                    lemma_bytes_lt_transitive(
                        name_bytes(old_view[i]),
                        name_bytes(name@),
                        name_bytes(old_view[j - 1]),
                    );
                } else {
                    assert(pos < j - 1 < old_view.len());
                    assert(sorted_names(old_view));
                    assert(name_lt(old_view[pos as int], old_view[j - 1]));
                    lemma_bytes_lt_transitive(
                        name_bytes(old_view[i]),
                        name_bytes(name@),
                        name_bytes(old_view[pos as int]),
                    );
                    lemma_bytes_lt_transitive(
                        name_bytes(old_view[i]),
                        name_bytes(old_view[pos as int]),
                        name_bytes(old_view[j - 1]),
                    );
                }
            } else if i == pos {
                if j - 1 > pos {
                    assert(name_lt(old_view[pos as int], old_view[j - 1]));
                    lemma_bytes_lt_transitive(
                        name_bytes(name@),
                        name_bytes(old_view[pos as int]),
                        name_bytes(old_view[j - 1]),
                    );
                }
            } else {
                assert(new_view[i] == old_view[i - 1]);
                assert(new_view[j] == old_view[j - 1]);
            }
        }
        assert(new_view.to_set() =~= old_view.to_set().insert(name@)) by {
            assert forall|x: Seq<char>| new_view.to_set().contains(x) implies old_view.to_set().insert(
                name@,
            ).contains(x) by {
                let i = choose|i: int| 0 <= i < new_view.len() && new_view[i] == x;
                if i < pos {
                    assert(old_view[i] == x);
                } else if i > pos {
                    assert(old_view[i - 1] == x);
                }
            }
            assert forall|x: Seq<char>| old_view.to_set().insert(name@).contains(x) implies new_view.to_set().contains(
                x,
            ) by {
                if x == name@ {
                    assert(new_view[pos as int] == x);
                } else {
                    let i = choose|i: int| 0 <= i < old_view.len() && old_view[i] == x;
                    if i < pos {
                        assert(new_view[i] == x);
                    } else {
                        assert(new_view[i + 1] == x);
                    }
                }
            }
        }
    }
}

} // verus!
