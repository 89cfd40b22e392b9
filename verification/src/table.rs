//! Tables by name: what a map of the configuration file is held as.
//!
//! A table is a list of entries, each a name with its value, in the rising
//! order of the names. So no name occurs twice, and a table is the same
//! whatever the order its entries were put in.

use vstd::prelude::*;
use vstd::utf8::{encode_utf8, encode_utf8_decode_utf8};

verus! {

/// Whether `a` comes before `b` where bytes are compared one by one from
/// the front, and the shorter of two that agree so far comes first.
pub open spec fn bytes_before(a: Seq<u8>, b: Seq<u8>) -> bool
    decreases a.len(),
{
    if b.len() == 0 {
        false
    } else if a.len() == 0 {
        true
    } else if a[0] != b[0] {
        a[0] < b[0]
    } else {
        bytes_before(a.skip(1), b.skip(1))
    }
}

/// Whether the name `a` comes before the name `b`: the order of strings,
/// which is the order of their bytes.
pub open spec fn before(a: Seq<char>, b: Seq<char>) -> bool {
    bytes_before(encode_utf8(a), encode_utf8(b))
}

/// Whether the names of the entries rise: whether the list is a table.
pub open spec fn sorted<T>(entries: Seq<(String, T)>) -> bool {
    forall|i: int, j: int| 0 <= i < j < entries.len() ==> before(entries[i].0@, entries[j].0@)
}

/// The value that stands under `name`.
pub open spec fn lookup<T>(entries: Seq<(String, T)>, name: Seq<char>) -> Option<T>
    decreases entries.len(),
{
    if entries.len() == 0 {
        None
    } else if entries[0].0@ == name {
        Some(entries[0].1)
    } else {
        lookup(entries.skip(1), name)
    }
}

/// A reference or none, as a value or none.
pub open spec fn deref_of<T>(found: Option<&T>) -> Option<T> {
    match found {
        Some(value) => Some(*value),
        None => None,
    }
}

/// Nothing comes before itself.
pub proof fn bytes_before_irreflexive(a: Seq<u8>)
    ensures
        !bytes_before(a, a),
    decreases a.len(),
{
    if a.len() > 0 {
        bytes_before_irreflexive(a.skip(1));
    }
}

/// What comes before something that comes before a third comes before the third.
pub proof fn bytes_before_transitive(a: Seq<u8>, b: Seq<u8>, c: Seq<u8>)
    requires
        bytes_before(a, b),
        bytes_before(b, c),
    ensures
        bytes_before(a, c),
    decreases a.len(),
{
    if a.len() > 0 && a[0] == b[0] && b[0] == c[0] {
        bytes_before_transitive(a.skip(1), b.skip(1), c.skip(1));
    }
}

/// Of two that differ one comes before the other.
pub proof fn bytes_before_total(a: Seq<u8>, b: Seq<u8>)
    requires
        a != b,
    ensures
        bytes_before(a, b) || bytes_before(b, a),
    decreases a.len(),
{
    if a.len() > 0 && b.len() > 0 && a[0] == b[0] {
        if a.skip(1) == b.skip(1) {
            assert(a =~= seq![a[0]] + a.skip(1));
            assert(b =~= seq![b[0]] + b.skip(1));
        }
        bytes_before_total(a.skip(1), b.skip(1));
    } else if a.len() == 0 && b.len() == 0 {
        assert(a =~= b);
    }
}

/// The order of names is strict and total: no name comes before itself,
/// and of two names that differ exactly one comes before the other.
pub proof fn before_is_strict_and_total(a: Seq<char>, b: Seq<char>)
    ensures
        a == b ==> !before(a, b),
        a != b ==> (before(a, b) <==> !before(b, a)),
{
    bytes_before_irreflexive(encode_utf8(a));
    if a != b {
        encode_utf8_decode_utf8(a);
        encode_utf8_decode_utf8(b);
        bytes_before_total(encode_utf8(a), encode_utf8(b));
        if before(a, b) && before(b, a) {
            bytes_before_transitive(encode_utf8(a), encode_utf8(b), encode_utf8(a));
        }
    }
}

/// The order of names passes on: what comes before a name comes before
/// all that the name comes before.
pub proof fn before_is_transitive(a: Seq<char>, b: Seq<char>, c: Seq<char>)
    requires
        before(a, b),
        before(b, c),
    ensures
        before(a, c),
{
    bytes_before_transitive(encode_utf8(a), encode_utf8(b), encode_utf8(c));
}

/// In a table a value is found under its name, wherever it stands, and
/// nothing is found under a name that none of the entries has.
pub proof fn lookup_finds<T>(entries: Seq<(String, T)>, name: Seq<char>)
    requires
        sorted(entries),
    ensures
        forall|at: int|
            0 <= at < entries.len() && #[trigger] entries[at].0@ == name ==> lookup(entries, name)
                == Some(entries[at].1),
        (forall|at: int| 0 <= at < entries.len() ==> #[trigger] entries[at].0@ != name) ==> lookup(
            entries,
            name,
        ) is None,
    decreases entries.len(),
{
    if entries.len() > 0 {
        let rest = entries.skip(1);
        assert forall|i: int, j: int| 0 <= i < j < rest.len() implies before(
            rest[i].0@,
            rest[j].0@,
        ) by {
            assert(rest[i] == entries[i + 1] && rest[j] == entries[j + 1]);
        }
        lookup_finds(rest, name);
        assert forall|at: int|
            0 <= at < entries.len() && #[trigger] entries[at].0@ == name implies lookup(
            entries,
            name,
        ) == Some(entries[at].1) by {
            if at > 0 {
                assert(rest[at - 1] == entries[at]);
                if entries[0].0@ == name {
                    before_is_strict_and_total(entries[0].0@, entries[at].0@);
                }
            }
        }
        if forall|at: int| 0 <= at < entries.len() ==> #[trigger] entries[at].0@ != name {
            assert forall|at: int| 0 <= at < rest.len() implies #[trigger] rest[at].0@ != name by {
                assert(rest[at] == entries[at + 1]);
            }
        }
    }
}

/// Tells whether the name `a` comes before the name `b`.
pub fn comes_before(a: &str, b: &str) -> (r: bool)
    ensures
        r == before(a@, b@),
{
    let x = a.as_bytes();
    let y = b.as_bytes();
    let mut i: usize = 0;
    proof {
        assert(x@.skip(0) =~= x@);
        assert(y@.skip(0) =~= y@);
    }
    while i < x.len() && i < y.len()
        invariant
            i <= x.len(),
            i <= y.len(),
            x@ == encode_utf8(a@),
            y@ == encode_utf8(b@),
            bytes_before(x@.skip(i as int), y@.skip(i as int)) == bytes_before(x@, y@),
        decreases x.len() - i,
    {
        proof {
            assert(x@.skip(i as int)[0] == x@[i as int]);
            assert(y@.skip(i as int)[0] == y@[i as int]);
            assert(x@.skip(i as int).skip(1) =~= x@.skip(i + 1));
            assert(y@.skip(i as int).skip(1) =~= y@.skip(i + 1));
        }
        if x[i] != y[i] {
            return x[i] < y[i];
        }
        i = i + 1;
    }
    i < y.len()
}

/// Finds the value that stands under `name`.
pub fn find<'a, T>(entries: &'a Vec<(String, T)>, name: &String) -> (found: Option<&'a T>)
    ensures
        deref_of(found) == lookup(entries@, name@),
{
    let mut i: usize = 0;
    proof {
        assert(entries@.skip(0) =~= entries@);
    }
    while i < entries.len()
        invariant
            i <= entries.len(),
            lookup(entries@.skip(i as int), name@) == lookup(entries@, name@),
        decreases entries.len() - i,
    {
        proof {
            assert(entries@.skip(i as int).skip(1) =~= entries@.skip(i + 1));
        }
        if entries[i].0 == *name {
            return Some(&entries[i].1);
        }
        i = i + 1;
    }
    None
}

/// Puts `value` under `name`, in place of what stood there.
pub fn put<T>(entries: &mut Vec<(String, T)>, name: String, value: T)
    requires
        sorted(old(entries)@),
    ensures
        sorted(final(entries)@),
        lookup(final(entries)@, name@) == Some(value),
        forall|other: Seq<char>|
            other != name@ ==> lookup(final(entries)@, other) == lookup(old(entries)@, other),
{
    let ghost before_put = entries@;
    let ghost wanted = name@;
    let mut i: usize = 0;
    while i < entries.len() && comes_before(entries[i].0.as_str(), name.as_str())
        invariant
            i <= entries.len(),
            entries@ == before_put,
            wanted == name@,
            forall|j: int| 0 <= j < i ==> before(#[trigger] before_put[j].0@, wanted),
        decreases entries.len() - i,
    {
        i = i + 1;
    }
    let replace = i < entries.len() && entries[i].0 == name;
    if replace {
        entries[i] = (name, value);
    } else {
        entries.insert(i, (name, value));
    }
    proof {
        let after = entries@;
        let at = i as int;
        assert(after[at].0@ == wanted && after[at].1 == value);
        if !replace && at < before_put.len() {
            before_is_strict_and_total(before_put[at].0@, wanted);
        }
        assert forall|a: int, b: int| 0 <= a < b < after.len() implies before(
            after[a].0@,
            after[b].0@,
        ) by {
            let shift = if replace { 0int } else { 1int };
            if b < at {
                assert(after[a] == before_put[a] && after[b] == before_put[b]);
            } else if b == at {
                assert(after[a] == before_put[a]);
            } else if a == at {
                assert(after[b] == before_put[b - shift]);
                if replace {
                    assert(before_put[at].0@ == wanted);
                } else if b - shift > at {
                    before_is_transitive(wanted, before_put[at].0@, before_put[b - shift].0@);
                }
            } else if a < at {
                assert(after[a] == before_put[a] && after[b] == before_put[b - shift]);
            } else {
                assert(after[a] == before_put[a - shift] && after[b] == before_put[b - shift]);
            }
        }
        lookup_finds(after, wanted);
        assert forall|other: Seq<char>| other != wanted implies lookup(after, other) == lookup(
            before_put,
            other,
        ) by {
            lookup_finds(after, other);
            lookup_finds(before_put, other);
            let shift = if replace { 0int } else { 1int };
            if exists|k: int| 0 <= k < before_put.len() && #[trigger] before_put[k].0@ == other {
                let k = choose|k: int| 0 <= k < before_put.len() && #[trigger] before_put[k].0@ == other;
                let moved = if k < at { k } else { k + shift };
                assert(after[moved] == before_put[k]);
            } else {
                assert forall|k: int| 0 <= k < after.len() implies #[trigger] after[k].0@
                    != other by {
                    if k < at {
                        assert(after[k] == before_put[k]);
                    } else if k > at {
                        assert(after[k] == before_put[k - shift]);
                    }
                }
            }
        }
    }
}

} // verus!
