//! Ownership and extended attributes of launchers, and how they are put back.

use vstd::prelude::*;

use crate::shim::{attribute_view, attributes_view, same_bytes, ExtendedAttribute, SecurityMetadata};

verus! {

/// The names in a list whose entries end with a zero byte.
pub open spec fn listed_names(bytes: Seq<u8>) -> Seq<Seq<u8>>
    decreases bytes.len(),
{
    if bytes.len() == 0 {
        Seq::empty()
    } else {
        let n = zero_index(bytes);
        let rest = if n < bytes.len() {
            listed_names(bytes.skip(n as int + 1))
        } else {
            Seq::empty()
        };
        if n == 0 {
            rest
        } else {
            seq![bytes.take(n as int)] + rest
        }
    }
}

/// The position of the first zero byte, or the length.
pub open spec fn zero_index(bytes: Seq<u8>) -> nat
    decreases bytes.len(),
{
    if bytes.len() == 0 || bytes[0] == 0 {
        0
    } else {
        1 + zero_index(bytes.drop_first())
    }
}

proof fn lemma_zero_index(bytes: Seq<u8>, n: int)
    requires
        0 <= n <= bytes.len(),
        n < bytes.len() ==> bytes[n] == 0,
        forall|i: int| 0 <= i < n ==> bytes[i] != 0,
    ensures
        zero_index(bytes) == n,
    decreases n,
{
    if n > 0 {
        let rest = bytes.drop_first();
        assert forall|i: int| 0 <= i < n - 1 implies rest[i] != 0 by {
            assert(rest[i] == bytes[i + 1]);
        }
        lemma_zero_index(rest, n - 1);
    }
}

pub open spec fn byte_lists(v: Seq<Vec<u8>>) -> Seq<Seq<u8>> {
    v.map_values(|b: Vec<u8>| b@)
}

fn slice_between(bytes: &Vec<u8>, from: usize, to: usize) -> (r: Vec<u8>)
    requires
        from <= to <= bytes@.len(),
    ensures
        r@ == bytes@.subrange(from as int, to as int),
{
    let mut out: Vec<u8> = Vec::new();
    let mut i: usize = from;
    while i < to
        invariant
            from <= i <= to <= bytes@.len(),
            out@ == bytes@.subrange(from as int, i as int),
        decreases to - i,
    {
        out.push(bytes[i]);
        i = i + 1;
        proof {
            assert(out@ =~= bytes@.subrange(from as int, i as int));
        }
    }
    out
}

/// The names of the attributes in the list that the file system gives.
pub fn attribute_names(list: &Vec<u8>) -> (r: Vec<Vec<u8>>)
    ensures
        byte_lists(r@) == listed_names(list@),
{
    let mut out: Vec<Vec<u8>> = Vec::new();
    let mut start: usize = 0;
    proof {
        assert(list@.skip(0) =~= list@);
        assert(byte_lists(out@) + listed_names(list@) =~= listed_names(list@));
    }
    while start < list.len()
        invariant
            start <= list@.len(),
            listed_names(list@) == byte_lists(out@) + listed_names(list@.skip(start as int)),
        decreases list@.len() - start,
    {
        let ghost rest = list@.skip(start as int);
        let mut end: usize = start;
        while end < list.len() && list[end] != 0
            invariant
                start <= end <= list@.len(),
                rest == list@.skip(start as int),
                forall|i: int| 0 <= i < end - start ==> rest[i] != 0,
            decreases list@.len() - end,
        {
            proof {
                assert(rest[end - start] == list@[end as int]);
            }
            end = end + 1;
        }
        proof {
            if end < list@.len() {
                assert(rest[end - start] == list@[end as int]);
            }
            lemma_zero_index(rest, end - start);
            if end < list@.len() {
                assert(rest.skip(end - start + 1) =~= list@.skip(end + 1));
            }
            assert(rest.take(end - start) =~= list@.subrange(start as int, end as int));
        }
        let ghost before = byte_lists(out@);
        let ghost tail = if end < list@.len() {
            listed_names(list@.skip(end + 1))
        } else {
            Seq::empty()
        };
        if end > start {
            let name = slice_between(list, start, end);
            proof {
                assert(byte_lists(out@.push(name)) =~= before.push(name@));
                assert(before.push(name@) + tail =~= before + (seq![name@] + tail));
            }
            out.push(name);
        }
        if end < list.len() {
            start = end + 1;
        } else {
            start = end;
            proof {
                assert(list@.skip(start as int) =~= Seq::empty());
                reveal_with_fuel(listed_names, 2);
            }
        }
    }
    proof {
        assert(list@.skip(start as int) =~= Seq::empty());
        reveal_with_fuel(listed_names, 2);
        assert(byte_lists(out@) + Seq::<Seq<u8>>::empty() =~= byte_lists(out@));
    }
    out
}

/// One byte string stands before another.
pub open spec fn bytes_less(a: Seq<u8>, b: Seq<u8>) -> bool
    decreases a.len(),
{
    if b.len() == 0 {
        false
    } else if a.len() == 0 {
        true
    } else if a[0] == b[0] {
        bytes_less(a.drop_first(), b.drop_first())
    } else {
        a[0] < b[0]
    }
}

fn is_less(a: &Vec<u8>, b: &Vec<u8>) -> (r: bool)
    ensures
        r == bytes_less(a@, b@),
{
    let mut i: usize = 0;
    proof {
        assert(a@.skip(0) =~= a@);
        assert(b@.skip(0) =~= b@);
    }
    while i < a.len() && i < b.len() && a[i] == b[i]
        invariant
            i <= a@.len(),
            i <= b@.len(),
            bytes_less(a@, b@) == bytes_less(a@.skip(i as int), b@.skip(i as int)),
        decreases a@.len() - i,
    {
        proof {
            assert(a@.skip(i as int).drop_first() =~= a@.skip(i as int + 1));
            assert(b@.skip(i as int).drop_first() =~= b@.skip(i as int + 1));
        }
        i = i + 1;
    }
    if i >= b.len() {
        false
    } else if i >= a.len() {
        true
    } else {
        a[i] < b[i]
    }
}

/// Puts an attribute behind the last one whose name does not stand behind its own.
pub open spec fn insert_by_name(list: Seq<(Seq<u8>, Seq<u8>)>, x: (Seq<u8>, Seq<u8>)) -> Seq<
    (Seq<u8>, Seq<u8>),
>
    decreases list.len(),
{
    if list.len() == 0 || !bytes_less(x.0, list.last().0) {
        list.push(x)
    } else {
        insert_by_name(list.drop_last(), x).push(list.last())
    }
}

/// The attributes in the order of their names.
pub open spec fn by_name(list: Seq<(Seq<u8>, Seq<u8>)>) -> Seq<(Seq<u8>, Seq<u8>)>
    decreases list.len(),
{
    if list.len() == 0 {
        Seq::empty()
    } else {
        insert_by_name(by_name(list.drop_last()), list.last())
    }
}

proof fn lemma_insert_by_name(list: Seq<(Seq<u8>, Seq<u8>)>, x: (Seq<u8>, Seq<u8>), n: int)
    requires
        0 <= n <= list.len(),
        n > 0 ==> !bytes_less(x.0, list[n - 1].0),
        forall|i: int| n <= i < list.len() ==> bytes_less(x.0, (#[trigger] list[i]).0),
    ensures
        insert_by_name(list, x) == list.insert(n, x),
    decreases list.len(),
{
    if n == list.len() {
        assert(list.insert(n, x) =~= list.push(x));
        if n > 0 {
            assert(list.last() == list[n - 1]);
        }
    } else {
        let rest = list.drop_last();
        assert(bytes_less(x.0, list[list.len() - 1].0));
        assert forall|i: int| n <= i < rest.len() implies bytes_less(
            x.0,
            (#[trigger] rest[i]).0,
        ) by {
            assert(rest[i] == list[i]);
        }
        lemma_insert_by_name(rest, x, n);
        assert(list.insert(n, x) =~= rest.insert(n, x).push(list.last()));
    }
}

fn insert_attribute(list: &mut Vec<ExtendedAttribute>, x: ExtendedAttribute)
    ensures
        attributes_view(final(list)@) == insert_by_name(
            attributes_view(old(list)@),
            attribute_view(x),
        ),
{
    let ghost all = attributes_view(list@);
    let mut n: usize = list.len();
    while n > 0 && is_less(&x.name, &list[n - 1].name)
        invariant
            n <= list@.len(),
            all == attributes_view(list@),
            forall|i: int|
                n <= i < list@.len() ==> bytes_less(x.name@, (#[trigger] all[i]).0),
        decreases n,
    {
        proof {
            assert(all[n - 1].0 == list@[n - 1].name@);
        }
        n = n - 1;
    }
    proof {
        if n > 0 {
            assert(all[n - 1].0 == list@[n - 1].name@);
        }
        lemma_insert_by_name(all, attribute_view(x), n as int);
        assert(attributes_view(list@.insert(n as int, x)) =~= all.insert(
            n as int,
            attribute_view(x),
        ));
    }
    list.insert(n, x);
}

/// The attributes of a file in the order in which they are recorded.
pub fn sorted_attributes(list: Vec<ExtendedAttribute>) -> (r: Vec<ExtendedAttribute>)
    ensures
        attributes_view(r@) == by_name(attributes_view(list@)),
{
    let ghost all = attributes_view(list@);
    let mut out: Vec<ExtendedAttribute> = Vec::new();
    let mut i: usize = 0;
    proof {
        assert(all.take(0) =~= Seq::empty());
        assert(attributes_view(out@) =~= Seq::empty());
    }
    while i < list.len()
        invariant
            i <= list@.len(),
            all == attributes_view(list@),
            attributes_view(out@) == by_name(all.take(i as int)),
        decreases list@.len() - i,
    {
        let x = ExtendedAttribute {
            name: vstd::slice::slice_to_vec(list[i].name.as_slice()),
            value: vstd::slice::slice_to_vec(list[i].value.as_slice()),
        };
        proof {
            assert(all.take(i as int + 1).drop_last() =~= all.take(i as int));
            assert(all.take(i as int + 1).last() == attribute_view(x));
        }
        insert_attribute(&mut out, x);
        i = i + 1;
    }
    proof {
        assert(all.take(list@.len() as int) =~= all);
    }
    out
}

/// The list has an attribute of that name.
pub open spec fn has_name(list: Seq<(Seq<u8>, Seq<u8>)>, name: Seq<u8>) -> bool {
    exists|i: int| 0 <= i < list.len() && (#[trigger] list[i]).0 == name
}

/// The attributes that are there and should not be.
pub open spec fn stale(
    current: Seq<(Seq<u8>, Seq<u8>)>,
    expected: Seq<(Seq<u8>, Seq<u8>)>,
) -> Seq<Seq<u8>>
    decreases current.len(),
{
    if current.len() == 0 {
        Seq::empty()
    } else if has_name(expected, current.last().0) {
        stale(current.drop_last(), expected)
    } else {
        stale(current.drop_last(), expected).push(current.last().0)
    }
}

fn names_attribute(list: &Vec<ExtendedAttribute>, name: &Vec<u8>) -> (r: bool)
    ensures
        r == has_name(attributes_view(list@), name@),
{
    let ghost all = attributes_view(list@);
    let mut i: usize = 0;
    while i < list.len()
        invariant
            i <= list@.len(),
            all == attributes_view(list@),
            forall|k: int| 0 <= k < i ==> (#[trigger] all[k]).0 != name@,
        decreases list@.len() - i,
    {
        proof {
            assert(all[i as int].0 == list@[i as int].name@);
        }
        if same_bytes(&list[i].name, name) {
            return true;
        }
        i = i + 1;
    }
    false
}

/// The names of the attributes to remove before the expected ones are set.
pub fn stale_attributes(
    current: &Vec<ExtendedAttribute>,
    expected: &Vec<ExtendedAttribute>,
) -> (r: Vec<Vec<u8>>)
    ensures
        byte_lists(r@) == stale(attributes_view(current@), attributes_view(expected@)),
{
    let ghost all = attributes_view(current@);
    let mut out: Vec<Vec<u8>> = Vec::new();
    let mut i: usize = 0;
    proof {
        assert(all.take(0) =~= Seq::empty());
        assert(byte_lists(out@) =~= Seq::empty());
    }
    while i < current.len()
        invariant
            i <= current@.len(),
            all == attributes_view(current@),
            byte_lists(out@) == stale(all.take(i as int), attributes_view(expected@)),
        decreases current@.len() - i,
    {
        proof {
            assert(all.take(i as int + 1).drop_last() =~= all.take(i as int));
            assert(all.take(i as int + 1).last().0 == current@[i as int].name@);
        }
        if !names_attribute(expected, &current[i].name) {
            let name = vstd::slice::slice_to_vec(current[i].name.as_slice());
            proof {
                assert(byte_lists(out@.push(name)) =~= byte_lists(out@).push(name@));
            }
            out.push(name);
        }
        i = i + 1;
    }
    proof {
        assert(all.take(current@.len() as int) =~= all);
    }
    out
}

/// The owner to give back to a file that now belongs to `uid` and `gid`; `None` when it is
/// its owner's already.
pub fn owner_to_restore(security: &SecurityMetadata, uid: u32, gid: u32) -> (r: Result<
    Option<(u32, u32)>,
    String,
>)
    ensures
        match (security.unix_uid, security.unix_gid) {
            (Some(u), Some(g)) => r matches Ok(owner) && owner == (if u == uid && g == gid {
                None
            } else {
                Some((u, g))
            }),
            _ => r matches Err(e) && e@
                == "recorded Unix security metadata is missing uid or gid"@,
        },
{
    match (security.unix_uid, security.unix_gid) {
        (Some(u), Some(g)) => {
            if u == uid && g == gid {
                Ok(None)
            } else {
                Ok(Some((u, g)))
            }
        },
        _ => Err("recorded Unix security metadata is missing uid or gid".to_owned()),
    }
}

/// The attributes of a file, by their names.
pub open spec fn attribute_map(list: Seq<(Seq<u8>, Seq<u8>)>) -> Map<Seq<u8>, Seq<u8>>
    decreases list.len(),
{
    if list.len() == 0 {
        Map::empty()
    } else {
        attribute_map(list.drop_last()).insert(list.last().0, list.last().1)
    }
}

pub open spec fn with_removed(
    m: Map<Seq<u8>, Seq<u8>>,
    names: Seq<Seq<u8>>,
) -> Map<Seq<u8>, Seq<u8>>
    decreases names.len(),
{
    if names.len() == 0 {
        m
    } else {
        with_removed(m, names.drop_last()).remove(names.last())
    }
}

pub open spec fn with_set(m: Map<Seq<u8>, Seq<u8>>, list: Seq<(Seq<u8>, Seq<u8>)>) -> Map<
    Seq<u8>,
    Seq<u8>,
>
    decreases list.len(),
{
    if list.len() == 0 {
        m
    } else {
        with_set(m, list.drop_last()).insert(list.last().0, list.last().1)
    }
}

proof fn lemma_attribute_map(list: Seq<(Seq<u8>, Seq<u8>)>, name: Seq<u8>)
    ensures
        attribute_map(list).dom().contains(name) == has_name(list, name),
    decreases list.len(),
{
    if list.len() > 0 {
        let rest = list.drop_last();
        lemma_attribute_map(rest, name);
        if has_name(rest, name) {
            let i = choose|i: int| 0 <= i < rest.len() && (#[trigger] rest[i]).0 == name;
            assert(list[i].0 == name);
        }
        if list.last().0 == name {
            assert(list[list.len() - 1].0 == name);
        }
        if has_name(list, name) && list.last().0 != name {
            let i = choose|i: int| 0 <= i < list.len() && (#[trigger] list[i]).0 == name;
            assert(rest[i].0 == name);
        }
    }
}

proof fn lemma_removed(m: Map<Seq<u8>, Seq<u8>>, names: Seq<Seq<u8>>, name: Seq<u8>)
    ensures
        with_removed(m, names).dom().contains(name) == (m.dom().contains(name) && !names.contains(
            name,
        )),
    decreases names.len(),
{
    if names.len() > 0 {
        let rest = names.drop_last();
        lemma_removed(m, rest, name);
        if names.contains(name) && names.last() != name {
            let i = choose|i: int| 0 <= i < names.len() && names[i] == name;
            assert(rest[i] == name);
        }
        if rest.contains(name) {
            let i = choose|i: int| 0 <= i < rest.len() && rest[i] == name;
            assert(names[i] == name);
        }
        if names.last() == name {
            assert(names[names.len() - 1] == name);
        }
    }
}

proof fn lemma_stale(
    current: Seq<(Seq<u8>, Seq<u8>)>,
    expected: Seq<(Seq<u8>, Seq<u8>)>,
    name: Seq<u8>,
)
    ensures
        stale(current, expected).contains(name) == (has_name(current, name) && !has_name(
            expected,
            name,
        )),
    decreases current.len(),
{
    if current.len() > 0 {
        let rest = current.drop_last();
        lemma_stale(rest, expected, name);
        let before = stale(rest, expected);
        let after = stale(current, expected);
        if has_name(rest, name) {
            let i = choose|i: int| 0 <= i < rest.len() && (#[trigger] rest[i]).0 == name;
            assert(current[i].0 == name);
        }
        if current.last().0 == name {
            assert(current[current.len() - 1].0 == name);
        }
        if has_name(current, name) && current.last().0 != name {
            let i = choose|i: int| 0 <= i < current.len() && (#[trigger] current[i]).0 == name;
            assert(rest[i].0 == name);
        }
        if after != before {
            assert(after == before.push(current.last().0));
            assert(after[before.len() as int] == current.last().0);
            if before.contains(name) {
                let i = choose|i: int| 0 <= i < before.len() && before[i] == name;
                assert(after[i] == name);
            }
            if after.contains(name) && current.last().0 != name {
                let i = choose|i: int| 0 <= i < after.len() && after[i] == name;
                assert(before[i] == name);
            }
        }
    }
}

proof fn lemma_with_set(m: Map<Seq<u8>, Seq<u8>>, list: Seq<(Seq<u8>, Seq<u8>)>, name: Seq<u8>)
    ensures
        with_set(m, list).dom().contains(name) == (m.dom().contains(name) || has_name(list, name)),
        has_name(list, name) ==> with_set(m, list)[name] == attribute_map(list)[name],
    decreases list.len(),
{
    if list.len() > 0 {
        let rest = list.drop_last();
        lemma_with_set(m, rest, name);
        if has_name(rest, name) {
            let i = choose|i: int| 0 <= i < rest.len() && (#[trigger] rest[i]).0 == name;
            assert(list[i].0 == name);
        }
        if list.last().0 == name {
            assert(list[list.len() - 1].0 == name);
        }
        if has_name(list, name) && list.last().0 != name {
            let i = choose|i: int| 0 <= i < list.len() && (#[trigger] list[i]).0 == name;
            assert(rest[i].0 == name);
        }
    }
}

/// A file whose stale attributes are removed and whose expected ones are set has exactly
/// the expected attributes, whatever it had before.
pub proof fn restored_attributes_are_exact(
    current: Seq<(Seq<u8>, Seq<u8>)>,
    expected: Seq<(Seq<u8>, Seq<u8>)>,
)
    ensures
        with_set(
            with_removed(attribute_map(current), stale(current, expected)),
            expected,
        ) == attribute_map(expected),
{
    let removed = with_removed(attribute_map(current), stale(current, expected));
    let done = with_set(removed, expected);
    let wanted = attribute_map(expected);
    assert forall|name: Seq<u8>| done.dom().contains(name) == wanted.dom().contains(name) by {
        lemma_attribute_map(expected, name);
        lemma_attribute_map(current, name);
        lemma_removed(attribute_map(current), stale(current, expected), name);
        lemma_stale(current, expected, name);
        lemma_with_set(removed, expected, name);
    }
    assert forall|name: Seq<u8>| wanted.dom().contains(name) implies done[name]
        == wanted[name] by {
        lemma_attribute_map(expected, name);
        lemma_with_set(removed, expected, name);
    }
    assert(done =~= wanted);
}

} // verus!
