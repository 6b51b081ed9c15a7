//! What holds of every patch stack.

use vstd::prelude::*;
use vstd::utf8::{decode_utf8, encode_utf8, encode_utf8_decode_utf8};

use crate::patchset::{
    be_bytes, casefold, confusable, field, fields, fingerprint_input, folds, found_patches,
    left_out, loaded, named_patch, patch_fields, patch_named, patch_paths, path_order,
    path_order_is_sorted, series_lines, series_order, sorted_by_path, source_key_fields,
    source_key_input, PatchView, RootKind, SeriesFile, WalkView,
};
use crate::text::lines;
use crate::types::SourceView;
use crate::paths::Platform;

verus! {

pub open spec fn never_confused(v: Seq<PatchView>) -> bool {
    forall|i: int, j: int|
        0 <= i < j < v.len() ==> casefold(#[trigger] v[i].path) != casefold(#[trigger] v[j].path)
}

proof fn lemma_confusable(found: Seq<PatchView>, path: Seq<char>)
    ensures
        confusable(found, path) is None ==> forall|i: int|
            0 <= i < found.len() ==> casefold(#[trigger] found[i].path) != casefold(path),
    decreases found.len(),
{
    if found.len() > 0 && casefold(found[0].path) != casefold(path) {
        lemma_confusable(found.drop_first(), path);
        if confusable(found, path) is None {
            assert forall|i: int| 0 <= i < found.len() implies casefold(
                #[trigger] found[i].path,
            ) != casefold(path) by {
                if i > 0 {
                    assert(found.drop_first()[i - 1] == found[i]);
                }
            }
        }
    }
}

/// No two patches of a stack can be confused under case folding, and each is named as a
/// patch.
pub proof fn found_patches_are_never_confused(
    platform: Platform,
    root: Seq<char>,
    entries: Seq<WalkView>,
)
    requires
        found_patches(platform, root, entries) is Ok,
    ensures
        never_confused(found_patches(platform, root, entries)->Ok_0),
        forall|i: int|
            0 <= i < found_patches(platform, root, entries)->Ok_0.len() ==> named_patch(
                platform,
                #[trigger] found_patches(platform, root, entries)->Ok_0[i].path,
            ),
    decreases entries.len(),
{
    if entries.len() > 0 {
        found_patches_are_never_confused(platform, root, entries.drop_last());
        let before = found_patches(platform, root, entries.drop_last())->Ok_0;
        let after = found_patches(platform, root, entries)->Ok_0;
        if after != before {
            let added = after.last();
            assert(after == before.push(added));
            lemma_confusable(before, added.path);
            assert(confusable(before, added.path) is None);
            assert forall|i: int, j: int| 0 <= i < j < after.len() implies casefold(
                #[trigger] after[i].path,
            ) != casefold(#[trigger] after[j].path) by {
                assert(after[i] == before[i]);
                if j < before.len() {
                    assert(after[j] == before[j]);
                } else {
                    assert(after[j] == added);
                    assert(casefold(before[i].path) != casefold(added.path));
                }
            }
        }
    }
}

proof fn lemma_left_out(known: Seq<Seq<char>>, order: Seq<Seq<char>>)
    ensures
        left_out(known, order).len() == 0 ==> forall|i: int|
            0 <= i < known.len() ==> order.contains(#[trigger] known[i]),
    decreases known.len(),
{
    if known.len() > 0 {
        lemma_left_out(known.drop_last(), order);
        if left_out(known, order).len() == 0 {
            assert(order.contains(known.last()));
            assert forall|i: int| 0 <= i < known.len() implies order.contains(
                #[trigger] known[i],
            ) by {
                if i < known.len() - 1 {
                    assert(known.drop_last()[i] == known[i]);
                }
            }
        }
    }
}

proof fn lemma_series_lines(platform: Platform, known: Seq<Seq<char>>, raw: Seq<Seq<char>>)
    requires
        series_lines(platform, known, raw) is Ok,
    ensures
        series_lines(platform, known, raw)->Ok_0.no_duplicates(),
        folds(series_lines(platform, known, raw)->Ok_0).no_duplicates(),
        forall|i: int|
            0 <= i < series_lines(platform, known, raw)->Ok_0.len() ==> known.contains(
                #[trigger] series_lines(platform, known, raw)->Ok_0[i],
            ),
    decreases raw.len(),
{
    if raw.len() > 0 {
        lemma_series_lines(platform, known, raw.drop_last());
        let before = series_lines(platform, known, raw.drop_last())->Ok_0;
        let after = series_lines(platform, known, raw)->Ok_0;
        if after != before {
            let line = after.last();
            assert(after == before.push(line));
            assert(folds(after) =~= folds(before).push(casefold(line)));
            assert(!folds(before).contains(casefold(line)));
            assert forall|i: int, j: int|
                0 <= i < after.len() && 0 <= j < after.len() && i != j implies after[i]
                != after[j] by {
                assert(folds(after)[i] == casefold(after[i]));
                assert(folds(after)[j] == casefold(after[j]));
                if i < before.len() && j < before.len() {
                    assert(before[i] != before[j]);
                } else if i < before.len() {
                    assert(folds(before)[i] == casefold(before[i]));
                    assert(folds(before).contains(casefold(before[i])));
                } else {
                    assert(folds(before)[j] == casefold(before[j]));
                    assert(folds(before).contains(casefold(before[j])));
                }
            }
            assert forall|i: int, j: int|
                0 <= i < folds(after).len() && 0 <= j < folds(after).len() && i != j implies folds(
                after,
            )[i] != folds(after)[j] by {
                if i < before.len() && j < before.len() {
                    assert(folds(before)[i] != folds(before)[j]);
                } else if i < before.len() {
                    assert(folds(before).contains(folds(before)[i]));
                } else {
                    assert(folds(before).contains(folds(before)[j]));
                }
            }
        }
    }
}

/// An accepted series file names each known patch once and nothing else.
pub proof fn series_lists_each_patch_once(
    platform: Platform,
    known: Seq<Seq<char>>,
    series: Seq<char>,
)
    requires
        series_order(platform, known, series) is Ok,
    ensures
        series_order(platform, known, series)->Ok_0.no_duplicates(),
        series_order(platform, known, series)->Ok_0.to_set() == known.to_set(),
{
    let order = series_order(platform, known, series)->Ok_0;
    lemma_series_lines(platform, known, lines(series));
    lemma_left_out(known, order);
    assert forall|p: Seq<char>| order.to_set().contains(p) == known.to_set().contains(p) by {
        if order.contains(p) {
            let i = choose|i: int| 0 <= i < order.len() && order[i] == p;
            assert(known.contains(order[i]));
        }
        if known.contains(p) {
            let i = choose|i: int| 0 <= i < known.len() && known[i] == p;
            assert(order.contains(known[i]));
        }
    }
    assert(order.to_set() =~= known.to_set());
}

proof fn lemma_patch_named(v: Seq<PatchView>, path: Seq<char>)
    ensures
        patch_named(v, path).path == path,
        patch_paths(v).contains(path) ==> v.contains(patch_named(v, path)),
    decreases v.len(),
{
    if v.len() > 0 && v[0].path != path {
        lemma_patch_named(v.drop_first(), path);
        if patch_paths(v).contains(path) {
            let i = choose|i: int| 0 <= i < v.len() && patch_paths(v)[i] == path;
            assert(i > 0);
            assert(patch_paths(v.drop_first())[i - 1] == path);
            let w = v.drop_first();
            let j = choose|j: int| 0 <= j < w.len() && w[j] == patch_named(w, path);
            assert(v[j + 1] == patch_named(v, path));
        }
    } else if v.len() > 0 {
        assert(v[0] == patch_named(v, path));
    }
}

/// Loading a directory puts every patch that was found into the stack once, whatever the
/// order.
pub proof fn loading_keeps_every_patch(
    platform: Platform,
    given: Seq<char>,
    root: Seq<char>,
    entries: Seq<WalkView>,
    series: SeriesFile,
)
    requires
        loaded(platform, given, RootKind::Directory, root, entries, series) is Ok,
    ensures
        found_patches(platform, root, entries) is Ok,
        ({
            let found = found_patches(platform, root, entries)->Ok_0;
            let stack = loaded(platform, given, RootKind::Directory, root, entries, series)->Ok_0;
            &&& stack.no_duplicates()
            &&& stack.to_set() == found.to_set()
            &&& stack.len() == found.len()
            &&& series is Absent ==> sorted_by_path(stack)
        }),
{
    broadcast use vstd::seq_lib::group_to_multiset_ensures;

    let found = found_patches(platform, root, entries)->Ok_0;
    let stack = loaded(platform, given, RootKind::Directory, root, entries, series)->Ok_0;
    let known = path_order(found);
    path_order_is_sorted(found);
    found_patches_are_never_confused(platform, root, entries);
    assert forall|i: int, j: int|
        0 <= i < found.len() && 0 <= j < found.len() && i != j implies found[i].path
        != found[j].path by {
        if i < j {
            assert(casefold(found[i].path) != casefold(found[j].path));
        } else {
            assert(casefold(found[j].path) != casefold(found[i].path));
        }
    }
    assert(found.no_duplicates());
    assert forall|p: PatchView| known.contains(p) == found.contains(p) by {
        assert(known.to_multiset().count(p) == found.to_multiset().count(p));
    }
    assert(known.to_set() =~= found.to_set());
    assert(known.len() == known.to_multiset().len());
    assert(found.len() == found.to_multiset().len());
    found.lemma_multiset_has_no_duplicates();
    known.lemma_multiset_has_no_duplicates_conv();
    if series is Text {
        let names = patch_paths(known);
        let text = decode_utf8(series->Text_0@);
        let order = series_order(platform, names, text)->Ok_0;
        series_lists_each_patch_once(platform, names, text);
        assert forall|i: int| 0 <= i < stack.len() implies stack[i].path == order[i]
            && known.contains(stack[i]) by {
            lemma_patch_named(known, order[i]);
            assert(order.to_set().contains(order[i]));
            assert(names.to_set().contains(order[i]));
        }
        assert forall|i: int, j: int|
            0 <= i < stack.len() && 0 <= j < stack.len() && i != j implies stack[i]
            != stack[j] by {
            assert(stack[i].path == order[i] && stack[j].path == order[j]);
        }
        assert forall|p: PatchView| stack.contains(p) == known.contains(p) by {
            if known.contains(p) {
                let k = choose|k: int| 0 <= k < known.len() && known[k] == p;
                assert(names[k] == p.path);
                assert(names.to_set().contains(p.path));
                assert(order.to_set().contains(p.path));
                let i = choose|i: int| 0 <= i < order.len() && order[i] == p.path;
                assert(stack[i].path == p.path);
                let m = choose|m: int| 0 <= m < known.len() && known[m] == stack[i];
                assert(found.contains(known[m]) && found.contains(known[k])) by {
                    assert(known.contains(known[m]) && known.contains(known[k]));
                }
                let a = choose|a: int| 0 <= a < found.len() && found[a] == known[m];
                let b = choose|b: int| 0 <= b < found.len() && found[b] == known[k];
                assert(found[a].path == found[b].path);
                assert(a == b);
                assert(stack[i] == p);
            }
            if stack.contains(p) {
                let i = choose|i: int| 0 <= i < stack.len() && stack[i] == p;
                assert(known.contains(stack[i]));
            }
        }
        assert(stack.to_set() =~= known.to_set());
        stack.unique_seq_to_set();
        known.unique_seq_to_set();
    }
}

pub open spec fn pow256(width: nat) -> nat
    decreases width,
{
    if width == 0 {
        1
    } else {
        256 * pow256((width - 1) as nat)
    }
}

proof fn lemma_be_bytes(n: nat, m: nat, width: nat)
    requires
        n < pow256(width),
        m < pow256(width),
    ensures
        be_bytes(n, width).len() == width,
        be_bytes(n, width) == be_bytes(m, width) ==> n == m,
    decreases width,
{
    if width > 0 {
        let w = (width - 1) as nat;
        assert(n / 256 < pow256(w) && m / 256 < pow256(w));
        lemma_be_bytes(n / 256, m / 256, w);
        lemma_be_bytes(m / 256, n / 256, w);
        let a = be_bytes(n / 256, w).push((n % 256) as u8);
        let b = be_bytes(m / 256, w).push((m % 256) as u8);
        if a == b {
            assert(a.drop_last() =~= be_bytes(n / 256, w));
            assert(b.drop_last() =~= be_bytes(m / 256, w));
            assert(a.last() == b.last());
        }
    }
}

proof fn lemma_length_bytes(n: nat, m: nat)
    requires
        n <= u64::MAX,
        m <= u64::MAX,
    ensures
        be_bytes(n, 8).len() == 8,
        be_bytes(n, 8) == be_bytes(m, 8) ==> n == m,
{
    reveal_with_fuel(pow256, 9);
    assert(pow256(8) == 0x1_0000_0000_0000_0000);
    lemma_be_bytes(n, m, 8);
}

/// The last field of a byte string can be told from what stands before it only from the
/// front, so fields are compared from the front.
proof fn lemma_field_prefix(x: Seq<u8>, y: Seq<u8>, r: Seq<u8>, s: Seq<u8>)
    requires
        field(x) + r == field(y) + s,
        x.len() <= u64::MAX,
        y.len() <= u64::MAX,
    ensures
        x == y,
        r == s,
{
    lemma_length_bytes(x.len(), y.len());
    lemma_length_bytes(y.len(), x.len());
    let a = field(x) + r;
    let b = field(y) + s;
    assert(a.take(8) =~= be_bytes(x.len(), 8));
    assert(b.take(8) =~= be_bytes(y.len(), 8));
    assert(x.len() == y.len());
    assert(a.subrange(8, 8 + x.len() as int) =~= x);
    assert(b.subrange(8, 8 + y.len() as int) =~= y);
    assert(a.skip(8 + x.len() as int) =~= r);
    assert(b.skip(8 + y.len() as int) =~= s);
}

pub open spec fn fields_front(list: Seq<Seq<u8>>) -> Seq<u8>
    decreases list.len(),
{
    if list.len() == 0 {
        Seq::empty()
    } else {
        field(list[0]) + fields_front(list.drop_first())
    }
}

proof fn lemma_fields_front(list: Seq<Seq<u8>>)
    ensures
        fields(list) == fields_front(list),
    decreases list.len(),
{
    if list.len() == 1 {
        assert(list.drop_last() =~= Seq::empty());
        assert(list.drop_first() =~= Seq::empty());
        reveal_with_fuel(fields, 2);
        reveal_with_fuel(fields_front, 2);
        assert(fields(list) =~= field(list[0]));
        assert(fields_front(list) =~= field(list[0]));
    } else if list.len() > 1 {
        let inner = list.drop_first().drop_last();
        assert(list.drop_last().drop_first() =~= inner);
        lemma_fields_front(list.drop_last());
        lemma_fields_front(list.drop_first());
        lemma_fields_front(inner);
        assert(list.drop_first().last() == list.last());
        assert(list.drop_last()[0] == list[0]);
        assert(fields(list) =~= fields_front(list));
    }
}

pub open spec fn machine_sized(list: Seq<Seq<u8>>) -> bool {
    forall|i: int| 0 <= i < list.len() ==> #[trigger] list[i].len() <= u64::MAX
}

proof fn lemma_fields_injective(a: Seq<Seq<u8>>, b: Seq<Seq<u8>>)
    requires
        machine_sized(a),
        machine_sized(b),
        fields_front(a) == fields_front(b),
    ensures
        a == b,
    decreases a.len(),
{
    if a.len() > 0 {
        lemma_length_bytes(a[0].len(), 0);
    }
    if b.len() > 0 {
        lemma_length_bytes(b[0].len(), 0);
    }
    if a.len() > 0 && b.len() > 0 {
        lemma_field_prefix(
            a[0],
            b[0],
            fields_front(a.drop_first()),
            fields_front(b.drop_first()),
        );
        assert(machine_sized(a.drop_first())) by {
            assert forall|i: int| 0 <= i < a.drop_first().len() implies
                #[trigger] a.drop_first()[i].len() <= u64::MAX by {
                assert(a.drop_first()[i] == a[i + 1]);
            }
        }
        assert(machine_sized(b.drop_first())) by {
            assert forall|i: int| 0 <= i < b.drop_first().len() implies
                #[trigger] b.drop_first()[i].len() <= u64::MAX by {
                assert(b.drop_first()[i] == b[i + 1]);
            }
        }
        lemma_fields_injective(a.drop_first(), b.drop_first());
        assert(a =~= seq![a[0]] + a.drop_first());
        assert(b =~= seq![b[0]] + b.drop_first());
    } else if a.len() == 0 && b.len() > 0 {
        assert(fields_front(b).len() >= 8);
        assert(fields_front(a).len() == 0);
    } else if b.len() == 0 && a.len() > 0 {
        assert(fields_front(a).len() >= 8);
        assert(fields_front(b).len() == 0);
    } else {
        assert(a =~= b);
    }
}

/// The path and the bytes of each patch, in turn.
pub open spec fn flat_fields(v: Seq<PatchView>) -> Seq<Seq<u8>>
    decreases v.len(),
{
    if v.len() == 0 {
        Seq::empty()
    } else {
        flat_fields(v.drop_last()).push(encode_utf8(v.last().path)).push(v.last().bytes)
    }
}

proof fn lemma_flat_fields(v: Seq<PatchView>)
    ensures
        patch_fields(v) == fields(flat_fields(v)),
        flat_fields(v).len() == 2 * v.len(),
        forall|i: int|
            #![trigger v[i]]
            0 <= i < v.len() ==> flat_fields(v)[2 * i] == encode_utf8(v[i].path) && flat_fields(
                v,
            )[2 * i + 1] == v[i].bytes,
    decreases v.len(),
{
    if v.len() > 0 {
        let u = v.drop_last();
        lemma_flat_fields(u);
        let f = flat_fields(u).push(encode_utf8(v.last().path));
        assert(flat_fields(v).drop_last() =~= f);
        assert(f.drop_last() =~= flat_fields(u));
        assert(fields(flat_fields(v)) == fields(f) + field(v.last().bytes));
        assert(fields(f) == fields(flat_fields(u)) + field(encode_utf8(v.last().path)));
        assert(patch_fields(v) =~= fields(flat_fields(v)));
        assert forall|i: int| 0 <= i < v.len() implies flat_fields(v)[2 * i] == encode_utf8(
            #[trigger] v[i].path,
        ) && flat_fields(v)[2 * i + 1] == v[i].bytes by {
            if i < u.len() {
                assert(u[i] == v[i]);
            }
        }
    }
}

/// Sizes that a patch stack in memory can have.
pub open spec fn stack_fits(v: Seq<PatchView>) -> bool {
    forall|i: int|
        #![trigger v[i]]
        0 <= i < v.len() ==> encode_utf8(v[i].path).len() <= u64::MAX && v[i].bytes.len()
            <= u64::MAX
}

proof fn lemma_flat_sized(v: Seq<PatchView>)
    requires
        stack_fits(v),
    ensures
        machine_sized(flat_fields(v)),
{
    lemma_flat_fields(v);
    let f = flat_fields(v);
    assert forall|i: int| 0 <= i < f.len() implies #[trigger] f[i].len() <= u64::MAX by {
        let k = i / 2;
        assert(0 <= k < v.len());
        let p = v[k];
        assert(f[2 * k] == encode_utf8(p.path) && f[2 * k + 1] == p.bytes);
        assert(i == 2 * k || i == 2 * k + 1);
    }
}

/// Two patch stacks that differ in a path, in a byte or in their order are never hashed as
/// the same bytes.
pub proof fn fingerprint_inputs_tell_stacks_apart(a: Seq<PatchView>, b: Seq<PatchView>)
    requires
        stack_fits(a),
        stack_fits(b),
        fingerprint_input(a) == fingerprint_input(b),
    ensures
        a == b,
{
    let domain = encode_utf8("codex-patcher-patchset-v1\0"@);
    assert(fingerprint_input(a).skip(domain.len() as int) =~= patch_fields(a));
    assert(fingerprint_input(b).skip(domain.len() as int) =~= patch_fields(b));
    lemma_flat_fields(a);
    lemma_flat_fields(b);
    lemma_flat_sized(a);
    lemma_flat_sized(b);
    lemma_fields_front(flat_fields(a));
    lemma_fields_front(flat_fields(b));
    lemma_fields_injective(flat_fields(a), flat_fields(b));
    assert forall|i: int| 0 <= i < a.len() implies a[i] == b[i] by {
        let x = a[i];
        let y = b[i];
        assert(encode_utf8(x.path) == encode_utf8(y.path));
        encode_utf8_decode_utf8(x.path);
        encode_utf8_decode_utf8(y.path);
        assert(x.path == y.path);
        assert(x.bytes == y.bytes);
    }
    assert(a =~= b);
}

/// Two builds whose inputs differ anywhere but in the release page are never hashed as the
/// same bytes.
pub proof fn source_key_inputs_tell_builds_apart(
    s: SourceView,
    f: Seq<char>,
    t: Seq<char>,
    s2: SourceView,
    f2: Seq<char>,
    t2: Seq<char>,
)
    requires
        machine_sized(source_key_fields(s, f, t)),
        machine_sized(source_key_fields(s2, f2, t2)),
        source_key_input(s, f, t) == source_key_input(s2, f2, t2),
    ensures
        s.channel == s2.channel,
        s.ref_name == s2.ref_name,
        s.ref_object_oid == s2.ref_object_oid,
        s.commit_oid == s2.commit_oid,
        s.version == s2.version,
        f == f2,
        t == t2,
{
    let a = source_key_fields(s, f, t);
    let b = source_key_fields(s2, f2, t2);
    let domain = encode_utf8("codex-patcher-source-key-v1\0"@);
    assert(source_key_input(s, f, t).skip(domain.len() as int) =~= fields(a));
    assert(source_key_input(s2, f2, t2).skip(domain.len() as int) =~= fields(b));
    lemma_fields_front(a);
    lemma_fields_front(b);
    lemma_fields_injective(a, b);
    assert(a[1] == b[1] && a[2] == b[2] && a[3] == b[3] && a[4] == b[4] && a[5] == b[5] && a[6]
        == b[6] && a[7] == b[7]);
    encode_utf8_decode_utf8(s.channel);
    encode_utf8_decode_utf8(s2.channel);
    encode_utf8_decode_utf8(s.ref_name);
    encode_utf8_decode_utf8(s2.ref_name);
    encode_utf8_decode_utf8(s.ref_object_oid);
    encode_utf8_decode_utf8(s2.ref_object_oid);
    encode_utf8_decode_utf8(s.commit_oid);
    encode_utf8_decode_utf8(s2.commit_oid);
    encode_utf8_decode_utf8(s.version);
    encode_utf8_decode_utf8(s2.version);
    encode_utf8_decode_utf8(f);
    encode_utf8_decode_utf8(f2);
    encode_utf8_decode_utf8(t);
    encode_utf8_decode_utf8(t2);
}

} // verus!
