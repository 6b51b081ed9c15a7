//! File paths as text, and the directories that the patcher owns.
//!
//! A path is a text whose pieces are separated by `/`. Two paths name the same place when
//! their parts agree; empty pieces and `.` pieces are no parts, except that a leading `/` and
//! a leading `.` are kept. The paths of Windows have rules of their own (`windows_paths`).

use vstd::prelude::*;

use crate::text::{
    ascii_lower, chars_of, first_index, forward_slashes, join, join_texts, lemma_first_index,
    lemma_first_index_unique, lemma_texts_push, opt_text, same, split_on, split_text, starts_with,
    strip_prefix, text_between, texts, to_ascii_lower,
};
use crate::windows_paths::{
    body, is_extended, is_windows_absolute, is_windows_anchor, is_windows_name, lacks_root,
    leads_in_body, lemma_windows_joined, prefix_kind, windows_absolute, windows_anchor,
    windows_base_parts, windows_body_of, windows_join, windows_joined, windows_name, windows_parts,
    windows_parts_of, windows_settled, Prefix,
};

verus! {

/// What a path looks like, and whether host executables carry an extension.
#[derive(Debug, Clone, Copy, PartialEq, Eq, Structural)]
pub enum Platform {
    Posix,
    Windows,
}

pub open spec fn slash() -> Seq<char> {
    seq!['/']
}

pub open spec fn dot() -> Seq<char> {
    seq!['.']
}

pub open spec fn two_dots() -> Seq<char> {
    seq!['.', '.']
}

/// A path with `/` separators starts at a root.
pub open spec fn is_rooted(q: Seq<char>) -> bool {
    q.len() > 0 && q[0] == '/'
}

/// A path names its place without a current directory.
pub open spec fn is_absolute(platform: Platform, p: Seq<char>) -> bool {
    match platform {
        Platform::Posix => is_rooted(p),
        Platform::Windows => windows_absolute(p),
    }
}

/// A piece that counts as a part of a path.
pub open spec fn significant(piece: Seq<char>) -> bool {
    piece.len() > 0 && piece != dot()
}

pub open spec fn significant_pieces(pieces: Seq<Seq<char>>) -> Seq<Seq<char>>
    decreases pieces.len(),
{
    if pieces.len() == 0 {
        Seq::empty()
    } else if significant(pieces.last()) {
        significant_pieces(pieces.drop_last()).push(pieces.last())
    } else {
        significant_pieces(pieces.drop_last())
    }
}

/// The root or current directory that a path with `/` separators starts from.
pub open spec fn plain_anchor(q: Seq<char>) -> Seq<Seq<char>> {
    if is_rooted(q) {
        seq![slash()]
    } else if split_on(q, '/')[0] == dot() {
        seq![dot()]
    } else {
        Seq::empty()
    }
}

/// Where a path starts from, when it says so: its root or its leading `.`, and before that
/// what a Windows path starts with.
pub open spec fn anchor(platform: Platform, p: Seq<char>) -> Seq<Seq<char>> {
    match platform {
        Platform::Posix => plain_anchor(p),
        Platform::Windows => windows_anchor(p),
    }
}

/// The parts of a path, the anchor first.
pub open spec fn parts(platform: Platform, p: Seq<char>) -> Seq<Seq<char>> {
    match platform {
        Platform::Posix => plain_parts(p),
        Platform::Windows => windows_parts(p),
    }
}

/// A part that names an entry of a directory.
pub open spec fn is_name(platform: Platform, part: Seq<char>) -> bool {
    match platform {
        Platform::Posix => part != slash() && part != dot() && part != two_dots(),
        Platform::Windows => windows_name(part),
    }
}

/// The path `rel` seen from `base`, with `/` separators.
pub open spec fn plain_join(base: Seq<char>, rel: Seq<char>) -> Seq<char> {
    if is_rooted(rel) || base.len() == 0 {
        rel
    } else if base.last() == '/' {
        base + rel
    } else {
        base + slash() + rel
    }
}

/// The path `rel` seen from `base`.
pub open spec fn join_path(platform: Platform, base: Seq<char>, rel: Seq<char>) -> Seq<char> {
    match platform {
        Platform::Posix => plain_join(base, rel),
        Platform::Windows => windows_join(base, rel),
    }
}

/// How many characters the pieces take, with a separator between each two.
pub open spec fn joined_length(ps: Seq<Seq<char>>) -> int
    decreases ps.len(),
{
    if ps.len() == 0 {
        0
    } else if ps.len() == 1 {
        ps[0].len() as int
    } else {
        ps[0].len() + 1 + joined_length(ps.drop_first())
    }
}

/// The position of the last piece that is a part, or -1. In the extended form of Windows
/// every piece is one that is not empty.
pub open spec fn last_kept(extended: bool, ps: Seq<Seq<char>>) -> int
    decreases ps.len(),
{
    if ps.len() == 0 {
        -1
    } else if ps.last().len() > 0 && (extended || ps.last() != dot()) {
        ps.len() - 1
    } else {
        last_kept(extended, ps.drop_last())
    }
}

/// How much of a path is left when its last part is taken away. `ps` are its last pieces,
/// `length` is its length, and `lead` says whether a root or a leading `.` stands among the
/// pieces.
pub open spec fn parent_length(
    ps: Seq<Seq<char>>,
    extended: bool,
    lead: bool,
    length: int,
) -> int {
    let last = last_kept(extended, ps);
    if last < 0 {
        0
    } else {
        let before = last_kept(extended, ps.take(last));
        if before >= 0 {
            length - joined_length(ps.skip(before + 1)) - 1
        } else if lead {
            length - joined_length(ps) + 1
        } else {
            length - joined_length(ps)
        }
    }
}

/// The path without its last part, as it is written; a root, what a Windows path starts with,
/// and the empty path have none.
pub open spec fn parent(platform: Platform, p: Seq<char>) -> Option<Seq<char>> {
    let all = parts(platform, p);
    let length = p.len() as int;
    match platform {
        Platform::Posix => if all.len() == 0 || all.last() == slash() {
            None
        } else {
            Some(
                p.take(parent_length(split_on(p, '/'), false, plain_anchor(p).len() > 0, length)),
            )
        },
        Platform::Windows => if all.len() == 0 || all.last().contains('\\') {
            None
        } else {
            Some(p.take(parent_length(body(p), is_extended(p), leads_in_body(p), length)))
        },
    }
}

pub open spec fn file_name(platform: Platform, p: Seq<char>) -> Option<Seq<char>> {
    if parts(platform, p).len() > 0 && is_name(platform, parts(platform, p).last()) {
        Some(parts(platform, p).last())
    } else {
        None
    }
}

/// The position of the last `c`, or -1.
pub open spec fn last_index(s: Seq<char>, c: char) -> int
    decreases s.len(),
{
    if s.len() == 0 {
        -1
    } else if s.last() == c {
        s.len() - 1
    } else {
        last_index(s.drop_last(), c)
    }
}

/// What follows the last `.` of the file name, unless the name starts there.
pub open spec fn extension(platform: Platform, p: Seq<char>) -> Option<Seq<char>> {
    match file_name(platform, p) {
        None => None,
        Some(name) => if last_index(name, '.') <= 0 {
            None
        } else {
            Some(name.skip(last_index(name, '.') + 1))
        },
    }
}

/// `p` lies at or below `base`.
pub open spec fn is_below(platform: Platform, p: Seq<char>, base: Seq<char>) -> bool {
    parts(platform, base).is_prefix_of(parts(platform, p))
}

/// The pieces that are left when `n` significant ones have been taken from the front.
pub open spec fn pieces_after(pieces: Seq<Seq<char>>, n: nat) -> Seq<Seq<char>>
    decreases pieces.len(),
{
    if n == 0 || pieces.len() == 0 {
        pieces
    } else if significant(pieces[0]) {
        pieces_after(pieces.drop_first(), (n - 1) as nat)
    } else {
        pieces_after(pieces.drop_first(), n)
    }
}

pub open spec fn trim_pieces_start(pieces: Seq<Seq<char>>) -> Seq<Seq<char>>
    decreases pieces.len(),
{
    if pieces.len() > 0 && !significant(pieces[0]) {
        trim_pieces_start(pieces.drop_first())
    } else {
        pieces
    }
}

pub open spec fn trim_pieces_end(pieces: Seq<Seq<char>>) -> Seq<Seq<char>>
    decreases pieces.len(),
{
    if pieces.len() > 0 && !significant(pieces.last()) {
        trim_pieces_end(pieces.drop_last())
    } else {
        pieces
    }
}

/// What is written of `p` after `base`, without leading and trailing separators.
pub open spec fn text_below(p: Seq<char>, base: Seq<char>) -> Seq<char> {
    let taken = significant_pieces(split_on(base, '/')).len();
    join(trim_pieces_end(trim_pieces_start(pieces_after(split_on(p, '/'), taken))), slash())
}

pub proof fn lemma_split_nonempty(s: Seq<char>, c: char)
    ensures
        split_on(s, c).len() >= 1,
{
    lemma_first_index(s, c);
}

pub proof fn lemma_split_concat(a: Seq<char>, b: Seq<char>, c: char)
    ensures
        split_on(a + seq![c] + b, c) == split_on(a, c) + split_on(b, c),
    decreases a.len(),
{
    let whole = a + seq![c] + b;
    lemma_first_index(a, c);
    let n = first_index(a, c);
    assert(whole[n] == if n < a.len() { a[n] } else { c });
    assert forall|i: int| 0 <= i < n implies whole[i] != c by {
        assert(whole[i] == a[i]);
    }
    lemma_first_index_unique(whole, c, n);
    if n < a.len() {
        assert(whole.take(n) =~= a.take(n));
        assert(whole.skip(n + 1) =~= a.skip(n + 1) + seq![c] + b);
        lemma_split_concat(a.skip(n + 1), b, c);
        assert(split_on(whole, c) =~= split_on(a, c) + split_on(b, c));
    } else {
        assert(whole.take(n) =~= a);
        assert(whole.skip(n + 1) =~= b);
        assert(split_on(whole, c) =~= split_on(a, c) + split_on(b, c));
    }
}

pub proof fn lemma_significant_concat(a: Seq<Seq<char>>, b: Seq<Seq<char>>)
    ensures
        significant_pieces(a + b) == significant_pieces(a) + significant_pieces(b),
    decreases b.len(),
{
    if b.len() == 0 {
        assert(a + b =~= a);
        assert(significant_pieces(a) + significant_pieces(b) =~= significant_pieces(a));
    } else {
        assert((a + b).drop_last() =~= a + b.drop_last());
        lemma_significant_concat(a, b.drop_last());
        assert(significant_pieces(a + b) =~= significant_pieces(a) + significant_pieces(b));
    }
}

/// The parts of a path with `/` separators.
pub open spec fn plain_parts(q: Seq<char>) -> Seq<Seq<char>> {
    plain_anchor(q) + significant_pieces(split_on(q, '/'))
}

pub proof fn lemma_plain_joined(base: Seq<char>, rel: Seq<char>)
    requires
        !is_rooted(rel),
    ensures
        significant_pieces(split_on(plain_join(base, rel), '/')) == significant_pieces(
            split_on(base, '/'),
        ) + significant_pieces(split_on(rel, '/')),
        base.len() > 0 ==> split_on(plain_join(base, rel), '/')[0] == split_on(base, '/')[0]
            && is_rooted(plain_join(base, rel)) == is_rooted(base),
        plain_anchor(rel).len() == 0 ==> plain_parts(plain_join(base, rel)) == plain_parts(base)
            + plain_parts(rel),
{
    let whole = plain_join(base, rel);
    lemma_split_nonempty(base, '/');
    lemma_split_nonempty(rel, '/');
    if base.len() == 0 {
        assert(first_index(base, '/') == 0);
        assert(split_on(base, '/') =~= seq![base]);
        assert(significant_pieces(seq![base]) =~= Seq::empty()) by {
            reveal_with_fuel(significant_pieces, 2);
            assert(seq![base].drop_last() =~= Seq::empty());
        }
        assert(base != dot());
        assert(plain_parts(base) =~= Seq::empty());
        assert(plain_parts(base) + plain_parts(rel) =~= plain_parts(rel));
    } else {
        let a = if base.last() == '/' {
            base.drop_last()
        } else {
            base
        };
        assert(whole =~= a + seq!['/'] + rel);
        lemma_split_concat(a, rel, '/');
        lemma_split_nonempty(a, '/');
        lemma_significant_concat(split_on(a, '/'), split_on(rel, '/'));
        if base.last() == '/' {
            assert(base =~= a + seq!['/'] + Seq::<char>::empty());
            lemma_split_concat(a, Seq::empty(), '/');
            let e = Seq::<char>::empty();
            assert(first_index(e, '/') == 0);
            assert(split_on(e, '/') =~= seq![e]);
            lemma_significant_concat(split_on(a, '/'), seq![e]);
            assert(significant_pieces(seq![e]) =~= Seq::empty()) by {
                reveal_with_fuel(significant_pieces, 2);
                assert(seq![e].drop_last() =~= Seq::empty());
            }
            assert(significant_pieces(split_on(base, '/')) =~= significant_pieces(
                split_on(a, '/'),
            ));
            assert(split_on(base, '/')[0] == split_on(a, '/')[0]);
        }
        assert(split_on(whole, '/')[0] == split_on(a, '/')[0]);
        assert(is_rooted(whole) == is_rooted(base));
        assert(plain_anchor(whole) == plain_anchor(base));
        if plain_anchor(rel).len() == 0 {
            assert(plain_parts(whole) =~= plain_parts(base) + plain_parts(rel));
        }
    }
}

/// A prefix of the path is not still to come: on Windows, joining a name cannot make one.
pub open spec fn is_settled(platform: Platform, p: Seq<char>) -> bool {
    match platform {
        Platform::Posix => true,
        Platform::Windows => windows_settled(p),
    }
}

/// The parts that come before those of a joined name: in the extended form of Windows a root
/// is added to a path that has none.
pub open spec fn base_parts(platform: Platform, p: Seq<char>) -> Seq<Seq<char>> {
    match platform {
        Platform::Posix => plain_parts(p),
        Platform::Windows => windows_base_parts(p),
    }
}

/// The parts of a joined path are those of its base, then those of what was joined to it. A
/// base in the extended form of Windows is not left by `..`.
pub proof fn joined_parts(platform: Platform, base: Seq<char>, rel: Seq<char>)
    requires
        anchor(platform, rel).len() == 0,
        is_settled(platform, base),
        platform == Platform::Windows && is_extended(base) ==> !parts(platform, rel).contains(
            two_dots(),
        ),
    ensures
        rel.len() > 0 || base_parts(platform, base) == parts(platform, base) ==> parts(
            platform,
            join_path(platform, base, rel),
        ) == base_parts(platform, base) + parts(platform, rel),
        rel.len() > 0 ==> base_parts(platform, join_path(platform, base, rel)) == parts(
            platform,
            join_path(platform, base, rel),
        ),
        is_below(platform, join_path(platform, base, rel), base),
        is_settled(platform, join_path(platform, base, rel)),
{
    match platform {
        Platform::Posix => {
            let whole = join_path(platform, base, rel);
            lemma_plain_joined(base, rel);
            assert(parts(platform, whole).take(parts(platform, base).len() as int) =~= parts(
                platform,
                base,
            ));
        },
        Platform::Windows => {
            lemma_windows_joined(base, rel);
            if lacks_root(base) {
                assert(windows_base_parts(base).len() != windows_parts(base).len());
            }
        },
    }
}

pub proof fn below_is_transitive(platform: Platform, a: Seq<char>, b: Seq<char>, c: Seq<char>)
    requires
        is_below(platform, a, b),
        is_below(platform, b, c),
    ensures
        is_below(platform, a, c),
{
}

fn starts_rooted(p: &str) -> (r: bool)
    ensures
        r == is_rooted(p@),
{
    let chars = chars_of(p);
    chars.len() > 0 && chars[0] == '/'
}

/// Whether a path names its place without a current directory.
pub fn path_is_absolute(platform: Platform, p: &str) -> (r: bool)
    ensures
        r == is_absolute(platform, p@),
{
    match platform {
        Platform::Posix => starts_rooted(p),
        Platform::Windows => is_windows_absolute(p),
    }
}

fn is_significant(piece: &str) -> (r: bool)
    ensures
        r == significant(piece@),
{
    let chars = chars_of(piece);
    let lone_dot = chars.len() == 1 && chars[0] == '.';
    proof {
        if lone_dot {
            assert(piece@ =~= dot());
        }
    }
    chars.len() > 0 && !lone_dot
}

fn slash_text() -> (r: String)
    ensures
        r@ == slash(),
{
    let mut r = String::new();
    r.push('/');
    proof {
        assert(r@ =~= slash());
    }
    r
}

fn dot_text() -> (r: String)
    ensures
        r@ == dot(),
{
    let mut r = String::new();
    r.push('.');
    proof {
        assert(r@ =~= dot());
    }
    r
}

/// The parts of a path, the anchor first.
pub fn parts_of(platform: Platform, p: &str) -> (r: Vec<String>)
    ensures
        texts(r@) == parts(platform, p@),
{
    if platform == Platform::Windows {
        return windows_parts_of(p);
    }
    let list = split_text(p, '/');
    let mut out: Vec<String> = Vec::new();
    let ghost head = plain_anchor(p@);
    proof {
        lemma_split_nonempty(p@, '/');
        assert(texts(list@)[0] == list@[0]@);
    }
    if starts_rooted(p) {
        out.push(slash_text());
    } else if !is_significant(list[0].as_str()) && chars_of(list[0].as_str()).len() > 0 {
        out.push(dot_text());
    }
    proof {
        assert(texts(out@) =~= head);
        assert(texts(list@.take(0)) =~= Seq::empty());
        assert(head + Seq::<Seq<char>>::empty() =~= head);
    }
    let mut i: usize = 0;
    while i < list.len()
        invariant
            i <= list@.len(),
            texts(out@) == head + significant_pieces(texts(list@.take(i as int))),
        decreases list@.len() - i,
    {
        proof {
            let more = texts(list@.take(i as int + 1));
            assert(more.drop_last() =~= texts(list@.take(i as int)));
            assert(more.last() == list@[i as int]@);
        }
        if is_significant(list[i].as_str()) {
            proof {
                lemma_texts_push(out@, list@[i as int]);
            }
            let ghost before = out@;
            out.push(list[i].clone());
            proof {
                assert(texts(out@) =~= texts(before).push(list@[i as int]@));
                assert(texts(out@) =~= head + significant_pieces(
                    texts(list@.take(i as int + 1)),
                ));
            }
        }
        i = i + 1;
    }
    proof {
        assert(list@.take(list@.len() as int) =~= list@);
    }
    out
}

/// Whether two paths have the same parts.
pub fn same_path(platform: Platform, a: &str, b: &str) -> (r: bool)
    ensures
        r == (parts(platform, a@) == parts(platform, b@)),
{
    crate::types::same_texts(&parts_of(platform, a), &parts_of(platform, b))
}

/// `rel` seen from `base`.
pub fn joined(platform: Platform, base: &str, rel: &str) -> (r: String)
    ensures
        r@ == join_path(platform, base@, rel@),
{
    if platform == Platform::Windows {
        return windows_joined(base, rel);
    }
    let left = chars_of(base);
    if starts_rooted(rel) || left.len() == 0 {
        return rel.to_owned();
    }
    let mut out = base.to_owned();
    if left[left.len() - 1] != '/' {
        out.push('/');
        proof {
            assert(out@ =~= base@ + slash());
        }
    }
    out.append(rel);
    out
}

pub fn is_name_text(platform: Platform, part: &str) -> (r: bool)
    ensures
        r == is_name(platform, part@),
{
    if platform == Platform::Windows {
        return is_windows_name(part);
    }
    let chars = chars_of(part);
    let special = (chars.len() == 1 && (chars[0] == '/' || chars[0] == '.')) || (chars.len() == 2
        && chars[0] == '.' && chars[1] == '.');
    proof {
        if special {
            assert(part@ =~= slash() || part@ =~= dot() || part@ =~= two_dots());
        }
    }
    !special
}

/// The last part of a path, when it names an entry of a directory.
pub fn file_name_of(platform: Platform, p: &str) -> (r: Option<String>)
    ensures
        opt_text(r) == file_name(platform, p@),
{
    let list = parts_of(platform, p);
    proof {
        assert(texts(list@).len() == list@.len());
    }
    if list.len() == 0 {
        return None;
    }
    let last = list[list.len() - 1].clone();
    proof {
        assert(texts(list@).last() == last@);
    }
    if is_name_text(platform, last.as_str()) {
        Some(last)
    } else {
        None
    }
}

pub proof fn lemma_split_length(s: Seq<char>, c: char)
    ensures
        joined_length(split_on(s, c)) == s.len(),
    decreases s.len(),
{
    lemma_first_index(s, c);
    let n = first_index(s, c);
    if n < s.len() {
        let rest = s.skip(n + 1);
        lemma_split_length(rest, c);
        lemma_split_nonempty(rest, c);
        assert(split_on(s, c).drop_first() =~= split_on(rest, c));
    }
}

/// What is skipped takes at least a separator for each piece.
pub proof fn lemma_skipped_length(ps: Seq<Seq<char>>, k: int)
    requires
        0 <= k <= ps.len(),
    ensures
        0 <= joined_length(ps.skip(k)) <= joined_length(ps),
        0 < k < ps.len() ==> joined_length(ps.skip(k)) + k <= joined_length(ps),
    decreases k,
{
    if k == 0 {
        assert(ps.skip(0) =~= ps);
        lemma_length_bound(ps);
    } else {
        let rest = ps.drop_first();
        assert(ps.skip(k) =~= rest.skip(k - 1));
        lemma_skipped_length(rest, k - 1);
        lemma_length_bound(rest);
    }
}

proof fn lemma_length_bound(ps: Seq<Seq<char>>)
    ensures
        joined_length(ps) >= 0,
    decreases ps.len(),
{
    if ps.len() > 1 {
        lemma_length_bound(ps.drop_first());
    }
}

proof fn lemma_last_kept(extended: bool, ps: Seq<Seq<char>>)
    ensures
        -1 <= last_kept(extended, ps) < ps.len(),
    decreases ps.len(),
{
    if ps.len() > 0 {
        lemma_last_kept(extended, ps.drop_last());
    }
}

fn length_from(list: &Vec<String>, from: usize, Ghost(limit): Ghost<int>) -> (r: usize)
    requires
        from <= list@.len(),
        joined_length(texts(list@)) <= limit <= usize::MAX,
    ensures
        r == joined_length(texts(list@).skip(from as int)),
{
    let ghost all = texts(list@);
    let mut i: usize = list.len();
    let mut total: usize = 0;
    proof {
        assert(all.len() == list@.len());
        assert(all.skip(i as int) =~= Seq::empty());
    }
    while i > from
        invariant
            from <= i <= list@.len(),
            all == texts(list@),
            all.len() == list@.len(),
            joined_length(all) <= limit <= usize::MAX,
            total == joined_length(all.skip(i as int)),
        decreases i,
    {
        proof {
            assert(all.skip(i as int - 1).drop_first() =~= all.skip(i as int));
            assert(all.skip(i as int - 1)[0] == list@[i - 1]@);
            lemma_skipped_length(all, i as int - 1);
        }
        let own: usize = chars_of(list[i - 1].as_str()).len();
        if i == list.len() {
            total = own;
        } else {
            total = own + 1 + total;
        }
        i = i - 1;
    }
    total
}

/// How many pieces there are up to the last one that is a part.
fn kept_count(list: &Vec<String>, end: usize, extended: bool) -> (r: usize)
    requires
        end <= list@.len(),
    ensures
        r == last_kept(extended, texts(list@).take(end as int)) + 1,
        r <= end,
{
    let ghost all = texts(list@);
    let mut n: usize = end;
    proof {
        assert(all.len() == list@.len());
    }
    while n > 0
        invariant
            n <= end <= list@.len(),
            all == texts(list@),
            all.len() == list@.len(),
            last_kept(extended, all.take(end as int)) == last_kept(extended, all.take(n as int)),
        decreases n,
    {
        let piece = list[n - 1].as_str();
        let chars = chars_of(piece);
        proof {
            assert(all.take(n as int).last() == piece@);
            assert(all.take(n as int).drop_last() =~= all.take(n as int - 1));
        }
        let lone_dot = chars.len() == 1 && chars[0] == '.';
        proof {
            if lone_dot {
                assert(piece@ =~= dot());
            }
        }
        if chars.len() > 0 && (extended || !lone_dot) {
            return n;
        }
        n = n - 1;
    }
    n
}

/// The path without its last part.
pub fn parent_of(platform: Platform, p: &str) -> (r: Option<String>)
    ensures
        opt_text(r) == parent(platform, p@),
{
    let all = parts_of(platform, p);
    proof {
        assert(texts(all@).len() == all@.len());
    }
    if all.len() == 0 {
        return None;
    }
    proof {
        assert(texts(all@).last() == all@.last()@);
    }
    let last_part = all[all.len() - 1].as_str();
    let anchored = match platform {
        Platform::Posix => same(last_part, slash_text().as_str()),
        Platform::Windows => is_windows_anchor(last_part),
    };
    if anchored {
        return None;
    }
    let (extended, list, lead) = match platform {
        Platform::Posix => {
            let list = split_text(p, '/');
            proof {
                lemma_split_nonempty(p@, '/');
                lemma_split_length(p@, '/');
                assert(texts(list@)[0] == list@[0]@);
            }
            let dotted = !is_significant(list[0].as_str()) && chars_of(list[0].as_str()).len() > 0;
            let lead = starts_rooted(p) || dotted;
            (false, list, lead)
        },
        Platform::Windows => windows_body_of(p),
    };
    let chars = chars_of(p);
    let length: usize = chars.len();
    let ghost ps = texts(list@);
    proof {
        assert(ps.len() == list@.len());
        assert(ps.take(ps.len() as int) =~= ps);
        lemma_length_bound(ps);
        if platform == Platform::Posix && lead {
            lemma_first_index(p@, '/');
            assert(p@.len() > 0) by {
                if p@.len() == 0 {
                    assert(split_on(p@, '/') =~= seq![p@]);
                }
            }
        }
    }
    let last: usize = kept_count(&list, list.len(), extended);
    let mut end: usize = 0;
    if last > 0 {
        let before: usize = kept_count(&list, last - 1, extended);
        if before > 0 {
            proof {
                lemma_skipped_length(ps, before as int);
            }
            end = length - length_from(&list, before, Ghost(length as int)) - 1;
        } else {
            proof {
                assert(ps.skip(0) =~= ps);
            }
            end = length - length_from(&list, 0, Ghost(length as int));
            if lead {
                end = end + 1;
            }
        }
    }
    proof {
        assert(p@.subrange(0, end as int) =~= p@.take(end as int));
    }
    Some(text_between(&chars, 0, end))
}

/// What follows the last `.` of the file name.
pub fn extension_of(platform: Platform, p: &str) -> (r: Option<String>)
    ensures
        opt_text(r) == extension(platform, p@),
{
    match file_name_of(platform, p) {
        None => None,
        Some(name) => {
            let chars = chars_of(name.as_str());
            let mut i: usize = chars.len();
            proof {
                assert(chars@.take(i as int) =~= chars@);
            }
            while i > 0 && chars[i - 1] != '.'
                invariant
                    i <= chars@.len(),
                    last_index(chars@, '.') == last_index(chars@.take(i as int), '.'),
                decreases i,
            {
                proof {
                    assert(chars@.take(i as int).drop_last() =~= chars@.take(i as int - 1));
                }
                i = i - 1;
            }
            if i <= 1 {
                None
            } else {
                let ext = text_between(&chars, i, chars.len());
                proof {
                    assert(ext@ =~= chars@.skip(i as int));
                }
                Some(ext)
            }
        },
    }
}

/// The file name without its extension.
pub open spec fn stem(platform: Platform, p: Seq<char>) -> Option<Seq<char>> {
    match file_name(platform, p) {
        None => None,
        Some(name) => if last_index(name, '.') <= 0 {
            Some(name)
        } else {
            Some(name.take(last_index(name, '.')))
        },
    }
}

proof fn lemma_last_index(s: Seq<char>, c: char)
    ensures
        -1 <= last_index(s, c) < s.len(),
    decreases s.len(),
{
    if s.len() > 0 && s.last() != c {
        lemma_last_index(s.drop_last(), c);
    }
}

pub fn stem_of(platform: Platform, p: &str) -> (r: Option<String>)
    ensures
        opt_text(r) == stem(platform, p@),
{
    let name = match file_name_of(platform, p) {
        None => return None,
        Some(name) => name,
    };
    let ext = match extension_of(platform, p) {
        None => return Some(name),
        Some(ext) => ext,
    };
    let chars = chars_of(name.as_str());
    let tail: usize = chars_of(ext.as_str()).len();
    proof {
        lemma_last_index(name@, '.');
        assert(tail == name@.len() - last_index(name@, '.') - 1);
        assert(name@.subrange(0, last_index(name@, '.')) =~= name@.take(last_index(name@, '.')));
    }
    Some(text_between(&chars, 0, chars.len() - tail - 1))
}

/// Whether `p` lies at or below `base`.
pub fn path_is_below(platform: Platform, p: &str, base: &str) -> (r: bool)
    ensures
        r == is_below(platform, p@, base@),
{
    let outer = parts_of(platform, base);
    let inner = parts_of(platform, p);
    proof {
        assert(texts(outer@).len() == outer@.len());
        assert(texts(inner@).len() == inner@.len());
    }
    if outer.len() > inner.len() {
        return false;
    }
    let mut i: usize = 0;
    while i < outer.len()
        invariant
            i <= outer@.len() <= inner@.len(),
            texts(outer@) == parts(platform, base@),
            texts(inner@) == parts(platform, p@),
            forall|j: int| 0 <= j < i ==> texts(outer@)[j] == texts(inner@)[j],
        decreases outer@.len() - i,
    {
        if !same(outer[i].as_str(), inner[i].as_str()) {
            proof {
                assert(texts(outer@)[i as int] != texts(inner@)[i as int]);
                if is_below(platform, p@, base@) {
                    assert(parts(platform, p@).take(
                        parts(platform, base@).len() as int,
                    )[i as int] == parts(
                        platform,
                        p@,
                    )[i as int]);
                }
            }
            return false;
        }
        i = i + 1;
    }
    proof {
        assert(parts(platform, p@).take(
            parts(platform, base@).len() as int,
        ) =~= parts(platform, base@));
    }
    true
}

/// What is written of `p` after `base`.
fn remainder_below(p: &str, base: &str) -> (r: String)
    ensures
        r@ == text_below(p@, base@),
{
    let pieces = split_text(p, '/');
    let base_pieces = split_text(base, '/');
    let mut left: usize = 0;
    let mut i: usize = 0;
    proof {
        assert(texts(base_pieces@.take(0)) =~= Seq::empty());
    }
    while i < base_pieces.len()
        invariant
            i <= base_pieces@.len(),
            left <= i,
            left == significant_pieces(texts(base_pieces@.take(i as int))).len(),
        decreases base_pieces@.len() - i,
    {
        proof {
            let more = texts(base_pieces@.take(i as int + 1));
            assert(more.drop_last() =~= texts(base_pieces@.take(i as int)));
            assert(more.last() == base_pieces@[i as int]@);
        }
        if is_significant(base_pieces[i].as_str()) {
            left = left + 1;
        }
        i = i + 1;
    }
    proof {
        assert(base_pieces@.take(base_pieces@.len() as int) =~= base_pieces@);
    }
    let ghost all = texts(pieces@);
    let ghost taken = left as nat;
    let mut from: usize = 0;
    proof {
        assert(all.skip(0) =~= all);
        assert(all.len() == pieces@.len());
    }
    while left > 0 && from < pieces.len()
        invariant
            from <= pieces@.len(),
            all == texts(pieces@),
            pieces_after(all, taken) == pieces_after(all.skip(from as int), left as nat),
        decreases pieces@.len() - from,
    {
        proof {
            assert(all.skip(from as int)[0] == pieces@[from as int]@);
            assert(all.skip(from as int).drop_first() =~= all.skip(from as int + 1));
        }
        if is_significant(pieces[from].as_str()) {
            left = left - 1;
        }
        from = from + 1;
    }
    let ghost rest = all.skip(from as int);
    proof {
        assert(pieces_after(all, taken) == rest);
    }
    while from < pieces.len() && !is_significant(pieces[from].as_str())
        invariant
            from <= pieces@.len(),
            all == texts(pieces@),
            trim_pieces_start(rest) == trim_pieces_start(all.skip(from as int)),
        decreases pieces@.len() - from,
    {
        proof {
            assert(all.skip(from as int)[0] == pieces@[from as int]@);
            assert(all.skip(from as int).drop_first() =~= all.skip(from as int + 1));
        }
        from = from + 1;
    }
    let ghost body = all.skip(from as int);
    proof {
        if from < pieces@.len() {
            assert(body[0] == pieces@[from as int]@);
        }
        assert(trim_pieces_start(rest) == body);
        assert(all.subrange(from as int, pieces@.len() as int) =~= body);
    }
    let mut to: usize = pieces.len();
    while to > from && !is_significant(pieces[to - 1].as_str())
        invariant
            from <= to <= pieces@.len(),
            all == texts(pieces@),
            trim_pieces_end(body) == trim_pieces_end(all.subrange(from as int, to as int)),
        decreases to,
    {
        proof {
            assert(all.subrange(from as int, to as int).last() == pieces@[to - 1]@);
            assert(all.subrange(from as int, to as int).drop_last() =~= all.subrange(
                from as int,
                to as int - 1,
            ));
        }
        to = to - 1;
    }
    proof {
        if to > from {
            assert(all.subrange(from as int, to as int).last() == pieces@[to - 1]@);
        }
    }
    let mut kept: Vec<String> = Vec::new();
    let mut k: usize = from;
    while k < to
        invariant
            from <= k <= to <= pieces@.len(),
            all == texts(pieces@),
            texts(kept@) == all.subrange(from as int, k as int),
        decreases to - k,
    {
        proof {
            lemma_texts_push(kept@, pieces@[k as int]);
            assert(all.subrange(from as int, k as int + 1) =~= all.subrange(
                from as int,
                k as int,
            ).push(pieces@[k as int]@));
        }
        let ghost before = kept@;
        kept.push(pieces[k].clone());
        proof {
            assert(texts(kept@) =~= texts(before).push(pieces@[k as int]@));
        }
        k = k + 1;
    }
    join_texts(&kept, slash_text().as_str())
}

/// A path as it is shown to the user: the home directory is written `~`.
pub open spec fn display_path(platform: Platform, p: Seq<char>, home: Seq<char>) -> Seq<char> {
    match platform {
        Platform::Windows => windows_display(p, home),
        Platform::Posix => if !is_below(platform, p, home) {
            p
        } else if text_below(p, home).len() == 0 {
            "~"@
        } else {
            join_path(platform, "~"@, text_below(p, home))
        },
    }
}

pub fn display_user_path_with_home(platform: Platform, path: &str, home: &str) -> (r: String)
    ensures
        r@ == display_path(platform, path@, home@),
{
    if platform == Platform::Windows {
        return display_windows_path(path, home);
    }
    if !path_is_below(platform, path, home) {
        return path.to_owned();
    }
    let relative = remainder_below(path, home);
    if chars_of(relative.as_str()).len() == 0 {
        "~".to_owned()
    } else {
        joined(platform, "~", relative.as_str())
    }
}

/// A Windows path without the mark of the extended form.
pub open spec fn plain_form(p: Seq<char>) -> Seq<char> {
    if "\\\\?\\UNC\\"@.is_prefix_of(p) {
        "\\\\"@ + p.skip(8)
    } else if "\\\\?\\"@.is_prefix_of(p) {
        p.skip(4)
    } else {
        p
    }
}

pub fn plain_path_display(path: &str) -> (r: String)
    ensures
        r@ == plain_form(path@),
{
    proof {
        reveal_strlit("\\\\?\\UNC\\");
        reveal_strlit("\\\\?\\");
    }
    if let Some(rest) = strip_prefix(path, "\\\\?\\UNC\\") {
        let mut out = "\\\\".to_owned();
        out.append(rest.as_str());
        return out;
    }
    if let Some(rest) = strip_prefix(path, "\\\\?\\") {
        return rest;
    }
    path.to_owned()
}

/// How Windows shows a path: the home directory, in whatever case, is written `~`.
pub open spec fn windows_display(p: Seq<char>, home: Seq<char>) -> Seq<char> {
    let shown = plain_form(p);
    let base = plain_form(home);
    if ascii_lower(shown) == ascii_lower(base) {
        "~"@
    } else if ascii_lower(base).is_prefix_of(ascii_lower(shown)) && (shown[base.len() as int]
        == '\\' || shown[base.len() as int] == '/') {
        "~"@ + shown.skip(base.len() as int)
    } else {
        shown
    }
}

/// A Windows path as it is shown to the user.
pub fn display_windows_path(path: &str, home: &str) -> (r: String)
    ensures
        r@ == windows_display(path@, home@),
{
    let shown = plain_path_display(path);
    let base = plain_path_display(home);
    let shown_lower = to_ascii_lower(shown.as_str());
    let base_lower = to_ascii_lower(base.as_str());
    if same(shown_lower.as_str(), base_lower.as_str()) {
        return "~".to_owned();
    }
    let chars = chars_of(shown.as_str());
    let n: usize = chars_of(base.as_str()).len();
    proof {
        assert(ascii_lower(shown@).len() == shown@.len());
        assert(ascii_lower(base@).len() == base@.len());
    }
    if starts_with(shown_lower.as_str(), base_lower.as_str()) {
        proof {
            if n == chars@.len() {
                assert(ascii_lower(base@) =~= ascii_lower(shown@));
            }
        }
        if chars[n] == '\\' || chars[n] == '/' {
            let mut out = "~".to_owned();
            proof {
                assert(chars@.subrange(n as int, chars@.len() as int) =~= shown@.skip(n as int));
            }
            out.append(text_between(&chars, n, chars.len()).as_str());
            return out;
        }
    }
    shown
}

pub open spec fn manager_name(platform: Platform) -> Seq<char> {
    match platform {
        Platform::Posix => "codex-patcher"@,
        Platform::Windows => "codex-patcher.exe"@,
    }
}

pub fn manager_file_name(platform: Platform) -> (r: &'static str)
    ensures
        r@ == manager_name(platform),
{
    match platform {
        Platform::Posix => "codex-patcher",
        Platform::Windows => "codex-patcher.exe",
    }
}

/// Every file and directory that the patcher owns.
#[derive(Debug, PartialEq, Eq)]
pub struct PatcherPaths {
    pub platform: Platform,
    pub home: String,
    pub manager_dir: String,
    pub manager: String,
    pub state_dir: String,
    pub state: String,
    pub locks_dir: String,
    pub manager_lock: String,
    pub state_lock: String,
    pub probe_lock: String,
    pub build_lock: String,
    pub logs_dir: String,
    pub cache_dir: String,
    pub cargo_target_dir: String,
    pub remote_cache: String,
    pub mirror_dir: String,
    pub worktrees_dir: String,
    pub generations_dir: String,
    pub backups_dir: String,
}

/// The directories of the layout, the home first.
pub open spec fn directory_list(p: PatcherPaths) -> Seq<Seq<char>> {
    seq![
        p.home@,
        p.manager_dir@,
        p.state_dir@,
        p.locks_dir@,
        p.logs_dir@,
        p.cache_dir@,
        p.cargo_target_dir@,
        p.worktrees_dir@,
        p.generations_dir@,
        p.backups_dir@,
    ]
}

/// The files of the layout.
pub open spec fn file_list(p: PatcherPaths) -> Seq<Seq<char>> {
    seq![
        p.manager@,
        p.state@,
        p.manager_lock@,
        p.state_lock@,
        p.probe_lock@,
        p.build_lock@,
        p.remote_cache@,
    ]
}

/// The layout below the three roots.
pub open spec fn laid_out(
    p: PatcherPaths,
    data: Seq<char>,
    cache: Seq<char>,
    state: Seq<char>,
    platform: Platform,
) -> bool {
    &&& p.platform == platform
    &&& p.home@ == data
    &&& p.cache_dir@ == cache
    &&& p.state_dir@ == state
    &&& p.manager_dir@ == join_path(platform, data, "bin"@)
    &&& p.manager@ == join_path(platform, join_path(platform, data, "bin"@), manager_name(platform))
    &&& p.generations_dir@ == join_path(platform, data, "generations"@)
    &&& p.backups_dir@ == join_path(platform, data, "backups"@)
    &&& p.state@ == join_path(platform, state, "state.json"@)
    &&& p.remote_cache@ == join_path(platform, state, "remote.json"@)
    &&& p.locks_dir@ == join_path(platform, state, "locks"@)
    &&& p.manager_lock@ == join_path(
        platform,
        join_path(platform, state, "locks"@),
        "manager.lock"@,
    )
    &&& p.state_lock@ == join_path(platform, join_path(platform, state, "locks"@), "state.lock"@)
    &&& p.probe_lock@ == join_path(platform, join_path(platform, state, "locks"@), "probe.lock"@)
    &&& p.build_lock@ == join_path(platform, join_path(platform, state, "locks"@), "build.lock"@)
    &&& p.logs_dir@ == join_path(platform, state, "logs"@)
    &&& p.mirror_dir@ == join_path(platform, cache, "upstream.git"@)
    &&& p.worktrees_dir@ == join_path(platform, cache, "worktrees"@)
    &&& p.cargo_target_dir@ == join_path(platform, cache, "cargo-target"@)
}

/// A longer text without separators and colons is a path of one part.
pub proof fn lemma_plain_name(platform: Platform, name: Seq<char>)
    requires
        name.len() > 1,
        name != two_dots(),
        forall|i: int| 0 <= i < name.len() ==> name[i] != '/',
        platform == Platform::Windows ==> name[1] != ':' && forall|i: int|
            0 <= i < name.len() ==> name[i] != '\\',
    ensures
        anchor(platform, name).len() == 0,
        parts(platform, name) == seq![name],
        !parts(platform, name).contains(two_dots()),
{
    lemma_first_index_unique(name, '/', name.len() as int);
    assert(split_on(name, '/') =~= seq![name]);
    assert(name.len() != dot().len());
    reveal_with_fuel(significant_pieces, 2);
    assert(seq![name].drop_last() =~= Seq::empty());
    assert(significant_pieces(seq![name]) =~= seq![name]);
    if platform == Platform::Windows {
        assert(forward_slashes(name) =~= name);
        assert(name[0] != '\\');
        assert(prefix_kind(name) == Prefix::Nothing);
    }
    assert(parts(platform, name) =~= seq![name]);
}

/// Data, cache and state stay below their own roots, whatever the roots are.
pub proof fn layout_keeps_roots_separate(
    p: PatcherPaths,
    data: Seq<char>,
    cache: Seq<char>,
    state: Seq<char>,
    platform: Platform,
)
    requires
        laid_out(p, data, cache, state, platform),
        is_settled(platform, data),
        is_settled(platform, cache),
        is_settled(platform, state),
    ensures
        is_below(platform, p.manager_dir@, data),
        is_below(platform, p.manager@, data),
        is_below(platform, p.generations_dir@, data),
        is_below(platform, p.backups_dir@, data),
        is_below(platform, p.state@, state),
        is_below(platform, p.remote_cache@, state),
        is_below(platform, p.locks_dir@, state),
        is_below(platform, p.manager_lock@, state),
        is_below(platform, p.state_lock@, state),
        is_below(platform, p.probe_lock@, state),
        is_below(platform, p.build_lock@, state),
        is_below(platform, p.logs_dir@, state),
        is_below(platform, p.mirror_dir@, cache),
        is_below(platform, p.worktrees_dir@, cache),
        is_below(platform, p.cargo_target_dir@, cache),
{
    reveal_strlit("bin");
    reveal_strlit("codex-patcher");
    reveal_strlit("codex-patcher.exe");
    reveal_strlit("generations");
    reveal_strlit("backups");
    reveal_strlit("state.json");
    reveal_strlit("remote.json");
    reveal_strlit("locks");
    reveal_strlit("manager.lock");
    reveal_strlit("state.lock");
    reveal_strlit("probe.lock");
    reveal_strlit("build.lock");
    reveal_strlit("logs");
    reveal_strlit("upstream.git");
    reveal_strlit("worktrees");
    reveal_strlit("cargo-target");
    lemma_plain_name(platform, "bin"@);
    lemma_plain_name(platform, manager_name(platform));
    lemma_plain_name(platform, "generations"@);
    lemma_plain_name(platform, "backups"@);
    lemma_plain_name(platform, "state.json"@);
    lemma_plain_name(platform, "remote.json"@);
    lemma_plain_name(platform, "locks"@);
    lemma_plain_name(platform, "manager.lock"@);
    lemma_plain_name(platform, "state.lock"@);
    lemma_plain_name(platform, "probe.lock"@);
    lemma_plain_name(platform, "build.lock"@);
    lemma_plain_name(platform, "logs"@);
    lemma_plain_name(platform, "upstream.git"@);
    lemma_plain_name(platform, "worktrees"@);
    lemma_plain_name(platform, "cargo-target"@);
    joined_parts(platform, data, "bin"@);
    joined_parts(platform, p.manager_dir@, manager_name(platform));
    below_is_transitive(platform, p.manager@, p.manager_dir@, data);
    joined_parts(platform, data, "generations"@);
    joined_parts(platform, data, "backups"@);
    joined_parts(platform, state, "state.json"@);
    joined_parts(platform, state, "remote.json"@);
    joined_parts(platform, state, "locks"@);
    joined_parts(platform, p.locks_dir@, "manager.lock"@);
    joined_parts(platform, p.locks_dir@, "state.lock"@);
    joined_parts(platform, p.locks_dir@, "probe.lock"@);
    joined_parts(platform, p.locks_dir@, "build.lock"@);
    below_is_transitive(platform, p.manager_lock@, p.locks_dir@, state);
    below_is_transitive(platform, p.state_lock@, p.locks_dir@, state);
    below_is_transitive(platform, p.probe_lock@, p.locks_dir@, state);
    below_is_transitive(platform, p.build_lock@, p.locks_dir@, state);
    joined_parts(platform, state, "logs"@);
    joined_parts(platform, cache, "upstream.git"@);
    joined_parts(platform, cache, "worktrees"@);
    joined_parts(platform, cache, "cargo-target"@);
}

impl PatcherPaths {
    /// Everything below one directory.
    pub fn from_home(home: &str, platform: Platform) -> (r: Self)
        ensures
            laid_out(
                r,
                home@,
                join_path(platform, home@, "cache"@),
                join_path(platform, home@, "state"@),
                platform,
            ),
    {
        let cache = joined(platform, home, "cache");
        let state = joined(platform, home, "state");
        Self::from_roots(home, cache.as_str(), state.as_str(), platform)
    }

    pub fn from_roots(
        data_root: &str,
        cache_root: &str,
        state_root: &str,
        platform: Platform,
    ) -> (r: Self)
        ensures
            laid_out(r, data_root@, cache_root@, state_root@, platform),
    {
        let manager_dir = joined(platform, data_root, "bin");
        let locks_dir = joined(platform, state_root, "locks");
        PatcherPaths {
            platform,
            manager: joined(platform, manager_dir.as_str(), manager_file_name(platform)),
            state: joined(platform, state_root, "state.json"),
            manager_lock: joined(platform, locks_dir.as_str(), "manager.lock"),
            state_lock: joined(platform, locks_dir.as_str(), "state.lock"),
            probe_lock: joined(platform, locks_dir.as_str(), "probe.lock"),
            build_lock: joined(platform, locks_dir.as_str(), "build.lock"),
            mirror_dir: joined(platform, cache_root, "upstream.git"),
            worktrees_dir: joined(platform, cache_root, "worktrees"),
            cargo_target_dir: joined(platform, cache_root, "cargo-target"),
            remote_cache: joined(platform, state_root, "remote.json"),
            generations_dir: joined(platform, data_root, "generations"),
            backups_dir: joined(platform, data_root, "backups"),
            logs_dir: joined(platform, state_root, "logs"),
            home: data_root.to_owned(),
            manager_dir,
            state_dir: state_root.to_owned(),
            locks_dir,
            cache_dir: cache_root.to_owned(),
        }
    }

    /// The home that `CODEX_PATCHER_HOME` names, seen from the current directory; none
    /// when the variable is unset or empty.
    pub fn configured_home(platform: Platform, value: Option<&str>, current_dir: &str) -> (r:
        Option<String>)
        ensures
            opt_text(r) == (match value {
                Some(v) => if v@.len() == 0 {
                    None
                } else if is_absolute(platform, v@) {
                    Some(v@)
                } else {
                    Some(join_path(platform, current_dir@, v@))
                },
                None => None,
            }),
    {
        match value {
            Some(v) => {
                if chars_of(v).len() == 0 {
                    None
                } else if path_is_absolute(platform, v) {
                    Some(v.to_owned())
                } else {
                    Some(joined(platform, current_dir, v))
                }
            },
            None => None,
        }
    }

    /// The directories that must exist before anything else is done.
    pub fn directories(&self) -> (r: Vec<String>)
        ensures
            texts(r@) == directory_list(*self),
    {
        let r = vec![
            self.home.clone(),
            self.manager_dir.clone(),
            self.state_dir.clone(),
            self.locks_dir.clone(),
            self.logs_dir.clone(),
            self.cache_dir.clone(),
            self.cargo_target_dir.clone(),
            self.worktrees_dir.clone(),
            self.generations_dir.clone(),
            self.backups_dir.clone(),
        ];
        proof {
            assert(texts(r@) =~= directory_list(*self));
        }
        r
    }

    /// The directories to create, in order; an empty home is refused.
    pub fn ensure(&self) -> (r: Result<Vec<String>, String>)
        ensures
            self.home@.len() == 0 ==> (r matches Err(e) && e@
                == "patcher home cannot be empty"@),
            self.home@.len() > 0 ==> (r matches Ok(list) && texts(list@) == directory_list(*self)),
    {
        if chars_of(self.home.as_str()).len() == 0 {
            return Err("patcher home cannot be empty".to_owned());
        }
        Ok(self.directories())
    }

    pub fn generation(&self, id: &str) -> (r: String)
        ensures
            r@ == join_path(self.platform, self.generations_dir@, id@),
    {
        joined(self.platform, self.generations_dir.as_str(), id)
    }

    pub fn worktree(&self, id: &str) -> (r: String)
        ensures
            r@ == join_path(self.platform, self.worktrees_dir@, id@),
    {
        joined(self.platform, self.worktrees_dir.as_str(), id)
    }

    pub fn log(&self, id: &str) -> (r: String)
        ensures
            r@ == join_path(self.platform, self.logs_dir@, id@ + ".log"@),
    {
        let mut name = id.to_owned();
        name.append(".log");
        joined(self.platform, self.logs_dir.as_str(), name.as_str())
    }

    pub fn for_test(root: &str, platform: Platform) -> (r: Self)
        ensures
            laid_out(
                r,
                root@,
                join_path(platform, root@, "cache"@),
                join_path(platform, root@, "state"@),
                platform,
            ),
    {
        Self::from_home(root, platform)
    }

    pub fn manager_binary(&self) -> (r: String)
        ensures
            r@ == self.manager@,
    {
        self.manager.clone()
    }

    pub fn state_file(&self) -> (r: String)
        ensures
            r@ == self.state@,
    {
        self.state.clone()
    }

    pub fn state_lock(&self) -> (r: String)
        ensures
            r@ == self.state_lock@,
    {
        self.state_lock.clone()
    }

    pub fn probe_lock(&self) -> (r: String)
        ensures
            r@ == self.probe_lock@,
    {
        self.probe_lock.clone()
    }

    pub fn build_lock(&self) -> (r: String)
        ensures
            r@ == self.build_lock@,
    {
        self.build_lock.clone()
    }

    pub fn logs_dir(&self) -> (r: String)
        ensures
            r@ == self.logs_dir@,
    {
        self.logs_dir.clone()
    }

    pub fn cache_dir(&self) -> (r: String)
        ensures
            r@ == self.cache_dir@,
    {
        self.cache_dir.clone()
    }

    pub fn mirror_dir(&self) -> (r: String)
        ensures
            r@ == self.mirror_dir@,
    {
        self.mirror_dir.clone()
    }

    pub fn worktrees_dir(&self) -> (r: String)
        ensures
            r@ == self.worktrees_dir@,
    {
        self.worktrees_dir.clone()
    }

    pub fn generations_dir(&self) -> (r: String)
        ensures
            r@ == self.generations_dir@,
    {
        self.generations_dir.clone()
    }

    pub fn cargo_target_dir(&self) -> (r: String)
        ensures
            r@ == self.cargo_target_dir@,
    {
        self.cargo_target_dir.clone()
    }

    /// Build outputs are kept apart by target and profile.
    pub fn cargo_target_dir_for(&self, target: &str, cargo_profile: &str) -> (r: String)
        ensures
            r@ == join_path(
                self.platform,
                join_path(self.platform, self.cargo_target_dir@, target@),
                cargo_profile@,
            ),
    {
        let by_target = joined(self.platform, self.cargo_target_dir.as_str(), target);
        joined(self.platform, by_target.as_str(), cargo_profile)
    }

    pub fn remote_cache_file(&self) -> (r: String)
        ensures
            r@ == self.remote_cache@,
    {
        self.remote_cache.clone()
    }
}

} // verus!
