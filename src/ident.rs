//! Splitting a change id's display text at its shortest unambiguous prefix.

use vstd::prelude::*;
use vstd::string::{StrSliceExecFns, StringExecFns};

use crate::stat::same_bytes;

verus! {

/// The digit that stands for `nibble` in the reverse-hex alphabet, where
/// `0` is written `z` and `15` is written `k`.
pub open spec fn reverse_hex_digit(nibble: int) -> char {
    "zyxwvutsrqponmlk"@[nibble]
}

/// The reverse-hex rendering of `bytes`: two digits per byte, high nibble
/// first.
pub open spec fn reverse_hex_of(bytes: Seq<u8>) -> Seq<char>
    decreases bytes.len(),
{
    if bytes.len() == 0 {
        Seq::empty()
    } else {
        reverse_hex_of(bytes.drop_last()) + seq![
            reverse_hex_digit(bytes.last() as int / 16),
            reverse_hex_digit(bytes.last() as int % 16),
        ]
    }
}

/// The hex digits of `bytes` as numbers, high nibble first.
pub open spec fn nibbles(bytes: Seq<u8>) -> Seq<int>
    decreases bytes.len(),
{
    if bytes.len() == 0 {
        Seq::empty()
    } else {
        nibbles(bytes.drop_last()) + seq![bytes.last() as int / 16, bytes.last() as int % 16]
    }
}

/// How many leading elements `a` and `b` have in common.
pub open spec fn common_len(a: Seq<int>, b: Seq<int>) -> nat
    decreases a.len(),
{
    if a.len() == 0 || b.len() == 0 || a[0] != b[0] {
        0
    } else {
        1 + common_len(a.drop_first(), b.drop_first())
    }
}

/// The number of leading digits that `target` needs so that no other id of
/// `known` starts with the same digits; at least one.
pub open spec fn unique_prefix_len(known: Seq<Seq<u8>>, target: Seq<u8>) -> nat
    decreases known.len(),
{
    if known.len() == 0 {
        1
    } else {
        let rest = unique_prefix_len(known.drop_last(), target);
        let other = known.last();
        if other == target {
            rest
        } else {
            let needed = common_len(nibbles(other), nibbles(target)) + 1;
            if needed > rest {
                needed
            } else {
                rest
            }
        }
    }
}

/// Relies on `jj_lib::hex_util::common_hex_len`: the number of leading hex
/// digits that the two byte strings share.
#[verifier::external_body]
fn common_hex_len(a: &[u8], b: &[u8]) -> (r: usize)
    requires
        2 * a@.len() < usize::MAX,
    ensures
        r == common_len(nibbles(a@), nibbles(b@)),
{
    jj_lib::hex_util::common_hex_len(a, b)
}

/// There are two digits per byte.
pub proof fn lemma_nibbles_len(bytes: Seq<u8>)
    ensures
        nibbles(bytes).len() == 2 * bytes.len(),
    decreases bytes.len(),
{
    if bytes.len() > 0 {
        lemma_nibbles_len(bytes.drop_last());
    }
}

/// The common part is no longer than either sequence.
pub proof fn lemma_common_len_bound(a: Seq<int>, b: Seq<int>)
    ensures
        common_len(a, b) <= a.len(),
        common_len(a, b) <= b.len(),
    decreases a.len(),
{
    if !(a.len() == 0 || b.len() == 0 || a[0] != b[0]) {
        lemma_common_len_bound(a.drop_first(), b.drop_first());
    }
}

/// `common_len` counts exactly the leading positions where the two agree.
pub proof fn lemma_common_len_meaning(a: Seq<int>, b: Seq<int>)
    ensures
        common_len(a, b) <= a.len(),
        common_len(a, b) <= b.len(),
        a.take(common_len(a, b) as int) == b.take(common_len(a, b) as int),
        common_len(a, b) < a.len() && common_len(a, b) < b.len() ==> a[common_len(a, b) as int]
            != b[common_len(a, b) as int],
    decreases a.len(),
{
    lemma_common_len_bound(a, b);
    if !(a.len() == 0 || b.len() == 0 || a[0] != b[0]) {
        let (a1, b1) = (a.drop_first(), b.drop_first());
        lemma_common_len_meaning(a1, b1);
        let c = common_len(a, b) as int;
        assert(a.take(c) =~= seq![a[0]] + a1.take(c - 1));
        assert(b.take(c) =~= seq![b[0]] + b1.take(c - 1));
        if c < a.len() && c < b.len() {
            assert(a[c] == a1[c - 1]);
            assert(b[c] == b1[c - 1]);
        }
    } else {
        assert(a.take(0) =~= b.take(0));
    }
}

/// `common_len` does not depend on the order of its arguments.
pub proof fn lemma_common_len_symmetric(a: Seq<int>, b: Seq<int>)
    ensures
        common_len(a, b) == common_len(b, a),
    decreases a.len(),
{
    if !(a.len() == 0 || b.len() == 0 || a[0] != b[0]) {
        lemma_common_len_symmetric(a.drop_first(), b.drop_first());
    }
}

/// Byte strings of one length with the same digits are equal.
pub proof fn lemma_nibbles_injective(a: Seq<u8>, b: Seq<u8>)
    requires
        a.len() == b.len(),
        nibbles(a) == nibbles(b),
    ensures
        a == b,
    decreases a.len(),
{
    if a.len() > 0 {
        lemma_nibbles_len(a.drop_last());
        lemma_nibbles_len(b.drop_last());
        let k = 2 * (a.len() - 1);
        assert(nibbles(a)[k] == a.last() as int / 16);
        assert(nibbles(b)[k] == b.last() as int / 16);
        assert(nibbles(a)[k + 1] == a.last() as int % 16);
        assert(nibbles(b)[k + 1] == b.last() as int % 16);
        assert(nibbles(a.drop_last()) =~= nibbles(a).take(k));
        assert(nibbles(b.drop_last()) =~= nibbles(b).take(k));
        lemma_nibbles_injective(a.drop_last(), b.drop_last());
        assert(a.last() == b.last());
        assert(a =~= b.drop_last().push(b.last()));
    }
}

/// The rendering writes each digit with the reverse-hex alphabet.
pub proof fn lemma_rendering_digits(bytes: Seq<u8>)
    ensures
        reverse_hex_of(bytes) == nibbles(bytes).map_values(|n: int| reverse_hex_digit(n)),
    decreases bytes.len(),
{
    if bytes.len() > 0 {
        lemma_rendering_digits(bytes.drop_last());
        assert(reverse_hex_of(bytes) =~= nibbles(bytes).map_values(|n: int| reverse_hex_digit(n)));
    }
}

/// Every digit lies in `0..16`.
pub proof fn lemma_nibble_range(bytes: Seq<u8>, i: int)
    requires
        0 <= i < nibbles(bytes).len(),
    ensures
        0 <= nibbles(bytes)[i] < 16,
    decreases bytes.len(),
{
    lemma_nibbles_len(bytes.drop_last());
    if i < nibbles(bytes.drop_last()).len() {
        lemma_nibble_range(bytes.drop_last(), i);
    }
}

/// Different digits are written with different characters.
pub proof fn lemma_reverse_hex_digit_injective(m: int, n: int)
    requires
        0 <= m < 16,
        0 <= n < 16,
        m != n,
    ensures
        reverse_hex_digit(m) != reverse_hex_digit(n),
{
    reveal_strlit("zyxwvutsrqponmlk");
}

/// The shortest prefix length of `target` among `known`: the fewest leading
/// digits of its rendering that no other id of `known` shares, and at least
/// one.
pub fn shortest_unique_prefix_len(known: &Vec<Vec<u8>>, target: &[u8]) -> (n: usize)
    requires
        2 * target@.len() < usize::MAX,
    ensures
        n == unique_prefix_len(known.deep_view(), target@),
{
    let ghost ks = known.deep_view();
    let mut n: usize = 1;
    let mut i: usize = 0;
    while i < known.len()
        invariant
            i <= known@.len(),
            ks == known.deep_view(),
            ks.len() == known@.len(),
            2 * target@.len() < usize::MAX,
            n == unique_prefix_len(ks.take(i as int), target@),
            n <= 2 * target@.len() + 1,
        decreases known@.len() - i,
    {
        let other = known[i].as_slice();
        proof {
            assert(ks[i as int] == other@);
            assert(ks.take(i + 1).drop_last() =~= ks.take(i as int));
            lemma_nibbles_len(target@);
            lemma_common_len_bound(nibbles(target@), nibbles(other@));
        }
        if !same_bytes(other, target) {
            let c = common_hex_len(target, other);
            proof {
                lemma_common_len_symmetric(nibbles(target@), nibbles(other@));
            }
            if c + 1 > n {
                n = c + 1;
            }
        }
        i = i + 1;
    }
    proof {
        assert(ks.take(i as int) =~= ks);
    }
    n
}

/// Relies on `jj_lib::hex_util::encode_reverse_hex`, which writes each byte as
/// two digits of `zyxwvutsrqponmlk`, high nibble first.
#[verifier::external_body]
fn encode_reverse_hex(bytes: &[u8]) -> (r: String)
    ensures
        r@ == reverse_hex_of(bytes@),
{
    jj_lib::hex_util::encode_reverse_hex(bytes)
}

/// The shown part of an id's rendering: at most `total_len` characters.
pub open spec fn shown_len(rendering_len: nat, total_len: nat) -> nat {
    if total_len < rendering_len {
        total_len
    } else {
        rendering_len
    }
}

/// Where the shown part is split: after `prefix_len` characters, or at its
/// end when it is shorter.
pub open spec fn split_point(prefix_len: nat, shown: nat) -> nat {
    if prefix_len < shown {
        prefix_len
    } else {
        shown
    }
}

/// The pair `(prefix, rest)` for a rendering: its first `total_len`
/// characters, split after `prefix_len` of them.
pub open spec fn split_rendering(rendering: Seq<char>, prefix_len: nat, total_len: nat) -> (
    Seq<char>,
    Seq<char>,
) {
    let shown = shown_len(rendering.len(), total_len);
    let k = split_point(prefix_len, shown);
    (rendering.take(k as int), rendering.subrange(k as int, shown as int))
}

/// Splits the first `total_len` characters of `rendering` into a prefix of
/// `prefix_len` characters (fewer when the shown part is shorter) and the
/// rest.
pub fn split_at_prefix(rendering: &str, prefix_len: usize, total_len: usize) -> (r: (
    String,
    String,
))
    ensures
        (r.0@, r.1@) == split_rendering(rendering@, prefix_len as nat, total_len as nat),
{
    let len = rendering.unicode_len();
    let shown = if total_len < len {
        total_len
    } else {
        len
    };
    let k = if prefix_len < shown {
        prefix_len
    } else {
        shown
    };
    let prefix = String::from_str(rendering.substring_char(0, k));
    let rest = String::from_str(rendering.substring_char(k, shown));
    (prefix, rest)
}

/// The display pair of a change id given as its bytes: its reverse-hex
/// rendering cut to `total_len` characters and split after the shortest
/// unambiguous prefix length `prefix_len`.
pub fn shortest(id: &[u8], prefix_len: usize, total_len: usize) -> (r: (String, String))
    ensures
        (r.0@, r.1@) == split_rendering(reverse_hex_of(id@), prefix_len as nat, total_len as nat),
{
    let rendering = encode_reverse_hex(id);
    split_at_prefix(rendering.as_str(), prefix_len, total_len)
}

/// Putting the prefix and the rest back together gives the rendering cut to
/// `total_len` characters.
pub proof fn law_prefix_and_rest_rebuild_rendering(
    rendering: Seq<char>,
    prefix_len: nat,
    total_len: nat,
)
    ensures
        ({
            let (prefix, rest) = split_rendering(rendering, prefix_len, total_len);
            prefix + rest == rendering.take(shown_len(rendering.len(), total_len) as int)
        }),
{
    let (prefix, rest) = split_rendering(rendering, prefix_len, total_len);
    assert(prefix + rest =~= rendering.take(shown_len(rendering.len(), total_len) as int));
}

/// The prefix is `prefix_len` characters long whenever the shown part has
/// that many.
pub proof fn law_prefix_len(rendering: Seq<char>, prefix_len: nat, total_len: nat)
    requires
        prefix_len <= shown_len(rendering.len(), total_len),
    ensures
        split_rendering(rendering, prefix_len, total_len).0.len() == prefix_len,
{
}

/// No other id of `known` needs more digits than the result gives, and the
/// result is at least one.
proof fn lemma_unique_prefix_len_upper(known: Seq<Seq<u8>>, target: Seq<u8>, i: int)
    requires
        0 <= i < known.len(),
        known[i] != target,
    ensures
        common_len(nibbles(known[i]), nibbles(target)) + 1 <= unique_prefix_len(known, target),
    decreases known.len(),
{
    if i < known.len() - 1 {
        lemma_unique_prefix_len_upper(known.drop_last(), target, i);
    }
}

/// Where `known` holds no id but `target`, one digit is enough.
proof fn lemma_unique_prefix_len_alone(known: Seq<Seq<u8>>, target: Seq<u8>)
    requires
        forall|j: int| 0 <= j < known.len() ==> known[j] == target,
    ensures
        unique_prefix_len(known, target) == 1,
    decreases known.len(),
{
    if known.len() > 0 {
        let rest = known.drop_last();
        assert forall|j: int| 0 <= j < rest.len() implies rest[j] == target by {
            assert(rest[j] == known[j]);
        }
        lemma_unique_prefix_len_alone(rest, target);
    }
}

/// Where another id exists, the result is what one of them needs.
proof fn lemma_unique_prefix_len_attained(known: Seq<Seq<u8>>, target: Seq<u8>) -> (i: int)
    requires
        exists|j: int| 0 <= j < known.len() && known[j] != target,
    ensures
        0 <= i < known.len(),
        known[i] != target,
        unique_prefix_len(known, target) == common_len(nibbles(known[i]), nibbles(target)) + 1,
    decreases known.len(),
{
    let rest = known.drop_last();
    if exists|j: int| 0 <= j < rest.len() && rest[j] != target {
        let k = lemma_unique_prefix_len_attained(rest, target);
        let needed = common_len(nibbles(known.last()), nibbles(target)) + 1;
        assert(known[k] == rest[k]);
        if known.last() != target && needed > unique_prefix_len(rest, target) {
            known.len() - 1
        } else {
            k
        }
    } else {
        let j = choose|j: int| 0 <= j < known.len() && known[j] != target;
        if j < known.len() - 1 {
            assert(rest[j] != target);
        }
        lemma_unique_prefix_len_alone(rest, target);
        known.len() - 1
    }
}

/// Two distinct ids of one length part before their last digit.
proof fn lemma_distinct_ids_part(other: Seq<u8>, target: Seq<u8>)
    requires
        other.len() == target.len(),
        other != target,
    ensures
        common_len(nibbles(other), nibbles(target)) < 2 * target.len(),
{
    let (a, b) = (nibbles(other), nibbles(target));
    lemma_nibbles_len(other);
    lemma_nibbles_len(target);
    lemma_common_len_meaning(a, b);
    if common_len(a, b) == 2 * target.len() {
        assert(a.take(a.len() as int) =~= a);
        assert(b.take(b.len() as int) =~= b);
        lemma_nibbles_injective(other, target);
    }
}

/// Whether some id of `known` other than `target` starts with the same `m`
/// characters as `target`.
pub open spec fn shared_by_other(known: Seq<Seq<u8>>, target: Seq<u8>, m: int) -> bool {
    exists|i: int|
        0 <= i < known.len() && known[i] != target && #[trigger] reverse_hex_of(known[i]).take(m)
            == reverse_hex_of(target).take(m)
}

/// The shortest unique prefix is minimal: among ids of one length that hold
/// some id other than `target`, the first `unique_prefix_len` characters of
/// the rendering of `target` are shared by no other id, and any shorter
/// prefix is shared by at least one of them.
pub proof fn law_prefix_is_shortest_unique(known: Seq<Seq<u8>>, target: Seq<u8>)
    requires
        forall|i: int| 0 <= i < known.len() ==> (#[trigger] known[i]).len() == target.len(),
        exists|i: int| 0 <= i < known.len() && known[i] != target,
    ensures
        unique_prefix_len(known, target) <= reverse_hex_of(target).len(),
        forall|i: int|
            0 <= i < known.len() && known[i] != target ==> (#[trigger] reverse_hex_of(
                known[i],
            )).take(unique_prefix_len(known, target) as int) != reverse_hex_of(target).take(
                unique_prefix_len(known, target) as int,
            ),
        forall|m: int|
            0 <= m < unique_prefix_len(known, target) ==> #[trigger] shared_by_other(
                known,
                target,
                m,
            ),
{
    let n = unique_prefix_len(known, target);
    let t = nibbles(target);
    lemma_nibbles_len(target);
    lemma_rendering_digits(target);
    let k = lemma_unique_prefix_len_attained(known, target);
    lemma_distinct_ids_part(known[k], target);
    assert(n <= reverse_hex_of(target).len());
    assert forall|i: int| 0 <= i < known.len() && known[i] != target implies (#[trigger] reverse_hex_of(
        known[i],
    )).take(n as int) != reverse_hex_of(target).take(n as int) by {
        let o = nibbles(known[i]);
        let c = common_len(o, t) as int;
        lemma_nibbles_len(known[i]);
        lemma_distinct_ids_part(known[i], target);
        lemma_unique_prefix_len_upper(known, target, i);
        lemma_common_len_meaning(o, t);
        lemma_rendering_digits(known[i]);
        lemma_nibble_range(known[i], c);
        lemma_nibble_range(target, c);
        lemma_reverse_hex_digit_injective(o[c], t[c]);
        assert(reverse_hex_of(known[i]).take(n as int)[c] == reverse_hex_digit(o[c]));
        assert(reverse_hex_of(target).take(n as int)[c] == reverse_hex_digit(t[c]));
    }
    assert forall|m: int| 0 <= m < n implies #[trigger] shared_by_other(known, target, m) by {
        lemma_shorter_prefix_shared(known, target, k, m as nat);
    }
}

/// A prefix shorter than what id `k` needs is shared with `k`.
proof fn lemma_shorter_prefix_shared(known: Seq<Seq<u8>>, target: Seq<u8>, k: int, m: nat)
    requires
        0 <= k < known.len(),
        known[k] != target,
        known[k].len() == target.len(),
        m < common_len(nibbles(known[k]), nibbles(target)) + 1,
    ensures
        reverse_hex_of(known[k]).take(m as int) == reverse_hex_of(target).take(m as int),
{
    let o = nibbles(known[k]);
    let t = nibbles(target);
    lemma_nibbles_len(known[k]);
    lemma_nibbles_len(target);
    lemma_common_len_meaning(o, t);
    lemma_rendering_digits(known[k]);
    lemma_rendering_digits(target);
    let c = common_len(o, t) as int;
    assert(o.take(m as int) =~= o.take(c).take(m as int));
    assert(t.take(m as int) =~= t.take(c).take(m as int));
    assert(reverse_hex_of(known[k]).take(m as int) =~= o.take(m as int).map_values(
        |n: int| reverse_hex_digit(n),
    ));
    assert(reverse_hex_of(target).take(m as int) =~= t.take(m as int).map_values(
        |n: int| reverse_hex_digit(n),
    ));
}

} // verus!
