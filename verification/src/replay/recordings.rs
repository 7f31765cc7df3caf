//! Which files of a directory are recordings, and in which order they are
//! replayed.
use vstd::prelude::*;

use crate::persistence::parquet_writer::{date_text, padded, plausible, Date};
use crate::text::{dec_nat, digit_char};

verus! {

/// Whether `a` comes before `b` in the dictionary, character by character.
pub open spec fn precedes(a: Seq<char>, b: Seq<char>) -> bool
    decreases a.len(),
{
    if b.len() == 0 {
        false
    } else if a.len() == 0 {
        true
    } else if a[0] != b[0] {
        (a[0] as int) < (b[0] as int)
    } else {
        precedes(a.drop_first(), b.drop_first())
    }
}

/// Whether a file name is that of a recording: some stem, then `.parquet`.
pub open spec fn recording_name(name: Seq<char>) -> bool {
    name.len() > ".parquet"@.len() && name.skip(name.len() - ".parquet"@.len()) == ".parquet"@
}

/// The texts of some strings.
pub open spec fn texts(names: Seq<String>) -> Seq<Seq<char>> {
    names.map_values(|n: String| n@)
}

/// The recordings among some file names.
pub open spec fn recordings_of(names: Seq<Seq<char>>) -> Seq<Seq<char>> {
    names.filter(|n: Seq<char>| recording_name(n))
}

/// Whether no name comes before one that stands to its left.
pub open spec fn in_order(names: Seq<Seq<char>>) -> bool {
    forall|i: int, j: int|
        0 <= i < j < names.len() ==> !precedes(#[trigger] names[j], #[trigger] names[i])
}

/// The dictionary has no name before itself.
pub proof fn nothing_precedes_itself(a: Seq<char>)
    ensures
        !precedes(a, a),
    decreases a.len(),
{
    if a.len() > 0 {
        nothing_precedes_itself(a.drop_first());
    }
}

/// What comes before an earlier name comes before a later one.
pub proof fn precedence_is_transitive(a: Seq<char>, b: Seq<char>, c: Seq<char>)
    requires
        precedes(a, b),
        precedes(b, c),
    ensures
        precedes(a, c),
    decreases a.len(),
{
    if a.len() > 0 && a[0] == b[0] && b[0] == c[0] {
        precedence_is_transitive(a.drop_first(), b.drop_first(), c.drop_first());
    }
}

/// Of two different names, one comes before the other.
pub proof fn precedence_is_total(a: Seq<char>, b: Seq<char>)
    requires
        a != b,
    ensures
        precedes(a, b) || precedes(b, a),
    decreases a.len(),
{
    if a.len() > 0 && b.len() > 0 && a[0] == b[0] {
        assert(a.drop_first() != b.drop_first()) by {
            if a.drop_first() == b.drop_first() {
                assert(a =~= seq![a[0]] + a.drop_first());
                assert(b =~= seq![b[0]] + b.drop_first());
            }
        }
        precedence_is_total(a.drop_first(), b.drop_first());
    } else if a.len() == 0 && b.len() == 0 {
        assert(a =~= b);
    }
}

/// Whether `a` comes before `b` in the dictionary.
pub fn comes_before(a: &str, b: &str) -> (r: bool)
    ensures
        r == precedes(a@, b@),
{
    let left: usize = a.unicode_len();
    let right: usize = b.unicode_len();
    let mut i: usize = 0;
    assert(a@.skip(0) =~= a@ && b@.skip(0) =~= b@);
    while i < left && i < right
        invariant
            left == a@.len(),
            right == b@.len(),
            i <= left,
            i <= right,
            precedes(a@, b@) == precedes(a@.skip(i as int), b@.skip(i as int)),
        decreases left - i,
    {
        let x = a.get_char(i);
        let y = b.get_char(i);
        if x != y {
            return (x as u32) < (y as u32);
        }
        assert(a@.skip(i as int).drop_first() =~= a@.skip(i + 1));
        assert(b@.skip(i as int).drop_first() =~= b@.skip(i + 1));
        i += 1;
    }
    i < right
}

/// Whether a file name is that of a recording.
pub fn is_recording_name(name: &str) -> (r: bool)
    ensures
        r == recording_name(name@),
{
    let suffix = ".parquet";
    proof {
        reveal_strlit(".parquet");
    }
    let len: usize = name.unicode_len();
    if len <= 8 {
        return false;
    }
    let mut i: usize = 0;
    while i < 8
        invariant
            i <= 8,
            len == name@.len(),
            len > 8,
            suffix@ == ".parquet"@,
            suffix@.len() == 8,
            forall|k: int| 0 <= k < i ==> #[trigger] name@[len - 8 + k] == suffix@[k],
        decreases 8 - i,
    {
        if name.get_char(len - 8 + i) != suffix.get_char(i) {
            assert(name@.skip(len - 8)[i as int] != suffix@[i as int]);
            return false;
        }
        i += 1;
    }
    assert(name@.skip(len - 8) =~= suffix@) by {
        assert forall|k: int| 0 <= k < 8 implies name@.skip(len - 8)[k] == suffix@[k] by {
            assert(name@[len - 8 + k] == suffix@[k]);
        }
    }
    true
}

/// Puts a name into its place among names that are in order.
fn place(sorted: &mut Vec<String>, name: String)
    requires
        in_order(texts(old(sorted)@)),
    ensures
        in_order(texts(final(sorted)@)),
        texts(final(sorted)@).to_multiset() == texts(old(sorted)@).to_multiset().insert(name@),
{
    let ghost before = texts(sorted@);
    let mut at: usize = 0;
    while at < sorted.len() && !comes_before(name.as_str(), sorted[at].as_str())
        invariant
            at <= sorted@.len(),
            before == texts(sorted@),
            forall|k: int| 0 <= k < at ==> !precedes(name@, #[trigger] before[k]),
        ensures
            at <= sorted@.len(),
            before == texts(sorted@),
            forall|k: int| 0 <= k < at ==> !precedes(name@, #[trigger] before[k]),
            at < sorted@.len() ==> precedes(name@, before[at as int]),
        decreases sorted@.len() - at,
    {
        at += 1;
    }
    let ghost text = name@;
    sorted.insert(at, name);
    proof {
        let after = texts(sorted@);
        assert(after =~= before.insert(at as int, text));
        vstd::seq_lib::to_multiset_insert(before, at as int, text);
        assert forall|i: int, j: int| 0 <= i < j < after.len() implies !precedes(
            #[trigger] after[j],
            #[trigger] after[i],
        ) by {
            if i == at {
                assert(after[j] == before[j - 1]);
                if precedes(after[j], text) {
                    precedence_is_transitive(after[j], text, before[at as int]);
                    if j - 1 == at {
                        nothing_precedes_itself(after[j]);
                    }
                }
            } else if j == at {
                assert(after[i] == before[i]);
            } else {
                let from = if i < at {
                    i
                } else {
                    i - 1
                };
                let to = if j < at {
                    j
                } else {
                    j - 1
                };
                assert(after[i] == before[from] && after[j] == before[to]);
            }
        }
    }
}

/// The recordings among the files of a directory, in the order in which they are
/// replayed: that of their names.
pub fn recordings_in_order(names: Vec<String>) -> (r: Vec<String>)
    ensures
        in_order(texts(r@)),
        texts(r@).to_multiset() == recordings_of(texts(names@)).to_multiset(),
{
    let mut sorted: Vec<String> = Vec::new();
    let mut i: usize = 0;
    proof {
        assert(texts(names@).take(0) =~= Seq::<Seq<char>>::empty());
        assert(texts(sorted@) =~= Seq::<Seq<char>>::empty());
        assert(recordings_of(texts(names@).take(0)) =~= Seq::<Seq<char>>::empty());
    }
    while i < names.len()
        invariant
            i <= names@.len(),
            in_order(texts(sorted@)),
            texts(sorted@).to_multiset() == recordings_of(
                texts(names@).take(i as int),
            ).to_multiset(),
        decreases names@.len() - i,
    {
        let name = names[i].as_str();
        proof {
            let shown = texts(names@).take(i + 1);
            assert(shown.drop_last() =~= texts(names@).take(i as int));
            assert(shown.last() == name@);
            let kept = recordings_of(shown.drop_last());
            reveal(Seq::filter);
            if recording_name(name@) {
                assert(recordings_of(shown) == kept.push(name@));
                vstd::seq_lib::to_multiset_build(kept, name@);
            } else {
                assert(recordings_of(shown) == kept);
            }
        }
        if is_recording_name(name) {
            place(&mut sorted, name.to_owned());
        }
        i += 1;
    }
    assert(texts(names@).take(i as int) =~= texts(names@));
    sorted
}

// ---------------------------------------------------------------------------
// Recordings that are named after their day
// ---------------------------------------------------------------------------

/// The name of the recording of a day.
pub open spec fn day_file(date: Date) -> Seq<char> {
    date_text(date) + ".parquet"@
}

proof fn lemma_same_head(head: Seq<char>, a: Seq<char>, b: Seq<char>)
    ensures
        precedes(head + a, head + b) == precedes(a, b),
    decreases head.len(),
{
    if head.len() == 0 {
        assert(head + a =~= a && head + b =~= b);
    } else {
        assert((head + a).drop_first() =~= head.drop_first() + a);
        assert((head + b).drop_first() =~= head.drop_first() + b);
        assert((head + a)[0] == (head + b)[0]);
        lemma_same_head(head.drop_first(), a, b);
    }
}

proof fn lemma_head_decides(a: Seq<char>, b: Seq<char>, u: Seq<char>, v: Seq<char>)
    requires
        a.len() == b.len(),
        precedes(a, b),
    ensures
        precedes(a + u, b + v),
    decreases a.len(),
{
    assert((a + u)[0] == a[0] && (b + v)[0] == b[0]);
    assert((a + u).drop_first() =~= a.drop_first() + u);
    assert((b + v).drop_first() =~= b.drop_first() + v);
    if a[0] == b[0] {
        lemma_head_decides(a.drop_first(), b.drop_first(), u, v);
    }
}

proof fn lemma_last_digit(n: nat, width: nat)
    requires
        width >= 1,
    ensures
        padded(n, width + 1) == padded(n / 10, width).push(digit_char(n % 10)),
{
    if n < 10 {
        assert(dec_nat(n) == seq![digit_char(n)]);
        assert(dec_nat(0) == seq![digit_char(0)]);
    } else {
        assert(dec_nat(n) == dec_nat(n / 10).push(digit_char(n % 10)));
    }
    assert(padded(n, width + 1) =~= padded(n / 10, width).push(digit_char(n % 10)));
}

proof fn lemma_two_digits(n: nat)
    requires
        n < 100,
    ensures
        padded(n, 2) == seq![digit_char(n / 10), digit_char(n % 10)],
{
    lemma_last_digit(n, 1);
    assert(padded(n / 10, 1) == seq![digit_char(n / 10)]);
    assert(padded(n, 2) =~= seq![digit_char(n / 10), digit_char(n % 10)]);
}

proof fn lemma_four_digits(n: nat)
    requires
        n < 10000,
    ensures
        padded(n, 4) == padded(n / 100, 2) + padded(n % 100, 2),
{
    lemma_last_digit(n, 3);
    lemma_last_digit(n / 10, 2);
    lemma_two_digits(n % 100);
    assert(n / 10 / 10 == n / 100 && n % 100 / 10 == n / 10 % 10 && n % 100 % 10 == n % 10);
    assert(padded(n, 4) =~= padded(n / 100, 2) + padded(n % 100, 2));
}

proof fn lemma_two_digits_in_order(n: nat, m: nat)
    requires
        n < m < 100,
    ensures
        precedes(padded(n, 2), padded(m, 2)),
{
    lemma_two_digits(n);
    lemma_two_digits(m);
    reveal_with_fuel(precedes, 3);
    let a = padded(n, 2);
    let b = padded(m, 2);
    assert(a.drop_first() =~= seq![digit_char(n % 10)]);
    assert(b.drop_first() =~= seq![digit_char(m % 10)]);
}

proof fn lemma_four_digits_in_order(n: nat, m: nat)
    requires
        n < m < 10000,
    ensures
        precedes(padded(n, 4), padded(m, 4)),
{
    lemma_four_digits(n);
    lemma_four_digits(m);
    lemma_two_digits(n / 100);
    lemma_two_digits(m / 100);
    if n / 100 < m / 100 {
        lemma_two_digits_in_order(n / 100, m / 100);
        lemma_head_decides(
            padded(n / 100, 2),
            padded(m / 100, 2),
            padded(n % 100, 2),
            padded(m % 100, 2),
        );
    } else {
        lemma_two_digits_in_order(n % 100, m % 100);
        lemma_same_head(padded(n / 100, 2), padded(n % 100, 2), padded(m % 100, 2));
    }
}

proof fn lemma_widths(n: nat)
    ensures
        n < 100 ==> padded(n, 2).len() == 2,
        n < 10000 ==> padded(n, 4).len() == 4,
{
    if n < 100 {
        lemma_two_digits(n);
    }
    if n < 10000 {
        lemma_four_digits(n);
        lemma_two_digits(n / 100);
        lemma_two_digits(n % 100);
    }
}

proof fn lemma_first_difference_decides(
    a: (Seq<char>, Seq<char>, Seq<char>),
    b: (Seq<char>, Seq<char>, Seq<char>),
    dash: Seq<char>,
    tail: Seq<char>,
)
    requires
        a.0.len() == b.0.len(),
        a.1.len() == b.1.len(),
        a.2.len() == b.2.len(),
        precedes(a.0, b.0) || (a.0 == b.0 && precedes(a.1, b.1)) || (a.0 == b.0 && a.1 == b.1
            && precedes(a.2, b.2)),
    ensures
        precedes(a.0 + dash + a.1 + dash + a.2 + tail, b.0 + dash + b.1 + dash + b.2 + tail),
{
    let (u, v) = (a.0 + dash + a.1 + dash + a.2 + tail, b.0 + dash + b.1 + dash + b.2 + tail);
    if precedes(a.0, b.0) {
        let (x, y) = (dash + a.1 + dash + a.2 + tail, dash + b.1 + dash + b.2 + tail);
        assert(u =~= a.0 + x && v =~= b.0 + y);
        lemma_head_decides(a.0, b.0, x, y);
    } else if precedes(a.1, b.1) {
        let (x, y) = (dash + a.2 + tail, dash + b.2 + tail);
        assert(u =~= (a.0 + dash) + (a.1 + x) && v =~= (a.0 + dash) + (b.1 + y));
        lemma_head_decides(a.1, b.1, x, y);
        lemma_same_head(a.0 + dash, a.1 + x, b.1 + y);
    } else {
        let head = a.0 + dash + a.1 + dash;
        assert(u =~= head + (a.2 + tail) && v =~= head + (b.2 + tail));
        lemma_head_decides(a.2, b.2, tail, tail);
        lemma_same_head(head, a.2 + tail, b.2 + tail);
    }
}

/// Recordings that are named after their day stand in the order of their days.
pub proof fn day_files_are_chronological(earlier: Date, later: Date)
    requires
        0 <= earlier.year <= 9999,
        0 <= later.year <= 9999,
        plausible(earlier.month, earlier.day),
        plausible(later.month, later.day),
        earlier.order() < later.order(),
    ensures
        precedes(day_file(earlier), day_file(later)),
{
    let (y1, m1, d1) = (earlier.year as nat, earlier.month as nat, earlier.day as nat);
    let (y2, m2, d2) = (later.year as nat, later.month as nat, later.day as nat);
    lemma_widths(y1);
    lemma_widths(y2);
    lemma_widths(m1);
    lemma_widths(m2);
    lemma_widths(d1);
    lemma_widths(d2);
    if y1 < y2 {
        lemma_four_digits_in_order(y1, y2);
    } else if m1 < m2 {
        lemma_two_digits_in_order(m1, m2);
    } else {
        lemma_two_digits_in_order(d1, d2);
    }
    lemma_first_difference_decides(
        (padded(y1, 4), padded(m1, 2), padded(d1, 2)),
        (padded(y2, 4), padded(m2, 2), padded(d2, 2)),
        "-"@,
        ".parquet"@,
    );
}

/// Every day's recording is recognised as one.
pub proof fn day_files_are_recordings(date: Date)
    ensures
        recording_name(day_file(date)),
{
    let tail = ".parquet"@;
    let name = day_file(date);
    reveal_strlit("-");
    assert(name.skip(name.len() - tail.len()) =~= tail);
}

/// One text precedes another where, at the first place at which they differ, its
/// character is the lower, or where it is the beginning of the other.
pub proof fn the_first_difference_orders_texts(
    same: Seq<char>,
    a: Seq<char>,
    b: Seq<char>,
)
    requires
        a.len() > 0 && b.len() > 0 ==> a[0] != b[0],
    ensures
        a.len() > 0 && b.len() > 0 ==> (precedes(same + a, same + b) <==> (a[0] as int) < (
        b[0] as int)),
        a.len() == 0 && b.len() > 0 ==> precedes(same + a, same + b),
        b.len() == 0 ==> !precedes(same + a, same + b),
    decreases same.len(),
{
    if same.len() > 0 {
        let rest = same.drop_first();
        assert((same + a).drop_first() =~= rest + a);
        assert((same + b).drop_first() =~= rest + b);
        assert((same + a)[0] == same[0] && (same + b)[0] == same[0]);
        the_first_difference_orders_texts(rest, a, b);
    } else {
        assert(same + a =~= a);
        assert(same + b =~= b);
    }
}

/// A recording is a name of something with `.parquet` behind it.
pub proof fn recordings_end_in_parquet(stem: Seq<char>, name: Seq<char>)
    ensures
        recording_name(stem + ".parquet"@) <==> stem.len() > 0,
        recording_name(name) ==> exists|stem: Seq<char>| #[trigger]
            (stem + ".parquet"@) == name && stem.len() > 0,
{
    reveal_strlit(".parquet");
    assert(".parquet"@.len() == 8);
    assert((stem + ".parquet"@).skip(stem.len() as int) =~= ".parquet"@);
    if recording_name(name) {
        let front = name.take(name.len() - 8);
        assert(front + ".parquet"@ =~= name) by {
            assert(name.skip(name.len() - 8) == ".parquet"@);
            assert forall|i: int| 0 <= i < name.len() implies (front + ".parquet"@)[i]
                == name[i] by {
                if i >= name.len() - 8 {
                    assert(name.skip(name.len() - 8)[i - (name.len() - 8)] == name[i]);
                }
            }
        }
        assert((front + ".parquet"@) == name && front.len() > 0);
    }
}

/// Of the names of a directory the recordings are kept, each once and in their
/// order, and nothing else is.
pub proof fn only_recordings_are_kept(names: Seq<Seq<char>>, next: Seq<char>)
    ensures
        recordings_of(Seq::empty()).len() == 0,
        recording_name(next) ==> recordings_of(names.push(next)) == recordings_of(names).push(next),
        !recording_name(next) ==> recordings_of(names.push(next)) == recordings_of(names),
{
    reveal(Seq::filter);
    assert(names.push(next).drop_last() =~= names);
}

} // verus!
