//! The numbered parts of an upload.

use vstd::prelude::*;

verus! {

/// A numbered part.
pub struct Part {
    pub number: int,
    pub data: Seq<u8>,
}

/// Whether the numbers of some parts increase.
pub open spec fn increasing(s: Seq<Part>) -> bool {
    forall|i: int, j: int|
        0 <= i < j < s.len() ==> (#[trigger] s[i]).number < (#[trigger] s[j]).number
}

/// How many of some parts have a number below `n`.
pub open spec fn count_below(s: Seq<Part>, n: int) -> int
    decreases s.len(),
{
    if s.len() == 0 {
        0
    } else {
        count_below(s.drop_last(), n) + if s.last().number < n {
            1int
        } else {
            0
        }
    }
}

/// The parts with the part `number` set to `data`: those with smaller numbers, this one, those
/// with greater numbers.
pub open spec fn with_part(s: Seq<Part>, number: int, data: Seq<u8>) -> Seq<Part> {
    s.take(count_below(s, number)) + seq![Part { number, data }] + s.skip(
        count_below(s, number + 1),
    )
}

/// The data of some parts, one after the other.
pub open spec fn joined(s: Seq<Part>) -> Seq<u8>
    decreases s.len(),
{
    if s.len() == 0 {
        Seq::empty()
    } else {
        joined(s.drop_last()) + s.last().data
    }
}

/// Where the numbers increase, the parts below `n` are the first ones.
proof fn lemma_count_below(s: Seq<Part>, n: int, i: int)
    requires
        increasing(s),
        0 <= i <= s.len(),
        forall|j: int| 0 <= j < i ==> (#[trigger] s[j]).number < n,
        i < s.len() ==> s[i].number >= n,
    ensures
        count_below(s, n) == i,
    decreases s.len(),
{
    if s.len() > 0 {
        let t = s.drop_last();
        assert(forall|j: int| 0 <= j < t.len() ==> t[j] == s[j]);
        if i == s.len() {
            assert(s[i - 1].number < n);
            lemma_count_below(t, n, i - 1);
        } else {
            if i < s.len() - 1 {
                assert(s[i].number < s[s.len() - 1].number);
            }
            lemma_count_below(t, n, i);
        }
    }
}

/// The parts of an upload, by increasing number.
pub struct PartList {
    parts: Vec<(i32, Vec<u8>)>,
}

impl View for PartList {
    type V = Seq<Part>;

    closed spec fn view(&self) -> Seq<Part> {
        Seq::new(
            self.parts@.len(),
            |i: int| Part { number: self.parts@[i].0 as int, data: self.parts@[i].1@ },
        )
    }
}

impl PartList {
    #[verifier::type_invariant]
    spec fn in_order(self) -> bool {
        increasing(self@)
    }

    /// No parts.
    pub fn new() -> (r: Self)
        ensures
            r@ == Seq::<Part>::empty(),
    {
        let r = PartList { parts: Vec::new() };
        proof {
            assert(r@ =~= Seq::<Part>::empty());
        }
        r
    }

    /// Sets the part `number`.
    pub fn insert(&mut self, number: i32, data: Vec<u8>)
        ensures
            final(self)@ == with_part(old(self)@, number as int, data@),
            increasing(old(self)@),
            increasing(final(self)@),
    {
        proof {
            use_type_invariant(&*self);
        }
        let ghost before = self@;
        let mut parts: Vec<(i32, Vec<u8>)> = Vec::new();
        std::mem::swap(&mut parts, &mut self.parts);
        let ghost listed = PartList { parts };
        let mut i: usize = 0;
        while i < parts.len() && parts[i].0 < number
            invariant
                i <= parts@.len(),
                listed.parts == parts,
                listed@ == before,
                forall|j: int| 0 <= j < i ==> (#[trigger] before[j]).number < number,
            decreases parts@.len() - i,
        {
            assert(before[i as int].number == parts@[i as int].0);
            i = i + 1;
        }
        let ghost d = data@;
        proof {
            if i < before.len() {
                assert(before[i as int].number == parts@[i as int].0);
            }
            lemma_count_below(before, number as int, i as int);
        }
        if i < parts.len() && parts[i].0 == number {
            proof {
                if i + 1 < before.len() {
                    assert(before[i as int].number < before[i + 1].number);
                }
                lemma_count_below(before, number + 1, i + 1);
            }
            parts[i] = (number, data);
            proof {
                let after = PartList { parts };
                assert(after@ =~= with_part(before, number as int, d));
            }
        } else {
            proof {
                lemma_count_below(before, number + 1, i as int);
            }
            parts.insert(i, (number, data));
            proof {
                let after = PartList { parts };
                assert(after@ =~= with_part(before, number as int, d));
            }
        }
        proof {
            let after = PartList { parts };
            assert forall|a: int, b: int| 0 <= a < b < after@.len() implies (
            #[trigger] after@[a]).number < (#[trigger] after@[b]).number by {
                let shift = after@.len() - before.len();
                if a < i {
                    assert(after@[a] == before[a]);
                    if b > i {
                        assert(after@[b] == before[b - shift]);
                    }
                } else if a == i {
                    assert(after@[b] == before[b - shift]);
                    if shift == 1 {
                        assert(before[i as int].number <= before[b - 1].number);
                    }
                } else {
                    assert(after@[a] == before[a - shift]);
                    assert(after@[b] == before[b - shift]);
                }
            }
        }
        self.parts = parts;
    }

    /// The data of the parts, one after the other.
    pub fn assemble(&self) -> (r: Vec<u8>)
        ensures
            r@ == joined(self@),
            increasing(self@),
    {
        proof {
            use_type_invariant(self);
        }
        let mut r: Vec<u8> = Vec::new();
        let mut i: usize = 0;
        while i < self.parts.len()
            invariant
                i <= self.parts@.len(),
                r@ == joined(self@.take(i as int)),
            decreases self.parts@.len() - i,
        {
            let mut piece = vstd::slice::slice_to_vec(self.parts[i].1.as_slice());
            r.append(&mut piece);
            proof {
                assert(self@.take(i + 1).drop_last() =~= self@.take(i as int));
                assert(self@.take(i + 1).last() == self@[i as int]);
            }
            i = i + 1;
        }
        proof {
            assert(self@.take(self@.len() as int) =~= self@);
        }
        r
    }
}

/// The data that some parts hold for a number.
pub open spec fn part_data(s: Seq<Part>, n: int) -> Option<Seq<u8>> {
    if exists|i: int| 0 <= i < s.len() && (#[trigger] s[i]).number == n {
        Some(s[choose|i: int| 0 <= i < s.len() && (#[trigger] s[i]).number == n].data)
    } else {
        None
    }
}

/// Setting a part changes what is held for its number and for no other.
pub proof fn part_is_set(s: Seq<Part>, number: int, data: Seq<u8>, n: int)
    requires
        increasing(s),
    ensures
        increasing(with_part(s, number, data)),
        part_data(with_part(s, number, data), n) == if n == number {
            Some(data)
        } else {
            part_data(s, n)
        },
{
    lemma_split(s, number);
    lemma_split(s, number + 1);
    let low = count_below(s, number);
    let high = count_below(s, number + 1);
    let t = with_part(s, number, data);
    assert(low <= high) by {
        if high < low {
            assert(s[high].number < number);
        }
    }
    assert(high <= low + 1) by {
        if high > low + 1 {
            assert(s[low].number < s[low + 1].number);
        }
    }
    assert forall|a: int, b: int| 0 <= a < b < t.len() implies (#[trigger] t[a]).number < (
    #[trigger] t[b]).number by {
        let shift = low + 1 - high;
        if a < low {
            assert(t[a] == s[a]);
        } else if a > low {
            assert(t[a] == s[a - shift]);
        }
        if b > low {
            assert(t[b] == s[b - shift]);
        } else if b < low {
            assert(t[b] == s[b]);
        }
    }
    assert(t[low] == Part { number, data });
    if n != number {
        if exists|i: int| 0 <= i < s.len() && (#[trigger] s[i]).number == n {
            let i = choose|i: int| 0 <= i < s.len() && (#[trigger] s[i]).number == n;
            let j = if i < low { i } else { i + low + 1 - high };
            assert(t[j] == s[i]);
        }
        if exists|j: int| 0 <= j < t.len() && (#[trigger] t[j]).number == n {
            let j = choose|j: int| 0 <= j < t.len() && (#[trigger] t[j]).number == n;
            let i = if j < low { j } else { j - (low + 1 - high) };
            assert(t[j] == s[i]);
        }
    }
}

/// Where the numbers increase, the parts below `n` are those before `count_below`.
proof fn lemma_split(s: Seq<Part>, n: int)
    requires
        increasing(s),
    ensures
        0 <= count_below(s, n) <= s.len(),
        forall|j: int| 0 <= j < count_below(s, n) ==> (#[trigger] s[j]).number < n,
        forall|j: int| count_below(s, n) <= j < s.len() ==> (#[trigger] s[j]).number >= n,
    decreases s.len(),
{
    if s.len() > 0 {
        let t = s.drop_last();
        assert(forall|j: int| 0 <= j < t.len() ==> t[j] == s[j]);
        lemma_split(t, n);
        if s.last().number < n {
            assert forall|j: int| 0 <= j < s.len() implies (#[trigger] s[j]).number < n by {
                if j < s.len() - 1 {
                    assert(s[j].number < s[s.len() - 1].number);
                }
            }
            if count_below(t, n) < t.len() {
                assert(t[count_below(t, n)].number >= n);
            }
        }
    }
}

/// Where the numbers increase, each part is what is held for its number.
proof fn lemma_part_at(s: Seq<Part>, i: int)
    requires
        increasing(s),
        0 <= i < s.len(),
    ensures
        part_data(s, s[i].number) == Some(s[i].data),
{
    let n = s[i].number;
    let j = choose|j: int| 0 <= j < s.len() && (#[trigger] s[j]).number == n;
    assert(s[i].number == n);
    if i < j {
        assert(s[i].number < s[j].number);
    } else if j < i {
        assert(s[j].number < s[i].number);
    }
}

/// Parts by increasing number are determined by what they hold for each number.
proof fn lemma_same_parts(s: Seq<Part>, t: Seq<Part>)
    requires
        increasing(s),
        increasing(t),
        forall|n: int| #[trigger] part_data(s, n) == part_data(t, n),
    ensures
        s == t,
    decreases s.len(),
{
    if s.len() == 0 {
        if t.len() > 0 {
            lemma_part_at(t, 0);
            assert(part_data(s, t[0].number) is None);
        }
        assert(s =~= t);
    } else {
        let m = s.last().number;
        lemma_part_at(s, s.len() - 1);
        assert(part_data(t, m) == Some(s.last().data));
        let j = choose|j: int| 0 <= j < t.len() && (#[trigger] t[j]).number == m;
        let last = t.last().number;
        lemma_part_at(t, t.len() - 1);
        assert(part_data(s, last) == Some(t.last().data));
        let i = choose|i: int| 0 <= i < s.len() && (#[trigger] s[i]).number == last;
        if i < s.len() - 1 {
            assert(s[i].number < s[s.len() - 1].number);
        }
        if j < t.len() - 1 {
            assert(t[j].number < t[t.len() - 1].number);
        }
        assert(last == m);
        let a = s.drop_last();
        let b = t.drop_last();
        assert forall|n: int| #[trigger] part_data(a, n) == part_data(b, n) by {
            lemma_without_last(s, n);
            lemma_without_last(t, n);
            assert(part_data(s, n) == part_data(t, n));
        }
        lemma_same_parts(a, b);
        assert(s =~= a.push(s.last()));
        assert(t =~= b.push(t.last()));
    }
}

/// Without the last part nothing is held for its number, and the rest stays.
proof fn lemma_without_last(s: Seq<Part>, n: int)
    requires
        increasing(s),
        s.len() > 0,
    ensures
        increasing(s.drop_last()),
        part_data(s.drop_last(), n) == if n == s.last().number {
            None
        } else {
            part_data(s, n)
        },
{
    let a = s.drop_last();
    assert(forall|i: int| 0 <= i < a.len() ==> a[i] == s[i]);
    if exists|i: int| 0 <= i < a.len() && (#[trigger] a[i]).number == n {
        let i = choose|i: int| 0 <= i < a.len() && (#[trigger] a[i]).number == n;
        assert(s[i].number < s[s.len() - 1].number);
        lemma_part_at(a, i);
        lemma_part_at(s, i);
    } else if n != s.last().number {
        if exists|i: int| 0 <= i < s.len() && (#[trigger] s[i]).number == n {
            let i = choose|i: int| 0 <= i < s.len() && (#[trigger] s[i]).number == n;
            assert(a[i].number == n);
        }
    }
}

/// Parts with different numbers may be set in any order, and a part that is set again replaces
/// the earlier one.
pub proof fn parts_come_in_any_order(s: Seq<Part>, a: int, x: Seq<u8>, b: int, y: Seq<u8>)
    requires
        increasing(s),
    ensures
        a != b ==> with_part(with_part(s, a, x), b, y) == with_part(with_part(s, b, y), a, x),
        with_part(with_part(s, a, x), a, y) == with_part(s, a, y),
{
    part_is_set(s, a, x, a);
    part_is_set(s, b, y, b);
    part_is_set(s, a, y, a);
    let ax = with_part(s, a, x);
    let by = with_part(s, b, y);
    part_is_set(ax, b, y, a);
    part_is_set(by, a, x, a);
    part_is_set(ax, a, y, a);
    if a != b {
        assert forall|n: int| #[trigger]
            part_data(with_part(ax, b, y), n) == part_data(with_part(by, a, x), n) by {
            part_is_set(ax, b, y, n);
            part_is_set(by, a, x, n);
            part_is_set(s, a, x, n);
            part_is_set(s, b, y, n);
        }
        lemma_same_parts(with_part(ax, b, y), with_part(by, a, x));
    }
    assert forall|n: int| #[trigger]
        part_data(with_part(ax, a, y), n) == part_data(with_part(s, a, y), n) by {
        part_is_set(ax, a, y, n);
        part_is_set(s, a, x, n);
        part_is_set(s, a, y, n);
    }
    lemma_same_parts(with_part(ax, a, y), with_part(s, a, y));
}

} // verus!
