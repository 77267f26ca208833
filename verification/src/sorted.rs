//! Lists of options kept sorted by a one-byte code: binary search for the
//! first option of a code, for the run of options of a code, and sorted
//! insertion.
use vstd::prelude::*;

verus! {

/// An option that carries a one-byte code by which lists are ordered.
pub trait CodedOption: Sized {
    /// The code of this option.
    spec fn spec_code(&self) -> u8;

    /// The code of this option.
    fn code(&self) -> (r: u8)
        ensures
            r == self.spec_code(),
    ;
}

/// Codes never decrease along the list.
pub open spec fn sorted_by_code<T: CodedOption>(s: Seq<T>) -> bool {
    forall|i: int, j: int|
        0 <= i <= j < s.len() ==> #[trigger] s[i].spec_code() <= #[trigger] s[j].spec_code()
}

/// Some option in the list has this code.
pub open spec fn has_code<T: CodedOption>(s: Seq<T>, c: u8) -> bool {
    exists|j: int| 0 <= j < s.len() && #[trigger] s[j].spec_code() == c
}

/// `i` is the position of the first option with this code.
pub open spec fn first_with_code<T: CodedOption>(s: Seq<T>, i: int, c: u8) -> bool {
    &&& 0 <= i < s.len()
    &&& s[i].spec_code() == c
    &&& forall|j: int| 0 <= j < i ==> #[trigger] s[j].spec_code() != c
}

/// Exactly the positions `lo..hi` hold options with this code.
pub open spec fn code_block<T: CodedOption>(s: Seq<T>, lo: int, hi: int, c: u8) -> bool {
    &&& 0 <= lo <= hi <= s.len()
    &&& forall|j: int| lo <= j < hi ==> #[trigger] s[j].spec_code() == c
    &&& forall|j: int| 0 <= j < s.len() && !(lo <= j < hi) ==> #[trigger] s[j].spec_code() != c
}

/// Binary search for the first option with the given code.
pub fn first<T: CodedOption>(slice: &[T], code: u8) -> (r: Option<usize>)
    requires
        sorted_by_code(slice@),
    ensures
        r is None <==> !has_code(slice@, code),
        r matches Some(i) ==> first_with_code(slice@, i as int, code),
        r matches Some(i) ==> forall|j: int| 0 <= j < i ==> #[trigger] slice@[j].spec_code() < code,
{
    let mut left: usize = 0;
    let mut right: usize = slice.len();
    while left < right
        invariant
            left <= right <= slice@.len(),
            sorted_by_code(slice@),
            forall|j: int| 0 <= j < left ==> #[trigger] slice@[j].spec_code() < code,
            forall|j: int| right <= j < slice@.len() ==> #[trigger] slice@[j].spec_code() >= code,
            has_code(slice@, code) ==> exists|j: int|
                left <= j < right && #[trigger] slice@[j].spec_code() == code,
        decreases right - left,
    {
        let mid = left + (right - left) / 2;
        let c = slice[mid].code();
        if c == code {
            if mid == 0 || slice[mid - 1].code() != code {
                proof {
                    assert forall|j: int| 0 <= j < mid implies #[trigger] slice@[j].spec_code()
                        < code by {
                        assert(slice@[j].spec_code() <= slice@[mid - 1].spec_code());
                    }
                }
                return Some(mid);
            }
            proof {
                assert(slice@[mid - 1].spec_code() == code);
                assert(mid - 1 >= left);
            }
            right = mid;
        } else if c > code {
            proof {
                if has_code(slice@, code) {
                    let j = choose|j: int| left <= j < right && #[trigger] slice@[j].spec_code() == code;
                    if j >= mid {
                        assert(slice@[mid as int].spec_code() <= slice@[j].spec_code());
                    }
                }
                assert forall|j: int| mid <= j < slice@.len() implies #[trigger] slice@[j].spec_code()
                    >= code by {
                    assert(slice@[mid as int].spec_code() <= slice@[j].spec_code());
                }
            }
            right = mid;
        } else {
            proof {
                assert forall|j: int| 0 <= j < mid + 1 implies #[trigger] slice@[j].spec_code()
                    < code by {
                    assert(slice@[j].spec_code() <= slice@[mid as int].spec_code());
                }
            }
            left = mid + 1;
        }
    }
    None
}

/// The range of positions of all options with the given code.
pub fn range_binsearch<T: CodedOption>(slice: &[T], code: u8) -> (r: Option<std::ops::Range<usize>>)
    requires
        sorted_by_code(slice@),
    ensures
        r is None <==> !has_code(slice@, code),
        r matches Some(rg) ==> rg.start < rg.end && code_block(
            slice@,
            rg.start as int,
            rg.end as int,
            code,
        ),
{
    let first = match first(slice, code) {
        Some(f) => f,
        None => return None,
    };
    let mut last = first;
    while last < slice.len() - 1 && slice[last + 1].code() == code
        invariant
            first <= last < slice@.len(),
            sorted_by_code(slice@),
            forall|j: int| first <= j <= last ==> #[trigger] slice@[j].spec_code() == code,
            forall|j: int| 0 <= j < first ==> #[trigger] slice@[j].spec_code() < code,
        decreases slice@.len() - last,
    {
        last = last + 1;
    }
    proof {
        assert forall|j: int| 0 <= j < slice@.len() && !(first <= j < last + 1) implies
            #[trigger] slice@[j].spec_code() != code by {
            if j > last {
                assert(slice@[last + 1].spec_code() != code);
                assert(slice@[last as int].spec_code() <= slice@[last + 1].spec_code());
                assert(slice@[last + 1].spec_code() <= slice@[j].spec_code());
            }
        }
    }
    Some(first..last + 1)
}

/// Binary search for the first position whose code is not below `code`.
pub fn lower_bound<T: CodedOption>(slice: &[T], code: u8) -> (i: usize)
    requires
        sorted_by_code(slice@),
    ensures
        i <= slice@.len(),
        forall|j: int| 0 <= j < i ==> #[trigger] slice@[j].spec_code() < code,
        forall|j: int| i <= j < slice@.len() ==> #[trigger] slice@[j].spec_code() >= code,
{
    let mut left: usize = 0;
    let mut right: usize = slice.len();
    while left < right
        invariant
            left <= right <= slice@.len(),
            sorted_by_code(slice@),
            forall|j: int| 0 <= j < left ==> #[trigger] slice@[j].spec_code() < code,
            forall|j: int| right <= j < slice@.len() ==> #[trigger] slice@[j].spec_code() >= code,
        decreases right - left,
    {
        let mid = left + (right - left) / 2;
        if slice[mid].code() < code {
            proof {
                assert forall|j: int| 0 <= j < mid + 1 implies #[trigger] slice@[j].spec_code()
                    < code by {
                    assert(slice@[j].spec_code() <= slice@[mid as int].spec_code());
                }
            }
            left = mid + 1;
        } else {
            proof {
                assert forall|j: int| mid <= j < slice@.len() implies #[trigger] slice@[j].spec_code()
                    >= code by {
                    assert(slice@[mid as int].spec_code() <= slice@[j].spec_code());
                }
            }
            right = mid;
        }
    }
    left
}

/// Insert `opt` before every option of its code and after every option of a
/// smaller code; the list stays sorted.
pub fn insert_sorted<T: CodedOption>(v: &mut Vec<T>, opt: T)
    requires
        sorted_by_code(old(v)@),
    ensures
        sorted_by_code(final(v)@),
        exists|i: int|
            0 <= i <= old(v)@.len() && final(v)@ == old(v)@.insert(i, opt) && (forall|j: int|
                0 <= j < i ==> #[trigger] old(v)@[j].spec_code() < opt.spec_code()) && (forall|
                j: int,
            | i <= j < old(v)@.len() ==> #[trigger] old(v)@[j].spec_code() >= opt.spec_code()),
{
    let c = opt.code();
    let i = lower_bound(v.as_slice(), c);
    let ghost old_s = v@;
    v.insert(i, opt);
    proof {
        let s = v@;
        assert(s == old_s.insert(i as int, opt));
        assert forall|a: int, b: int| 0 <= a <= b < s.len() implies #[trigger] s[a].spec_code()
            <= #[trigger] s[b].spec_code() by {
            if a < i && b < i {
                assert(old_s[a].spec_code() <= old_s[b].spec_code());
            } else if a < i && b == i {
            } else if a < i && b > i {
                assert(old_s[b - 1].spec_code() >= c);
            } else if a == i && b > i {
                assert(old_s[b - 1].spec_code() >= c);
            } else if a > i {
                assert(old_s[a - 1].spec_code() <= old_s[b - 1].spec_code());
            }
        }
    }
}

/// Remove the option at position `i`; the list stays sorted.
pub fn remove_at<T: CodedOption>(v: &mut Vec<T>, i: usize) -> (r: T)
    requires
        sorted_by_code(old(v)@),
        i < old(v)@.len(),
    ensures
        sorted_by_code(final(v)@),
        r == old(v)@[i as int],
        final(v)@ == old(v)@.remove(i as int),
{
    let ghost s = v@;
    let r = v.remove(i);
    proof {
        assert forall|a: int, b: int| 0 <= a <= b < v@.len() implies #[trigger] v@[a].spec_code()
            <= #[trigger] v@[b].spec_code() by {
            let a2 = if a < i { a } else { a + 1 };
            let b2 = if b < i { b } else { b + 1 };
            assert(v@[a] == s[a2] && v@[b] == s[b2]);
            assert(s[a2].spec_code() <= s[b2].spec_code());
        }
    }
    r
}

/// Take the options at positions `lo..hi` out of the list; the rest keeps
/// its order and stays sorted.
pub fn remove_range<T: CodedOption>(v: &mut Vec<T>, lo: usize, hi: usize, c: u8) -> (r: Vec<T>)
    requires
        sorted_by_code(old(v)@),
        lo <= hi <= old(v)@.len(),
    ensures
        sorted_by_code(final(v)@),
        code_block(old(v)@, lo as int, hi as int, c) ==> !has_code(final(v)@, c),
        r@ == old(v)@.subrange(lo as int, hi as int),
        final(v)@ == old(v)@.subrange(0, lo as int) + old(v)@.subrange(hi as int, old(v)@.len() as int),
{
    let ghost s = v@;
    let mut tail = v.split_off(hi);
    let mid = v.split_off(lo);
    v.append(&mut tail);
    proof {
        assert forall|a: int, b: int| 0 <= a <= b < v@.len() implies #[trigger] v@[a].spec_code()
            <= #[trigger] v@[b].spec_code() by {
            let a2 = if a < lo { a } else { a + (hi - lo) };
            let b2 = if b < lo { b } else { b + (hi - lo) };
            assert(v@[a] == s[a2] && v@[b] == s[b2]);
            assert(s[a2].spec_code() <= s[b2].spec_code());
        }
        if code_block(s, lo as int, hi as int, c) {
            assert forall|j: int| 0 <= j < v@.len() implies #[trigger] v@[j].spec_code() != c by {
                if j < lo {
                    assert(v@[j] == s[j]);
                } else {
                    assert(v@[j] == s[j + (hi - lo)]);
                }
            }
        }
    }
    mid
}

/// Sort a list of options by code (the order among options of one code is
/// left open).
pub fn sort_by_code<T: CodedOption>(v: Vec<T>) -> (r: Vec<T>)
    ensures
        sorted_by_code(r@),
        r@.to_multiset() == v@.to_multiset(),
{
    broadcast use vstd::seq_lib::group_to_multiset_ensures;

    let mut rest = v;
    let mut out: Vec<T> = Vec::new();
    let ghost orig = rest@;
    while rest.len() > 0
        invariant
            sorted_by_code(out@),
            out@.to_multiset().add(rest@.to_multiset()) == orig.to_multiset(),
        decreases rest@.len(),
    {
        let ghost before_rest = rest@;
        let ghost before_out = out@;
        let x = rest.pop().unwrap();
        proof {
            assert(before_rest == rest@.push(x));
        }
        insert_sorted(&mut out, x);
        proof {
            broadcast use vstd::multiset::group_multiset_axioms;
            let i = choose|i: int| 0 <= i <= before_out.len() && out@ == before_out.insert(i, x);
            vstd::seq_lib::to_multiset_insert(before_out, i, x);
            vstd::seq_lib::to_multiset_build(rest@, x);
            assert(out@.to_multiset() == before_out.to_multiset().insert(x));
            assert(before_rest.to_multiset() == rest@.to_multiset().insert(x));
            assert(out@.to_multiset().add(rest@.to_multiset()) =~= before_out.to_multiset().add(
                before_rest.to_multiset(),
            ));
        }
    }
    proof {
        broadcast use vstd::multiset::group_multiset_axioms;
        assert(rest@.to_multiset() =~= vstd::multiset::Multiset::empty());
        assert(out@.to_multiset().add(rest@.to_multiset()) =~= out@.to_multiset());
    }
    out
}

} // verus!
