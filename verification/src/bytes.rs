use vstd::prelude::*;

verus! {

/// Byte-wise equality of two buffers.
pub fn bytes_eq(a: &Vec<u8>, b: &Vec<u8>) -> (r: bool)
    ensures
        r == (a@ == b@),
{
    if a.len() != b.len() {
        return false;
    }
    let mut i: usize = 0;
    while i < a.len()
        invariant
            a.len() == b.len(),
            i <= a.len(),
            forall|j: int| 0 <= j < i ==> a@[j] == b@[j],
        decreases a.len() - i,
    {
        if a[i] != b[i] {
            return false;
        }
        i = i + 1;
    }
    assert(a@ =~= b@);
    true
}

/// A copy of a buffer.
pub fn copy_bytes(a: &Vec<u8>) -> (r: Vec<u8>)
    ensures
        r@ == a@,
{
    let r = a.clone();
    assert(r@ =~= a@);
    r
}

/// Whether `x` occurs among the buffers of `list`.
pub open spec fn seq_has(list: Seq<Seq<u8>>, x: Seq<u8>) -> bool {
    exists|i: int| 0 <= i < list.len() && list[i] == x
}

/// The views of a list of buffers.
pub open spec fn views(list: Seq<Vec<u8>>) -> Seq<Seq<u8>> {
    list.map_values(|b: Vec<u8>| b@)
}

/// Whether `x` occurs in `list`.
pub fn contains_bytes(list: &Vec<Vec<u8>>, x: &Vec<u8>) -> (r: bool)
    ensures
        r == seq_has(views(list@), x@),
{
    let mut i: usize = 0;
    while i < list.len()
        invariant
            i <= list.len(),
            forall|j: int| 0 <= j < i ==> list@[j]@ != x@,
        decreases list.len() - i,
    {
        if bytes_eq(&list[i], x) {
            assert(views(list@)[i as int] == x@);
            return true;
        }
        i = i + 1;
    }
    assert forall|j: int| 0 <= j < views(list@).len() implies views(list@)[j] != x@ by {
        assert(views(list@)[j] == list@[j]@);
    }
    false
}

/// The bytes of a string literal, copied into a buffer.
pub fn str_bytes(s: &str) -> (r: Vec<u8>)
    requires
        s.is_ascii(),
    ensures
        r@ == s@.map_values(|c: char| c as u8),
{
    let mut r: Vec<u8> = Vec::new();
    let mut i: usize = 0;
    let n = s.unicode_len();
    while i < n
        invariant
            n == s@.len(),
            s.is_ascii(),
            i <= n,
            r@ =~= s@.subrange(0, i as int).map_values(|c: char| c as u8),
        decreases n - i,
    {
        let c = s.get_char(i);
        r.push(c as u8);
        i = i + 1;
        assert(r@ =~= s@.subrange(0, i as int).map_values(|c: char| c as u8));
    }
    assert(s@.subrange(0, n as int) =~= s@);
    r
}

} // verus!
